use evelin::eval::EvalRunnerReport;
use evelin::gate::ReportSummary;
use evelin::suite::{
    discover_eval_configs, find_gate_config, gate_config_root, is_schema_valid, runtime_detail,
    schema_detail, summarize_suite, GateSearch, SuiteAction, SuiteRun, SuiteStep,
};

fn names(v: &[&str]) -> Vec<String> {
    v.iter().map(|s| s.to_string()).collect()
}

fn runner() -> EvalRunnerReport {
    EvalRunnerReport {
        mode: "live_codex_exec".to_owned(),
        global_config_path: None,
        max_concurrency: 3,
        effective_concurrency: 1,
        serial_retry_count: 0,
        codex_timeout_seconds: 180,
        codex_sandbox: "read-only".to_owned(),
        codex_model: None,
        codex_reasoning_effort: None,
        codex_extra_args: vec![],
        codex_isolation: true,
        codex_home_base_dir: "/tmp/codex-evals".to_owned(),
        codex_home: None,
    }
}

fn step(status: &str) -> SuiteStep {
    SuiteStep {
        step_type: "eval".to_owned(),
        name: "n".to_owned(),
        status: status.to_owned(),
        config: None,
        output: None,
        detail: None,
        runtime_detail: None,
        duration_ms: None,
        exit_code: None,
        reason: None,
    }
}

#[test]
fn discovers_eval_configs_sorted_by_name() {
    let found = discover_eval_configs(
        "/s",
        &names(&["eval.yml", "eval.yaml"]),
        &names(&["b.eval.yaml", "notes.md", "a.eval_config.json", "eval.yaml", "c.eval.yml", "b.eval.yaml"]),
    );
    assert_eq!(
        found,
        names(&["/s/a.eval_config.json", "/s/b.eval.yaml", "/s/c.eval.yml", "/s/eval.yaml", "/s/eval.yml"])
    );
    assert!(discover_eval_configs("/s", &vec![], &names(&["x.md"])).is_empty());
}

#[test]
fn runs_skill_suite_end_to_end() {
    let configs = names(&["/p/tests/src/skills/scope/suite.eval.yaml"]);
    let mut run = SuiteRun::new("/p/tests/src/skills/scope", "/p/out", configs);
    match run.next_action() {
        SuiteAction::CheckSchema { index, output } => {
            assert_eq!(index, 0);
            assert_eq!(output, "/p/out/suite.schema.json");
        }
        other => panic!("unexpected {other:?}"),
    }
    run.schema_checked(0, 3);
    match run.next_action() {
        SuiteAction::ReadGateCandidate { index, root } => {
            assert_eq!(index, 0);
            assert_eq!(root, "/p/tests");
        }
        other => panic!("unexpected {other:?}"),
    }
    run.gate_candidate_read(true);
    match run.next_action() {
        SuiteAction::LintGate { config, output } => {
            assert_eq!(config, "/p/tests/src/skills/scope/suite.eval.yaml");
            assert_eq!(output, "/p/out/gate-lint.json");
        }
        other => panic!("unexpected {other:?}"),
    }
    let gate = ReportSummary { total: 1, passed: 1, failed: 0, verdict: "pass".to_owned(), duration_ms: 2 };
    run.gate_linted(&gate, 2);
    match run.next_action() {
        SuiteAction::RunEval { index } => assert_eq!(index, 0),
        other => panic!("unexpected {other:?}"),
    }
    run.eval_ran("suite", "/p/out/suite.eval.json", "pass", 1, 1, "1.000", &runner(), 9);
    assert!(matches!(run.next_action(), SuiteAction::Finish));
    let (steps, summary) = run.finish(20);

    assert_eq!(summary.verdict, "pass");
    assert!(steps.iter().any(|s| s.step_type == "gate_lint" && s.status == "pass"));
    assert!(steps.iter().any(|s| s.step_type == "eval" && s.status == "pass"));
    assert_eq!(steps[0].name, "schema:suite");
    assert_eq!(steps[0].detail.as_deref(), Some("schema ok  t=3ms"));
    assert_eq!(steps[1].detail.as_deref(), Some("1/1 checks  t=2ms"));
    assert_eq!(steps[2].detail.as_deref(), Some("1/1 pass  rate=1.000  t=9ms"));
    assert_eq!(
        steps[2].runtime_detail.as_deref(),
        Some("isolation=on  concurrency=3/1  retries=0  sandbox=read-only  model=default  effort=default")
    );
    assert_eq!(summary.steps_total, 3);
    assert_eq!(summary.steps_passed, 3);
}

#[test]
fn skips_what_a_failed_schema_rules_out() {
    let configs = names(&["/s/a.eval.yaml", "/s/b.eval.yaml"]);
    let mut run = SuiteRun::new("/s", "/o", configs);
    assert!(matches!(run.next_action(), SuiteAction::CheckSchema { index: 0, .. }));
    run.schema_checked(2, 1);
    assert!(matches!(run.next_action(), SuiteAction::CheckSchema { index: 1, .. }));
    run.schema_checked(0, 1);
    match run.next_action() {
        SuiteAction::ReadGateCandidate { index, .. } => assert_eq!(index, 1),
        other => panic!("unexpected {other:?}"),
    }
    run.gate_candidate_read(false);
    match run.next_action() {
        SuiteAction::CheckLegacyGate { path } => assert_eq!(path, "/s/gate_requirements.json"),
        other => panic!("unexpected {other:?}"),
    }
    run.legacy_gate_checked(false);
    match run.next_action() {
        SuiteAction::RunEval { index } => assert_eq!(index, 1),
        other => panic!("unexpected {other:?}"),
    }
    run.eval_ran("b", "/o/b.eval.json", "fail", 0, 1, "0.000", &runner(), 4);
    assert!(matches!(run.next_action(), SuiteAction::Finish));
    let (steps, summary) = run.finish(5);
    let kinds: Vec<(&str, &str)> =
        steps.iter().map(|s| (s.step_type.as_str(), s.status.as_str())).collect();
    assert_eq!(
        kinds,
        vec![
            ("schema_lint", "fail"),
            ("schema_lint", "pass"),
            ("gate_lint", "skipped"),
            ("eval", "skipped"),
            ("eval", "fail"),
        ]
    );
    assert_eq!(steps[0].detail.as_deref(), Some("2 error(s)  t=1ms"));
    assert_eq!(steps[2].reason.as_deref(), Some("missing valid embedded or legacy gate requirements"));
    assert_eq!(steps[3].reason.as_deref(), Some("schema validation failed"));
    assert_eq!(steps[3].name, "a");
    assert_eq!(steps[4].exit_code, Some(1));
    assert_eq!(summary.verdict, "fail");
    assert_eq!(summary.steps_skipped, 2);
}

#[test]
fn a_skill_without_configs_is_skipped() {
    let mut run = SuiteRun::new("/s", "/o", vec![]);
    assert!(matches!(run.next_action(), SuiteAction::CheckLegacyGate { .. }));
    run.legacy_gate_checked(false);
    assert!(matches!(run.next_action(), SuiteAction::Finish));
    let (steps, summary) = run.finish(1);
    assert_eq!(steps.len(), 2);
    assert_eq!(steps[1].name, "evals");
    assert_eq!(steps[1].reason.as_deref(), Some("no eval config"));
    assert_eq!(summary.verdict, "skipped");
}

#[test]
fn the_legacy_requirements_file_is_the_gate_config_when_present() {
    let mut run = SuiteRun::new("/s", "/o", vec![]);
    assert!(matches!(run.next_action(), SuiteAction::CheckLegacyGate { .. }));
    run.legacy_gate_checked(true);
    match run.next_action() {
        SuiteAction::LintGate { config, .. } => assert_eq!(config, "/s/gate_requirements.json"),
        other => panic!("unexpected {other:?}"),
    }
}

#[test]
fn suite_verdicts() {
    assert_eq!(summarize_suite(&vec![step("pass"), step("skipped")], 0).verdict, "pass");
    assert_eq!(summarize_suite(&vec![step("pass"), step("fail")], 0).verdict, "fail");
    assert_eq!(summarize_suite(&vec![step("skipped")], 0).verdict, "skipped");
    assert_eq!(summarize_suite(&vec![], 0).verdict, "skipped");
}

#[test]
fn gate_search_helpers() {
    let configs = names(&["/a", "/b"]);
    let validity = vec![("/a".to_owned(), false), ("/b".to_owned(), true)];
    assert!(!is_schema_valid(&validity, "/a"));
    assert!(is_schema_valid(&validity, "/b"));
    assert!(!is_schema_valid(&validity, "/c"));
    match find_gate_config(&configs, &validity, "/x/tests/src/skills/s", 0) {
        GateSearch::Load { index, root } => {
            assert_eq!(index, 1);
            assert_eq!(root, "/x/tests");
        }
        GateSearch::Legacy { .. } => panic!("expected a config"),
    }
    assert!(matches!(find_gate_config(&configs, &validity, "/s", 2), GateSearch::Legacy { .. }));
    assert_eq!(gate_config_root("s"), "s");
}

#[test]
fn formats_step_details() {
    assert_eq!(schema_detail(0, 12), "schema ok  t=12ms");
    assert_eq!(schema_detail(3, 0), "3 error(s)  t=0ms");
    let mut r = runner();
    r.codex_isolation = false;
    r.codex_model = Some("m".to_owned());
    assert_eq!(
        runtime_detail(&r),
        "isolation=off  concurrency=3/1  retries=0  sandbox=read-only  model=m  effort=default"
    );
}
