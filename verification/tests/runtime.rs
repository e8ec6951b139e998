use evelin::config::{EvalConfig, RunnerConfig};
use evelin::runtime::{
    case_dir_prefix, codex_exec_args, codex_home_base_dir, default_codex_home, exited_metadata,
    failure_message, finish_exec_response, is_retryable_codex_error, isolated_skill_dir,
    suite_dir_prefix, timed_out_metadata, ExecMetadata,
};
use evelin::error::EvelinError;

fn runner() -> RunnerConfig {
    RunnerConfig {
        max_concurrency: 3,
        codex_timeout_seconds: 180,
        codex_sandbox: "read-only".to_owned(),
        codex_model: None,
        codex_reasoning_effort: None,
        codex_extra_args: vec![],
        codex_isolation: false,
        codex_home_base_dir: None,
    }
}

fn meta(error: &str, stderr: &str, stdout: &str) -> ExecMetadata {
    ExecMetadata {
        return_code: 1,
        timed_out: false,
        duration_ms: 1,
        error: error.to_owned(),
        stdout_tail: stdout.to_owned(),
        stderr_tail: stderr.to_owned(),
        retry: None,
    }
}

#[test]
fn recognises_transient_failures() {
    assert!(is_retryable_codex_error(&meta("Stream Disconnected before completion", "", "")));
    assert!(is_retryable_codex_error(&meta("", "ERROR sending request for url x", "")));
    assert!(is_retryable_codex_error(&meta("", "", "Reconnecting... 2/5")));
    assert!(is_retryable_codex_error(&meta("", "failed to refresh available models", "")));
    assert!(!is_retryable_codex_error(&meta("codex exec failed (rc=2)", "bad flag", "")));
}

#[test]
fn describes_failed_runs() {
    assert_eq!(failure_message(2, "  "), "codex exec failed (rc=2)");
    assert_eq!(failure_message(-9, "boom\n  went\tbad "), "codex exec failed (rc=-9): boom went bad");
    let m = exited_metadata(3, 10, "out", "err");
    assert_eq!(m.error, "codex exec failed (rc=3): err");
    assert_eq!(m.stdout_tail, "out");
    assert!(!m.timed_out);
    let m = exited_metadata(0, 10, "out", "err");
    assert_eq!(m.error, "");
}

#[test]
fn keeps_the_tail_of_long_output() {
    let long: String = std::iter::repeat('a').take(600).chain(std::iter::once('z')).collect();
    let m = exited_metadata(0, 1, &long, "");
    assert_eq!(m.stdout_tail.chars().count(), 500);
    assert!(m.stdout_tail.ends_with('z'));
}

#[test]
fn describes_timeouts() {
    let m = timed_out_metadata(5, 180);
    assert_eq!(m.return_code, 124);
    assert!(m.timed_out);
    assert_eq!(m.error, "codex exec timeout after 180s");
}

#[test]
fn finishes_responses() {
    let r = finish_exec_response("  hi \n", exited_metadata(0, 1, "", ""));
    assert_eq!(r.response_text, "hi");
    let r = finish_exec_response(" ", meta("", "", ""));
    assert_eq!(r.metadata.error, "codex exec failed (rc=1)");
    let r = finish_exec_response(" ", meta("kept", "", ""));
    assert_eq!(r.metadata.error, "kept");
}

#[test]
fn builds_the_command_line() {
    let mut r = runner();
    assert_eq!(
        codex_exec_args(&r, "/tmp/out", "Say hi"),
        vec!["exec", "--ephemeral", "--color", "never", "--sandbox", "read-only", "--output-last-message", "/tmp/out", "Say hi"]
    );
    r.codex_model = Some("gpt-x".to_owned());
    r.codex_reasoning_effort = Some("high".to_owned());
    r.codex_extra_args = vec!["--foo".to_owned()];
    assert_eq!(
        codex_exec_args(&r, "o", "p"),
        vec!["exec", "--ephemeral", "--color", "never", "--sandbox", "read-only", "--output-last-message", "o", "--model", "gpt-x", "-c", "model_reasoning_effort=\"high\"", "--foo", "p"]
    );
    r.codex_model = Some(" ".to_owned());
    r.codex_reasoning_effort = None;
    r.codex_extra_args = vec![];
    assert_eq!(codex_exec_args(&r, "o", "p").len(), 9);
}

#[test]
fn places_isolated_homes() {
    let mut r = runner();
    assert_eq!(codex_home_base_dir(&r, "/tmp"), "/tmp/codex-evals");
    r.codex_home_base_dir = Some("/base".to_owned());
    assert_eq!(codex_home_base_dir(&r, "/tmp"), "/base");
    assert_eq!(default_codex_home(Some("/ch"), Some("/home/u")), "/ch");
    assert_eq!(default_codex_home(None, Some("/home/u")), "/home/u/.codex");
    assert_eq!(default_codex_home(None, None), "./.codex");
}

#[test]
fn names_temporary_directories() {
    assert_eq!(suite_dir_prefix("hello world", None).as_deref(), Some("codex-eval-hello-world-eval-"));
    assert_eq!(suite_dir_prefix("s", Some("smoke/1")).as_deref(), Some("codex-eval-s-smoke-1-"));
    assert_eq!(case_dir_prefix("case one").as_deref(), Some("case-case-one-"));
}

#[test]
fn finds_the_skill_to_isolate() {
    assert_eq!(isolated_skill_dir("/p/skills/a/SKILL.md", true).expect("dir"), "/p/skills/a");
    match isolated_skill_dir("/p/skills/a/SKILL.md", false) {
        Err(EvelinError::Message(m)) => {
            assert_eq!(m, "Skill eval isolation requires existing skill_path: /p/skills/a/SKILL.md")
        }
        other => panic!("unexpected {other:?}"),
    }
    match isolated_skill_dir("/", true) {
        Err(EvelinError::Message(m)) => assert_eq!(m, "skill_path has no parent: /"),
        other => panic!("unexpected {other:?}"),
    }
}

#[test]
fn eval_config_names_the_case_prompts() {
    let text = "eval_type: skill\nskill: s\nskill_path: skills/s/SKILL.md\ngrader: markers\nrate: 1\ncases:\n  - id: smoke\n    prompt: Use it.\n    expected:\n      must_include: [\"x\"]\n      must_not_include: []\n";
    let c = EvalConfig::from_path("a.eval.yaml", text, "/root", None).expect("config");
    assert_eq!(c.cases[0].id, "smoke");
    assert_eq!(c.cases[0].prompt, "Use it.");
}

#[test]
fn builds_the_request_for_a_case() {
    let case = evelin::config::PromptCase {
        id: "smoke".to_owned(),
        prompt: "Use it.".to_owned(),
        expected: evelin::config::MarkerExpectations { must_include: vec![], must_not_include: vec![] },
    };
    let mut env = std::collections::BTreeMap::new();
    env.insert("CODEX_HOME".to_owned(), "/h".to_owned());
    let r = evelin::runtime::ExecRequest::for_case(&case, env.clone(), "/root", &runner());
    assert_eq!(r.prompt_id, "smoke");
    assert_eq!(r.prompt_text, "Use it.");
    assert_eq!(r.env, env);
    assert_eq!(r.cwd, "/root");
    assert_eq!(r.runner.codex_sandbox, "read-only");
    assert_eq!(evelin::runtime::ISOLATED_CONFIG_TOML, "# Generated by evelin\n");
}
