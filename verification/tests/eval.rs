use evelin::config::{MarkerExpectations, PromptCase, RunnerConfig};
use evelin::eval::{
    count_passed, effective_concurrency, grade_cases, runner_report, serial_retry_count,
    serial_retry_indices, start_delay_ms, CaseOutcomes, EvalAction, EvalRun,
};
use evelin::runtime::{CodexExecutor, ExecMetadata};

fn case(id: &str, prompt: &str, required: &[&str], exclude: &[&str]) -> PromptCase {
    PromptCase {
        id: id.to_owned(),
        prompt: prompt.to_owned(),
        expected: MarkerExpectations {
            must_include: required.iter().map(|s| s.to_string()).collect(),
            must_not_include: exclude.iter().map(|s| s.to_string()).collect(),
        },
    }
}

fn ok_meta() -> ExecMetadata {
    ExecMetadata {
        return_code: 0,
        timed_out: false,
        duration_ms: 5,
        error: String::new(),
        stdout_tail: String::new(),
        stderr_tail: String::new(),
        retry: None,
    }
}

fn flaky_meta() -> ExecMetadata {
    ExecMetadata {
        return_code: 1,
        timed_out: false,
        duration_ms: 7,
        error: "stream disconnected".to_owned(),
        stdout_tail: String::new(),
        stderr_tail: String::new(),
        retry: None,
    }
}

fn mock(prompt: &str) -> String {
    if prompt.contains("Use") {
        "Hello world!".to_owned()
    } else {
        "Just a joke".to_owned()
    }
}

fn hello_cases() -> Vec<PromptCase> {
    vec![
        case("explicit", "Use $hello-world skill.", &["Hello world!"], &[]),
        case("negative", "Tell me a joke.", &[], &["Hello world!"]),
    ]
}

#[test]
fn runs_cases_in_parallel_and_grades_them() {
    let mut run = EvalRun::new(hello_cases(), 3);
    assert_eq!(run.concurrency(), 2);
    match run.next_action() {
        EvalAction::RunBatch { threads } => assert_eq!(threads, 2),
        other => panic!("unexpected {other:?}"),
    }
    let results = run.cases().iter().map(|c| (mock(&c.prompt), ok_meta())).collect();
    run.batch_ran(results);
    assert!(matches!(run.next_action(), EvalAction::Grade));
    let rows = run.grade();
    assert_eq!(count_passed(&rows), 2);
    assert_eq!(serial_retry_count(&rows), 0);
    assert!(rows.iter().all(|r| r.pass && r.found_response));
}

#[test]
fn runs_one_case_at_a_time_when_asked() {
    let mut run = EvalRun::new(hello_cases(), 1);
    let mut ran = vec![];
    loop {
        match run.next_action() {
            EvalAction::RunCase { index } => {
                ran.push(index);
                let p = run.cases()[index].prompt.clone();
                run.case_ran(mock(&p), ok_meta());
            }
            EvalAction::Grade => break,
            other => panic!("unexpected {other:?}"),
        }
    }
    assert_eq!(ran, vec![0, 1]);
    assert_eq!(count_passed(&run.grade()), 2);
}

#[test]
fn retries_transient_parallel_failures_serially() {
    let mut run = EvalRun::new(hello_cases(), 4);
    assert!(matches!(run.next_action(), EvalAction::RunBatch { .. }));
    run.batch_ran(vec![(String::new(), flaky_meta()), ("Just a joke".to_owned(), ok_meta())]);
    match run.next_action() {
        EvalAction::RetryCase { index } => assert_eq!(index, 0),
        other => panic!("unexpected {other:?}"),
    }
    run.case_ran("Hello world!".to_owned(), ok_meta());
    assert!(matches!(run.next_action(), EvalAction::Grade));
    let rows = run.grade();
    assert_eq!(count_passed(&rows), 2);
    assert_eq!(serial_retry_count(&rows), 1);
    let retry = rows[0].codex_exec.retry.as_ref().expect("retry");
    assert_eq!(retry.mode, "serial_after_parallel_failure");
    assert_eq!(retry.previous_duration_ms, Some(7));
    assert_eq!(retry.previous_error.as_deref(), Some("stream disconnected"));
}

#[test]
fn grades_markers_without_regard_to_case() {
    let cases = vec![
        case("a", "p", &["HELLO"], &["Bye"]),
        case("b", "p", &["x"], &[]),
        case("c", "p", &[], &[]),
    ];
    let mut outcomes = CaseOutcomes::new();
    outcomes.record("a".to_owned(), "hello there, bye".to_owned(), ok_meta());
    outcomes.record("c".to_owned(), "   ".to_owned(), ok_meta());
    let rows = grade_cases(&cases, &outcomes);
    assert!(!rows[0].pass);
    assert_eq!(rows[0].forbidden_markers_present, vec!["Bye".to_owned()]);
    assert!(rows[0].missing_required_markers.is_empty());
    assert!(!rows[1].pass);
    assert!(!rows[1].found_response);
    assert_eq!(rows[1].missing_required_markers, vec!["x".to_owned()]);
    assert_eq!(rows[1].codex_exec.error, "missing execution metadata");
    assert_eq!(rows[1].codex_exec.return_code, 1);
    assert!(!rows[2].pass);
    assert!(!rows[2].found_response);
}

#[test]
fn a_later_run_replaces_an_earlier_one() {
    let mut outcomes = CaseOutcomes::new();
    outcomes.record("a".to_owned(), "first".to_owned(), ok_meta());
    outcomes.record("a".to_owned(), "second".to_owned(), ok_meta());
    assert_eq!(outcomes.get("a").expect("a").response, "second");
    assert!(outcomes.get("b").is_none());
}

#[test]
fn selects_blank_transient_failures_for_retry() {
    let cases = vec![case("a", "p", &[], &[]), case("b", "p", &[], &[]), case("c", "p", &[], &[])];
    let mut outcomes = CaseOutcomes::new();
    outcomes.record("a".to_owned(), String::new(), flaky_meta());
    outcomes.record("b".to_owned(), "text".to_owned(), flaky_meta());
    outcomes.record("c".to_owned(), " ".to_owned(), flaky_meta());
    assert_eq!(serial_retry_indices(&cases, &outcomes), vec![0, 2]);
}

#[test]
fn bounds_concurrency() {
    assert_eq!(effective_concurrency(0, 5), 1);
    assert_eq!(effective_concurrency(3, 5), 3);
    assert_eq!(effective_concurrency(8, 5), 5);
    assert_eq!(effective_concurrency(8, 0), 1);
    assert_eq!(start_delay_ms(3), 1500);
}

#[test]
fn reports_how_the_eval_ran() {
    let runner = RunnerConfig {
        max_concurrency: 3,
        codex_timeout_seconds: 180,
        codex_sandbox: "read-only".to_owned(),
        codex_model: Some("m".to_owned()),
        codex_reasoning_effort: None,
        codex_extra_args: vec!["--x".to_owned()],
        codex_isolation: true,
        codex_home_base_dir: None,
    };
    let r = runner_report(&runner, 2, 1, None, "/base".to_owned(), Some("/home".to_owned()));
    assert_eq!(r.mode, "live_codex_exec");
    assert_eq!(r.max_concurrency, 3);
    assert_eq!(r.effective_concurrency, 2);
    assert_eq!(r.serial_retry_count, 1);
    assert_eq!(r.codex_model.as_deref(), Some("m"));
    assert_eq!(r.codex_extra_args, vec!["--x".to_owned()]);
    assert_eq!(r.codex_home_base_dir, "/base");
}

struct MockExecutor;

impl CodexExecutor for MockExecutor {
    fn execute(
        &self,
        request: evelin::runtime::ExecRequest,
    ) -> Result<evelin::runtime::ExecResponse, evelin::error::EvelinError> {
        let response_text = if request.prompt_text.contains("Use") {
            "Hello world!".to_owned()
        } else {
            "Just a joke".to_owned()
        };
        Ok(evelin::runtime::ExecResponse { response_text, metadata: ok_meta() })
    }
}

fn rate_of(n: evelin::json::JsonNumber) -> f64 {
    match n {
        evelin::json::JsonNumber::PosInt(u) => u as f64,
        evelin::json::JsonNumber::NegInt(i) => i as f64,
        evelin::json::JsonNumber::Float(b) => f64::from_bits(b),
    }
}

#[test]
fn runs_eval_with_mock_executor() {
    let text = r#"
eval_type: skill
skill: hello-world
skill_path: skills/hello-world/SKILL.md
grader: markers
rate: 0.5
cases:
  - id: explicit
    prompt: Use $hello-world skill.
    expected:
      must_include: ["Hello world!"]
      must_not_include: []
  - id: negative
    prompt: Tell me a joke.
    expected:
      must_include: []
      must_not_include: ["Hello world!"]
"#;
    let config =
        evelin::config::EvalConfig::from_path("/tmp/p/hello.eval.yaml", text, "/tmp/p", None)
            .expect("config");
    let runner = RunnerConfig {
        max_concurrency: 3,
        codex_timeout_seconds: 180,
        codex_sandbox: "read-only".to_owned(),
        codex_model: None,
        codex_reasoning_effort: None,
        codex_extra_args: vec![],
        codex_isolation: true,
        codex_home_base_dir: None,
    };
    let rate = rate_of(config.rate);
    let mut run = EvalRun::new(config.cases, runner.max_concurrency);
    loop {
        let request = |index: usize, run: &EvalRun| evelin::runtime::ExecRequest {
            prompt_id: run.cases()[index].id.clone(),
            prompt_text: run.cases()[index].prompt.clone(),
            env: Default::default(),
            cwd: "/tmp/p".to_owned(),
            runner: runner.copy(),
        };
        match run.next_action() {
            EvalAction::RunCase { index } | EvalAction::RetryCase { index } => {
                let r = MockExecutor.execute(request(index, &run)).expect("run");
                run.case_ran(r.response_text, r.metadata);
            }
            EvalAction::RunBatch { .. } => {
                let results = (0..run.cases().len())
                    .map(|i| {
                        let r = MockExecutor.execute(request(i, &run)).expect("run");
                        (r.response_text, r.metadata)
                    })
                    .collect();
                run.batch_ran(results);
            }
            EvalAction::Grade => break,
        }
    }
    let rows = run.grade();
    let passed = count_passed(&rows);
    let total = rows.len();
    let verdict = if total == 0 {
        "skipped"
    } else if passed as f64 / total as f64 >= rate {
        "pass"
    } else {
        "fail"
    };
    assert_eq!(verdict, "pass");
    assert_eq!(passed, 2);
}
