use evelin::cli::{
    check_gate_sources, default_suite_out_dir, default_summary_out, eval_label, fail_exit_code,
    format_runtime_detail, icon, paint, pass_exit_code, suite_step_type_label,
};
use evelin::error::EvelinError;

#[test]
fn shortens_suite_step_type_labels() {
    assert_eq!(suite_step_type_label("schema_lint"), "schema");
    assert_eq!(suite_step_type_label("gate_lint"), "gate");
    assert_eq!(suite_step_type_label("eval"), "eval");
}

#[test]
fn compacts_runtime_detail_separators() {
    assert_eq!(
        format_runtime_detail("isolation=on  concurrency=3/3  retries=0  sandbox=read-only"),
        "isolation=on | concurrency=3/3 | retries=0 | sandbox=read-only"
    );
}

#[test]
fn runtime_detail_drops_empty_pieces() {
    assert_eq!(format_runtime_detail("a    b"), "a | b");
    assert_eq!(format_runtime_detail(""), "");
    assert_eq!(format_runtime_detail("single"), "single");
    assert_eq!(format_runtime_detail("  lead"), "lead");
}

#[test]
fn icons_follow_status() {
    assert_eq!(icon("pass", false), "\u{2713}");
    assert_eq!(icon("fail", false), "\u{2717}");
    assert_eq!(icon("skipped", false), "\u{2022}");
    assert_eq!(icon("info", false), "\u{203a}");
    assert_eq!(icon("other", false), "\u{b7}");
    assert_eq!(icon("pass", true), "\u{1b}[32m\u{2713}\u{1b}[0m");
    assert_eq!(icon("other", true), "\u{b7}");
}

#[test]
fn paints_only_when_colored() {
    assert_eq!(paint("x", "31", true), "\u{1b}[31mx\u{1b}[0m");
    assert_eq!(paint("x", "31", false), "x");
}

#[test]
fn exit_codes_follow_verdicts() {
    assert_eq!(pass_exit_code("pass"), 0);
    assert_eq!(pass_exit_code("fail"), 1);
    assert_eq!(pass_exit_code("skipped"), 1);
    assert_eq!(fail_exit_code("fail"), 1);
    assert_eq!(fail_exit_code("pass"), 0);
    assert_eq!(fail_exit_code("skipped"), 0);
}

#[test]
fn gate_lint_needs_exactly_one_source() {
    assert!(check_gate_sources(true, false).is_ok());
    assert!(check_gate_sources(false, true).is_ok());
    for (a, b) in [(true, true), (false, false)] {
        match check_gate_sources(a, b) {
            Err(EvelinError::Message(m)) => {
                assert_eq!(m, "Provide exactly one of --requirements or --discover-dir")
            }
            other => panic!("unexpected {other:?}"),
        }
    }
}

#[test]
fn labels_eval_runs_and_default_paths() {
    assert_eq!(eval_label("hello", "dir/suite.eval.yaml"), "eval:hello/suite.eval.yaml");
    assert_eq!(eval_label("hello", "/"), "eval:hello/eval");
    assert_eq!(default_suite_out_dir("/p", "s"), "/p/tests/results/skills/s");
    assert_eq!(default_summary_out("/o"), "/o/suite-summary.json");
}

#[test]
fn schema_verdicts() {
    assert_eq!(evelin::cli::schema_verdict(0), "pass");
    assert_eq!(evelin::cli::schema_verdict(2), "fail");
}
