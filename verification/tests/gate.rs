use evelin::config::ProjectLayout;
use evelin::error::EvelinError;
use evelin::gate::{
    lint_items, lint_missing_file, lint_text, load_requirements_from_file, skill_file_for,
    summarize_gate, GateRequirementItem,
};

fn item(name: &str, snippets: &[&str]) -> GateRequirementItem {
    GateRequirementItem {
        name: name.to_owned(),
        skill_path: None,
        required_snippets: snippets.iter().map(|s| s.to_string()).collect(),
        config_path: None,
    }
}

#[test]
fn lints_required_snippets() {
    let layout = ProjectLayout::discover("/tmp/project");
    let items = vec![item("hello-world", &["## Workflow"])];
    let texts = vec![Some("## Workflow\nHello".to_owned())];
    let (rows, summary) = lint_items(&layout, &items, &texts, 12);

    assert_eq!(summary.verdict, "pass");
    assert_eq!(rows[0].skill_path, "/tmp/project/skills/hello-world/SKILL.md");
    assert_eq!(summary.duration_ms, 12);
}

#[test]
fn lists_missing_snippets_and_files() {
    let layout = ProjectLayout::discover("/p");
    let items = vec![item("a", &["one", "two", "three"]), item("b", &["x"])];
    let texts = vec![Some("two".to_owned()), None];
    let (rows, summary) = lint_items(&layout, &items, &texts, 3);
    assert!(!rows[0].pass);
    assert!(!rows[0].missing_file);
    assert_eq!(rows[0].missing_snippets, vec!["one".to_owned(), "three".to_owned()]);
    assert!(!rows[1].pass);
    assert!(rows[1].missing_file);
    assert_eq!(rows[1].missing_snippets, vec!["x".to_owned()]);
    assert_eq!(summary.total, 2);
    assert_eq!(summary.passed, 0);
    assert_eq!(summary.failed, 2);
    assert_eq!(summary.verdict, "fail");
}

#[test]
fn an_empty_lint_fails() {
    let summary = summarize_gate(&vec![], 0);
    assert_eq!(summary.total, 0);
    assert_eq!(summary.verdict, "fail");
}

#[test]
fn resolves_explicit_skill_paths() {
    let layout = ProjectLayout::discover("/p");
    let mut i = item("a", &[]);
    i.skill_path = Some("docs/A.md".to_owned());
    assert_eq!(skill_file_for(&layout, &i), "/p/docs/A.md");
    let row = lint_text(&i, "/p/docs/A.md", "");
    assert!(row.pass);
    let row = lint_missing_file(&i, "/p/docs/A.md");
    assert!(!row.pass && row.missing_file);
}

#[test]
fn loads_requirement_formats() {
    let suite = "skill: s\nskill_path: skills/s/SKILL.md\ngate_requirements:\n  required_snippets: [\"a\", \"b\"]\n";
    let items = load_requirements_from_file("x/suite.eval.yaml", suite).expect("suite");
    assert_eq!(items.len(), 1);
    assert_eq!(items[0].name, "s");
    assert_eq!(items[0].skill_path.as_deref(), Some("skills/s/SKILL.md"));
    assert_eq!(items[0].required_snippets, vec!["a".to_owned(), "b".to_owned()]);
    assert_eq!(items[0].config_path.as_deref(), Some("x/suite.eval.yaml"));

    let list = r#"{"skills":[{"name":"a","required_snippets":["x"]},{"name":"b","required_snippets":[]}]}"#;
    let items = load_requirements_from_file("r/gate_requirements.json", list).expect("list");
    assert_eq!(items.len(), 2);
    assert_eq!(items[1].name, "b");
    assert_eq!(items[1].config_path.as_deref(), Some("r/gate_requirements.json"));

    let single = r#"{"name":"a","required_snippets":["x"]}"#;
    let items = load_requirements_from_file("g.json", single).expect("single");
    assert_eq!(items.len(), 1);
}

#[test]
fn reports_requirement_errors() {
    match load_requirements_from_file("g.json", r#"{"other":1}"#) {
        Err(EvelinError::Message(m)) => assert_eq!(m, "Unsupported requirements format in g.json"),
        other => panic!("unexpected {other:?}"),
    }
    match load_requirements_from_file("g.json", r#"{"skills":3}"#) {
        Err(EvelinError::Message(m)) => assert_eq!(m, "Invalid skills list in g.json"),
        other => panic!("unexpected {other:?}"),
    }
    match load_requirements_from_file("g.json", r#"{"gate_requirements":{"required_snippets":["a"]}}"#) {
        Err(EvelinError::Message(m)) => assert_eq!(m, "Missing skill in g.json"),
        other => panic!("unexpected {other:?}"),
    }
    match load_requirements_from_file("g.json", r#"{"name":"a","required_snippets":[1]}"#) {
        Err(EvelinError::Message(m)) => assert_eq!(m, "Invalid required_snippets list"),
        other => panic!("unexpected {other:?}"),
    }
    match load_requirements_from_file("g.json", r#"{"skills":[{"required_snippets":[]}]}"#) {
        Err(EvelinError::Message(m)) => assert_eq!(m, "Missing skill name"),
        other => panic!("unexpected {other:?}"),
    }
}
