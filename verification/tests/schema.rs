use evelin::document::document_from_text;
use evelin::json::{Json, JsonNumber};
use evelin::schema::{json_path, manual_validate, validate_suite_document};

fn s(x: &str) -> Json {
    Json::Str(x.to_owned())
}

fn arr(items: Vec<Json>) -> Json {
    Json::Array(items)
}

fn obj(fields: Vec<(&str, Json)>) -> Json {
    Json::Object(fields.into_iter().map(|(k, v)| (k.to_owned(), v)).collect())
}

fn hello_suite() -> Json {
    obj(vec![
        ("eval_type", s("skill")),
        ("skill", s("hello-world")),
        ("skill_path", s("skills/hello-world/SKILL.md")),
        ("grader", s("markers")),
        ("rate", Json::Number(JsonNumber::Float(0.875f64.to_bits()))),
        (
            "cases",
            arr(vec![obj(vec![
                ("id", s("a")),
                ("prompt", s("b")),
                (
                    "expected",
                    obj(vec![("must_include", arr(vec![])), ("must_not_include", arr(vec![]))]),
                ),
            ])]),
        ),
    ])
}

#[test]
fn validates_yaml_suite() {
    let errors = validate_suite_document("suite.eval.yaml", &hello_suite());
    assert!(errors.is_empty(), "{errors:?}");
}

#[test]
fn reports_invalid_fields() {
    let errors = validate_suite_document("suite.eval.yaml", &obj(vec![("eval_type", s("oops"))]));
    assert!(errors
        .iter()
        .any(|item| item.contains("$.eval_type must be one of ['skill']")));
    assert!(errors
        .iter()
        .any(|item| item.contains("$ missing required property 'skill'")));
}

#[test]
fn only_suite_documents_are_checked() {
    let errors = validate_suite_document("other.json", &obj(vec![("eval_type", s("oops"))]));
    assert!(errors.is_empty(), "{errors:?}");
    let errors = manual_validate(&obj(vec![("eval_type", s("oops"))]));
    assert!(!errors.is_empty());
}

#[test]
fn validates_a_parsed_yaml_suite() {
    let text = "eval_type: skill\nskill: hello-world\nskill_path: skills/hello-world/SKILL.md\ngrader: markers\nrate: 0.875\ncases:\n  - id: a\n    prompt: b\n    expected:\n      must_include: []\n      must_not_include: []\n";
    let doc = document_from_text("suite.eval.yaml", text).expect("yaml");
    let errors = validate_suite_document("suite.eval.yaml", &doc);
    assert!(errors.is_empty(), "{errors:?}");
}

#[test]
fn reports_unknown_keys_and_bad_rate() {
    let doc = document_from_text(
        "suite.eval.json",
        r#"{"eval_type":"skill","skill":"s","skill_path":"p","grader":"markers","rate":2,"cases":[],"bogus":1}"#,
    )
    .expect("json");
    let errors = validate_suite_document("suite.eval.yaml", &doc);
    assert!(errors.iter().any(|e| e.contains("$.bogus is not allowed")), "{errors:?}");
    assert!(errors.iter().any(|e| e.contains("$.rate")), "{errors:?}");
}

#[test]
fn writes_json_paths() {
    assert_eq!(json_path(&vec![]), "$");
    assert_eq!(json_path(&vec!["cases".to_owned(), "[0]".to_owned(), "id".to_owned()]), "$.cases[0].id");
}
