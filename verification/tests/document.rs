use evelin::document::{
    as_object, document_from_text, extension, jsonl_or_stream_from_text, resolve_path,
};
use evelin::error::EvelinError;
use evelin::json::{Json, JsonNumber};

#[test]
fn reads_extensions_in_lowercase() {
    assert_eq!(extension("a/b.YAML").as_deref(), Some("yaml"));
    assert_eq!(extension("a/b.json").as_deref(), Some("json"));
    assert_eq!(extension("a/b").as_deref(), None);
    assert_eq!(extension("a/.hidden").as_deref(), None);
}

#[test]
fn resolves_relative_paths_against_root() {
    assert_eq!(resolve_path("/root", "x/y.yaml"), "/root/x/y.yaml");
    assert_eq!(resolve_path("/root", "/abs/y.yaml"), "/abs/y.yaml");
}

#[test]
fn reads_documents_by_extension() {
    let j = document_from_text("a.json", r#"{"k": [1, -2, 1.5, true, null, "s"]}"#).expect("json");
    match j {
        Json::Object(fields) => {
            assert_eq!(fields[0].0, "k");
            match &fields[0].1 {
                Json::Array(items) => {
                    assert!(matches!(items[0], Json::Number(JsonNumber::PosInt(1))));
                    assert!(matches!(items[1], Json::Number(JsonNumber::NegInt(-2))));
                    assert!(matches!(items[2], Json::Number(JsonNumber::Float(b)) if b == 1.5f64.to_bits()));
                    assert!(matches!(items[3], Json::Bool(true)));
                    assert!(matches!(items[4], Json::Null));
                    assert!(matches!(&items[5], Json::Str(x) if x == "s"));
                }
                other => panic!("unexpected {other:?}"),
            }
        }
        other => panic!("unexpected {other:?}"),
    }
    assert!(document_from_text("a.yml", "k: v\n").is_ok());
    assert!(document_from_text("a.toml", "k = 1\n").is_ok());
}

#[test]
fn reports_document_errors() {
    assert!(matches!(document_from_text("a.json", "{"), Err(EvelinError::Json { .. })));
    assert!(matches!(document_from_text("a.yaml", "a: [1"), Err(EvelinError::Yaml { .. })));
    assert!(matches!(document_from_text("a.toml", "a = "), Err(EvelinError::Toml { .. })));
    match document_from_text("a.txt", "x") {
        Err(EvelinError::Message(m)) => assert_eq!(m, "unsupported config extension for a.txt: .txt"),
        other => panic!("unexpected {other:?}"),
    }
    match document_from_text("noext", "x") {
        Err(EvelinError::Message(m)) => assert_eq!(m, "missing config extension for noext"),
        other => panic!("unexpected {other:?}"),
    }
}

#[test]
fn reads_json_lines_and_streams() {
    let rows = jsonl_or_stream_from_text("p.jsonl", "{\"a\":1}\n\n{\"a\":2}\n").expect("jsonl");
    assert_eq!(rows.len(), 2);
    let rows = jsonl_or_stream_from_text("p.json", "{\"a\":1} {\"a\":2}").expect("stream");
    assert_eq!(rows.len(), 2);
}

#[test]
fn requires_objects() {
    let v = Json::Null;
    match as_object(&v, "thing") {
        Err(EvelinError::Message(m)) => assert_eq!(m, "thing must be an object"),
        other => panic!("unexpected {other:?}"),
    }
}

#[test]
fn resolving_again_gives_the_path_back() {
    let once = resolve_path("/root", "a/b.yaml");
    assert!(std::path::Path::new(&once).is_absolute());
    assert_eq!(resolve_path("/root", &once), once);
}
