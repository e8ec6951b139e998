use evelin::config::{
    effective_runner_config, fallback_eval_output_name, is_default_eval_config, sanitize_name,
    strip_eval_suffix, EvalConfig, EvalType, GlobalEvalConfig, ProjectLayout, RunnerDefaults,
    RunnerDefaultsPatch,
};
use evelin::error::EvelinError;
use evelin::json::{Json, JsonNumber};

fn s(x: &str) -> Json {
    Json::Str(x.to_owned())
}

fn float(x: f64) -> Json {
    Json::Number(JsonNumber::Float(x.to_bits()))
}

fn num(n: u64) -> Json {
    Json::Number(JsonNumber::PosInt(n))
}

fn arr(items: Vec<Json>) -> Json {
    Json::Array(items)
}

fn obj(fields: Vec<(&str, Json)>) -> Json {
    Json::Object(fields.into_iter().map(|(k, v)| (k.to_owned(), v)).collect())
}

fn one_case() -> Json {
    arr(vec![obj(vec![
        ("id", s("a")),
        ("prompt", s("b")),
        (
            "expected",
            obj(vec![("must_include", arr(vec![])), ("must_not_include", arr(vec![]))]),
        ),
    ])])
}

fn hello_config(extra: Vec<(&str, Json)>) -> Json {
    let mut fields = vec![
        ("eval_type", s("skill")),
        ("skill", s("hello-world")),
        ("skill_path", s("skills/hello-world/SKILL.md")),
        ("grader", s("markers")),
        ("rate", float(0.875)),
    ];
    fields.extend(extra);
    fields.push(("cases", one_case()));
    obj(fields)
}

#[test]
fn computes_effective_eval_name() {
    let config = EvalConfig::from_value(&hello_config(vec![]), ".", None).expect("config");

    assert_eq!(config.effective_eval_name("suite.eval.yaml"), "suite");
    assert_eq!(config.effective_eval_name("eval.yaml"), "eval");
}

#[test]
fn merges_global_and_inline_runner_config() {
    let project = r#"
[defaults]
max_concurrency = 5
codex_timeout_seconds = 90
codex_sandbox = "workspace-write"
codex_extra_args = ["--foo"]
codex_isolation = false

[eval_type.skill]
codex_isolation = true
"#;
    let config =
        EvalConfig::from_value(&hello_config(vec![("max_concurrency", num(2))]), "/tmp/p", None)
            .expect("config");

    let runner = effective_runner_config(
        &ProjectLayout::discover("/tmp/p"),
        &config,
        Some(project),
        None,
    )
    .expect("runner");
    assert_eq!(runner.max_concurrency, 2);
    assert_eq!(runner.codex_timeout_seconds, 90);
    assert_eq!(runner.codex_sandbox, "workspace-write");
    assert_eq!(runner.codex_extra_args, vec!["--foo".to_owned()]);
    assert!(runner.codex_isolation);
}

#[test]
fn uses_bundled_skill_eval_defaults_without_project_eval_config() {
    let config = EvalConfig::from_value(&hello_config(vec![]), "/tmp/p", None).expect("config");

    let runner =
        effective_runner_config(&ProjectLayout::discover("/tmp/p"), &config, None, None)
            .expect("runner");
    assert_eq!(runner.max_concurrency, 3);
    assert_eq!(runner.codex_timeout_seconds, 180);
    assert_eq!(runner.codex_sandbox, "read-only");
    assert!(runner.codex_isolation);
}

#[test]
fn home_base_env_overrides_every_layer() {
    let config = EvalConfig::from_value(
        &hello_config(vec![("codex_home_base_dir", s("/inline"))]),
        "/tmp/p",
        None,
    )
    .expect("config");
    let layout = ProjectLayout::discover("/tmp/p");
    let runner = effective_runner_config(&layout, &config, None, Some("/env")).expect("runner");
    assert_eq!(runner.codex_home_base_dir.as_deref(), Some("/env"));
    let runner = effective_runner_config(&layout, &config, None, Some("  ")).expect("runner");
    assert_eq!(runner.codex_home_base_dir.as_deref(), Some("/inline"));
    let runner = effective_runner_config(&layout, &config, None, None).expect("runner");
    assert_eq!(runner.codex_home_base_dir.as_deref(), Some("/inline"));
}

#[test]
fn rejects_invalid_effective_settings() {
    let config =
        EvalConfig::from_value(&hello_config(vec![("max_concurrency", num(0))]), "/tmp/p", None)
            .expect("config");
    match effective_runner_config(&ProjectLayout::discover("/tmp/p"), &config, None, None) {
        Err(EvelinError::Message(m)) => {
            assert_eq!(m, "Effective runtime config field 'max_concurrency' must be >= 1")
        }
        other => panic!("unexpected {other:?}"),
    }
    let config = EvalConfig::from_value(
        &hello_config(vec![("codex_sandbox", s("anything"))]),
        "/tmp/p",
        None,
    )
    .expect("config");
    match effective_runner_config(&ProjectLayout::discover("/tmp/p"), &config, None, None) {
        Err(EvelinError::Message(m)) => {
            assert_eq!(m, "Effective runtime config field 'codex_sandbox' is invalid")
        }
        other => panic!("unexpected {other:?}"),
    }
}

#[test]
fn reports_bad_project_eval_config() {
    let config = EvalConfig::from_value(&hello_config(vec![]), "/tmp/p", None).expect("config");
    let r = effective_runner_config(
        &ProjectLayout::discover("/tmp/p"),
        &config,
        Some("[defaults\n"),
        None,
    );
    assert!(matches!(r, Err(EvelinError::Toml { .. })));
}

#[test]
fn patches_merge_and_apply_in_order() {
    let mut earlier = RunnerDefaultsPatch::empty();
    earlier.max_concurrency = Some(4);
    earlier.codex_model = Some("m1".to_owned());
    let mut later = RunnerDefaultsPatch::empty();
    later.codex_model = Some("  ".to_owned());
    later.codex_timeout_seconds = Some(7);
    let mut merged = earlier.copy();
    merged.merge_from(&later);
    let mut d = RunnerDefaults::default();
    merged.apply_to(&mut d);
    assert_eq!(d.max_concurrency, 4);
    assert_eq!(d.codex_timeout_seconds, 7);
    assert_eq!(d.codex_model, None);
    assert_eq!(d.codex_sandbox, "read-only");
}

#[test]
fn global_overlay_merges_per_type_sections() {
    let mut base = GlobalEvalConfig::from_toml_str(
        "[defaults]\nmax_concurrency = 2\n[eval_type.skill]\ncodex_timeout_seconds = 5\n",
        "a.toml",
    )
    .expect("base");
    let overlay = GlobalEvalConfig::from_toml_str(
        "[eval_type.skill]\ncodex_isolation = true\n[eval_type.other]\ncodex_sandbox = \"workspace-write\"\n",
        "b.toml",
    )
    .expect("overlay");
    base.apply_overlay(overlay);
    assert_eq!(base.defaults.max_concurrency, Some(2));
    let skill = base.eval_type.iter().find(|(k, _)| k == "skill").expect("skill");
    assert_eq!(skill.1.codex_timeout_seconds, Some(5));
    assert_eq!(skill.1.codex_isolation, Some(true));
    assert!(base.eval_type.iter().any(|(k, _)| k == "other"));
}

#[test]
fn names_evals_after_their_config_files() {
    assert!(is_default_eval_config("eval.yaml"));
    assert!(is_default_eval_config("eval_config.json"));
    assert!(!is_default_eval_config("suite.eval.yaml"));
    assert_eq!(strip_eval_suffix("suite.eval.yaml"), "suite");
    assert_eq!(strip_eval_suffix("x.eval_config.json"), "x");
    assert_eq!(strip_eval_suffix("x.eval.yml"), "x");
    assert_eq!(fallback_eval_output_name("dir/eval.yml"), "eval");
    assert_eq!(fallback_eval_output_name("dir/smoke.eval.yaml"), "smoke");
}

#[test]
fn sanitizes_names() {
    assert_eq!(sanitize_name("  hello world!  ").as_deref(), Some("hello-world"));
    assert_eq!(sanitize_name("---").as_deref(), Some("eval"));
    assert_eq!(sanitize_name("a.b_c-d").as_deref(), Some("a.b_c-d"));
}

#[test]
fn eval_type_names() {
    assert_eq!(EvalType::Skill.as_str(), "skill");
}

#[test]
fn rejects_missing_required_fields() {
    let value = obj(vec![("eval_type", s("skill")), ("skill", s("x"))]);
    match EvalConfig::from_value(&value, ".", None) {
        Err(EvelinError::Message(m)) => assert_eq!(m, "Eval config requires 'cases' or 'prompts_file'"),
        other => panic!("unexpected {other:?}"),
    }
    let value = obj(vec![("eval_type", s("skill")), ("skill", s("x")), ("cases", one_case())]);
    match EvalConfig::from_value(&value, ".", None) {
        Err(EvelinError::Message(m)) => assert!(m.contains("skill_path"), "{m}"),
        other => panic!("unexpected {other:?}"),
    }
    let value = obj(vec![("eval_type", s("other")), ("cases", one_case())]);
    match EvalConfig::from_value(&value, ".", None) {
        Err(EvelinError::Message(m)) => assert_eq!(m, "unsupported eval_type 'other'"),
        other => panic!("unexpected {other:?}"),
    }
}

#[test]
fn schema_errors_stop_from_path() {
    match EvalConfig::from_path("suite.eval.yaml", "eval_type: oops
", "/r", None) {
        Err(EvelinError::Message(m)) => assert!(m.starts_with("Schema validation failed: "), "{m}"),
        other => panic!("unexpected {other:?}"),
    }
}

#[test]
fn makes_project_roots_absolute() {
    assert_eq!(ProjectLayout::absolute_root("/abs", Some("/cwd")), "/abs");
    assert_eq!(ProjectLayout::absolute_root("rel", Some("/cwd")), "/cwd/rel");
    assert_eq!(ProjectLayout::absolute_root("rel", None), "rel");
    let layout = ProjectLayout::discover("/p");
    assert_eq!(layout.skills_dir, "/p/skills");
    assert_eq!(layout.tests_skills_dir, "/p/tests/src/skills");
    assert_eq!(layout.global_eval_config_path, "/p/eval-config.toml");
    assert_eq!(layout.resolve("a/b"), "/p/a/b");
}

#[test]
fn discovers_an_absolute_layout_from_a_relative_root() {
    let root = ProjectLayout::absolute_root("proj", Some("/work"));
    assert!(std::path::Path::new(&root).is_absolute());
    let layout = ProjectLayout::discover(&root);
    assert_eq!(layout.root, "/work/proj");
    assert_eq!(layout.skills_dir, "/work/proj/skills");
    assert_eq!(layout.tests_skills_dir, "/work/proj/tests/src/skills");
    assert_eq!(layout.assets_dir, "/work/proj/.evelin");
    assert_eq!(layout.global_eval_config_path, "/work/proj/eval-config.toml");
}

#[test]
fn lays_out_only_absolute_roots() {
    assert!(ProjectLayout::at_root("relative/dir").is_none());
    let layout = ProjectLayout::at_root("/p").expect("layout");
    assert_eq!(layout.skills_dir, "/p/skills");
}
