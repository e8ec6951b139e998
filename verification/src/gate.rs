//! Gate linting: required snippets that skill documents must contain.
use vstd::prelude::*;

use crate::config::{copy_opt_string, copy_strings, ProjectLayout};
use crate::document::{as_object, document_from_text, join_path, path_join, spec_document};
use crate::error::{msg, ErrorModel, EvelinError};
use crate::json::{contains_key, get, lookup, Json};
use crate::text::{cat, contains, contains_str};

verus! {

/// One skill and the snippets its document must contain.
#[derive(Debug)]
pub struct GateRequirementItem {
    pub name: String,
    pub skill_path: Option<String>,
    pub required_snippets: Vec<String>,
    pub config_path: Option<String>,
}

/// The lint result of one skill.
#[derive(Debug)]
pub struct GateLintResultRow {
    pub skill: String,
    pub skill_path: String,
    pub config_path: Option<String>,
    pub pass: bool,
    pub missing_file: bool,
    pub missing_snippets: Vec<String>,
}

/// Counts and verdict of a lint or eval run.
#[derive(Debug)]
pub struct ReportSummary {
    pub total: usize,
    pub passed: usize,
    pub failed: usize,
    pub verdict: String,
    pub duration_ms: u128,
}

/// The value of a [`GateRequirementItem`].
pub struct ItemModel {
    pub name: Seq<char>,
    pub skill_path: Option<Seq<char>>,
    pub required_snippets: Seq<Seq<char>>,
    pub config_path: Option<Seq<char>>,
}

/// The value of a [`GateLintResultRow`].
pub struct RowModel {
    pub skill: Seq<char>,
    pub skill_path: Seq<char>,
    pub config_path: Option<Seq<char>>,
    pub pass: bool,
    pub missing_file: bool,
    pub missing_snippets: Seq<Seq<char>>,
}

impl View for GateRequirementItem {
    type V = ItemModel;

    open spec fn view(&self) -> ItemModel {
        ItemModel {
            name: self.name@,
            skill_path: self.skill_path.deep_view(),
            required_snippets: self.required_snippets.deep_view(),
            config_path: self.config_path.deep_view(),
        }
    }
}

impl View for GateLintResultRow {
    type V = RowModel;

    open spec fn view(&self) -> RowModel {
        RowModel {
            skill: self.skill@,
            skill_path: self.skill_path@,
            config_path: self.config_path.deep_view(),
            pass: self.pass,
            missing_file: self.missing_file,
            missing_snippets: self.missing_snippets.deep_view(),
        }
    }
}

/// The values of a list of items.
pub open spec fn items_view(items: Seq<GateRequirementItem>) -> Seq<ItemModel> {
    items.map_values(|i: GateRequirementItem| i@)
}

/// The values of a list of rows.
pub open spec fn rows_view(rows: Seq<GateLintResultRow>) -> Seq<RowModel> {
    rows.map_values(|r: GateLintResultRow| r@)
}

// ---------------------------------------------------------------------------
// Reading requirements
// ---------------------------------------------------------------------------
/// The texts of `items`, if every item is a string.
pub open spec fn snippet_texts(value: Option<Json>) -> Option<Seq<Seq<char>>> {
    match value {
        Some(v) => match v.array_of() {
            Some(items) => crate::config::texts_of(items),
            None => None,
        },
        None => None,
    }
}

/// The text of an optional string entry; any other value counts as absent.
pub open spec fn optional_text(value: Option<Json>) -> Option<Seq<char>> {
    match value {
        Some(v) => v.str_of(),
        None => None,
    }
}

/// What a requirement item document reads as; `config_path` names the file
/// it came from.
pub open spec fn spec_requirement_item(value: Json, config_path: Option<Seq<char>>) -> Result<
    ItemModel,
    ErrorModel,
> {
    match value.object_of() {
        None => Err(msg("gate requirement item must be an object"@)),
        Some(obj) => {
            let list = lookup(obj, "required_snippets"@);
            let is_array = match list {
                Some(v) => v.array_of() is Some,
                None => false,
            };
            if !is_array {
                Err(
                    msg(
                        match config_path {
                            Some(p) => "Invalid required_snippets list in "@ + p,
                            None => "Invalid required_snippets list"@,
                        },
                    ),
                )
            } else {
                match snippet_texts(list) {
                    None => Err(msg("Invalid required_snippets list"@)),
                    Some(snippets) => match optional_text(lookup(obj, "name"@)) {
                        None => Err(msg("Missing skill name"@)),
                        Some(name) => Ok(
                            ItemModel {
                                name,
                                skill_path: optional_text(lookup(obj, "skill_path"@)),
                                required_snippets: snippets,
                                config_path,
                            },
                        ),
                    },
                }
            }
        },
    }
}

/// What the embedded `gate_requirements` of the suite config at `path` read as.
pub open spec fn spec_requirements_from_suite(obj: Seq<(String, Json)>, path: Seq<char>) -> Result<
    ItemModel,
    ErrorModel,
> {
    match lookup(obj, "gate_requirements"@) {
        None => Err(msg("Missing or invalid gate_requirements in "@ + path)),
        Some(gate) => match gate.object_of() {
            None => Err(msg("gate_requirements must be an object"@)),
            Some(gobj) => match snippet_texts(lookup(gobj, "required_snippets"@)) {
                None => Err(msg("Invalid required_snippets list in "@ + path)),
                Some(snippets) => match optional_text(lookup(obj, "skill"@)) {
                    None => Err(msg("Missing skill in "@ + path)),
                    Some(name) => Ok(
                        ItemModel {
                            name,
                            skill_path: optional_text(lookup(obj, "skill_path"@)),
                            required_snippets: snippets,
                            config_path: Some(path),
                        },
                    ),
                },
            },
        },
    }
}

/// What a list of requirement item documents reads as.
pub open spec fn spec_item_list(rows: Seq<Json>, path: Seq<char>) -> Result<
    Seq<ItemModel>,
    ErrorModel,
>
    decreases rows.len(),
{
    if rows.len() == 0 {
        Ok(seq![])
    } else {
        match spec_requirement_item(rows[0], Some(path)) {
            Err(e) => Err(e),
            Ok(i) => match spec_item_list(rows.drop_first(), path) {
                Err(e) => Err(e),
                Ok(rest) => Ok(seq![i] + rest),
            },
        }
    }
}

/// What a requirements file reads as: a suite config with embedded
/// requirements, a `skills` list of items, or a single item.
pub open spec fn spec_requirements(path: Seq<char>, text: Seq<char>) -> Result<
    Seq<ItemModel>,
    ErrorModel,
> {
    match spec_document(path, text) {
        Err(e) => Err(e),
        Ok(value) => match value.object_of() {
            None => Err(msg("requirements document must be an object"@)),
            Some(obj) => if lookup(obj, "gate_requirements"@) is Some {
                match spec_requirements_from_suite(obj, path) {
                    Ok(i) => Ok(seq![i]),
                    Err(e) => Err(e),
                }
            } else if lookup(obj, "skills"@) is Some {
                match lookup(obj, "skills"@).unwrap().array_of() {
                    None => Err(msg("Invalid skills list in "@ + path)),
                    Some(rows) => spec_item_list(rows, path),
                }
            } else if lookup(obj, "name"@) is Some && lookup(obj, "required_snippets"@) is Some {
                match spec_requirement_item(value, Some(path)) {
                    Ok(i) => Ok(seq![i]),
                    Err(e) => Err(e),
                }
            } else {
                Err(msg("Unsupported requirements format in "@ + path))
            },
        },
    }
}

fn optional_text_exec(value: Option<&Json>) -> (r: Option<String>)
    ensures
        r.deep_view() == optional_text(crate::json::deref_opt(value)),
{
    match value {
        Some(v) => match v.as_str() {
            Some(s) => Some(s.to_owned()),
            None => None,
        },
        None => None,
    }
}

fn snippet_list(value: Option<&Json>) -> (r: Option<Vec<String>>)
    ensures
        r.deep_view() == snippet_texts(crate::json::deref_opt(value)),
{
    match value {
        Some(v) => match v.as_array() {
            Some(items) => crate::config::texts(items),
            None => None,
        },
        None => None,
    }
}

/// Reads one requirement item; `config_path` names the file it came from.
pub fn parse_requirement_item(value: &Json, config_path: Option<&str>) -> (r: Result<
    GateRequirementItem,
    EvelinError,
>)
    ensures
        crate::error::res_view(r) == spec_requirement_item(
            *value,
            crate::config::opt_text(config_path),
        ),
{
    let obj = match as_object(value, "gate requirement item") {
        Ok(o) => o,
        Err(e) => {
            proof {
                reveal_strlit("gate requirement item");
                reveal_strlit(" must be an object");
                reveal_strlit("gate requirement item must be an object");
                assert("gate requirement item"@ + " must be an object"@
                    =~= "gate requirement item must be an object"@);
            }
            return Err(e);
        },
    };
    let list = get(obj, "required_snippets");
    let is_array = match list {
        Some(v) => v.as_array().is_some(),
        None => false,
    };
    if !is_array {
        return Err(
            match config_path {
                Some(p) => EvelinError::Message(cat("Invalid required_snippets list in ", p)),
                None => EvelinError::message("Invalid required_snippets list"),
            },
        );
    }
    let required_snippets = match snippet_list(list) {
        Some(s) => s,
        None => {
            return Err(EvelinError::message("Invalid required_snippets list"));
        },
    };
    let name = match optional_text_exec(get(obj, "name")) {
        Some(n) => n,
        None => {
            return Err(EvelinError::message("Missing skill name"));
        },
    };
    Ok(
        GateRequirementItem {
            name,
            skill_path: optional_text_exec(get(obj, "skill_path")),
            required_snippets,
            config_path: match config_path {
                Some(p) => Some(p.to_owned()),
                None => None,
            },
        },
    )
}

/// Reads the requirements embedded in the suite config at `path`.
fn load_requirements_from_suite(path: &str, obj: &Vec<(String, Json)>) -> (r: Result<
    GateRequirementItem,
    EvelinError,
>)
    ensures
        crate::error::res_view(r) == spec_requirements_from_suite(obj@, path@),
{
    let gate = match get(obj, "gate_requirements") {
        Some(g) => g,
        None => {
            return Err(EvelinError::Message(cat("Missing or invalid gate_requirements in ", path)));
        },
    };
    let gobj = match as_object(gate, "gate_requirements") {
        Ok(o) => o,
        Err(e) => {
            proof {
                reveal_strlit("gate_requirements");
                reveal_strlit(" must be an object");
                reveal_strlit("gate_requirements must be an object");
                assert("gate_requirements"@ + " must be an object"@
                    =~= "gate_requirements must be an object"@);
            }
            return Err(e);
        },
    };
    let required_snippets = match snippet_list(get(gobj, "required_snippets")) {
        Some(s) => s,
        None => {
            return Err(EvelinError::Message(cat("Invalid required_snippets list in ", path)));
        },
    };
    let name = match optional_text_exec(get(obj, "skill")) {
        Some(n) => n,
        None => {
            return Err(EvelinError::Message(cat("Missing skill in ", path)));
        },
    };
    Ok(
        GateRequirementItem {
            name,
            skill_path: optional_text_exec(get(obj, "skill_path")),
            required_snippets,
            config_path: Some(path.to_owned()),
        },
    )
}

fn single_item(i: GateRequirementItem) -> (r: Vec<GateRequirementItem>)
    ensures
        items_view(r@) == seq![i@],
{
    let mut v: Vec<GateRequirementItem> = Vec::new();
    v.push(i);
    assert(items_view(v@) =~= seq![i@]);
    v
}

/// Reads gate requirements in the file at `path`, whose text is `text`.
pub fn load_requirements_from_file(path: &str, text: &str) -> (r: Result<
    Vec<GateRequirementItem>,
    EvelinError,
>)
    ensures
        match (r, spec_requirements(path@, text@)) {
            (Ok(v), Ok(w)) => items_view(v@) == w,
            (Err(e), Err(f)) => e@ == f,
            _ => false,
        },
{
    let value = match document_from_text(path, text) {
        Ok(v) => v,
        Err(e) => {
            return Err(e);
        },
    };
    let obj = match as_object(&value, "requirements document") {
        Ok(o) => o,
        Err(e) => {
            proof {
                reveal_strlit("requirements document");
                reveal_strlit(" must be an object");
                reveal_strlit("requirements document must be an object");
                assert("requirements document"@ + " must be an object"@
                    =~= "requirements document must be an object"@);
            }
            return Err(e);
        },
    };
    if contains_key(obj, "gate_requirements") {
        return match load_requirements_from_suite(path, obj) {
            Ok(i) => Ok(single_item(i)),
            Err(e) => Err(e),
        };
    }
    if let Some(skills) = get(obj, "skills") {
        let rows = match skills.as_array() {
            Some(r) => r,
            None => {
                return Err(EvelinError::Message(cat("Invalid skills list in ", path)));
            },
        };
        let mut items: Vec<GateRequirementItem> = Vec::new();
        let mut i: usize = 0;
        assert(rows@.skip(0) =~= rows@);
        assert(items_view(items@) + seq![] =~= items_view(items@));
        assert(spec_requirements(path@, text@) == spec_item_list(rows@, path@));
        while i < rows.len()
            invariant
                i <= rows@.len(),
                spec_requirements(path@, text@) == spec_item_list(rows@, path@),
                spec_item_list(rows@, path@) == match spec_item_list(rows@.skip(i as int), path@) {
                    Ok(rest) => Ok(items_view(items@) + rest),
                    Err(e) => Err(e),
                },
            decreases rows.len() - i,
        {
            assert(rows@.skip(i as int).drop_first() =~= rows@.skip(i + 1));
            assert(rows@.skip(i as int)[0] == rows@[i as int]);
            let item = match parse_requirement_item(&rows[i], Some(path)) {
                Ok(item) => item,
                Err(e) => {
                    assert(crate::config::opt_text(Some(path)) == Some(path@));
                    assert(spec_item_list(rows@.skip(i as int), path@) == Err::<Seq<ItemModel>, ErrorModel>(e@));
                    return Err(e);
                },
            };
            let ghost before = items_view(items@);
            items.push(item);
            proof {
                assert(items_view(items@) =~= before.push(item@));
                match spec_item_list(rows@.skip(i + 1), path@) {
                    Ok(rest) => {
                        assert(before + (seq![item@] + rest) =~= items_view(items@) + rest);
                    },
                    Err(_) => {},
                }
            }
            i += 1;
        }
        assert(rows@.skip(i as int).len() == 0);
        return Ok(items);
    }
    if contains_key(obj, "name") && contains_key(obj, "required_snippets") {
        return match parse_requirement_item(&value, Some(path)) {
            Ok(i) => Ok(single_item(i)),
            Err(e) => Err(e),
        };
    }
    Err(EvelinError::Message(cat("Unsupported requirements format in ", path)))
}

// ---------------------------------------------------------------------------
// Linting
// ---------------------------------------------------------------------------
/// The skill document an item is checked against: its `skill_path`
/// resolved against the root, else `skills/<name>/SKILL.md`.
pub open spec fn spec_skill_file(
    root: Seq<char>,
    skills_dir: Seq<char>,
    item: ItemModel,
) -> Seq<char> {
    match item.skill_path {
        Some(p) => crate::document::spec_resolve_path(root, p),
        None => path_join(path_join(skills_dir, item.name), "SKILL.md"@),
    }
}

/// The snippets of `snippets` that `text` lacks, in order.
pub open spec fn missing_snippets(text: Seq<char>, snippets: Seq<Seq<char>>) -> Seq<Seq<char>>
    decreases snippets.len(),
{
    if snippets.len() == 0 {
        seq![]
    } else {
        missing_snippets(text, snippets.drop_last()) + if contains(text, snippets.last()) {
            seq![]
        } else {
            seq![snippets.last()]
        }
    }
}

/// The row of an item whose skill document `skill_file` does not exist.
pub open spec fn missing_file_row(item: ItemModel, skill_file: Seq<char>) -> RowModel {
    RowModel {
        skill: item.name,
        skill_path: skill_file,
        config_path: item.config_path,
        pass: false,
        missing_file: true,
        missing_snippets: item.required_snippets,
    }
}

/// The row of an item whose skill document `skill_file` reads `text`.
pub open spec fn text_row(item: ItemModel, skill_file: Seq<char>, text: Seq<char>) -> RowModel {
    let missing = missing_snippets(text, item.required_snippets);
    RowModel {
        skill: item.name,
        skill_path: skill_file,
        config_path: item.config_path,
        pass: missing.len() == 0,
        missing_file: false,
        missing_snippets: missing,
    }
}

/// The path of the skill document an item is checked against.
pub fn skill_file_for(layout: &ProjectLayout, item: &GateRequirementItem) -> (r: String)
    ensures
        r@ == spec_skill_file(layout.root@, layout.skills_dir@, item@),
{
    match &item.skill_path {
        Some(p) => crate::document::resolve_path(layout.root.as_str(), p.as_str()),
        None => {
            let dir = join_path(layout.skills_dir.as_str(), item.name.as_str());
            join_path(dir.as_str(), "SKILL.md")
        },
    }
}

/// The lint row of an item whose skill document is missing.
pub fn lint_missing_file(item: &GateRequirementItem, skill_file: &str) -> (r: GateLintResultRow)
    ensures
        r@ == missing_file_row(item@, skill_file@),
{
    GateLintResultRow {
        skill: item.name.clone(),
        skill_path: skill_file.to_owned(),
        config_path: copy_opt_string(&item.config_path),
        pass: false,
        missing_file: true,
        missing_snippets: copy_strings(&item.required_snippets),
    }
}

/// The lint row of an item whose skill document reads `text`.
pub fn lint_text(item: &GateRequirementItem, skill_file: &str, text: &str) -> (r:
    GateLintResultRow)
    ensures
        r@ == text_row(item@, skill_file@, text@),
{
    let ghost snippets = item.required_snippets.deep_view();
    let mut missing: Vec<String> = Vec::new();
    let mut i: usize = 0;
    assert(missing.deep_view() =~= missing_snippets(text@, snippets.take(0)));
    while i < item.required_snippets.len()
        invariant
            i <= item.required_snippets@.len(),
            snippets == item.required_snippets.deep_view(),
            missing.deep_view() == missing_snippets(text@, snippets.take(i as int)),
        decreases item.required_snippets.len() - i,
    {
        assert(snippets.take(i + 1).drop_last() =~= snippets.take(i as int));
        assert(snippets.take(i + 1).last() == item.required_snippets@[i as int]@);
        let ghost before = missing.deep_view();
        let s = item.required_snippets[i].as_str();
        if !contains_str(text, s) {
            missing.push(s.to_owned());
            assert(missing.deep_view() =~= before + seq![s@]);
        } else {
            assert(missing.deep_view() =~= before + seq![]);
        }
        i += 1;
    }
    assert(snippets.take(item.required_snippets@.len() as int) =~= snippets);
    let pass = missing.len() == 0;
    GateLintResultRow {
        skill: item.name.clone(),
        skill_path: skill_file.to_owned(),
        config_path: copy_opt_string(&item.config_path),
        pass,
        missing_file: false,
        missing_snippets: missing,
    }
}

/// The number of rows that pass.
pub open spec fn passed_count(rows: Seq<RowModel>) -> nat
    decreases rows.len(),
{
    if rows.len() == 0 {
        0
    } else {
        passed_count(rows.drop_last()) + if rows.last().pass {
            1nat
        } else {
            0nat
        }
    }
}

/// The summary of a gate lint over `rows`: it passes when there is at least
/// one row and every row passes.
pub open spec fn gate_summary_ok(s: ReportSummary, rows: Seq<RowModel>, duration_ms: u128) -> bool {
    &&& s.total == rows.len()
    &&& s.passed == passed_count(rows)
    &&& s.failed == rows.len() - passed_count(rows)
    &&& s.verdict@ == if rows.len() > 0 && passed_count(rows) == rows.len() {
        "pass"@
    } else {
        "fail"@
    }
    &&& s.duration_ms == duration_ms
}

proof fn lemma_passed_count_bound(rows: Seq<RowModel>)
    ensures
        passed_count(rows) <= rows.len(),
    decreases rows.len(),
{
    if rows.len() > 0 {
        lemma_passed_count_bound(rows.drop_last());
    }
}

/// Counts the rows of a gate lint and gives its verdict.
pub fn summarize_gate(rows: &Vec<GateLintResultRow>, duration_ms: u128) -> (r: ReportSummary)
    ensures
        gate_summary_ok(r, rows_view(rows@), duration_ms),
{
    let ghost views = rows_view(rows@);
    let mut passed: usize = 0;
    let mut i: usize = 0;
    while i < rows.len()
        invariant
            i <= rows@.len(),
            views == rows_view(rows@),
            passed == passed_count(views.take(i as int)),
            passed <= i,
        decreases rows.len() - i,
    {
        assert(views.take(i + 1).drop_last() =~= views.take(i as int));
        assert(views.take(i + 1).last() == rows@[i as int]@);
        if rows[i].pass {
            passed += 1;
        }
        i += 1;
    }
    assert(views.take(rows@.len() as int) =~= views);
    proof {
        lemma_passed_count_bound(views);
    }
    let total = rows.len();
    let verdict = if total > 0 && passed == total {
        "pass".to_owned()
    } else {
        "fail".to_owned()
    };
    ReportSummary { total, passed, failed: total - passed, verdict, duration_ms }
}


proof fn lemma_missing_snippets_empty(text: Seq<char>, snippets: Seq<Seq<char>>)
    ensures
        missing_snippets(text, snippets).len() == 0 <==> forall|i: int|
            0 <= i < snippets.len() ==> contains(text, #[trigger] snippets[i]),
    decreases snippets.len(),
{
    if snippets.len() > 0 {
        let init = snippets.drop_last();
        lemma_missing_snippets_empty(text, init);
        if forall|i: int| 0 <= i < snippets.len() ==> contains(text, #[trigger] snippets[i]) {
            assert forall|i: int| 0 <= i < init.len() implies contains(text, #[trigger] init[i]) by {
                assert(init[i] == snippets[i]);
            }
            assert(snippets.last() == snippets[snippets.len() - 1]);
        }
        if missing_snippets(text, snippets).len() == 0 {
            assert forall|i: int| 0 <= i < snippets.len() implies contains(
                text,
                #[trigger] snippets[i],
            ) by {
                if i < snippets.len() - 1 {
                    assert(init[i] == snippets[i]);
                }
            }
        }
    }
}

/// A skill passes its gate lint exactly when its document contains every
/// required snippet (compared as written); a missing document never passes.
pub proof fn law_gate_row_passes(item: ItemModel, skill_file: Seq<char>, text: Seq<char>)
    ensures
        text_row(item, skill_file, text).pass <==> forall|i: int|
            0 <= i < item.required_snippets.len() ==> contains(
                text,
                #[trigger] item.required_snippets[i],
            ),
        !missing_file_row(item, skill_file).pass,
{
    lemma_missing_snippets_empty(text, item.required_snippets);
}

/// A gate lint passes exactly when there is at least one row and every row
/// passes; its failed count is the rows that did not pass.
pub proof fn law_gate_verdict(s: ReportSummary, rows: Seq<RowModel>, duration_ms: u128)
    requires
        gate_summary_ok(s, rows, duration_ms),
    ensures
        s.passed + s.failed == s.total,
        s.verdict@ == "pass"@ <==> (rows.len() > 0 && s.passed == rows.len()),
{
    lemma_passed_count_bound(rows);
    reveal_strlit("pass");
    reveal_strlit("fail");
    assert("pass"@[0] != "fail"@[0]);
}


/// The lint row of an item whose skill document `skill_file` reads `text`,
/// or does not exist (`None`).
pub open spec fn lint_row(item: ItemModel, skill_file: Seq<char>, text: Option<Seq<char>>) -> RowModel {
    match text {
        Some(t) => text_row(item, skill_file, t),
        None => missing_file_row(item, skill_file),
    }
}

/// The lint rows of `items` in a project rooted at `root` with skills in
/// `skills_dir`, where `texts[i]` is what the skill document of item `i`
/// reads, or `None` when it does not exist.
pub open spec fn lint_rows(
    root: Seq<char>,
    skills_dir: Seq<char>,
    items: Seq<ItemModel>,
    texts: Seq<Option<Seq<char>>>,
) -> Seq<RowModel> {
    Seq::new(
        items.len(),
        |i: int| lint_row(items[i], spec_skill_file(root, skills_dir, items[i]), texts[i]),
    )
}

/// The text of an optional document.
pub open spec fn texts_view(texts: Seq<Option<String>>) -> Seq<Option<Seq<char>>> {
    texts.map_values(|t: Option<String>| t.deep_view())
}

/// Lints `items`: `texts[i]` is the text of the skill document of item `i`
/// (at [`skill_file_for`]), or `None` when that file does not exist. Each
/// item passes when its document exists and contains every required
/// snippet; the lint passes when there is at least one item and all pass.
pub fn lint_items(
    layout: &ProjectLayout,
    items: &Vec<GateRequirementItem>,
    texts: &Vec<Option<String>>,
    duration_ms: u128,
) -> (r: (Vec<GateLintResultRow>, ReportSummary))
    requires
        texts@.len() == items@.len(),
    ensures
        rows_view(r.0@) == lint_rows(
            layout.root@,
            layout.skills_dir@,
            items_view(items@),
            texts_view(texts@),
        ),
        gate_summary_ok(r.1, rows_view(r.0@), duration_ms),
{
    let ghost want = lint_rows(
        layout.root@,
        layout.skills_dir@,
        items_view(items@),
        texts_view(texts@),
    );
    let mut rows: Vec<GateLintResultRow> = Vec::new();
    let mut i: usize = 0;
    while i < items.len()
        invariant
            i <= items@.len(),
            texts@.len() == items@.len(),
            want == lint_rows(
                layout.root@,
                layout.skills_dir@,
                items_view(items@),
                texts_view(texts@),
            ),
            rows_view(rows@) == want.take(i as int),
        decreases items.len() - i,
    {
        let item = &items[i];
        let skill_file = skill_file_for(layout, item);
        let row = match &texts[i] {
            Some(text) => lint_text(item, skill_file.as_str(), text.as_str()),
            None => lint_missing_file(item, skill_file.as_str()),
        };
        let ghost before = rows_view(rows@);
        rows.push(row);
        proof {
            assert(items_view(items@)[i as int] == items@[i as int]@);
            assert(texts_view(texts@)[i as int] == texts@[i as int].deep_view());
            assert(rows_view(rows@) =~= before.push(row@));
            assert(want.take(i + 1) =~= want.take(i as int).push(want[i as int]));
        }
        i += 1;
    }
    assert(want.take(items@.len() as int) =~= want);
    let summary = summarize_gate(&rows, duration_ms);
    (rows, summary)
}


proof fn lemma_texts_of(items: Seq<Json>)
    ensures
        crate::config::texts_of(items) matches Some(t) ==> t.len() == items.len() && forall|k: int|
            0 <= k < items.len() ==> (#[trigger] items[k]).str_of() == Some(t[k]),
        (forall|k: int| 0 <= k < items.len() ==> (#[trigger] items[k]).str_of() is Some)
            ==> crate::config::texts_of(items) is Some,
    decreases items.len(),
{
    if items.len() > 0 {
        let rest = items.drop_first();
        lemma_texts_of(rest);
        if forall|k: int| 0 <= k < items.len() ==> (#[trigger] items[k]).str_of() is Some {
            assert forall|k: int| 0 <= k < rest.len() implies (#[trigger] rest[k]).str_of() is Some by {
                assert(rest[k] == items[k + 1]);
            }
        }
        if crate::config::texts_of(items) is Some {
            let t = crate::config::texts_of(items).unwrap();
            let tr = crate::config::texts_of(rest).unwrap();
            assert forall|k: int| 0 <= k < items.len() implies (#[trigger] items[k]).str_of() == Some(
                t[k],
            ) by {
                if k > 0 {
                    assert(rest[k - 1] == items[k]);
                    assert(t[k] == tr[k - 1]);
                }
            }
        }
    }
}

/// A requirement item keeps what its document writes: its name is the
/// string under `name`, its `skill_path` the string under `skill_path`
/// (unset only when that entry is absent or not a string), its snippets the
/// strings of `required_snippets` in order, and it names the file it came
/// from. An object with a string `name` and a list of strings under
/// `required_snippets` always reads.
pub proof fn law_requirement_item_reads_document(value: Json, config_path: Option<Seq<char>>)
    ensures
        spec_requirement_item(value, config_path) matches Ok(item) ==> ({
            let obj = value->Object_0@;
            &&& value is Object
            &&& lookup(obj, "name"@) matches Some(Json::Str(n)) && n@ == item.name
            &&& item.skill_path == crate::config::entry_text(lookup(obj, "skill_path"@))
            &&& item.config_path == config_path
            &&& lookup(obj, "required_snippets"@) matches Some(Json::Array(items))
                && items@.len() == item.required_snippets.len() && forall|k: int|
                0 <= k < items@.len() ==> (#[trigger] items@[k]).str_of() == Some(
                    item.required_snippets[k],
                )
        }),
        (value matches Json::Object(fields) && lookup(fields@, "name"@) matches Some(Json::Str(_))
            && lookup(fields@, "required_snippets"@) matches Some(Json::Array(items)) && forall|
            k: int,
        | 0 <= k < items@.len() ==> (#[trigger] items@[k]).str_of() is Some)
            ==> spec_requirement_item(value, config_path) is Ok,
{
    if let Json::Object(fields) = value {
        if let Some(Json::Array(items)) = lookup(fields@, "required_snippets"@) {
            lemma_texts_of(items@);
        }
    }
}

/// The requirements embedded in a suite config keep what it writes: the
/// skill under `skill`, the `skill_path` entry (unset only when absent or
/// not a string), the snippets of `gate_requirements.required_snippets` in
/// order, and the config's own path.
pub proof fn law_suite_requirements_read_document(obj: Seq<(String, Json)>, path: Seq<char>)
    ensures
        spec_requirements_from_suite(obj, path) matches Ok(item) ==> {
            &&& lookup(obj, "skill"@) matches Some(Json::Str(n)) && n@ == item.name
            &&& item.skill_path == crate::config::entry_text(lookup(obj, "skill_path"@))
            &&& item.config_path == Some(path)
            &&& lookup(obj, "gate_requirements"@) matches Some(Json::Object(g)) && lookup(
                g@,
                "required_snippets"@,
            ) matches Some(Json::Array(items)) && items@.len() == item.required_snippets.len()
                && forall|k: int|
                0 <= k < items@.len() ==> (#[trigger] items@[k]).str_of() == Some(
                    item.required_snippets[k],
                )
        },
{
    if let Some(Json::Object(g)) = lookup(obj, "gate_requirements"@) {
        if let Some(Json::Array(items)) = lookup(g@, "required_snippets"@) {
            lemma_texts_of(items@);
        }
    }
}

} // verus!
