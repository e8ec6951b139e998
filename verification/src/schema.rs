//! The checks a YAML suite config must pass (the bundled suite schema).
use vstd::prelude::*;

use crate::json::{contains_key, deref_opt, get, keys, keys_of, lookup, Json, JsonNumber};
use crate::text::{cat, cat3, decimal, decimal_string, is_blank, is_blank_str, str_eq};

verus! {

/// The schema suite configs are checked against, as reports name it.
pub const SUITE_SCHEMA_PATH: &'static str = "core/src/skill-suite.schema.yaml";


// ---------------------------------------------------------------------------
// Paths into the document
// ---------------------------------------------------------------------------
/// One part of a document path as written after `$`: an index part (`[0]`)
/// as it is, a name after a `.`.
pub open spec fn seg(part: Seq<char>) -> Seq<char> {
    if part.len() > 0 && part[0] == '[' {
        part
    } else {
        "."@ + part
    }
}

/// The parts of a document path, each as [`seg`] writes it.
pub open spec fn segs(parts: Seq<Seq<char>>) -> Seq<char>
    decreases parts.len(),
{
    if parts.len() == 0 {
        seq![]
    } else {
        segs(parts.drop_last()) + seg(parts.last())
    }
}

/// A document path in JSONPath notation: `$`, then its parts.
pub open spec fn path_text(parts: Seq<Seq<char>>) -> Seq<char> {
    "$"@ + segs(parts)
}

/// The path part of the array index `i`.
pub open spec fn index_part(i: nat) -> Seq<char> {
    "["@ + decimal(i) + "]"@
}

/// The texts of a list of strings.
pub open spec fn texts(v: Seq<String>) -> Seq<Seq<char>> {
    v.map_values(|s: String| s@)
}

/// The JSONPath text of `parts`.
pub fn json_path(parts: &Vec<String>) -> (r: String)
    ensures
        r@ == path_text(texts(parts@)),
{
    let mut out = "$".to_owned();
    let mut i: usize = 0;
    while i < parts.len()
        invariant
            i <= parts@.len(),
            out@ == "$"@ + segs(texts(parts@).take(i as int)),
        decreases parts.len() - i,
    {
        assert(texts(parts@).take(i + 1).drop_last() =~= texts(parts@).take(i as int));
        let p = parts[i].as_str();
        let ghost prev = out@;
        proof {
            assert(texts(parts@).take(i + 1).last() == parts@[i as int]@);
            reveal_strlit("[");
            if p@.len() > 0 {
                assert(p@.take(1)[0] == p@[0]);
                if p@[0] == '[' {
                    assert(p@.take(1) =~= "["@);
                }
            }
        }
        if crate::text::starts_with_str(p, "[") {
            out.append(p);
            assert(out@ =~= "$"@ + (segs(texts(parts@).take(i as int)) + seg(p@)));
        } else {
            out.append(".");
            out.append(p);
            assert(out@ =~= "$"@ + (segs(texts(parts@).take(i as int)) + seg(p@)));
        }
        i += 1;
    }
    assert(texts(parts@).take(parts@.len() as int) =~= texts(parts@));
    out
}

/// `parts` with one more part.
fn with_part(parts: &Vec<String>, part: &str) -> (r: Vec<String>)
    ensures
        texts(r@) == texts(parts@).push(part@),
{
    let mut out = crate::config::copy_strings(parts);
    assert(texts(parts@) =~= parts.deep_view());
    assert(texts(out@) =~= out.deep_view());
    let ghost before = out@;
    out.push(part.to_owned());
    assert(texts(out@) =~= texts(before).push(part@));
    out
}

/// The path part of the array index `i`, as text.
fn index_text(i: usize) -> (r: String)
    ensures
        r@ == index_part(i as nat),
{
    let d = decimal_string(i as u128);
    cat3("[", d.as_str(), "]")
}

/// A path made of the given parts.
fn path_of(a: &str) -> (r: Vec<String>)
    ensures
        texts(r@) == seq![a@],
{
    let mut v: Vec<String> = Vec::new();
    v.push(a.to_owned());
    assert(texts(v@) =~= seq![a@]);
    v
}

// ---------------------------------------------------------------------------
// Checks of single entries
// ---------------------------------------------------------------------------
/// The error of an entry that must be a non-blank string, if present.
#[verifier::opaque]
pub open spec fn non_empty_string_errors(value: Option<Json>, path: Seq<Seq<char>>) -> Seq<
    Seq<char>,
> {
    match value {
        Some(Json::Str(t)) => if !is_blank(t@) {
            seq![]
        } else {
            seq![path_text(path) + " must not be empty"@]
        },
        Some(_) => seq![path_text(path) + " must be a string"@],
        None => seq![],
    }
}

/// The error of an entry that must be an integer of at least 1, if present.
#[verifier::opaque]
pub open spec fn optional_int_errors(value: Option<Json>, path: Seq<Seq<char>>) -> Seq<Seq<char>> {
    match value {
        Some(v) => match v.i64_of() {
            Some(n) => if n >= 1 {
                seq![]
            } else {
                seq![path_text(path) + " must be >= 1"@]
            },
            None => seq![path_text(path) + " must be an integer"@],
        },
        None => seq![],
    }
}

/// The error of an entry that must be a boolean, if present.
#[verifier::opaque]
pub open spec fn optional_bool_errors(value: Option<Json>, path: Seq<Seq<char>>) -> Seq<
    Seq<char>,
> {
    match value {
        Some(v) => if v is Bool {
            seq![]
        } else {
            seq![path_text(path) + " must be a boolean"@]
        },
        None => seq![],
    }
}

/// The errors of the items of a string list that are not strings.
#[verifier::opaque]
pub open spec fn non_string_item_errors(items: Seq<Json>, path: Seq<Seq<char>>) -> Seq<Seq<char>>
    decreases items.len(),
{
    if items.len() == 0 {
        seq![]
    } else {
        let i = (items.len() - 1) as nat;
        non_string_item_errors(items.drop_last(), path) + if items.last() is Str {
            seq![]
        } else {
            seq![path_text(path.push(index_part(i))) + " must be a string"@]
        }
    }
}

/// The errors of an entry that must be a list of strings.
#[verifier::opaque]
pub open spec fn string_list_errors(value: Json, path: Seq<Seq<char>>) -> Seq<Seq<char>> {
    match value.array_of() {
        None => seq![path_text(path) + " must be an array of strings"@],
        Some(items) => non_string_item_errors(items, path),
    }
}

/// The errors of the member names not in `allowed`.
#[verifier::opaque]
pub open spec fn unknown_key_errors(
    names: Seq<Seq<char>>,
    allowed: Seq<Seq<char>>,
    path: Seq<Seq<char>>,
) -> Seq<Seq<char>>
    decreases names.len(),
{
    if names.len() == 0 {
        seq![]
    } else {
        unknown_key_errors(names.drop_last(), allowed, path) + if allowed.contains(names.last()) {
            seq![]
        } else {
            seq![path_text(path.push(names.last())) + " is not allowed"@]
        }
    }
}

/// Appends the error of an entry that must be a non-blank string.
fn validate_non_empty_string(value: Option<&Json>, path: &Vec<String>, errors: &mut Vec<String>)
    ensures
        final(errors).deep_view() == old(errors).deep_view() + non_empty_string_errors(
            deref_opt(value),
            texts(path@),
        ),
{
    proof {
        reveal(non_empty_string_errors);
    }
    let ghost before = errors.deep_view();
    match value {
        Some(Json::Str(t)) => {
            if is_blank_str(t.as_str()) {
                let p = json_path(path);
                errors.push(cat(p.as_str(), " must not be empty"));
                assert(errors.deep_view() =~= before + seq![p@ + " must not be empty"@]);
            } else {
                assert(errors.deep_view() =~= before + seq![]);
            }
        },
        Some(_) => {
            let p = json_path(path);
            errors.push(cat(p.as_str(), " must be a string"));
            assert(errors.deep_view() =~= before + seq![p@ + " must be a string"@]);
        },
        None => {
            assert(errors.deep_view() =~= before + seq![]);
        },
    }
}

/// Appends the error of an entry that must be an integer of at least 1.
fn validate_optional_int(value: Option<&Json>, path: &Vec<String>, errors: &mut Vec<String>)
    ensures
        final(errors).deep_view() == old(errors).deep_view() + optional_int_errors(
            deref_opt(value),
            texts(path@),
        ),
{
    proof {
        reveal(optional_int_errors);
    }
    let ghost before = errors.deep_view();
    match value {
        Some(v) => match v.as_i64() {
            Some(n) => {
                if n >= 1 {
                    assert(errors.deep_view() =~= before + seq![]);
                } else {
                    let p = json_path(path);
                    errors.push(cat(p.as_str(), " must be >= 1"));
                    assert(errors.deep_view() =~= before + seq![p@ + " must be >= 1"@]);
                }
            },
            None => {
                let p = json_path(path);
                errors.push(cat(p.as_str(), " must be an integer"));
                assert(errors.deep_view() =~= before + seq![p@ + " must be an integer"@]);
            },
        },
        None => {
            assert(errors.deep_view() =~= before + seq![]);
        },
    }
}

/// Appends the error of an entry that must be a boolean.
fn validate_optional_bool(value: Option<&Json>, path: &Vec<String>, errors: &mut Vec<String>)
    ensures
        final(errors).deep_view() == old(errors).deep_view() + optional_bool_errors(
            deref_opt(value),
            texts(path@),
        ),
{
    proof {
        reveal(optional_bool_errors);
    }
    let ghost before = errors.deep_view();
    match value {
        Some(v) => {
            if v.is_boolean() {
                assert(errors.deep_view() =~= before + seq![]);
            } else {
                let p = json_path(path);
                errors.push(cat(p.as_str(), " must be a boolean"));
                assert(errors.deep_view() =~= before + seq![p@ + " must be a boolean"@]);
            }
        },
        None => {
            assert(errors.deep_view() =~= before + seq![]);
        },
    }
}

/// Appends the errors of an entry that must be a list of strings.
fn validate_string_list(value: &Json, path: &Vec<String>, errors: &mut Vec<String>)
    ensures
        final(errors).deep_view() == old(errors).deep_view() + string_list_errors(
            *value,
            texts(path@),
        ),
{
    proof {
        reveal(string_list_errors);
        reveal_with_fuel(non_string_item_errors, 1);
    }
    let ghost before = errors.deep_view();
    match value.as_array() {
        None => {
            let p = json_path(path);
            errors.push(cat(p.as_str(), " must be an array of strings"));
            assert(errors.deep_view() =~= before + seq![p@ + " must be an array of strings"@]);
        },
        Some(rows) => {
            let mut i: usize = 0;
            assert(before + non_string_item_errors(rows@.take(0), texts(path@)) =~= before);
            while i < rows.len()
                invariant
                    i <= rows@.len(),
                    errors.deep_view() == before + non_string_item_errors(
                        rows@.take(i as int),
                        texts(path@),
                    ),
                decreases rows.len() - i,
            {
                proof {
                reveal_with_fuel(non_string_item_errors, 1);
            }
            let ghost mid = errors.deep_view();
                assert(rows@.take(i + 1).drop_last() =~= rows@.take(i as int));
                assert(rows@.take(i + 1).last() == rows@[i as int]);
                if !rows[i].is_string() {
                    let idx = index_text(i);
                    let full = with_part(path, idx.as_str());
                    let p = json_path(&full);
                    errors.push(cat(p.as_str(), " must be a string"));
                    assert(errors.deep_view() =~= mid + seq![p@ + " must be a string"@]);
                }
                i += 1;
            }
            assert(rows@.take(rows@.len() as int) =~= rows@);
        },
    }
}

/// Appends the errors of the member names of `fields` that are not in
/// `allowed`.
fn push_unknown_keys(
    fields: &Vec<(String, Json)>,
    allowed: &Vec<&str>,
    path: &Vec<String>,
    errors: &mut Vec<String>,
)
    ensures
        final(errors).deep_view() == old(errors).deep_view() + unknown_key_errors(
            keys_of(fields@),
            allowed@.map_values(|a: &str| a@),
            texts(path@),
        ),
{
    proof {
        reveal_with_fuel(unknown_key_errors, 1);
    }
    let ghost before = errors.deep_view();
    let ghost allowed_texts = allowed@.map_values(|a: &str| a@);
    let names = keys(fields);
    let ghost names_view = names@.map_values(|k: String| k@);
    let mut i: usize = 0;
    assert(unknown_key_errors(names_view.take(0), allowed_texts, texts(path@)) =~= seq![]);
    assert(before + seq![] =~= before);
    while i < names.len()
        invariant
            i <= names@.len(),
            names_view == names@.map_values(|k: String| k@),
            names_view == keys_of(fields@),
            allowed_texts == allowed@.map_values(|a: &str| a@),
            errors.deep_view() == before + unknown_key_errors(
                names_view.take(i as int),
                allowed_texts,
                texts(path@),
            ),
        decreases names.len() - i,
    {
        proof {
                reveal_with_fuel(unknown_key_errors, 1);
            }
            let ghost mid = errors.deep_view();
        assert(names_view.take(i + 1).drop_last() =~= names_view.take(i as int));
        assert(names_view.take(i + 1).last() == names@[i as int]@);
        let name = names[i].as_str();
        let mut known = false;
        let mut j: usize = 0;
        while j < allowed.len()
            invariant
                j <= allowed@.len(),
                allowed_texts == allowed@.map_values(|a: &str| a@),
                known == exists|k: int| 0 <= k < j && allowed_texts[k] == name@,
            decreases allowed.len() - j,
        {
            assert(allowed_texts[j as int] == allowed@[j as int]@);
            if str_eq(allowed[j], name) {
                known = true;
            }
            j += 1;
        }
        assert(known == allowed_texts.contains(name@));
        if !known {
            let full = with_part(path, name);
            let p = json_path(&full);
            errors.push(cat(p.as_str(), " is not allowed"));
            assert(errors.deep_view() =~= mid + seq![p@ + " is not allowed"@]);
        } else {
            assert(errors.deep_view() =~= mid + seq![]);
        }
        i += 1;
    }
    assert(names_view.take(names@.len() as int) =~= names_view);
}

/// The errors of the names in `names` that `obj` lacks; `prefix` is the
/// path of `obj`.
#[verifier::opaque]
pub open spec fn missing_property_errors(
    obj: Seq<(String, Json)>,
    names: Seq<Seq<char>>,
    prefix: Seq<char>,
) -> Seq<Seq<char>>
    decreases names.len(),
{
    if names.len() == 0 {
        seq![]
    } else {
        missing_property_errors(obj, names.drop_last(), prefix) + if lookup(
            obj,
            names.last(),
        ) is Some {
            seq![]
        } else {
            seq![prefix + " missing required property '"@ + names.last() + "'"@]
        }
    }
}

/// The error of a string entry whose text is not one of `allowed`.
#[verifier::opaque]
pub open spec fn one_of_errors(value: Option<Json>, allowed: Seq<Seq<char>>, message: Seq<char>) -> Seq<
    Seq<char>,
> {
    match value {
        Some(v) => match v.str_of() {
            Some(t) => if allowed.contains(t) {
                seq![]
            } else {
                seq![message]
            },
            None => seq![],
        },
        None => seq![],
    }
}

/// The texts of a list of names.
pub open spec fn names_of(v: Seq<&str>) -> Seq<Seq<char>> {
    v.map_values(|a: &str| a@)
}

/// Appends the errors of the names in `names` that `obj` lacks.
fn check_missing(
    obj: &Vec<(String, Json)>,
    names: &Vec<&str>,
    prefix: &str,
    errors: &mut Vec<String>,
)
    ensures
        final(errors).deep_view() == old(errors).deep_view() + missing_property_errors(
            obj@,
            names_of(names@),
            prefix@,
        ),
{
    proof {
        reveal_with_fuel(missing_property_errors, 1);
    }
    let ghost before = errors.deep_view();
    let mut i: usize = 0;
    assert(before + missing_property_errors(obj@, names_of(names@).take(0), prefix@) =~= before);
    while i < names.len()
        invariant
            i <= names@.len(),
            errors.deep_view() == before + missing_property_errors(
                obj@,
                names_of(names@).take(i as int),
                prefix@,
            ),
        decreases names.len() - i,
    {
        proof {
                reveal_with_fuel(missing_property_errors, 1);
            }
            let ghost mid = errors.deep_view();
        assert(names_of(names@).take(i + 1).drop_last() =~= names_of(names@).take(i as int));
        assert(names_of(names@).take(i + 1).last() == names@[i as int]@);
        if !contains_key(obj, names[i]) {
            let head = cat3(prefix, " missing required property '", names[i]);
            errors.push(cat(head.as_str(), "'"));
            assert(errors.deep_view() =~= mid + seq![
                prefix@ + " missing required property '"@ + names@[i as int]@ + "'"@,
            ]);
        } else {
            assert(errors.deep_view() =~= mid + seq![]);
        }
        i += 1;
    }
    assert(names_of(names@).take(names@.len() as int) =~= names_of(names@));
}

/// Appends the error of a string entry whose text is not one of `allowed`.
fn check_one_of(
    value: Option<&Json>,
    allowed: &Vec<&str>,
    message: &str,
    errors: &mut Vec<String>,
)
    ensures
        final(errors).deep_view() == old(errors).deep_view() + one_of_errors(
            deref_opt(value),
            names_of(allowed@),
            message@,
        ),
{
    proof {
        reveal(one_of_errors);
    }
    let ghost before = errors.deep_view();
    let text = match value {
        Some(v) => v.as_str(),
        None => None,
    };
    match text {
        Some(t) => {
            let mut known = false;
            let mut j: usize = 0;
            while j < allowed.len()
                invariant
                    j <= allowed@.len(),
                    known == exists|k: int| 0 <= k < j && names_of(allowed@)[k] == t@,
                decreases allowed.len() - j,
            {
                assert(names_of(allowed@)[j as int] == allowed@[j as int]@);
                if str_eq(allowed[j], t) {
                    known = true;
                }
                j += 1;
            }
            if known {
                assert(errors.deep_view() =~= before + seq![]);
            } else {
                errors.push(message.to_owned());
                assert(errors.deep_view() =~= before + seq![message@]);
            }
        },
        None => {
            assert(errors.deep_view() =~= before + seq![]);
        },
    }
}

// ---------------------------------------------------------------------------
// Checks of the nested sections
// ---------------------------------------------------------------------------
/// The names allowed in `gate_requirements`.
pub open spec fn gate_keys() -> Seq<Seq<char>> {
    seq!["required_snippets"@]
}

/// The names allowed in a case.
pub open spec fn case_keys() -> Seq<Seq<char>> {
    seq!["id"@, "prompt"@, "expected"@]
}

/// The names allowed in a case's `expected`.
pub open spec fn expected_keys() -> Seq<Seq<char>> {
    seq!["must_include"@, "must_not_include"@]
}

/// The errors of a `gate_requirements` section.
#[verifier::opaque]
pub open spec fn gate_errors(value: Json) -> Seq<Seq<char>> {
    match value.object_of() {
        None => seq!["$.gate_requirements must be an object"@],
        Some(obj) => unknown_key_errors(keys_of(obj), gate_keys(), seq!["gate_requirements"@])
            + match lookup(obj, "required_snippets"@) {
            None => seq!["$.gate_requirements missing required property 'required_snippets'"@],
            Some(v) => string_list_errors(v, seq!["gate_requirements"@, "required_snippets"@]),
        },
    }
}

/// The path of the `index`-th case.
pub open spec fn case_path(index: nat) -> Seq<Seq<char>> {
    seq!["cases"@, index_part(index)]
}

/// The errors of the `expected` section of the `index`-th case.
pub open spec fn expected_errors(value: Json, index: nat) -> Seq<Seq<char>> {
    let path = case_path(index).push("expected"@);
    match value.object_of() {
        None => seq![path_text(path) + " must be an object"@],
        Some(obj) => unknown_key_errors(keys_of(obj), expected_keys(), path) + match lookup(
            obj,
            "must_include"@,
        ) {
            Some(v) => string_list_errors(v, path.push("must_include"@)),
            None => seq![],
        } + match lookup(obj, "must_not_include"@) {
            Some(v) => string_list_errors(v, path.push("must_not_include"@)),
            None => seq![],
        },
    }
}

/// The errors of the `index`-th case.
pub open spec fn case_errors(row: Json, index: nat) -> Seq<Seq<char>> {
    let path = case_path(index);
    match row.object_of() {
        None => seq![path_text(path) + " must be an object"@],
        Some(obj) => unknown_key_errors(keys_of(obj), case_keys(), path) + missing_property_errors(
            obj,
            case_keys(),
            path_text(path),
        ) + non_empty_string_errors(lookup(obj, "id"@), path.push("id"@))
            + non_empty_string_errors(lookup(obj, "prompt"@), path.push("prompt"@)) + match lookup(
            obj,
            "expected"@,
        ) {
            Some(e) => expected_errors(e, index),
            None => seq![],
        },
    }
}

/// The errors of a list of cases.
#[verifier::opaque]
pub open spec fn rows_errors(rows: Seq<Json>) -> Seq<Seq<char>>
    decreases rows.len(),
{
    if rows.len() == 0 {
        seq![]
    } else {
        rows_errors(rows.drop_last()) + case_errors(rows.last(), (rows.len() - 1) as nat)
    }
}

/// The errors of a `cases` section.
#[verifier::opaque]
pub open spec fn cases_errors(value: Json) -> Seq<Seq<char>> {
    match value.array_of() {
        None => seq!["$.cases must be an array"@],
        Some(rows) => rows_errors(rows),
    }
}

fn name_list1(a: &'static str) -> (r: Vec<&'static str>)
    ensures
        names_of(r@) == seq![a@],
{
    let v = vec![a];
    assert(names_of(v@) =~= seq![a@]);
    v
}

fn name_list2(a: &'static str, b: &'static str) -> (r: Vec<&'static str>)
    ensures
        names_of(r@) == seq![a@, b@],
{
    let v = vec![a, b];
    assert(names_of(v@) =~= seq![a@, b@]);
    v
}

fn name_list3(a: &'static str, b: &'static str, c: &'static str) -> (r: Vec<&'static str>)
    ensures
        names_of(r@) == seq![a@, b@, c@],
{
    let v = vec![a, b, c];
    assert(names_of(v@) =~= seq![a@, b@, c@]);
    v
}

fn path2(a: &str, b: &str) -> (r: Vec<String>)
    ensures
        texts(r@) == seq![a@, b@],
{
    let mut v: Vec<String> = Vec::new();
    v.push(a.to_owned());
    v.push(b.to_owned());
    assert(texts(v@) =~= seq![a@, b@]);
    v
}

/// Appends the errors of a `gate_requirements` section.
fn validate_gate_requirements(value: &Json, errors: &mut Vec<String>)
    ensures
        final(errors).deep_view() == old(errors).deep_view() + gate_errors(*value),
{
    proof {
        reveal(gate_errors);
    }
    let ghost before = errors.deep_view();
    match value.as_object() {
        None => {
            errors.push("$.gate_requirements must be an object".to_owned());
            assert(errors.deep_view() =~= before + seq!["$.gate_requirements must be an object"@]);
        },
        Some(obj) => {
            let allowed = name_list1("required_snippets");
            let path = path_of("gate_requirements");
            push_unknown_keys(obj, &allowed, &path, errors);
            let ghost mid = errors.deep_view();
            match get(obj, "required_snippets") {
                None => {
                    errors.push(
                        "$.gate_requirements missing required property 'required_snippets'".to_owned(),
                    );
                    assert(errors.deep_view() =~= mid + seq![
                        "$.gate_requirements missing required property 'required_snippets'"@,
                    ]);
                },
                Some(v) => {
                    let list_path = path2("gate_requirements", "required_snippets");
                    validate_string_list(v, &list_path, errors);
                },
            }
            assert(errors.deep_view() =~= before + gate_errors(*value));
        },
    }
}

/// Appends the errors of the `expected` section of the `index`-th case.
fn validate_expected(value: &Json, index: usize, errors: &mut Vec<String>)
    ensures
        final(errors).deep_view() == old(errors).deep_view() + expected_errors(
            *value,
            index as nat,
        ),
{
    let ghost before = errors.deep_view();
    let idx = index_text(index);
    let base = path2("cases", idx.as_str());
    let path = with_part(&base, "expected");
    assert(texts(path@) == case_path(index as nat).push("expected"@));
    match value.as_object() {
        None => {
            let p = json_path(&path);
            errors.push(cat(p.as_str(), " must be an object"));
            assert(errors.deep_view() =~= before + seq![p@ + " must be an object"@]);
        },
        Some(obj) => {
            let allowed = name_list2("must_include", "must_not_include");
            push_unknown_keys(obj, &allowed, &path, errors);
            let ghost a = errors.deep_view();
            match get(obj, "must_include") {
                Some(v) => {
                    let p = with_part(&path, "must_include");
                    validate_string_list(v, &p, errors);
                },
                None => {
                    assert(errors.deep_view() =~= a + seq![]);
                },
            }
            let ghost b = errors.deep_view();
            match get(obj, "must_not_include") {
                Some(v) => {
                    let p = with_part(&path, "must_not_include");
                    validate_string_list(v, &p, errors);
                },
                None => {
                    assert(errors.deep_view() =~= b + seq![]);
                },
            }
            assert(errors.deep_view() =~= before + expected_errors(*value, index as nat));
        },
    }
}

/// Appends the errors of the `index`-th case.
fn check_case(row: &Json, index: usize, errors: &mut Vec<String>)
    ensures
        final(errors).deep_view() == old(errors).deep_view() + case_errors(*row, index as nat),
{
    let ghost before = errors.deep_view();
    let idx = index_text(index);
    let path = path2("cases", idx.as_str());
    assert(texts(path@) == case_path(index as nat));
    match row.as_object() {
        None => {
            let p = json_path(&path);
            errors.push(cat(p.as_str(), " must be an object"));
            assert(errors.deep_view() =~= before + seq![p@ + " must be an object"@]);
        },
        Some(obj) => {
            let allowed = name_list3("id", "prompt", "expected");
            push_unknown_keys(obj, &allowed, &path, errors);
            let prefix = json_path(&path);
            check_missing(obj, &allowed, prefix.as_str(), errors);
            let id_path = with_part(&path, "id");
            validate_non_empty_string(get(obj, "id"), &id_path, errors);
            let prompt_path = with_part(&path, "prompt");
            validate_non_empty_string(get(obj, "prompt"), &prompt_path, errors);
            let ghost e = errors.deep_view();
            match get(obj, "expected") {
                Some(x) => validate_expected(x, index, errors),
                None => {
                    assert(errors.deep_view() =~= e + seq![]);
                },
            }
            assert(errors.deep_view() =~= before + case_errors(*row, index as nat));
        },
    }
}

/// Appends the errors of a `cases` section.
fn validate_cases(value: &Json, errors: &mut Vec<String>)
    ensures
        final(errors).deep_view() == old(errors).deep_view() + cases_errors(*value),
{
    proof {
        reveal(cases_errors);
        reveal_with_fuel(rows_errors, 1);
    }
    let ghost before = errors.deep_view();
    match value.as_array() {
        None => {
            errors.push("$.cases must be an array".to_owned());
            assert(errors.deep_view() =~= before + seq!["$.cases must be an array"@]);
        },
        Some(rows) => {
            let mut i: usize = 0;
            assert(before + rows_errors(rows@.take(0)) =~= before);
            while i < rows.len()
                invariant
                    i <= rows@.len(),
                    errors.deep_view() == before + rows_errors(rows@.take(i as int)),
                decreases rows.len() - i,
            {
                proof {
                reveal_with_fuel(rows_errors, 1);
            }
            let ghost mid = errors.deep_view();
                assert(rows@.take(i + 1).drop_last() =~= rows@.take(i as int));
                assert(rows@.take(i + 1).last() == rows@[i as int]);
                check_case(&rows[i], i, errors);
                assert(errors.deep_view() =~= before + rows_errors(rows@.take(i + 1)));
                i += 1;
            }
            assert(rows@.take(rows@.len() as int) =~= rows@);
        },
    }
}

// ---------------------------------------------------------------------------
// The whole document
// ---------------------------------------------------------------------------
/// The names allowed at the top of a suite config.
pub open spec fn top_level_keys() -> Seq<Seq<char>> {
    seq![
        "eval_type"@,
        "skill"@,
        "skill_path"@,
        "gate_requirements"@,
        "eval_name"@,
        "grader"@,
        "rate"@,
        "max_concurrency"@,
        "codex_timeout_seconds"@,
        "codex_isolation"@,
        "codex_home_base_dir"@,
        "codex_sandbox"@,
        "codex_model"@,
        "codex_reasoning_effort"@,
        "codex_extra_args"@,
        "cases"@,
        "prompts_file"@,
    ]
}

/// The names a suite config must have.
pub open spec fn required_keys() -> Seq<Seq<char>> {
    seq!["eval_type"@, "skill"@, "skill_path"@, "grader"@, "rate"@]
}

/// The sandbox names codex accepts.
pub open spec fn sandbox_names() -> Seq<Seq<char>> {
    seq!["read-only"@, "workspace-write"@, "danger-full-access"@]
}

/// The reasoning efforts codex accepts.
pub open spec fn effort_names() -> Seq<Seq<char>> {
    seq!["none"@, "low"@, "medium"@, "high"@, "xhigh"@]
}

/// The errors of an optional section, checked by `check` when present.
#[verifier::opaque]
pub open spec fn when_present(value: Option<Json>, check: spec_fn(Json) -> Seq<Seq<char>>) -> Seq<
    Seq<char>,
> {
    match value {
        Some(v) => check(v),
        None => seq![],
    }
}

/// The error of a `skill_path` that does not end in `SKILL.md`.
#[verifier::opaque]
pub open spec fn skill_md_errors(value: Option<Json>) -> Seq<Seq<char>> {
    match value {
        Some(v) => match v.str_of() {
            Some(t) => if crate::text::ends_with(t, "SKILL.md"@) {
                seq![]
            } else {
                seq!["$.skill_path must point to SKILL.md"@]
            },
            None => seq![],
        },
        None => seq![],
    }
}

/// The error of a `rate` that is not a number in `[0, 1]`.
#[verifier::opaque]
pub open spec fn rate_errors(value: Option<Json>) -> Seq<Seq<char>> {
    match value {
        Some(Json::Number(n)) => if n.in_unit_interval() {
            seq![]
        } else {
            seq!["$.rate must be between 0 and 1"@]
        },
        Some(_) => seq!["$.rate must be a number"@],
        None => seq![],
    }
}

/// The error of a `codex_model` that is not a string.
#[verifier::opaque]
pub open spec fn model_errors(value: Option<Json>) -> Seq<Seq<char>> {
    match value {
        Some(v) => if v is Str {
            seq![]
        } else {
            seq!["$.codex_model must be a string"@]
        },
        None => seq![],
    }
}

/// The error of a config that has neither cases nor a prompts file.
#[verifier::opaque]
pub open spec fn cases_source_errors(obj: Seq<(String, Json)>) -> Seq<Seq<char>> {
    if lookup(obj, "cases"@) is None && lookup(obj, "prompts_file"@) is None {
        seq!["$ missing required property 'cases' or 'prompts_file'"@]
    } else {
        seq![]
    }
}

/// The errors of the names, required entries, type, skill and gate.
pub open spec fn head_errors(obj: Seq<(String, Json)>) -> Seq<Seq<char>> {
    unknown_key_errors(keys_of(obj), top_level_keys(), seq![]) + missing_property_errors(
        obj,
        required_keys(),
        "$"@,
    ) + cases_source_errors(obj) + non_empty_string_errors(
        lookup(obj, "eval_type"@),
        seq!["eval_type"@],
    ) + one_of_errors(
        lookup(obj, "eval_type"@),
        seq!["skill"@],
        "$.eval_type must be one of ['skill']"@,
    ) + non_empty_string_errors(lookup(obj, "skill"@), seq!["skill"@]) + non_empty_string_errors(
        lookup(obj, "skill_path"@),
        seq!["skill_path"@],
    ) + skill_md_errors(lookup(obj, "skill_path"@)) + when_present(
        lookup(obj, "gate_requirements"@),
        |v: Json| gate_errors(v),
    )
}

/// The errors of the name, grader, rate and runner settings.
pub open spec fn middle_errors(obj: Seq<(String, Json)>) -> Seq<Seq<char>> {
    non_empty_string_errors(lookup(obj, "eval_name"@), seq!["eval_name"@])
        + non_empty_string_errors(lookup(obj, "grader"@), seq!["grader"@]) + one_of_errors(
        lookup(obj, "grader"@),
        seq!["markers"@],
        "$.grader must be one of ['markers']"@,
    ) + rate_errors(lookup(obj, "rate"@)) + optional_int_errors(
        lookup(obj, "max_concurrency"@),
        seq!["max_concurrency"@],
    ) + optional_int_errors(lookup(obj, "codex_timeout_seconds"@), seq!["codex_timeout_seconds"@])
        + optional_bool_errors(lookup(obj, "codex_isolation"@), seq!["codex_isolation"@])
        + non_empty_string_errors(lookup(obj, "codex_home_base_dir"@), seq!["codex_home_base_dir"@])
}

/// The errors of the codex settings, the prompts file and the cases.
pub open spec fn tail_errors(obj: Seq<(String, Json)>) -> Seq<Seq<char>> {
    non_empty_string_errors(lookup(obj, "codex_sandbox"@), seq!["codex_sandbox"@]) + one_of_errors(
        lookup(obj, "codex_sandbox"@),
        sandbox_names(),
        "$.codex_sandbox must be one of ['read-only', 'workspace-write', 'danger-full-access']"@,
    ) + model_errors(lookup(obj, "codex_model"@)) + non_empty_string_errors(
        lookup(obj, "codex_reasoning_effort"@),
        seq!["codex_reasoning_effort"@],
    ) + one_of_errors(
        lookup(obj, "codex_reasoning_effort"@),
        effort_names(),
        "$.codex_reasoning_effort must be one of ['none', 'low', 'medium', 'high', 'xhigh']"@,
    ) + when_present(
        lookup(obj, "codex_extra_args"@),
        |v: Json| string_list_errors(v, seq!["codex_extra_args"@]),
    ) + non_empty_string_errors(lookup(obj, "prompts_file"@), seq!["prompts_file"@])
        + when_present(lookup(obj, "cases"@), |v: Json| cases_errors(v))
}

/// Every error of a suite config document, in the order they are reported.
pub open spec fn spec_manual_validate(data: Json) -> Seq<Seq<char>> {
    match data.object_of() {
        None => seq!["$ must be an object"@],
        Some(obj) => head_errors(obj) + middle_errors(obj) + tail_errors(obj),
    }
}

/// The errors of a suite config at `config_path`: YAML configs are checked,
/// other formats are not.
pub open spec fn spec_validate_suite_document(config_path: Seq<char>, data: Json) -> Seq<
    Seq<char>,
> {
    match crate::document::spec_extension(config_path) {
        Some(e) => if e == "yaml"@ || e == "yml"@ {
            spec_manual_validate(data)
        } else {
            seq![]
        },
        None => seq![],
    }
}

fn check_head(obj: &Vec<(String, Json)>, errors: &mut Vec<String>)
    ensures
        final(errors).deep_view() == old(errors).deep_view() + head_errors(obj@),
{
    proof {
        reveal(skill_md_errors);
        reveal(cases_source_errors);
        reveal(when_present);
    }
    let ghost before = errors.deep_view();
    let top = vec![
        "eval_type",
        "skill",
        "skill_path",
        "gate_requirements",
        "eval_name",
        "grader",
        "rate",
        "max_concurrency",
        "codex_timeout_seconds",
        "codex_isolation",
        "codex_home_base_dir",
        "codex_sandbox",
        "codex_model",
        "codex_reasoning_effort",
        "codex_extra_args",
        "cases",
        "prompts_file",
    ];
    assert(names_of(top@) =~= top_level_keys());
    let root: Vec<String> = Vec::new();
    assert(texts(root@) =~= seq![]);
    push_unknown_keys(obj, &top, &root, errors);
    let required = vec!["eval_type", "skill", "skill_path", "grader", "rate"];
    assert(names_of(required@) =~= required_keys());
    check_missing(obj, &required, "$", errors);
    let ghost a = errors.deep_view();
    if !contains_key(obj, "cases") && !contains_key(obj, "prompts_file") {
        errors.push("$ missing required property 'cases' or 'prompts_file'".to_owned());
        assert(errors.deep_view() =~= a + seq![
            "$ missing required property 'cases' or 'prompts_file'"@,
        ]);
    } else {
        assert(errors.deep_view() =~= a + seq![]);
    }
    validate_non_empty_string(get(obj, "eval_type"), &path_of("eval_type"), errors);
    check_one_of(
        get(obj, "eval_type"),
        &name_list1("skill"),
        "$.eval_type must be one of ['skill']",
        errors,
    );
    validate_non_empty_string(get(obj, "skill"), &path_of("skill"), errors);
    validate_non_empty_string(get(obj, "skill_path"), &path_of("skill_path"), errors);
    let ghost b = errors.deep_view();
    match get(obj, "skill_path") {
        Some(v) => match v.as_str() {
            Some(t) => {
                if crate::text::ends_with_str(t, "SKILL.md") {
                    assert(errors.deep_view() =~= b + seq![]);
                } else {
                    errors.push("$.skill_path must point to SKILL.md".to_owned());
                    assert(errors.deep_view() =~= b + seq!["$.skill_path must point to SKILL.md"@]);
                }
            },
            None => {
                assert(errors.deep_view() =~= b + seq![]);
            },
        },
        None => {
            assert(errors.deep_view() =~= b + seq![]);
        },
    }
    let ghost c = errors.deep_view();
    match get(obj, "gate_requirements") {
        Some(v) => validate_gate_requirements(v, errors),
        None => {
            assert(errors.deep_view() =~= c + seq![]);
        },
    }
}

fn check_rate(value: Option<&Json>, errors: &mut Vec<String>)
    ensures
        final(errors).deep_view() == old(errors).deep_view() + rate_errors(
            deref_opt(value),
        ),
{
    proof {
        reveal(rate_errors);
    }
    let ghost before = errors.deep_view();
    match value {
        Some(Json::Number(n)) => {
            if n.is_in_unit_interval() {
                assert(errors.deep_view() =~= before + seq![]);
            } else {
                errors.push("$.rate must be between 0 and 1".to_owned());
                assert(errors.deep_view() =~= before + seq!["$.rate must be between 0 and 1"@]);
            }
        },
        Some(_) => {
            errors.push("$.rate must be a number".to_owned());
            assert(errors.deep_view() =~= before + seq!["$.rate must be a number"@]);
        },
        None => {
            assert(errors.deep_view() =~= before + seq![]);
        },
    }
}

fn check_middle(obj: &Vec<(String, Json)>, errors: &mut Vec<String>)
    ensures
        final(errors).deep_view() == old(errors).deep_view() + middle_errors(obj@),
{
    validate_non_empty_string(get(obj, "eval_name"), &path_of("eval_name"), errors);
    validate_non_empty_string(get(obj, "grader"), &path_of("grader"), errors);
    check_one_of(
        get(obj, "grader"),
        &name_list1("markers"),
        "$.grader must be one of ['markers']",
        errors,
    );
    check_rate(get(obj, "rate"), errors);
    validate_optional_int(get(obj, "max_concurrency"), &path_of("max_concurrency"), errors);
    validate_optional_int(get(obj, "codex_timeout_seconds"), &path_of("codex_timeout_seconds"), errors);
    validate_optional_bool(get(obj, "codex_isolation"), &path_of("codex_isolation"), errors);
    validate_non_empty_string(get(obj, "codex_home_base_dir"), &path_of("codex_home_base_dir"), errors);
}

fn check_tail(obj: &Vec<(String, Json)>, errors: &mut Vec<String>)
    ensures
        final(errors).deep_view() == old(errors).deep_view() + tail_errors(obj@),
{
    proof {
        reveal(model_errors);
        reveal(when_present);
    }
    validate_non_empty_string(get(obj, "codex_sandbox"), &path_of("codex_sandbox"), errors);
    let sandboxes = name_list3("read-only", "workspace-write", "danger-full-access");
    check_one_of(
        get(obj, "codex_sandbox"),
        &sandboxes,
        "$.codex_sandbox must be one of ['read-only', 'workspace-write', 'danger-full-access']",
        errors,
    );
    let ghost a = errors.deep_view();
    match get(obj, "codex_model") {
        Some(v) => {
            if v.is_string() {
                assert(errors.deep_view() =~= a + seq![]);
            } else {
                errors.push("$.codex_model must be a string".to_owned());
                assert(errors.deep_view() =~= a + seq!["$.codex_model must be a string"@]);
            }
        },
        None => {
            assert(errors.deep_view() =~= a + seq![]);
        },
    }
    validate_non_empty_string(
        get(obj, "codex_reasoning_effort"),
        &path_of("codex_reasoning_effort"),
        errors,
    );
    let efforts = vec!["none", "low", "medium", "high", "xhigh"];
    assert(names_of(efforts@) =~= effort_names());
    check_one_of(
        get(obj, "codex_reasoning_effort"),
        &efforts,
        "$.codex_reasoning_effort must be one of ['none', 'low', 'medium', 'high', 'xhigh']",
        errors,
    );
    let ghost b = errors.deep_view();
    match get(obj, "codex_extra_args") {
        Some(v) => validate_string_list(v, &path_of("codex_extra_args"), errors),
        None => {
            assert(errors.deep_view() =~= b + seq![]);
        },
    }
    validate_non_empty_string(get(obj, "prompts_file"), &path_of("prompts_file"), errors);
    let ghost c = errors.deep_view();
    match get(obj, "cases") {
        Some(v) => validate_cases(v, errors),
        None => {
            assert(errors.deep_view() =~= c + seq![]);
        },
    }
}

/// Every error of a suite config document.
pub fn manual_validate(data: &Json) -> (r: Vec<String>)
    ensures
        r.deep_view() == spec_manual_validate(*data),
{
    let mut errors: Vec<String> = Vec::new();
    match data.as_object() {
        None => {
            errors.push("$ must be an object".to_owned());
            assert(errors.deep_view() =~= seq!["$ must be an object"@]);
        },
        Some(obj) => {
            assert(errors.deep_view() =~= seq![]);
            check_head(obj, &mut errors);
            assert(errors.deep_view() =~= head_errors(obj@));
            check_middle(obj, &mut errors);
            check_tail(obj, &mut errors);
        },
    }
    errors
}

/// The errors of the suite config at `config_path`; only YAML configs are
/// checked.
pub fn validate_suite_document(config_path: &str, data: &Json) -> (r: Vec<String>)
    ensures
        r.deep_view() == spec_validate_suite_document(config_path@, *data),
{
    let is_yaml = match crate::document::extension(config_path) {
        Some(e) => str_eq(e.as_str(), "yaml") || str_eq(e.as_str(), "yml"),
        None => false,
    };
    if !is_yaml {
        let v: Vec<String> = Vec::new();
        assert(v.deep_view() =~= seq![]);
        return v;
    }
    manual_validate(data)
}


proof fn lemma_lookup_push(obj: Seq<(String, Json)>, e: (String, Json), key: Seq<char>)
    ensures
        key != e.0@ ==> lookup(obj.push(e), key) == lookup(obj, key),
        (key == e.0@ && lookup(obj, key) is None) ==> lookup(obj.push(e), key) == Some(e.1),
    decreases obj.len(),
{
    if obj.len() > 0 {
        assert(obj.push(e).drop_first() =~= obj.drop_first().push(e));
        assert(obj.push(e)[0] == obj[0]);
        lemma_lookup_push(obj.drop_first(), e, key);
    } else {
        assert(obj.push(e).drop_first() =~= obj);
        assert(obj.push(e)[0] == e);
    }
}

proof fn lemma_missing_push(
    obj: Seq<(String, Json)>,
    e: (String, Json),
    names: Seq<Seq<char>>,
    prefix: Seq<char>,
)
    requires
        forall|k: int| 0 <= k < names.len() ==> names[k] != e.0@,
    ensures
        missing_property_errors(obj.push(e), names, prefix) == missing_property_errors(
            obj,
            names,
            prefix,
        ),
    decreases names.len(),
{
    reveal(missing_property_errors);
    if names.len() > 0 {
        lemma_missing_push(obj, e, names.drop_last(), prefix);
        lemma_lookup_push(obj, e, names.last());
    }
}

proof fn lemma_contains_add(a: Seq<Seq<char>>, b: Seq<Seq<char>>, x: Seq<char>)
    ensures
        (a.contains(x) || b.contains(x)) ==> (a + b).contains(x),
{
    if a.contains(x) {
        let i = choose|i: int| 0 <= i < a.len() && a[i] == x;
        assert((a + b)[i] == x);
    } else if b.contains(x) {
        let i = choose|i: int| 0 <= i < b.len() && b[i] == x;
        assert((a + b)[a.len() + i] == x);
    }
}

/// An entry `codex_timeout_seconds` is checked as an integer of at least 1
/// and nothing else: added to a suite document that lacks it, an integer of
/// at least 1 changes none of its errors; a value that is not an integer
/// draws "must be an integer", and an integer below 1 "must be >= 1".
pub proof fn law_timeout_entry(without: Json, with: Json, e: (String, Json))
    requires
        without is Object,
        with is Object,
        with->Object_0@ == without->Object_0@.push(e),
        e.0@ == "codex_timeout_seconds"@,
        lookup(without->Object_0@, "codex_timeout_seconds"@) is None,
    ensures
        (e.1.i64_of() matches Some(n) && n >= 1) ==> spec_manual_validate(with)
            == spec_manual_validate(without),
        e.1.i64_of() is None ==> spec_manual_validate(with).contains(
            "$.codex_timeout_seconds must be an integer"@,
        ),
        (e.1.i64_of() matches Some(n) && n < 1) ==> spec_manual_validate(with).contains(
            "$.codex_timeout_seconds must be >= 1"@,
        ),
{
    let obj = without->Object_0@;
    let obj2 = with->Object_0@;
    let key = "codex_timeout_seconds"@;
    reveal_strlit("codex_timeout_seconds");
    reveal_strlit("eval_type");
    reveal_strlit("skill");
    reveal_strlit("skill_path");
    reveal_strlit("gate_requirements");
    reveal_strlit("eval_name");
    reveal_strlit("grader");
    reveal_strlit("rate");
    reveal_strlit("max_concurrency");
    reveal_strlit("codex_isolation");
    reveal_strlit("codex_home_base_dir");
    reveal_strlit("codex_sandbox");
    reveal_strlit("codex_model");
    reveal_strlit("codex_reasoning_effort");
    reveal_strlit("codex_extra_args");
    reveal_strlit("cases");
    reveal_strlit("prompts_file");
    assert forall|k: Seq<char>| k != e.0@ implies #[trigger] lookup(obj2, k) == lookup(obj, k) by {
        lemma_lookup_push(obj, e, k);
    }
    lemma_lookup_push(obj, e, key);
    assert(lookup(obj2, key) == Some(e.1));
    // the names and required entries
    assert(keys_of(obj2) =~= keys_of(obj).push(key));
    assert(top_level_keys()[8] == key);
    assert(top_level_keys().contains(key));
    assert(keys_of(obj2).drop_last() =~= keys_of(obj));
    reveal(unknown_key_errors);
    assert(unknown_key_errors(keys_of(obj2), top_level_keys(), seq![]) == unknown_key_errors(
        keys_of(obj),
        top_level_keys(),
        seq![],
    ));
    lemma_missing_push(obj, e, required_keys(), "$"@);
    reveal(cases_source_errors);
    assert(head_errors(obj2) == head_errors(obj));
    assert(tail_errors(obj2) == tail_errors(obj));
    let pre = non_empty_string_errors(lookup(obj, "eval_name"@), seq!["eval_name"@])
        + non_empty_string_errors(lookup(obj, "grader"@), seq!["grader"@]) + one_of_errors(
        lookup(obj, "grader"@),
        seq!["markers"@],
        "$.grader must be one of ['markers']"@,
    ) + rate_errors(lookup(obj, "rate"@)) + optional_int_errors(
        lookup(obj, "max_concurrency"@),
        seq!["max_concurrency"@],
    );
    let post = optional_bool_errors(lookup(obj, "codex_isolation"@), seq!["codex_isolation"@])
        + non_empty_string_errors(lookup(obj, "codex_home_base_dir"@), seq!["codex_home_base_dir"@]);
    let t2 = optional_int_errors(Some(e.1), seq![key]);
    let t1 = optional_int_errors(None, seq![key]);
    assert(middle_errors(obj2) =~= pre + t2 + post);
    assert(middle_errors(obj) =~= pre + t1 + post);
    reveal(optional_int_errors);
    assert(t1 =~= seq![]);
    assert(segs(seq![key]) =~= "."@ + key) by {
        assert(seq![key].drop_last() =~= Seq::<Seq<char>>::empty());
        assert(seq![key].last() == key);
        assert(segs(Seq::<Seq<char>>::empty()) =~= seq![]);
        assert(key[0] == 'c');
        assert(seg(key) == "."@ + key);
    }
    assert(path_text(seq![key]) =~= "$"@ + ("."@ + key));
    let whole = head_errors(obj2) + middle_errors(obj2) + tail_errors(obj2);
    if e.1.i64_of() matches Some(n) && n >= 1 {
        assert(t2 =~= seq![]);
        assert(middle_errors(obj2) =~= middle_errors(obj));
    }
    if e.1.i64_of() is None {
        let x = "$.codex_timeout_seconds must be an integer"@;
        reveal_strlit("$.codex_timeout_seconds must be an integer");
        reveal_strlit("$");
        reveal_strlit(".");
        reveal_strlit(" must be an integer");
        assert(("$"@ + ("."@ + key)) + " must be an integer"@ =~= x);
        assert(t2 =~= seq![x]);
        assert(t2[0] == x);
        lemma_contains_add(pre, t2, x);
        lemma_contains_add(pre + t2, post, x);
        lemma_contains_add(head_errors(obj2), middle_errors(obj2), x);
        lemma_contains_add(head_errors(obj2) + middle_errors(obj2), tail_errors(obj2), x);
    }
    if e.1.i64_of() matches Some(n) && n < 1 {
        let x = "$.codex_timeout_seconds must be >= 1"@;
        reveal_strlit("$.codex_timeout_seconds must be >= 1");
        reveal_strlit("$");
        reveal_strlit(".");
        reveal_strlit(" must be >= 1");
        assert(("$"@ + ("."@ + key)) + " must be >= 1"@ =~= x);
        assert(t2 =~= seq![x]);
        assert(t2[0] == x);
        lemma_contains_add(pre, t2, x);
        lemma_contains_add(pre + t2, post, x);
        lemma_contains_add(head_errors(obj2), middle_errors(obj2), x);
        lemma_contains_add(head_errors(obj2) + middle_errors(obj2), tail_errors(obj2), x);
    }
}

} // verus!
