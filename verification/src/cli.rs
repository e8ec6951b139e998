//! What the command line shows and answers: step labels, the runtime line,
//! status icons, default paths and exit codes.
use vstd::prelude::*;

use crate::document::{file_name, join_path, path_file_name, path_join};
use crate::error::{msg, ErrorModel, EvelinError};
use crate::text::{cat, cat3, join, join_strings, split, split_str, str_eq};

verus! {

/// The label of a suite step type in the console: schema checks and gate
/// lints are shortened, other types are shown as they are.
pub open spec fn spec_step_type_label(step_type: Seq<char>) -> Seq<char> {
    if step_type == "schema_lint"@ {
        "schema"@
    } else if step_type == "gate_lint"@ {
        "gate"@
    } else {
        step_type
    }
}

/// The console label of a suite step type.
pub fn suite_step_type_label(step_type: &str) -> (r: &str)
    ensures
        r@ == spec_step_type_label(step_type@),
{
    if str_eq(step_type, "schema_lint") {
        "schema"
    } else if str_eq(step_type, "gate_lint") {
        "gate"
    } else {
        step_type
    }
}

/// The pieces of a runtime line that are not empty.
pub open spec fn non_empty_pieces(pieces: Seq<Seq<char>>) -> Seq<Seq<char>> {
    pieces.filter(|p: Seq<char>| p.len() > 0)
}

/// A runtime line as the console shows it: its two-space separated
/// settings joined by ` | `.
pub open spec fn spec_format_runtime_detail(detail: Seq<char>) -> Seq<char> {
    join(non_empty_pieces(split(detail, "  "@)), " | "@)
}

/// A runtime line as the console shows it.
pub fn format_runtime_detail(runtime_detail: &str) -> (r: String)
    ensures
        r@ == spec_format_runtime_detail(runtime_detail@),
{
    proof {
        reveal_strlit("  ");
    }
    let pieces = split_str(runtime_detail, "  ");
    let ghost all = pieces@.map_values(|p: String| p@);
    let mut kept: Vec<String> = Vec::new();
    let mut i: usize = 0;
    while i < pieces.len()
        invariant
            i <= pieces@.len(),
            all == pieces@.map_values(|p: String| p@),
            kept@.map_values(|p: String| p@) == non_empty_pieces(all.take(i as int)),
        decreases pieces.len() - i,
    {
        let ghost before = kept@.map_values(|p: String| p@);
        proof {
            assert(all.take(i + 1) =~= all.take(i as int).push(all[i as int]));
            all.take(i as int).lemma_filter_push(all[i as int], |p: Seq<char>| p.len() > 0);
        }
        if !pieces[i].as_str().is_empty() {
            kept.push(pieces[i].clone());
            assert(kept@.map_values(|p: String| p@) =~= before.push(all[i as int]));
        } else {
            assert(kept@.map_values(|p: String| p@) =~= before);
        }
        i += 1;
    }
    assert(all.take(pieces@.len() as int) =~= all);
    join_strings(&kept, " | ")
}

/// `text` in the terminal colour `code` when colour is on.
pub open spec fn spec_paint(text: Seq<char>, code: Seq<char>, colored: bool) -> Seq<char> {
    if colored {
        "\u{1b}["@ + code + "m"@ + text + "\u{1b}[0m"@
    } else {
        text
    }
}

/// `text` in the terminal colour `code`, when `colored` (the output is a
/// terminal and `NO_COLOR` is unset).
pub fn paint(text: &str, code: &str, colored: bool) -> (r: String)
    ensures
        r@ == spec_paint(text@, code@, colored),
{
    if colored {
        let head = cat3("\u{1b}[", code, "m");
        let r = cat3(head.as_str(), text, "\u{1b}[0m");
        assert(r@ =~= "\u{1b}["@ + code@ + "m"@ + text@ + "\u{1b}[0m"@);
        r
    } else {
        text.to_owned()
    }
}

/// The console icon of a status: a green check for `pass`, a red cross
/// for `fail`, a yellow bullet for `skipped`, a cyan arrow for `info`, and
/// an uncoloured dot for anything else.
pub open spec fn spec_icon(status: Seq<char>, colored: bool) -> Seq<char> {
    if status == "pass"@ {
        spec_paint("\u{2713}"@, "32"@, colored)
    } else if status == "fail"@ {
        spec_paint("\u{2717}"@, "31"@, colored)
    } else if status == "skipped"@ {
        spec_paint("\u{2022}"@, "33"@, colored)
    } else if status == "info"@ {
        spec_paint("\u{203a}"@, "36"@, colored)
    } else {
        "\u{b7}"@
    }
}

/// The console icon of a status.
pub fn icon(status: &str, colored: bool) -> (r: String)
    ensures
        r@ == spec_icon(status@, colored),
{
    if str_eq(status, "pass") {
        paint("\u{2713}", "32", colored)
    } else if str_eq(status, "fail") {
        paint("\u{2717}", "31", colored)
    } else if str_eq(status, "skipped") {
        paint("\u{2022}", "33", colored)
    } else if str_eq(status, "info") {
        paint("\u{203a}", "36", colored)
    } else {
        "\u{b7}".to_owned()
    }
}

/// The verdict of a schema check: `pass` without errors, else `fail`.
pub open spec fn spec_schema_verdict(error_count: nat) -> Seq<char> {
    if error_count == 0 {
        "pass"@
    } else {
        "fail"@
    }
}

/// The verdict of a schema check that found `error_count` errors.
pub fn schema_verdict(error_count: usize) -> (r: &'static str)
    ensures
        r@ == spec_schema_verdict(error_count as nat),
{
    if error_count == 0 {
        "pass"
    } else {
        "fail"
    }
}

/// The exit code of a check that succeeds only on `pass`.
pub open spec fn spec_pass_exit_code(verdict: Seq<char>) -> i32 {
    if verdict == "pass"@ {
        0
    } else {
        1
    }
}

/// The exit code of `schema-lint` and `gate-lint`: 0 on `pass`, else 1.
pub fn pass_exit_code(verdict: &str) -> (r: i32)
    ensures
        r == spec_pass_exit_code(verdict@),
{
    if str_eq(verdict, "pass") {
        0
    } else {
        1
    }
}

/// The exit code of a run that fails only on `fail`.
pub open spec fn spec_fail_exit_code(verdict: Seq<char>) -> i32 {
    if verdict == "fail"@ {
        1
    } else {
        0
    }
}

/// The exit code of `eval` and `suite`: 1 on `fail`, else 0 (a skipped run
/// does not fail).
pub fn fail_exit_code(verdict: &str) -> (r: i32)
    ensures
        r == spec_fail_exit_code(verdict@),
{
    if str_eq(verdict, "fail") {
        1
    } else {
        0
    }
}

/// `gate-lint` reads requirements either from one file or from a directory
/// tree, never both and never neither.
pub open spec fn spec_gate_sources_problem(has_requirements: bool, has_discover_dir: bool) -> Option<
    ErrorModel,
> {
    if has_requirements == has_discover_dir {
        Some(msg("Provide exactly one of --requirements or --discover-dir"@))
    } else {
        None
    }
}

/// Checks that `gate-lint` was given exactly one source of requirements.
pub fn check_gate_sources(has_requirements: bool, has_discover_dir: bool) -> (r: Result<
    (),
    EvelinError,
>)
    ensures
        match (r, spec_gate_sources_problem(has_requirements, has_discover_dir)) {
            (Ok(_), None) => true,
            (Err(e), Some(p)) => e@ == p,
            _ => false,
        },
{
    if has_requirements == has_discover_dir {
        Err(EvelinError::message("Provide exactly one of --requirements or --discover-dir"))
    } else {
        Ok(())
    }
}

/// The console label of an eval run of `skill` from the config at
/// `config`: `eval:<skill>/<file name>`, with `eval` when the path has no
/// file name.
pub open spec fn spec_eval_label(skill: Seq<char>, config: Seq<char>) -> Seq<char> {
    "eval:"@ + skill + "/"@ + match path_file_name(config) {
        Some(n) => n,
        None => "eval"@,
    }
}

/// The console label of an eval run.
pub fn eval_label(skill: &str, config: &str) -> (r: String)
    ensures
        r@ == spec_eval_label(skill@, config@),
{
    let name = match file_name(config) {
        Some(n) => n,
        None => "eval".to_owned(),
    };
    let head = cat3("eval:", skill, "/");
    cat(head.as_str(), name.as_str())
}

/// Where a suite run of `skill` writes its reports by default:
/// `tests/results/skills/<skill>` under the project root.
pub open spec fn spec_default_suite_out_dir(root: Seq<char>, skill: Seq<char>) -> Seq<char> {
    path_join(path_join(path_join(path_join(root, "tests"@), "results"@), "skills"@), skill)
}

/// Where a suite run of `skill` writes its reports by default.
pub fn default_suite_out_dir(root: &str, skill: &str) -> (r: String)
    ensures
        r@ == spec_default_suite_out_dir(root@, skill@),
{
    let a = join_path(root, "tests");
    let b = join_path(a.as_str(), "results");
    let c = join_path(b.as_str(), "skills");
    join_path(c.as_str(), skill)
}

/// Where a suite run writes its summary by default.
pub fn default_summary_out(out_dir: &str) -> (r: String)
    ensures
        r@ == path_join(out_dir@, "suite-summary.json"@),
{
    join_path(out_dir, "suite-summary.json")
}

} // verus!
