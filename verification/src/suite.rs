//! The per-skill suite: which eval configs a skill has, which of them
//! holds a skill's gate requirements, the steps of a suite run and its verdict.
use vstd::prelude::*;

use crate::config::fallback_eval_output_name;
use crate::config::spec_fallback_eval_output_name;
use crate::document::{join_path, parent_path, path_join, path_parent};
use crate::eval::EvalRunnerReport;
use crate::gate::ReportSummary;
use crate::text::{cat, cat3, chars_of, decimal, decimal_string, ends_with, ends_with_str, str_eq};

verus! {

/// One step of a suite run.
#[derive(Debug)]
pub struct SuiteStep {
    pub step_type: String,
    pub name: String,
    pub status: String,
    pub config: Option<String>,
    pub output: Option<String>,
    pub detail: Option<String>,
    pub runtime_detail: Option<String>,
    pub duration_ms: Option<u128>,
    pub exit_code: Option<i32>,
    pub reason: Option<String>,
}

/// The counts and verdict of a suite run.
#[derive(Debug)]
pub struct SuiteSummary {
    pub verdict: String,
    pub steps_total: usize,
    pub steps_passed: usize,
    pub steps_failed: usize,
    pub steps_skipped: usize,
    pub duration_ms: u128,
}

/// The value of a [`SuiteStep`].
pub struct StepModel {
    pub step_type: Seq<char>,
    pub name: Seq<char>,
    pub status: Seq<char>,
    pub config: Option<Seq<char>>,
    pub output: Option<Seq<char>>,
    pub detail: Option<Seq<char>>,
    pub runtime_detail: Option<Seq<char>>,
    pub duration_ms: Option<u128>,
    pub exit_code: Option<i32>,
    pub reason: Option<Seq<char>>,
}

impl View for SuiteStep {
    type V = StepModel;

    open spec fn view(&self) -> StepModel {
        StepModel {
            step_type: self.step_type@,
            name: self.name@,
            status: self.status@,
            config: self.config.deep_view(),
            output: self.output.deep_view(),
            detail: self.detail.deep_view(),
            runtime_detail: self.runtime_detail.deep_view(),
            duration_ms: self.duration_ms,
            exit_code: self.exit_code,
            reason: self.reason.deep_view(),
        }
    }
}

/// The values of a list of steps.
pub open spec fn steps_view(steps: Seq<SuiteStep>) -> Seq<StepModel> {
    steps.map_values(|s: SuiteStep| s@)
}

// ---------------------------------------------------------------------------
// Ordering names
// ---------------------------------------------------------------------------
/// `a` sorts before `b`: compared character by character by code point, a
/// proper prefix first (the order of `str` and of file names in one
/// directory).
pub open spec fn name_lt(a: Seq<char>, b: Seq<char>) -> bool
    decreases a.len(),
{
    if a.len() == 0 {
        b.len() > 0
    } else if b.len() == 0 {
        false
    } else if a[0] != b[0] {
        a[0] < b[0]
    } else {
        name_lt(a.drop_first(), b.drop_first())
    }
}

/// Every name sorts before every later one.
pub open spec fn strictly_sorted(s: Seq<Seq<char>>) -> bool {
    forall|i: int, j: int| 0 <= i < j < s.len() ==> name_lt(#[trigger] s[i], #[trigger] s[j])
}

/// No name occurs twice.
pub open spec fn distinct_names(s: Seq<Seq<char>>) -> bool {
    forall|i: int, j: int| 0 <= i < s.len() && 0 <= j < s.len() && i != j ==> s[i] != s[j]
}

/// The names of `s` in sorted order.
pub open spec fn sorted_names(s: Seq<Seq<char>>) -> Seq<Seq<char>> {
    choose|t: Seq<Seq<char>>| strictly_sorted(t) && t.to_set() == s.to_set()
}

/// No name sorts before itself.
pub proof fn lemma_name_lt_irreflexive(a: Seq<char>)
    ensures
        !name_lt(a, a),
    decreases a.len(),
{
    if a.len() > 0 {
        lemma_name_lt_irreflexive(a.drop_first());
    }
}

/// Sorting before is transitive.
pub proof fn lemma_name_lt_transitive(a: Seq<char>, b: Seq<char>, c: Seq<char>)
    requires
        name_lt(a, b),
        name_lt(b, c),
    ensures
        name_lt(a, c),
    decreases a.len(),
{
    if a.len() > 0 && b.len() > 0 && c.len() > 0 && a[0] == b[0] && b[0] == c[0] {
        lemma_name_lt_transitive(a.drop_first(), b.drop_first(), c.drop_first());
    }
}

/// Of two different names, one sorts before the other.
pub proof fn lemma_name_lt_total(a: Seq<char>, b: Seq<char>)
    requires
        a != b,
    ensures
        name_lt(a, b) || name_lt(b, a),
    decreases a.len(),
{
    if a.len() > 0 && b.len() > 0 && a[0] == b[0] {
        if a.drop_first() == b.drop_first() {
            assert(a =~= seq![a[0]] + a.drop_first());
            assert(b =~= seq![b[0]] + b.drop_first());
        }
        lemma_name_lt_total(a.drop_first(), b.drop_first());
    } else if a.len() == 0 && b.len() == 0 {
        assert(a =~= b);
    }
}

proof fn lemma_name_lt_asymmetric(a: Seq<char>, b: Seq<char>)
    requires
        name_lt(a, b),
    ensures
        !name_lt(b, a),
{
    if name_lt(b, a) {
        lemma_name_lt_transitive(a, b, a);
        lemma_name_lt_irreflexive(a);
    }
}

proof fn lemma_sorted_distinct(s: Seq<Seq<char>>)
    requires
        strictly_sorted(s),
    ensures
        distinct_names(s),
{
    assert forall|i: int, j: int| 0 <= i < s.len() && 0 <= j < s.len() && i != j implies s[i]
        != s[j] by {
        if i < j {
            lemma_name_lt_irreflexive(s[i]);
        } else {
            lemma_name_lt_irreflexive(s[j]);
        }
    }
}

proof fn lemma_sorted_tail_set(s: Seq<Seq<char>>)
    requires
        strictly_sorted(s),
        s.len() > 0,
    ensures
        strictly_sorted(s.drop_first()),
        s.drop_first().to_set() == s.to_set().remove(s[0]),
        forall|x: Seq<char>| s.to_set().contains(x) && x != s[0] ==> name_lt(s[0], x),
{
    let t = s.drop_first();
    assert forall|i: int, j: int| 0 <= i < j < t.len() implies name_lt(t[i], t[j]) by {
        assert(t[i] == s[i + 1]);
        assert(t[j] == s[j + 1]);
    }
    lemma_sorted_distinct(s);
    assert forall|x: Seq<char>| t.to_set().contains(x) <==> s.to_set().remove(s[0]).contains(x) by {
        if t.to_set().contains(x) {
            let i = choose|i: int| 0 <= i < t.len() && t[i] == x;
            assert(s[i + 1] == x);
            assert(s.contains(x));
        }
        if s.to_set().remove(s[0]).contains(x) {
            let i = choose|i: int| 0 <= i < s.len() && s[i] == x;
            assert(i != 0);
            assert(t[i - 1] == x);
            assert(t.contains(x));
        }
    }
    assert(t.to_set() =~= s.to_set().remove(s[0]));
    assert forall|x: Seq<char>| s.to_set().contains(x) && x != s[0] implies name_lt(s[0], x) by {
        let i = choose|i: int| 0 <= i < s.len() && s[i] == x;
        assert(i != 0);
    }
}

/// Two sorted lists of the same names are the same list.
pub proof fn lemma_sorted_unique(a: Seq<Seq<char>>, b: Seq<Seq<char>>)
    requires
        strictly_sorted(a),
        strictly_sorted(b),
        a.to_set() == b.to_set(),
    ensures
        a == b,
    decreases a.len(),
{
    if a.len() == 0 {
        if b.len() > 0 {
            assert(b.to_set().contains(b[0]));
            assert(!a.to_set().contains(b[0]));
        }
        assert(a =~= b);
    } else if b.len() == 0 {
        assert(a.to_set().contains(a[0]));
    } else {
        lemma_sorted_tail_set(a);
        lemma_sorted_tail_set(b);
        assert(a.to_set().contains(a[0]));
        assert(b.to_set().contains(b[0]));
        if a[0] != b[0] {
            assert(name_lt(a[0], b[0]));
            assert(name_lt(b[0], a[0]));
            lemma_name_lt_asymmetric(a[0], b[0]);
        }
        lemma_sorted_unique(a.drop_first(), b.drop_first());
        assert(a =~= seq![a[0]] + a.drop_first());
        assert(b =~= seq![b[0]] + b.drop_first());
    }
}

proof fn lemma_sorted_names_is(s: Seq<Seq<char>>, t: Seq<Seq<char>>)
    requires
        strictly_sorted(t),
        t.to_set() == s.to_set(),
    ensures
        sorted_names(s) == t,
{
    let u = sorted_names(s);
    assert(strictly_sorted(u) && u.to_set() == s.to_set());
    lemma_sorted_unique(u, t);
}

/// Whether `a` sorts before `b`.
fn name_lt_exec(a: &str, b: &str) -> (r: bool)
    ensures
        r == name_lt(a@, b@),
{
    let x = chars_of(a);
    let y = chars_of(b);
    let mut i: usize = 0;
    assert(x@.skip(0) =~= a@);
    assert(y@.skip(0) =~= b@);
    while i < x.len() && i < y.len() && x[i] == y[i]
        invariant
            i <= x@.len(),
            i <= y@.len(),
            name_lt(a@, b@) == name_lt(x@.skip(i as int), y@.skip(i as int)),
        decreases x.len() - i,
    {
        assert(x@.skip(i as int).drop_first() =~= x@.skip(i + 1));
        assert(y@.skip(i as int).drop_first() =~= y@.skip(i + 1));
        i += 1;
    }
    if i == x.len() {
        i < y.len()
    } else if i == y.len() {
        false
    } else {
        assert(x@.skip(i as int)[0] == x@[i as int]);
        assert(y@.skip(i as int)[0] == y@[i as int]);
        x[i] < y[i]
    }
}

/// Sorts names that are all different.
fn sort_distinct_names(names: Vec<String>) -> (r: Vec<String>)
    requires
        distinct_names(names.deep_view()),
    ensures
        strictly_sorted(r.deep_view()),
        r.deep_view().to_set() == names.deep_view().to_set(),
        r.deep_view() == sorted_names(names.deep_view()),
{
    let ghost input = names.deep_view();
    let mut out: Vec<String> = Vec::new();
    let mut k: usize = 0;
    assert(out.deep_view().to_set() =~= input.take(0).to_set());
    while k < names.len()
        invariant
            k <= names@.len(),
            input == names.deep_view(),
            distinct_names(input),
            strictly_sorted(out.deep_view()),
            out.deep_view().to_set() == input.take(k as int).to_set(),
        decreases names.len() - k,
    {
        let x = &names[k];
        let ghost xv = x@;
        let ghost s = out.deep_view();
        assert(input[k as int] == xv);
        // x is new: it is none of the names before it
        assert(!s.to_set().contains(xv)) by {
            if s.to_set().contains(xv) {
                assert(input.take(k as int).to_set().contains(xv));
                let j = choose|j: int| 0 <= j < input.take(k as int).len() && input.take(
                    k as int,
                )[j] == xv;
                assert(input[j] == xv);
            }
        }
        // the first position whose name sorts after x
        let mut p: usize = 0;
        while p < out.len() && !name_lt_exec(x.as_str(), out[p].as_str())
            invariant
                p <= out@.len(),
                s == out.deep_view(),
                xv == x@,
                forall|j: int| 0 <= j < p ==> !name_lt(xv, #[trigger] s[j]),
            decreases out.len() - p,
        {
            p += 1;
        }
        let ghost before = s;
        out.insert(p, x.clone());
        proof {
            let t = out.deep_view();
            assert(t =~= before.take(p as int) + seq![xv] + before.skip(p as int));
            assert forall|i: int, j: int| 0 <= i < j < t.len() implies name_lt(
                #[trigger] t[i],
                #[trigger] t[j],
            ) by {
                if j < p {
                    assert(t[i] == before[i] && t[j] == before[j]);
                } else if i > p {
                    assert(t[i] == before[i - 1] && t[j] == before[j - 1]);
                } else if i == p {
                    assert(t[j] == before[j - 1]);
                    assert(name_lt(xv, before[p as int]));
                    if j - 1 > p {
                        lemma_name_lt_transitive(xv, before[p as int], before[j - 1]);
                    }
                } else {
                    assert(t[i] == before[i]);
                    assert(before.contains(before[i]));
                    assert(before[i] != xv);
                    lemma_name_lt_total(before[i], xv);
                    if j == p {
                        assert(t[j] == xv);
                    } else {
                        assert(t[j] == before[j - 1]);
                        assert(name_lt(xv, before[p as int]));
                        assert(name_lt(before[i], xv));
                        lemma_name_lt_transitive(before[i], xv, before[p as int]);
                        if j - 1 > p {
                            lemma_name_lt_transitive(before[i], before[p as int], before[j - 1]);
                        }
                    }
                }
            }
            assert(input.take(k + 1) =~= input.take(k as int).push(xv));
            assert forall|y: Seq<char>| t.to_set().contains(y) <==> before.to_set().insert(
                xv,
            ).contains(y) by {
                if t.to_set().contains(y) {
                    let i = choose|i: int| 0 <= i < t.len() && t[i] == y;
                    if i < p {
                        assert(before[i] == y);
                        assert(before.contains(y));
                    } else if i > p {
                        assert(before[i - 1] == y);
                        assert(before.contains(y));
                    }
                }
                if before.to_set().insert(xv).contains(y) {
                    if y == xv {
                        assert(t[p as int] == xv);
                        assert(t.contains(y));
                    } else {
                        let i = choose|i: int| 0 <= i < before.len() && before[i] == y;
                        if i < p {
                            assert(t[i] == y);
                        } else {
                            assert(t[i + 1] == y);
                        }
                        assert(t.contains(y));
                    }
                }
            }
            assert(t.to_set() =~= before.to_set().insert(xv));
            let pre = input.take(k as int);
            assert forall|y: Seq<char>| pre.push(xv).to_set().contains(y) <==> pre.to_set().insert(
                xv,
            ).contains(y) by {
                if pre.push(xv).to_set().contains(y) {
                    let i = choose|i: int| 0 <= i < pre.push(xv).len() && pre.push(xv)[i] == y;
                    if i < pre.len() {
                        assert(pre[i] == y);
                        assert(pre.contains(y));
                    }
                }
                if pre.to_set().insert(xv).contains(y) {
                    if y == xv {
                        assert(pre.push(xv)[pre.len() as int] == xv);
                    } else {
                        let i = choose|i: int| 0 <= i < pre.len() && pre[i] == y;
                        assert(pre.push(xv)[i] == y);
                    }
                    assert(pre.push(xv).contains(y));
                }
            }
            assert(pre.push(xv).to_set() =~= pre.to_set().insert(xv));
        }
        k += 1;
    }
    assert(input.take(names@.len() as int) =~= input);
    proof {
        lemma_sorted_names_is(input, out.deep_view());
    }
    out
}

// ---------------------------------------------------------------------------
// Discovering a skill's eval configs
// ---------------------------------------------------------------------------
/// The names of a skill's default eval configs, in the order they are
/// looked for.
pub const DEFAULT_EVAL_CONFIG_NAMES: [&'static str; 3] = ["eval_config.json", "eval.yaml", "eval.yml"];

/// The names of a skill's default eval configs, in the order they are
/// looked for.
pub open spec fn default_config_names() -> Seq<Seq<char>> {
    seq!["eval_config.json"@, "eval.yaml"@, "eval.yml"@]
}

/// Whether a file name names an eval config.
pub open spec fn is_eval_config_name(name: Seq<char>) -> bool {
    ||| ends_with(name, ".eval_config.json"@)
    ||| ends_with(name, ".eval.yaml"@)
    ||| ends_with(name, ".eval.yml"@)
}

/// The default configs among `existing`, in the order they are looked for.
pub open spec fn present_defaults(existing: Seq<Seq<char>>) -> Seq<Seq<char>> {
    default_config_names().filter(|d: Seq<char>| existing.contains(d))
}

/// `candidates` with the eval config names of `entries` added, in order,
/// each once.
pub open spec fn add_config_entries(candidates: Seq<Seq<char>>, entries: Seq<Seq<char>>) -> Seq<
    Seq<char>,
>
    decreases entries.len(),
{
    if entries.len() == 0 {
        candidates
    } else {
        let e = entries[0];
        let next = if is_eval_config_name(e) && !candidates.contains(e) {
            candidates.push(e)
        } else {
            candidates
        };
        add_config_entries(next, entries.drop_first())
    }
}

/// The names of a skill's eval configs: the default ones that exist, and
/// the directory entries named like eval configs.
pub open spec fn config_candidates(existing: Seq<Seq<char>>, entries: Seq<Seq<char>>) -> Seq<
    Seq<char>,
> {
    add_config_entries(present_defaults(existing), entries)
}

/// The paths of a skill's eval configs, sorted by name.
pub open spec fn spec_discover_eval_configs(
    skill_dir: Seq<char>,
    existing: Seq<Seq<char>>,
    entries: Seq<Seq<char>>,
) -> Seq<Seq<char>> {
    sorted_names(config_candidates(existing, entries)).map_values(
        |n: Seq<char>| path_join(skill_dir, n),
    )
}

fn contains_name(v: &Vec<String>, name: &str) -> (r: bool)
    ensures
        r == v.deep_view().contains(name@),
{
    let mut i: usize = 0;
    while i < v.len()
        invariant
            i <= v@.len(),
            forall|j: int| 0 <= j < i ==> v.deep_view()[j] != name@,
        decreases v.len() - i,
    {
        if str_eq(v[i].as_str(), name) {
            assert(v.deep_view()[i as int] == name@);
            return true;
        }
        i += 1;
    }
    false
}

fn is_eval_config_name_exec(name: &str) -> (r: bool)
    ensures
        r == is_eval_config_name(name@),
{
    ends_with_str(name, ".eval_config.json") || ends_with_str(name, ".eval.yaml") || ends_with_str(
        name,
        ".eval.yml",
    )
}

/// The eval configs of the skill whose suite directory is `skill_dir`:
/// `existing` names the default configs (`eval_config.json`, `eval.yaml`,
/// `eval.yml`) that exist there and `entries` the names of its entries.
/// The defaults that exist and the entries named `*.eval_config.json`,
/// `*.eval.yaml` or `*.eval.yml` are taken once each, sorted by name.
pub fn discover_eval_configs(skill_dir: &str, existing: &Vec<String>, entries: &Vec<String>) -> (r:
    Vec<String>)
    ensures
        r.deep_view() == spec_discover_eval_configs(
            skill_dir@,
            existing.deep_view(),
            entries.deep_view(),
        ),
        strictly_sorted(sorted_names(config_candidates(existing.deep_view(), entries.deep_view()))),
        sorted_names(config_candidates(existing.deep_view(), entries.deep_view())).to_set()
            == config_candidates(existing.deep_view(), entries.deep_view()).to_set(),
{
    let mut names: Vec<String> = Vec::new();
    let ghost ex = existing.deep_view();
    let ghost defaults = default_config_names();
    proof {
        reveal_strlit("eval_config.json");
        reveal_strlit("eval.yaml");
        reveal_strlit("eval.yml");
        assert(defaults[0].len() == 16 && defaults[1].len() == 9 && defaults[2].len() == 8);
        assert(defaults[0] != defaults[1]);
        assert(defaults[0] != defaults[2]);
        assert(defaults[1] != defaults[2]);
        assert(defaults.take(0).filter(|d: Seq<char>| ex.contains(d)) =~= seq![]);
    }
    // the defaults, in order
    let d0 = contains_name(existing, "eval_config.json");
    if d0 {
        names.push("eval_config.json".to_owned());
    }
    let d1 = contains_name(existing, "eval.yaml");
    if d1 {
        names.push("eval.yaml".to_owned());
    }
    let d2 = contains_name(existing, "eval.yml");
    if d2 {
        names.push("eval.yml".to_owned());
    }
    proof {
        assert(defaults =~= seq![defaults[0], defaults[1]].push(defaults[2]));
        assert(seq![defaults[0], defaults[1]] =~= seq![defaults[0]].push(defaults[1]));
        assert(seq![defaults[0]] =~= Seq::<Seq<char>>::empty().push(defaults[0]));
        let pred = |d: Seq<char>| ex.contains(d);
        Seq::<Seq<char>>::empty().lemma_filter_push(defaults[0], pred);
        seq![defaults[0]].lemma_filter_push(defaults[1], pred);
        seq![defaults[0], defaults[1]].lemma_filter_push(defaults[2], pred);
        assert(Seq::<Seq<char>>::empty().filter(|d: Seq<char>| ex.contains(d)) =~= seq![]);
        assert(names.deep_view() =~= present_defaults(ex));
        assert(distinct_names(names.deep_view()));
    }
    // the entries named like eval configs
    let mut i: usize = 0;
    assert(entries.deep_view().skip(0) =~= entries.deep_view());
    while i < entries.len()
        invariant
            i <= entries@.len(),
            ex == existing.deep_view(),
            distinct_names(names.deep_view()),
            config_candidates(ex, entries.deep_view()) == add_config_entries(
                names.deep_view(),
                entries.deep_view().skip(i as int),
            ),
        decreases entries.len() - i,
    {
        let ghost es = entries.deep_view();
        assert(es.skip(i as int).drop_first() =~= es.skip(i + 1));
        assert(es.skip(i as int)[0] == es[i as int]);
        assert(es[i as int] == entries@[i as int]@);
        let e = entries[i].as_str();
        if is_eval_config_name_exec(e) && !contains_name(&names, e) {
            let ghost before = names.deep_view();
            names.push(e.to_owned());
            assert(names.deep_view() =~= before.push(e@));
            assert forall|a: int, b: int|
                0 <= a < names.deep_view().len() && 0 <= b < names.deep_view().len() && a
                    != b implies names.deep_view()[a] != names.deep_view()[b] by {
                if a < before.len() && b < before.len() {
                } else if a < before.len() {
                    assert(before.contains(before[a]));
                } else {
                    assert(before.contains(before[b]));
                }
            }
        }
        i += 1;
    }
    assert(entries.deep_view().skip(i as int) =~= seq![]);
    let ghost cands = names.deep_view();
    let sorted = sort_distinct_names(names);
    let mut paths: Vec<String> = Vec::new();
    let mut k: usize = 0;
    while k < sorted.len()
        invariant
            k <= sorted@.len(),
            sorted.deep_view() == sorted_names(cands),
            cands == config_candidates(ex, entries.deep_view()),
            paths.deep_view() == sorted.deep_view().take(k as int).map_values(
                |n: Seq<char>| path_join(skill_dir@, n),
            ),
        decreases sorted.len() - k,
    {
        let ghost before = paths.deep_view();
        paths.push(join_path(skill_dir, sorted[k].as_str()));
        assert(sorted.deep_view()[k as int] == sorted@[k as int]@);
        assert(paths.deep_view() =~= before.push(path_join(skill_dir@, sorted.deep_view()[k as int])));
        assert(sorted.deep_view().take(k + 1) =~= sorted.deep_view().take(k as int).push(
            sorted.deep_view()[k as int],
        ));
        assert(paths.deep_view() =~= sorted.deep_view().take(k + 1).map_values(
            |n: Seq<char>| path_join(skill_dir@, n),
        ));
        k += 1;
    }
    assert(sorted.deep_view().take(sorted@.len() as int) =~= sorted.deep_view());
    paths
}


// ---------------------------------------------------------------------------
// Schema validity and the config holding gate requirements
// ---------------------------------------------------------------------------
/// Whether the config at `path` passed its schema check: the flag of the
/// first record for it; a config without a record did not pass.
pub open spec fn spec_schema_valid(validity: Seq<(String, bool)>, path: Seq<char>) -> bool
    decreases validity.len(),
{
    if validity.len() == 0 {
        false
    } else if validity[0].0@ == path {
        validity[0].1
    } else {
        spec_schema_valid(validity.drop_first(), path)
    }
}

/// Whether the config at `path` passed its schema check.
pub fn is_schema_valid(validity: &Vec<(String, bool)>, path: &str) -> (r: bool)
    ensures
        r == spec_schema_valid(validity@, path@),
{
    let mut i: usize = 0;
    assert(validity@.skip(0) =~= validity@);
    while i < validity.len()
        invariant
            i <= validity@.len(),
            spec_schema_valid(validity@, path@) == spec_schema_valid(
                validity@.skip(i as int),
                path@,
            ),
        decreases validity.len() - i,
    {
        assert(validity@.skip(i as int).drop_first() =~= validity@.skip(i + 1));
        assert(validity@.skip(i as int)[0] == validity@[i as int]);
        if str_eq(validity[i].0.as_str(), path) {
            return validity[i].1;
        }
        i += 1;
    }
    false
}

/// The root a skill's configs are read against when looking for its gate
/// requirements: three levels above its suite directory, or the directory
/// itself when it is not that deep.
pub open spec fn spec_gate_config_root(skill_dir: Seq<char>) -> Seq<char> {
    match path_parent(skill_dir) {
        Some(a) => match path_parent(a) {
            Some(b) => match path_parent(b) {
                Some(c) => c,
                None => skill_dir,
            },
            None => skill_dir,
        },
        None => skill_dir,
    }
}

/// The root a skill's configs are read against when looking for its gate
/// requirements.
pub fn gate_config_root(skill_dir: &str) -> (r: String)
    ensures
        r@ == spec_gate_config_root(skill_dir@),
{
    match parent_path(skill_dir) {
        Some(a) => match parent_path(a.as_str()) {
            Some(b) => match parent_path(b.as_str()) {
                Some(c) => c,
                None => skill_dir.to_owned(),
            },
            None => skill_dir.to_owned(),
        },
        None => skill_dir.to_owned(),
    }
}

/// The next thing to do when looking for the config that holds a skill's
/// gate requirements.
pub enum GateSearch {
    /// Read the config `eval_configs[index]` against `root`; it is
    /// used if it has gate requirements.
    Load { index: usize, root: String },
    /// No config has them: the legacy requirements file `path` is
    /// used if it exists.
    Legacy { path: String },
}

/// Looks for a config with gate requirements among `eval_configs`, the first `checked` of
/// which were already read and had no gate requirements: the next config
/// that passed its schema check is read next; when none is left, the
/// skill's legacy `gate_requirements.json`.
pub fn find_gate_config(
    eval_configs: &Vec<String>,
    schema_validity: &Vec<(String, bool)>,
    skill_dir: &str,
    checked: usize,
) -> (r: GateSearch)
    ensures
        match r {
            GateSearch::Load { index, root } => {
                &&& checked <= index < eval_configs@.len()
                &&& spec_schema_valid(schema_validity@, eval_configs@[index as int]@)
                &&& forall|j: int|
                    checked <= j < index ==> !spec_schema_valid(
                        schema_validity@,
                        #[trigger] eval_configs@[j]@,
                    )
                &&& root@ == spec_gate_config_root(skill_dir@)
            },
            GateSearch::Legacy { path } => {
                &&& forall|j: int|
                    checked <= j < eval_configs@.len() ==> !spec_schema_valid(
                        schema_validity@,
                        #[trigger] eval_configs@[j]@,
                    )
                &&& path@ == path_join(skill_dir@, "gate_requirements.json"@)
            },
        },
{
    let mut i: usize = checked;
    while i < eval_configs.len()
        invariant
            checked <= i,
            forall|j: int|
                checked <= j < i && j < eval_configs@.len() ==> !spec_schema_valid(
                    schema_validity@,
                    #[trigger] eval_configs@[j]@,
                ),
        decreases eval_configs.len() - i,
    {
        if is_schema_valid(schema_validity, eval_configs[i].as_str()) {
            return GateSearch::Load { index: i, root: gate_config_root(skill_dir) };
        }
        i += 1;
    }
    GateSearch::Legacy { path: join_path(skill_dir, "gate_requirements.json") }
}

// ---------------------------------------------------------------------------
// The steps of a suite run
// ---------------------------------------------------------------------------
/// The suite directory of `skill`: `tests/src/skills/<skill>` under the
/// project root.
pub fn skill_test_dir(layout: &crate::config::ProjectLayout, skill: &str) -> (r: String)
    ensures
        r@ == path_join(layout.tests_skills_dir@, skill@),
{
    join_path(layout.tests_skills_dir.as_str(), skill)
}

/// Where the schema report of the config at `config_path` goes.
pub open spec fn spec_schema_output(out_dir: Seq<char>, config_path: Seq<char>) -> Seq<char> {
    path_join(out_dir, spec_fallback_eval_output_name(config_path) + ".schema.json"@)
}

/// Where the schema report of the config at `config_path` goes.
pub fn schema_output_path(out_dir: &str, config_path: &str) -> (r: String)
    ensures
        r@ == spec_schema_output(out_dir@, config_path@),
{
    let name = fallback_eval_output_name(config_path);
    let file = cat(name.as_str(), ".schema.json");
    join_path(out_dir, file.as_str())
}

/// Where a suite run writes its gate-lint report.
pub fn gate_output_path(out_dir: &str) -> (r: String)
    ensures
        r@ == path_join(out_dir@, "gate-lint.json"@),
{
    join_path(out_dir, "gate-lint.json")
}

/// Where the report of the eval named `eval_name` goes.
pub fn eval_output_path(out_dir: &str, eval_name: &str) -> (r: String)
    ensures
        r@ == path_join(out_dir@, eval_name@ + ".eval.json"@),
{
    let file = cat(eval_name, ".eval.json");
    join_path(out_dir, file.as_str())
}

/// The decimal digits of `n`.
pub open spec fn num(n: nat) -> Seq<char> {
    decimal(n)
}

/// The detail of a schema check that found `error_count` errors in
/// `duration_ms`.
pub open spec fn spec_schema_detail(error_count: nat, duration_ms: u128) -> Seq<char> {
    if error_count == 0 {
        "schema ok  t="@ + num(duration_ms as nat) + "ms"@
    } else {
        num(error_count) + " error(s)  t="@ + num(duration_ms as nat) + "ms"@
    }
}

/// The detail of a schema check that found `error_count` errors in
/// `duration_ms`.
pub fn schema_detail(error_count: usize, duration_ms: u128) -> (r: String)
    ensures
        r@ == spec_schema_detail(error_count as nat, duration_ms),
{
    let ms = decimal_string(duration_ms);
    if error_count == 0 {
        cat3("schema ok  t=", ms.as_str(), "ms")
    } else {
        let count = decimal_string(error_count as u128);
        let head = cat3(count.as_str(), " error(s)  t=", ms.as_str());
        let d = cat(head.as_str(), "ms");
        assert(d@ =~= num(error_count as nat) + " error(s)  t="@ + num(duration_ms as nat) + "ms"@);
        d
    }
}

/// The step of the schema check of the config at `config_path`, which found
/// `error_count` errors in `duration_ms` and was written to `output`.
pub open spec fn schema_step_model(
    config_path: Seq<char>,
    output: Seq<char>,
    error_count: nat,
    duration_ms: u128,
) -> StepModel {
    let ok = error_count == 0;
    StepModel {
        step_type: "schema_lint"@,
        name: "schema:"@ + spec_fallback_eval_output_name(config_path),
        status: if ok {
            "pass"@
        } else {
            "fail"@
        },
        config: Some(config_path),
        output: Some(output),
        detail: Some(spec_schema_detail(error_count, duration_ms)),
        runtime_detail: None,
        duration_ms: Some(duration_ms),
        exit_code: Some(
            if ok {
                0
            } else {
                1
            },
        ),
        reason: None,
    }
}

fn owned_opt(s: &str) -> (r: Option<String>)
    ensures
        r.deep_view() == Some(s@),
{
    Some(s.to_owned())
}

/// The step of the schema check of the config at `config_path`.
pub fn schema_step(config_path: &str, output: &str, error_count: usize, duration_ms: u128) -> (r:
    SuiteStep)
    ensures
        r@ == schema_step_model(config_path@, output@, error_count as nat, duration_ms),
{
    let label = fallback_eval_output_name(config_path);
    let ok = error_count == 0;
    let detail = schema_detail(error_count, duration_ms);
    SuiteStep {
        step_type: "schema_lint".to_owned(),
        name: cat("schema:", label.as_str()),
        status: if ok {
            "pass".to_owned()
        } else {
            "fail".to_owned()
        },
        config: owned_opt(config_path),
        output: owned_opt(output),
        detail: Some(detail),
        runtime_detail: None,
        duration_ms: Some(duration_ms),
        exit_code: Some(
            if ok {
                0
            } else {
                1
            },
        ),
        reason: None,
    }
}

/// A gate-lint step for the config at `config`, summarised by
/// `summary` and written to `output`.
pub open spec fn gate_step_model(
    config: Seq<char>,
    output: Seq<char>,
    summary: ReportSummary,
    duration_ms: u128,
) -> StepModel {
    StepModel {
        step_type: "gate_lint"@,
        name: "gate-lint"@,
        status: summary.verdict@,
        config: Some(config),
        output: Some(output),
        detail: Some(
            num(summary.passed as nat) + "/"@ + num(summary.total as nat) + " checks  t="@ + num(
                duration_ms as nat,
            ) + "ms"@,
        ),
        runtime_detail: None,
        duration_ms: Some(duration_ms),
        exit_code: Some(
            if summary.verdict@ == "pass"@ {
                0
            } else {
                1
            },
        ),
        reason: None,
    }
}

/// A gate-lint step for the config at `config`.
pub fn gate_step(config: &str, output: &str, summary: &ReportSummary, duration_ms: u128) -> (r:
    SuiteStep)
    ensures
        r@ == gate_step_model(config@, output@, *summary, duration_ms),
{
    let passed = decimal_string(summary.passed as u128);
    let total = decimal_string(summary.total as u128);
    let ms = decimal_string(duration_ms);
    let a = cat3(passed.as_str(), "/", total.as_str());
    let b = cat3(a.as_str(), " checks  t=", ms.as_str());
    let detail = cat(b.as_str(), "ms");
    assert(detail@ =~= num(summary.passed as nat) + "/"@ + num(summary.total as nat) + " checks  t="@
        + num(duration_ms as nat) + "ms"@);
    let pass = str_eq(summary.verdict.as_str(), "pass");
    SuiteStep {
        step_type: "gate_lint".to_owned(),
        name: "gate-lint".to_owned(),
        status: summary.verdict.clone(),
        config: owned_opt(config),
        output: owned_opt(output),
        detail: Some(detail),
        runtime_detail: None,
        duration_ms: Some(duration_ms),
        exit_code: Some(
            if pass {
                0
            } else {
                1
            },
        ),
        reason: None,
    }
}

/// A skipped step of type `step_type` named `name`, for the config at
/// `config` (if any), for the given reason.
pub open spec fn skipped_model(
    step_type: Seq<char>,
    name: Seq<char>,
    config: Option<Seq<char>>,
    reason: Seq<char>,
) -> StepModel {
    StepModel {
        step_type,
        name,
        status: "skipped"@,
        config,
        output: None,
        detail: None,
        runtime_detail: None,
        duration_ms: None,
        exit_code: None,
        reason: Some(reason),
    }
}

fn skipped(step_type: &str, name: &str, config: Option<String>, reason: &str) -> (r: SuiteStep)
    ensures
        r@ == skipped_model(step_type@, name@, config.deep_view(), reason@),
{
    SuiteStep {
        step_type: step_type.to_owned(),
        name: name.to_owned(),
        status: "skipped".to_owned(),
        config,
        output: None,
        detail: None,
        runtime_detail: None,
        duration_ms: None,
        exit_code: None,
        reason: Some(reason.to_owned()),
    }
}

/// A gate-lint step of a skill with no gate requirements.
pub fn gate_skipped_step() -> (r: SuiteStep)
    ensures
        r@ == skipped_model(
            "gate_lint"@,
            "gate-lint"@,
            None,
            "missing valid embedded or legacy gate requirements"@,
        ),
{
    skipped("gate_lint", "gate-lint", None, "missing valid embedded or legacy gate requirements")
}

/// The eval step of a skill with no eval config.
pub fn no_evals_step() -> (r: SuiteStep)
    ensures
        r@ == skipped_model("eval"@, "evals"@, None, "no eval config"@),
{
    skipped("eval", "evals", None, "no eval config")
}

/// The eval step of the config at `config_path`, which failed its schema
/// check.
pub fn eval_skipped_step(config_path: &str) -> (r: SuiteStep)
    ensures
        r@ == skipped_model(
            "eval"@,
            spec_fallback_eval_output_name(config_path@),
            Some(config_path@),
            "schema validation failed"@,
        ),
{
    let name = fallback_eval_output_name(config_path);
    skipped("eval", name.as_str(), owned_opt(config_path), "schema validation failed")
}

/// `on` or `off`.
pub open spec fn on_off(b: bool) -> Seq<char> {
    if b {
        "on"@
    } else {
        "off"@
    }
}

/// A text setting, or `default` when it is unset.
pub open spec fn or_default(o: Option<Seq<char>>) -> Seq<char> {
    match o {
        Some(v) => v,
        None => "default"@,
    }
}

/// The runtime line of an eval step: isolation, configured and effective
/// concurrency, serial retries, sandbox, model and effort, separated by two
/// spaces.
pub open spec fn spec_runtime_detail(r: EvalRunnerReport) -> Seq<char> {
    "isolation="@ + on_off(r.codex_isolation) + "  concurrency="@ + num(r.max_concurrency as nat)
        + "/"@ + num(r.effective_concurrency as nat) + "  retries="@ + num(
        r.serial_retry_count as nat,
    ) + "  sandbox="@ + r.codex_sandbox@ + "  model="@ + or_default(r.codex_model.deep_view())
        + "  effort="@ + or_default(r.codex_reasoning_effort.deep_view())
}

fn or_default_exec(o: &Option<String>) -> (r: String)
    ensures
        r@ == or_default(o.deep_view()),
{
    match o {
        Some(v) => v.clone(),
        None => "default".to_owned(),
    }
}

/// The runtime line of an eval step.
pub fn runtime_detail(runner: &EvalRunnerReport) -> (r: String)
    ensures
        r@ == spec_runtime_detail(*runner),
{
    let iso = if runner.codex_isolation {
        "on"
    } else {
        "off"
    };
    let max = decimal_string(runner.max_concurrency as u128);
    let eff = decimal_string(runner.effective_concurrency as u128);
    let retries = decimal_string(runner.serial_retry_count as u128);
    let model = or_default_exec(&runner.codex_model);
    let effort = or_default_exec(&runner.codex_reasoning_effort);
    let a = cat3("isolation=", iso, "  concurrency=");
    let b = cat3(a.as_str(), max.as_str(), "/");
    let c = cat3(b.as_str(), eff.as_str(), "  retries=");
    let d = cat3(c.as_str(), retries.as_str(), "  sandbox=");
    let e = cat3(d.as_str(), runner.codex_sandbox.as_str(), "  model=");
    let f = cat3(e.as_str(), model.as_str(), "  effort=");
    let g = cat(f.as_str(), effort.as_str());
    proof {
        reveal_strlit("on");
        reveal_strlit("off");
    }
    assert(g@ =~= spec_runtime_detail(*runner));
    g
}

/// The step of the eval named `eval_name`, run from the config at
/// `config_path`, whose report was written to `output`: `verdict`, `passed`
/// of `total` cases, the pass rate as `rate_text`, and how it ran.
pub open spec fn eval_step_model(
    eval_name: Seq<char>,
    config_path: Seq<char>,
    output: Seq<char>,
    verdict: Seq<char>,
    passed: nat,
    total: nat,
    rate_text: Seq<char>,
    runner: EvalRunnerReport,
    duration_ms: u128,
) -> StepModel {
    StepModel {
        step_type: "eval"@,
        name: eval_name,
        status: verdict,
        config: Some(config_path),
        output: Some(output),
        detail: Some(
            num(passed) + "/"@ + num(total) + " pass  rate="@ + rate_text + "  t="@ + num(
                duration_ms as nat,
            ) + "ms"@,
        ),
        runtime_detail: Some(spec_runtime_detail(runner)),
        duration_ms: Some(duration_ms),
        exit_code: Some(
            if verdict == "fail"@ {
                1
            } else {
                0
            },
        ),
        reason: None,
    }
}

/// The step of an eval that ran.
pub fn eval_step(
    eval_name: &str,
    config_path: &str,
    output: &str,
    verdict: &str,
    passed: usize,
    total: usize,
    rate_text: &str,
    runner: &EvalRunnerReport,
    duration_ms: u128,
) -> (r: SuiteStep)
    ensures
        r@ == eval_step_model(
            eval_name@,
            config_path@,
            output@,
            verdict@,
            passed as nat,
            total as nat,
            rate_text@,
            *runner,
            duration_ms,
        ),
{
    let p = decimal_string(passed as u128);
    let t = decimal_string(total as u128);
    let ms = decimal_string(duration_ms);
    let a = cat3(p.as_str(), "/", t.as_str());
    let b = cat3(a.as_str(), " pass  rate=", rate_text);
    let c = cat3(b.as_str(), "  t=", ms.as_str());
    let detail = cat(c.as_str(), "ms");
    assert(detail@ =~= num(passed as nat) + "/"@ + num(total as nat) + " pass  rate="@ + rate_text@
        + "  t="@ + num(duration_ms as nat) + "ms"@);
    let failed = str_eq(verdict, "fail");
    SuiteStep {
        step_type: "eval".to_owned(),
        name: eval_name.to_owned(),
        status: verdict.to_owned(),
        config: owned_opt(config_path),
        output: owned_opt(output),
        detail: Some(detail),
        runtime_detail: Some(runtime_detail(runner)),
        duration_ms: Some(duration_ms),
        exit_code: Some(
            if failed {
                1
            } else {
                0
            },
        ),
        reason: None,
    }
}

// ---------------------------------------------------------------------------
// The verdict of a suite run
// ---------------------------------------------------------------------------
/// How many steps have the status `status`.
pub open spec fn count_status(steps: Seq<StepModel>, status: Seq<char>) -> nat
    decreases steps.len(),
{
    if steps.len() == 0 {
        0
    } else {
        count_status(steps.drop_last(), status) + if steps.last().status == status {
            1nat
        } else {
            0nat
        }
    }
}

/// A suite fails if any step failed; with no failure it is skipped if no
/// step passed, and passes otherwise.
pub open spec fn suite_verdict(steps: Seq<StepModel>) -> Seq<char> {
    if count_status(steps, "fail"@) > 0 {
        "fail"@
    } else if count_status(steps, "pass"@) == 0 {
        "skipped"@
    } else {
        "pass"@
    }
}

/// The summary of a suite run of `steps` that took `duration_ms`.
pub open spec fn suite_summary_ok(s: SuiteSummary, steps: Seq<StepModel>, duration_ms: u128) -> bool {
    &&& s.verdict@ == suite_verdict(steps)
    &&& s.steps_total == steps.len()
    &&& s.steps_passed == count_status(steps, "pass"@)
    &&& s.steps_failed == count_status(steps, "fail"@)
    &&& s.steps_skipped == count_status(steps, "skipped"@)
    &&& s.duration_ms == duration_ms
}

proof fn lemma_count_status_bound(steps: Seq<StepModel>, status: Seq<char>)
    ensures
        count_status(steps, status) <= steps.len(),
    decreases steps.len(),
{
    if steps.len() > 0 {
        lemma_count_status_bound(steps.drop_last(), status);
    }
}

fn count_steps(steps: &Vec<SuiteStep>, status: &str) -> (r: usize)
    ensures
        r == count_status(steps_view(steps@), status@),
{
    let ghost views = steps_view(steps@);
    let mut n: usize = 0;
    let mut i: usize = 0;
    while i < steps.len()
        invariant
            i <= steps@.len(),
            views == steps_view(steps@),
            n == count_status(views.take(i as int), status@),
            n <= i,
        decreases steps.len() - i,
    {
        assert(views.take(i + 1).drop_last() =~= views.take(i as int));
        assert(views.take(i + 1).last() == steps@[i as int]@);
        if str_eq(steps[i].status.as_str(), status) {
            n += 1;
        }
        i += 1;
    }
    assert(views.take(steps@.len() as int) =~= views);
    n
}

/// Counts the steps of a suite run by status and gives its verdict.
pub fn summarize_suite(steps: &Vec<SuiteStep>, duration_ms: u128) -> (r: SuiteSummary)
    ensures
        suite_summary_ok(r, steps_view(steps@), duration_ms),
{
    let passed = count_steps(steps, "pass");
    let failed = count_steps(steps, "fail");
    let skipped = count_steps(steps, "skipped");
    let verdict = if failed > 0 {
        "fail".to_owned()
    } else if passed == 0 {
        "skipped".to_owned()
    } else {
        "pass".to_owned()
    };
    SuiteSummary {
        verdict,
        steps_total: steps.len(),
        steps_passed: passed,
        steps_failed: failed,
        steps_skipped: skipped,
        duration_ms,
    }
}

/// The summary of a suite run for a skill that has no suite directory: it
/// fails, with no steps.
pub fn missing_skill_summary(duration_ms: u128) -> (r: SuiteSummary)
    ensures
        r.verdict@ == "fail"@,
        r.steps_total == 0,
        r.steps_passed == 0,
        r.steps_failed == 1,
        r.steps_skipped == 0,
        r.duration_ms == duration_ms,
{
    SuiteSummary {
        verdict: "fail".to_owned(),
        steps_total: 0,
        steps_passed: 0,
        steps_failed: 1,
        steps_skipped: 0,
        duration_ms,
    }
}


// ---------------------------------------------------------------------------
// A suite run, step by step
// ---------------------------------------------------------------------------
/// Where a suite run stands.
#[derive(Debug)]
pub enum SuiteStage {
    /// Checking the schema of each eval config in turn.
    Schema,
    /// Looking for a config with gate requirements; the first `checked`
    /// configs were read.
    GateSearch { checked: usize },
    /// Waiting to hear whether config `index` has gate requirements.
    GateCandidate { index: usize },
    /// Waiting to hear whether the legacy requirements file `path` exists.
    GateLegacy { path: String },
    /// Linting gate requirements of `config`.
    Gate { config: String },
    /// Running the evals, from config `next` on.
    Evals { next: usize },
    /// Nothing is left to do.
    Done,
}

/// What a suite run needs done next outside the library.
#[derive(Debug)]
pub enum SuiteAction {
    /// Load and schema-check config `index`, write its report to `output`,
    /// and report with [`SuiteRun::schema_checked`].
    CheckSchema { index: usize, output: String },
    /// Read config `index` against `root`, and report with
    /// [`SuiteRun::gate_candidate_read`] whether it has gate requirements.
    ReadGateCandidate { index: usize, root: String },
    /// See whether `path` exists, and report with
    /// [`SuiteRun::legacy_gate_checked`].
    CheckLegacyGate { path: String },
    /// Lint the requirements of `config`, write the report to `output`, and
    /// report with [`SuiteRun::gate_linted`].
    LintGate { config: String, output: String },
    /// Run the eval of config `index` and report with [`SuiteRun::eval_ran`].
    RunEval { index: usize },
    /// The run is complete.
    Finish,
}

/// The value of a [`SuiteStage`].
pub enum StageModel {
    Schema,
    GateSearch(nat),
    GateCandidate(nat),
    GateLegacy(Seq<char>),
    Gate(Seq<char>),
    Evals(nat),
    Done,
}

/// The value of a [`SuiteAction`].
pub enum ActionModel {
    CheckSchema(nat, Seq<char>),
    ReadGateCandidate(nat, Seq<char>),
    CheckLegacyGate(Seq<char>),
    LintGate(Seq<char>, Seq<char>),
    RunEval(nat),
    Finish,
}

impl View for SuiteStage {
    type V = StageModel;

    open spec fn view(&self) -> StageModel {
        match self {
            SuiteStage::Schema => StageModel::Schema,
            SuiteStage::GateSearch { checked } => StageModel::GateSearch(*checked as nat),
            SuiteStage::GateCandidate { index } => StageModel::GateCandidate(*index as nat),
            SuiteStage::GateLegacy { path } => StageModel::GateLegacy(path@),
            SuiteStage::Gate { config } => StageModel::Gate(config@),
            SuiteStage::Evals { next } => StageModel::Evals(*next as nat),
            SuiteStage::Done => StageModel::Done,
        }
    }
}

impl View for SuiteAction {
    type V = ActionModel;

    open spec fn view(&self) -> ActionModel {
        match self {
            SuiteAction::CheckSchema { index, output } => ActionModel::CheckSchema(
                *index as nat,
                output@,
            ),
            SuiteAction::ReadGateCandidate { index, root } => ActionModel::ReadGateCandidate(
                *index as nat,
                root@,
            ),
            SuiteAction::CheckLegacyGate { path } => ActionModel::CheckLegacyGate(path@),
            SuiteAction::LintGate { config, output } => ActionModel::LintGate(config@, output@),
            SuiteAction::RunEval { index } => ActionModel::RunEval(*index as nat),
            SuiteAction::Finish => ActionModel::Finish,
        }
    }
}

/// The suite run of one skill: its eval configs, what their schema checks
/// found, the steps so far, and where it stands.
#[derive(Debug)]
pub struct SuiteRun {
    skill_dir: String,
    out_dir: String,
    eval_configs: Vec<String>,
    validity: Vec<(String, bool)>,
    steps: Vec<SuiteStep>,
    stage: SuiteStage,
}

/// The value of a [`SuiteRun`].
pub struct RunModel {
    pub skill_dir: Seq<char>,
    pub out_dir: Seq<char>,
    pub configs: Seq<Seq<char>>,
    pub validity: Seq<(String, bool)>,
    pub steps: Seq<StepModel>,
    pub stage: StageModel,
}

impl View for SuiteRun {
    type V = RunModel;

    closed spec fn view(&self) -> RunModel {
        RunModel {
            skill_dir: self.skill_dir@,
            out_dir: self.out_dir@,
            configs: self.eval_configs.deep_view(),
            validity: self.validity@,
            steps: steps_view(self.steps@),
            stage: self.stage@,
        }
    }
}

/// Whether config `i` of a run passed its schema check.
pub open spec fn valid_at(m: RunModel, i: int) -> bool {
    spec_schema_valid(m.validity, m.configs[i])
}

/// The first config from `i` on that passed its schema check (the number of
/// configs when none did).
pub open spec fn first_valid_from(m: RunModel, i: nat) -> nat
    decreases m.configs.len() - i,
{
    if i >= m.configs.len() {
        m.configs.len()
    } else if valid_at(m, i as int) {
        i
    } else {
        first_valid_from(m, i + 1)
    }
}

/// The skipped eval steps of configs `i` up to `j`.
pub open spec fn skipped_evals(configs: Seq<Seq<char>>, i: nat, j: nat) -> Seq<StepModel>
    decreases j - i,
{
    if i >= j {
        seq![]
    } else {
        seq![
            skipped_model(
                "eval"@,
                spec_fallback_eval_output_name(configs[i as int]),
                Some(configs[i as int]),
                "schema validation failed"@,
            ),
        ] + skipped_evals(configs, i + 1, j)
    }
}

/// The run `m` in stage `stage`.
pub open spec fn with_stage(m: RunModel, stage: StageModel) -> RunModel {
    RunModel { stage, ..m }
}

/// The search for a config with gate requirements, resumed after `checked`
/// configs.
pub open spec fn gate_search(m: RunModel, checked: nat) -> (RunModel, ActionModel) {
    let j = first_valid_from(m, checked);
    if j < m.configs.len() {
        (
            with_stage(m, StageModel::GateCandidate(j)),
            ActionModel::ReadGateCandidate(j, spec_gate_config_root(m.skill_dir)),
        )
    } else {
        let path = path_join(m.skill_dir, "gate_requirements.json"@);
        (with_stage(m, StageModel::GateLegacy(path)), ActionModel::CheckLegacyGate(path))
    }
}

/// What a run does next, and the run after deciding it: schema checks
/// first, one config at a time; then the search for a config with gate
/// requirements among
/// the configs that passed, falling back to the legacy requirements file;
/// a gate lint; and the evals of the configs that passed, the others
/// being recorded as skipped (or one skipped step when there are no
/// configs).
pub open spec fn spec_next(m: RunModel) -> (RunModel, ActionModel) {
    match m.stage {
        StageModel::Schema => if m.validity.len() < m.configs.len() {
            let k = m.validity.len();
            (m, ActionModel::CheckSchema(k, spec_schema_output(m.out_dir, m.configs[k as int])))
        } else {
            gate_search(m, 0)
        },
        StageModel::GateSearch(checked) => gate_search(m, checked),
        StageModel::GateCandidate(index) => (
            m,
            ActionModel::ReadGateCandidate(index, spec_gate_config_root(m.skill_dir)),
        ),
        StageModel::GateLegacy(path) => (m, ActionModel::CheckLegacyGate(path)),
        StageModel::Gate(config) => (
            m,
            ActionModel::LintGate(config, path_join(m.out_dir, "gate-lint.json"@)),
        ),
        StageModel::Evals(next) => if m.configs.len() == 0 {
            (
                RunModel {
                    steps: m.steps.push(
                        skipped_model("eval"@, "evals"@, None, "no eval config"@),
                    ),
                    stage: StageModel::Done,
                    ..m
                },
                ActionModel::Finish,
            )
        } else {
            let j = first_valid_from(m, next);
            let steps = m.steps + skipped_evals(m.configs, next, j);
            if j < m.configs.len() {
                (RunModel { steps, stage: StageModel::Evals(j), ..m }, ActionModel::RunEval(j))
            } else {
                (RunModel { steps, stage: StageModel::Done, ..m }, ActionModel::Finish)
            }
        },
        StageModel::Done => (m, ActionModel::Finish),
    }
}

proof fn lemma_first_valid_is(m: RunModel, i: nat, j: nat)
    requires
        i <= j <= m.configs.len(),
        j < m.configs.len() ==> valid_at(m, j as int),
        forall|k: int| i <= k < j ==> !valid_at(m, k),
    ensures
        first_valid_from(m, i) == j,
    decreases j - i,
{
    if i < j {
        lemma_first_valid_is(m, i + 1, j);
    }
}

proof fn lemma_skipped_evals_push(configs: Seq<Seq<char>>, i: nat, j: nat)
    requires
        i <= j,
    ensures
        skipped_evals(configs, i, j + 1) == skipped_evals(configs, i, j).push(
            skipped_model(
                "eval"@,
                spec_fallback_eval_output_name(configs[j as int]),
                Some(configs[j as int]),
                "schema validation failed"@,
            ),
        ),
    decreases j - i,
{
    if i < j {
        lemma_skipped_evals_push(configs, i + 1, j);
        assert(skipped_evals(configs, i, j + 1) =~= skipped_evals(configs, i, j).push(
            skipped_model(
                "eval"@,
                spec_fallback_eval_output_name(configs[j as int]),
                Some(configs[j as int]),
                "schema validation failed"@,
            ),
        ));
    } else {
        assert(skipped_evals(configs, j + 1, j + 1) =~= seq![]);
        assert(skipped_evals(configs, j, j) =~= seq![]);
    }
}

impl SuiteRun {
    /// The run is consistent: the schema records follow the configs in
    /// order, and the stage points inside the configs.
    pub closed spec fn wf(&self) -> bool {
        let m = self@;
        &&& m.validity.len() <= m.configs.len()
        &&& forall|i: int| 0 <= i < m.validity.len() ==> #[trigger] m.validity[i].0@ == m.configs[i]
        &&& !(m.stage is Schema) ==> m.validity.len() == m.configs.len()
        &&& match m.stage {
            StageModel::GateSearch(c) => c <= m.configs.len(),
            StageModel::GateCandidate(i) => i < m.configs.len(),
            StageModel::Evals(n) => n <= m.configs.len(),
            _ => true,
        }
    }

    /// Starts the suite run of the skill whose suite directory is
    /// `skill_dir`, over its `eval_configs`, writing reports to `out_dir`.
    pub fn new(skill_dir: &str, out_dir: &str, eval_configs: Vec<String>) -> (r: Self)
        ensures
            r.wf(),
            r@ == (RunModel {
                skill_dir: skill_dir@,
                out_dir: out_dir@,
                configs: eval_configs.deep_view(),
                validity: seq![],
                steps: seq![],
                stage: StageModel::Schema,
            }),
    {
        let r = SuiteRun {
            skill_dir: skill_dir.to_owned(),
            out_dir: out_dir.to_owned(),
            eval_configs,
            validity: Vec::new(),
            steps: Vec::new(),
            stage: SuiteStage::Schema,
        };
        assert(r@.steps =~= seq![]);
        r
    }

    /// The eval configs of the run.
    pub fn eval_configs(&self) -> (r: &Vec<String>)
        ensures
            r.deep_view() == self@.configs,
    {
        &self.eval_configs
    }

    /// The steps so far.
    pub fn steps(&self) -> (r: &Vec<SuiteStep>)
        ensures
            steps_view(r@) == self@.steps,
    {
        &self.steps
    }

    fn search_gate(&mut self, checked: usize) -> (r: SuiteAction)
        requires
            old(self).wf(),
            checked <= old(self)@.configs.len(),
            old(self)@.validity.len() == old(self)@.configs.len(),
        ensures
            final(self).wf(),
            (final(self)@, r@) == gate_search(old(self)@, checked as nat),
    {
        let ghost m = self@;
        match find_gate_config(&self.eval_configs, &self.validity, self.skill_dir.as_str(), checked) {
            GateSearch::Load { index, root } => {
                proof {
                    assert(self.eval_configs@[index as int]@ == m.configs[index as int]);
                    assert forall|k: int| checked <= k < index implies !valid_at(m, k) by {
                        assert(self.eval_configs@[k]@ == m.configs[k]);
                    }
                    lemma_first_valid_is(m, checked as nat, index as nat);
                }
                self.stage = SuiteStage::GateCandidate { index };
                SuiteAction::ReadGateCandidate { index, root }
            },
            GateSearch::Legacy { path } => {
                proof {
                    assert forall|k: int| checked <= k < m.configs.len() implies !valid_at(m, k) by {
                        assert(self.eval_configs@[k]@ == m.configs[k]);
                    }
                    lemma_first_valid_is(m, checked as nat, m.configs.len());
                }
                self.stage = SuiteStage::GateLegacy { path: path.clone() };
                SuiteAction::CheckLegacyGate { path }
            },
        }
    }

    /// Decides what the run does next.
    pub fn next_action(&mut self) -> (r: SuiteAction)
        requires
            old(self).wf(),
        ensures
            final(self).wf(),
            (final(self)@, r@) == spec_next(old(self)@),
    {
        let ghost m = self@;
        match &self.stage {
            SuiteStage::Schema => {
                if self.validity.len() < self.eval_configs.len() {
                    let k = self.validity.len();
                    let output = schema_output_path(
                        self.out_dir.as_str(),
                        self.eval_configs[k].as_str(),
                    );
                    SuiteAction::CheckSchema { index: k, output }
                } else {
                    self.search_gate(0)
                }
            },
            SuiteStage::GateSearch { checked } => {
                let c = *checked;
                self.search_gate(c)
            },
            SuiteStage::GateCandidate { index } => {
                SuiteAction::ReadGateCandidate {
                    index: *index,
                    root: gate_config_root(self.skill_dir.as_str()),
                }
            },
            SuiteStage::GateLegacy { path } => SuiteAction::CheckLegacyGate { path: path.clone() },
            SuiteStage::Gate { config } => {
                SuiteAction::LintGate {
                    config: config.clone(),
                    output: gate_output_path(self.out_dir.as_str()),
                }
            },
            SuiteStage::Evals { next } => {
                let start = *next;
                if self.eval_configs.len() == 0 {
                    let ghost before = steps_view(self.steps@);
                    let step = no_evals_step();
                    self.steps.push(step);
                    assert(steps_view(self.steps@) =~= before.push(step@));
                    self.stage = SuiteStage::Done;
                    return SuiteAction::Finish;
                }
                let mut j: usize = start;
                while j < self.eval_configs.len() && !is_schema_valid(
                    &self.validity,
                    self.eval_configs[j].as_str(),
                )
                    invariant
                        start <= j <= self.eval_configs@.len(),
                        self.eval_configs.deep_view() == m.configs,
                        self.validity@ == m.validity,
                        self.skill_dir@ == m.skill_dir,
                        self.out_dir@ == m.out_dir,
                        self.stage@ == m.stage,
                        m.stage == StageModel::Evals(start as nat),
                        forall|k: int| start <= k < j ==> !valid_at(m, k),
                        steps_view(self.steps@) == m.steps + skipped_evals(
                            m.configs,
                            start as nat,
                            j as nat,
                        ),
                    decreases self.eval_configs.len() - j,
                {
                    let ghost before = steps_view(self.steps@);
                    assert(self.eval_configs@[j as int]@ == m.configs[j as int]);
                    let step = eval_skipped_step(self.eval_configs[j].as_str());
                    self.steps.push(step);
                    proof {
                        lemma_skipped_evals_push(m.configs, start as nat, j as nat);
                        assert(steps_view(self.steps@) =~= before.push(step@));
                    }
                    j += 1;
                }
                proof {
                    if j < self.eval_configs@.len() {
                        assert(self.eval_configs@[j as int]@ == m.configs[j as int]);
                    }
                    lemma_first_valid_is(m, start as nat, j as nat);
                }
                if j < self.eval_configs.len() {
                    self.stage = SuiteStage::Evals { next: j };
                    SuiteAction::RunEval { index: j }
                } else {
                    self.stage = SuiteStage::Done;
                    SuiteAction::Finish
                }
            },
            SuiteStage::Done => SuiteAction::Finish,
        }
    }

    /// Records the schema check of the config asked for: it found
    /// `error_count` errors in `duration_ms`. Outside the schema stage it
    /// changes nothing.
    pub fn schema_checked(&mut self, error_count: usize, duration_ms: u128)
        requires
            old(self).wf(),
        ensures
            final(self).wf(),
            ({
                let m = old(self)@;
                let k = m.validity.len();
                (m.stage is Schema && k < m.configs.len()) ==> final(self)@.validity[k as int].0@
                    == m.configs[k as int]
            }),
            ({
                let m = old(self)@;
                let k = m.validity.len();
                final(self)@ == if m.stage is Schema && k < m.configs.len() {
                    RunModel {
                        validity: m.validity.push(
                            (final(self)@.validity[k as int].0, error_count == 0),
                        ),
                        steps: m.steps.push(
                            schema_step_model(
                                m.configs[k as int],
                                spec_schema_output(m.out_dir, m.configs[k as int]),
                                error_count as nat,
                                duration_ms,
                            ),
                        ),
                        ..m
                    }
                } else {
                    m
                }
            }),
    {
        let ghost m = self@;
        if let SuiteStage::Schema = self.stage {
            if self.validity.len() < self.eval_configs.len() {
                let k = self.validity.len();
                let config = self.eval_configs[k].as_str();
                let output = schema_output_path(self.out_dir.as_str(), config);
                let step = schema_step(config, output.as_str(), error_count, duration_ms);
                let ghost before = steps_view(self.steps@);
                let entry = (config.to_owned(), error_count == 0);
                self.validity.push(entry);
                self.steps.push(step);
                assert(steps_view(self.steps@) =~= before.push(step@));
                assert(self.eval_configs@[k as int]@ == m.configs[k as int]);
            }
        }
    }

    /// Records whether the config asked for has gate requirements. Outside
    /// that wait it changes nothing.
    pub fn gate_candidate_read(&mut self, has_gate_requirements: bool)
        requires
            old(self).wf(),
        ensures
            final(self).wf(),
            final(self)@ == match old(self)@.stage {
                StageModel::GateCandidate(index) => if has_gate_requirements {
                    with_stage(old(self)@, StageModel::Gate(old(self)@.configs[index as int]))
                } else {
                    with_stage(old(self)@, StageModel::GateSearch(index + 1))
                },
                _ => old(self)@,
            },
    {
        if let SuiteStage::GateCandidate { index } = &self.stage {
            let i = *index;
            let n = self.eval_configs.len();
            assert(self@.stage == StageModel::GateCandidate(i as nat));
            assert(i < n);
            if has_gate_requirements {
                let config = self.eval_configs[i].clone();
                self.stage = SuiteStage::Gate { config };
            } else {
                self.stage = SuiteStage::GateSearch { checked: i + 1 };
            }
        }
    }

    /// Records whether the legacy requirements file exists; without it the
    /// gate step is skipped. Outside that wait it changes nothing.
    pub fn legacy_gate_checked(&mut self, exists: bool)
        requires
            old(self).wf(),
        ensures
            final(self).wf(),
            final(self)@ == match old(self)@.stage {
                StageModel::GateLegacy(path) => if exists {
                    with_stage(old(self)@, StageModel::Gate(path))
                } else {
                    RunModel {
                        steps: old(self)@.steps.push(
                            skipped_model(
                                "gate_lint"@,
                                "gate-lint"@,
                                None,
                                "missing valid embedded or legacy gate requirements"@,
                            ),
                        ),
                        stage: StageModel::Evals(0),
                        ..old(self)@
                    }
                },
                _ => old(self)@,
            },
    {
        if let SuiteStage::GateLegacy { path } = &self.stage {
            if exists {
                let config = path.clone();
                self.stage = SuiteStage::Gate { config };
            } else {
                let ghost before = steps_view(self.steps@);
                let step = gate_skipped_step();
                self.steps.push(step);
                assert(steps_view(self.steps@) =~= before.push(step@));
                self.stage = SuiteStage::Evals { next: 0 };
            }
        }
    }

    /// Records a gate lint asked for, summarised by `summary`, which took
    /// `duration_ms`. Outside that stage it changes nothing.
    pub fn gate_linted(&mut self, summary: &ReportSummary, duration_ms: u128)
        requires
            old(self).wf(),
        ensures
            final(self).wf(),
            final(self)@ == match old(self)@.stage {
                StageModel::Gate(config) => RunModel {
                    steps: old(self)@.steps.push(
                        gate_step_model(
                            config,
                            path_join(old(self)@.out_dir, "gate-lint.json"@),
                            *summary,
                            duration_ms,
                        ),
                    ),
                    stage: StageModel::Evals(0),
                    ..old(self)@
                },
                _ => old(self)@,
            },
    {
        if let SuiteStage::Gate { config } = &self.stage {
            let output = gate_output_path(self.out_dir.as_str());
            let step = gate_step(config.as_str(), output.as_str(), summary, duration_ms);
            let ghost before = steps_view(self.steps@);
            self.steps.push(step);
            assert(steps_view(self.steps@) =~= before.push(step@));
            self.stage = SuiteStage::Evals { next: 0 };
        }
    }

    /// Records the eval run asked for: named `eval_name`, its report written
    /// to `output`, with `verdict`, `passed` of `total` cases, the pass rate
    /// as `rate_text`, how it ran and how long it took. Outside the eval
    /// stage it changes nothing.
    pub fn eval_ran(
        &mut self,
        eval_name: &str,
        output: &str,
        verdict: &str,
        passed: usize,
        total: usize,
        rate_text: &str,
        runner: &EvalRunnerReport,
        duration_ms: u128,
    )
        requires
            old(self).wf(),
        ensures
            final(self).wf(),
            final(self)@ == match old(self)@.stage {
                StageModel::Evals(next) => if next < old(self)@.configs.len() {
                    RunModel {
                        steps: old(self)@.steps.push(
                            eval_step_model(
                                eval_name@,
                                old(self)@.configs[next as int],
                                output@,
                                verdict@,
                                passed as nat,
                                total as nat,
                                rate_text@,
                                *runner,
                                duration_ms,
                            ),
                        ),
                        stage: StageModel::Evals(next + 1),
                        ..old(self)@
                    }
                } else {
                    old(self)@
                },
                _ => old(self)@,
            },
    {
        if let SuiteStage::Evals { next } = &self.stage {
            let i = *next;
            if i < self.eval_configs.len() {
                let step = eval_step(
                    eval_name,
                    self.eval_configs[i].as_str(),
                    output,
                    verdict,
                    passed,
                    total,
                    rate_text,
                    runner,
                    duration_ms,
                );
                let ghost before = steps_view(self.steps@);
                self.steps.push(step);
                assert(steps_view(self.steps@) =~= before.push(step@));
                self.stage = SuiteStage::Evals { next: i + 1 };
            }
        }
    }

    /// The steps of the run and its summary, given how long it took.
    pub fn finish(self, duration_ms: u128) -> (r: (Vec<SuiteStep>, SuiteSummary))
        ensures
            steps_view(r.0@) == self@.steps,
            suite_summary_ok(r.1, self@.steps, duration_ms),
    {
        let summary = summarize_suite(&self.steps, duration_ms);
        (self.steps, summary)
    }
}


/// The first config from `i` on that passed its schema check did pass it.
proof fn lemma_first_valid_valid(m: RunModel, i: nat)
    ensures
        i <= first_valid_from(m, i) <= m.configs.len() || (i > m.configs.len() && first_valid_from(
            m,
            i,
        ) == m.configs.len()),
        first_valid_from(m, i) < m.configs.len() ==> valid_at(m, first_valid_from(m, i) as int),
    decreases m.configs.len() - i,
{
    if i < m.configs.len() && !valid_at(m, i as int) {
        lemma_first_valid_valid(m, i + 1);
    }
}

/// A suite run only runs the evals of configs that passed their schema
/// check, and only reads configs that passed it when looking for gate
/// requirements.
pub proof fn law_only_valid_configs_run(m: RunModel)
    ensures
        spec_next(m).1 matches ActionModel::RunEval(j) ==> valid_at(m, j as int),
        spec_next(m).1 matches ActionModel::ReadGateCandidate(j, _) ==> (m.stage is GateCandidate
            || valid_at(m, j as int)),
{
    match m.stage {
        StageModel::Schema => lemma_first_valid_valid(m, 0),
        StageModel::GateSearch(c) => lemma_first_valid_valid(m, c),
        StageModel::Evals(n) => lemma_first_valid_valid(m, n),
        _ => {},
    }
}

/// A suite passes exactly when no step failed and at least one passed; it
/// is skipped when no step failed and none passed.
pub proof fn law_suite_verdict(steps: Seq<StepModel>)
    ensures
        suite_verdict(steps) == "pass"@ <==> (count_status(steps, "fail"@) == 0 && count_status(
            steps,
            "pass"@,
        ) > 0),
        suite_verdict(steps) == "skipped"@ <==> (count_status(steps, "fail"@) == 0
            && count_status(steps, "pass"@) == 0),
        suite_verdict(steps) == "fail"@ <==> count_status(steps, "fail"@) > 0,
{
    reveal_strlit("pass");
    reveal_strlit("fail");
    reveal_strlit("skipped");
    assert("pass"@[0] != "fail"@[0]);
    assert("pass"@.len() != "skipped"@.len());
    assert("fail"@.len() != "skipped"@.len());
}


proof fn lemma_first_valid_skips(m: RunModel, i: nat)
    ensures
        forall|k: int| i <= k < first_valid_from(m, i) ==> !valid_at(m, k),
        i <= m.configs.len() ==> i <= first_valid_from(m, i) <= m.configs.len(),
    decreases m.configs.len() - i,
{
    if i < m.configs.len() && !valid_at(m, i as int) {
        lemma_first_valid_skips(m, i + 1);
    }
}

proof fn lemma_skipped_evals_at(configs: Seq<Seq<char>>, i: nat, j: nat, t: int)
    requires
        i <= j,
        0 <= t < j - i,
    ensures
        skipped_evals(configs, i, j).len() == j - i,
        skipped_evals(configs, i, j)[t] == skipped_model(
            "eval"@,
            spec_fallback_eval_output_name(configs[i + t]),
            Some(configs[i + t]),
            "schema validation failed"@,
        ),
    decreases j - i,
{
    if t > 0 {
        lemma_skipped_evals_at(configs, i + 1, j, t - 1);
    }
    if i + 1 <= j {
        lemma_skipped_evals_len(configs, i + 1, j);
    }
}

proof fn lemma_skipped_evals_len(configs: Seq<Seq<char>>, i: nat, j: nat)
    requires
        i <= j,
    ensures
        skipped_evals(configs, i, j).len() == j - i,
    decreases j - i,
{
    if i < j {
        lemma_skipped_evals_len(configs, i + 1, j);
    }
}

/// In the eval stage, from any position `n` on: the next config that passed
/// its schema check is the one run next, and the run finishes only when no
/// config from `n` on passed it; every step recorded on the way is a
/// skipped eval of a config that failed its schema check, in order, and the
/// earlier steps stay as they were.
pub proof fn law_evals_run_every_valid_config(m: RunModel, n: nat)
    requires
        m.stage == StageModel::Evals(n),
        n <= m.configs.len(),
        m.configs.len() > 0,
    ensures
        forall|j: int|
            n <= j < m.configs.len() && valid_at(m, j) && (forall|k: int|
                n <= k < j ==> !valid_at(m, k)) ==> spec_next(m).1 == ActionModel::RunEval(
                j as nat,
            ),
        (forall|k: int| n <= k < m.configs.len() ==> !valid_at(m, k)) ==> spec_next(m).1
            == ActionModel::Finish,
        spec_next(m).0.steps.len() >= m.steps.len(),
        spec_next(m).0.steps.take(m.steps.len() as int) == m.steps,
        forall|i: int|
            m.steps.len() <= i < spec_next(m).0.steps.len() ==> {
                let k = n + i - m.steps.len();
                &&& n <= k < m.configs.len()
                &&& !valid_at(m, k)
                &&& (#[trigger] spec_next(m).0.steps[i]).status == "skipped"@
                &&& spec_next(m).0.steps[i].step_type == "eval"@
                &&& spec_next(m).0.steps[i].config == Some(m.configs[k])
                &&& spec_next(m).0.steps[i].reason == Some("schema validation failed"@)
            },
{
    lemma_first_valid_skips(m, n);
    lemma_first_valid_valid(m, n);
    let f = first_valid_from(m, n);
    lemma_skipped_evals_len(m.configs, n, f);
    assert forall|j: int|
        n <= j < m.configs.len() && valid_at(m, j) && (forall|k: int|
            n <= k < j ==> !valid_at(m, k)) implies spec_next(m).1 == ActionModel::RunEval(
        j as nat,
    ) by {
        lemma_first_valid_is(m, n, j as nat);
    }
    if forall|k: int| n <= k < m.configs.len() ==> !valid_at(m, k) {
        lemma_first_valid_is(m, n, m.configs.len());
    }
    let added = skipped_evals(m.configs, n, f);
    let st = m.steps + added;
    assert(st.take(m.steps.len() as int) =~= m.steps);
    assert forall|i: int| m.steps.len() <= i < st.len() implies {
        let k = n + i - m.steps.len();
        &&& n <= k < m.configs.len()
        &&& !valid_at(m, k)
        &&& (#[trigger] st[i]).status == "skipped"@
        &&& st[i].step_type == "eval"@
        &&& st[i].config == Some(m.configs[k])
        &&& st[i].reason == Some("schema validation failed"@)
    } by {
        lemma_skipped_evals_at(m.configs, n, f, i - m.steps.len());
    }
}

} // verus!
