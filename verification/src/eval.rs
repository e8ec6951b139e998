//! Running an eval's cases and grading their responses: how many cases run
//! at once, which failed cases are run again one at a time, and how each
//! response is checked against its markers.
use vstd::prelude::*;

use crate::config::{CaseModel, PromptCase, RunnerConfig, SettingsModel};
use crate::runtime::{
    is_retryable_codex_error, spec_is_retryable, ExecMetadata, MetaModel, RetryMetadata, RetryModel,
    PARALLEL_START_STAGGER_MS,
};
use crate::text::{contains, contains_str, is_blank, is_blank_str, lower, to_lower};

verus! {

/// The graded result of one case.
#[derive(Debug)]
pub struct EvalResultRow {
    pub id: String,
    pub prompt: String,
    pub pass: bool,
    pub found_response: bool,
    pub missing_required_markers: Vec<String>,
    pub forbidden_markers_present: Vec<String>,
    pub response: String,
    pub codex_exec: ExecMetadata,
}

/// How an eval was run.
#[derive(Debug)]
pub struct EvalRunnerReport {
    pub mode: String,
    pub global_config_path: Option<String>,
    pub max_concurrency: usize,
    pub effective_concurrency: usize,
    pub serial_retry_count: usize,
    pub codex_timeout_seconds: u64,
    pub codex_sandbox: String,
    pub codex_model: Option<String>,
    pub codex_reasoning_effort: Option<String>,
    pub codex_extra_args: Vec<String>,
    pub codex_isolation: bool,
    pub codex_home_base_dir: String,
    pub codex_home: Option<String>,
}

/// The value of an [`EvalResultRow`].
pub struct ResultModel {
    pub id: Seq<char>,
    pub prompt: Seq<char>,
    pub pass: bool,
    pub found_response: bool,
    pub missing_required_markers: Seq<Seq<char>>,
    pub forbidden_markers_present: Seq<Seq<char>>,
    pub response: Seq<char>,
    pub codex_exec: MetaModel,
}

impl View for EvalResultRow {
    type V = ResultModel;

    open spec fn view(&self) -> ResultModel {
        ResultModel {
            id: self.id@,
            prompt: self.prompt@,
            pass: self.pass,
            found_response: self.found_response,
            missing_required_markers: self.missing_required_markers.deep_view(),
            forbidden_markers_present: self.forbidden_markers_present.deep_view(),
            response: self.response@,
            codex_exec: self.codex_exec@,
        }
    }
}

/// The values of a list of results.
pub open spec fn results_view(rows: Seq<EvalResultRow>) -> Seq<ResultModel> {
    rows.map_values(|r: EvalResultRow| r@)
}

/// The values of a list of cases.
pub open spec fn cases_view(cases: Seq<PromptCase>) -> Seq<CaseModel> {
    cases.map_values(|c: PromptCase| c@)
}

// ---------------------------------------------------------------------------
// Concurrency
// ---------------------------------------------------------------------------
/// How many cases run at once: the configured maximum, at least one, and no
/// more than there are cases (when there are any).
pub open spec fn spec_effective_concurrency(max_concurrency: nat, case_count: nat) -> nat {
    let m = if max_concurrency < 1 {
        1
    } else {
        max_concurrency
    };
    let c = if case_count < 1 {
        1
    } else {
        case_count
    };
    if m < c {
        m
    } else {
        c
    }
}

/// At least one case runs at a time, never more than configured, and never
/// more than there are cases (when there are any).
pub proof fn law_effective_concurrency(max_concurrency: nat, case_count: nat)
    ensures
        1 <= spec_effective_concurrency(max_concurrency, case_count),
        max_concurrency >= 1 ==> spec_effective_concurrency(max_concurrency, case_count)
            <= max_concurrency,
        case_count >= 1 ==> spec_effective_concurrency(max_concurrency, case_count) <= case_count,
{
}

/// How many of `case_count` cases run at once under `max_concurrency`.
pub fn effective_concurrency(max_concurrency: usize, case_count: usize) -> (r: usize)
    ensures
        r == spec_effective_concurrency(max_concurrency as nat, case_count as nat),
{
    let m = if max_concurrency < 1 {
        1
    } else {
        max_concurrency
    };
    let c = if case_count < 1 {
        1
    } else {
        case_count
    };
    if m < c {
        m
    } else {
        c
    }
}

/// How long the case at `index` waits before it starts, when cases run in
/// parallel: starts are staggered by a fixed step.
pub fn start_delay_ms(index: usize) -> (r: u64)
    requires
        index * PARALLEL_START_STAGGER_MS <= u64::MAX,
    ensures
        r == index * PARALLEL_START_STAGGER_MS,
{
    PARALLEL_START_STAGGER_MS * (index as u64)
}

// ---------------------------------------------------------------------------
// Outcomes of runs, by case id
// ---------------------------------------------------------------------------
/// The response and metadata of the latest run of a case.
#[derive(Debug)]
pub struct CaseOutcome {
    pub id: String,
    pub response: String,
    pub metadata: ExecMetadata,
}

/// The value of a run's outcome.
pub struct OutcomeModel {
    pub response: Seq<char>,
    pub metadata: MetaModel,
}

/// The outcome of the latest run of each case id. A later run of the same
/// id replaces the earlier one.
#[derive(Debug)]
pub struct CaseOutcomes {
    entries: Vec<CaseOutcome>,
}

/// The value of an entry.
pub open spec fn outcome_of(e: CaseOutcome) -> OutcomeModel {
    OutcomeModel { response: e.response@, metadata: e.metadata@ }
}

/// The outcomes a list of entries holds, by id.
pub open spec fn outcome_map(s: Seq<CaseOutcome>) -> Map<Seq<char>, OutcomeModel>
    decreases s.len(),
{
    if s.len() == 0 {
        Map::empty()
    } else {
        outcome_map(s.drop_first()).insert(s[0].id@, outcome_of(s[0]))
    }
}

/// No two entries share an id.
pub open spec fn distinct_ids(s: Seq<CaseOutcome>) -> bool {
    forall|i: int, j: int| 0 <= i < s.len() && 0 <= j < s.len() && i != j ==> s[i].id@ != s[j].id@
}

impl View for CaseOutcomes {
    type V = Map<Seq<char>, OutcomeModel>;

    closed spec fn view(&self) -> Map<Seq<char>, OutcomeModel> {
        outcome_map(self.entries@)
    }
}

proof fn lemma_outcome_map_domain(s: Seq<CaseOutcome>, k: Seq<char>)
    ensures
        outcome_map(s).contains_key(k) <==> exists|i: int| 0 <= i < s.len() && s[i].id@ == k,
    decreases s.len(),
{
    if s.len() > 0 {
        lemma_outcome_map_domain(s.drop_first(), k);
        if outcome_map(s).contains_key(k) && s[0].id@ != k {
            let i = choose|i: int| 0 <= i < s.drop_first().len() && s.drop_first()[i].id@ == k;
            assert(s[i + 1] == s.drop_first()[i]);
        }
        if exists|i: int| 0 <= i < s.len() && s[i].id@ == k {
            let i = choose|i: int| 0 <= i < s.len() && s[i].id@ == k;
            if i > 0 {
                assert(s.drop_first()[i - 1] == s[i]);
            }
        }
    }
}

proof fn lemma_distinct_tail(s: Seq<CaseOutcome>)
    requires
        distinct_ids(s),
        s.len() > 0,
    ensures
        distinct_ids(s.drop_first()),
{
    let t = s.drop_first();
    assert forall|a: int, b: int| 0 <= a < t.len() && 0 <= b < t.len() && a != b implies t[a].id@
        != t[b].id@ by {
        assert(t[a] == s[a + 1]);
        assert(t[b] == s[b + 1]);
    }
}

proof fn lemma_outcome_map_at(s: Seq<CaseOutcome>, i: int)
    requires
        distinct_ids(s),
        0 <= i < s.len(),
    ensures
        outcome_map(s).contains_key(s[i].id@),
        outcome_map(s)[s[i].id@] == outcome_of(s[i]),
    decreases s.len(),
{
    if i > 0 {
        let t = s.drop_first();
        assert(t[i - 1] == s[i]);
        lemma_distinct_tail(s);
        lemma_outcome_map_at(t, i - 1);
        assert(s[0].id@ != s[i].id@);
    }
}

proof fn lemma_outcome_map_push(s: Seq<CaseOutcome>, e: CaseOutcome)
    requires
        !outcome_map(s).contains_key(e.id@),
    ensures
        outcome_map(s.push(e)) == outcome_map(s).insert(e.id@, outcome_of(e)),
    decreases s.len(),
{
    if s.len() == 0 {
        assert(s.push(e).drop_first() =~= s);
    } else {
        let t = s.drop_first();
        assert(s.push(e).drop_first() =~= t.push(e));
        assert(s.push(e)[0] == s[0]);
        lemma_outcome_map_push(t, e);
        assert(s[0].id@ != e.id@);
        assert(outcome_map(s.push(e)) =~= outcome_map(s).insert(e.id@, outcome_of(e)));
    }
}

proof fn lemma_outcome_map_update(s: Seq<CaseOutcome>, i: int, e: CaseOutcome)
    requires
        distinct_ids(s),
        0 <= i < s.len(),
        e.id@ == s[i].id@,
    ensures
        outcome_map(s.update(i, e)) == outcome_map(s).insert(e.id@, outcome_of(e)),
        distinct_ids(s.update(i, e)),
    decreases s.len(),
{
    let u = s.update(i, e);
    assert(distinct_ids(u)) by {
        assert forall|a: int, b: int| 0 <= a < u.len() && 0 <= b < u.len() && a != b implies u[a].id@
            != u[b].id@ by {
            assert(u[a].id@ == s[a].id@);
            assert(u[b].id@ == s[b].id@);
        }
    }
    let t = s.drop_first();
    lemma_distinct_tail(s);
    if i == 0 {
        assert(u.drop_first() =~= t);
        lemma_outcome_map_domain(t, e.id@);
        if outcome_map(t).contains_key(e.id@) {
            let j = choose|j: int| 0 <= j < t.len() && t[j].id@ == e.id@;
            assert(t[j] == s[j + 1]);
        }
        assert(outcome_map(u) =~= outcome_map(s).insert(e.id@, outcome_of(e)));
    } else {
        assert(u.drop_first() =~= t.update(i - 1, e));
        assert(t[i - 1] == s[i]);
        lemma_outcome_map_update(t, i - 1, e);
        assert(u[0] == s[0]);
        assert(s[0].id@ != s[i].id@);
        assert(outcome_map(u) =~= outcome_map(s).insert(e.id@, outcome_of(e)));
    }
}

/// The outcome a retry records: the new run's metadata, noting that it ran
/// one at a time after a failed parallel run that took
/// `previous.duration_ms` and reported `previous.error` (if any).
pub open spec fn retried_model(m: MetaModel, previous: MetaModel) -> MetaModel {
    MetaModel {
        retry: Some(
            RetryModel {
                mode: "serial_after_parallel_failure"@,
                previous_duration_ms: Some(previous.duration_ms),
                previous_error: if previous.error.len() == 0 {
                    None
                } else {
                    Some(previous.error)
                },
            },
        ),
        ..m
    }
}

/// `metadata` marked as a serial retry of the run described by `previous`.
pub fn retried_metadata(metadata: ExecMetadata, previous: &ExecMetadata) -> (r: ExecMetadata)
    ensures
        r@ == retried_model(metadata@, previous@),
{
    let mut metadata = metadata;
    metadata.retry = Some(
        RetryMetadata {
            mode: "serial_after_parallel_failure".to_owned(),
            previous_duration_ms: Some(previous.duration_ms),
            previous_error: if previous.error.as_str().is_empty() {
                None
            } else {
                Some(previous.error.clone())
            },
        },
    );
    metadata
}

impl CaseOutcomes {
    /// No id is recorded twice.
    pub closed spec fn wf(&self) -> bool {
        distinct_ids(self.entries@)
    }

    /// No outcomes yet.
    pub fn new() -> (r: Self)
        ensures
            r.wf(),
            r@ == Map::<Seq<char>, OutcomeModel>::empty(),
    {
        CaseOutcomes { entries: Vec::new() }
    }

    fn find(&self, id: &str) -> (r: Option<usize>)
        requires
            self.wf(),
        ensures
            match r {
                Some(i) => i < self.entries@.len() && self.entries@[i as int].id@ == id@,
                None => !self@.contains_key(id@),
            },
    {
        proof {
            lemma_outcome_map_domain(self.entries@, id@);
        }
        let mut i: usize = 0;
        while i < self.entries.len()
            invariant
                i <= self.entries@.len(),
                forall|j: int| 0 <= j < i ==> self.entries@[j].id@ != id@,
            decreases self.entries.len() - i,
        {
            if crate::text::str_eq(self.entries[i].id.as_str(), id) {
                return Some(i);
            }
            i += 1;
        }
        None
    }

    /// Records the outcome of a run of case `id`, replacing any earlier one.
    pub fn record(&mut self, id: String, response: String, metadata: ExecMetadata)
        requires
            old(self).wf(),
        ensures
            final(self).wf(),
            final(self)@ == old(self)@.insert(
                id@,
                OutcomeModel { response: response@, metadata: metadata@ },
            ),
    {
        let e = CaseOutcome { id, response, metadata };
        match self.find(e.id.as_str()) {
            Some(i) => {
                proof {
                    lemma_outcome_map_update(self.entries@, i as int, e);
                }
                self.entries.set(i, e);
            },
            None => {
                proof {
                    lemma_outcome_map_push(self.entries@, e);
                    let s = self.entries@;
                    lemma_outcome_map_domain(s, e.id@);
                    assert forall|a: int, b: int|
                        0 <= a < s.push(e).len() && 0 <= b < s.push(e).len() && a
                            != b implies s.push(e)[a].id@ != s.push(e)[b].id@ by {
                        if a < s.len() && b < s.len() {
                        } else if a < s.len() {
                            assert(s[a].id@ != e.id@);
                        } else if b < s.len() {
                            assert(s[b].id@ != e.id@);
                        }
                    }
                }
                self.entries.push(e);
            },
        }
    }

    /// The outcome recorded for case `id`.
    pub fn get(&self, id: &str) -> (r: Option<&CaseOutcome>)
        requires
            self.wf(),
        ensures
            match r {
                Some(e) => self@.contains_key(id@) && self@[id@] == outcome_of(*e) && e.id@
                    == id@,
                None => !self@.contains_key(id@),
            },
    {
        match self.find(id) {
            Some(i) => {
                proof {
                    lemma_outcome_map_at(self.entries@, i as int);
                }
                Some(&self.entries[i])
            },
            None => None,
        }
    }

    /// Records the outcome of a serial retry of case `id`: its metadata
    /// notes the earlier run that it replaces, when there was one.
    pub fn record_retry(&mut self, id: String, response: String, metadata: ExecMetadata)
        requires
            old(self).wf(),
        ensures
            final(self).wf(),
            final(self)@ == old(self)@.insert(
                id@,
                OutcomeModel {
                    response: response@,
                    metadata: if old(self)@.contains_key(id@) {
                        retried_model(metadata@, old(self)@[id@].metadata)
                    } else {
                        metadata@
                    },
                },
            ),
    {
        let metadata = match self.get(id.as_str()) {
            Some(previous) => retried_metadata(metadata, &previous.metadata),
            None => metadata,
        };
        self.record(id, response, metadata);
    }
}

// ---------------------------------------------------------------------------
// Serial retries
// ---------------------------------------------------------------------------
/// A case is run again on its own when its parallel run left no response
/// (or a blank one) and failed in a way that looks transient.
pub open spec fn spec_needs_retry(outcome: Option<OutcomeModel>) -> bool {
    match outcome {
        Some(o) => is_blank(o.response) && spec_is_retryable(o.metadata),
        None => false,
    }
}

/// The outcome recorded for `id`, if any.
pub open spec fn outcome_for(m: Map<Seq<char>, OutcomeModel>, id: Seq<char>) -> Option<
    OutcomeModel,
> {
    if m.contains_key(id) {
        Some(m[id])
    } else {
        None
    }
}

/// The positions, in order, of the first `n` cases that are run again.
pub open spec fn retry_positions(
    cases: Seq<CaseModel>,
    outcomes: Map<Seq<char>, OutcomeModel>,
    n: nat,
) -> Seq<nat>
    decreases n,
{
    if n == 0 {
        seq![]
    } else {
        retry_positions(cases, outcomes, (n - 1) as nat) + if spec_needs_retry(
            outcome_for(outcomes, cases[n - 1].id),
        ) {
            seq![(n - 1) as nat]
        } else {
            seq![]
        }
    }
}


proof fn lemma_retry_positions_bound(
    cases: Seq<CaseModel>,
    outcomes: Map<Seq<char>, OutcomeModel>,
    n: nat,
    j: int,
)
    requires
        0 <= j < retry_positions(cases, outcomes, n).len(),
    ensures
        retry_positions(cases, outcomes, n)[j] < n,
    decreases n,
{
    if n > 0 {
        let prev = retry_positions(cases, outcomes, (n - 1) as nat);
        if j < prev.len() {
            lemma_retry_positions_bound(cases, outcomes, (n - 1) as nat, j);
        }
    }
}

/// Whether the case `id` is run again on its own.
pub fn needs_serial_retry(outcomes: &CaseOutcomes, id: &str) -> (r: bool)
    requires
        outcomes.wf(),
    ensures
        r == spec_needs_retry(outcome_for(outcomes@, id@)),
{
    match outcomes.get(id) {
        Some(o) => {
            proof {
                crate::text::lemma_trim_empty_iff_blank(o.response@);
            }
            is_blank_str(o.response.as_str()) && is_retryable_codex_error(&o.metadata)
        },
        None => false,
    }
}

/// The positions, in order, of the cases that are run again one at a time
/// after a parallel run.
pub fn serial_retry_indices(cases: &Vec<PromptCase>, outcomes: &CaseOutcomes) -> (r: Vec<usize>)
    requires
        outcomes.wf(),
    ensures
        r@.map_values(|i: usize| i as nat) == retry_positions(
            cases_view(cases@),
            outcomes@,
            cases@.len(),
        ),
{
    let ghost cs = cases_view(cases@);
    let mut out: Vec<usize> = Vec::new();
    let mut i: usize = 0;
    while i < cases.len()
        invariant
            i <= cases@.len(),
            cs == cases_view(cases@),
            outcomes.wf(),
            out@.map_values(|k: usize| k as nat) == retry_positions(cs, outcomes@, i as nat),
        decreases cases.len() - i,
    {
        let ghost before = out@;
        assert(cs[i as int] == cases@[i as int]@);
        if needs_serial_retry(outcomes, cases[i].id.as_str()) {
            out.push(i);
            assert(out@.map_values(|k: usize| k as nat) =~= before.map_values(|k: usize| k as nat)
                + seq![i as nat]);
        } else {
            assert(out@.map_values(|k: usize| k as nat) =~= before.map_values(|k: usize| k as nat)
                + seq![]);
        }
        i += 1;
    }
    out
}

// ---------------------------------------------------------------------------
// Grading
// ---------------------------------------------------------------------------
/// The markers, in order, that the lowercased response `lowered` lacks,
/// compared without regard to ASCII case.
pub open spec fn markers_missing(lowered: Seq<char>, markers: Seq<Seq<char>>) -> Seq<Seq<char>>
    decreases markers.len(),
{
    if markers.len() == 0 {
        seq![]
    } else {
        markers_missing(lowered, markers.drop_last()) + if contains(lowered, lower(markers.last())) {
            seq![]
        } else {
            seq![markers.last()]
        }
    }
}

/// The markers, in order, that the lowercased response `lowered` contains,
/// compared without regard to ASCII case.
pub open spec fn markers_present(lowered: Seq<char>, markers: Seq<Seq<char>>) -> Seq<Seq<char>>
    decreases markers.len(),
{
    if markers.len() == 0 {
        seq![]
    } else {
        markers_present(lowered, markers.drop_last()) + if contains(lowered, lower(markers.last())) {
            seq![markers.last()]
        } else {
            seq![]
        }
    }
}

/// What is recorded for a case that has no outcome.
pub open spec fn missing_metadata_model() -> MetaModel {
    MetaModel {
        return_code: 1,
        timed_out: false,
        duration_ms: 0,
        error: "missing execution metadata"@,
        stdout_tail: seq![],
        stderr_tail: seq![],
        retry: None,
    }
}

/// The graded result of a case: it passes when there is a non-blank
/// response that contains every required marker and no forbidden one.
pub open spec fn graded(case: CaseModel, outcome: Option<OutcomeModel>) -> ResultModel {
    let response = match outcome {
        Some(o) => o.response,
        None => seq![],
    };
    let lowered = lower(response);
    let missing = markers_missing(lowered, case.expected.must_include);
    let present = markers_present(lowered, case.expected.must_not_include);
    let found = !is_blank(response);
    ResultModel {
        id: case.id,
        prompt: case.prompt,
        pass: found && missing.len() == 0 && present.len() == 0,
        found_response: found,
        missing_required_markers: missing,
        forbidden_markers_present: present,
        response,
        codex_exec: match outcome {
            Some(o) => o.metadata,
            None => missing_metadata_model(),
        },
    }
}

/// The metadata recorded for a case that has no outcome.
fn missing_metadata() -> (r: ExecMetadata)
    ensures
        r@ == missing_metadata_model(),
{
    ExecMetadata {
        return_code: 1,
        timed_out: false,
        duration_ms: 0,
        error: "missing execution metadata".to_owned(),
        stdout_tail: String::new(),
        stderr_tail: String::new(),
        retry: None,
    }
}

/// The markers of `markers` whose lowercase form `lowered` contains
/// (`present`) or lacks (`!present`), in order.
fn select_markers(lowered: &str, markers: &Vec<String>, present: bool) -> (r: Vec<String>)
    ensures
        r.deep_view() == if present {
            markers_present(lowered@, markers.deep_view())
        } else {
            markers_missing(lowered@, markers.deep_view())
        },
{
    let ghost ms = markers.deep_view();
    let mut out: Vec<String> = Vec::new();
    let mut i: usize = 0;
    assert(out.deep_view() =~= markers_present(lowered@, ms.take(0)));
    assert(out.deep_view() =~= markers_missing(lowered@, ms.take(0)));
    while i < markers.len()
        invariant
            i <= markers@.len(),
            ms == markers.deep_view(),
            out.deep_view() == if present {
                markers_present(lowered@, ms.take(i as int))
            } else {
                markers_missing(lowered@, ms.take(i as int))
            },
        decreases markers.len() - i,
    {
        assert(ms.take(i + 1).drop_last() =~= ms.take(i as int));
        assert(ms.take(i + 1).last() == markers@[i as int]@);
        let ghost before = out.deep_view();
        let marker = to_lower(markers[i].as_str());
        let found = contains_str(lowered, marker.as_str());
        if found == present {
            out.push(markers[i].clone());
            assert(out.deep_view() =~= before + seq![markers@[i as int]@]);
        } else {
            assert(out.deep_view() =~= before + seq![]);
        }
        i += 1;
    }
    assert(ms.take(markers@.len() as int) =~= ms);
    out
}

/// Grades one case against the outcome recorded for it.
pub fn grade_case(case: &PromptCase, outcomes: &CaseOutcomes) -> (r: EvalResultRow)
    requires
        outcomes.wf(),
    ensures
        r@ == graded(case@, outcome_for(outcomes@, case@.id)),
{
    let (response, codex_exec) = match outcomes.get(case.id.as_str()) {
        Some(o) => (o.response.clone(), o.metadata.copy()),
        None => (String::new(), missing_metadata()),
    };
    let lowered = to_lower(response.as_str());
    let missing_required_markers = select_markers(
        lowered.as_str(),
        &case.expected.must_include,
        false,
    );
    let forbidden_markers_present = select_markers(
        lowered.as_str(),
        &case.expected.must_not_include,
        true,
    );
    proof {
        crate::text::lemma_trim_empty_iff_blank(response@);
    }
    let found_response = !is_blank_str(response.as_str());
    let pass = found_response && missing_required_markers.len() == 0
        && forbidden_markers_present.len() == 0;
    EvalResultRow {
        id: case.id.clone(),
        prompt: case.prompt.clone(),
        pass,
        found_response,
        missing_required_markers,
        forbidden_markers_present,
        response,
        codex_exec,
    }
}

/// The graded results of all cases, in order.
pub open spec fn graded_all(
    cases: Seq<CaseModel>,
    outcomes: Map<Seq<char>, OutcomeModel>,
) -> Seq<ResultModel> {
    cases.map_values(|c: CaseModel| graded(c, outcome_for(outcomes, c.id)))
}

/// Grades every case, in order.
pub fn grade_cases(cases: &Vec<PromptCase>, outcomes: &CaseOutcomes) -> (r: Vec<EvalResultRow>)
    requires
        outcomes.wf(),
    ensures
        results_view(r@) == graded_all(cases_view(cases@), outcomes@),
{
    let mut rows: Vec<EvalResultRow> = Vec::new();
    let mut i: usize = 0;
    while i < cases.len()
        invariant
            i <= cases@.len(),
            outcomes.wf(),
            results_view(rows@) == graded_all(cases_view(cases@), outcomes@).take(i as int),
        decreases cases.len() - i,
    {
        let row = grade_case(&cases[i], outcomes);
        let ghost before = results_view(rows@);
        rows.push(row);
        assert(cases_view(cases@)[i as int] == cases@[i as int]@);
        assert(results_view(rows@) =~= before.push(row@));
        assert(results_view(rows@) =~= graded_all(cases_view(cases@), outcomes@).take(i + 1));
        i += 1;
    }
    assert(graded_all(cases_view(cases@), outcomes@).take(cases@.len() as int) =~= graded_all(
        cases_view(cases@),
        outcomes@,
    ));
    rows
}

// ---------------------------------------------------------------------------
// Tallies
// ---------------------------------------------------------------------------
/// How many results pass.
pub open spec fn passed_results(rows: Seq<ResultModel>) -> nat
    decreases rows.len(),
{
    if rows.len() == 0 {
        0
    } else {
        passed_results(rows.drop_last()) + if rows.last().pass {
            1nat
        } else {
            0nat
        }
    }
}

/// How many results came from a serial retry.
pub open spec fn retried_results(rows: Seq<ResultModel>) -> nat
    decreases rows.len(),
{
    if rows.len() == 0 {
        0
    } else {
        retried_results(rows.drop_last()) + if rows.last().codex_exec.retry is Some {
            1nat
        } else {
            0nat
        }
    }
}

proof fn lemma_tallies_bounded(rows: Seq<ResultModel>)
    ensures
        passed_results(rows) <= rows.len(),
        retried_results(rows) <= rows.len(),
    decreases rows.len(),
{
    if rows.len() > 0 {
        lemma_tallies_bounded(rows.drop_last());
    }
}

/// The number of passing results.
pub fn count_passed(rows: &Vec<EvalResultRow>) -> (r: usize)
    ensures
        r == passed_results(results_view(rows@)),
        r <= rows@.len(),
{
    let ghost views = results_view(rows@);
    let mut n: usize = 0;
    let mut i: usize = 0;
    while i < rows.len()
        invariant
            i <= rows@.len(),
            views == results_view(rows@),
            n == passed_results(views.take(i as int)),
            n <= i,
        decreases rows.len() - i,
    {
        assert(views.take(i + 1).drop_last() =~= views.take(i as int));
        assert(views.take(i + 1).last() == rows@[i as int]@);
        if rows[i].pass {
            n += 1;
        }
        i += 1;
    }
    assert(views.take(rows@.len() as int) =~= views);
    n
}

/// The number of results that came from a serial retry.
pub fn serial_retry_count(rows: &Vec<EvalResultRow>) -> (r: usize)
    ensures
        r == retried_results(results_view(rows@)),
        r <= rows@.len(),
{
    let ghost views = results_view(rows@);
    let mut n: usize = 0;
    let mut i: usize = 0;
    while i < rows.len()
        invariant
            i <= rows@.len(),
            views == results_view(rows@),
            n == retried_results(views.take(i as int)),
            n <= i,
        decreases rows.len() - i,
    {
        assert(views.take(i + 1).drop_last() =~= views.take(i as int));
        assert(views.take(i + 1).last() == rows@[i as int]@);
        if rows[i].codex_exec.retry.is_some() {
            n += 1;
        }
        i += 1;
    }
    assert(views.take(rows@.len() as int) =~= views);
    n
}

/// The value of an [`EvalRunnerReport`]'s settings part.
pub open spec fn runner_report_ok(
    r: EvalRunnerReport,
    runner: SettingsModel,
    effective_concurrency: usize,
    serial_retry_count: usize,
    global_config_path: Option<Seq<char>>,
    codex_home_base_dir: Seq<char>,
    codex_home: Option<Seq<char>>,
) -> bool {
    &&& r.mode@ == "live_codex_exec"@
    &&& r.global_config_path.deep_view() == global_config_path
    &&& r.max_concurrency == runner.max_concurrency
    &&& r.effective_concurrency == effective_concurrency
    &&& r.serial_retry_count == serial_retry_count
    &&& r.codex_timeout_seconds == runner.codex_timeout_seconds
    &&& r.codex_sandbox@ == runner.codex_sandbox
    &&& r.codex_model.deep_view() == runner.codex_model
    &&& r.codex_reasoning_effort.deep_view() == runner.codex_reasoning_effort
    &&& r.codex_extra_args.deep_view() == runner.codex_extra_args
    &&& r.codex_isolation == runner.codex_isolation
    &&& r.codex_home_base_dir@ == codex_home_base_dir
    &&& r.codex_home.deep_view() == codex_home
}

/// How an eval was run under `runner`: `global_config_path` is the global
/// configuration file when it exists, `codex_home_base_dir` and
/// `codex_home` where CLI homes were made.
pub fn runner_report(
    runner: &RunnerConfig,
    effective_concurrency: usize,
    serial_retry_count: usize,
    global_config_path: Option<String>,
    codex_home_base_dir: String,
    codex_home: Option<String>,
) -> (r: EvalRunnerReport)
    ensures
        runner_report_ok(
            r,
            runner@,
            effective_concurrency,
            serial_retry_count,
            global_config_path.deep_view(),
            codex_home_base_dir@,
            codex_home.deep_view(),
        ),
{
    let copy = runner.copy();
    EvalRunnerReport {
        mode: "live_codex_exec".to_owned(),
        global_config_path,
        max_concurrency: copy.max_concurrency,
        effective_concurrency,
        serial_retry_count,
        codex_timeout_seconds: copy.codex_timeout_seconds,
        codex_sandbox: copy.codex_sandbox,
        codex_model: copy.codex_model,
        codex_reasoning_effort: copy.codex_reasoning_effort,
        codex_extra_args: copy.codex_extra_args,
        codex_isolation: copy.codex_isolation,
        codex_home_base_dir,
        codex_home,
    }
}


proof fn lemma_markers_missing_empty(lowered: Seq<char>, markers: Seq<Seq<char>>)
    ensures
        markers_missing(lowered, markers).len() == 0 <==> forall|i: int|
            0 <= i < markers.len() ==> contains(lowered, lower(#[trigger] markers[i])),
    decreases markers.len(),
{
    if markers.len() > 0 {
        let init = markers.drop_last();
        lemma_markers_missing_empty(lowered, init);
        if forall|i: int| 0 <= i < markers.len() ==> contains(lowered, lower(#[trigger] markers[i])) {
            assert forall|i: int| 0 <= i < init.len() implies contains(
                lowered,
                lower(#[trigger] init[i]),
            ) by {
                assert(init[i] == markers[i]);
            }
            assert(markers.last() == markers[markers.len() - 1]);
        }
        if markers_missing(lowered, markers).len() == 0 {
            assert forall|i: int| 0 <= i < markers.len() implies contains(
                lowered,
                lower(#[trigger] markers[i]),
            ) by {
                if i < markers.len() - 1 {
                    assert(init[i] == markers[i]);
                }
            }
        }
    }
}

proof fn lemma_markers_present_empty(lowered: Seq<char>, markers: Seq<Seq<char>>)
    ensures
        markers_present(lowered, markers).len() == 0 <==> forall|i: int|
            0 <= i < markers.len() ==> !contains(lowered, lower(#[trigger] markers[i])),
    decreases markers.len(),
{
    if markers.len() > 0 {
        let init = markers.drop_last();
        lemma_markers_present_empty(lowered, init);
        if forall|i: int| 0 <= i < markers.len() ==> !contains(lowered, lower(#[trigger] markers[i])) {
            assert forall|i: int| 0 <= i < init.len() implies !contains(
                lowered,
                lower(#[trigger] init[i]),
            ) by {
                assert(init[i] == markers[i]);
            }
            assert(markers.last() == markers[markers.len() - 1]);
        }
        if markers_present(lowered, markers).len() == 0 {
            assert forall|i: int| 0 <= i < markers.len() implies !contains(
                lowered,
                lower(#[trigger] markers[i]),
            ) by {
                if i < markers.len() - 1 {
                    assert(init[i] == markers[i]);
                }
            }
        }
    }
}

/// A case passes exactly when its response is not blank, contains every
/// required marker and none of the forbidden ones, compared without regard
/// to ASCII case.
pub proof fn law_case_passes(case: CaseModel, outcome: Option<OutcomeModel>)
    ensures
        ({
            let response = match outcome {
                Some(o) => o.response,
                None => seq![],
            };
            graded(case, outcome).pass <==> {
                &&& !is_blank(response)
                &&& forall|i: int|
                    0 <= i < case.expected.must_include.len() ==> contains(
                        lower(response),
                        lower(#[trigger] case.expected.must_include[i]),
                    )
                &&& forall|i: int|
                    0 <= i < case.expected.must_not_include.len() ==> !contains(
                        lower(response),
                        lower(#[trigger] case.expected.must_not_include[i]),
                    )
            }
        }),
{
    let response = match outcome {
        Some(o) => o.response,
        None => seq![],
    };
    lemma_markers_missing_empty(lower(response), case.expected.must_include);
    lemma_markers_present_empty(lower(response), case.expected.must_not_include);
}

/// A case without an outcome fails, and is recorded as missing its
/// metadata.
pub proof fn law_case_without_outcome_fails(case: CaseModel)
    ensures
        !graded(case, None).pass,
        graded(case, None).codex_exec == missing_metadata_model(),
{
    let e: Seq<char> = seq![];
    assert(is_blank(e));
}



// ---------------------------------------------------------------------------
// An eval run, step by step
// ---------------------------------------------------------------------------
/// Where an eval run stands.
#[derive(Debug)]
pub enum EvalStage {
    /// Running the cases one at a time; the first `next` have run.
    Serial { next: usize },
    /// Waiting for all cases to run in parallel.
    Parallel,
    /// Running the cases of `queue` again one at a time; the first `pos`
    /// have run.
    Retrying { queue: Vec<usize>, pos: usize },
    /// Every run is done; the cases can be graded.
    Done,
}

/// What an eval run needs done next outside the library.
#[derive(Debug)]
pub enum EvalAction {
    /// Run case `index` and report with [`EvalRun::case_ran`].
    RunCase { index: usize },
    /// Run every case, `threads` at a time, each started after
    /// [`start_delay_ms`] of its position, and report the outcomes in case
    /// order with [`EvalRun::batch_ran`].
    RunBatch { threads: usize },
    /// Run case `index` again on its own and report with
    /// [`EvalRun::case_ran`].
    RetryCase { index: usize },
    /// Grade the cases.
    Grade,
}

/// The value of an [`EvalStage`].
pub enum EvalStageModel {
    Serial(nat),
    Parallel,
    Retrying(Seq<nat>, nat),
    Done,
}

/// The value of an [`EvalAction`].
pub enum EvalActionModel {
    RunCase(nat),
    RunBatch(nat),
    RetryCase(nat),
    Grade,
}

impl View for EvalStage {
    type V = EvalStageModel;

    open spec fn view(&self) -> EvalStageModel {
        match self {
            EvalStage::Serial { next } => EvalStageModel::Serial(*next as nat),
            EvalStage::Parallel => EvalStageModel::Parallel,
            EvalStage::Retrying { queue, pos } => EvalStageModel::Retrying(
                queue@.map_values(|i: usize| i as nat),
                *pos as nat,
            ),
            EvalStage::Done => EvalStageModel::Done,
        }
    }
}

impl View for EvalAction {
    type V = EvalActionModel;

    open spec fn view(&self) -> EvalActionModel {
        match self {
            EvalAction::RunCase { index } => EvalActionModel::RunCase(*index as nat),
            EvalAction::RunBatch { threads } => EvalActionModel::RunBatch(*threads as nat),
            EvalAction::RetryCase { index } => EvalActionModel::RetryCase(*index as nat),
            EvalAction::Grade => EvalActionModel::Grade,
        }
    }
}

/// The runs of an eval's cases: how many run at once, what each run gave,
/// and where the run stands.
#[derive(Debug)]
pub struct EvalRun {
    cases: Vec<PromptCase>,
    concurrency: usize,
    outcomes: CaseOutcomes,
    stage: EvalStage,
}

/// The value of an [`EvalRun`].
pub struct EvalRunModel {
    pub cases: Seq<CaseModel>,
    pub concurrency: nat,
    pub outcomes: Map<Seq<char>, OutcomeModel>,
    pub stage: EvalStageModel,
}

impl View for EvalRun {
    type V = EvalRunModel;

    closed spec fn view(&self) -> EvalRunModel {
        EvalRunModel {
            cases: cases_view(self.cases@),
            concurrency: self.concurrency as nat,
            outcomes: self.outcomes@,
            stage: self.stage@,
        }
    }
}

/// The outcomes after recording the first `k` of `results` for the cases
/// in the same positions, in order.
pub open spec fn record_results(
    m: Map<Seq<char>, OutcomeModel>,
    cases: Seq<CaseModel>,
    results: Seq<(Seq<char>, MetaModel)>,
    k: nat,
) -> Map<Seq<char>, OutcomeModel>
    decreases k,
{
    if k == 0 {
        m
    } else {
        record_results(m, cases, results, (k - 1) as nat).insert(
            cases[k - 1].id,
            OutcomeModel { response: results[k - 1].0, metadata: results[k - 1].1 },
        )
    }
}

/// The values of a list of outcomes.
pub open spec fn results_of(results: Seq<(String, ExecMetadata)>) -> Seq<(Seq<char>, MetaModel)> {
    results.map_values(|r: (String, ExecMetadata)| (r.0@, r.1@))
}

/// What an eval run does next, and the run after deciding it: with one
/// case at a time the cases run in order; otherwise they all run in
/// parallel and the failed ones are then run again in order; then the
/// cases are graded.
pub open spec fn spec_eval_next(m: EvalRunModel) -> (EvalRunModel, EvalActionModel) {
    match m.stage {
        EvalStageModel::Serial(n) => if n < m.cases.len() {
            (m, EvalActionModel::RunCase(n))
        } else {
            (EvalRunModel { stage: EvalStageModel::Done, ..m }, EvalActionModel::Grade)
        },
        EvalStageModel::Parallel => (m, EvalActionModel::RunBatch(m.concurrency)),
        EvalStageModel::Retrying(q, p) => if p < q.len() {
            (m, EvalActionModel::RetryCase(q[p as int]))
        } else {
            (EvalRunModel { stage: EvalStageModel::Done, ..m }, EvalActionModel::Grade)
        },
        EvalStageModel::Done => (m, EvalActionModel::Grade),
    }
}

impl EvalRun {
    /// The run is consistent: outcomes are kept by id, and the stage points
    /// inside the cases.
    pub closed spec fn wf(&self) -> bool {
        &&& self.outcomes.wf()
        &&& match self.stage@ {
            EvalStageModel::Serial(n) => n <= self.cases@.len(),
            EvalStageModel::Retrying(q, p) => p <= q.len() && forall|i: int|
                0 <= i < q.len() ==> #[trigger] q[i] < self.cases@.len(),
            _ => true,
        }
    }

    /// Starts the run of `cases` with at most `max_concurrency` at once:
    /// one at a time when that comes to one, else all in parallel.
    pub fn new(cases: Vec<PromptCase>, max_concurrency: usize) -> (r: Self)
        ensures
            r.wf(),
            r@.cases == cases_view(cases@),
            r@.concurrency == spec_effective_concurrency(max_concurrency as nat, cases@.len()),
            r@.outcomes == Map::<Seq<char>, OutcomeModel>::empty(),
            r@.stage == if r@.concurrency == 1 {
                EvalStageModel::Serial(0)
            } else {
                EvalStageModel::Parallel
            },
    {
        let concurrency = effective_concurrency(max_concurrency, cases.len());
        let stage = if concurrency == 1 {
            EvalStage::Serial { next: 0 }
        } else {
            EvalStage::Parallel
        };
        EvalRun { cases, concurrency, outcomes: CaseOutcomes::new(), stage }
    }

    /// The cases of the run.
    pub fn cases(&self) -> (r: &Vec<PromptCase>)
        ensures
            cases_view(r@) == self@.cases,
    {
        &self.cases
    }

    /// How many cases run at once.
    pub fn concurrency(&self) -> (r: usize)
        ensures
            r == self@.concurrency,
    {
        self.concurrency
    }

    /// Decides what the run does next.
    pub fn next_action(&mut self) -> (r: EvalAction)
        requires
            old(self).wf(),
        ensures
            final(self).wf(),
            (final(self)@, r@) == spec_eval_next(old(self)@),
    {
        match &self.stage {
            EvalStage::Serial { next } => {
                if *next < self.cases.len() {
                    EvalAction::RunCase { index: *next }
                } else {
                    self.stage = EvalStage::Done;
                    EvalAction::Grade
                }
            },
            EvalStage::Parallel => EvalAction::RunBatch { threads: self.concurrency },
            EvalStage::Retrying { queue, pos } => {
                if *pos < queue.len() {
                    EvalAction::RetryCase { index: queue[*pos] }
                } else {
                    self.stage = EvalStage::Done;
                    EvalAction::Grade
                }
            },
            EvalStage::Done => EvalAction::Grade,
        }
    }

    /// Records what the case asked for gave: its final message and how it
    /// ran. A retried case notes the run it replaces. Outside the serial
    /// and retry stages it changes nothing.
    pub fn case_ran(&mut self, response: String, metadata: ExecMetadata)
        requires
            old(self).wf(),
        ensures
            final(self).wf(),
            final(self)@ == match old(self)@.stage {
                EvalStageModel::Serial(n) => if n < old(self)@.cases.len() {
                    EvalRunModel {
                        outcomes: old(self)@.outcomes.insert(
                            old(self)@.cases[n as int].id,
                            OutcomeModel { response: response@, metadata: metadata@ },
                        ),
                        stage: EvalStageModel::Serial(n + 1),
                        ..old(self)@
                    }
                } else {
                    old(self)@
                },
                EvalStageModel::Retrying(q, p) => if p < q.len() {
                    let id = old(self)@.cases[q[p as int] as int].id;
                    EvalRunModel {
                        outcomes: old(self)@.outcomes.insert(
                            id,
                            OutcomeModel {
                                response: response@,
                                metadata: if old(self)@.outcomes.contains_key(id) {
                                    retried_model(metadata@, old(self)@.outcomes[id].metadata)
                                } else {
                                    metadata@
                                },
                            },
                        ),
                        stage: EvalStageModel::Retrying(q, p + 1),
                        ..old(self)@
                    }
                } else {
                    old(self)@
                },
                _ => old(self)@,
            },
    {
        let n = self.cases.len();
        let mut stage = EvalStage::Done;
        std::mem::swap(&mut stage, &mut self.stage);
        match stage {
            EvalStage::Serial { next } => {
                if next < n {
                    let id = self.cases[next].id.clone();
                    assert(cases_view(self.cases@)[next as int] == self.cases@[next as int]@);
                    self.outcomes.record(id, response, metadata);
                    self.stage = EvalStage::Serial { next: next + 1 };
                } else {
                    self.stage = EvalStage::Serial { next };
                }
            },
            EvalStage::Retrying { queue, pos } => {
                if pos < queue.len() {
                    let k = queue[pos];
                    let id = self.cases[k].id.clone();
                    assert(cases_view(self.cases@)[k as int] == self.cases@[k as int]@);
                    self.outcomes.record_retry(id, response, metadata);
                    self.stage = EvalStage::Retrying { queue, pos: pos + 1 };
                } else {
                    self.stage = EvalStage::Retrying { queue, pos };
                }
            },
            other => {
                self.stage = other;
            },
        }
    }

    /// Records the outcomes of a parallel run, in case order (an outcome
    /// past the last case is ignored), and queues the cases to run again.
    /// Outside the parallel stage it changes nothing.
    pub fn batch_ran(&mut self, results: Vec<(String, ExecMetadata)>)
        requires
            old(self).wf(),
        ensures
            final(self).wf(),
            final(self)@ == match old(self)@.stage {
                EvalStageModel::Parallel => {
                    let k = if results@.len() < old(self)@.cases.len() {
                        results@.len()
                    } else {
                        old(self)@.cases.len()
                    };
                    let outcomes = record_results(
                        old(self)@.outcomes,
                        old(self)@.cases,
                        results_of(results@),
                        k,
                    );
                    EvalRunModel {
                        outcomes,
                        stage: EvalStageModel::Retrying(
                            retry_positions(old(self)@.cases, outcomes, old(self)@.cases.len()),
                            0,
                        ),
                        ..old(self)@
                    }
                },
                _ => old(self)@,
            },
    {
        if let EvalStage::Parallel = self.stage {
            let ghost m = self@;
            let n = self.cases.len();
            let k = if results.len() < n {
                results.len()
            } else {
                n
            };
            let ghost rs = results_of(results@);
            let mut i: usize = 0;
            while i < k
                invariant
                    i <= k,
                    k <= results@.len(),
                    k <= n,
                    n == self.cases@.len(),
                    cases_view(self.cases@) == m.cases,
                    self.concurrency == m.concurrency,
                    self.outcomes.wf(),
                    rs == results_of(results@),
                    self.outcomes@ == record_results(m.outcomes, m.cases, rs, i as nat),
                decreases k - i,
            {
                let id = self.cases[i].id.clone();
                let text = results[i].0.clone();
                let meta = results[i].1.copy();
                assert(m.cases[i as int] == self.cases@[i as int]@);
                assert(rs[i as int] == (results@[i as int].0@, results@[i as int].1@));
                self.outcomes.record(id, text, meta);
                i += 1;
            }
            let queue = serial_retry_indices(&self.cases, &self.outcomes);
            self.stage = EvalStage::Retrying { queue, pos: 0 };
            proof {
                let qs = queue@.map_values(|x: usize| x as nat);
                assert forall|j: int| 0 <= j < qs.len() implies #[trigger] qs[j]
                    < self.cases@.len() by {
                    lemma_retry_positions_bound(m.cases, self.outcomes@, m.cases.len(), j);
                }
            }
        }
    }

    /// Grades every case against its latest outcome, in case order.
    pub fn grade(&self) -> (r: Vec<EvalResultRow>)
        requires
            self.wf(),
        ensures
            results_view(r@) == graded_all(self@.cases, self@.outcomes),
    {
        grade_cases(&self.cases, &self.outcomes)
    }
}


proof fn lemma_markers_filter(lowered: Seq<char>, markers: Seq<Seq<char>>)
    ensures
        markers_missing(lowered, markers) == markers.filter(
            |m: Seq<char>| !contains(lowered, lower(m)),
        ),
        markers_present(lowered, markers) == markers.filter(
            |m: Seq<char>| contains(lowered, lower(m)),
        ),
    decreases markers.len(),
{
    let absent = |m: Seq<char>| !contains(lowered, lower(m));
    let found = |m: Seq<char>| contains(lowered, lower(m));
    if markers.len() == 0 {
        assert(markers.filter(absent) =~= seq![]);
        assert(markers.filter(found) =~= seq![]);
    } else {
        let init = markers.drop_last();
        lemma_markers_filter(lowered, init);
        assert(init.push(markers.last()) =~= markers);
        init.lemma_filter_push(markers.last(), absent);
        init.lemma_filter_push(markers.last(), found);
        if contains(lowered, lower(markers.last())) {
            assert(markers_missing(lowered, markers) =~= init.filter(absent));
            assert(markers_present(lowered, markers) =~= init.filter(found).push(markers.last()));
        } else {
            assert(markers_missing(lowered, markers) =~= init.filter(absent).push(markers.last()));
            assert(markers_present(lowered, markers) =~= init.filter(found));
        }
    }
}

/// A graded case lists as missing exactly the required markers whose
/// lowercase form the lowercased response lacks, and as present exactly the
/// forbidden markers whose lowercase form it contains, each in the order
/// the config gives them.
pub proof fn law_graded_marker_lists(case: CaseModel, outcome: Option<OutcomeModel>)
    ensures
        ({
            let response = match outcome {
                Some(o) => o.response,
                None => seq![],
            };
            let r = graded(case, outcome);
            &&& r.missing_required_markers == case.expected.must_include.filter(
                |m: Seq<char>| !contains(lower(response), lower(m)),
            )
            &&& r.forbidden_markers_present == case.expected.must_not_include.filter(
                |m: Seq<char>| contains(lower(response), lower(m)),
            )
            &&& r.response == response
            &&& r.id == case.id
            &&& r.prompt == case.prompt
        }),
{
    let response = match outcome {
        Some(o) => o.response,
        None => seq![],
    };
    lemma_markers_filter(lower(response), case.expected.must_include);
    lemma_markers_filter(lower(response), case.expected.must_not_include);
}

} // verus!
