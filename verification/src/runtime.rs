//! Running one prompt through the `codex` CLI: the request and response
//! types, the command line, how a finished run is read, and which failures
//! are worth a retry.
use std::collections::BTreeMap;

use vstd::prelude::*;

use crate::config::{
    copy_strings, sanitize_name, spec_sanitize_name, RunnerConfig, SettingsModel,
};
use crate::document::{join_path, parent_path, path_join, path_parent};
use crate::error::{msg, ErrorModel, EvelinError};
use crate::text::{
    cat, cat3, chars_of, contains, contains_str, is_blank, is_blank_str, is_whitespace, last_chars,
    lower, push_char, signed_decimal, signed_decimal_string, string_of, to_lower, trim, trim_str,
};

verus! {

/// Milliseconds between the starts of consecutive parallel cases.
pub const PARALLEL_START_STAGGER_MS: u64 = 500;

/// How many characters of a run's stdout and stderr are kept.
pub const OUTPUT_TAIL_CHARS: usize = 500;

/// The exit code recorded for a run that timed out.
pub const TIMEOUT_RETURN_CODE: i32 = 124;

/// The files of the user's own CLI home that an isolated home starts with.
pub const SEEDED_HOME_FILES: [&'static str; 4] = [
    "auth.json",
    ".codex-global-state.json",
    "version.json",
    "models_cache.json",
];

/// The files of an isolated home that each case's home is given.
pub const CASE_HOME_FILES: [&'static str; 5] = [
    "auth.json",
    ".codex-global-state.json",
    "version.json",
    "models_cache.json",
    "config.toml",
];

/// The first line of the CLI configuration of an isolated home.
pub const ISOLATED_CONFIG_TOML: &'static str = "# Generated by evelin\n";

/// What is known of one run of the CLI.
#[derive(Debug)]
pub struct ExecMetadata {
    pub return_code: i32,
    pub timed_out: bool,
    pub duration_ms: u128,
    pub error: String,
    pub stdout_tail: String,
    pub stderr_tail: String,
    pub retry: Option<RetryMetadata>,
}

/// How a run came to be retried.
#[derive(Debug)]
pub struct RetryMetadata {
    pub mode: String,
    pub previous_duration_ms: Option<u128>,
    pub previous_error: Option<String>,
}

/// One prompt to run, with the environment and directory to run it in.
#[derive(Debug)]
pub struct ExecRequest {
    pub prompt_id: String,
    pub prompt_text: String,
    pub env: BTreeMap<String, String>,
    pub cwd: String,
    pub runner: RunnerConfig,
}

impl ExecRequest {
    /// The request to run `case` in the environment `env`, from the
    /// directory `cwd`, under `runner`.
    pub fn for_case(
        case: &crate::config::PromptCase,
        env: BTreeMap<String, String>,
        cwd: &str,
        runner: &RunnerConfig,
    ) -> (r: Self)
        ensures
            r.prompt_id@ == case.id@,
            r.prompt_text@ == case.prompt@,
            r.env == env,
            r.cwd@ == cwd@,
            r.runner@ == runner@,
    {
        ExecRequest {
            prompt_id: case.id.clone(),
            prompt_text: case.prompt.clone(),
            env,
            cwd: cwd.to_owned(),
            runner: runner.copy(),
        }
    }
}

/// The final message of a run and what is known of the run.
#[derive(Debug)]
pub struct ExecResponse {
    pub response_text: String,
    pub metadata: ExecMetadata,
}

/// Something that can run a prompt: the CLI itself, or a stand-in.
pub trait CodexExecutor: Send + Sync {
    /// Runs `request` and reports its final message.
    fn execute(&self, request: ExecRequest) -> Result<ExecResponse, EvelinError>;
}

/// The value of a [`RetryMetadata`].
pub struct RetryModel {
    pub mode: Seq<char>,
    pub previous_duration_ms: Option<u128>,
    pub previous_error: Option<Seq<char>>,
}

/// The value of an [`ExecMetadata`].
pub struct MetaModel {
    pub return_code: i32,
    pub timed_out: bool,
    pub duration_ms: u128,
    pub error: Seq<char>,
    pub stdout_tail: Seq<char>,
    pub stderr_tail: Seq<char>,
    pub retry: Option<RetryModel>,
}

/// The value of an [`ExecResponse`].
pub struct ResponseModel {
    pub response_text: Seq<char>,
    pub metadata: MetaModel,
}

impl View for RetryMetadata {
    type V = RetryModel;

    open spec fn view(&self) -> RetryModel {
        RetryModel {
            mode: self.mode@,
            previous_duration_ms: self.previous_duration_ms,
            previous_error: self.previous_error.deep_view(),
        }
    }
}

/// The value of an optional [`RetryMetadata`].
pub open spec fn retry_view(r: Option<RetryMetadata>) -> Option<RetryModel> {
    match r {
        Some(m) => Some(m@),
        None => None,
    }
}

impl View for ExecMetadata {
    type V = MetaModel;

    open spec fn view(&self) -> MetaModel {
        MetaModel {
            return_code: self.return_code,
            timed_out: self.timed_out,
            duration_ms: self.duration_ms,
            error: self.error@,
            stdout_tail: self.stdout_tail@,
            stderr_tail: self.stderr_tail@,
            retry: retry_view(self.retry),
        }
    }
}

impl View for ExecResponse {
    type V = ResponseModel;

    open spec fn view(&self) -> ResponseModel {
        ResponseModel { response_text: self.response_text@, metadata: self.metadata@ }
    }
}

impl RetryMetadata {
    /// A copy of this record.
    pub fn copy(&self) -> (r: Self)
        ensures
            r@ == self@,
    {
        RetryMetadata {
            mode: self.mode.clone(),
            previous_duration_ms: self.previous_duration_ms,
            previous_error: crate::config::copy_opt_string(&self.previous_error),
        }
    }
}

impl ExecMetadata {
    /// A copy of this record.
    pub fn copy(&self) -> (r: Self)
        ensures
            r@ == self@,
    {
        ExecMetadata {
            return_code: self.return_code,
            timed_out: self.timed_out,
            duration_ms: self.duration_ms,
            error: self.error.clone(),
            stdout_tail: self.stdout_tail.clone(),
            stderr_tail: self.stderr_tail.clone(),
            retry: match &self.retry {
                Some(r) => Some(r.copy()),
                None => None,
            },
        }
    }
}

// ---------------------------------------------------------------------------
// Transient failures
// ---------------------------------------------------------------------------
/// The text searched for signs of a transient failure: the error, stderr
/// and stdout tails, space separated and lowercased.
pub open spec fn failure_haystack(m: MetaModel) -> Seq<char> {
    lower(m.error + " "@ + m.stderr_tail + " "@ + m.stdout_tail)
}

/// A failure is transient when its text mentions a dropped stream, a failed
/// model refresh, a failed request or a reconnect.
pub open spec fn spec_is_retryable(m: MetaModel) -> bool {
    let h = failure_haystack(m);
    ||| contains(h, "stream disconnected"@)
    ||| contains(h, "failed to refresh available models"@)
    ||| contains(h, "error sending request for url"@)
    ||| contains(h, "reconnecting..."@)
}

/// Whether the failure recorded in `metadata` looks transient.
pub fn is_retryable_codex_error(metadata: &ExecMetadata) -> (r: bool)
    ensures
        r == spec_is_retryable(metadata@),
{
    let first = cat3(metadata.error.as_str(), " ", metadata.stderr_tail.as_str());
    let joined = cat3(first.as_str(), " ", metadata.stdout_tail.as_str());
    let haystack = to_lower(joined.as_str());
    assert(joined@ =~= metadata.error@ + " "@ + metadata.stderr_tail@ + " "@
        + metadata.stdout_tail@);
    let h = haystack.as_str();
    contains_str(h, "stream disconnected") || contains_str(h, "failed to refresh available models")
        || contains_str(h, "error sending request for url") || contains_str(h, "reconnecting...")
}

// ---------------------------------------------------------------------------
// Reading a finished run
// ---------------------------------------------------------------------------
/// The kept end of a run's output.
pub open spec fn spec_tail(text: Seq<char>) -> Seq<char> {
    last_chars(text, OUTPUT_TAIL_CHARS as nat)
}

/// The last characters of a run's output, as many as are kept.
fn tail(text: &str) -> (r: String)
    ensures
        r@ == spec_tail(text@),
{
    let v = chars_of(text);
    if v.len() <= OUTPUT_TAIL_CHARS {
        string_of(v.as_slice())
    } else {
        let start = v.len() - OUTPUT_TAIL_CHARS;
        let sub = vstd::slice::slice_subrange(v.as_slice(), start, v.len());
        assert(sub@ =~= v@.skip(start as int));
        string_of(sub)
    }
}

/// The words of `s` joined by single spaces
/// (`s.split_whitespace().collect::<Vec<_>>().join(" ")`).
fn squeeze(s: &str) -> (r: String)
    ensures
        r@ == crate::text::squeeze(s@),
{
    let v = chars_of(s);
    let mut out = String::new();
    let mut started = false;
    let mut gap = false;
    let mut i: usize = 0;
    assert(v@.skip(0) =~= v@);
    while i < v.len()
        invariant
            i <= v.len(),
            v@ == s@,
            crate::text::squeeze(s@) == out@ + crate::text::squeeze_from(v@.skip(i as int), started, gap),
        decreases v.len() - i,
    {
        let c = v[i];
        assert(v@.skip(i as int).drop_first() =~= v@.skip(i + 1));
        assert(v@.skip(i as int)[0] == c);
        if is_whitespace(c) {
            gap = started;
        } else {
            let ghost before = out@;
            if gap {
                push_char(&mut out, ' ');
            }
            push_char(&mut out, c);
            proof {
                if gap {
                    assert(out@ =~= before + seq![' ', c]);
                } else {
                    assert(out@ =~= before + seq![c]);
                }
            }
            started = true;
            gap = false;
        }
        i += 1;
    }
    assert(v@.skip(i as int).len() == 0);
    assert(out@ + seq![] =~= out@);
    out
}

/// The error of a run that exited with `return_code`, without or with the
/// words of its stderr.
pub open spec fn spec_failure_message(return_code: i32, stderr: Seq<char>) -> Seq<char> {
    if is_blank(stderr) {
        "codex exec failed (rc="@ + signed_decimal(return_code as int) + ")"@
    } else {
        "codex exec failed (rc="@ + signed_decimal(return_code as int) + "): "@ + crate::text::squeeze(stderr)
    }
}

/// The error of a run that exited with `return_code` and wrote `stderr`.
pub fn failure_message(return_code: i32, stderr: &str) -> (r: String)
    ensures
        r@ == spec_failure_message(return_code, stderr@),
{
    let code = signed_decimal_string(return_code);
    if is_blank_str(stderr) {
        cat3("codex exec failed (rc=", code.as_str(), ")")
    } else {
        let head = cat3("codex exec failed (rc=", code.as_str(), "): ");
        let words = squeeze(stderr);
        cat(head.as_str(), words.as_str())
    }
}

/// What is known of a run that exited on its own with `return_code`.
pub open spec fn exited_model(
    return_code: i32,
    duration_ms: u128,
    stdout: Seq<char>,
    stderr: Seq<char>,
) -> MetaModel {
    MetaModel {
        return_code,
        timed_out: false,
        duration_ms,
        error: if return_code != 0 {
            spec_failure_message(return_code, stderr)
        } else {
            seq![]
        },
        stdout_tail: spec_tail(stdout),
        stderr_tail: spec_tail(stderr),
        retry: None,
    }
}

/// The metadata of a run that exited with `return_code` after
/// `duration_ms`, having written `stdout` and `stderr`.
pub fn exited_metadata(return_code: i32, duration_ms: u128, stdout: &str, stderr: &str) -> (r:
    ExecMetadata)
    ensures
        r@ == exited_model(return_code, duration_ms, stdout@, stderr@),
{
    let error = if return_code != 0 {
        failure_message(return_code, stderr)
    } else {
        String::new()
    };
    ExecMetadata {
        return_code,
        timed_out: false,
        duration_ms,
        error,
        stdout_tail: tail(stdout),
        stderr_tail: tail(stderr),
        retry: None,
    }
}

/// The error of a run stopped after `timeout_seconds`.
pub open spec fn spec_timeout_message(timeout_seconds: u64) -> Seq<char> {
    "codex exec timeout after "@ + crate::text::decimal(timeout_seconds as nat) + "s"@
}

/// What is known of a run stopped after `timeout_seconds`.
pub open spec fn timed_out_model(duration_ms: u128, timeout_seconds: u64) -> MetaModel {
    MetaModel {
        return_code: TIMEOUT_RETURN_CODE,
        timed_out: true,
        duration_ms,
        error: spec_timeout_message(timeout_seconds),
        stdout_tail: seq![],
        stderr_tail: seq![],
        retry: None,
    }
}

/// The metadata of a run stopped after `timeout_seconds`, `duration_ms`
/// after it started.
pub fn timed_out_metadata(duration_ms: u128, timeout_seconds: u64) -> (r: ExecMetadata)
    ensures
        r@ == timed_out_model(duration_ms, timeout_seconds),
{
    let seconds = crate::text::decimal_string(timeout_seconds as u128);
    ExecMetadata {
        return_code: TIMEOUT_RETURN_CODE,
        timed_out: true,
        duration_ms,
        error: cat3("codex exec timeout after ", seconds.as_str(), "s"),
        stdout_tail: String::new(),
        stderr_tail: String::new(),
        retry: None,
    }
}

/// The response of a run whose last-message file read `output`: the text
/// trimmed, and a failed run that left neither text nor error is given the
/// plain failure message.
pub open spec fn response_model(output: Seq<char>, m: MetaModel) -> ResponseModel {
    let text = trim(output);
    ResponseModel {
        response_text: text,
        metadata: if text.len() == 0 && m.error.len() == 0 && m.return_code != 0 {
            MetaModel { error: spec_failure_message(m.return_code, seq![]), ..m }
        } else {
            m
        },
    }
}

/// The response of a run whose last-message file read `output` (empty when
/// it could not be read).
pub fn finish_exec_response(output: &str, metadata: ExecMetadata) -> (r: ExecResponse)
    ensures
        r@ == response_model(output@, metadata@),
{
    let response_text = trim_str(output);
    let mut metadata = metadata;
    if response_text.as_str().is_empty() && metadata.error.as_str().is_empty() && metadata.return_code != 0 {
        proof {
            reveal_strlit("");
            assert(is_blank(""@));
        }
        metadata.error = failure_message(metadata.return_code, "");
    }
    ExecResponse { response_text, metadata }
}

// ---------------------------------------------------------------------------
// The command line
// ---------------------------------------------------------------------------
/// `--model <model>` when a non-blank model is set.
pub open spec fn model_args(model: Option<Seq<char>>) -> Seq<Seq<char>> {
    match model {
        Some(m) => if !is_blank(m) {
            seq!["--model"@, m]
        } else {
            seq![]
        },
        None => seq![],
    }
}

/// `-c model_reasoning_effort="<effort>"` when a non-blank effort is set.
pub open spec fn effort_args(effort: Option<Seq<char>>) -> Seq<Seq<char>> {
    match effort {
        Some(e) => if !is_blank(e) {
            seq!["-c"@, "model_reasoning_effort=\""@ + e + "\""@]
        } else {
            seq![]
        },
        None => seq![],
    }
}

/// The arguments of `codex` for one run: a one-off, uncoloured `exec` in the
/// configured sandbox that writes its last message to `output_path`, the
/// model and reasoning effort when set, the extra arguments, then the prompt.
pub open spec fn spec_exec_args(
    runner: SettingsModel,
    output_path: Seq<char>,
    prompt: Seq<char>,
) -> Seq<Seq<char>> {
    seq![
        "exec"@,
        "--ephemeral"@,
        "--color"@,
        "never"@,
        "--sandbox"@,
        runner.codex_sandbox,
        "--output-last-message"@,
        output_path,
    ] + model_args(runner.codex_model) + effort_args(runner.codex_reasoning_effort)
        + runner.codex_extra_args + seq![prompt]
}

fn push_owned(v: &mut Vec<String>, s: &str)
    ensures
        final(v).deep_view() == old(v).deep_view().push(s@),
{
    let ghost before = v.deep_view();
    v.push(s.to_owned());
    assert(v.deep_view() =~= before.push(s@));
}

/// The arguments of `codex` for a run of `prompt` under `runner` that writes
/// its last message to `output_path`.
pub fn codex_exec_args(runner: &RunnerConfig, output_path: &str, prompt: &str) -> (r: Vec<
    String,
>)
    ensures
        r.deep_view() == spec_exec_args(runner@, output_path@, prompt@),
{
    let mut args: Vec<String> = Vec::new();
    push_owned(&mut args, "exec");
    push_owned(&mut args, "--ephemeral");
    push_owned(&mut args, "--color");
    push_owned(&mut args, "never");
    push_owned(&mut args, "--sandbox");
    push_owned(&mut args, runner.codex_sandbox.as_str());
    push_owned(&mut args, "--output-last-message");
    push_owned(&mut args, output_path);
    let ghost base = args.deep_view();
    if let Some(model) = &runner.codex_model {
        if !is_blank_str(model.as_str()) {
            push_owned(&mut args, "--model");
            push_owned(&mut args, model.as_str());
        }
    }
    assert(args.deep_view() =~= base + model_args(runner@.codex_model));
    let ghost with_model = args.deep_view();
    if let Some(effort) = &runner.codex_reasoning_effort {
        if !is_blank_str(effort.as_str()) {
            push_owned(&mut args, "-c");
            let setting = cat3("model_reasoning_effort=\"", effort.as_str(), "\"");
            push_owned(&mut args, setting.as_str());
        }
    }
    assert(args.deep_view() =~= with_model + effort_args(runner@.codex_reasoning_effort));
    let ghost with_effort = args.deep_view();
    let mut extra = copy_strings(&runner.codex_extra_args);
    let ghost extra_view = extra.deep_view();
    args.append(&mut extra);
    assert(args.deep_view() =~= with_effort + extra_view);
    push_owned(&mut args, prompt);
    assert(args.deep_view() =~= spec_exec_args(runner@, output_path@, prompt@));
    args
}

// ---------------------------------------------------------------------------
// Isolated CLI homes
// ---------------------------------------------------------------------------
/// The directory isolated CLI homes are made in: the configured one, else
/// `codex-evals` in the system's temporary directory `temp_dir`.
pub open spec fn spec_home_base_dir(runner: SettingsModel, temp_dir: Seq<char>) -> Seq<char> {
    match runner.codex_home_base_dir {
        Some(p) => p,
        None => path_join(temp_dir, "codex-evals"@),
    }
}

/// The directory isolated CLI homes are made in, given the system's
/// temporary directory `temp_dir`.
pub fn codex_home_base_dir(runner: &RunnerConfig, temp_dir: &str) -> (r: String)
    ensures
        r@ == spec_home_base_dir(runner@, temp_dir@),
{
    match &runner.codex_home_base_dir {
        Some(p) => p.clone(),
        None => join_path(temp_dir, "codex-evals"),
    }
}

/// The user's own CLI home: `CODEX_HOME` when set, else `.codex` in `HOME`
/// (or in the working directory when `HOME` is unset).
pub open spec fn spec_default_codex_home(
    codex_home: Option<Seq<char>>,
    home: Option<Seq<char>>,
) -> Seq<char> {
    match codex_home {
        Some(c) => c,
        None => path_join(
            match home {
                Some(h) => h,
                None => "."@,
            },
            ".codex"@,
        ),
    }
}

/// The user's own CLI home, given the values of `CODEX_HOME` and `HOME`.
pub fn default_codex_home(codex_home: Option<&str>, home: Option<&str>) -> (r: String)
    ensures
        r@ == spec_default_codex_home(
            crate::config::opt_text(codex_home),
            crate::config::opt_text(home),
        ),
{
    match codex_home {
        Some(c) => c.to_owned(),
        None => match home {
            Some(h) => join_path(h, ".codex"),
            None => join_path(".", ".codex"),
        },
    }
}

/// The name prefix of the temporary directory of a suite run of `skill`'s
/// eval `eval_name` (`eval` when unnamed); `None` when a name cannot be
/// cleaned.
pub open spec fn spec_suite_dir_prefix(skill: Seq<char>, eval_name: Option<Seq<char>>) -> Option<
    Seq<char>,
> {
    let name = match eval_name {
        Some(n) => n,
        None => "eval"@,
    };
    match (spec_sanitize_name(skill), spec_sanitize_name(name)) {
        (Some(s), Some(e)) => Some("codex-eval-"@ + s + "-"@ + e + "-"@),
        _ => None,
    }
}

/// The name prefix of the temporary directory of a suite run.
pub fn suite_dir_prefix(skill: &str, eval_name: Option<&str>) -> (r: Option<String>)
    ensures
        r.deep_view() == spec_suite_dir_prefix(skill@, crate::config::opt_text(eval_name)),
{
    let name = match eval_name {
        Some(n) => n,
        None => "eval",
    };
    let s = match sanitize_name(skill) {
        Some(s) => s,
        None => {
            return None;
        },
    };
    let e = match sanitize_name(name) {
        Some(e) => e,
        None => {
            return None;
        },
    };
    let head = cat3("codex-eval-", s.as_str(), "-");
    let r = cat3(head.as_str(), e.as_str(), "-");
    assert(r@ =~= "codex-eval-"@ + s@ + "-"@ + e@ + "-"@);
    Some(r)
}

/// The name prefix of the temporary CLI home of the case `prompt_id`;
/// `None` when the id cannot be cleaned.
pub open spec fn spec_case_dir_prefix(prompt_id: Seq<char>) -> Option<Seq<char>> {
    match spec_sanitize_name(prompt_id) {
        Some(s) => Some("case-"@ + s + "-"@),
        None => None,
    }
}

/// The name prefix of the temporary CLI home of a case.
pub fn case_dir_prefix(prompt_id: &str) -> (r: Option<String>)
    ensures
        r.deep_view() == spec_case_dir_prefix(prompt_id@),
{
    match sanitize_name(prompt_id) {
        Some(s) => Some(cat3("case-", s.as_str(), "-")),
        None => None,
    }
}

/// The directory of the skill copied into an isolated home: the parent of
/// the resolved `skill_path`, which must exist.
pub open spec fn spec_isolated_skill_dir(skill_path: Seq<char>, exists: bool) -> Result<
    Seq<char>,
    ErrorModel,
> {
    match path_parent(skill_path) {
        None => Err(msg("skill_path has no parent: "@ + skill_path)),
        Some(dir) => if !exists {
            Err(msg("Skill eval isolation requires existing skill_path: "@ + skill_path))
        } else {
            Ok(dir)
        },
    }
}

/// The directory of the skill to copy into an isolated home, given the
/// resolved `skill_path` and whether it exists.
pub fn isolated_skill_dir(skill_path: &str, exists: bool) -> (r: Result<String, EvelinError>)
    ensures
        crate::error::res_view(r) == spec_isolated_skill_dir(skill_path@, exists),
{
    match parent_path(skill_path) {
        None => Err(EvelinError::Message(cat("skill_path has no parent: ", skill_path))),
        Some(dir) => if !exists {
            Err(
                EvelinError::Message(
                    cat("Skill eval isolation requires existing skill_path: ", skill_path),
                ),
            )
        } else {
            Ok(dir)
        },
    }
}

} // verus!
