//! Eval configuration: suite configs, runner defaults and their layering.
use vstd::prelude::*;

use crate::error::{msg, res_deep, res_view, ErrorModel, EvelinError};
use crate::document::{join_path, path_join};
use crate::json::{get, lookup, Json, JsonNumber};
use crate::text::{cat, cat3, is_blank, is_blank_str};

verus! {

// ---------------------------------------------------------------------------
// Runner defaults, patches and their layering
// ---------------------------------------------------------------------------
/// The kind of asset an eval config tests.
#[derive(Debug, Clone, Copy, PartialEq, Eq, Structural)]
pub enum EvalType {
    Skill,
}

impl EvalType {
    /// The name of the eval type in configuration files.
    pub open spec fn name(self) -> Seq<char> {
        match self {
            EvalType::Skill => "skill"@,
        }
    }

    /// The name of the eval type in configuration files.
    pub fn as_str(&self) -> (r: &'static str)
        ensures
            r@ == self.name(),
    {
        match self {
            EvalType::Skill => "skill",
        }
    }
}

/// Built-in runner settings, before any configuration file is applied.
#[derive(Debug)]
pub struct RunnerDefaults {
    pub max_concurrency: usize,
    pub codex_timeout_seconds: u64,
    pub codex_sandbox: String,
    pub codex_model: Option<String>,
    pub codex_reasoning_effort: Option<String>,
    pub codex_extra_args: Vec<String>,
    pub codex_isolation: bool,
    pub codex_home_base_dir: Option<String>,
}

/// A partial set of runner settings; `None` leaves a setting alone.
#[derive(Debug)]
pub struct RunnerDefaultsPatch {
    pub max_concurrency: Option<usize>,
    pub codex_timeout_seconds: Option<u64>,
    pub codex_sandbox: Option<String>,
    pub codex_model: Option<String>,
    pub codex_reasoning_effort: Option<String>,
    pub codex_extra_args: Option<Vec<String>>,
    pub codex_isolation: Option<bool>,
    pub codex_home_base_dir: Option<String>,
}

/// The runner settings an eval runs with.
#[derive(Debug)]
pub struct RunnerConfig {
    pub max_concurrency: usize,
    pub codex_timeout_seconds: u64,
    pub codex_sandbox: String,
    pub codex_model: Option<String>,
    pub codex_reasoning_effort: Option<String>,
    pub codex_extra_args: Vec<String>,
    pub codex_isolation: bool,
    pub codex_home_base_dir: Option<String>,
}

/// The value of a full set of runner settings.
pub struct SettingsModel {
    pub max_concurrency: usize,
    pub codex_timeout_seconds: u64,
    pub codex_sandbox: Seq<char>,
    pub codex_model: Option<Seq<char>>,
    pub codex_reasoning_effort: Option<Seq<char>>,
    pub codex_extra_args: Seq<Seq<char>>,
    pub codex_isolation: bool,
    pub codex_home_base_dir: Option<Seq<char>>,
}

/// The value of a partial set of runner settings.
pub struct PatchModel {
    pub max_concurrency: Option<usize>,
    pub codex_timeout_seconds: Option<u64>,
    pub codex_sandbox: Option<Seq<char>>,
    pub codex_model: Option<Seq<char>>,
    pub codex_reasoning_effort: Option<Seq<char>>,
    pub codex_extra_args: Option<Seq<Seq<char>>>,
    pub codex_isolation: Option<bool>,
    pub codex_home_base_dir: Option<Seq<char>>,
}

impl View for RunnerDefaults {
    type V = SettingsModel;

    open spec fn view(&self) -> SettingsModel {
        SettingsModel {
            max_concurrency: self.max_concurrency,
            codex_timeout_seconds: self.codex_timeout_seconds,
            codex_sandbox: self.codex_sandbox@,
            codex_model: self.codex_model.deep_view(),
            codex_reasoning_effort: self.codex_reasoning_effort.deep_view(),
            codex_extra_args: self.codex_extra_args.deep_view(),
            codex_isolation: self.codex_isolation,
            codex_home_base_dir: self.codex_home_base_dir.deep_view(),
        }
    }
}

impl View for RunnerConfig {
    type V = SettingsModel;

    open spec fn view(&self) -> SettingsModel {
        SettingsModel {
            max_concurrency: self.max_concurrency,
            codex_timeout_seconds: self.codex_timeout_seconds,
            codex_sandbox: self.codex_sandbox@,
            codex_model: self.codex_model.deep_view(),
            codex_reasoning_effort: self.codex_reasoning_effort.deep_view(),
            codex_extra_args: self.codex_extra_args.deep_view(),
            codex_isolation: self.codex_isolation,
            codex_home_base_dir: self.codex_home_base_dir.deep_view(),
        }
    }
}

impl View for RunnerDefaultsPatch {
    type V = PatchModel;

    open spec fn view(&self) -> PatchModel {
        PatchModel {
            max_concurrency: self.max_concurrency,
            codex_timeout_seconds: self.codex_timeout_seconds,
            codex_sandbox: self.codex_sandbox.deep_view(),
            codex_model: self.codex_model.deep_view(),
            codex_reasoning_effort: self.codex_reasoning_effort.deep_view(),
            codex_extra_args: self.codex_extra_args.deep_view(),
            codex_isolation: self.codex_isolation,
            codex_home_base_dir: self.codex_home_base_dir.deep_view(),
        }
    }
}

/// The built-in runner settings.
pub open spec fn builtin_defaults() -> SettingsModel {
    SettingsModel {
        max_concurrency: 3,
        codex_timeout_seconds: 180,
        codex_sandbox: "read-only"@,
        codex_model: None,
        codex_reasoning_effort: None,
        codex_extra_args: seq![],
        codex_isolation: false,
        codex_home_base_dir: None,
    }
}

/// The patch that sets nothing.
pub open spec fn empty_patch() -> PatchModel {
    PatchModel {
        max_concurrency: None,
        codex_timeout_seconds: None,
        codex_sandbox: None,
        codex_model: None,
        codex_reasoning_effort: None,
        codex_extra_args: None,
        codex_isolation: None,
        codex_home_base_dir: None,
    }
}

/// `later` if it is set, else `earlier`.
pub open spec fn prefer<T>(later: Option<T>, earlier: Option<T>) -> Option<T> {
    if later is Some {
        later
    } else {
        earlier
    }
}

/// A set value overrides; `None` keeps what was there.
pub open spec fn override_with<T>(value: Option<T>, current: T) -> T {
    match value {
        Some(v) => v,
        None => current,
    }
}

/// An optional text setting: a set blank text clears it, another set text
/// replaces it, `None` keeps it.
pub open spec fn override_text(value: Option<Seq<char>>, current: Option<Seq<char>>) -> Option<
    Seq<char>,
> {
    match value {
        Some(v) => if is_blank(v) {
            None
        } else {
            Some(v)
        },
        None => current,
    }
}

/// The patch `later` laid over the patch `earlier`: each setting of `later`
/// that is set wins.
pub open spec fn merge(earlier: PatchModel, later: PatchModel) -> PatchModel {
    PatchModel {
        max_concurrency: prefer(later.max_concurrency, earlier.max_concurrency),
        codex_timeout_seconds: prefer(later.codex_timeout_seconds, earlier.codex_timeout_seconds),
        codex_sandbox: prefer(later.codex_sandbox, earlier.codex_sandbox),
        codex_model: prefer(later.codex_model, earlier.codex_model),
        codex_reasoning_effort: prefer(later.codex_reasoning_effort, earlier.codex_reasoning_effort),
        codex_extra_args: prefer(later.codex_extra_args, earlier.codex_extra_args),
        codex_isolation: prefer(later.codex_isolation, earlier.codex_isolation),
        codex_home_base_dir: prefer(later.codex_home_base_dir, earlier.codex_home_base_dir),
    }
}

/// The settings `d` with the patch `p` applied.
pub open spec fn apply(p: PatchModel, d: SettingsModel) -> SettingsModel {
    SettingsModel {
        max_concurrency: override_with(p.max_concurrency, d.max_concurrency),
        codex_timeout_seconds: override_with(p.codex_timeout_seconds, d.codex_timeout_seconds),
        codex_sandbox: override_with(p.codex_sandbox, d.codex_sandbox),
        codex_model: override_text(p.codex_model, d.codex_model),
        codex_reasoning_effort: override_text(p.codex_reasoning_effort, d.codex_reasoning_effort),
        codex_extra_args: override_with(p.codex_extra_args, d.codex_extra_args),
        codex_isolation: override_with(p.codex_isolation, d.codex_isolation),
        codex_home_base_dir: override_text(p.codex_home_base_dir, d.codex_home_base_dir),
    }
}

impl Default for RunnerDefaults {
    fn default() -> (r: Self)
        ensures
            r@ == builtin_defaults(),
    {
        let r = RunnerDefaults {
            max_concurrency: 3,
            codex_timeout_seconds: 180,
            codex_sandbox: "read-only".to_owned(),
            codex_model: None,
            codex_reasoning_effort: None,
            codex_extra_args: Vec::new(),
            codex_isolation: false,
            codex_home_base_dir: None,
        };
        assert(r.codex_extra_args.deep_view() =~= seq![]);
        r
    }
}

/// A copy of an optional text.
pub fn copy_opt_string(o: &Option<String>) -> (r: Option<String>)
    ensures
        r.deep_view() == o.deep_view(),
{
    match o {
        Some(s) => Some(s.clone()),
        None => None,
    }
}

/// A copy of a list of texts.
pub fn copy_strings(v: &Vec<String>) -> (r: Vec<String>)
    ensures
        r.deep_view() == v.deep_view(),
{
    let mut out: Vec<String> = Vec::new();
    let mut i: usize = 0;
    while i < v.len()
        invariant
            i <= v@.len(),
            out.deep_view() =~= v.deep_view().take(i as int),
        decreases v.len() - i,
    {
        let s = v[i].clone();
        let ghost before = out.deep_view();
        out.push(s);
        assert(out.deep_view() =~= before.push(v@[i as int]@));
        i += 1;
    }
    assert(v.deep_view().take(v@.len() as int) =~= v.deep_view());
    out
}

/// A copy of an optional list of texts.
pub fn copy_opt_strings(o: &Option<Vec<String>>) -> (r: Option<Vec<String>>)
    ensures
        r.deep_view() == o.deep_view(),
{
    match o {
        Some(v) => Some(copy_strings(v)),
        None => None,
    }
}

/// An optional text setting after a patch value: blank clears it.
fn text_setting(value: &String) -> (r: Option<String>)
    ensures
        r.deep_view() == override_text(Some(value@), None),
{
    if is_blank_str(value.as_str()) {
        None
    } else {
        Some(value.clone())
    }
}

impl RunnerDefaultsPatch {
    /// The patch that sets nothing.
    pub fn empty() -> (r: Self)
        ensures
            r@ == empty_patch(),
    {
        RunnerDefaultsPatch {
            max_concurrency: None,
            codex_timeout_seconds: None,
            codex_sandbox: None,
            codex_model: None,
            codex_reasoning_effort: None,
            codex_extra_args: None,
            codex_isolation: None,
            codex_home_base_dir: None,
        }
    }

    /// A copy of the patch.
    pub fn copy(&self) -> (r: Self)
        ensures
            r@ == self@,
    {
        RunnerDefaultsPatch {
            max_concurrency: self.max_concurrency,
            codex_timeout_seconds: self.codex_timeout_seconds,
            codex_sandbox: copy_opt_string(&self.codex_sandbox),
            codex_model: copy_opt_string(&self.codex_model),
            codex_reasoning_effort: copy_opt_string(&self.codex_reasoning_effort),
            codex_extra_args: copy_opt_strings(&self.codex_extra_args),
            codex_isolation: self.codex_isolation,
            codex_home_base_dir: copy_opt_string(&self.codex_home_base_dir),
        }
    }

    /// Applies the settings this patch sets to `defaults`.
    pub fn apply_to(&self, defaults: &mut RunnerDefaults)
        ensures
            final(defaults)@ == apply(self@, old(defaults)@),
    {
        if let Some(value) = self.max_concurrency {
            defaults.max_concurrency = value;
        }
        if let Some(value) = self.codex_timeout_seconds {
            defaults.codex_timeout_seconds = value;
        }
        if let Some(value) = &self.codex_sandbox {
            defaults.codex_sandbox = value.clone();
        }
        if let Some(value) = &self.codex_model {
            defaults.codex_model = text_setting(value);
        }
        if let Some(value) = &self.codex_reasoning_effort {
            defaults.codex_reasoning_effort = text_setting(value);
        }
        if let Some(value) = &self.codex_extra_args {
            defaults.codex_extra_args = copy_strings(value);
        }
        if let Some(value) = self.codex_isolation {
            defaults.codex_isolation = value;
        }
        if let Some(value) = &self.codex_home_base_dir {
            defaults.codex_home_base_dir = text_setting(value);
        }
    }

    /// Lays `other` over this patch: every setting `other` sets wins.
    pub fn merge_from(&mut self, other: &Self)
        ensures
            final(self)@ == merge(old(self)@, other@),
    {
        if other.max_concurrency.is_some() {
            self.max_concurrency = other.max_concurrency;
        }
        if other.codex_timeout_seconds.is_some() {
            self.codex_timeout_seconds = other.codex_timeout_seconds;
        }
        if let Some(value) = &other.codex_sandbox {
            self.codex_sandbox = Some(value.clone());
        }
        if let Some(value) = &other.codex_model {
            self.codex_model = Some(value.clone());
        }
        if let Some(value) = &other.codex_reasoning_effort {
            self.codex_reasoning_effort = Some(value.clone());
        }
        if let Some(value) = &other.codex_extra_args {
            self.codex_extra_args = Some(copy_strings(value));
        }
        if other.codex_isolation.is_some() {
            self.codex_isolation = other.codex_isolation;
        }
        if let Some(value) = &other.codex_home_base_dir {
            self.codex_home_base_dir = Some(value.clone());
        }
    }
}

/// Whether a sandbox name is one that codex accepts.
pub open spec fn valid_sandbox(s: Seq<char>) -> bool {
    s == "read-only"@ || s == "workspace-write"@ || s == "danger-full-access"@
}

/// The first setting of `c` that is out of bounds, as an error; none when all
/// are valid.
pub open spec fn runner_config_problem(c: SettingsModel) -> Option<ErrorModel> {
    if c.max_concurrency == 0 {
        Some(msg("Effective runtime config field 'max_concurrency' must be >= 1"@))
    } else if c.codex_timeout_seconds == 0 {
        Some(msg("Effective runtime config field 'codex_timeout_seconds' must be >= 1"@))
    } else if !valid_sandbox(c.codex_sandbox) {
        Some(msg("Effective runtime config field 'codex_sandbox' is invalid"@))
    } else {
        None
    }
}

impl RunnerConfig {
    /// A copy of these settings.
    pub fn copy(&self) -> (r: Self)
        ensures
            r@ == self@,
    {
        RunnerConfig {
            max_concurrency: self.max_concurrency,
            codex_timeout_seconds: self.codex_timeout_seconds,
            codex_sandbox: self.codex_sandbox.clone(),
            codex_model: copy_opt_string(&self.codex_model),
            codex_reasoning_effort: copy_opt_string(&self.codex_reasoning_effort),
            codex_extra_args: copy_strings(&self.codex_extra_args),
            codex_isolation: self.codex_isolation,
            codex_home_base_dir: copy_opt_string(&self.codex_home_base_dir),
        }
    }

    /// Checks that the settings are usable.
    pub fn validate(&self) -> (r: Result<(), EvelinError>)
        ensures
            match (r, runner_config_problem(self@)) {
                (Ok(_), None) => true,
                (Err(e), Some(p)) => e@ == p,
                _ => false,
            },
    {
        if self.max_concurrency == 0 {
            return Err(
                EvelinError::message(
                    "Effective runtime config field 'max_concurrency' must be >= 1",
                ),
            );
        }
        if self.codex_timeout_seconds == 0 {
            return Err(
                EvelinError::message(
                    "Effective runtime config field 'codex_timeout_seconds' must be >= 1",
                ),
            );
        }
        let s = self.codex_sandbox.as_str();
        if !(crate::text::str_eq(s, "read-only") || crate::text::str_eq(s, "workspace-write")
            || crate::text::str_eq(s, "danger-full-access")) {
            return Err(
                EvelinError::message("Effective runtime config field 'codex_sandbox' is invalid"),
            );
        }
        Ok(())
    }
}

// ---------------------------------------------------------------------------
// Laws of the layering
// ---------------------------------------------------------------------------
/// Applying a merged patch is applying its two parts one after the other.
pub proof fn law_apply_merge(earlier: PatchModel, later: PatchModel, d: SettingsModel)
    ensures
        apply(merge(earlier, later), d) == apply(later, apply(earlier, d)),
{
}

/// Merging patches is associative.
pub proof fn law_merge_associative(a: PatchModel, b: PatchModel, c: PatchModel)
    ensures
        merge(merge(a, b), c) == merge(a, merge(b, c)),
{
}

/// The empty patch is neutral for merging, on either side.
pub proof fn law_merge_empty(p: PatchModel)
    ensures
        merge(p, empty_patch()) == p,
        merge(empty_patch(), p) == p,
{
}

/// Applying the empty patch changes nothing.
pub proof fn law_apply_empty(d: SettingsModel)
    ensures
        apply(empty_patch(), d) == d,
{
}

/// Applying the same patch twice is applying it once.
pub proof fn law_apply_idempotent(p: PatchModel, d: SettingsModel)
    ensures
        apply(p, apply(p, d)) == apply(p, d),
{
}

/// A patch merged with itself is the patch.
pub proof fn law_merge_idempotent(p: PatchModel)
    ensures
        merge(p, p) == p,
{
}

// ---------------------------------------------------------------------------
// Reading settings out of documents
// ---------------------------------------------------------------------------
/// The error of a result, if it failed.
pub open spec fn err_of<T>(r: Result<T, ErrorModel>) -> Option<ErrorModel> {
    match r {
        Ok(_) => None,
        Err(e) => Some(e),
    }
}

/// The first error among checks made in order.
pub open spec fn first_error(errs: Seq<Option<ErrorModel>>) -> Option<ErrorModel>
    decreases errs.len(),
{
    if errs.len() == 0 {
        None
    } else if errs[0] is Some {
        errs[0]
    } else {
        first_error(errs.drop_first())
    }
}

/// The message "field '<key>'<rest>".
pub open spec fn field_msg(key: Seq<char>, rest: Seq<char>) -> ErrorModel {
    msg("field '"@ + key + rest)
}

/// What `required_string` reads: a non-blank string.
pub open spec fn spec_required_string(obj: Seq<(String, Json)>, key: Seq<char>) -> Result<
    Seq<char>,
    ErrorModel,
> {
    match lookup(obj, key) {
        None => Err(msg("missing required field '"@ + key + "'"@)),
        Some(v) => match v.str_of() {
            None => Err(field_msg(key, "' must be a string"@)),
            Some(s) => if is_blank(s) {
                Err(field_msg(key, "' must not be empty"@))
            } else {
                Ok(s)
            },
        },
    }
}

/// What `required_f64` reads: any number.
pub open spec fn spec_required_number(obj: Seq<(String, Json)>, key: Seq<char>) -> Result<
    JsonNumber,
    ErrorModel,
> {
    match lookup(obj, key) {
        Some(Json::Number(n)) => Ok(n),
        _ => Err(field_msg(key, "' must be a number"@)),
    }
}

/// What `optional_string` reads.
pub open spec fn spec_optional_string(obj: Seq<(String, Json)>, key: Seq<char>) -> Result<
    Option<Seq<char>>,
    ErrorModel,
> {
    match lookup(obj, key) {
        None => Ok(None),
        Some(v) => match v.str_of() {
            Some(s) => Ok(Some(s)),
            None => Err(field_msg(key, "' must be a string"@)),
        },
    }
}

/// What `optional_bool` reads.
pub open spec fn spec_optional_bool(obj: Seq<(String, Json)>, key: Seq<char>) -> Result<
    Option<bool>,
    ErrorModel,
> {
    match lookup(obj, key) {
        None => Ok(None),
        Some(v) => match v.bool_of() {
            Some(b) => Ok(Some(b)),
            None => Err(field_msg(key, "' must be a boolean"@)),
        },
    }
}

/// What `optional_u64` reads.
pub open spec fn spec_optional_u64(obj: Seq<(String, Json)>, key: Seq<char>) -> Result<
    Option<u64>,
    ErrorModel,
> {
    match lookup(obj, key) {
        None => Ok(None),
        Some(v) => match v.u64_of() {
            Some(n) => Ok(Some(n)),
            None => Err(field_msg(key, "' must be an integer"@)),
        },
    }
}

/// What `optional_usize` reads.
pub open spec fn spec_optional_usize(obj: Seq<(String, Json)>, key: Seq<char>) -> Result<
    Option<usize>,
    ErrorModel,
> {
    match spec_optional_u64(obj, key) {
        Ok(Some(n)) => Ok(Some(n as usize)),
        Ok(None) => Ok(None),
        Err(e) => Err(e),
    }
}

/// The texts of `items`, if every item is a string.
pub open spec fn texts_of(items: Seq<Json>) -> Option<Seq<Seq<char>>>
    decreases items.len(),
{
    if items.len() == 0 {
        Some(seq![])
    } else {
        match (items[0].str_of(), texts_of(items.drop_first())) {
            (Some(s), Some(rest)) => Some(seq![s] + rest),
            _ => None,
        }
    }
}

/// What `optional_string_list` reads.
pub open spec fn spec_optional_string_list(obj: Seq<(String, Json)>, key: Seq<char>) -> Result<
    Option<Seq<Seq<char>>>,
    ErrorModel,
> {
    match lookup(obj, key) {
        None => Ok(None),
        Some(v) => match v.array_of() {
            None => Err(field_msg(key, "' must be an array"@)),
            Some(items) => match texts_of(items) {
                Some(t) => Ok(Some(t)),
                None => Err(field_msg(key, "' must contain only strings"@)),
            },
        },
    }
}

fn field_error(key: &str, rest: &str) -> (r: EvelinError)
    ensures
        r@ == field_msg(key@, rest@),
{
    EvelinError::Message(cat3("field '", key, rest))
}

/// Reads the non-blank string stored under `key`.
pub fn required_string(obj: &Vec<(String, Json)>, key: &str) -> (r: Result<String, EvelinError>)
    ensures
        res_deep(r) == spec_required_string(obj@, key@),
{
    match get(obj, key) {
        None => Err(EvelinError::Message(cat3("missing required field '", key, "'"))),
        Some(v) => match v.as_str() {
            None => Err(field_error(key, "' must be a string")),
            Some(s) => {
                if is_blank_str(s) {
                    Err(field_error(key, "' must not be empty"))
                } else {
                    Ok(s.to_owned())
                }
            },
        },
    }
}

/// Reads the number stored under `key`.
pub fn required_number(obj: &Vec<(String, Json)>, key: &str) -> (r: Result<
    JsonNumber,
    EvelinError,
>)
    ensures
        match (r, spec_required_number(obj@, key@)) {
            (Ok(a), Ok(b)) => a == b,
            (Err(e), Err(f)) => e@ == f,
            _ => false,
        },
{
    match get(obj, key) {
        Some(Json::Number(n)) => Ok(*n),
        _ => Err(field_error(key, "' must be a number")),
    }
}

/// Reads the string stored under `key`, if there is one.
pub fn optional_string(obj: &Vec<(String, Json)>, key: &str) -> (r: Result<
    Option<String>,
    EvelinError,
>)
    ensures
        res_deep(r) == spec_optional_string(obj@, key@),
{
    match get(obj, key) {
        None => Ok(None),
        Some(v) => match v.as_str() {
            Some(s) => Ok(Some(s.to_owned())),
            None => Err(field_error(key, "' must be a string")),
        },
    }
}

/// Reads the boolean stored under `key`, if there is one.
pub fn optional_bool(obj: &Vec<(String, Json)>, key: &str) -> (r: Result<
    Option<bool>,
    EvelinError,
>)
    ensures
        res_deep(r) == spec_optional_bool(obj@, key@),
{
    match get(obj, key) {
        None => Ok(None),
        Some(v) => match v.as_bool() {
            Some(b) => Ok(Some(b)),
            None => Err(field_error(key, "' must be a boolean")),
        },
    }
}

/// Reads the unsigned integer stored under `key`, if there is one.
pub fn optional_u64(obj: &Vec<(String, Json)>, key: &str) -> (r: Result<
    Option<u64>,
    EvelinError,
>)
    ensures
        res_deep(r) == spec_optional_u64(obj@, key@),
{
    match get(obj, key) {
        None => Ok(None),
        Some(v) => match v.as_u64() {
            Some(n) => Ok(Some(n)),
            None => Err(field_error(key, "' must be an integer")),
        },
    }
}

/// Reads the unsigned integer stored under `key`, if there is one, as a
/// `usize`.
pub fn optional_usize(obj: &Vec<(String, Json)>, key: &str) -> (r: Result<
    Option<usize>,
    EvelinError,
>)
    ensures
        res_deep(r) == spec_optional_usize(obj@, key@),
{
    match optional_u64(obj, key) {
        Ok(Some(n)) => Ok(Some(n as usize)),
        Ok(None) => Ok(None),
        Err(e) => Err(e),
    }
}

/// The texts of `items`, if every item is a string.
pub fn texts(items: &Vec<Json>) -> (r: Option<Vec<String>>)
    ensures
        r.deep_view() == texts_of(items@),
{
    let mut out: Vec<String> = Vec::new();
    let mut i: usize = 0;
    assert(items@.skip(0) =~= items@);
    while i < items.len()
        invariant
            i <= items@.len(),
            texts_of(items@) == match texts_of(items@.skip(i as int)) {
                Some(rest) => Some(out.deep_view() + rest),
                None => None,
            },
        decreases items.len() - i,
    {
        assert(items@.skip(i as int).drop_first() =~= items@.skip(i + 1));
        assert(items@.skip(i as int)[0] == items@[i as int]);
        match items[i].as_str() {
            None => {
                return None;
            },
            Some(s) => {
                let ghost before = out.deep_view();
                out.push(s.to_owned());
                assert(out.deep_view() =~= before.push(s@));
                proof {
                    match texts_of(items@.skip(i + 1)) {
                        Some(rest) => {
                            assert(before + (seq![s@] + rest) =~= out.deep_view() + rest);
                        },
                        None => {},
                    }
                }
            },
        }
        i += 1;
    }
    assert(out.deep_view() + seq![] =~= out.deep_view());
    Some(out)
}

/// Reads the list of strings stored under `key`, if there is one.
pub fn optional_string_list(obj: &Vec<(String, Json)>, key: &str) -> (r: Result<
    Option<Vec<String>>,
    EvelinError,
>)
    ensures
        res_deep(r) == spec_optional_string_list(obj@, key@),
{
    match get(obj, key) {
        None => Ok(None),
        Some(v) => match v.as_array() {
            None => Err(field_error(key, "' must be an array")),
            Some(items) => match texts(items) {
                Some(t) => Ok(Some(t)),
                None => Err(field_error(key, "' must contain only strings")),
            },
        },
    }
}

/// The settings a document object sets, or the first field that is invalid.
pub open spec fn spec_patch_fields(obj: Seq<(String, Json)>) -> Result<PatchModel, ErrorModel> {
    let errs = seq![
        err_of(spec_optional_usize(obj, "max_concurrency"@)),
        err_of(spec_optional_u64(obj, "codex_timeout_seconds"@)),
        err_of(spec_optional_string(obj, "codex_sandbox"@)),
        err_of(spec_optional_string(obj, "codex_model"@)),
        err_of(spec_optional_string(obj, "codex_reasoning_effort"@)),
        err_of(spec_optional_string_list(obj, "codex_extra_args"@)),
        err_of(spec_optional_bool(obj, "codex_isolation"@)),
        err_of(spec_optional_string(obj, "codex_home_base_dir"@)),
    ];
    match first_error(errs) {
        Some(e) => Err(e),
        None => Ok(
            PatchModel {
                max_concurrency: spec_optional_usize(obj, "max_concurrency"@)->Ok_0,
                codex_timeout_seconds: spec_optional_u64(obj, "codex_timeout_seconds"@)->Ok_0,
                codex_sandbox: spec_optional_string(obj, "codex_sandbox"@)->Ok_0,
                codex_model: spec_optional_string(obj, "codex_model"@)->Ok_0,
                codex_reasoning_effort: spec_optional_string(obj, "codex_reasoning_effort"@)->Ok_0,
                codex_extra_args: spec_optional_string_list(obj, "codex_extra_args"@)->Ok_0,
                codex_isolation: spec_optional_bool(obj, "codex_isolation"@)->Ok_0,
                codex_home_base_dir: spec_optional_string(obj, "codex_home_base_dir"@)->Ok_0,
            },
        ),
    }
}

/// What a runner patch document reads as.
pub open spec fn spec_parse_patch(value: Json) -> Result<PatchModel, ErrorModel> {
    match value.object_of() {
        None => Err(msg("runner patch must be an object"@)),
        Some(obj) => spec_patch_fields(obj),
    }
}

/// Reads a runner patch out of a document object.
pub fn parse_patch(value: &Json) -> (r: Result<RunnerDefaultsPatch, EvelinError>)
    ensures
        res_view(r) == spec_parse_patch(*value),
{
    let obj = match crate::document::as_object(value, "runner patch") {
        Ok(o) => o,
        Err(e) => {
            proof {
                reveal_strlit("runner patch");
                reveal_strlit(" must be an object");
                reveal_strlit("runner patch must be an object");
                assert("runner patch"@ + " must be an object"@ =~= "runner patch must be an object"@);
            }
            return Err(e);
        },
    };
    proof {
        reveal_with_fuel(first_error, 9);
    }
    let max_concurrency = match optional_usize(obj, "max_concurrency") {
        Ok(v) => v,
        Err(e) => {
            return Err(e);
        },
    };
    let codex_timeout_seconds = match optional_u64(obj, "codex_timeout_seconds") {
        Ok(v) => v,
        Err(e) => {
            return Err(e);
        },
    };
    let codex_sandbox = match optional_string(obj, "codex_sandbox") {
        Ok(v) => v,
        Err(e) => {
            return Err(e);
        },
    };
    let codex_model = match optional_string(obj, "codex_model") {
        Ok(v) => v,
        Err(e) => {
            return Err(e);
        },
    };
    let codex_reasoning_effort = match optional_string(obj, "codex_reasoning_effort") {
        Ok(v) => v,
        Err(e) => {
            return Err(e);
        },
    };
    let codex_extra_args = match optional_string_list(obj, "codex_extra_args") {
        Ok(v) => v,
        Err(e) => {
            return Err(e);
        },
    };
    let codex_isolation = match optional_bool(obj, "codex_isolation") {
        Ok(v) => v,
        Err(e) => {
            return Err(e);
        },
    };
    let codex_home_base_dir = match optional_string(obj, "codex_home_base_dir") {
        Ok(v) => v,
        Err(e) => {
            return Err(e);
        },
    };
    Ok(
        RunnerDefaultsPatch {
            max_concurrency,
            codex_timeout_seconds,
            codex_sandbox,
            codex_model,
            codex_reasoning_effort,
            codex_extra_args,
            codex_isolation,
            codex_home_base_dir,
        },
    )
}

// ---------------------------------------------------------------------------
// Global eval configuration (eval-config.toml)
// ---------------------------------------------------------------------------
/// The runner settings of `eval-config.toml`: general defaults, and patches
/// per eval type. No eval type is listed twice.
#[derive(Debug)]
pub struct GlobalEvalConfig {
    pub defaults: RunnerDefaultsPatch,
    pub eval_type: Vec<(String, RunnerDefaultsPatch)>,
}

/// The value of a [`GlobalEvalConfig`].
pub struct GlobalModel {
    pub defaults: PatchModel,
    pub eval_type: Map<Seq<char>, PatchModel>,
}

/// The name of an entry.
pub open spec fn entry_key(e: (String, RunnerDefaultsPatch)) -> Seq<char> {
    e.0@
}

/// The patches per eval type that a list of entries holds.
pub open spec fn entries_map(s: Seq<(String, RunnerDefaultsPatch)>) -> Map<Seq<char>, PatchModel>
    decreases s.len(),
{
    if s.len() == 0 {
        Map::empty()
    } else {
        entries_map(s.drop_first()).insert(entry_key(s[0]), s[0].1@)
    }
}

/// No two entries share a name.
pub open spec fn distinct_keys(s: Seq<(String, RunnerDefaultsPatch)>) -> bool {
    forall|i: int, j: int|
        0 <= i < s.len() && 0 <= j < s.len() && i != j ==> entry_key(s[i]) != entry_key(s[j])
}

impl View for GlobalEvalConfig {
    type V = GlobalModel;

    open spec fn view(&self) -> GlobalModel {
        GlobalModel { defaults: self.defaults@, eval_type: entries_map(self.eval_type@) }
    }
}

proof fn lemma_entries_map_domain(s: Seq<(String, RunnerDefaultsPatch)>, k: Seq<char>)
    ensures
        entries_map(s).contains_key(k) <==> exists|i: int| 0 <= i < s.len() && entry_key(s[i]) == k,
    decreases s.len(),
{
    if s.len() > 0 {
        lemma_entries_map_domain(s.drop_first(), k);
        if entries_map(s).contains_key(k) && entry_key(s[0]) != k {
            let i = choose|i: int| 0 <= i < s.drop_first().len() && entry_key(s.drop_first()[i]) == k;
            assert(s[i + 1] == s.drop_first()[i]);
        }
        if exists|i: int| 0 <= i < s.len() && entry_key(s[i]) == k {
            let i = choose|i: int| 0 <= i < s.len() && entry_key(s[i]) == k;
            if i > 0 {
                assert(s.drop_first()[i - 1] == s[i]);
            }
        }
    }
}

proof fn lemma_entries_map_at(s: Seq<(String, RunnerDefaultsPatch)>, i: int)
    requires
        distinct_keys(s),
        0 <= i < s.len(),
    ensures
        entries_map(s).contains_key(entry_key(s[i])),
        entries_map(s)[entry_key(s[i])] == s[i].1@,
    decreases s.len(),
{
    if i > 0 {
        let t = s.drop_first();
        assert(t[i - 1] == s[i]);
        assert(distinct_keys(t)) by {
            assert forall|a: int, b: int|
                0 <= a < t.len() && 0 <= b < t.len() && a != b implies entry_key(t[a]) != entry_key(
                t[b],
            ) by {
                assert(t[a] == s[a + 1]);
                assert(t[b] == s[b + 1]);
            }
        }
        lemma_entries_map_at(t, i - 1);
        assert(entry_key(s[0]) != entry_key(s[i]));
    }
}

proof fn lemma_entries_map_push(s: Seq<(String, RunnerDefaultsPatch)>, e: (String, RunnerDefaultsPatch))
    requires
        !entries_map(s).contains_key(entry_key(e)),
    ensures
        entries_map(s.push(e)) == entries_map(s).insert(entry_key(e), e.1@),
    decreases s.len(),
{
    if s.len() == 0 {
        assert(s.push(e).drop_first() =~= s);
    } else {
        let t = s.drop_first();
        assert(s.push(e).drop_first() =~= t.push(e));
        assert(s.push(e)[0] == s[0]);
        lemma_entries_map_push(t, e);
        assert(entry_key(s[0]) != entry_key(e));
        assert(entries_map(s.push(e)) =~= entries_map(s).insert(entry_key(e), e.1@));
    }
}

proof fn lemma_entries_map_update(
    s: Seq<(String, RunnerDefaultsPatch)>,
    i: int,
    e: (String, RunnerDefaultsPatch),
)
    requires
        distinct_keys(s),
        0 <= i < s.len(),
        entry_key(e) == entry_key(s[i]),
    ensures
        entries_map(s.update(i, e)) == entries_map(s).insert(entry_key(e), e.1@),
        distinct_keys(s.update(i, e)),
    decreases s.len(),
{
    let u = s.update(i, e);
    assert(distinct_keys(u)) by {
        assert forall|a: int, b: int|
            0 <= a < u.len() && 0 <= b < u.len() && a != b implies entry_key(u[a]) != entry_key(
            u[b],
        ) by {
            assert(entry_key(u[a]) == entry_key(s[a]));
            assert(entry_key(u[b]) == entry_key(s[b]));
        }
    }
    let t = s.drop_first();
    assert(distinct_keys(t)) by {
        assert forall|a: int, b: int|
            0 <= a < t.len() && 0 <= b < t.len() && a != b implies entry_key(t[a]) != entry_key(
            t[b],
        ) by {
            assert(t[a] == s[a + 1]);
            assert(t[b] == s[b + 1]);
        }
    }
    if i == 0 {
        assert(u.drop_first() =~= t);
        lemma_entries_map_domain(t, entry_key(e));
        if entries_map(t).contains_key(entry_key(e)) {
            let j = choose|j: int| 0 <= j < t.len() && entry_key(t[j]) == entry_key(e);
            assert(t[j] == s[j + 1]);
        }
        assert(entries_map(u) =~= entries_map(s).insert(entry_key(e), e.1@));
    } else {
        assert(u.drop_first() =~= t.update(i - 1, e));
        assert(t[i - 1] == s[i]);
        lemma_entries_map_update(t, i - 1, e);
        assert(u[0] == s[0]);
        assert(entry_key(s[0]) != entry_key(s[i]));
        assert(entries_map(u) =~= entries_map(s).insert(entry_key(e), e.1@));
    }
}

/// `overlay`'s patches per eval type laid over `base`'s: each merged onto the
/// patch of the same eval type, or onto the empty patch where `base` has none.
pub open spec fn overlay_types(
    base: Map<Seq<char>, PatchModel>,
    overlay: Map<Seq<char>, PatchModel>,
) -> Map<Seq<char>, PatchModel> {
    Map::new(
        |k: Seq<char>| base.contains_key(k) || overlay.contains_key(k),
        |k: Seq<char>|
            if overlay.contains_key(k) {
                merge(
                    if base.contains_key(k) {
                        base[k]
                    } else {
                        empty_patch()
                    },
                    overlay[k],
                )
            } else {
                base[k]
            },
    )
}

/// A global configuration laid over another.
pub open spec fn overlay_global(base: GlobalModel, overlay: GlobalModel) -> GlobalModel {
    GlobalModel {
        defaults: merge(base.defaults, overlay.defaults),
        eval_type: overlay_types(base.eval_type, overlay.eval_type),
    }
}

/// Laying global configurations over one another is associative: `c` over
/// (`b` over `a`) is (`c` over `b`) over `a`.
pub proof fn law_overlay_associative(a: GlobalModel, b: GlobalModel, c: GlobalModel)
    ensures
        overlay_global(overlay_global(a, b), c) == overlay_global(a, overlay_global(b, c)),
{
    law_merge_associative(a.defaults, b.defaults, c.defaults);
    let l = overlay_types(overlay_types(a.eval_type, b.eval_type), c.eval_type);
    let r = overlay_types(a.eval_type, overlay_types(b.eval_type, c.eval_type));
    assert forall|k: Seq<char>| #[trigger] l.contains_key(k) implies l[k] == r[k] by {
        let ea = if a.eval_type.contains_key(k) {
            a.eval_type[k]
        } else {
            empty_patch()
        };
        let eb = if b.eval_type.contains_key(k) {
            b.eval_type[k]
        } else {
            empty_patch()
        };
        let ec = if c.eval_type.contains_key(k) {
            c.eval_type[k]
        } else {
            empty_patch()
        };
        law_merge_associative(ea, eb, ec);
        law_merge_empty(ea);
        law_merge_empty(eb);
        law_merge_empty(merge(ea, eb));
    }
    assert(l =~= r);
}

/// Laying a global configuration with no settings over another changes
/// nothing.
pub proof fn law_overlay_empty(g: GlobalModel)
    ensures
        overlay_global(
            g,
            GlobalModel { defaults: empty_patch(), eval_type: Map::empty() },
        ) == g,
{
    law_merge_empty(g.defaults);
    assert(overlay_types(g.eval_type, Map::empty()) =~= g.eval_type);
}

/// The position of the entry named `key`, if there is one.
fn find_entry(entries: &Vec<(String, RunnerDefaultsPatch)>, key: &str) -> (r: Option<usize>)
    ensures
        match r {
            Some(i) => i < entries@.len() && entry_key(entries@[i as int]) == key@,
            None => forall|i: int| 0 <= i < entries@.len() ==> entry_key(entries@[i]) != key@,
        },
{
    let mut i: usize = 0;
    while i < entries.len()
        invariant
            i <= entries@.len(),
            forall|j: int| 0 <= j < i ==> entry_key(entries@[j]) != key@,
        decreases entries.len() - i,
    {
        if crate::text::str_eq(entries[i].0.as_str(), key) {
            return Some(i);
        }
        i += 1;
    }
    None
}

/// Sets the patch of eval type `key`: merged onto the existing one, or added.
fn upsert_merged(
    entries: &mut Vec<(String, RunnerDefaultsPatch)>,
    key: &String,
    patch: &RunnerDefaultsPatch,
)
    requires
        distinct_keys(old(entries)@),
    ensures
        distinct_keys(final(entries)@),
        entries_map(final(entries)@) == entries_map(old(entries)@).insert(
            key@,
            merge(
                if entries_map(old(entries)@).contains_key(key@) {
                    entries_map(old(entries)@)[key@]
                } else {
                    empty_patch()
                },
                patch@,
            ),
        ),
{
    proof {
        lemma_entries_map_domain(entries@, key@);
    }
    match find_entry(entries, key.as_str()) {
        Some(i) => {
            proof {
                lemma_entries_map_at(entries@, i as int);
            }
            let mut merged = entries[i].1.copy();
            merged.merge_from(patch);
            let e = (key.clone(), merged);
            proof {
                lemma_entries_map_update(entries@, i as int, e);
            }
            entries.set(i, e);
        },
        None => {
            let mut fresh = RunnerDefaultsPatch::empty();
            fresh.merge_from(patch);
            let e = (key.clone(), fresh);
            proof {
                lemma_entries_map_push(entries@, e);
                assert forall|a: int, b: int|
                    0 <= a < entries@.push(e).len() && 0 <= b < entries@.push(e).len() && a
                        != b implies entry_key(entries@.push(e)[a]) != entry_key(
                    entries@.push(e)[b],
                ) by {
                    if a < entries@.len() && b < entries@.len() {
                    } else if a < entries@.len() {
                        assert(entry_key(entries@[a]) != key@);
                    } else if b < entries@.len() {
                        assert(entry_key(entries@[b]) != key@);
                    }
                }
            }
            entries.push(e);
        },
    }
}

impl GlobalEvalConfig {
    /// No eval type is listed twice.
    pub open spec fn wf(&self) -> bool {
        distinct_keys(self.eval_type@)
    }

    /// Lays `overlay` over this configuration: its defaults are merged onto
    /// the defaults, and each of its per-type patches onto the patch of the
    /// same eval type.
    pub fn apply_overlay(&mut self, overlay: Self)
        requires
            old(self).wf(),
            overlay.wf(),
        ensures
            final(self).wf(),
            final(self)@ == overlay_global(old(self)@, overlay@),
    {
        self.defaults.merge_from(&overlay.defaults);
        let ghost base = entries_map(self.eval_type@);
        let ghost over = entries_map(overlay.eval_type@);
        let mut i: usize = 0;
        assert(overlay_types(base, entries_map(overlay.eval_type@.take(0))) =~= base);
        while i < overlay.eval_type.len()
            invariant
                i <= overlay.eval_type@.len(),
                distinct_keys(overlay.eval_type@),
                distinct_keys(self.eval_type@),
                over == entries_map(overlay.eval_type@),
                entries_map(self.eval_type@) == overlay_types(
                    base,
                    entries_map(overlay.eval_type@.take(i as int)),
                ),
                self.defaults@ == merge(old(self)@.defaults, overlay@.defaults),
            decreases overlay.eval_type.len() - i,
        {
            let ghost prefix = overlay.eval_type@.take(i as int);
            let ghost e = overlay.eval_type@[i as int];
            proof {
                assert(overlay.eval_type@.take(i + 1) =~= prefix.push(e));
                lemma_entries_map_domain(prefix, entry_key(e));
                if entries_map(prefix).contains_key(entry_key(e)) {
                    let j = choose|j: int| 0 <= j < prefix.len() && entry_key(prefix[j]) == entry_key(e);
                    assert(prefix[j] == overlay.eval_type@[j]);
                }
                lemma_entries_map_push(prefix, e);
            }
            upsert_merged(&mut self.eval_type, &overlay.eval_type[i].0, &overlay.eval_type[i].1);
            proof {
                let acc = overlay_types(base, entries_map(prefix));
                assert(entries_map(self.eval_type@) =~= overlay_types(
                    base,
                    entries_map(prefix.push(e)),
                ));
            }
            i += 1;
        }
        assert(overlay.eval_type@.take(overlay.eval_type@.len() as int) =~= overlay.eval_type@);
    }
}

/// Sets the patch of eval type `key`, replacing any it had.
fn upsert_replace(
    entries: &mut Vec<(String, RunnerDefaultsPatch)>,
    key: &String,
    patch: RunnerDefaultsPatch,
)
    requires
        distinct_keys(old(entries)@),
    ensures
        distinct_keys(final(entries)@),
        entries_map(final(entries)@) == entries_map(old(entries)@).insert(key@, patch@),
{
    proof {
        lemma_entries_map_domain(entries@, key@);
    }
    let ghost pv = patch@;
    let e = (key.clone(), patch);
    match find_entry(entries, key.as_str()) {
        Some(i) => {
            proof {
                lemma_entries_map_update(entries@, i as int, e);
            }
            entries.set(i, e);
        },
        None => {
            proof {
                lemma_entries_map_push(entries@, e);
                assert forall|a: int, b: int|
                    0 <= a < entries@.push(e).len() && 0 <= b < entries@.push(e).len() && a
                        != b implies entry_key(entries@.push(e)[a]) != entry_key(
                    entries@.push(e)[b],
                ) by {
                    if a < entries@.len() && b < entries@.len() {
                    } else if a < entries@.len() {
                        assert(entry_key(entries@[a]) != key@);
                    } else if b < entries@.len() {
                        assert(entry_key(entries@[b]) != key@);
                    }
                }
            }
            entries.push(e);
        },
    }
}

/// The patches per eval type of an `[eval_type]` table, or the first that is
/// invalid. A name that occurs twice keeps its last patch.
pub open spec fn spec_parse_patches(fields: Seq<(String, Json)>) -> Result<
    Map<Seq<char>, PatchModel>,
    ErrorModel,
>
    decreases fields.len(),
{
    if fields.len() == 0 {
        Ok(Map::empty())
    } else {
        match spec_parse_patch(fields[0].1) {
            Err(e) => Err(e),
            Ok(p) => match spec_parse_patches(fields.drop_first()) {
                Err(e) => Err(e),
                Ok(m) => Ok(
                    if m.contains_key(fields[0].0@) {
                        m
                    } else {
                        m.insert(fields[0].0@, p)
                    },
                ),
            },
        }
    }
}

/// What a global eval configuration document reads as.
pub open spec fn spec_parse_global(value: Json) -> Result<GlobalModel, ErrorModel> {
    match value.object_of() {
        None => Err(msg("global eval config must be an object"@)),
        Some(obj) => {
            let defaults = match lookup(obj, "defaults"@) {
                Some(v) => spec_parse_patch(v),
                None => Ok(empty_patch()),
            };
            match defaults {
                Err(e) => Err(e),
                Ok(d) => match lookup(obj, "eval_type"@) {
                    None => Ok(GlobalModel { defaults: d, eval_type: Map::empty() }),
                    Some(per_type) => match per_type.object_of() {
                        None => Err(msg("[eval_type] must be an object"@)),
                        Some(f) => match spec_parse_patches(f) {
                            Err(e) => Err(e),
                            Ok(m) => Ok(GlobalModel { defaults: d, eval_type: m }),
                        },
                    },
                },
            }
        },
    }
}

fn parse_patches(fields: &Vec<(String, Json)>) -> (r: Result<
    Vec<(String, RunnerDefaultsPatch)>,
    EvelinError,
>)
    ensures
        match (r, spec_parse_patches(fields@)) {
            (Ok(v), Ok(m)) => distinct_keys(v@) && entries_map(v@) == m,
            (Err(e), Err(f)) => e@ == f,
            _ => false,
        },
{
    let mut out: Vec<(String, RunnerDefaultsPatch)> = Vec::new();
    let mut i: usize = 0;
    assert(fields@.skip(0) =~= fields@);
    assert(entries_map(out@) =~= Map::<Seq<char>, PatchModel>::empty());
    proof {
        match spec_parse_patches(fields@) {
            Ok(m) => {
                assert(entries_map(out@).union_prefer_right(m) =~= m);
            },
            Err(_) => {},
        }
    }
    while i < fields.len()
        invariant
            i <= fields@.len(),
            distinct_keys(out@),
            spec_parse_patches(fields@) == match spec_parse_patches(fields@.skip(i as int)) {
                Ok(m) => Ok(entries_map(out@).union_prefer_right(m)),
                Err(e) => Err(e),
            },
        decreases fields.len() - i,
    {
        let ghost rest = fields@.skip(i as int);
        assert(rest.drop_first() =~= fields@.skip(i + 1));
        assert(rest[0] == fields@[i as int]);
        let p = match parse_patch(&fields[i].1) {
            Ok(p) => p,
            Err(e) => {
                return Err(e);
            },
        };
        let ghost acc = entries_map(out@);
        let ghost k = fields@[i as int].0@;
        upsert_replace(&mut out, &fields[i].0, p);
        proof {
            match spec_parse_patches(fields@.skip(i + 1)) {
                Ok(m) => {
                    let m2 = if m.contains_key(k) {
                        m
                    } else {
                        m.insert(k, p@)
                    };
                    assert(acc.union_prefer_right(m2) =~= acc.insert(k, p@).union_prefer_right(m));
                },
                Err(_) => {},
            }
        }
        i += 1;
    }
    proof {
        assert(fields@.skip(i as int).len() == 0);
        assert(entries_map(out@).union_prefer_right(Map::empty()) =~= entries_map(out@));
    }
    Ok(out)
}

impl GlobalEvalConfig {
    /// Reads a global eval configuration out of a document.
    pub fn from_document(value: &Json) -> (r: Result<GlobalEvalConfig, EvelinError>)
        ensures
            res_view(r) == spec_parse_global(*value),
            r matches Ok(g) ==> g.wf(),
    {
        let obj = match crate::document::as_object(value, "global eval config") {
            Ok(o) => o,
            Err(e) => {
                proof {
                    reveal_strlit("global eval config");
                    reveal_strlit(" must be an object");
                    reveal_strlit("global eval config must be an object");
                    assert("global eval config"@ + " must be an object"@
                        =~= "global eval config must be an object"@);
                }
                return Err(e);
            },
        };
        let defaults = match get(obj, "defaults") {
            Some(v) => match parse_patch(v) {
                Ok(p) => p,
                Err(e) => {
                    return Err(e);
                },
            },
            None => RunnerDefaultsPatch::empty(),
        };
        match get(obj, "eval_type") {
            None => {
                let r = GlobalEvalConfig { defaults, eval_type: Vec::new() };
                assert(entries_map(r.eval_type@) =~= Map::<Seq<char>, PatchModel>::empty());
                Ok(r)
            },
            Some(per_type) => {
                let fields = match crate::document::as_object(per_type, "[eval_type]") {
                    Ok(f) => f,
                    Err(e) => {
                        proof {
                            reveal_strlit("[eval_type]");
                            reveal_strlit(" must be an object");
                            reveal_strlit("[eval_type] must be an object");
                            assert("[eval_type]"@ + " must be an object"@
                                =~= "[eval_type] must be an object"@);
                        }
                        return Err(e);
                    },
                };
                match parse_patches(fields) {
                    Ok(eval_type) => Ok(GlobalEvalConfig { defaults, eval_type }),
                    Err(e) => Err(e),
                }
            },
        }
    }
}

/// What a TOML text reads as, with errors attributed to `path`.
pub open spec fn spec_toml_text(path: Seq<char>, text: Seq<char>) -> Result<Json, ErrorModel> {
    match crate::json::toml_document(text) {
        crate::json::Converted::Document(j) => Ok(j),
        crate::json::Converted::SyntaxError(m) => Err(ErrorModel::Toml(path, m)),
        crate::json::Converted::ConversionError(m) => Err(
            msg("toml conversion error at "@ + path + ": "@ + m),
        ),
    }
}

/// What a global eval configuration in TOML reads as.
pub open spec fn spec_global_from_toml(text: Seq<char>, path: Seq<char>) -> Result<
    GlobalModel,
    ErrorModel,
> {
    match spec_toml_text(path, text) {
        Ok(v) => spec_parse_global(v),
        Err(e) => Err(e),
    }
}

impl GlobalEvalConfig {
    /// Reads a global eval configuration out of TOML text; `path` names the
    /// text in errors.
    pub fn from_toml_str(text: &str, path: &str) -> (r: Result<GlobalEvalConfig, EvelinError>)
        ensures
            res_view(r) == spec_global_from_toml(text@, path@),
            r matches Ok(g) ==> g.wf(),
    {
        match crate::json::parse_toml_text(text) {
            crate::json::ConvertedText::Document(j) => GlobalEvalConfig::from_document(&j),
            crate::json::ConvertedText::SyntaxError(m) => Err(
                EvelinError::Toml { path: path.to_owned(), message: m },
            ),
            crate::json::ConvertedText::ConversionError(m) => {
                let e = crate::document::conversion_error("toml", path, m.as_str());
                assert("toml"@ + " conversion error at "@ =~= "toml conversion error at "@) by {
                    reveal_strlit("toml");
                    reveal_strlit(" conversion error at ");
                    reveal_strlit("toml conversion error at ");
                }
                Err(e)
            },
        }
    }
}

// ---------------------------------------------------------------------------
// Suite configs: cases, gate requirements, eval configs
// ---------------------------------------------------------------------------
/// Markers a response must show, and markers it must not.
#[derive(Debug)]
pub struct MarkerExpectations {
    pub must_include: Vec<String>,
    pub must_not_include: Vec<String>,
}

/// One prompt of an eval and what its response is graded against.
#[derive(Debug)]
pub struct PromptCase {
    pub id: String,
    pub prompt: String,
    pub expected: MarkerExpectations,
}

/// Snippets the tested skill document must contain.
#[derive(Debug)]
pub struct GateRequirements {
    pub required_snippets: Vec<String>,
}

/// The value of [`MarkerExpectations`].
pub struct MarkerModel {
    pub must_include: Seq<Seq<char>>,
    pub must_not_include: Seq<Seq<char>>,
}

/// The value of a [`PromptCase`].
pub struct CaseModel {
    pub id: Seq<char>,
    pub prompt: Seq<char>,
    pub expected: MarkerModel,
}

impl View for MarkerExpectations {
    type V = MarkerModel;

    open spec fn view(&self) -> MarkerModel {
        MarkerModel {
            must_include: self.must_include.deep_view(),
            must_not_include: self.must_not_include.deep_view(),
        }
    }
}

impl View for PromptCase {
    type V = CaseModel;

    open spec fn view(&self) -> CaseModel {
        CaseModel { id: self.id@, prompt: self.prompt@, expected: self.expected@ }
    }
}

impl View for GateRequirements {
    type V = Seq<Seq<char>>;

    open spec fn view(&self) -> Seq<Seq<char>> {
        self.required_snippets.deep_view()
    }
}

/// A suite config of one eval.
///
/// `rate` is the pass rate the eval must reach, as the number written in the
/// config.
#[derive(Debug)]
pub struct EvalConfig {
    pub eval_type: EvalType,
    pub skill: String,
    pub skill_path: String,
    pub gate_requirements: Option<GateRequirements>,
    pub eval_name: Option<String>,
    pub grader: String,
    pub rate: JsonNumber,
    pub max_concurrency: Option<usize>,
    pub codex_timeout_seconds: Option<u64>,
    pub codex_isolation: Option<bool>,
    pub codex_home_base_dir: Option<String>,
    pub codex_sandbox: Option<String>,
    pub codex_model: Option<String>,
    pub codex_reasoning_effort: Option<String>,
    pub codex_extra_args: Option<Vec<String>>,
    pub cases: Vec<PromptCase>,
    pub prompts_file: Option<String>,
}

/// The value of an [`EvalConfig`].
pub struct EvalConfigModel {
    pub eval_type: EvalType,
    pub skill: Seq<char>,
    pub skill_path: Seq<char>,
    pub gate_requirements: Option<Seq<Seq<char>>>,
    pub eval_name: Option<Seq<char>>,
    pub grader: Seq<char>,
    pub rate: JsonNumber,
    pub max_concurrency: Option<usize>,
    pub codex_timeout_seconds: Option<u64>,
    pub codex_isolation: Option<bool>,
    pub codex_home_base_dir: Option<Seq<char>>,
    pub codex_sandbox: Option<Seq<char>>,
    pub codex_model: Option<Seq<char>>,
    pub codex_reasoning_effort: Option<Seq<char>>,
    pub codex_extra_args: Option<Seq<Seq<char>>>,
    pub cases: Seq<CaseModel>,
    pub prompts_file: Option<Seq<char>>,
}

/// The values of a list of cases.
pub open spec fn cases_view(cases: Seq<PromptCase>) -> Seq<CaseModel> {
    cases.map_values(|c: PromptCase| c@)
}

impl View for EvalConfig {
    type V = EvalConfigModel;

    open spec fn view(&self) -> EvalConfigModel {
        EvalConfigModel {
            eval_type: self.eval_type,
            skill: self.skill@,
            skill_path: self.skill_path@,
            gate_requirements: match self.gate_requirements {
                Some(g) => Some(g@),
                None => None,
            },
            eval_name: self.eval_name.deep_view(),
            grader: self.grader@,
            rate: self.rate,
            max_concurrency: self.max_concurrency,
            codex_timeout_seconds: self.codex_timeout_seconds,
            codex_isolation: self.codex_isolation,
            codex_home_base_dir: self.codex_home_base_dir.deep_view(),
            codex_sandbox: self.codex_sandbox.deep_view(),
            codex_model: self.codex_model.deep_view(),
            codex_reasoning_effort: self.codex_reasoning_effort.deep_view(),
            codex_extra_args: self.codex_extra_args.deep_view(),
            cases: cases_view(self.cases@),
            prompts_file: self.prompts_file.deep_view(),
        }
    }
}

/// An optional list, or the empty list.
pub open spec fn or_empty(o: Option<Seq<Seq<char>>>) -> Seq<Seq<char>> {
    match o {
        Some(v) => v,
        None => seq![],
    }
}

/// What a case document reads as; `index` and `source` name it in errors.
pub open spec fn spec_parse_case(value: Json, index: nat, source: Seq<char>) -> Result<
    CaseModel,
    ErrorModel,
> {
    match value.object_of() {
        None => Err(msg(source + " case #"@ + crate::text::decimal(index) + " must be an object"@)),
        Some(obj) => match spec_required_string(obj, "id"@) {
            Err(e) => Err(e),
            Ok(id) => match spec_required_string(obj, "prompt"@) {
                Err(e) => Err(e),
                Ok(prompt) => {
                    let expected = match lookup(obj, "expected"@) {
                        Some(v) => v.object_of(),
                        None => Some(Seq::<(String, Json)>::empty()),
                    };
                    match expected {
                        None => Err(
                            msg(source + " case '"@ + id + "' field 'expected' must be an object"@),
                        ),
                        Some(eo) => match spec_optional_string_list(eo, "must_include"@) {
                            Err(e) => Err(e),
                            Ok(mi) => match spec_optional_string_list(eo, "must_not_include"@) {
                                Err(e) => Err(e),
                                Ok(mn) => Ok(
                                    CaseModel {
                                        id,
                                        prompt,
                                        expected: MarkerModel {
                                            must_include: or_empty(mi),
                                            must_not_include: or_empty(mn),
                                        },
                                    },
                                ),
                            },
                        },
                    }
                },
            },
        },
    }
}

fn unwrap_or_empty(o: Option<Vec<String>>) -> (r: Vec<String>)
    ensures
        r.deep_view() == or_empty(o.deep_view()),
{
    match o {
        Some(v) => v,
        None => {
            let v: Vec<String> = Vec::new();
            assert(v.deep_view() =~= seq![]);
            v
        },
    }
}

/// Reads one case out of a document; `index` and `source` name it in errors.
pub fn parse_case(value: &Json, index: usize, source: &str) -> (r: Result<PromptCase, EvelinError>)
    ensures
        res_view(r) == spec_parse_case(*value, index as nat, source@),
{
    let number = crate::text::decimal_string(index as u128);
    let context = cat3(source, " case #", number.as_str());
    let obj = match crate::document::as_object(value, context.as_str()) {
        Ok(o) => o,
        Err(e) => {
            assert(context@ + " must be an object"@ =~= source@ + " case #"@
                + crate::text::decimal(index as nat) + " must be an object"@);
            return Err(e);
        },
    };
    let id = match required_string(obj, "id") {
        Ok(v) => v,
        Err(e) => {
            return Err(e);
        },
    };
    let prompt = match required_string(obj, "prompt") {
        Ok(v) => v,
        Err(e) => {
            return Err(e);
        },
    };
    let empty: Vec<(String, Json)> = Vec::new();
    let expected_object: &Vec<(String, Json)> = match get(obj, "expected") {
        Some(v) => match v.as_object() {
            Some(eo) => eo,
            None => {
                let context = cat3(source, " case '", id.as_str());
                let full = cat3(context.as_str(), "' field 'expected'", " must be an object");
                assert(full@ =~= source@ + " case '"@ + id@ + "' field 'expected' must be an object"@)
                    by {
                    reveal_strlit("' field 'expected'");
                    reveal_strlit(" must be an object");
                    reveal_strlit("' field 'expected' must be an object");
                }
                return Err(EvelinError::Message(full));
            },
        },
        None => {
            assert(empty@ =~= Seq::<(String, Json)>::empty());
            &empty
        },
    };
    let must_include = match optional_string_list(expected_object, "must_include") {
        Ok(v) => unwrap_or_empty(v),
        Err(e) => {
            return Err(e);
        },
    };
    let must_not_include = match optional_string_list(expected_object, "must_not_include") {
        Ok(v) => unwrap_or_empty(v),
        Err(e) => {
            return Err(e);
        },
    };
    Ok(PromptCase { id, prompt, expected: MarkerExpectations { must_include, must_not_include } })
}

/// What a list of case documents reads as, numbered from `first`.
pub open spec fn spec_parse_case_list(rows: Seq<Json>, source: Seq<char>, first: nat) -> Result<
    Seq<CaseModel>,
    ErrorModel,
>
    decreases rows.len(),
{
    if rows.len() == 0 {
        Ok(seq![])
    } else {
        match spec_parse_case(rows[0], first, source) {
            Err(e) => Err(e),
            Ok(c) => match spec_parse_case_list(rows.drop_first(), source, first + 1) {
                Err(e) => Err(e),
                Ok(rest) => Ok(seq![c] + rest),
            },
        }
    }
}

/// Reads a list of case documents, numbered from 1.
pub fn parse_case_list(rows: &Vec<Json>, source: &str) -> (r: Result<
    Vec<PromptCase>,
    EvelinError,
>)
    ensures
        match (r, spec_parse_case_list(rows@, source@, 1)) {
            (Ok(v), Ok(w)) => cases_view(v@) == w,
            (Err(e), Err(f)) => e@ == f,
            _ => false,
        },
{
    let mut out: Vec<PromptCase> = Vec::new();
    let mut i: usize = 0;
    assert(rows@.skip(0) =~= rows@);
    assert(cases_view(out@) + seq![] =~= cases_view(out@));
    while i < rows.len()
        invariant
            i <= rows@.len(),
            spec_parse_case_list(rows@, source@, 1) == match spec_parse_case_list(
                rows@.skip(i as int),
                source@,
                (i + 1) as nat,
            ) {
                Ok(rest) => Ok(cases_view(out@) + rest),
                Err(e) => Err(e),
            },
        decreases rows.len() - i,
    {
        assert(rows@.skip(i as int).drop_first() =~= rows@.skip(i + 1));
        assert(rows@.skip(i as int)[0] == rows@[i as int]);
        let c = match parse_case(&rows[i], i + 1, source) {
            Ok(c) => c,
            Err(e) => {
                return Err(e);
            },
        };
        let ghost before = cases_view(out@);
        out.push(c);
        proof {
            assert(cases_view(out@) =~= before.push(c@));
            match spec_parse_case_list(rows@.skip(i + 1), source@, (i + 2) as nat) {
                Ok(rest) => {
                    assert(before + (seq![c@] + rest) =~= cases_view(out@) + rest);
                },
                Err(_) => {},
            }
        }
        i += 1;
    }
    assert(rows@.skip(i as int).len() == 0);
    Ok(out)
}

/// What the `cases` entry of a suite config reads as.
pub open spec fn spec_parse_cases(value: Json) -> Result<Seq<CaseModel>, ErrorModel> {
    match value.array_of() {
        None => Err(msg("cases must be an array"@)),
        Some(rows) => spec_parse_case_list(rows, "cases"@, 1),
    }
}

/// Reads the `cases` entry of a suite config.
pub fn parse_cases(value: &Json) -> (r: Result<Vec<PromptCase>, EvelinError>)
    ensures
        match (r, spec_parse_cases(*value)) {
            (Ok(v), Ok(w)) => cases_view(v@) == w,
            (Err(e), Err(f)) => e@ == f,
            _ => false,
        },
{
    match value.as_array() {
        None => Err(EvelinError::message("cases must be an array")),
        Some(rows) => parse_case_list(rows, "cases"),
    }
}

/// What the text of a prompts file at `path` reads as.
pub open spec fn spec_prompt_cases(path: Seq<char>, text: Seq<char>) -> Result<
    Seq<CaseModel>,
    ErrorModel,
> {
    match crate::document::spec_jsonl_or_stream(path, text) {
        Err(e) => Err(e),
        Ok(rows) => match spec_parse_case_list(rows, "prompts_file:"@ + path, 1) {
            Err(e) => Err(e),
            Ok(cases) => if cases.len() == 0 {
                Err(msg("prompts_file is empty: "@ + path))
            } else {
                Ok(cases)
            },
        },
    }
}

/// Reads the cases of the prompts file at `path`, whose text is `text`.
pub fn load_cases_from_prompts_file(path: &str, text: &str) -> (r: Result<
    Vec<PromptCase>,
    EvelinError,
>)
    ensures
        match (r, spec_prompt_cases(path@, text@)) {
            (Ok(v), Ok(w)) => cases_view(v@) == w,
            (Err(e), Err(f)) => e@ == f,
            _ => false,
        },
{
    let rows = match crate::document::jsonl_or_stream_from_text(path, text) {
        Ok(r) => r,
        Err(e) => {
            return Err(e);
        },
    };
    let source = cat("prompts_file:", path);
    let cases = match parse_case_list(&rows, source.as_str()) {
        Ok(c) => c,
        Err(e) => {
            return Err(e);
        },
    };
    if cases.len() == 0 {
        return Err(EvelinError::Message(cat("prompts_file is empty: ", path)));
    }
    Ok(cases)
}

/// What a `gate_requirements` entry reads as.
pub open spec fn spec_parse_gate_requirements(value: Json) -> Result<Seq<Seq<char>>, ErrorModel> {
    match value.object_of() {
        None => Err(msg("gate_requirements must be an object"@)),
        Some(obj) => match spec_optional_string_list(obj, "required_snippets"@) {
            Err(e) => Err(e),
            Ok(v) => Ok(or_empty(v)),
        },
    }
}

/// Reads a `gate_requirements` entry.
pub fn parse_gate_requirements(value: &Json) -> (r: Result<GateRequirements, EvelinError>)
    ensures
        res_view(r) == spec_parse_gate_requirements(*value),
{
    let obj = match crate::document::as_object(value, "gate_requirements") {
        Ok(o) => o,
        Err(e) => {
            proof {
                reveal_strlit("gate_requirements");
                reveal_strlit(" must be an object");
                reveal_strlit("gate_requirements must be an object");
                assert("gate_requirements"@ + " must be an object"@
                    =~= "gate_requirements must be an object"@);
            }
            return Err(e);
        },
    };
    match optional_string_list(obj, "required_snippets") {
        Ok(v) => Ok(GateRequirements { required_snippets: unwrap_or_empty(v) }),
        Err(e) => Err(e),
    }
}

/// What the `eval_type` entry of a suite config reads as.
pub open spec fn spec_eval_type(obj: Seq<(String, Json)>) -> Result<EvalType, ErrorModel> {
    match spec_required_string(obj, "eval_type"@) {
        Err(e) => Err(e),
        Ok(s) => if s == "skill"@ {
            Ok(EvalType::Skill)
        } else {
            Err(msg("unsupported eval_type '"@ + s + "'"@))
        },
    }
}

/// What the optional `gate_requirements` entry of a suite config reads as.
pub open spec fn spec_gate_entry(obj: Seq<(String, Json)>) -> Result<
    Option<Seq<Seq<char>>>,
    ErrorModel,
> {
    match lookup(obj, "gate_requirements"@) {
        None => Ok(None),
        Some(v) => match spec_parse_gate_requirements(v) {
            Ok(g) => Ok(Some(g)),
            Err(e) => Err(e),
        },
    }
}

/// The path of the prompts file a suite config names, resolved against
/// `root`, when reading the config gets as far as loading it.
pub open spec fn spec_prompts_path(value: Json, root: Seq<char>) -> Option<Seq<char>> {
    match value.object_of() {
        Some(obj) => match spec_optional_string(obj, "prompts_file"@) {
            Ok(Some(p)) => Some(crate::document::spec_resolve_path(root, p)),
            _ => None,
        },
        None => None,
    }
}

/// What the cases of a suite config read as: the prompts file's, when one is
/// named (its text, or the error of reading it, is `prompts`), else the
/// `cases` entry's.
pub open spec fn spec_config_cases(
    obj: Seq<(String, Json)>,
    root: Seq<char>,
    prompts_file: Option<Seq<char>>,
    prompts: Option<Result<Seq<char>, ErrorModel>>,
) -> Result<Seq<CaseModel>, ErrorModel> {
    match prompts_file {
        Some(p) => match prompts {
            Some(Ok(text)) => spec_prompt_cases(crate::document::spec_resolve_path(root, p), text),
            Some(Err(e)) => Err(e),
            None => Err(msg(seq![])),
        },
        None => match lookup(obj, "cases"@) {
            None => Err(msg("Eval config requires 'cases' or 'prompts_file'"@)),
            Some(c) => spec_parse_cases(c),
        },
    }
}

/// The remaining settings of a suite config, read in order after its cases.
pub open spec fn spec_config_fields(
    obj: Seq<(String, Json)>,
    eval_type: EvalType,
    gate: Option<Seq<Seq<char>>>,
    prompts_file: Option<Seq<char>>,
    cases: Seq<CaseModel>,
) -> Result<EvalConfigModel, ErrorModel> {
    let errs = seq![
        err_of(spec_required_string(obj, "skill"@)),
        err_of(spec_required_string(obj, "skill_path"@)),
        err_of(spec_optional_string(obj, "eval_name"@)),
        err_of(spec_required_string(obj, "grader"@)),
        err_of(spec_required_number(obj, "rate"@)),
        err_of(spec_optional_usize(obj, "max_concurrency"@)),
        err_of(spec_optional_u64(obj, "codex_timeout_seconds"@)),
        err_of(spec_optional_bool(obj, "codex_isolation"@)),
        err_of(spec_optional_string(obj, "codex_home_base_dir"@)),
        err_of(spec_optional_string(obj, "codex_sandbox"@)),
        err_of(spec_optional_string(obj, "codex_model"@)),
        err_of(spec_optional_string(obj, "codex_reasoning_effort"@)),
        err_of(spec_optional_string_list(obj, "codex_extra_args"@)),
    ];
    match first_error(errs) {
        Some(e) => Err(e),
        None => Ok(
            EvalConfigModel {
                eval_type,
                skill: spec_required_string(obj, "skill"@)->Ok_0,
                skill_path: spec_required_string(obj, "skill_path"@)->Ok_0,
                gate_requirements: gate,
                eval_name: spec_optional_string(obj, "eval_name"@)->Ok_0,
                grader: spec_required_string(obj, "grader"@)->Ok_0,
                rate: spec_required_number(obj, "rate"@)->Ok_0,
                max_concurrency: spec_optional_usize(obj, "max_concurrency"@)->Ok_0,
                codex_timeout_seconds: spec_optional_u64(obj, "codex_timeout_seconds"@)->Ok_0,
                codex_isolation: spec_optional_bool(obj, "codex_isolation"@)->Ok_0,
                codex_home_base_dir: spec_optional_string(obj, "codex_home_base_dir"@)->Ok_0,
                codex_sandbox: spec_optional_string(obj, "codex_sandbox"@)->Ok_0,
                codex_model: spec_optional_string(obj, "codex_model"@)->Ok_0,
                codex_reasoning_effort: spec_optional_string(obj, "codex_reasoning_effort"@)->Ok_0,
                codex_extra_args: spec_optional_string_list(obj, "codex_extra_args"@)->Ok_0,
                cases,
                prompts_file,
            },
        ),
    }
}

/// What a suite config document reads as; `prompts` is the text of its
/// prompts file (or the error of reading it) when it names one.
pub open spec fn spec_from_value(
    value: Json,
    root: Seq<char>,
    prompts: Option<Result<Seq<char>, ErrorModel>>,
) -> Result<EvalConfigModel, ErrorModel> {
    match value.object_of() {
        None => Err(msg("eval config must be an object"@)),
        Some(obj) => match spec_eval_type(obj) {
            Err(e) => Err(e),
            Ok(eval_type) => match spec_gate_entry(obj) {
                Err(e) => Err(e),
                Ok(gate) => match spec_optional_string(obj, "prompts_file"@) {
                    Err(e) => Err(e),
                    Ok(prompts_file) => match spec_config_cases(obj, root, prompts_file, prompts) {
                        Err(e) => Err(e),
                        Ok(cases) => if cases.len() == 0 && prompts_file is None {
                            Err(msg("cases must not be empty when prompts_file is absent"@))
                        } else {
                            spec_config_fields(obj, eval_type, gate, prompts_file, cases)
                        },
                    },
                },
            },
        },
    }
}

/// The text of a prompts file as it was read, or the error of reading it.
pub open spec fn read_view(r: Option<Result<String, EvelinError>>) -> Option<
    Result<Seq<char>, ErrorModel>,
> {
    match r {
        Some(Ok(t)) => Some(Ok(t@)),
        Some(Err(e)) => Some(Err(e@)),
        None => None,
    }
}

impl EvalConfig {
    /// The prompts file a suite config document names, resolved against
    /// `root`: the file whose text [`EvalConfig::from_value`] needs.
    pub fn prompts_file_path(value: &Json, root: &str) -> (r: Option<String>)
        ensures
            r.deep_view() == spec_prompts_path(*value, root@),
    {
        match value.as_object() {
            Some(obj) => match optional_string(obj, "prompts_file") {
                Ok(Some(p)) => Some(crate::document::resolve_path(root, p.as_str())),
                _ => None,
            },
            None => None,
        }
    }

    /// Reads a suite config out of a document. Relative paths resolve
    /// against `root`; `prompts` is the text of the prompts file named by
    /// [`EvalConfig::prompts_file_path`] (or the error of reading it).
    pub fn from_value(
        value: &Json,
        root: &str,
        prompts: Option<Result<String, EvelinError>>,
    ) -> (r: Result<EvalConfig, EvelinError>)
        requires
            spec_prompts_path(*value, root@) is Some ==> prompts is Some,
        ensures
            res_view(r) == spec_from_value(*value, root@, read_view(prompts)),
    {
        let ghost pv = read_view(prompts);
        let obj = match crate::document::as_object(value, "eval config") {
            Ok(o) => o,
            Err(e) => {
                proof {
                    reveal_strlit("eval config");
                    reveal_strlit(" must be an object");
                    reveal_strlit("eval config must be an object");
                    assert("eval config"@ + " must be an object"@
                        =~= "eval config must be an object"@);
                }
                return Err(e);
            },
        };
        let kind_text = match required_string(obj, "eval_type") {
            Ok(s) => s,
            Err(e) => {
                return Err(e);
            },
        };
        let eval_type = if crate::text::str_eq(kind_text.as_str(), "skill") {
            EvalType::Skill
        } else {
            return Err(
                EvelinError::Message(cat3("unsupported eval_type '", kind_text.as_str(), "'")),
            );
        };
        let gate_requirements = match get(obj, "gate_requirements") {
            None => None,
            Some(v) => match parse_gate_requirements(v) {
                Ok(g) => Some(g),
                Err(e) => {
                    return Err(e);
                },
            },
        };
        let prompts_file = match optional_string(obj, "prompts_file") {
            Ok(p) => p,
            Err(e) => {
                return Err(e);
            },
        };
        let cases = match &prompts_file {
            Some(p) => {
                let path = crate::document::resolve_path(root, p.as_str());
                match prompts {
                    Some(Ok(text)) => match load_cases_from_prompts_file(path.as_str(), text.as_str()) {
                        Ok(c) => c,
                        Err(e) => {
                            return Err(e);
                        },
                    },
                    Some(Err(e)) => {
                        return Err(e);
                    },
                    None => {
                        return Err(EvelinError::Message(String::new()));
                    },
                }
            },
            None => match get(obj, "cases") {
                None => {
                    return Err(
                        EvelinError::message("Eval config requires 'cases' or 'prompts_file'"),
                    );
                },
                Some(c) => match parse_cases(c) {
                    Ok(c) => c,
                    Err(e) => {
                        return Err(e);
                    },
                },
            },
        };
        if cases.len() == 0 && prompts_file.is_none() {
            return Err(EvelinError::message("cases must not be empty when prompts_file is absent"));
        }
        proof {
            reveal_with_fuel(first_error, 14);
        }
        let skill = match required_string(obj, "skill") {
            Ok(v) => v,
            Err(e) => {
                return Err(e);
            },
        };
        let skill_path = match required_string(obj, "skill_path") {
            Ok(v) => v,
            Err(e) => {
                return Err(e);
            },
        };
        let eval_name = match optional_string(obj, "eval_name") {
            Ok(v) => v,
            Err(e) => {
                return Err(e);
            },
        };
        let grader = match required_string(obj, "grader") {
            Ok(v) => v,
            Err(e) => {
                return Err(e);
            },
        };
        let rate = match required_number(obj, "rate") {
            Ok(v) => v,
            Err(e) => {
                return Err(e);
            },
        };
        let max_concurrency = match optional_usize(obj, "max_concurrency") {
            Ok(v) => v,
            Err(e) => {
                return Err(e);
            },
        };
        let codex_timeout_seconds = match optional_u64(obj, "codex_timeout_seconds") {
            Ok(v) => v,
            Err(e) => {
                return Err(e);
            },
        };
        let codex_isolation = match optional_bool(obj, "codex_isolation") {
            Ok(v) => v,
            Err(e) => {
                return Err(e);
            },
        };
        let codex_home_base_dir = match optional_string(obj, "codex_home_base_dir") {
            Ok(v) => v,
            Err(e) => {
                return Err(e);
            },
        };
        let codex_sandbox = match optional_string(obj, "codex_sandbox") {
            Ok(v) => v,
            Err(e) => {
                return Err(e);
            },
        };
        let codex_model = match optional_string(obj, "codex_model") {
            Ok(v) => v,
            Err(e) => {
                return Err(e);
            },
        };
        let codex_reasoning_effort = match optional_string(obj, "codex_reasoning_effort") {
            Ok(v) => v,
            Err(e) => {
                return Err(e);
            },
        };
        let codex_extra_args = match optional_string_list(obj, "codex_extra_args") {
            Ok(v) => v,
            Err(e) => {
                return Err(e);
            },
        };
        Ok(
            EvalConfig {
                eval_type,
                skill,
                skill_path,
                gate_requirements,
                eval_name,
                grader,
                rate,
                max_concurrency,
                codex_timeout_seconds,
                codex_isolation,
                codex_home_base_dir,
                codex_sandbox,
                codex_model,
                codex_reasoning_effort,
                codex_extra_args,
                cases,
                prompts_file,
            },
        )
    }
}

// ---------------------------------------------------------------------------
// Eval names
// ---------------------------------------------------------------------------
/// Whether a file name is one of the default suite config names.
pub open spec fn spec_is_default_eval_config(name: Seq<char>) -> bool {
    name == "eval_config.json"@ || name == "eval.yaml"@ || name == "eval.yml"@
}

/// A suite config file name without its `.eval_config.json`, `.eval.yaml` or
/// `.eval.yml` suffix (the first of them that it ends with).
pub open spec fn spec_strip_eval_suffix(name: Seq<char>) -> Seq<char> {
    if crate::text::ends_with(name, ".eval_config.json"@) {
        name.take(name.len() - ".eval_config.json"@.len())
    } else if crate::text::ends_with(name, ".eval.yaml"@) {
        name.take(name.len() - ".eval.yaml"@.len())
    } else if crate::text::ends_with(name, ".eval.yml"@) {
        name.take(name.len() - ".eval.yml"@.len())
    } else {
        name
    }
}

/// Whether `file_name` is one of the default suite config names.
pub fn is_default_eval_config(file_name: &str) -> (r: bool)
    ensures
        r == spec_is_default_eval_config(file_name@),
{
    crate::text::str_eq(file_name, "eval_config.json") || crate::text::str_eq(
        file_name,
        "eval.yaml",
    ) || crate::text::str_eq(file_name, "eval.yml")
}

/// `file_name` without its suite config suffix.
pub fn strip_eval_suffix(file_name: &str) -> (r: String)
    ensures
        r@ == spec_strip_eval_suffix(file_name@),
{
    match crate::text::strip_suffix_str(file_name, ".eval_config.json") {
        Some(s) => {
            return s;
        },
        None => {},
    }
    match crate::text::strip_suffix_str(file_name, ".eval.yaml") {
        Some(s) => {
            return s;
        },
        None => {},
    }
    match crate::text::strip_suffix_str(file_name, ".eval.yml") {
        Some(s) => s,
        None => file_name.to_owned(),
    }
}

/// The name an eval's outputs are filed under, for the config at `path`:
/// `eval` for a default config name (or a path without a file name), else
/// the file name without its suffix.
pub open spec fn spec_fallback_eval_output_name(path: Seq<char>) -> Seq<char> {
    let name = match crate::document::path_file_name(path) {
        Some(n) => n,
        None => "eval"@,
    };
    if spec_is_default_eval_config(name) {
        "eval"@
    } else {
        spec_strip_eval_suffix(name)
    }
}

/// The name outputs of the config at `config_path` are filed under
/// (`fallback_eval_output_name`).
pub fn fallback_eval_output_name(config_path: &str) -> (r: String)
    ensures
        r@ == spec_fallback_eval_output_name(config_path@),
{
    let name = match crate::document::file_name(config_path) {
        Some(n) => n,
        None => "eval".to_owned(),
    };
    if is_default_eval_config(name.as_str()) {
        "eval".to_owned()
    } else {
        strip_eval_suffix(name.as_str())
    }
}

/// The name of an eval: its non-blank `eval_name`, trimmed, else the label
/// of its config file.
pub open spec fn spec_effective_eval_name(c: EvalConfigModel, config_path: Seq<char>) -> Seq<
    char,
> {
    match c.eval_name {
        Some(name) => if !is_blank(name) {
            crate::text::trim(name)
        } else {
            spec_fallback_eval_output_name(config_path)
        },
        None => spec_fallback_eval_output_name(config_path),
    }
}

impl EvalConfig {
    /// The name of the eval read from the config at `config_path`.
    pub fn effective_eval_name(&self, config_path: &str) -> (r: String)
        ensures
            r@ == spec_effective_eval_name(self@, config_path@),
    {
        if let Some(name) = &self.eval_name {
            if !is_blank_str(name.as_str()) {
                return crate::text::trim_str(name.as_str());
            }
        }
        fallback_eval_output_name(config_path)
    }
}

/// What `Regex::new(pattern)` followed by `replace_all(haystack,
/// replacement)` gives: `None` when the pattern does not compile.
pub uninterp spec fn regex_replace_all(
    pattern: Seq<char>,
    haystack: Seq<char>,
    replacement: Seq<char>,
) -> Option<Seq<char>>;

/// Compiles `pattern` with `regex::Regex::new` and, if that succeeds,
/// replaces every match in `haystack` with `replacement` (`replace_all`).
/// The result is named [`regex_replace_all`].
#[verifier::external_body]
fn replace_all_matches(pattern: &str, haystack: &str, replacement: &str) -> (r: Option<String>)
    ensures
        r.deep_view() == regex_replace_all(pattern@, haystack@, replacement@),
{
    regex::Regex::new(pattern).ok().map(|re| re.replace_all(haystack, replacement).into_owned())
}

/// The characters that may stay in a name, as a pattern of the runs that
/// may not.
pub const NAME_UNSAFE_RUNS: &'static str = "[^A-Za-z0-9._-]+";

/// A replaced name with dashes trimmed off both ends, or `eval` if nothing
/// is left.
pub open spec fn spec_finish_name(replaced: Seq<char>) -> Seq<char> {
    let t = crate::text::trim_matches_char(replaced, '-');
    if t.len() == 0 {
        "eval"@
    } else {
        t
    }
}

/// What `sanitize_name` makes of `value`: its trimmed text with every run of
/// unsafe characters replaced by `-`, then finished. `None` only if the
/// pattern did not compile.
pub open spec fn spec_sanitize_name(value: Seq<char>) -> Option<Seq<char>> {
    match regex_replace_all(NAME_UNSAFE_RUNS@, crate::text::trim(value), "-"@) {
        Some(t) => Some(spec_finish_name(t)),
        None => None,
    }
}

/// The last step of [`sanitize_name`]: trims dashes off both ends and falls
/// back to `eval` for an empty result.
pub fn finish_name(replaced: &str) -> (r: String)
    ensures
        r@ == spec_finish_name(replaced@),
{
    let t = crate::text::trim_matches_str(replaced, '-');
    if t.as_str().is_empty() {
        "eval".to_owned()
    } else {
        t
    }
}

/// A name fit for a file name prefix: every run of characters other than
/// ASCII letters, digits, `.`, `_` and `-` becomes one `-`.
pub fn sanitize_name(value: &str) -> (r: Option<String>)
    ensures
        r.deep_view() == spec_sanitize_name(value@),
{
    let trimmed = crate::text::trim_str(value);
    match replace_all_matches(NAME_UNSAFE_RUNS, trimmed.as_str(), "-") {
        Some(t) => Some(finish_name(t.as_str())),
        None => None,
    }
}

// ---------------------------------------------------------------------------
// Project layout and the effective runner configuration
// ---------------------------------------------------------------------------
/// The environment variable that overrides the codex home base directory.
pub const DEFAULT_CODEX_HOME_BASE_ENV: &'static str = "EVAL_CODEX_HOME_BASE_DIR";

/// The runner defaults that ship with the tool, in `eval-config.toml` form.
pub const DEFAULT_EVAL_CONFIG_TOML: &'static str = "# Bundled runtime defaults for evals.\n\n[defaults]\nmax_concurrency = 3\ncodex_timeout_seconds = 180\ncodex_sandbox = \"read-only\"\ncodex_isolation = false\n\n[eval_type.skill]\ncodex_isolation = true\n";

/// The name the bundled defaults go by in errors.
pub const DEFAULT_EVAL_CONFIG_PATH: &'static str = "core/src/eval-config.toml";

/// Where the parts of a tested project live.
#[derive(Debug)]
pub struct ProjectLayout {
    pub root: String,
    pub skills_dir: String,
    pub tests_skills_dir: String,
    pub assets_dir: String,
    pub global_eval_config_path: String,
}

impl ProjectLayout {
    /// The layout is the one of its root.
    pub open spec fn layout_of(self, root: Seq<char>) -> bool {
        &&& self.root@ == root
        &&& self.skills_dir@ == path_join(root, "skills"@)
        &&& self.tests_skills_dir@ == path_join(
            path_join(path_join(root, "tests"@), "src"@),
            "skills"@,
        )
        &&& self.assets_dir@ == path_join(root, ".evelin"@)
        &&& self.global_eval_config_path@ == path_join(root, "eval-config.toml"@)
    }

    /// A project root made absolute: itself when it is, else joined onto
    /// the working directory `cwd` (when that is known).
    pub open spec fn spec_absolute_root(root: Seq<char>, cwd: Option<Seq<char>>) -> Seq<char> {
        if crate::document::path_is_absolute(root) {
            root
        } else {
            match cwd {
                Some(c) => path_join(c, root),
                None => root,
            }
        }
    }

    /// A project root made absolute against the working directory `cwd`:
    /// the result is absolute when the root is, or when a plain relative root
    /// is joined onto an absolute working directory.
    pub fn absolute_root(root: &str, cwd: Option<&str>) -> (r: String)
        ensures
            r@ == Self::spec_absolute_root(root@, opt_text(cwd)),
            (crate::document::path_is_absolute(root@) || (cwd matches Some(c)
                && crate::document::path_is_absolute(c@) && crate::document::plain_part(root@)))
                ==> crate::document::path_is_absolute(r@),
    {
        if crate::document::is_absolute(root) {
            root.to_owned()
        } else {
            match cwd {
                Some(c) => join_path(c, root),
                None => root.to_owned(),
            }
        }
    }

    /// The layout of a project rooted at `root` when that path is absolute;
    /// `None` when it is not.
    pub fn at_root(root: &str) -> (r: Option<ProjectLayout>)
        ensures
            match r {
                Some(l) => crate::document::path_is_absolute(root@) && l.layout_of(root@),
                None => !crate::document::path_is_absolute(root@),
            },
    {
        if crate::document::is_absolute(root) {
            Some(ProjectLayout::discover(root))
        } else {
            None
        }
    }

    /// The layout of a project rooted at `root`, which the caller has made
    /// absolute (see [`ProjectLayout::absolute_root`]) and canonical.
    pub fn discover(root: &str) -> (r: ProjectLayout)
        requires
            crate::document::path_is_absolute(root@),
        ensures
            r.layout_of(root@),
            crate::document::path_is_absolute(r.root@),
            crate::document::path_is_absolute(r.skills_dir@),
            crate::document::path_is_absolute(r.tests_skills_dir@),
            crate::document::path_is_absolute(r.assets_dir@),
            crate::document::path_is_absolute(r.global_eval_config_path@),
    {
        proof {
            reveal_strlit("tests");
            reveal_strlit("src");
            reveal_strlit("skills");
            reveal_strlit(".evelin");
            reveal_strlit("eval-config.toml");
        }
        let tests = join_path(root, "tests");
        let tests_src = join_path(tests.as_str(), "src");
        ProjectLayout {
            skills_dir: join_path(root, "skills"),
            tests_skills_dir: join_path(tests_src.as_str(), "skills"),
            assets_dir: join_path(root, ".evelin"),
            global_eval_config_path: join_path(root, "eval-config.toml"),
            root: root.to_owned(),
        }
    }

    /// `value` as a path in the project: itself when absolute, else under the
    /// root. Under an absolute root an absolute or plain relative value gives
    /// an absolute result, and resolving an absolute result again gives it
    /// back.
    pub fn resolve(&self, value: &str) -> (r: String)
        ensures
            r@ == crate::document::spec_resolve_path(self.root@, value@),
            crate::document::path_is_absolute(self.root@) && (crate::document::path_is_absolute(
                value@,
            ) || crate::document::plain_part(value@)) ==> crate::document::path_is_absolute(r@),
            crate::document::path_is_absolute(r@) ==> crate::document::spec_resolve_path(
                self.root@,
                r@,
            ) == r@,
    {
        crate::document::resolve_path(self.root.as_str(), value)
    }
}

/// The global eval configuration: the bundled defaults, with the project's
/// `eval-config.toml` (its text, if the file exists) laid over them.
pub open spec fn spec_load_global(config_path: Seq<char>, project: Option<Seq<char>>) -> Result<
    GlobalModel,
    ErrorModel,
> {
    match spec_global_from_toml(DEFAULT_EVAL_CONFIG_TOML@, DEFAULT_EVAL_CONFIG_PATH@) {
        Err(e) => Err(e),
        Ok(bundled) => match project {
            None => Ok(bundled),
            Some(text) => match crate::document::spec_document(config_path, text) {
                Err(e) => Err(e),
                Ok(v) => match spec_parse_global(v) {
                    Err(e) => Err(e),
                    Ok(g) => Ok(overlay_global(bundled, g)),
                },
            },
        },
    }
}

/// The text of an optional string.
pub open spec fn opt_text(o: Option<&str>) -> Option<Seq<char>> {
    match o {
        Some(s) => Some(s@),
        None => None,
    }
}

impl ProjectLayout {
    /// Loads the global eval configuration; `project_config` is the text of
    /// the project's `eval-config.toml` when that file exists.
    pub fn load_global_eval_config(&self, project_config: Option<&str>) -> (r: Result<
        GlobalEvalConfig,
        EvelinError,
    >)
        ensures
            res_view(r) == spec_load_global(self.global_eval_config_path@, opt_text(project_config)),
            r matches Ok(g) ==> g.wf(),
    {
        let mut global = match GlobalEvalConfig::from_toml_str(
            DEFAULT_EVAL_CONFIG_TOML,
            DEFAULT_EVAL_CONFIG_PATH,
        ) {
            Ok(g) => g,
            Err(e) => {
                return Err(e);
            },
        };
        if let Some(text) = project_config {
            let value = match crate::document::document_from_text(
                self.global_eval_config_path.as_str(),
                text,
            ) {
                Ok(v) => v,
                Err(e) => {
                    return Err(e);
                },
            };
            let overlay = match GlobalEvalConfig::from_document(&value) {
                Ok(o) => o,
                Err(e) => {
                    return Err(e);
                },
            };
            global.apply_overlay(overlay);
        }
        Ok(global)
    }
}

/// The settings a suite config sets inline.
pub open spec fn inline_patch(c: EvalConfigModel) -> PatchModel {
    PatchModel {
        max_concurrency: c.max_concurrency,
        codex_timeout_seconds: c.codex_timeout_seconds,
        codex_sandbox: c.codex_sandbox,
        codex_model: c.codex_model,
        codex_reasoning_effort: c.codex_reasoning_effort,
        codex_extra_args: c.codex_extra_args,
        codex_isolation: c.codex_isolation,
        codex_home_base_dir: c.codex_home_base_dir,
    }
}

/// The runner settings for an eval, layered from lowest to highest
/// precedence: built-in defaults, the global `[defaults]`, the global
/// `[eval_type.<type>]`, the suite config's own settings, and a non-blank
/// `EVAL_CODEX_HOME_BASE_DIR` for the home base directory.
pub open spec fn spec_effective_settings(
    g: GlobalModel,
    c: EvalConfigModel,
    home_base_env: Option<Seq<char>>,
) -> SettingsModel {
    let d1 = apply(g.defaults, builtin_defaults());
    let name = c.eval_type.name();
    let d2 = if g.eval_type.contains_key(name) {
        apply(g.eval_type[name], d1)
    } else {
        d1
    };
    let d3 = apply(inline_patch(c), d2);
    match home_base_env {
        Some(h) => if !is_blank(h) {
            SettingsModel { codex_home_base_dir: Some(h), ..d3 }
        } else {
            d3
        },
        None => d3,
    }
}

/// The patch of eval type `name` in a global configuration; the empty patch
/// when it has none.
pub open spec fn type_patch(g: GlobalModel, name: Seq<char>) -> PatchModel {
    if g.eval_type.contains_key(name) {
        g.eval_type[name]
    } else {
        empty_patch()
    }
}

/// Without `EVAL_CODEX_HOME_BASE_DIR`, the effective settings are the
/// built-in defaults with the global `[defaults]`, the eval type's section
/// and the suite config's own settings merged in that order laid over them.
pub proof fn law_effective_settings_layers(g: GlobalModel, c: EvalConfigModel)
    ensures
        spec_effective_settings(g, c, None) == apply(
            merge(merge(g.defaults, type_patch(g, c.eval_type.name())), inline_patch(c)),
            builtin_defaults(),
        ),
{
    let d1 = apply(g.defaults, builtin_defaults());
    let tp = type_patch(g, c.eval_type.name());
    law_apply_empty(d1);
    law_apply_merge(g.defaults, tp, builtin_defaults());
    law_apply_merge(merge(g.defaults, tp), inline_patch(c), builtin_defaults());
}

/// A setting the suite config gives itself wins over every global layer;
/// a non-blank `EVAL_CODEX_HOME_BASE_DIR` wins over everything for the home
/// base directory.
pub proof fn law_inline_settings_win(
    g: GlobalModel,
    c: EvalConfigModel,
    home_base_env: Option<Seq<char>>,
)
    ensures
        ({
            let s = spec_effective_settings(g, c, home_base_env);
            &&& c.max_concurrency is Some ==> s.max_concurrency == c.max_concurrency.unwrap()
            &&& c.codex_timeout_seconds is Some ==> s.codex_timeout_seconds
                == c.codex_timeout_seconds.unwrap()
            &&& c.codex_sandbox is Some ==> s.codex_sandbox == c.codex_sandbox.unwrap()
            &&& c.codex_extra_args is Some ==> s.codex_extra_args == c.codex_extra_args.unwrap()
            &&& c.codex_isolation is Some ==> s.codex_isolation == c.codex_isolation.unwrap()
            &&& c.codex_model is Some ==> s.codex_model == override_text(c.codex_model, None)
            &&& c.codex_reasoning_effort is Some ==> s.codex_reasoning_effort == override_text(
                c.codex_reasoning_effort,
                None,
            )
            &&& (home_base_env is None && c.codex_home_base_dir is Some) ==> s.codex_home_base_dir
                == override_text(c.codex_home_base_dir, None)
            &&& (home_base_env is Some && !is_blank(home_base_env.unwrap())) ==> s.codex_home_base_dir
                == home_base_env
        }),
{
}

/// The effective runner configuration, or why there is none.
pub open spec fn spec_effective_runner_config(
    config_path: Seq<char>,
    project: Option<Seq<char>>,
    c: EvalConfigModel,
    home_base_env: Option<Seq<char>>,
) -> Result<SettingsModel, ErrorModel> {
    match spec_load_global(config_path, project) {
        Err(e) => Err(e),
        Ok(g) => {
            let s = spec_effective_settings(g, c, home_base_env);
            match runner_config_problem(s) {
                Some(p) => Err(p),
                None => Ok(s),
            }
        },
    }
}

/// The runner configuration an eval runs with. `project_config` is the text
/// of the project's `eval-config.toml` when it exists, `home_base_env` the
/// value of `EVAL_CODEX_HOME_BASE_DIR` when it is set.
pub fn effective_runner_config(
    layout: &ProjectLayout,
    config: &EvalConfig,
    project_config: Option<&str>,
    home_base_env: Option<&str>,
) -> (r: Result<RunnerConfig, EvelinError>)
    ensures
        res_view(r) == spec_effective_runner_config(
            layout.global_eval_config_path@,
            opt_text(project_config),
            config@,
            opt_text(home_base_env),
        ),
{
    let mut defaults = RunnerDefaults::default();
    let global = match layout.load_global_eval_config(project_config) {
        Ok(g) => g,
        Err(e) => {
            return Err(e);
        },
    };
    global.defaults.apply_to(&mut defaults);
    let name = config.eval_type.as_str();
    proof {
        lemma_entries_map_domain(global.eval_type@, name@);
    }
    match find_entry(&global.eval_type, name) {
        Some(i) => {
            proof {
                lemma_entries_map_at(global.eval_type@, i as int);
            }
            global.eval_type[i].1.apply_to(&mut defaults);
        },
        None => {},
    }
    let inline = RunnerDefaultsPatch {
        max_concurrency: config.max_concurrency,
        codex_timeout_seconds: config.codex_timeout_seconds,
        codex_sandbox: copy_opt_string(&config.codex_sandbox),
        codex_model: copy_opt_string(&config.codex_model),
        codex_reasoning_effort: copy_opt_string(&config.codex_reasoning_effort),
        codex_extra_args: copy_opt_strings(&config.codex_extra_args),
        codex_isolation: config.codex_isolation,
        codex_home_base_dir: copy_opt_string(&config.codex_home_base_dir),
    };
    inline.apply_to(&mut defaults);
    if let Some(home_base) = home_base_env {
        if !is_blank_str(home_base) {
            defaults.codex_home_base_dir = Some(home_base.to_owned());
        }
    }
    let runner = RunnerConfig {
        max_concurrency: defaults.max_concurrency,
        codex_timeout_seconds: defaults.codex_timeout_seconds,
        codex_sandbox: defaults.codex_sandbox,
        codex_model: defaults.codex_model,
        codex_reasoning_effort: defaults.codex_reasoning_effort,
        codex_extra_args: defaults.codex_extra_args,
        codex_isolation: defaults.codex_isolation,
        codex_home_base_dir: defaults.codex_home_base_dir,
    };
    match runner.validate() {
        Ok(()) => Ok(runner),
        Err(e) => Err(e),
    }
}

/// What the suite config at `path` with text `text` reads as: its document
/// must pass the suite schema checks before its settings are read.
pub open spec fn spec_from_path(
    path: Seq<char>,
    text: Seq<char>,
    root: Seq<char>,
    prompts: Option<Result<Seq<char>, ErrorModel>>,
) -> Result<EvalConfigModel, ErrorModel> {
    match crate::document::spec_document(path, text) {
        Err(e) => Err(e),
        Ok(v) => {
            let errors = crate::schema::spec_validate_suite_document(path, v);
            if errors.len() > 0 {
                Err(msg("Schema validation failed: "@ + crate::text::join(errors, " | "@)))
            } else {
                spec_from_value(v, root, prompts)
            }
        },
    }
}

impl EvalConfig {
    /// Reads the suite config at `path` out of its text `text`. Relative
    /// paths resolve against `root`; `prompts` is the text of the prompts
    /// file the config names (see [`EvalConfig::prompts_file_path`]), or the
    /// error of reading it.
    pub fn from_path(
        path: &str,
        text: &str,
        root: &str,
        prompts: Option<Result<String, EvelinError>>,
    ) -> (r: Result<EvalConfig, EvelinError>)
        requires
            crate::document::spec_document(path@, text@) matches Ok(v) && spec_prompts_path(
                v,
                root@,
            ) is Some ==> prompts is Some,
        ensures
            res_view(r) == spec_from_path(path@, text@, root@, read_view(prompts)),
    {
        let value = match crate::document::document_from_text(path, text) {
            Ok(v) => v,
            Err(e) => {
                return Err(e);
            },
        };
        let errors = crate::schema::validate_suite_document(path, &value);
        if errors.len() > 0 {
            let joined = crate::text::join_strings(&errors, " | ");
            assert(errors@.map_values(|p: String| p@) =~= errors.deep_view());
            return Err(EvelinError::Message(cat("Schema validation failed: ", joined.as_str())));
        }
        EvalConfig::from_value(&value, root, prompts)
    }
}


/// The text of a document entry that is a string.
pub open spec fn entry_text(value: Option<Json>) -> Option<Seq<char>> {
    match value {
        Some(Json::Str(s)) => Some(s@),
        _ => None,
    }
}

/// A runner patch that reads keeps every setting as the document writes
/// it: each text setting is the string under its name (or unset when the
/// name is absent), the counts and the flag are the numbers and boolean
/// written, and the extra arguments are the strings of its list.
pub proof fn law_patch_reads_document(value: Json)
    ensures
        spec_parse_patch(value) matches Ok(p) ==> ({
            let obj = value->Object_0@;
            &&& value is Object
            &&& p.codex_model == entry_text(lookup(obj, "codex_model"@))
            &&& p.codex_sandbox == entry_text(lookup(obj, "codex_sandbox"@))
            &&& p.codex_reasoning_effort == entry_text(lookup(obj, "codex_reasoning_effort"@))
            &&& p.codex_home_base_dir == entry_text(lookup(obj, "codex_home_base_dir"@))
            &&& (lookup(obj, "codex_model"@) is Some ==> p.codex_model is Some)
            &&& (lookup(obj, "codex_sandbox"@) is Some ==> p.codex_sandbox is Some)
            &&& (lookup(obj, "codex_reasoning_effort"@) is Some ==> p.codex_reasoning_effort is Some)
            &&& (lookup(obj, "codex_home_base_dir"@) is Some ==> p.codex_home_base_dir is Some)
            &&& p.codex_isolation == match lookup(obj, "codex_isolation"@) {
                Some(Json::Bool(b)) => Some(b),
                _ => None,
            }
            &&& p.codex_timeout_seconds == match lookup(obj, "codex_timeout_seconds"@) {
                Some(Json::Number(JsonNumber::PosInt(n))) => Some(n),
                _ => None,
            }
            &&& p.max_concurrency == match lookup(obj, "max_concurrency"@) {
                Some(Json::Number(JsonNumber::PosInt(n))) => Some(n as usize),
                _ => None,
            }
        }),
{
    reveal_with_fuel(first_error, 9);
}

/// A model set in the global `[defaults]` reaches the runner settings when
/// neither the eval type's section nor the suite config sets one (and no
/// home-directory override matters to it).
pub proof fn law_defaults_model_reaches_runner(
    g: GlobalModel,
    c: EvalConfigModel,
    home_base_env: Option<Seq<char>>,
    model: Seq<char>,
)
    requires
        g.defaults.codex_model == Some(model),
        !is_blank(model),
        type_patch(g, c.eval_type.name()).codex_model is None,
        c.codex_model is None,
    ensures
        spec_effective_settings(g, c, home_base_env).codex_model == Some(model),
{
}

} // verus!
