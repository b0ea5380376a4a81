use vstd::prelude::*;
use crate::error::RuntimeError;
use crate::text::same_text;
use crate::json::{encode, json_equiv, json_wf, lemma_equiv_encode, write_json, JsonValue};
use std::collections::hash_map::DefaultHasher;
use std::hash::Hasher;
use vstd::std_specs::hash::DefaultHasherAdditionalSpecFns;

verus! {

/// The kind of inference task a model performs.
#[derive(Debug, Clone, Copy, PartialEq, Eq, Structural, Hash)]
pub enum ModelTask {
    /// Dense vector embeddings of texts.
    Embed,
    /// Re-scoring of documents against a query.
    Rerank,
    /// Text generation.
    Generate,
}

/// When a model or provider is initialised during startup.
#[derive(Debug, Clone, Copy, PartialEq, Eq, Structural, Hash)]
pub enum WarmupPolicy {
    /// During construction of the runtime, which waits for it.
    Eager,
    /// On first use.
    Lazy,
    /// In a detached task started during construction.
    Background,
}

impl Default for WarmupPolicy {
    fn default() -> (r: WarmupPolicy)
        ensures
            r == WarmupPolicy::Lazy,
    {
        WarmupPolicy::Lazy
    }
}

/// The lower-case name of a warmup policy.
pub open spec fn policy_name(p: WarmupPolicy) -> Seq<char> {
    match p {
        WarmupPolicy::Eager => "eager"@,
        WarmupPolicy::Lazy => "lazy"@,
        WarmupPolicy::Background => "background"@,
    }
}

/// The lower-case name of a task.
pub open spec fn task_name(t: ModelTask) -> Seq<char> {
    match t {
        ModelTask::Embed => "embed"@,
        ModelTask::Rerank => "rerank"@,
        ModelTask::Generate => "generate"@,
    }
}

impl WarmupPolicy {
    /// The policy's lower-case name: `eager`, `lazy` or `background`.
    pub fn to_string(&self) -> (r: String)
        ensures
            r@ == policy_name(*self),
    {
        match self {
            WarmupPolicy::Eager => String::from_str("eager"),
            WarmupPolicy::Lazy => String::from_str("lazy"),
            WarmupPolicy::Background => String::from_str("background"),
        }
    }
}

impl ModelTask {
    /// The task's lower-case name: `embed`, `rerank` or `generate`.
    pub fn to_string(&self) -> (r: String)
        ensures
            r@ == task_name(*self),
    {
        match self {
            ModelTask::Embed => String::from_str("embed"),
            ModelTask::Rerank => String::from_str("rerank"),
            ModelTask::Generate => String::from_str("generate"),
        }
    }
}

/// Exponential-backoff retries of transient inference failures.
#[derive(Debug, Clone, Copy, PartialEq, Eq, Structural)]
pub struct RetryConfig {
    /// Attempts in all, the first call included.
    pub max_attempts: u32,
    /// Delay before the second attempt, doubled for each one after it.
    pub initial_backoff_ms: u64,
}

impl Default for RetryConfig {
    fn default() -> (r: RetryConfig)
        ensures
            r.max_attempts == 3,
            r.initial_backoff_ms == 100,
    {
        RetryConfig { max_attempts: 3, initial_backoff_ms: 100 }
    }
}

pub open spec fn pow2(n: nat) -> nat
    decreases n,
{
    if n == 0 {
        1
    } else {
        2 * pow2((n - 1) as nat)
    }
}

proof fn lemma_pow2_grows(k: nat, n: nat)
    requires
        k <= n,
    ensures
        1 <= pow2(k) <= pow2(n),
    decreases n,
{
    if n > 0 {
        if k < n {
            lemma_pow2_grows(k, (n - 1) as nat);
        } else {
            lemma_pow2_grows(0, (n - 1) as nat);
        }
    }
}

/// `x` cut down to the largest `u64`.
pub open spec fn saturate(x: int) -> u64 {
    if x > u64::MAX {
        u64::MAX
    } else {
        x as u64
    }
}

/// The delay in milliseconds before attempt `attempt + 1` (`attempt` counts
/// from one): `initial * 2^(attempt - 1)`, saturating.
pub open spec fn backoff_ms(initial: u64, attempt: u32) -> u64 {
    let e: nat = if attempt == 0 { 0 } else { (attempt - 1) as nat };
    saturate(initial * pow2(e))
}

impl RetryConfig {
    /// The backoff in milliseconds after the failed attempt `attempt`
    /// (one-based): `initial_backoff_ms * 2^(attempt - 1)`, saturating.
    pub fn backoff_millis(&self, attempt: u32) -> (r: u64)
        ensures
            r == backoff_ms(self.initial_backoff_ms, attempt),
    {
        let n: u32 = attempt.saturating_sub(1);
        let initial = self.initial_backoff_ms;
        let mut r: u64 = initial;
        let mut k: u32 = 0;
        assert(pow2(0) == 1);
        while k < n && r != 0 && r != u64::MAX
            invariant
                k <= n,
                r == saturate(initial * pow2(k as nat)),
            decreases n - k,
        {
            proof {
                lemma_pow2_grows(0, k as nat);
                assert(initial * pow2((k + 1) as nat) == 2 * (initial * pow2(k as nat))) by (nonlinear_arith)
                    requires pow2((k + 1) as nat) == 2 * pow2(k as nat);
            }
            r = match r.checked_mul(2) {
                Some(d) => d,
                None => u64::MAX,
            };
            k = k + 1;
        }
        proof {
            lemma_pow2_grows(k as nat, n as nat);
            let pk = pow2(k as nat);
            let pn = pow2(n as nat);
            assert(initial * pk <= initial * pn) by (nonlinear_arith)
                requires pk <= pn;
            if r == 0 {
                assert(initial == 0) by (nonlinear_arith)
                    requires initial * pk == 0, pk >= 1;
                assert(initial * pn == 0) by (nonlinear_arith)
                    requires initial == 0;
            }
        }
        r
    }

    /// The backoff after the failed attempt `attempt` (one-based), as a
    /// duration of `backoff_millis(attempt)` milliseconds.
    pub fn get_backoff(&self, attempt: u32) -> std::time::Duration {
        millis_duration(self.backoff_millis(attempt))
    }
}

/// Relies on `Duration::from_millis`: a duration of `ms` milliseconds.
#[verifier::external_body]
fn millis_duration(ms: u64) -> std::time::Duration {
    std::time::Duration::from_millis(ms)
}

/// A catalog entry: maps an alias to a provider and a model.
#[derive(Debug)]
pub struct ModelAliasSpec {
    /// Name used to request the model, in `category/name` form.
    pub alias: String,
    /// The task that the alias serves.
    pub task: ModelTask,
    /// The provider that loads the model.
    pub provider_id: String,
    /// The model, as the provider names it.
    pub model_id: String,
    /// Upstream revision (branch, tag or commit).
    pub revision: Option<String>,
    /// When the model is loaded.
    pub warmup: WarmupPolicy,
    /// Whether a failed eager warmup aborts construction of the runtime.
    pub required: bool,
    /// Per-inference timeout in seconds; none when unset.
    pub timeout: Option<u64>,
    /// Load timeout in seconds; `DEFAULT_LOAD_TIMEOUT_SECS` when unset.
    pub load_timeout: Option<u64>,
    /// Retries of transient inference failures.
    pub retry: Option<RetryConfig>,
    /// Provider-specific options.
    pub options: JsonValue,
}

impl Clone for ModelAliasSpec {
    /// A copy with the same fields; the options are copied deeply, so the copy
    /// has the same key.
    fn clone(&self) -> (r: ModelAliasSpec)
        ensures
            r.alias@ == self.alias@,
            r.task == self.task,
            r.provider_id@ == self.provider_id@,
            r.model_id@ == self.model_id@,
            revision_view(r.revision) == revision_view(self.revision),
            r.warmup == self.warmup,
            r.required == self.required,
            r.timeout == self.timeout,
            r.load_timeout == self.load_timeout,
            r.retry == self.retry,
            runtime_key(r) == runtime_key(*self),
    {
        ModelAliasSpec {
            alias: self.alias.clone(),
            task: self.task,
            provider_id: self.provider_id.clone(),
            model_id: self.model_id.clone(),
            revision: clone_revision(&self.revision),
            warmup: self.warmup,
            required: self.required,
            timeout: self.timeout,
            load_timeout: self.load_timeout,
            retry: self.retry,
            options: self.options.copy(),
        }
    }
}

/// Load timeout used when a spec sets none.
pub const DEFAULT_LOAD_TIMEOUT_SECS: u64 = 600;

/// The texts contain the character `c`.
pub open spec fn has_char(s: Seq<char>, c: char) -> bool {
    exists|i: int| 0 <= i < s.len() && s[i] == c
}

/// Whether `s` contains the character `c`.
pub fn contains_char(s: &str, c: char) -> (r: bool)
    ensures
        r == has_char(s@, c),
{
    let n = s.unicode_len();
    let mut i: usize = 0;
    while i < n
        invariant
            n == s@.len(),
            i <= n,
            forall|p: int| 0 <= p < i ==> s@[p] != c,
        decreases n - i,
    {
        if s.get_char(i) == c {
            return true;
        }
        i = i + 1;
    }
    false
}

/// Which invariant of a spec fails first, if any.
pub enum SpecFault {
    EmptyAlias,
    AliasWithoutSlash,
    ZeroTimeout,
    ZeroLoadTimeout,
}

/// The first invariant that a spec breaks, in the order in which they are
/// checked; none for a valid spec.
pub open spec fn spec_fault(s: ModelAliasSpec) -> Option<SpecFault> {
    if s.alias@.len() == 0 {
        Some(SpecFault::EmptyAlias)
    } else if !has_char(s.alias@, '/') {
        Some(SpecFault::AliasWithoutSlash)
    } else if s.timeout == Some(0u64) {
        Some(SpecFault::ZeroTimeout)
    } else if s.load_timeout == Some(0u64) {
        Some(SpecFault::ZeroLoadTimeout)
    } else {
        None
    }
}

/// A spec is valid: its alias is non-empty and holds a `/`, and neither
/// timeout is zero.
pub open spec fn spec_valid(s: ModelAliasSpec) -> bool {
    s.alias@.len() > 0 && has_char(s.alias@, '/') && s.timeout != Some(0u64) && s.load_timeout
        != Some(0u64)
}

/// The message of the configuration error for a fault of `s`.
pub open spec fn fault_message(s: ModelAliasSpec, f: SpecFault) -> Seq<char> {
    match f {
        SpecFault::EmptyAlias => "Alias cannot be empty"@,
        SpecFault::AliasWithoutSlash => "Alias '"@ + s.alias@ + "' must be in 'task/name' format"@,
        SpecFault::ZeroTimeout => "Inference timeout must be greater than 0"@,
        SpecFault::ZeroLoadTimeout => "Load timeout must be greater than 0"@,
    }
}

/// `r` is a configuration error whose message is `m`.
pub open spec fn is_config_error(r: RuntimeError, m: Seq<char>) -> bool {
    r is Config && r->Config_0@ == m
}

fn config_error(parts: &str) -> (r: RuntimeError)
    ensures
        is_config_error(r, parts@),
{
    RuntimeError::Config(String::from_str(parts))
}

impl ModelAliasSpec {
    /// Checks the invariants: the alias is non-empty and holds a `/`, and
    /// neither timeout is zero when set.
    pub fn validate(&self) -> (r: Result<(), RuntimeError>)
        ensures
            r is Ok <==> spec_valid(*self),
            r is Ok <==> spec_fault(*self) is None,
            r is Err ==> is_config_error(r->Err_0, fault_message(*self, spec_fault(*self)->0)),
    {
        if self.alias.unicode_len() == 0 {
            return Err(config_error("Alias cannot be empty"));
        }
        if !contains_char(self.alias.as_str(), '/') {
            let mut m = String::from_str("Alias '");
            m.append(self.alias.as_str());
            m.append("' must be in 'task/name' format");
            return Err(RuntimeError::Config(m));
        }
        if self.timeout == Some(0u64) {
            return Err(config_error("Inference timeout must be greater than 0"));
        }
        if self.load_timeout == Some(0u64) {
            return Err(config_error("Load timeout must be greater than 0"));
        }
        Ok(())
    }

    /// The load timeout in seconds: the one set, else the default.
    pub fn load_timeout_secs(&self) -> (r: u64)
        ensures
            r == match self.load_timeout {
                Some(t) => t,
                None => DEFAULT_LOAD_TIMEOUT_SECS,
            },
    {
        match self.load_timeout {
            Some(t) => t,
            None => DEFAULT_LOAD_TIMEOUT_SECS,
        }
    }
}

/// Checks every spec of a catalog, in order; the error is that of the first
/// invalid one.
pub fn validate_catalog(specs: &Vec<ModelAliasSpec>) -> (r: Result<(), RuntimeError>)
    ensures
        r is Ok <==> forall|i: int| 0 <= i < specs@.len() ==> spec_valid(#[trigger] specs@[i]),
        r is Err ==> exists|i: int|
            0 <= i < specs@.len() && !spec_valid(#[trigger] specs@[i]) && (forall|j: int|
                0 <= j < i ==> spec_valid(#[trigger] specs@[j])) && is_config_error(
                r->Err_0,
                fault_message(specs@[i], spec_fault(specs@[i])->0),
            ),
{
    let mut i: usize = 0;
    while i < specs.len()
        invariant
            i <= specs@.len(),
            forall|j: int| 0 <= j < i ==> spec_valid(#[trigger] specs@[j]),
        decreases specs@.len() - i,
    {
        match specs[i].validate() {
            Ok(()) => {}
            Err(e) => {
                return Err(e);
            }
        }
        i = i + 1;
    }
    Ok(())
}

/// The deduplication key: aliases whose specs agree on task, provider, model,
/// revision and options share one loaded instance.
#[derive(Debug, Clone, PartialEq, Eq, Hash)]
pub struct ModelRuntimeKey {
    pub task: ModelTask,
    pub provider_id: String,
    pub model_id: String,
    pub revision: Option<String>,
    /// Hash of the canonical encoding of the options.
    pub variant_hash: u64,
}

/// What a key is made of, as plain values.
pub struct KeyView {
    pub task: ModelTask,
    pub provider_id: Seq<char>,
    pub model_id: Seq<char>,
    pub revision: Option<Seq<char>>,
    pub variant_hash: u64,
}

pub open spec fn revision_view(r: Option<String>) -> Option<Seq<char>> {
    match r {
        Some(s) => Some(s@),
        None => None,
    }
}

/// The hash of a value's canonical encoding, written to a fresh
/// `DefaultHasher` in one piece.
pub open spec fn options_hash(v: JsonValue) -> u64 {
    DefaultHasher::spec_finish(seq![encode(v)])
}

/// The key of a spec.
pub open spec fn runtime_key(s: ModelAliasSpec) -> KeyView {
    KeyView {
        task: s.task,
        provider_id: s.provider_id@,
        model_id: s.model_id@,
        revision: revision_view(s.revision),
        variant_hash: options_hash(s.options),
    }
}

impl View for ModelRuntimeKey {
    type V = KeyView;

    open spec fn view(&self) -> KeyView {
        KeyView {
            task: self.task,
            provider_id: self.provider_id@,
            model_id: self.model_id@,
            revision: revision_view(self.revision),
            variant_hash: self.variant_hash,
        }
    }
}

fn clone_revision(r: &Option<String>) -> (c: Option<String>)
    ensures
        revision_view(c) == revision_view(*r),
{
    match r {
        Some(s) => Some(s.clone()),
        None => None,
    }
}

impl ModelRuntimeKey {
    /// The key of `spec`; the options are hashed in canonical form, with object
    /// keys in sorted order.
    pub fn new(spec: &ModelAliasSpec) -> (r: ModelRuntimeKey)
        ensures
            r@ == runtime_key(*spec),
    {
        let mut bytes: Vec<u8> = Vec::new();
        write_json(&spec.options, &mut bytes);
        let mut hasher = DefaultHasher::new();
        hasher.write(bytes.as_slice());
        proof {
            assert(bytes@ =~= encode(spec.options));
            assert(hasher@ =~= seq![encode(spec.options)]);
        }
        ModelRuntimeKey {
            task: spec.task,
            provider_id: spec.provider_id.clone(),
            model_id: spec.model_id.clone(),
            revision: clone_revision(&spec.revision),
            variant_hash: hasher.finish(),
        }
    }

    /// Whether two keys are equal.
    pub fn same(&self, other: &ModelRuntimeKey) -> (r: bool)
        ensures
            r == (self@ == other@),
    {
        let rev = match &self.revision {
            Some(a) => match &other.revision {
                Some(b) => same_text(a.as_str(), b.as_str()),
                None => false,
            },
            None => other.revision.is_none(),
        };
        let t = self.task == other.task;
        let p = self.provider_id == other.provider_id;
        let m = self.model_id == other.model_id;
        let h = self.variant_hash == other.variant_hash;
        proof {
            assert(rev == (revision_view(self.revision) == revision_view(other.revision)));
        }
        t && p && m && rev && h
    }
}

/// Specs that differ at most in alias, warmup, flags, timeouts, retries and in
/// the order of keys inside their options objects have the same key.
pub proof fn lemma_key_ignores_option_order(a: ModelAliasSpec, b: ModelAliasSpec)
    requires
        a.task == b.task,
        a.provider_id@ == b.provider_id@,
        a.model_id@ == b.model_id@,
        revision_view(a.revision) == revision_view(b.revision),
        json_wf(a.options),
        json_wf(b.options),
        json_equiv(a.options, b.options),
    ensures
        runtime_key(a) == runtime_key(b),
{
    lemma_equiv_encode(a.options, b.options);
}

/// Valid specs are exactly those with a non-empty alias holding a `/` and no
/// zero timeout: a spec that breaks any of these is rejected, and one that
/// keeps them all is accepted whatever its other fields hold.
pub proof fn lemma_validation_exact(s: ModelAliasSpec)
    ensures
        s.alias@.len() == 0 ==> spec_fault(s) is Some,
        !has_char(s.alias@, '/') ==> spec_fault(s) is Some,
        s.timeout == Some(0u64) ==> spec_fault(s) is Some,
        s.load_timeout == Some(0u64) ==> spec_fault(s) is Some,
        spec_valid(s) ==> spec_fault(s) is None,
{
}

} // verus!
