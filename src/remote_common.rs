use vstd::prelude::*;
use crate::api::{KeyView, ModelRuntimeKey};
use crate::error::RuntimeError;
use crate::json::JsonValue;

verus! {

/// Maps an HTTP response status to the runtime's errors: 2xx is success, 429
/// rate limiting, 401 and 403 missing authorisation, 5xx unavailability, and
/// any other status an API error naming the provider and the status.
/// `status_text` is how the status is shown, such as `404 Not Found`.
pub fn check_http_status(provider_name: &str, status: u16, status_text: &str) -> (r: Result<(), RuntimeError>)
    ensures
        r is Ok <==> 200 <= status <= 299,
        status == 429 ==> r == Err::<(), RuntimeError>(RuntimeError::RateLimited),
        (status == 401 || status == 403) ==> r == Err::<(), RuntimeError>(RuntimeError::Unauthorized),
        500 <= status <= 599 ==> r == Err::<(), RuntimeError>(RuntimeError::Unavailable),
        !(200 <= status <= 299) && status != 429 && status != 401 && status != 403 && !(500 <= status
            <= 599) ==> r is Err && r->Err_0 is ApiError && r->Err_0->ApiError_0@ == provider_name@
            + " API error: "@ + status_text@,
{
    if 200 <= status && status <= 299 {
        return Ok(());
    }
    if status == 429 {
        Err(RuntimeError::RateLimited)
    } else if status == 401 || status == 403 {
        Err(RuntimeError::Unauthorized)
    } else if 500 <= status && status <= 599 {
        Err(RuntimeError::Unavailable)
    } else {
        let mut m = String::from_str(provider_name);
        m.append(" API error: ");
        m.append(status_text);
        Err(RuntimeError::ApiError(m))
    }
}

/// The name of the environment variable that holds the credential: the
/// string under `option_key` in the options when there is one, else
/// `default_env`.
pub open spec fn key_env_name(options: JsonValue, option_key: Seq<char>, default_env: Seq<char>) -> Seq<char> {
    match options {
        JsonValue::Object(m) => match m.lookup(option_key) {
            Some(JsonValue::Str(s)) => s@,
            _ => default_env,
        },
        _ => default_env,
    }
}

/// The environment variable to read a credential from: the option
/// `option_key` overrides `default_env` when it holds a string.
pub fn api_key_env_name(options: &JsonValue, option_key: &str, default_env: &str) -> (r: String)
    ensures
        r@ == key_env_name(*options, option_key@, default_env@),
{
    match options {
        JsonValue::Object(m) => match m.get(option_key) {
            Some(v) => match v {
                JsonValue::Str(s) => s.clone(),
                _ => String::from_str(default_env),
            },
            None => String::from_str(default_env),
        },
        _ => String::from_str(default_env),
    }
}

/// The configuration error for a credential variable that is not set.
pub fn missing_credential(env_name: &str) -> (r: RuntimeError)
    ensures
        r is Config,
        r->Config_0@ == env_name@ + " env var not set"@,
{
    let mut m = String::from_str(env_name);
    m.append(" env var not set");
    RuntimeError::Config(m)
}

/// Milliseconds after its last use that a breaker is dropped.
pub const BREAKER_TTL_MS: u64 = 1_800_000;

/// Least milliseconds between two sweeps of the breaker table.
pub const CLEANUP_INTERVAL_MS: u64 = 300_000;

/// Milliseconds from `from` to `to`, zero when `to` is earlier.
pub open spec fn since(to: u64, from: u64) -> int {
    if to >= from {
        to - from
    } else {
        0
    }
}

/// One breaker per deduplication key, each with the time of its last use.
/// Entries unused for `BREAKER_TTL_MS` are dropped by a sweep that runs at
/// most once per `CLEANUP_INTERVAL_MS`, on a lookup. `B` is the shared
/// breaker handle.
#[derive(Debug)]
pub struct BreakerTable<B> {
    entries: Vec<(ModelRuntimeKey, B, u64)>,
    last_cleanup_ms: u64,
}

/// Whether an entry last used at `last` is kept by a sweep at `now`.
pub open spec fn fresh_at(last: u64, now: u64) -> bool {
    since(now, last) < BREAKER_TTL_MS
}

/// The entries that a sweep at `now` keeps, in order.
pub open spec fn sweep<B>(s: Seq<(ModelRuntimeKey, B, u64)>, now: u64) -> Seq<(ModelRuntimeKey, B, u64)>
    decreases s.len(),
{
    if s.len() == 0 {
        s
    } else {
        (if fresh_at(s[0].2, now) {
            seq![s[0]]
        } else {
            Seq::empty()
        }) + sweep(s.drop_first(), now)
    }
}

/// The index of the first entry with key `k`.
pub open spec fn first_index<B>(s: Seq<(ModelRuntimeKey, B, u64)>, k: KeyView) -> Option<int>
    decreases s.len(),
{
    if s.len() == 0 {
        None
    } else if s[0].0@ == k {
        Some(0)
    } else {
        match first_index(s.drop_first(), k) {
            Some(i) => Some(i + 1),
            None => None,
        }
    }
}

/// The table after a lookup of `key` at `now`: the key's first entry with
/// its last use set to `now`, or, when it has none, a new entry with breaker
/// `b` at the end.
pub open spec fn refreshed<B>(s: Seq<(ModelRuntimeKey, B, u64)>, key: ModelRuntimeKey, b: B, now: u64) -> Seq<(ModelRuntimeKey, B, u64)> {
    match first_index(s, key@) {
        Some(i) => s.update(i, (s[i].0, s[i].1, now)),
        None => s.push((key, b, now)),
    }
}

impl<B> BreakerTable<B> {
    pub closed spec fn spec_entries(&self) -> Seq<(ModelRuntimeKey, B, u64)> {
        self.entries@
    }

    pub closed spec fn spec_last_cleanup(&self) -> u64 {
        self.last_cleanup_ms
    }

    /// An empty table whose last sweep was at `now_ms`.
    pub fn new(now_ms: u64) -> (r: BreakerTable<B>)
        ensures
            r.spec_entries().len() == 0,
            r.spec_last_cleanup() == now_ms,
    {
        BreakerTable { entries: Vec::new(), last_cleanup_ms: now_ms }
    }

    /// The number of breakers held.
    pub fn breaker_count(&self) -> (r: usize)
        ensures
            r == self.spec_entries().len(),
    {
        self.entries.len()
    }

    /// Whether a sweep is due at `now_ms`.
    pub open spec fn sweep_due(&self, now_ms: u64) -> bool {
        since(now_ms, self.spec_last_cleanup()) >= CLEANUP_INTERVAL_MS
    }

    /// When a sweep is due at `now_ms`, drops every entry unused for
    /// `BREAKER_TTL_MS` and notes the sweep; otherwise changes nothing.
    pub fn maybe_cleanup(&mut self, now_ms: u64)
        ensures
            old(self).sweep_due(now_ms) ==> final(self).spec_last_cleanup() == now_ms
                && final(self).spec_entries() == sweep(old(self).spec_entries(), now_ms),
            !old(self).sweep_due(now_ms) ==> final(self).spec_last_cleanup() == old(self).spec_last_cleanup()
                && final(self).spec_entries() == old(self).spec_entries(),
    {
        let elapsed: u64 = if now_ms >= self.last_cleanup_ms { now_ms - self.last_cleanup_ms } else { 0 };
        if elapsed < CLEANUP_INTERVAL_MS {
            return;
        }
        self.last_cleanup_ms = now_ms;
        let ghost old_entries = self.entries@;
        let mut kept: Vec<(ModelRuntimeKey, B, u64)> = Vec::new();
        let mut rest: Vec<(ModelRuntimeKey, B, u64)> = Vec::new();
        std::mem::swap(&mut rest, &mut self.entries);
        proof {
            assert(kept@ + sweep(rest@, now_ms) =~= sweep(old_entries, now_ms));
        }
        while rest.len() > 0
            invariant
                kept@ + sweep(rest@, now_ms) == sweep(old_entries, now_ms),
                self.last_cleanup_ms == now_ms,
            decreases rest@.len(),
        {
            let ghost before = rest@;
            let e = rest.remove(0);
            proof {
                assert(rest@ =~= before.drop_first());
            }
            let age: u64 = if now_ms >= e.2 { now_ms - e.2 } else { 0 };
            let ghost kept_before = kept@;
            if age < BREAKER_TTL_MS {
                kept.push(e);
                proof {
                    assert(kept@ + sweep(rest@, now_ms) =~= kept_before + (seq![e] + sweep(rest@, now_ms)));
                }
            } else {
                proof {
                    assert(kept_before + sweep(before, now_ms) =~= kept@ + sweep(rest@, now_ms));
                }
            }
        }
        proof {
            assert(kept@ =~= kept@ + sweep(rest@, now_ms));
        }
        self.entries = kept;
    }

    /// The breaker of `key` at time `now_ms`, after a sweep if one is due: the
    /// one held for the key, or else `fresh`, which is then held for it. Either
    /// way the key's last use becomes `now_ms`.
    pub fn breaker_for(&mut self, key: ModelRuntimeKey, now_ms: u64, fresh: B) -> (r: &B)
        ensures
            ({
                let swept = if old(self).sweep_due(now_ms) {
                    sweep(old(self).spec_entries(), now_ms)
                } else {
                    old(self).spec_entries()
                };
                &&& final(self).spec_entries() == refreshed(swept, key, fresh, now_ms)
                &&& match first_index(swept, key@) {
                    Some(i) => *r == swept[i].1,
                    None => *r == fresh,
                }
            }),
    {
        self.maybe_cleanup(now_ms);
        let ghost swept = self.entries@;
        let mut i: usize = 0;
        proof {
            assert(swept.skip(0) =~= swept);
        }
        while i < self.entries.len()
            invariant
                self.entries@ == swept,
                old(self).sweep_due(now_ms) ==> swept == sweep(old(self).spec_entries(), now_ms),
                !old(self).sweep_due(now_ms) ==> swept == old(self).spec_entries(),
                i <= swept.len(),
                first_index(swept, key@) == match first_index(swept.skip(i as int), key@) {
                    Some(j) => Some(j + i),
                    None => None,
                },
            decreases swept.len() - i,
        {
            if self.entries[i].0.same(&key) {
                proof {
                    assert(swept.skip(i as int)[0] == swept[i as int]);
                    assert(first_index(swept, key@) == Some(i as int));
                }
                let e = self.entries.remove(i);
                self.entries.insert(i, (e.0, e.1, now_ms));
                proof {
                    assert(self.entries@ =~= swept.update(i as int, (swept[i as int].0, swept[i as int].1, now_ms)));
                    assert(self.entries@[i as int].1 == swept[i as int].1);
                }
                return &self.entries[i].1;
            }
            proof {
                assert(swept.skip(i as int).drop_first() =~= swept.skip(i + 1));
            }
            i = i + 1;
        }
        proof {
            assert(first_index(swept, key@) is None);
        }
        self.entries.push((key, fresh, now_ms));
        &self.entries[i].1
    }
}

} // verus!
