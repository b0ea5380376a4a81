use vstd::prelude::*;
use crate::api::{backoff_ms, RetryConfig};
use crate::error::{retryable, RuntimeError};

verus! {

/// Tunable parameters of a circuit breaker.
#[derive(Debug, Clone, Copy, PartialEq, Eq, Structural)]
pub struct CircuitBreakerConfig {
    /// Consecutive failures after which the breaker opens.
    pub failure_threshold: u32,
    /// Seconds to stay open before a probe call is let through.
    pub open_wait_seconds: u64,
}

impl Default for CircuitBreakerConfig {
    fn default() -> (r: CircuitBreakerConfig)
        ensures
            r.failure_threshold == 5,
            r.open_wait_seconds == 10,
    {
        CircuitBreakerConfig { failure_threshold: 5, open_wait_seconds: 10 }
    }
}

/// The three states of a circuit breaker.
#[derive(Debug, Clone, Copy, PartialEq, Eq, Structural)]
pub enum BreakerState {
    Closed,
    Open,
    HalfOpen,
}

/// What a breaker decides about a call that is about to be made.
#[derive(Debug, Clone, Copy, PartialEq, Eq, Structural)]
pub enum Admission {
    /// Run the call; `probe` when it is the single trial call of the half-open
    /// state.
    Run { probe: bool },
    /// Fail at once with `Unavailable`, without running the call.
    Reject,
}

/// A circuit breaker: the state that gates calls to an unhealthy upstream.
/// Times are milliseconds on a monotonic clock.
#[derive(Debug, Clone, Copy, PartialEq, Eq, Structural)]
pub struct CircuitBreakerWrapper {
    pub state: BreakerState,
    pub failures: u32,
    pub last_failure_ms: Option<u64>,
    pub config: CircuitBreakerConfig,
    pub probe_in_flight: bool,
}

/// The breaker's own invariant: an open breaker knows when it last failed,
/// and a probe is in flight only in the half-open state.
pub open spec fn breaker_wf(b: CircuitBreakerWrapper) -> bool {
    (b.state == BreakerState::Open ==> b.last_failure_ms is Some) && (b.probe_in_flight ==> b.state
        == BreakerState::HalfOpen)
}

/// Whether the open wait has passed at `now`.
pub open spec fn wait_over(b: CircuitBreakerWrapper, now: u64) -> bool {
    let last = b.last_failure_ms->0;
    let elapsed: int = if now >= last { now - last } else { 0 };
    elapsed >= b.config.open_wait_seconds * 1000
}

/// The decision on a call at time `now`, and the breaker after it.
pub open spec fn gate_step(b: CircuitBreakerWrapper, now: u64) -> (CircuitBreakerWrapper, Admission) {
    match b.state {
        BreakerState::Closed => (b, Admission::Run { probe: false }),
        BreakerState::Open => if b.last_failure_ms is None {
            (b, Admission::Run { probe: false })
        } else if wait_over(b, now) {
            (
                CircuitBreakerWrapper { state: BreakerState::HalfOpen, probe_in_flight: true, ..b },
                Admission::Run { probe: true },
            )
        } else {
            (b, Admission::Reject)
        },
        BreakerState::HalfOpen => if b.probe_in_flight {
            (b, Admission::Reject)
        } else {
            (CircuitBreakerWrapper { probe_in_flight: true, ..b }, Admission::Run { probe: true })
        },
    }
}

/// The breaker after a call that it let through ended, with `success` or not,
/// at time `now`.
pub open spec fn record_step(b: CircuitBreakerWrapper, probe: bool, success: bool, now: u64) -> CircuitBreakerWrapper {
    if success {
        if probe {
            CircuitBreakerWrapper {
                state: BreakerState::Closed,
                failures: 0,
                probe_in_flight: false,
                ..b
            }
        } else if b.state == BreakerState::Closed {
            CircuitBreakerWrapper { failures: 0, ..b }
        } else {
            b
        }
    } else {
        let failures: u32 = if b.failures == u32::MAX { u32::MAX } else { (b.failures + 1) as u32 };
        let opens = probe || (b.state == BreakerState::Closed && failures >= b.config.failure_threshold);
        CircuitBreakerWrapper {
            state: if opens { BreakerState::Open } else { b.state },
            failures,
            last_failure_ms: Some(now),
            probe_in_flight: if probe { false } else { b.probe_in_flight },
            ..b
        }
    }
}

impl CircuitBreakerWrapper {
    /// A closed breaker with no failures.
    pub fn new(config: CircuitBreakerConfig) -> (r: CircuitBreakerWrapper)
        ensures
            r.state == BreakerState::Closed,
            r.failures == 0,
            r.last_failure_ms is None,
            r.config == config,
            !r.probe_in_flight,
            breaker_wf(r),
    {
        CircuitBreakerWrapper {
            state: BreakerState::Closed,
            failures: 0,
            last_failure_ms: None,
            config,
            probe_in_flight: false,
        }
    }

    /// Decides whether a call at time `now` may run. An open breaker whose wait
    /// has passed turns half-open and lets this one call through as the probe;
    /// while a probe is in flight every other call is rejected.
    pub fn gate(&mut self, now_ms: u64) -> (r: Admission)
        ensures
            (*final(self), r) == gate_step(*old(self), now_ms),
            breaker_wf(*old(self)) ==> breaker_wf(*final(self)),
    {
        match self.state {
            BreakerState::Closed => Admission::Run { probe: false },
            BreakerState::Open => match self.last_failure_ms {
                None => Admission::Run { probe: false },
                Some(last) => {
                    let elapsed: u64 = if now_ms >= last { now_ms - last } else { 0 };
                    let over = elapsed / 1000 >= self.config.open_wait_seconds;
                    proof {
                        let w = self.config.open_wait_seconds as int;
                        let e = elapsed as int;
                        assert(over <==> e >= w * 1000) by (nonlinear_arith)
                            requires over == (e / 1000 >= w), e >= 0, w >= 0;
                    }
                    if over {
                        self.state = BreakerState::HalfOpen;
                        self.probe_in_flight = true;
                        Admission::Run { probe: true }
                    } else {
                        Admission::Reject
                    }
                }
            },
            BreakerState::HalfOpen => {
                if self.probe_in_flight {
                    Admission::Reject
                } else {
                    self.probe_in_flight = true;
                    Admission::Run { probe: true }
                }
            }
        }
    }

    /// Records the outcome of a call that `gate` let through. A probe's
    /// success closes the breaker and its failure opens it again; in the closed
    /// state a success clears the failure count and a failure that reaches the
    /// threshold opens the breaker.
    pub fn record(&mut self, probe: bool, success: bool, now_ms: u64)
        ensures
            *final(self) == record_step(*old(self), probe, success, now_ms),
            breaker_wf(*old(self)) && (probe ==> old(self).state == BreakerState::HalfOpen)
                ==> breaker_wf(*final(self)),
    {
        if success {
            if probe {
                self.state = BreakerState::Closed;
                self.failures = 0;
                self.probe_in_flight = false;
            } else if self.state == BreakerState::Closed {
                self.failures = 0;
            }
        } else {
            if probe {
                self.probe_in_flight = false;
            }
            self.failures = self.failures.saturating_add(1);
            self.last_failure_ms = Some(now_ms);
            if probe || (self.state == BreakerState::Closed && self.failures
                >= self.config.failure_threshold) {
                self.state = BreakerState::Open;
            }
        }
    }
}

/// Attempts in all that a retry configuration allows; one without retries.
pub open spec fn attempt_limit(retry: Option<RetryConfig>) -> nat {
    match retry {
        Some(r) => r.max_attempts as nat,
        None => 1,
    }
}

/// Whether a failed attempt is tried again: its error is transient and the
/// attempts made so far are below the limit.
pub open spec fn retries_after(outcome: Result<(), RuntimeError>, attempts: nat, limit: nat) -> bool {
    outcome is Err && retryable(outcome->Err_0) && attempts < limit
}

/// What the instrumented wrapper does once an attempt has ended.
#[derive(Debug, Clone, Copy, PartialEq, Eq, Structural)]
pub enum AttemptAction {
    /// Sleep this many milliseconds, then try again.
    Retry { backoff_ms: u64 },
    /// Stop: the outcome of this attempt is the outcome of the call.
    Finish,
}

/// Decides, after attempt number `attempts` (one-based) ended with
/// `outcome`, whether to try again and after what backoff. Only transient
/// errors are retried, and never beyond the configured number of attempts.
pub fn after_attempt(retry: &Option<RetryConfig>, attempts: u32, outcome: &Result<(), RuntimeError>) -> (r: AttemptAction)
    requires
        attempts >= 1,
    ensures
        retries_after(*outcome, attempts as nat, attempt_limit(*retry)) ==> (r == (AttemptAction::Retry {
            backoff_ms: backoff_ms(retry->0.initial_backoff_ms, attempts),
        })),
        !retries_after(*outcome, attempts as nat, attempt_limit(*retry)) ==> (r == AttemptAction::Finish),
{
    let limit: u32 = match retry {
        Some(r) => r.max_attempts,
        None => 1,
    };
    match outcome {
        Err(e) => {
            if e.is_retryable() && attempts < limit {
                match retry {
                    Some(r) => AttemptAction::Retry { backoff_ms: r.backoff_millis(attempts) },
                    None => AttemptAction::Finish,
                }
            } else {
                AttemptAction::Finish
            }
        }
        Ok(()) => AttemptAction::Finish,
    }
}

/// The number of attempts a wrapped call makes when its successive attempts
/// end with `outcomes` (counting from attempt `i + 1`): it stops at the first
/// attempt that is not retried.
pub open spec fn attempts_made(outcomes: Seq<Result<(), RuntimeError>>, limit: nat, i: nat) -> nat
    decreases outcomes.len() - i,
{
    if i + 1 >= outcomes.len() {
        i + 1
    } else if retries_after(outcomes[i as int], i + 1, limit) {
        attempts_made(outcomes, limit, i + 1)
    } else {
        i + 1
    }
}

/// Transient failures followed by a success within the attempt limit: the
/// call makes one attempt per failure and one more, and ends with that
/// success.
pub proof fn lemma_retry_then_succeed(outcomes: Seq<Result<(), RuntimeError>>, limit: nat, j: nat)
    requires
        j < limit,
        j < outcomes.len(),
        outcomes[j as int] is Ok,
        forall|i: int| 0 <= i < j ==> (#[trigger] outcomes[i]) is Err && retryable(outcomes[i]->Err_0),
    ensures
        attempts_made(outcomes, limit, 0) == j + 1,
        outcomes[attempts_made(outcomes, limit, 0) - 1] is Ok,
{
    lemma_attempts_from(outcomes, limit, j, 0);
}

proof fn lemma_attempts_from(outcomes: Seq<Result<(), RuntimeError>>, limit: nat, j: nat, i: nat)
    requires
        i <= j,
        j < limit,
        j < outcomes.len(),
        !retries_after(outcomes[j as int], j + 1, limit),
        forall|p: int| 0 <= p < j ==> (#[trigger] outcomes[p]) is Err && retryable(outcomes[p]->Err_0),
    ensures
        attempts_made(outcomes, limit, i) == j + 1,
    decreases j - i,
{
    if i < j {
        assert(retries_after(outcomes[i as int], i + 1, limit));
        lemma_attempts_from(outcomes, limit, j, i + 1);
    }
}

/// Transient failures on every attempt: the call makes exactly the allowed
/// number of attempts and ends with the last failure.
pub proof fn lemma_retry_exhausted(outcomes: Seq<Result<(), RuntimeError>>, limit: nat)
    requires
        1 <= limit <= outcomes.len(),
        forall|i: int| 0 <= i < outcomes.len() ==> (#[trigger] outcomes[i]) is Err && retryable(outcomes[i]->Err_0),
    ensures
        attempts_made(outcomes, limit, 0) == limit,
        outcomes[attempts_made(outcomes, limit, 0) - 1] is Err,
{
    let j = (limit - 1) as nat;
    lemma_attempts_from(outcomes, limit, j, 0);
}

/// An error that is not transient is never retried: the call ends after the
/// attempt that produced it.
pub proof fn lemma_permanent_error_not_retried(outcomes: Seq<Result<(), RuntimeError>>, limit: nat, j: nat)
    requires
        j < limit,
        j < outcomes.len(),
        outcomes[j as int] is Err,
        !retryable(outcomes[j as int]->Err_0),
        forall|i: int| 0 <= i < j ==> (#[trigger] outcomes[i]) is Err && retryable(outcomes[i]->Err_0),
    ensures
        attempts_made(outcomes, limit, 0) == j + 1,
{
    lemma_attempts_from(outcomes, limit, j, 0);
}

/// Runs `n` failed calls through a breaker at time `now`, each let through
/// and then recorded as a failure.
pub open spec fn fail_times(b: CircuitBreakerWrapper, n: nat, now: u64) -> CircuitBreakerWrapper
    decreases n,
{
    if n == 0 {
        b
    } else {
        let (g, a) = gate_step(fail_times(b, (n - 1) as nat, now), now);
        record_step(g, a == Admission::Run { probe: true }, false, now)
    }
}

proof fn lemma_closed_failures(b: CircuitBreakerWrapper, n: nat, now: u64)
    requires
        b.state == BreakerState::Closed,
        b.failures == 0,
        n < b.config.failure_threshold,
    ensures
        fail_times(b, n, now).state == BreakerState::Closed,
        fail_times(b, n, now).failures == n,
        fail_times(b, n, now).config == b.config,
        fail_times(b, n, now).probe_in_flight == b.probe_in_flight,
    decreases n,
{
    if n > 0 {
        lemma_closed_failures(b, (n - 1) as nat, now);
    }
}

/// A closed breaker opens after exactly `failure_threshold` consecutive
/// failures, and then rejects every call until its wait is over: such calls
/// are answered `Unavailable` and never run.
pub proof fn lemma_breaker_opens(b: CircuitBreakerWrapper, now: u64, later: u64)
    requires
        b.state == BreakerState::Closed,
        b.failures == 0,
        !b.probe_in_flight,
        b.config.failure_threshold >= 1,
    ensures
        fail_times(b, (b.config.failure_threshold - 1) as nat, now).state == BreakerState::Closed,
        fail_times(b, b.config.failure_threshold as nat, now).state == BreakerState::Open,
        fail_times(b, b.config.failure_threshold as nat, now).last_failure_ms == Some(now),
        !wait_over(fail_times(b, b.config.failure_threshold as nat, now), later) ==> gate_step(
            fail_times(b, b.config.failure_threshold as nat, now),
            later,
        ) == (fail_times(b, b.config.failure_threshold as nat, now), Admission::Reject),
{
    let t = b.config.failure_threshold as nat;
    lemma_closed_failures(b, (t - 1) as nat, now);
}

/// Recovery: once the wait of an open breaker is over, the next call runs as
/// the single probe and the breaker is half-open; any call while that probe is
/// in flight is rejected; the probe's success closes the breaker and its
/// failure opens it again.
pub proof fn lemma_breaker_recovery(b: CircuitBreakerWrapper, now: u64, end: u64)
    requires
        b.state == BreakerState::Open,
        b.last_failure_ms is Some,
        wait_over(b, now),
    ensures
        ({
            let (h, a) = gate_step(b, now);
            &&& a == Admission::Run { probe: true }
            &&& h.state == BreakerState::HalfOpen
            &&& h.probe_in_flight
            &&& gate_step(h, now) == (h, Admission::Reject)
            &&& record_step(h, true, true, end).state == BreakerState::Closed
            &&& record_step(h, true, true, end).failures == 0
            &&& !record_step(h, true, true, end).probe_in_flight
            &&& record_step(h, true, false, end).state == BreakerState::Open
            &&& record_step(h, true, false, end).last_failure_ms == Some(end)
            &&& !record_step(h, true, false, end).probe_in_flight
        }),
{
}

/// The status label of a finished call in the inference counter.
pub open spec fn status_label(ok: bool) -> Seq<char> {
    if ok {
        "success"@
    } else {
        "failure"@
    }
}

/// The status label of a finished call: `success` or `failure`.
pub fn call_status(ok: bool) -> (r: &'static str)
    ensures
        r@ == status_label(ok),
{
    if ok {
        "success"
    } else {
        "failure"
    }
}

} // verus!
