use uni_xervo::api::RetryConfig;
use uni_xervo::error::RuntimeError;
use uni_xervo::reliability::{
    after_attempt, call_status, Admission, AttemptAction, BreakerState, CircuitBreakerConfig,
    CircuitBreakerWrapper,
};

fn fail(b: &mut CircuitBreakerWrapper, now: u64) {
    match b.gate(now) {
        Admission::Run { probe } => b.record(probe, false, now),
        Admission::Reject => panic!("call rejected"),
    }
}

#[test]
fn breaker_recovery_scenario() {
    let mut b = CircuitBreakerWrapper::new(CircuitBreakerConfig { failure_threshold: 2, open_wait_seconds: 1 });
    fail(&mut b, 0);
    assert_eq!(b.state, BreakerState::Closed);
    fail(&mut b, 10);
    assert_eq!(b.state, BreakerState::Open);
    // Open: rejected without running the call.
    assert_eq!(b.gate(500), Admission::Reject);
    assert_eq!(b.state, BreakerState::Open);
    // After the wait the next call is the probe.
    assert_eq!(b.gate(1_110), Admission::Run { probe: true });
    assert_eq!(b.state, BreakerState::HalfOpen);
    // A concurrent call while the probe is in flight is rejected.
    assert_eq!(b.gate(1_120), Admission::Reject);
    b.record(true, true, 1_130);
    assert_eq!(b.state, BreakerState::Closed);
    assert_eq!(b.failures, 0);
    assert_eq!(b.gate(1_140), Admission::Run { probe: false });
}

#[test]
fn breaker_probe_failure_reopens() {
    let mut b = CircuitBreakerWrapper::new(CircuitBreakerConfig { failure_threshold: 2, open_wait_seconds: 1 });
    fail(&mut b, 0);
    fail(&mut b, 0);
    assert_eq!(b.gate(999), Admission::Reject);
    assert_eq!(b.gate(1_000), Admission::Run { probe: true });
    b.record(true, false, 1_000);
    assert_eq!(b.state, BreakerState::Open);
    assert!(!b.probe_in_flight);
    assert_eq!(b.last_failure_ms, Some(1_000));
    assert_eq!(b.gate(1_500), Admission::Reject);
}

#[test]
fn breaker_success_resets_failures() {
    let mut b = CircuitBreakerWrapper::new(CircuitBreakerConfig::default());
    fail(&mut b, 0);
    fail(&mut b, 0);
    assert_eq!(b.failures, 2);
    b.record(false, true, 0);
    assert_eq!(b.failures, 0);
    assert_eq!(b.state, BreakerState::Closed);
}

#[test]
fn breaker_default_config() {
    let c = CircuitBreakerConfig::default();
    assert_eq!(c.failure_threshold, 5);
    assert_eq!(c.open_wait_seconds, 10);
}

#[test]
fn retry_then_succeed() {
    let retry = Some(RetryConfig { max_attempts: 3, initial_backoff_ms: 10 });
    assert_eq!(after_attempt(&retry, 1, &Err(RuntimeError::RateLimited)), AttemptAction::Retry { backoff_ms: 10 });
    assert_eq!(after_attempt(&retry, 2, &Err(RuntimeError::RateLimited)), AttemptAction::Retry { backoff_ms: 20 });
    assert_eq!(after_attempt(&retry, 3, &Ok(())), AttemptAction::Finish);
}

#[test]
fn retry_exhausted_after_max_attempts() {
    let retry = Some(RetryConfig { max_attempts: 3, initial_backoff_ms: 10 });
    let mut attempts = 0u32;
    loop {
        attempts += 1;
        match after_attempt(&retry, attempts, &Err(RuntimeError::RateLimited)) {
            AttemptAction::Retry { .. } => continue,
            AttemptAction::Finish => break,
        }
    }
    assert_eq!(attempts, 3);
}

#[test]
fn permanent_errors_are_not_retried() {
    let retry = Some(RetryConfig { max_attempts: 3, initial_backoff_ms: 10 });
    assert_eq!(after_attempt(&retry, 1, &Err(RuntimeError::Unauthorized)), AttemptAction::Finish);
    assert_eq!(after_attempt(&retry, 1, &Err(RuntimeError::Config("x".to_string()))), AttemptAction::Finish);
    assert_eq!(after_attempt(&None, 1, &Err(RuntimeError::Timeout)), AttemptAction::Finish);
    assert_eq!(after_attempt(&retry, 1, &Err(RuntimeError::Timeout)), AttemptAction::Retry { backoff_ms: 10 });
    assert_eq!(after_attempt(&retry, 2, &Err(RuntimeError::Unavailable)), AttemptAction::Retry { backoff_ms: 20 });
}

#[test]
fn call_status_labels() {
    assert_eq!(call_status(true), "success");
    assert_eq!(call_status(false), "failure");
}
