use uni_xervo::error::RuntimeError;

#[test]
fn test_error_display_config() {
    let err = RuntimeError::Config("invalid setting".to_string());
    assert_eq!(err.to_string(), "Configuration error: invalid setting");
}

#[test]
fn test_error_display_provider_not_found() {
    let err = RuntimeError::ProviderNotFound("mock/missing".to_string());
    assert_eq!(err.to_string(), "Provider not found: mock/missing");
}

#[test]
fn test_error_display_capability_mismatch() {
    let err = RuntimeError::CapabilityMismatch("task not supported".to_string());
    assert_eq!(err.to_string(), "Capability mismatch: task not supported");
}

#[test]
fn test_error_display_load() {
    let err = RuntimeError::Load("download failed".to_string());
    assert_eq!(err.to_string(), "Load error: download failed");
}

#[test]
fn test_error_display_api_error() {
    let err = RuntimeError::ApiError("upstream failed".to_string());
    assert_eq!(err.to_string(), "API error: upstream failed");
}

#[test]
fn test_error_display_inference() {
    let err = RuntimeError::InferenceError("model crashed".to_string());
    assert_eq!(err.to_string(), "Inference error: model crashed");
}

#[test]
fn test_error_display_rate_limited() {
    let err = RuntimeError::RateLimited;
    assert_eq!(err.to_string(), "Rate limited");
}

#[test]
fn test_error_display_unauthorized() {
    let err = RuntimeError::Unauthorized;
    assert_eq!(err.to_string(), "Unauthorized");
}

#[test]
fn test_error_display_timeout() {
    let err = RuntimeError::Timeout;
    assert_eq!(err.to_string(), "Timeout");
}

#[test]
fn test_error_display_unavailable() {
    let err = RuntimeError::Unavailable;
    assert_eq!(err.to_string(), "Unavailable");
}

#[test]
fn retryable_kinds_are_exactly_the_transient_ones() {
    assert!(RuntimeError::RateLimited.is_retryable());
    assert!(RuntimeError::Timeout.is_retryable());
    assert!(RuntimeError::Unavailable.is_retryable());
    assert!(!RuntimeError::Unauthorized.is_retryable());
    assert!(!RuntimeError::Config("x".to_string()).is_retryable());
    assert!(!RuntimeError::ProviderNotFound("x".to_string()).is_retryable());
    assert!(!RuntimeError::CapabilityMismatch("x".to_string()).is_retryable());
    assert!(!RuntimeError::Load("x".to_string()).is_retryable());
    assert!(!RuntimeError::ApiError("x".to_string()).is_retryable());
    assert!(!RuntimeError::InferenceError("x".to_string()).is_retryable());
}
