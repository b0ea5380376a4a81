use vstd::prelude::*;

verus! {

/// Failure categories of the runtime. Callers match on the category (retryable
/// or permanent) rather than on provider-specific details.
#[derive(Debug, Clone, PartialEq, Eq)]
pub enum RuntimeError {
    /// Invalid or missing configuration (bad alias format, unknown option, ...).
    Config(String),
    /// The requested provider id is not registered with the runtime.
    ProviderNotFound(String),
    /// A model was requested for a task that it or its provider does not support.
    CapabilityMismatch(String),
    /// Model loading or initialisation failed.
    Load(String),
    /// A non-retryable HTTP error from a remote provider.
    ApiError(String),
    /// A provider-reported inference failure.
    InferenceError(String),
    /// The remote API answered HTTP 429.
    RateLimited,
    /// The remote API answered HTTP 401 or 403.
    Unauthorized,
    /// The operation exceeded its configured timeout.
    Timeout,
    /// The service is unavailable (HTTP 5xx, circuit breaker open).
    Unavailable,
}

/// The transient kinds: those that may succeed when tried again.
pub open spec fn retryable(e: RuntimeError) -> bool {
    e is RateLimited || e is Timeout || e is Unavailable
}

impl RuntimeError {
    /// True for the transient kinds `RateLimited`, `Timeout` and `Unavailable`.
    pub fn is_retryable(&self) -> (r: bool)
        ensures
            r == retryable(*self),
    {
        match self {
            RuntimeError::RateLimited | RuntimeError::Timeout | RuntimeError::Unavailable => true,
            _ => false,
        }
    }

    /// The human-readable message of this error.
    pub fn to_string(&self) -> (r: String)
        ensures
            r@ == error_text(*self),
    {
        match self {
            RuntimeError::Config(m) => prefixed("Configuration error: ", m),
            RuntimeError::ProviderNotFound(m) => prefixed("Provider not found: ", m),
            RuntimeError::CapabilityMismatch(m) => prefixed("Capability mismatch: ", m),
            RuntimeError::Load(m) => prefixed("Load error: ", m),
            RuntimeError::ApiError(m) => prefixed("API error: ", m),
            RuntimeError::InferenceError(m) => prefixed("Inference error: ", m),
            RuntimeError::RateLimited => String::from_str("Rate limited"),
            RuntimeError::Unauthorized => String::from_str("Unauthorized"),
            RuntimeError::Timeout => String::from_str("Timeout"),
            RuntimeError::Unavailable => String::from_str("Unavailable"),
        }
    }
}

/// The message of an error: a fixed text per kind, followed by the detail for
/// the kinds that carry one.
pub open spec fn error_text(e: RuntimeError) -> Seq<char> {
    match e {
        RuntimeError::Config(m) => "Configuration error: "@ + m@,
        RuntimeError::ProviderNotFound(m) => "Provider not found: "@ + m@,
        RuntimeError::CapabilityMismatch(m) => "Capability mismatch: "@ + m@,
        RuntimeError::Load(m) => "Load error: "@ + m@,
        RuntimeError::ApiError(m) => "API error: "@ + m@,
        RuntimeError::InferenceError(m) => "Inference error: "@ + m@,
        RuntimeError::RateLimited => "Rate limited"@,
        RuntimeError::Unauthorized => "Unauthorized"@,
        RuntimeError::Timeout => "Timeout"@,
        RuntimeError::Unavailable => "Unavailable"@,
    }
}

/// `head` followed by `tail`, as a new string.
pub fn prefixed(head: &str, tail: &String) -> (r: String)
    ensures
        r@ == head@ + tail@,
{
    let mut r = String::from_str(head);
    r.append(tail.as_str());
    r
}

} // verus!
