//! Provider-agnostic orchestration of machine-learning models: a catalog of
//! aliases mapped to provider and model, deduplication keys that let aliases
//! share one loaded instance, load coordination, warmup planning, and the
//! reliability envelope (circuit breaker, retries with backoff) around
//! inference calls. Every function here is verified; the asynchronous work
//! (loading, waiting, timers, metrics) is done by the caller, which hands the
//! outcomes back to these functions.

pub mod api;
pub mod cache;
pub mod error;
pub mod json;
pub mod options_validation;
pub mod prefetch;
pub mod provider;
pub mod registry;
pub mod reliability;
pub mod remote_common;
pub mod runtime;
pub mod text;
pub mod traits;
