use uni_xervo::api::{ModelAliasSpec, ModelRuntimeKey, ModelTask, WarmupPolicy};
use uni_xervo::error::RuntimeError;
use uni_xervo::json::{JsonMap, JsonValue};
use uni_xervo::remote_common::{api_key_env_name, check_http_status, missing_credential, BreakerTable};

fn spec(model: &str) -> ModelAliasSpec {
    ModelAliasSpec {
        alias: "embed/a".to_string(),
        task: ModelTask::Embed,
        provider_id: "remote/openai".to_string(),
        model_id: model.to_string(),
        revision: None,
        warmup: WarmupPolicy::Lazy,
        required: false,
        timeout: None,
        load_timeout: None,
        retry: None,
        options: JsonValue::Null,
    }
}

#[test]
fn http_status_mapping() {
    assert!(check_http_status("OpenAI", 200, "200 OK").is_ok());
    assert!(check_http_status("OpenAI", 204, "204 No Content").is_ok());
    assert!(matches!(check_http_status("OpenAI", 429, ""), Err(RuntimeError::RateLimited)));
    assert!(matches!(check_http_status("OpenAI", 401, ""), Err(RuntimeError::Unauthorized)));
    assert!(matches!(check_http_status("OpenAI", 403, ""), Err(RuntimeError::Unauthorized)));
    assert!(matches!(check_http_status("OpenAI", 500, ""), Err(RuntimeError::Unavailable)));
    assert!(matches!(check_http_status("OpenAI", 503, ""), Err(RuntimeError::Unavailable)));
    let err = check_http_status("OpenAI", 404, "404 Not Found").unwrap_err();
    assert_eq!(err.to_string(), "API error: OpenAI API error: 404 Not Found");
}

#[test]
fn api_key_env_resolution() {
    assert_eq!(api_key_env_name(&JsonValue::Null, "api_key_env", "OPENAI_API_KEY"), "OPENAI_API_KEY");
    let mut m = JsonMap::new();
    m.insert("api_key_env".to_string(), JsonValue::Str("MY_KEY".to_string()));
    assert_eq!(api_key_env_name(&JsonValue::Object(m), "api_key_env", "OPENAI_API_KEY"), "MY_KEY");
    let mut m = JsonMap::new();
    m.insert("api_key_env".to_string(), JsonValue::Bool(true));
    assert_eq!(api_key_env_name(&JsonValue::Object(m), "api_key_env", "OPENAI_API_KEY"), "OPENAI_API_KEY");
    assert_eq!(missing_credential("MY_KEY").to_string(), "Configuration error: MY_KEY env var not set");
}

#[test]
fn breakers_shared_per_key_and_evicted() {
    let mut t: BreakerTable<u32> = BreakerTable::new(0);
    assert_eq!(*t.breaker_for(ModelRuntimeKey::new(&spec("m")), 0, 1), 1);
    // Same key: the same breaker.
    assert_eq!(*t.breaker_for(ModelRuntimeKey::new(&spec("m")), 10, 2), 1);
    // Another key: another breaker.
    assert_eq!(*t.breaker_for(ModelRuntimeKey::new(&spec("n")), 20, 3), 3);
    assert_eq!(t.breaker_count(), 2);
    // 31 minutes later, a sweep is due and both idle entries go.
    let later = 31 * 60 * 1000;
    assert_eq!(*t.breaker_for(ModelRuntimeKey::new(&spec("n")), later, 4), 4);
    assert_eq!(t.breaker_count(), 1);
}

#[test]
fn sweep_waits_for_interval() {
    let mut t: BreakerTable<u32> = BreakerTable::new(0);
    t.breaker_for(ModelRuntimeKey::new(&spec("m")), 0, 1);
    // An expired entry survives while no sweep is due.
    t.maybe_cleanup(60_000);
    assert_eq!(t.breaker_count(), 1);
    t.maybe_cleanup(31 * 60 * 1000);
    assert_eq!(t.breaker_count(), 0);
}
