use uni_xervo::api::{validate_catalog, ModelAliasSpec, ModelRuntimeKey, ModelTask, RetryConfig, WarmupPolicy};
use uni_xervo::json::{JsonMap, JsonNumber, JsonValue};

fn spec_with(alias: &str, task: ModelTask, options: JsonValue) -> ModelAliasSpec {
    ModelAliasSpec {
        alias: alias.to_string(),
        task,
        provider_id: "test".to_string(),
        model_id: "model".to_string(),
        revision: None,
        warmup: WarmupPolicy::Lazy,
        required: false,
        timeout: None,
        load_timeout: None,
        retry: None,
        options,
    }
}

fn text(s: &str) -> JsonValue {
    JsonValue::Str(s.to_string())
}

fn num(n: u64) -> JsonValue {
    JsonValue::Number(JsonNumber::from_u64(n))
}

fn object(entries: Vec<(&str, JsonValue)>) -> JsonValue {
    let mut m = JsonMap::new();
    for (k, v) in entries {
        m.insert(k.to_string(), v);
    }
    JsonValue::Object(m)
}

#[test]
fn test_alias_validation_empty() {
    let spec = spec_with("", ModelTask::Embed, JsonValue::Null);
    let result = spec.validate();
    assert!(result.is_err());
    assert!(result.unwrap_err().to_string().contains("cannot be empty"));
}

#[test]
fn test_alias_validation_no_slash() {
    let spec = spec_with("nodivider", ModelTask::Embed, JsonValue::Null);
    let result = spec.validate();
    assert!(result.is_err());
    assert!(result.unwrap_err().to_string().contains("task/name' format"));
}

#[test]
fn test_alias_validation_valid() {
    let spec = spec_with("embed/test", ModelTask::Embed, JsonValue::Null);
    assert!(spec.validate().is_ok());
}

#[test]
fn test_alias_validation_timeout_must_be_positive() {
    let mut spec = spec_with("embed/test", ModelTask::Embed, JsonValue::Null);
    spec.timeout = Some(0);
    let err = spec.validate();
    assert!(err.is_err());
    assert!(err.unwrap_err().to_string().contains("Inference timeout"));
}

#[test]
fn test_alias_validation_load_timeout_must_be_positive() {
    let mut spec = spec_with("embed/test", ModelTask::Embed, JsonValue::Null);
    spec.load_timeout = Some(0);
    let err = spec.validate();
    assert!(err.is_err());
    assert!(err.unwrap_err().to_string().contains("Load timeout"));
}

#[test]
fn validation_accepts_positive_timeouts() {
    let mut spec = spec_with("embed/test", ModelTask::Embed, JsonValue::Null);
    spec.timeout = Some(1);
    spec.load_timeout = Some(1);
    spec.required = true;
    spec.retry = Some(RetryConfig { max_attempts: 1, initial_backoff_ms: 0 });
    assert!(spec.validate().is_ok());
    assert_eq!(spec.load_timeout_secs(), 1);
    let plain = spec_with("embed/test", ModelTask::Embed, JsonValue::Null);
    assert_eq!(plain.load_timeout_secs(), 600);
}

#[test]
fn test_runtime_key_determinism() {
    let spec1 = spec_with("embed/test", ModelTask::Embed, object(vec![("key", text("value"))]));
    let spec2 = spec_with("embed/other", ModelTask::Embed, object(vec![("key", text("value"))]));
    let key1 = ModelRuntimeKey::new(&spec1);
    let key2 = ModelRuntimeKey::new(&spec2);
    assert_eq!(key1, key2);
}

#[test]
fn test_runtime_key_option_order_independence() {
    let spec1 = spec_with("embed/test", ModelTask::Embed, object(vec![("a", text("1")), ("b", text("2"))]));
    let spec2 = spec_with("embed/test", ModelTask::Embed, object(vec![("b", text("2")), ("a", text("1"))]));
    let key1 = ModelRuntimeKey::new(&spec1);
    let key2 = ModelRuntimeKey::new(&spec2);
    assert_eq!(key1, key2);
}

#[test]
fn test_runtime_key_different_tasks() {
    let spec1 = spec_with("embed/test", ModelTask::Embed, JsonValue::Null);
    let spec2 = spec_with("rerank/test", ModelTask::Rerank, JsonValue::Null);
    assert_ne!(ModelRuntimeKey::new(&spec1), ModelRuntimeKey::new(&spec2));
}

#[test]
fn test_runtime_key_different_revisions() {
    let mut spec1 = spec_with("embed/test", ModelTask::Embed, JsonValue::Null);
    spec1.revision = Some("v1".to_string());
    let mut spec2 = spec_with("embed/test", ModelTask::Embed, JsonValue::Null);
    spec2.revision = Some("v2".to_string());
    assert_ne!(ModelRuntimeKey::new(&spec1), ModelRuntimeKey::new(&spec2));
}

#[test]
fn test_runtime_key_different_options() {
    let spec1 = spec_with("embed/test", ModelTask::Embed, object(vec![("key", text("value1"))]));
    let spec2 = spec_with("embed/test", ModelTask::Embed, object(vec![("key", text("value2"))]));
    assert_ne!(ModelRuntimeKey::new(&spec1), ModelRuntimeKey::new(&spec2));
}

#[test]
fn test_runtime_key_non_object_options_distinct() {
    let spec1 = spec_with("embed/test", ModelTask::Embed, text("x"));
    let spec2 = spec_with("embed/test", ModelTask::Embed, JsonValue::Bool(true));
    let spec3 = spec_with("embed/test", ModelTask::Embed, JsonValue::Array(vec![text("x"), num(1)]));
    let key1 = ModelRuntimeKey::new(&spec1);
    let key2 = ModelRuntimeKey::new(&spec2);
    let key3 = ModelRuntimeKey::new(&spec3);
    assert_ne!(key1, key2);
    assert_ne!(key1, key3);
    assert_ne!(key2, key3);
}

#[test]
fn runtime_key_distinguishes_null_false_zero_empty() {
    let values = vec![
        JsonValue::Null,
        JsonValue::Bool(false),
        num(0),
        text(""),
        JsonValue::Array(vec![]),
        JsonValue::Object(JsonMap::new()),
    ];
    let keys: Vec<ModelRuntimeKey> = values
        .into_iter()
        .map(|v| ModelRuntimeKey::new(&spec_with("embed/test", ModelTask::Embed, v)))
        .collect();
    for i in 0..keys.len() {
        for j in 0..keys.len() {
            if i != j {
                assert_ne!(keys[i], keys[j]);
            }
        }
    }
}

fn outer(a_first: bool, y: u64) -> JsonValue {
    let a = if a_first {
        object(vec![("x", num(1)), ("y", num(y))])
    } else {
        object(vec![("y", num(y)), ("x", num(1))])
    };
    let b = JsonValue::Array(vec![num(3), num(2), num(1)]);
    let inner = if a_first {
        object(vec![("a", a), ("b", b)])
    } else {
        object(vec![("b", b), ("a", a)])
    };
    object(vec![("outer", inner)])
}

#[test]
fn test_runtime_key_nested_object_order_independence() {
    let key1 = ModelRuntimeKey::new(&spec_with("embed/test", ModelTask::Embed, outer(false, 2)));
    let key2 = ModelRuntimeKey::new(&spec_with("embed/test", ModelTask::Embed, outer(true, 2)));
    assert_eq!(key1, key2);
    let key3 = ModelRuntimeKey::new(&spec_with("embed/test", ModelTask::Embed, outer(true, 999)));
    assert_ne!(key2, key3);
}

#[test]
fn runtime_key_array_order_matters() {
    let a = JsonValue::Array(vec![num(1), num(2)]);
    let b = JsonValue::Array(vec![num(2), num(1)]);
    let key1 = ModelRuntimeKey::new(&spec_with("embed/test", ModelTask::Embed, a));
    let key2 = ModelRuntimeKey::new(&spec_with("embed/test", ModelTask::Embed, b));
    assert_ne!(key1, key2);
}

#[test]
fn test_retry_config_backoff() {
    let config = RetryConfig { max_attempts: 3, initial_backoff_ms: 100 };
    assert_eq!(config.get_backoff(1).as_millis(), 100);
    assert_eq!(config.get_backoff(2).as_millis(), 200);
    assert_eq!(config.get_backoff(3).as_millis(), 400);
}

#[test]
fn retry_backoff_saturates() {
    let config = RetryConfig { max_attempts: 3, initial_backoff_ms: 100 };
    assert_eq!(config.backoff_millis(0), 100);
    assert_eq!(config.backoff_millis(70), u64::MAX);
    let zero = RetryConfig { max_attempts: 3, initial_backoff_ms: 0 };
    assert_eq!(zero.backoff_millis(4_000_000_000), 0);
    let big = RetryConfig { max_attempts: 3, initial_backoff_ms: u64::MAX / 2 + 1 };
    assert_eq!(big.backoff_millis(2), u64::MAX);
}

#[test]
fn retry_config_default() {
    let config = RetryConfig::default();
    assert_eq!(config.max_attempts, 3);
    assert_eq!(config.initial_backoff_ms, 100);
}

#[test]
fn test_warmup_policy_display() {
    assert_eq!(WarmupPolicy::Eager.to_string(), "eager");
    assert_eq!(WarmupPolicy::Lazy.to_string(), "lazy");
    assert_eq!(WarmupPolicy::Background.to_string(), "background");
}

#[test]
fn warmup_policy_default_is_lazy() {
    assert_eq!(WarmupPolicy::default(), WarmupPolicy::Lazy);
}

#[test]
fn task_names() {
    assert_eq!(ModelTask::Embed.to_string(), "embed");
    assert_eq!(ModelTask::Rerank.to_string(), "rerank");
    assert_eq!(ModelTask::Generate.to_string(), "generate");
}

#[test]
fn catalog_rejects_invalid_spec() {
    let specs = vec![
        spec_with("embed/ok", ModelTask::Embed, JsonValue::Null),
        spec_with("bad", ModelTask::Embed, JsonValue::Null),
    ];
    let err = validate_catalog(&specs).unwrap_err();
    assert_eq!(err.to_string(), "Configuration error: Alias 'bad' must be in 'task/name' format");
    let good = vec![spec_with("embed/ok", ModelTask::Embed, JsonValue::Null)];
    assert!(validate_catalog(&good).is_ok());
}

fn valid_spec() -> ModelAliasSpec {
    ModelAliasSpec {
        alias: "embed/default".to_string(),
        task: ModelTask::Embed,
        provider_id: "local/candle".to_string(),
        model_id: "sentence-transformers/all-MiniLM-L6-v2".to_string(),
        revision: None,
        warmup: WarmupPolicy::Lazy,
        required: false,
        timeout: None,
        load_timeout: None,
        retry: None,
        options: JsonValue::Null,
    }
}

#[test]
fn runtime_key_distinguishes_non_object_options() {
    let spec_null = valid_spec();
    let mut spec_bool = spec_null.clone();
    spec_bool.options = JsonValue::Bool(true);
    let mut spec_array = spec_null.clone();
    spec_array.options = JsonValue::Array(vec![text("a"), num(1)]);

    let key_null = ModelRuntimeKey::new(&spec_null);
    let key_bool = ModelRuntimeKey::new(&spec_bool);
    let key_array = ModelRuntimeKey::new(&spec_array);

    assert_ne!(key_null, key_bool);
    assert_ne!(key_null, key_array);
    assert_ne!(key_bool, key_array);
}

#[test]
fn runtime_key_nested_option_order_independence() {
    let mut spec1 = valid_spec();
    spec1.options = outer(false, 2);
    let mut spec2 = valid_spec();
    spec2.options = outer(true, 2);
    assert_eq!(ModelRuntimeKey::new(&spec1), ModelRuntimeKey::new(&spec2));
}

#[test]
fn cloned_spec_has_same_key() {
    let mut spec = valid_spec();
    spec.options = outer(true, 2);
    let copy = spec.clone();
    assert_eq!(ModelRuntimeKey::new(&spec), ModelRuntimeKey::new(&copy));
    assert_eq!(copy.alias, "embed/default");
}

#[test]
fn later_insert_replaces_value() {
    let mut m = JsonMap::new();
    m.insert("k".to_string(), num(1));
    m.insert("k".to_string(), num(2));
    assert_eq!(m.len(), 1);
    assert_eq!(m.get("k").and_then(|v| v.as_u64()), Some(2));
    assert!(m.get("other").is_none());
}
