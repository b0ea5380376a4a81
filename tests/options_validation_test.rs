use uni_xervo::api::ModelTask;
use uni_xervo::json::{JsonMap, JsonNumber, JsonValue};
use uni_xervo::options_validation::validate_provider_options;

fn object(entries: Vec<(&str, JsonValue)>) -> JsonValue {
    let mut m = JsonMap::new();
    for (k, v) in entries {
        m.insert(k.to_string(), v);
    }
    JsonValue::Object(m)
}

fn text(s: &str) -> JsonValue {
    JsonValue::Str(s.to_string())
}

fn num(n: u64) -> JsonValue {
    JsonValue::Number(JsonNumber::from_u64(n))
}

#[test]
fn unknown_provider_accepts_anything() {
    assert!(validate_provider_options("custom/thing", ModelTask::Embed, &object(vec![("x", num(1))])).is_ok());
    assert!(validate_provider_options("custom/thing", ModelTask::Embed, &text("s")).is_ok());
}

#[test]
fn remote_string_keys() {
    assert!(validate_provider_options("remote/openai", ModelTask::Embed, &object(vec![("api_key_env", text("K"))])).is_ok());
    assert!(validate_provider_options("remote/openai", ModelTask::Embed, &JsonValue::Null).is_ok());
    let err = validate_provider_options("remote/openai", ModelTask::Embed, &object(vec![("api_key_env", num(1))])).unwrap_err();
    assert_eq!(err.to_string(), "Configuration error: Option 'api_key_env' for provider 'remote/openai' must be a string");
    let err = validate_provider_options("remote/openai", ModelTask::Embed, &object(vec![("other", text("x"))])).unwrap_err();
    assert_eq!(err.to_string(), "Configuration error: Unknown option 'other' for provider 'remote/openai'");
    let err = validate_provider_options("remote/openai", ModelTask::Embed, &text("x")).unwrap_err();
    assert_eq!(err.to_string(), "Configuration error: Options for provider 'remote/openai' must be a JSON object or null");
    assert!(validate_provider_options("remote/anthropic", ModelTask::Generate, &object(vec![("anthropic_version", text("v"))])).is_ok());
    assert!(validate_provider_options("remote/cohere", ModelTask::Rerank, &object(vec![("input_type", text("q"))])).is_ok());
    assert!(validate_provider_options("remote/azure-openai", ModelTask::Embed, &object(vec![("resource_name", text("r")), ("api_version", text("v"))])).is_ok());
    assert!(validate_provider_options("remote/mistral", ModelTask::Embed, &object(vec![("resource_name", text("r"))])).is_err());
    assert!(validate_provider_options("local/fastembed", ModelTask::Embed, &object(vec![("cache_dir", text("/tmp"))])).is_ok());
}

#[test]
fn vertexai_embedding_dimensions() {
    let ok = object(vec![("project_id", text("p")), ("embedding_dimensions", num(256))]);
    assert!(validate_provider_options("remote/vertexai", ModelTask::Embed, &ok).is_ok());
    let err = validate_provider_options("remote/vertexai", ModelTask::Generate, &ok).unwrap_err();
    assert!(err.to_string().contains("only valid for embed tasks"));
    let zero = object(vec![("embedding_dimensions", num(0))]);
    assert!(validate_provider_options("remote/vertexai", ModelTask::Embed, &zero).unwrap_err().to_string().contains("greater than 0"));
    let neg = object(vec![("embedding_dimensions", JsonValue::Number(JsonNumber::from_i64(-3)))]);
    assert!(validate_provider_options("remote/vertexai", ModelTask::Embed, &neg).unwrap_err().to_string().contains("positive integer"));
    let float = object(vec![("embedding_dimensions", JsonValue::Number(JsonNumber::from_float_text("2.5".to_string())))]);
    assert!(validate_provider_options("remote/vertexai", ModelTask::Embed, &float).is_err());
}

#[test]
fn mistralrs_options() {
    let ok = object(vec![
        ("isq", text("Q4K")),
        ("force_cpu", JsonValue::Bool(true)),
        ("max_num_seqs", num(4)),
        ("gguf_files", JsonValue::Array(vec![text("a.gguf"), text("b.gguf")])),
    ]);
    assert!(validate_provider_options("local/mistralrs", ModelTask::Generate, &ok).is_ok());
    let bad_flag = object(vec![("paged_attention", text("yes"))]);
    assert!(validate_provider_options("local/mistralrs", ModelTask::Generate, &bad_flag).unwrap_err().to_string().contains("must be a boolean"));
    let bad_files = object(vec![("gguf_files", JsonValue::Array(vec![text("a"), num(1)]))]);
    assert!(validate_provider_options("local/mistralrs", ModelTask::Generate, &bad_files).unwrap_err().to_string().contains("array of strings"));
    let not_array = object(vec![("gguf_files", text("a"))]);
    assert!(validate_provider_options("local/mistralrs", ModelTask::Generate, &not_array).is_err());
    let zero_seqs = object(vec![("max_num_seqs", num(0))]);
    assert!(validate_provider_options("local/mistralrs", ModelTask::Generate, &zero_seqs).is_err());
}

#[test]
fn number_texts() {
    assert_eq!(JsonNumber::from_u64(5).text(), "5");
    assert_eq!(JsonNumber::from_u64(1234567890).text(), "1234567890");
    assert_eq!(JsonNumber::from_i64(-3).text(), "-3");
    assert_eq!(JsonNumber::from_i64(-3).as_u64(), None);
    assert_eq!(JsonNumber::from_i64(7).as_u64(), Some(7));
    assert_eq!(JsonNumber::from_float_text("0.5".to_string()).text(), "0.5");
}
