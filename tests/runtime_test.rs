use uni_xervo::api::{ModelAliasSpec, ModelRuntimeKey, ModelTask, WarmupPolicy};
use uni_xervo::error::RuntimeError;
use uni_xervo::json::{JsonMap, JsonValue};
use uni_xervo::registry::ModelRegistry;
use uni_xervo::runtime::{
    check_handle_task, check_provider_task, model_warmup_plan, provider_warmup_error,
    provider_warmup_plan, warmup_failure_outcome, Catalog, ModelWarmup, ProviderWarmup,
};
use uni_xervo::traits::ProviderCapabilities;

fn spec(alias: &str, task: ModelTask, provider: &str, model: &str) -> ModelAliasSpec {
    ModelAliasSpec {
        alias: alias.to_string(),
        task,
        provider_id: provider.to_string(),
        model_id: model.to_string(),
        revision: None,
        warmup: WarmupPolicy::Lazy,
        required: false,
        timeout: None,
        load_timeout: None,
        retry: None,
        options: JsonValue::Object(JsonMap::new()),
    }
}

fn providers() -> Vec<String> {
    vec!["mock".to_string(), "local/candle".to_string()]
}

#[test]
fn catalog_builds_and_looks_up() {
    let c = Catalog::build(
        vec![spec("embed/a", ModelTask::Embed, "mock", "m"), spec("embed/b", ModelTask::Embed, "mock", "m")],
        &providers(),
    )
    .unwrap();
    assert_eq!(c.len(), 2);
    assert!(c.contains_alias("embed/a"));
    assert!(!c.contains_alias("embed/c"));
    assert_eq!(c.lookup_spec("embed/b").unwrap().alias, "embed/b");
    assert_eq!(
        c.lookup_spec("embed/c").unwrap_err().to_string(),
        "Configuration error: Alias 'embed/c' not found"
    );
}

#[test]
fn catalog_rejects_duplicate_alias() {
    let err = Catalog::build(
        vec![spec("embed/a", ModelTask::Embed, "mock", "m"), spec("embed/a", ModelTask::Embed, "mock", "n")],
        &providers(),
    )
    .unwrap_err();
    assert_eq!(err.to_string(), "Configuration error: Duplicate alias in catalog");
}

#[test]
fn catalog_rejects_unknown_provider() {
    let err = Catalog::build(vec![spec("embed/a", ModelTask::Embed, "nope", "m")], &providers()).unwrap_err();
    assert_eq!(err.to_string(), "Configuration error: Unknown provider 'nope' for alias 'embed/a'");
}

#[test]
fn catalog_rejects_unknown_option() {
    let mut s = spec("embed/a", ModelTask::Embed, "local/candle", "m");
    let mut m = JsonMap::new();
    m.insert("bogus".to_string(), JsonValue::Bool(true));
    s.options = JsonValue::Object(m);
    let err = Catalog::build(vec![s], &providers()).unwrap_err();
    assert_eq!(err.to_string(), "Configuration error: Unknown option 'bogus' for provider 'local/candle'");
}

#[test]
fn register_adds_and_rejects_existing_alias() {
    let mut c = Catalog::build(vec![spec("embed/a", ModelTask::Embed, "mock", "m")], &providers()).unwrap();
    assert!(c.register(spec("embed/b", ModelTask::Embed, "mock", "m"), &providers()).is_ok());
    assert!(c.contains_alias("embed/b"));
    let err = c.register(spec("embed/b", ModelTask::Embed, "mock", "m"), &providers()).unwrap_err();
    assert_eq!(err.to_string(), "Configuration error: Alias 'embed/b' already exists");
    let err = c.register(spec("embed/c", ModelTask::Embed, "other", "m"), &providers()).unwrap_err();
    assert!(matches!(err, RuntimeError::Config(_)));
    assert_eq!(c.len(), 2);
}

#[test]
fn gates_removed_after_every_outcome() {
    let s = spec("embed/a", ModelTask::Embed, "mock", "m");
    let mut reg: ModelRegistry<u32, u8> = ModelRegistry::new();
    // Failed load.
    reg.open_gate(ModelRuntimeKey::new(&s), 0);
    assert_eq!(reg.loader_lock_count(), 1);
    let err = reg.finish_load(ModelRuntimeKey::new(&s), Err(RuntimeError::Load("boom".to_string())));
    assert!(matches!(err, Some(RuntimeError::Load(_))));
    assert_eq!(reg.loader_lock_count(), 0);
    assert!(reg.get(&ModelRuntimeKey::new(&s)).is_none());
    // Timed-out load.
    reg.open_gate(ModelRuntimeKey::new(&s), 0);
    let err = reg.finish_load(ModelRuntimeKey::new(&s), Err(RuntimeError::Timeout));
    assert!(matches!(err, Some(RuntimeError::Timeout)));
    assert_eq!(reg.loader_lock_count(), 0);
    // Successful load.
    reg.open_gate(ModelRuntimeKey::new(&s), 0);
    assert!(reg.finish_load(ModelRuntimeKey::new(&s), Ok(7)).is_none());
    assert_eq!(reg.loader_lock_count(), 0);
    assert_eq!(reg.get(&ModelRuntimeKey::new(&s)), Some(&7));
}

#[test]
fn waiter_finds_handle_after_load() {
    let a = spec("embed/a", ModelTask::Embed, "mock", "m");
    let b = spec("embed/b", ModelTask::Embed, "mock", "m");
    let mut reg: ModelRegistry<u32, u8> = ModelRegistry::new();
    // Both resolvers take part in the same gate.
    reg.open_gate(ModelRuntimeKey::new(&a), 0);
    reg.open_gate(ModelRuntimeKey::new(&b), 0);
    assert_eq!(reg.loader_lock_count(), 1);
    // The first holder finds nothing cached and loads.
    assert!(!reg.recheck(&ModelRuntimeKey::new(&a)));
    assert!(reg.finish_load(ModelRuntimeKey::new(&a), Ok(1)).is_none());
    // The waiter finds the handle and does not load.
    assert!(reg.recheck(&ModelRuntimeKey::new(&b)));
    assert_eq!(reg.get(&ModelRuntimeKey::new(&b)), Some(&1));
    assert_eq!(reg.loader_lock_count(), 0);
}

#[test]
fn warmup_policy_matrix() {
    let mut s = spec("embed/a", ModelTask::Embed, "mock", "m");
    s.warmup = WarmupPolicy::Eager;
    s.required = true;
    assert_eq!(model_warmup_plan(&s), ModelWarmup::LoadNow);
    assert!(matches!(warmup_failure_outcome(&s, RuntimeError::Load("x".to_string())), Err(RuntimeError::Load(_))));
    s.required = false;
    assert!(warmup_failure_outcome(&s, RuntimeError::Load("x".to_string())).is_ok());
    s.warmup = WarmupPolicy::Background;
    s.required = true;
    assert_eq!(model_warmup_plan(&s), ModelWarmup::LoadInBackground);
    assert!(warmup_failure_outcome(&s, RuntimeError::Load("x".to_string())).is_ok());
    s.warmup = WarmupPolicy::Lazy;
    assert_eq!(model_warmup_plan(&s), ModelWarmup::OnFirstUse);
    assert!(warmup_failure_outcome(&s, RuntimeError::Load("x".to_string())).is_ok());
}

#[test]
fn provider_warmup_plans() {
    assert_eq!(provider_warmup_plan(WarmupPolicy::Eager), ProviderWarmup::AwaitEach);
    assert_eq!(provider_warmup_plan(WarmupPolicy::Background), ProviderWarmup::SpawnEach);
    assert_eq!(provider_warmup_plan(WarmupPolicy::Lazy), ProviderWarmup::Skip);
    let e = provider_warmup_error("mock", &RuntimeError::Unavailable);
    assert_eq!(e.to_string(), "Load error: Failed to warmup provider mock: Unavailable");
}

#[test]
fn capability_mismatch_on_wrong_handle() {
    let err = check_handle_task("embed/a", ModelTask::Generate, ModelTask::Embed).unwrap_err();
    assert_eq!(
        err.to_string(),
        "Capability mismatch: Model for alias 'embed/a' does not implement GeneratorModel"
    );
    assert!(check_handle_task("embed/a", ModelTask::Embed, ModelTask::Embed).is_ok());
}

#[test]
fn capability_mismatch_on_unsupported_task() {
    let caps = ProviderCapabilities { supported_tasks: vec![ModelTask::Embed] };
    let err = check_provider_task("Mock", &caps, ModelTask::Rerank).unwrap_err();
    assert!(matches!(err, RuntimeError::CapabilityMismatch(_)));
    assert!(err.to_string().contains("does not support task rerank"));
    assert!(check_provider_task("Mock", &caps, ModelTask::Embed).is_ok());
}
