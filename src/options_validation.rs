use vstd::prelude::*;
use crate::api::ModelTask;
use crate::error::RuntimeError;
use crate::json::{JsonMap, JsonValue};
use crate::text::same_text;

verus! {

/// The texts of a list of names.
pub open spec fn names(s: Seq<&str>) -> Seq<Seq<char>> {
    Seq::new(s.len(), |i: int| s[i]@)
}

/// Every key of the object is one of `allowed`.
pub open spec fn keys_within(m: JsonMap, allowed: Seq<Seq<char>>) -> bool {
    forall|i: int| 0 <= i < m.spec_entries().len() ==> allowed.contains(#[trigger] m.spec_entries()[i].0@)
}

/// Each of `keys` that is present holds a string.
pub open spec fn strings_where_present(m: JsonMap, keys: Seq<Seq<char>>) -> bool {
    forall|i: int| 0 <= i < keys.len() ==> match #[trigger] m.lookup(keys[i]) {
        Some(v) => v is Str,
        None => true,
    }
}

/// Each of `keys` that is present holds a boolean.
pub open spec fn booleans_where_present(m: JsonMap, keys: Seq<Seq<char>>) -> bool {
    forall|i: int| 0 <= i < keys.len() ==> match #[trigger] m.lookup(keys[i]) {
        Some(v) => v is Bool,
        None => true,
    }
}

/// A value that is an integer of at least one.
pub open spec fn positive_integer(v: JsonValue) -> bool {
    v is Number && v->Number_0.spec_unsigned() is Some && v->Number_0.spec_unsigned()->0 > 0
}

/// Key `k`, when present, holds an integer of at least one.
pub open spec fn positive_where_present(m: JsonMap, k: Seq<char>) -> bool {
    match m.lookup(k) {
        Some(v) => positive_integer(v),
        None => true,
    }
}

/// `embedding_dimensions`, when present, is a positive integer and the task
/// is embedding.
pub open spec fn embedding_dimensions_ok(m: JsonMap, task: ModelTask) -> bool {
    positive_where_present(m, "embedding_dimensions"@) && (m.lookup("embedding_dimensions"@) is Some
        ==> task == ModelTask::Embed)
}

/// `gguf_files`, when present, is an array of strings.
pub open spec fn gguf_files_ok(m: JsonMap) -> bool {
    match m.lookup("gguf_files"@) {
        Some(v) => v is Array && forall|i: int|
            0 <= i < v->Array_0@.len() ==> (#[trigger] v->Array_0@[i]) is Str,
        None => true,
    }
}

/// Options of a provider whose options are all optional strings: null, or an
/// object of only the allowed keys, each holding a string.
pub open spec fn string_keys_valid(v: JsonValue, allowed: Seq<Seq<char>>) -> bool {
    match v {
        JsonValue::Null => true,
        JsonValue::Object(m) => keys_within(m, allowed) && strings_where_present(m, allowed),
        _ => false,
    }
}

pub open spec fn vertexai_keys() -> Seq<Seq<char>> {
    seq!["api_token_env"@, "project_id"@, "location"@, "publisher"@, "embedding_dimensions"@]
}

pub open spec fn vertexai_string_keys() -> Seq<Seq<char>> {
    seq!["api_token_env"@, "project_id"@, "location"@, "publisher"@]
}

pub open spec fn mistralrs_keys() -> Seq<Seq<char>> {
    seq![
        "isq"@,
        "force_cpu"@,
        "paged_attention"@,
        "max_num_seqs"@,
        "chat_template"@,
        "tokenizer_json"@,
        "embedding_dimensions"@,
        "gguf_files"@,
    ]
}

pub open spec fn mistralrs_string_keys() -> Seq<Seq<char>> {
    seq!["isq"@, "chat_template"@, "tokenizer_json"@]
}

pub open spec fn mistralrs_bool_keys() -> Seq<Seq<char>> {
    seq!["force_cpu"@, "paged_attention"@]
}

pub open spec fn vertexai_valid(task: ModelTask, v: JsonValue) -> bool {
    match v {
        JsonValue::Null => true,
        JsonValue::Object(m) => keys_within(m, vertexai_keys()) && strings_where_present(
            m,
            vertexai_string_keys(),
        ) && embedding_dimensions_ok(m, task),
        _ => false,
    }
}

pub open spec fn mistralrs_valid(task: ModelTask, v: JsonValue) -> bool {
    match v {
        JsonValue::Null => true,
        JsonValue::Object(m) => keys_within(m, mistralrs_keys()) && strings_where_present(
            m,
            mistralrs_string_keys(),
        ) && booleans_where_present(m, mistralrs_bool_keys()) && positive_where_present(
            m,
            "max_num_seqs"@,
        ) && embedding_dimensions_ok(m, task) && gguf_files_ok(m),
        _ => false,
    }
}

/// The allowed string keys of the providers whose options are all optional
/// strings; none for the others.
pub open spec fn string_only_keys(p: Seq<char>) -> Option<Seq<Seq<char>>> {
    if p == "remote/openai"@ || p == "remote/gemini"@ || p == "remote/mistral"@ || p
        == "remote/voyageai"@ {
        Some(seq!["api_key_env"@])
    } else if p == "remote/anthropic"@ {
        Some(seq!["api_key_env"@, "anthropic_version"@])
    } else if p == "remote/cohere"@ {
        Some(seq!["api_key_env"@, "input_type"@])
    } else if p == "remote/azure-openai"@ {
        Some(seq!["api_key_env"@, "resource_name"@, "api_version"@])
    } else if p == "local/candle"@ || p == "local/fastembed"@ {
        Some(seq!["cache_dir"@])
    } else {
        None
    }
}

/// Whether the options suit the provider and task. Providers that are not
/// known here accept any options.
pub open spec fn options_valid(p: Seq<char>, task: ModelTask, v: JsonValue) -> bool {
    match string_only_keys(p) {
        Some(keys) => string_keys_valid(v, keys),
        None => if p == "remote/vertexai"@ {
            vertexai_valid(task, v)
        } else if p == "local/mistralrs"@ {
            mistralrs_valid(task, v)
        } else {
            true
        },
    }
}

fn config(head: &str, key: &str, provider_id: &str, tail: &str) -> (r: RuntimeError)
    ensures
        r is Config,
{
    let mut m = String::from_str(head);
    m.append(key);
    m.append("' for provider '");
    m.append(provider_id);
    m.append(tail);
    RuntimeError::Config(m)
}

/// The object of the options; none for null; an error for any other kind.
fn as_object<'a>(provider_id: &str, options: &'a JsonValue) -> (r: Result<Option<&'a JsonMap>, RuntimeError>)
    ensures
        r is Ok <==> (options is Null || options is Object),
        r is Ok ==> (r->Ok_0 is Some <==> options is Object),
        r is Ok && r->Ok_0 is Some ==> *r->Ok_0->0 == options->Object_0,
        r is Err ==> r->Err_0 is Config,
{
    match options {
        JsonValue::Null => Ok(None),
        JsonValue::Object(m) => Ok(Some(m)),
        _ => {
            let mut m = String::from_str("Options for provider '");
            m.append(provider_id);
            m.append("' must be a JSON object or null");
            Err(RuntimeError::Config(m))
        }
    }
}

fn is_listed(key: &str, allowed: &Vec<&str>) -> (r: bool)
    ensures
        r == names(allowed@).contains(key@),
{
    let mut i: usize = 0;
    while i < allowed.len()
        invariant
            i <= allowed@.len(),
            forall|p: int| 0 <= p < i ==> allowed@[p]@ != key@,
        decreases allowed@.len() - i,
    {
        if same_text(allowed[i], key) {
            proof {
                assert(names(allowed@)[i as int] == key@);
            }
            return true;
        }
        i = i + 1;
    }
    proof {
        if names(allowed@).contains(key@) {
            let j = choose|j: int| 0 <= j < names(allowed@).len() && names(allowed@)[j] == key@;
            assert(allowed@[j]@ == key@);
        }
    }
    false
}

/// Rejects any key that is not in `allowed`.
fn reject_unknown_keys(provider_id: &str, map: &JsonMap, allowed: &Vec<&str>) -> (r: Result<(), RuntimeError>)
    ensures
        r is Ok <==> keys_within(*map, names(allowed@)),
        r is Err ==> r->Err_0 is Config,
{
    let mut i: usize = 0;
    while i < map.len()
        invariant
            i <= map.spec_entries().len(),
            forall|p: int| 0 <= p < i ==> names(allowed@).contains(#[trigger] map.spec_entries()[p].0@),
        decreases map.spec_entries().len() - i,
    {
        let key = map.key_at(i);
        if !is_listed(key.as_str(), allowed) {
            return Err(config("Unknown option '", key.as_str(), provider_id, "'"));
        }
        i = i + 1;
    }
    Ok(())
}

/// Requires each of `keys` that is present to hold a string.
fn require_string_keys(provider_id: &str, map: &JsonMap, keys: &Vec<&str>) -> (r: Result<(), RuntimeError>)
    ensures
        r is Ok <==> strings_where_present(*map, names(keys@)),
        r is Err ==> r->Err_0 is Config,
{
    let mut i: usize = 0;
    while i < keys.len()
        invariant
            i <= keys@.len(),
            forall|p: int| 0 <= p < i ==> match #[trigger] map.lookup(names(keys@)[p]) {
                Some(v) => v is Str,
                None => true,
            },
        decreases keys@.len() - i,
    {
        proof {
            assert(names(keys@)[i as int] == keys@[i as int]@);
        }
        match map.get(keys[i]) {
            Some(v) => {
                if !v.is_string() {
                    return Err(config("Option '", keys[i], provider_id, "' must be a string"));
                }
            }
            None => {}
        }
        i = i + 1;
    }
    Ok(())
}

/// Requires each of `keys` that is present to hold a boolean.
fn require_boolean_keys(provider_id: &str, map: &JsonMap, keys: &Vec<&str>) -> (r: Result<(), RuntimeError>)
    ensures
        r is Ok <==> booleans_where_present(*map, names(keys@)),
        r is Err ==> r->Err_0 is Config,
{
    let mut i: usize = 0;
    while i < keys.len()
        invariant
            i <= keys@.len(),
            forall|p: int| 0 <= p < i ==> match #[trigger] map.lookup(names(keys@)[p]) {
                Some(v) => v is Bool,
                None => true,
            },
        decreases keys@.len() - i,
    {
        proof {
            assert(names(keys@)[i as int] == keys@[i as int]@);
        }
        match map.get(keys[i]) {
            Some(v) => {
                if !v.is_boolean() {
                    return Err(config("Option '", keys[i], provider_id, "' must be a boolean"));
                }
            }
            None => {}
        }
        i = i + 1;
    }
    Ok(())
}

/// Requires `key`, when present, to hold an integer of at least one.
fn require_positive_u64(provider_id: &str, map: &JsonMap, key: &str) -> (r: Result<(), RuntimeError>)
    ensures
        r is Ok <==> positive_where_present(*map, key@),
        r is Err ==> r->Err_0 is Config,
{
    match map.get(key) {
        Some(value) => match value.as_u64() {
            None => Err(config("Option '", key, provider_id, "' must be a positive integer")),
            Some(v) => {
                if v == 0 {
                    Err(config("Option '", key, provider_id, "' must be greater than 0"))
                } else {
                    Ok(())
                }
            }
        },
        None => Ok(()),
    }
}

/// `embedding_dimensions`, when present, must be a positive integer and the
/// task must be embedding.
fn require_embedding_dimensions(provider_id: &str, task: ModelTask, map: &JsonMap) -> (r: Result<(), RuntimeError>)
    ensures
        r is Ok <==> embedding_dimensions_ok(*map, task),
        r is Err ==> r->Err_0 is Config,
{
    if map.get("embedding_dimensions").is_some() {
        require_positive_u64(provider_id, map, "embedding_dimensions")?;
        if task != ModelTask::Embed {
            return Err(
                RuntimeError::Config(
                    String::from_str("Option 'embedding_dimensions' is only valid for embed tasks"),
                ),
            );
        }
    }
    Ok(())
}

fn validate_string_keys_only(provider_id: &str, options: &JsonValue, allowed: &Vec<&str>) -> (r: Result<(), RuntimeError>)
    ensures
        r is Ok <==> string_keys_valid(*options, names(allowed@)),
        r is Err ==> r->Err_0 is Config,
{
    match as_object(provider_id, options)? {
        None => Ok(()),
        Some(map) => {
            reject_unknown_keys(provider_id, map, allowed)?;
            require_string_keys(provider_id, map, allowed)
        }
    }
}

fn validate_vertexai_options(provider_id: &str, task: ModelTask, options: &JsonValue) -> (r: Result<(), RuntimeError>)
    ensures
        r is Ok <==> vertexai_valid(task, *options),
        r is Err ==> r->Err_0 is Config,
{
    let map = match as_object(provider_id, options)? {
        None => {
            return Ok(());
        }
        Some(map) => map,
    };
    let allowed = vec!["api_token_env", "project_id", "location", "publisher", "embedding_dimensions"];
    assert(names(allowed@) =~= vertexai_keys());
    reject_unknown_keys(provider_id, map, &allowed)?;
    let strings = vec!["api_token_env", "project_id", "location", "publisher"];
    assert(names(strings@) =~= vertexai_string_keys());
    require_string_keys(provider_id, map, &strings)?;
    require_embedding_dimensions(provider_id, task, map)
}

fn require_string_array(provider_id: &str, map: &JsonMap) -> (r: Result<(), RuntimeError>)
    ensures
        r is Ok <==> gguf_files_ok(*map),
        r is Err ==> r->Err_0 is Config,
{
    match map.get("gguf_files") {
        None => Ok(()),
        Some(value) => match value.as_array() {
            None => Err(config("Option '", "gguf_files", provider_id, "' must be an array of strings")),
            Some(items) => {
                let mut i: usize = 0;
                while i < items.len()
                    invariant
                        i <= items@.len(),
                        forall|p: int| 0 <= p < i ==> (#[trigger] items@[p]) is Str,
                        map.lookup("gguf_files"@) is Some,
                        map.lookup("gguf_files"@)->0 is Array,
                        map.lookup("gguf_files"@)->0->Array_0 == *items,
                    decreases items@.len() - i,
                {
                    if !items[i].is_string() {
                        proof {
                            let v = map.lookup("gguf_files"@)->0;
                            assert(v->Array_0@[i as int] == items@[i as int]);
                        }
                        return Err(
                            config("Option '", "gguf_files", provider_id, "' must be an array of strings"),
                        );
                    }
                    i = i + 1;
                }
                Ok(())
            }
        },
    }
}

fn validate_mistralrs_options(provider_id: &str, task: ModelTask, options: &JsonValue) -> (r: Result<(), RuntimeError>)
    ensures
        r is Ok <==> mistralrs_valid(task, *options),
        r is Err ==> r->Err_0 is Config,
{
    let map = match as_object(provider_id, options)? {
        None => {
            return Ok(());
        }
        Some(map) => map,
    };
    let allowed = vec![
        "isq",
        "force_cpu",
        "paged_attention",
        "max_num_seqs",
        "chat_template",
        "tokenizer_json",
        "embedding_dimensions",
        "gguf_files",
    ];
    assert(names(allowed@) =~= mistralrs_keys());
    reject_unknown_keys(provider_id, map, &allowed)?;
    let strings = vec!["isq", "chat_template", "tokenizer_json"];
    assert(names(strings@) =~= mistralrs_string_keys());
    require_string_keys(provider_id, map, &strings)?;
    let flags = vec!["force_cpu", "paged_attention"];
    assert(names(flags@) =~= mistralrs_bool_keys());
    require_boolean_keys(provider_id, map, &flags)?;
    require_positive_u64(provider_id, map, "max_num_seqs")?;
    require_embedding_dimensions(provider_id, task, map)?;
    require_string_array(provider_id, map)
}

/// Checks the options of a spec against the keys and kinds that its provider
/// accepts. Providers that are not known here accept any options, so that
/// other providers can be plugged in.
pub fn validate_provider_options(provider_id: &str, task: ModelTask, options: &JsonValue) -> (r: Result<(), RuntimeError>)
    ensures
        r is Ok <==> options_valid(provider_id@, task, *options),
        r is Err ==> r->Err_0 is Config,
{
    if same_text(provider_id, "remote/openai") || same_text(provider_id, "remote/gemini")
        || same_text(provider_id, "remote/mistral") || same_text(provider_id, "remote/voyageai") {
        let keys = vec!["api_key_env"];
        assert(names(keys@) =~= seq!["api_key_env"@]);
        validate_string_keys_only(provider_id, options, &keys)
    } else if same_text(provider_id, "remote/anthropic") {
        let keys = vec!["api_key_env", "anthropic_version"];
        assert(names(keys@) =~= seq!["api_key_env"@, "anthropic_version"@]);
        validate_string_keys_only(provider_id, options, &keys)
    } else if same_text(provider_id, "remote/cohere") {
        let keys = vec!["api_key_env", "input_type"];
        assert(names(keys@) =~= seq!["api_key_env"@, "input_type"@]);
        validate_string_keys_only(provider_id, options, &keys)
    } else if same_text(provider_id, "remote/azure-openai") {
        let keys = vec!["api_key_env", "resource_name", "api_version"];
        assert(names(keys@) =~= seq!["api_key_env"@, "resource_name"@, "api_version"@]);
        validate_string_keys_only(provider_id, options, &keys)
    } else if same_text(provider_id, "local/candle") || same_text(provider_id, "local/fastembed") {
        let keys = vec!["cache_dir"];
        assert(names(keys@) =~= seq!["cache_dir"@]);
        validate_string_keys_only(provider_id, options, &keys)
    } else if same_text(provider_id, "remote/vertexai") {
        validate_vertexai_options(provider_id, task, options)
    } else if same_text(provider_id, "local/mistralrs") {
        validate_mistralrs_options(provider_id, task, options)
    } else {
        Ok(())
    }
}

} // verus!
