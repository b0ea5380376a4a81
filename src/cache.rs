use vstd::prelude::*;
use crate::json::JsonValue;

verus! {

/// Name of the environment variable that overrides the cache root.
pub const CACHE_ROOT_ENV: &'static str = "UNI_CACHE_DIR";

/// The cache root when the environment names none.
pub const DEFAULT_CACHE_ROOT: &'static str = ".uni_cache";

/// Whether `c` is a letter or a digit in Unicode's sense, as
/// `char::is_alphanumeric` decides it.
pub uninterp spec fn alphanumeric(c: char) -> bool;

/// Relies on `char::is_alphanumeric`: Unicode's alphabetic or numeric
/// property, which ASCII letters and digits have.
#[verifier::external_body]
fn is_alphanumeric(c: char) -> (r: bool)
    ensures
        r == alphanumeric(c),
        ('a' <= c <= 'z' || 'A' <= c <= 'Z' || '0' <= c <= '9') ==> r,
{
    c.is_alphanumeric()
}

/// Relies on `String::push`: appends one character.
#[verifier::external_body]
fn push_char(s: &mut String, c: char)
    ensures
        final(s)@ == old(s)@.push(c),
{
    s.push(c)
}

/// A character kept in a directory name.
pub open spec fn safe_char(c: char) -> bool {
    alphanumeric(c) || c == '-' || c == '_' || c == '.'
}

/// The model id with each `/` written as `--` and every other character that
/// is not a letter, a digit, `-`, `_` or `.` left out.
pub open spec fn sanitized(s: Seq<char>) -> Seq<char>
    decreases s.len(),
{
    if s.len() == 0 {
        s
    } else {
        let rest = sanitized(s.drop_last());
        let c = s.last();
        if c == '/' {
            rest + seq!['-', '-']
        } else if safe_char(c) {
            rest.push(c)
        } else {
            rest
        }
    }
}

/// A directory name for a model id: `/` becomes `--`, and characters that are
/// unsafe in a directory name are dropped.
pub fn sanitize_model_name(model_id: &str) -> (r: String)
    ensures
        r@ == sanitized(model_id@),
{
    let n = model_id.unicode_len();
    let mut out = String::new();
    let mut i: usize = 0;
    while i < n
        invariant
            n == model_id@.len(),
            i <= n,
            out@ == sanitized(model_id@.subrange(0, i as int)),
        decreases n - i,
    {
        let c = model_id.get_char(i);
        proof {
            let pre = model_id@.subrange(0, i + 1);
            assert(pre.drop_last() =~= model_id@.subrange(0, i as int));
            assert(pre.last() == c);
        }
        if c == '/' {
            push_char(&mut out, '-');
            push_char(&mut out, '-');
            proof {
                assert(out@ =~= sanitized(model_id@.subrange(0, i as int)) + seq!['-', '-']);
            }
        } else if c == '-' || c == '_' || c == '.' || is_alphanumeric(c) {
            push_char(&mut out, c);
        }
        i = i + 1;
    }
    proof {
        assert(model_id@.subrange(0, n as int) =~= model_id@);
    }
    out
}

/// `base` joined with the path `part`: `part` itself when it is absolute or
/// `base` is empty, else the two with one `/` between them.
pub open spec fn join_path(base: Seq<char>, part: Seq<char>) -> Seq<char> {
    if part.len() > 0 && part[0] == '/' {
        part
    } else if base.len() == 0 {
        part
    } else if base.last() == '/' {
        base + part
    } else {
        base + seq!['/'] + part
    }
}

/// Joins the path `part` onto `base`, as `Path::join` does for these texts.
pub fn join(base: &str, part: &str) -> (r: String)
    ensures
        r@ == join_path(base@, part@),
{
    let lp = part.unicode_len();
    let lb = base.unicode_len();
    if lp > 0 && part.get_char(0) == '/' {
        return String::from_str(part);
    }
    if lb == 0 {
        return String::from_str(part);
    }
    let mut r = String::from_str(base);
    if base.get_char(lb - 1) != '/' {
        r.append("/");
        proof {
            assert("/"@ =~= seq!['/']) by {
                reveal_strlit("/");
            }
        }
    }
    r.append(part);
    r
}

/// The text of an optional directory.
pub open spec fn root_view(env_root: Option<&str>) -> Option<Seq<char>> {
    match env_root {
        Some(d) => Some(d@),
        None => None,
    }
}

/// The cache root: the directory the environment names, or the default.
pub open spec fn cache_root(env_root: Option<Seq<char>>) -> Seq<char> {
    match env_root {
        Some(d) => d,
        None => DEFAULT_CACHE_ROOT@,
    }
}

/// The cache root of a provider (without a model directory): the provider's
/// directory under `env_root`, the value of `CACHE_ROOT_ENV` when it is set,
/// or else under `DEFAULT_CACHE_ROOT`.
pub fn resolve_provider_cache_root(env_root: Option<&str>, provider: &str) -> (r: String)
    ensures
        r@ == join_path(cache_root(root_view(env_root)), provider@),
{
    match env_root {
        Some(d) => join(d, provider),
        None => join(DEFAULT_CACHE_ROOT, provider),
    }
}

/// The cache directory of a model: the `cache_dir` option when it is a
/// string; else the model's sanitised directory under the provider's root.
pub open spec fn cache_dir_of(env_root: Option<Seq<char>>, provider: Seq<char>, model_id: Seq<char>, options: JsonValue) -> Seq<char> {
    match options {
        JsonValue::Object(m) => match m.lookup("cache_dir"@) {
            Some(JsonValue::Str(d)) => d@,
            _ => join_path(join_path(cache_root(env_root), provider), sanitized(model_id)),
        },
        _ => join_path(join_path(cache_root(env_root), provider), sanitized(model_id)),
    }
}

/// Resolves the cache directory of a model: a `cache_dir` option wins;
/// else `<root>/<provider>/<sanitised model id>`.
pub fn resolve_cache_dir(env_root: Option<&str>, provider: &str, model_id: &str, options: &JsonValue) -> (r: String)
    ensures
        r@ == cache_dir_of(root_view(env_root), provider@, model_id@, *options),
{
    match options {
        JsonValue::Object(m) => match m.get("cache_dir") {
            Some(v) => match v {
                JsonValue::Str(d) => {
                    return d.clone();
                }
                _ => {}
            },
            None => {}
        },
        _ => {}
    }
    let root = resolve_provider_cache_root(env_root, provider);
    let name = sanitize_model_name(model_id);
    join(root.as_str(), name.as_str())
}

} // verus!
