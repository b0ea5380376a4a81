use vstd::prelude::*;
use crate::text::same_text;

verus! {

/// What the prefetch command line asks for.
#[derive(Debug)]
pub enum PrefetchCommand {
    /// Print the usage text.
    Help,
    /// Prefetch the local models of a catalog file.
    Run { catalog_path: String, cache_dir: Option<String>, dry_run: bool },
}

/// Why a prefetch command line is refused.
#[derive(Debug)]
pub enum ArgError {
    /// `--cache-dir` is the last argument.
    CacheDirWithoutPath,
    /// An argument starting with `-` that is no known option.
    UnknownOption(String),
    /// A second positional argument.
    UnexpectedArgument(String),
    /// No catalog path was given.
    MissingCatalog,
}

/// The outcome of parsing, as plain values.
pub enum ParseView {
    Help,
    Run { catalog_path: Seq<char>, cache_dir: Option<Seq<char>>, dry_run: bool },
    CacheDirWithoutPath,
    UnknownOption(Seq<char>),
    UnexpectedArgument(Seq<char>),
    MissingCatalog,
}

/// The outcome of parsing `args` from index `i` on, with what was read
/// before it. `--help` or `-h` wins at once; `--cache-dir` takes the next
/// argument as its path; any other argument starting with `-` is refused;
/// the first positional argument is the catalog path and a second one is
/// refused.
pub open spec fn parse_from(args: Seq<Seq<char>>, i: int, catalog: Option<Seq<char>>, cache: Option<Seq<char>>, dry: bool) -> ParseView
    decreases args.len() - i,
{
    if i < 0 || i >= args.len() {
        match catalog {
            Some(c) => ParseView::Run { catalog_path: c, cache_dir: cache, dry_run: dry },
            None => ParseView::MissingCatalog,
        }
    } else {
        let a = args[i];
        if a == "--help"@ || a == "-h"@ {
            ParseView::Help
        } else if a == "--dry-run"@ {
            parse_from(args, i + 1, catalog, cache, true)
        } else if a == "--cache-dir"@ {
            if i + 1 < args.len() {
                parse_from(args, i + 2, catalog, Some(args[i + 1]), dry)
            } else {
                ParseView::CacheDirWithoutPath
            }
        } else if a.len() > 0 && a[0] == '-' {
            ParseView::UnknownOption(a)
        } else if catalog is Some {
            ParseView::UnexpectedArgument(a)
        } else {
            parse_from(args, i + 1, Some(a), cache, dry)
        }
    }
}

/// The texts of the arguments.
pub open spec fn arg_texts(args: Seq<String>) -> Seq<Seq<char>> {
    Seq::new(args.len(), |i: int| args[i]@)
}

pub open spec fn opt_text(s: Option<String>) -> Option<Seq<char>> {
    match s {
        Some(t) => Some(t@),
        None => None,
    }
}

/// The plain view of a parse result.
pub open spec fn parse_view(r: Result<PrefetchCommand, ArgError>) -> ParseView {
    match r {
        Ok(PrefetchCommand::Help) => ParseView::Help,
        Ok(PrefetchCommand::Run { catalog_path, cache_dir, dry_run }) => ParseView::Run {
            catalog_path: catalog_path@,
            cache_dir: opt_text(cache_dir),
            dry_run,
        },
        Err(ArgError::CacheDirWithoutPath) => ParseView::CacheDirWithoutPath,
        Err(ArgError::UnknownOption(a)) => ParseView::UnknownOption(a@),
        Err(ArgError::UnexpectedArgument(a)) => ParseView::UnexpectedArgument(a@),
        Err(ArgError::MissingCatalog) => ParseView::MissingCatalog,
    }
}

fn copy_opt(s: &Option<String>) -> (r: Option<String>)
    ensures
        opt_text(r) == opt_text(*s),
{
    match s {
        Some(t) => Some(t.clone()),
        None => None,
    }
}

/// Parses the prefetch command line (the program name left out).
pub fn parse_prefetch_args(args: &Vec<String>) -> (r: Result<PrefetchCommand, ArgError>)
    ensures
        parse_view(r) == parse_from(arg_texts(args@), 0, None, None, false),
{
    let ghost a = arg_texts(args@);
    let mut catalog: Option<String> = None;
    let mut cache: Option<String> = None;
    let mut dry = false;
    let mut i: usize = 0;
    while i < args.len()
        invariant
            a == arg_texts(args@),
            i <= args@.len(),
            parse_from(a, 0, None, None, false) == parse_from(a, i as int, opt_text(catalog), opt_text(cache), dry),
        decreases args@.len() - i,
    {
        let arg = args[i].as_str();
        proof {
            assert(a[i as int] == arg@);
        }
        if same_text(arg, "--help") || same_text(arg, "-h") {
            return Ok(PrefetchCommand::Help);
        } else if same_text(arg, "--dry-run") {
            dry = true;
            i = i + 1;
        } else if same_text(arg, "--cache-dir") {
            if i + 1 < args.len() {
                proof {
                    assert(a[i + 1] == args@[i + 1]@);
                }
                cache = Some(args[i + 1].clone());
                i = i + 2;
            } else {
                return Err(ArgError::CacheDirWithoutPath);
            }
        } else if arg.unicode_len() > 0 && arg.get_char(0) == '-' {
            return Err(ArgError::UnknownOption(args[i].clone()));
        } else if catalog.is_some() {
            return Err(ArgError::UnexpectedArgument(args[i].clone()));
        } else {
            catalog = Some(args[i].clone());
            i = i + 1;
        }
    }
    match catalog {
        Some(c) => Ok(PrefetchCommand::Run { catalog_path: c, cache_dir: copy_opt(&cache), dry_run: dry }),
        None => Err(ArgError::MissingCatalog),
    }
}

impl ArgError {
    /// The message shown for the error.
    pub fn message(&self) -> (r: String)
        ensures
            match *self {
                ArgError::CacheDirWithoutPath => r@ == "--cache-dir requires a path argument"@,
                ArgError::UnknownOption(a) => r@ == "Unknown option: "@ + a@,
                ArgError::UnexpectedArgument(a) => r@ == "Unexpected argument: "@ + a@,
                ArgError::MissingCatalog => r@ == "Missing required argument: <catalog.json>"@,
            },
    {
        match self {
            ArgError::CacheDirWithoutPath => String::from_str("--cache-dir requires a path argument"),
            ArgError::UnknownOption(a) => {
                let mut m = String::from_str("Unknown option: ");
                m.append(a.as_str());
                m
            }
            ArgError::UnexpectedArgument(a) => {
                let mut m = String::from_str("Unexpected argument: ");
                m.append(a.as_str());
                m
            }
            ArgError::MissingCatalog => String::from_str("Missing required argument: <catalog.json>"),
        }
    }
}

/// The prefix of the ids of local providers.
pub open spec fn local_prefix() -> Seq<char> {
    "local/"@
}

/// Whether a provider id names a local provider: it starts with `local/`.
pub open spec fn is_local(id: Seq<char>) -> bool {
    id.len() >= 6 && id.subrange(0, 6) == local_prefix()
}

/// Whether `id` names a local provider, whose models can be cached on disk.
pub fn is_local_provider(id: &str) -> (r: bool)
    ensures
        r == is_local(id@),
{
    proof {
        reveal_strlit("local/");
    }
    let n = id.unicode_len();
    if n < 6 {
        return false;
    }
    let prefix = id.substring_char(0, 6);
    same_text(prefix, "local/")
}

/// The id without every leading `local/`, as `trim_start_matches` strips it.
pub open spec fn strip_local(id: Seq<char>) -> Seq<char>
    decreases id.len(),
{
    if is_local(id) {
        strip_local(id.subrange(6, id.len() as int))
    } else {
        id
    }
}

/// The directory name of a provider under the cache root: its id without
/// the `local/` prefix.
pub fn provider_dir_name(id: &str) -> (r: &str)
    ensures
        r@ == strip_local(id@),
{
    let mut rest = id;
    while is_local_provider(rest)
        invariant
            strip_local(id@) == strip_local(rest@),
        decreases rest@.len(),
    {
        let n = rest.unicode_len();
        rest = rest.substring_char(6, n);
    }
    rest
}

} // verus!
