use vstd::prelude::*;
use crate::api::ModelTask;
use crate::error::RuntimeError;
use crate::text::same_text;
use crate::traits::ProviderCapabilities;

verus! {

/// The local provider of embedding and generation models run in process.
#[derive(Debug, Default)]
pub struct LocalMistralRsProvider;

impl LocalMistralRsProvider {
    pub fn new() -> (r: LocalMistralRsProvider) {
        LocalMistralRsProvider
    }

    /// The provider's id in alias specs.
    pub fn provider_id(&self) -> (r: &'static str)
        ensures
            r@ == "local/mistralrs"@,
    {
        "local/mistralrs"
    }

    /// The provider loads embedding and generation models.
    pub fn capabilities(&self) -> (r: ProviderCapabilities)
        ensures
            r.supported_tasks@ == seq![ModelTask::Embed, ModelTask::Generate],
    {
        ProviderCapabilities { supported_tasks: vec![ModelTask::Embed, ModelTask::Generate] }
    }
}

/// In-situ quantisation schemes that the `isq` option can name.
#[derive(Debug, Clone, Copy, PartialEq, Eq, Structural)]
pub enum IsqType {
    Q4_0,
    Q4_1,
    Q5_0,
    Q5_1,
    Q8_0,
    Q8_1,
    Q2K,
    Q3K,
    Q4K,
    Q5K,
    Q6K,
    Q8K,
    HQQ4,
    HQQ8,
    F8E4M3,
    AFQ8,
    AFQ6,
    AFQ4,
    AFQ3,
    AFQ2,
}

/// The text in upper case, as `str::to_uppercase` gives it.
pub uninterp spec fn upper_of(s: Seq<char>) -> Seq<char>;

/// Relies on `str::to_uppercase`: Unicode upper-casing, which depends on the
/// characters alone.
#[verifier::external_body]
fn uppercase(s: &str) -> (r: String)
    ensures
        r@ == upper_of(s@),
{
    s.to_uppercase()
}

/// The scheme that an upper-case name stands for.
pub open spec fn isq_named(n: Seq<char>) -> Option<IsqType> {
    if n == "Q4_0"@ {
        Some(IsqType::Q4_0)
    } else if n == "Q4_1"@ {
        Some(IsqType::Q4_1)
    } else if n == "Q5_0"@ {
        Some(IsqType::Q5_0)
    } else if n == "Q5_1"@ {
        Some(IsqType::Q5_1)
    } else if n == "Q8_0"@ {
        Some(IsqType::Q8_0)
    } else if n == "Q8_1"@ {
        Some(IsqType::Q8_1)
    } else if n == "Q2K"@ {
        Some(IsqType::Q2K)
    } else if n == "Q3K"@ {
        Some(IsqType::Q3K)
    } else if n == "Q4K"@ {
        Some(IsqType::Q4K)
    } else if n == "Q5K"@ {
        Some(IsqType::Q5K)
    } else if n == "Q6K"@ {
        Some(IsqType::Q6K)
    } else if n == "Q8K"@ {
        Some(IsqType::Q8K)
    } else if n == "HQQ4"@ {
        Some(IsqType::HQQ4)
    } else if n == "HQQ8"@ {
        Some(IsqType::HQQ8)
    } else if n == "F8E4M3"@ {
        Some(IsqType::F8E4M3)
    } else if n == "AFQ8"@ {
        Some(IsqType::AFQ8)
    } else if n == "AFQ6"@ {
        Some(IsqType::AFQ6)
    } else if n == "AFQ4"@ {
        Some(IsqType::AFQ4)
    } else if n == "AFQ3"@ {
        Some(IsqType::AFQ3)
    } else if n == "AFQ2"@ {
        Some(IsqType::AFQ2)
    } else {
        None
    }
}

/// The scheme of an already upper-cased name; an unknown name is a
/// configuration error that lists the valid ones.
pub fn parse_isq_upper(n: &str) -> (r: Result<IsqType, RuntimeError>)
    ensures
        isq_named(n@) is Some ==> r == Ok::<IsqType, RuntimeError>(isq_named(n@)->0),
        isq_named(n@) is None ==> r is Err && r->Err_0 is Config,
{
    if same_text(n, "Q4_0") {
        Ok(IsqType::Q4_0)
    } else if same_text(n, "Q4_1") {
        Ok(IsqType::Q4_1)
    } else if same_text(n, "Q5_0") {
        Ok(IsqType::Q5_0)
    } else if same_text(n, "Q5_1") {
        Ok(IsqType::Q5_1)
    } else if same_text(n, "Q8_0") {
        Ok(IsqType::Q8_0)
    } else if same_text(n, "Q8_1") {
        Ok(IsqType::Q8_1)
    } else if same_text(n, "Q2K") {
        Ok(IsqType::Q2K)
    } else if same_text(n, "Q3K") {
        Ok(IsqType::Q3K)
    } else if same_text(n, "Q4K") {
        Ok(IsqType::Q4K)
    } else if same_text(n, "Q5K") {
        Ok(IsqType::Q5K)
    } else if same_text(n, "Q6K") {
        Ok(IsqType::Q6K)
    } else if same_text(n, "Q8K") {
        Ok(IsqType::Q8K)
    } else if same_text(n, "HQQ4") {
        Ok(IsqType::HQQ4)
    } else if same_text(n, "HQQ8") {
        Ok(IsqType::HQQ8)
    } else if same_text(n, "F8E4M3") {
        Ok(IsqType::F8E4M3)
    } else if same_text(n, "AFQ8") {
        Ok(IsqType::AFQ8)
    } else if same_text(n, "AFQ6") {
        Ok(IsqType::AFQ6)
    } else if same_text(n, "AFQ4") {
        Ok(IsqType::AFQ4)
    } else if same_text(n, "AFQ3") {
        Ok(IsqType::AFQ3)
    } else if same_text(n, "AFQ2") {
        Ok(IsqType::AFQ2)
    } else {
        let mut m = String::from_str("Unknown ISQ type '");
        m.append(n);
        m.append(
            "'. Valid types: Q4_0, Q4_1, Q5_0, Q5_1, Q8_0, Q8_1, Q2K, Q3K, Q4K, Q5K, Q6K, Q8K, HQQ4, HQQ8, F8E4M3, AFQ2-AFQ8",
        );
        Err(RuntimeError::Config(m))
    }
}

/// The scheme that the `isq` option names, in any letter case.
pub fn parse_isq_type(s: &str) -> (r: Result<IsqType, RuntimeError>)
    ensures
        isq_named(upper_of(s@)) is Some ==> r == Ok::<IsqType, RuntimeError>(isq_named(upper_of(s@))->0),
        isq_named(upper_of(s@)) is None ==> r is Err && r->Err_0 is Config,
{
    let upper = uppercase(s);
    parse_isq_upper(upper.as_str())
}

} // verus!
