use vstd::prelude::*;
use crate::api::ModelTask;
use crate::error::RuntimeError;
use crate::traits::ProviderCapabilities;
use crate::text::same_text;

verus! {

/// The embedding models that the local engine knows by name.
#[derive(Debug, Clone, Copy, PartialEq, Eq, Structural)]
pub enum CandleTextModel {
    /// all-MiniLM-L6-v2: 384 dimensions, the default.
    AllMiniLmL6V2,
    /// BGE-small-en-v1.5: 384 dimensions.
    BgeSmallEnV15,
    /// BGE-base-en-v1.5: 768 dimensions.
    BgeBaseEnV15,
}

impl Default for CandleTextModel {
    fn default() -> (r: CandleTextModel)
        ensures
            r == CandleTextModel::AllMiniLmL6V2,
    {
        CandleTextModel::AllMiniLmL6V2
    }
}

/// The text in lower case, as `str::to_lowercase` gives it.
pub uninterp spec fn lower_of(s: Seq<char>) -> Seq<char>;

/// Relies on `str::to_lowercase`: Unicode lower-casing, which depends on the
/// characters alone.
#[verifier::external_body]
fn lowercase(s: &str) -> (r: String)
    ensures
        r@ == lower_of(s@),
{
    s.to_lowercase()
}

/// The model that a lower-case name or repository id stands for.
pub open spec fn model_named(n: Seq<char>) -> Option<CandleTextModel> {
    if n == "all-minilm-l6-v2"@ || n == "allminilml6v2"@ || n == "default"@ || n
        == "sentence-transformers/all-minilm-l6-v2"@ {
        Some(CandleTextModel::AllMiniLmL6V2)
    } else if n == "bge-small-en-v1.5"@ || n == "bgesmallenv15"@ || n == "baai/bge-small-en-v1.5"@ {
        Some(CandleTextModel::BgeSmallEnV15)
    } else if n == "bge-base-en-v1.5"@ || n == "bgebaseenv15"@ || n == "baai/bge-base-en-v1.5"@ {
        Some(CandleTextModel::BgeBaseEnV15)
    } else {
        None
    }
}

impl CandleTextModel {
    /// The model's repository id.
    pub fn model_id(&self) -> (r: &'static str)
        ensures
            r@ == match *self {
                CandleTextModel::AllMiniLmL6V2 => "sentence-transformers/all-MiniLM-L6-v2"@,
                CandleTextModel::BgeSmallEnV15 => "BAAI/bge-small-en-v1.5"@,
                CandleTextModel::BgeBaseEnV15 => "BAAI/bge-base-en-v1.5"@,
            },
    {
        match self {
            CandleTextModel::AllMiniLmL6V2 => "sentence-transformers/all-MiniLM-L6-v2",
            CandleTextModel::BgeSmallEnV15 => "BAAI/bge-small-en-v1.5",
            CandleTextModel::BgeBaseEnV15 => "BAAI/bge-base-en-v1.5",
        }
    }

    /// The length of the model's embeddings.
    pub fn dimensions(&self) -> (r: u32)
        ensures
            r == match *self {
                CandleTextModel::BgeBaseEnV15 => 768u32,
                _ => 384u32,
            },
    {
        match self {
            CandleTextModel::AllMiniLmL6V2 | CandleTextModel::BgeSmallEnV15 => 384,
            CandleTextModel::BgeBaseEnV15 => 768,
        }
    }

    /// The model's short name.
    pub fn name(&self) -> (r: &'static str)
        ensures
            r@ == match *self {
                CandleTextModel::AllMiniLmL6V2 => "all-MiniLM-L6-v2"@,
                CandleTextModel::BgeSmallEnV15 => "bge-small-en-v1.5"@,
                CandleTextModel::BgeBaseEnV15 => "bge-base-en-v1.5"@,
            },
    {
        match self {
            CandleTextModel::AllMiniLmL6V2 => "all-MiniLM-L6-v2",
            CandleTextModel::BgeSmallEnV15 => "bge-small-en-v1.5",
            CandleTextModel::BgeBaseEnV15 => "bge-base-en-v1.5",
        }
    }

    /// The model that an already lower-cased name or repository id stands for.
    pub fn from_lowered(n: &str) -> (r: Option<CandleTextModel>)
        ensures
            r == model_named(n@),
    {
        if same_text(n, "all-minilm-l6-v2") || same_text(n, "allminilml6v2") || same_text(n, "default")
            || same_text(n, "sentence-transformers/all-minilm-l6-v2") {
            Some(CandleTextModel::AllMiniLmL6V2)
        } else if same_text(n, "bge-small-en-v1.5") || same_text(n, "bgesmallenv15") || same_text(
            n,
            "baai/bge-small-en-v1.5",
        ) {
            Some(CandleTextModel::BgeSmallEnV15)
        } else if same_text(n, "bge-base-en-v1.5") || same_text(n, "bgebaseenv15") || same_text(
            n,
            "baai/bge-base-en-v1.5",
        ) {
            Some(CandleTextModel::BgeBaseEnV15)
        } else {
            None
        }
    }

    /// The model that a name or repository id stands for, in any letter case.
    pub fn from_name(name: &str) -> (r: Option<CandleTextModel>)
        ensures
            r == model_named(lower_of(name@)),
    {
        let lowered = lowercase(name);
        CandleTextModel::from_lowered(lowered.as_str())
    }
}

/// The architectures that the local engine can run.
#[derive(Debug, Clone, Copy, PartialEq, Eq, Structural)]
pub enum ModelArchitecture {
    Bert,
    JinaBert,
    Gemma,
}

/// The architecture a model's configuration names first.
pub open spec fn architecture_named(a: Seq<char>) -> Option<ModelArchitecture> {
    if a == "BertModel"@ || a == "BertForMaskedLM"@ {
        Some(ModelArchitecture::Bert)
    } else if a == "JinaBertModel"@ || a == "JinaBertForMaskedLM"@ {
        Some(ModelArchitecture::JinaBert)
    } else if a == "GemmaModel"@ || a == "GemmaForCausalLM"@ {
        Some(ModelArchitecture::Gemma)
    } else {
        None
    }
}

impl ModelArchitecture {
    /// The architecture of a model from the `architectures` list of its
    /// configuration: the first entry decides; Bert when the list is missing or
    /// empty; an unknown name is a configuration error.
    pub fn from_config(architectures: &Option<Vec<String>>) -> (r: Result<ModelArchitecture, RuntimeError>)
        ensures
            match *architectures {
                Some(a) if a@.len() > 0 => match architecture_named(a@[0]@) {
                    Some(m) => r == Ok::<ModelArchitecture, RuntimeError>(m),
                    None => r is Err && r->Err_0 is Config && r->Err_0->Config_0@
                        == "Unsupported architecture: "@ + a@[0]@,
                },
                _ => r == Ok::<ModelArchitecture, RuntimeError>(ModelArchitecture::Bert),
            },
    {
        match architectures {
            Some(archs) => {
                if archs.len() > 0 {
                    let arch = archs[0].as_str();
                    if same_text(arch, "BertModel") || same_text(arch, "BertForMaskedLM") {
                        Ok(ModelArchitecture::Bert)
                    } else if same_text(arch, "JinaBertModel") || same_text(arch, "JinaBertForMaskedLM") {
                        Ok(ModelArchitecture::JinaBert)
                    } else if same_text(arch, "GemmaModel") || same_text(arch, "GemmaForCausalLM") {
                        Ok(ModelArchitecture::Gemma)
                    } else {
                        let mut m = String::from_str("Unsupported architecture: ");
                        m.append(arch);
                        Err(RuntimeError::Config(m))
                    }
                } else {
                    Ok(ModelArchitecture::Bert)
                }
            }
            None => Ok(ModelArchitecture::Bert),
        }
    }
}

/// The local embedding provider that runs models of `CandleTextModel`.
#[derive(Debug, Default)]
pub struct LocalCandleProvider;

impl LocalCandleProvider {
    pub fn new() -> (r: LocalCandleProvider) {
        LocalCandleProvider
    }

    /// The provider's id in alias specs.
    pub fn provider_id(&self) -> (r: &'static str)
        ensures
            r@ == "local/candle"@,
    {
        "local/candle"
    }

    /// The provider loads embedding models only.
    pub fn capabilities(&self) -> (r: ProviderCapabilities)
        ensures
            r.supported_tasks@ == seq![ModelTask::Embed],
    {
        ProviderCapabilities { supported_tasks: vec![ModelTask::Embed] }
    }
}

} // verus!
