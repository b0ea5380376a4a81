use vstd::prelude::*;
use crate::api::ModelTask;
use crate::traits::ProviderCapabilities;

verus! {

/// The local embedding provider backed by ONNX models.
#[derive(Debug, Default)]
pub struct LocalFastEmbedProvider;

impl LocalFastEmbedProvider {
    pub fn new() -> (r: LocalFastEmbedProvider) {
        LocalFastEmbedProvider
    }

    /// The provider's id in alias specs.
    pub fn provider_id(&self) -> (r: &'static str)
        ensures
            r@ == "local/fastembed"@,
    {
        "local/fastembed"
    }

    /// The provider loads embedding models only.
    pub fn capabilities(&self) -> (r: ProviderCapabilities)
        ensures
            r.supported_tasks@ == seq![ModelTask::Embed],
    {
        ProviderCapabilities { supported_tasks: vec![ModelTask::Embed] }
    }
}

} // verus!
