use vstd::prelude::*;
use crate::api::ModelTask;

verus! {

/// The tasks that a provider can load models for.
#[derive(Debug)]
pub struct ProviderCapabilities {
    pub supported_tasks: Vec<ModelTask>,
}

/// The reported health of a provider.
#[derive(Debug)]
pub enum ProviderHealth {
    Healthy,
    Degraded(String),
    Unhealthy(String),
}

/// Token counts of a generation.
#[derive(Debug, Clone, Copy, PartialEq, Eq, Structural)]
pub struct TokenUsage {
    pub prompt_tokens: usize,
    pub completion_tokens: usize,
    pub total_tokens: usize,
}

/// The text a generator produced, with its token counts when known.
#[derive(Debug)]
pub struct GenerationResult {
    pub text: String,
    pub usage: Option<TokenUsage>,
}

impl ProviderCapabilities {
    /// Whether `task` is among the supported tasks.
    pub fn supports(&self, task: ModelTask) -> (r: bool)
        ensures
            r == self.supported_tasks@.contains(task),
    {
        let mut i: usize = 0;
        while i < self.supported_tasks.len()
            invariant
                i <= self.supported_tasks@.len(),
                forall|p: int| 0 <= p < i ==> self.supported_tasks@[p] != task,
            decreases self.supported_tasks@.len() - i,
        {
            if self.supported_tasks[i] == task {
                return true;
            }
            i = i + 1;
        }
        false
    }
}

} // verus!
