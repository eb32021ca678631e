//! Configuration records for one generation call and for model loading.

use vstd::prelude::*;

verus! {

/// Immutable parameters of one generation call.
///
/// `max_length` bounds the total sequence length, prompt tokens included,
/// not the generated-token count alone. `batch_size` is the fixed capacity
/// of the reusable evaluation batch.
pub struct GenerationConfig {
    pub max_length: i32,
    pub batch_size: usize,
}

impl GenerationConfig {
    /// A configuration is usable when both bounds are positive.
    pub open spec fn wf(self) -> bool {
        self.max_length >= 1 && self.batch_size >= 1
    }
}

impl Default for GenerationConfig {
    fn default() -> (c: Self)
        ensures
            c.max_length == 4096 * 2,
            c.batch_size == 512,
            c.wf(),
    {
        Self { max_length: 4096 * 2, batch_size: 512 }
    }
}

/// Parameters handed to the model-loading collaborator: which weights to
/// fetch, how many layers to offload, and the context-window capacity
/// (`context_size`, the KV cache's size in tokens) the loaded model is
/// configured with.
pub struct ModelConfig {
    pub n_gpu_layers: i32,
    pub context_size: u32,
    pub model_repo: String,
    pub model_file: String,
}

impl Default for ModelConfig {
    fn default() -> (c: Self)
        ensures
            c.n_gpu_layers == 1000,
            c.context_size == 2048,
    {
        Self {
            n_gpu_layers: 1000,
            context_size: 2048,
            model_repo: "lmstudio-community/zeta-GGUF".to_string(),
            model_file: "zeta-Q8_0.gguf".to_string(),
        }
    }
}

} // verus!
