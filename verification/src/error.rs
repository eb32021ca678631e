//! Error kinds of a generation call.

use vstd::prelude::*;

verus! {

/// Why a generation call failed. Every error aborts the whole call; there
/// is no partial-success return value, though fragments emitted before the
/// failure stay emitted.
#[derive(Clone, Copy, PartialEq, Eq, Structural, Debug)]
pub enum GenerationError {
    /// The requested total length does not fit the KV cache: reduce the
    /// configured maximum length or load the model with a larger context.
    CapacityExceeded,
    /// The prompt alone consumes the entire length budget, leaving no room
    /// to generate even one token: reduce the prompt or raise the maximum
    /// length.
    PromptTooLong,
    /// The prompt could not be converted to tokens.
    TokenizationError,
    /// The model backend failed to evaluate a batch; the evaluation context
    /// must be discarded, never reused.
    EvaluationFailure,
    /// The caller's sink rejected a fragment; no further tokens are emitted.
    SinkError,
}

impl GenerationError {
    /// A short, actionable description of the failure.
    pub fn describe(&self) -> String {
        match self {
            GenerationError::CapacityExceeded => {
                "the required kv cache size is not big enough: either reduce max_length or increase the context size".to_string()
            },
            GenerationError::PromptTooLong => {
                "the prompt is too long, it has more tokens than max_length".to_string()
            },
            GenerationError::TokenizationError => {
                "failed to tokenize the prompt".to_string()
            },
            GenerationError::EvaluationFailure => {
                "the model backend failed to evaluate a batch".to_string()
            },
            GenerationError::SinkError => {
                "the output sink rejected a fragment".to_string()
            },
        }
    }
}

} // verus!
