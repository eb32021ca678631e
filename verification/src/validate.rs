//! Context-capacity validation, run before any model evaluation.

use vstd::prelude::*;
use crate::error::GenerationError;

verus! {

/// The KV cache slots one call may need in the worst case: the prompt plus
/// everything generated up to the length bound, which is the length bound
/// itself.
pub open spec fn kv_slots_required(n_len: int) -> int {
    n_len
}

/// Decides whether a generation call may start, before any (expensive)
/// model evaluation is issued.
///
/// `n_prompt` is the tokenized prompt's length, `n_len` the configured
/// `max_length`, and `n_ctx` the model's context-window capacity in tokens.
/// The worst-case sequence, `n_len` tokens, must fit the KV cache, and the
/// prompt must leave room to generate at least one token.
pub fn validate_context_size(n_prompt: usize, n_len: i32, n_ctx: u32) -> (r: Result<
    (),
    GenerationError,
>)
    ensures
        r == Err::<(), GenerationError>(GenerationError::CapacityExceeded) <==> kv_slots_required(
            n_len as int,
        ) > n_ctx as int,
        r == Err::<(), GenerationError>(GenerationError::PromptTooLong) <==> (kv_slots_required(
            n_len as int,
        ) <= n_ctx as int && n_prompt as int >= n_len as int),
        r is Ok <==> (kv_slots_required(n_len as int) <= n_ctx as int && (n_prompt as int)
            < n_len as int),
{
    let n_kv_req = n_len;
    if (n_kv_req as i64) > (n_ctx as i64) {
        return Err(GenerationError::CapacityExceeded);
    }
    if n_len <= 0 || n_prompt >= n_len as usize {
        return Err(GenerationError::PromptTooLong);
    }
    Ok(())
}

/// Validation fails with `PromptTooLong` exactly when the prompt leaves no
/// room to generate, and with `CapacityExceeded` exactly when the length
/// bound overruns the context window — regardless of prompt content.
///
/// When both conditions hold at once the capacity check wins, so the
/// `PromptTooLong` equivalence is stated for length bounds that fit the
/// context window.
pub proof fn lemma_validation_outcome(n_prompt: usize, n_len: i32, n_ctx: u32, r: Result<
    (),
    GenerationError,
>)
    requires
        r == Err::<(), GenerationError>(GenerationError::CapacityExceeded) <==> kv_slots_required(
            n_len as int,
        ) > n_ctx as int,
        r == Err::<(), GenerationError>(GenerationError::PromptTooLong) <==> (kv_slots_required(
            n_len as int,
        ) <= n_ctx as int && n_prompt as int >= n_len as int),
        r is Ok <==> (kv_slots_required(n_len as int) <= n_ctx as int && (n_prompt as int)
            < n_len as int),
    ensures
        n_len as int > n_ctx as int <==> r == Err::<(), GenerationError>(
            GenerationError::CapacityExceeded,
        ),
        n_len as int <= n_ctx as int ==> (n_prompt as int >= n_len as int <==> r == Err::<(), GenerationError>(
            GenerationError::PromptTooLong,
        )),
        n_len as int <= n_ctx as int && (n_prompt as int) < n_len as int ==> r is Ok,
{
}

} // verus!
