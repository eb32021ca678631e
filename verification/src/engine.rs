//! The generation loop's state machine.
//!
//! One engine value drives one generation call. The host owns the model
//! and performs the expensive outside work — evaluating a batch, sampling
//! from the resulting distribution, turning a token into bytes — and hands
//! each sampled token to [`Engine::step`], which makes every decision:
//! whether generation is over, what text to forward to the sink, what the
//! next batch holds, and whether another evaluation may be issued. The
//! engine is not reentrant: a terminal phase is final, and a new call
//! needs a fresh engine with a fresh evaluation context.

use vstd::prelude::*;
use crate::batch::Batch;
use crate::batch::BatchEntry;
use crate::batch::prepare_initial_batch;
use crate::batch::prefill_entries;
use crate::config::GenerationConfig;
use crate::decoder::Utf8Decoder;
use crate::decoder::is_valid_utf8;
use crate::decoder::utf8_decode;
use crate::error::GenerationError;
use crate::stats::GenerationStats;
use crate::validate::validate_context_size;
use crate::validate::kv_slots_required;

verus! {

/// Where one generation call stands. `Decoding` is the only phase from
/// which the engine still accepts a token; the other three are terminal.
#[derive(Clone, Copy, PartialEq, Eq, Structural, Debug)]
pub enum Phase {
    /// Mid-call: the last submitted batch's logits await sampling.
    Decoding,
    /// The model produced an end-of-generation token; it was not emitted.
    Completed,
    /// The running position reached `max_length`; no further evaluation.
    LengthExhausted,
    /// The host asked to stop; the batch and decoder state were abandoned
    /// without emitting a partial fragment.
    Cancelled,
}

/// What one step asks of the host.
pub struct StepResult {
    /// Well-formed text bytes to forward to the sink, in order; empty when
    /// nothing completed a character this step or generation stopped.
    pub fragment: Vec<u8>,
    /// When true, the refilled batch must be evaluated before the next
    /// step; when false the call is over and the batch must not be
    /// submitted.
    pub evaluate: bool,
}

/// The per-call generation state: position and token counters, the
/// terminal/running phase, the incremental decoder, and the reusable
/// batch.
pub struct Engine {
    max_length: i32,
    n_prompt: usize,
    n_cur: i32,
    n_decode: u32,
    phase: Phase,
    decoder: Utf8Decoder,
    batch: Batch,
}

impl Engine {
    /// The call's length bound over prompt plus generated tokens.
    pub closed spec fn spec_max_length(&self) -> int {
        self.max_length as int
    }

    /// How many tokens the prompt held.
    pub closed spec fn spec_n_prompt(&self) -> int {
        self.n_prompt as int
    }

    /// The next absolute position to be filled.
    pub closed spec fn spec_n_cur(&self) -> int {
        self.n_cur as int
    }

    /// How many tokens were decoded so far.
    pub closed spec fn spec_n_decode(&self) -> int {
        self.n_decode as int
    }

    /// The current phase.
    pub closed spec fn spec_phase(&self) -> Phase {
        self.phase
    }

    /// The decoder's buffered incomplete tail.
    pub closed spec fn spec_pending(&self) -> Seq<u8> {
        self.decoder@
    }

    /// The entries the batch currently holds.
    pub closed spec fn spec_batch(&self) -> Seq<BatchEntry> {
        self.batch@
    }

    /// The fixed capacity of the reusable batch.
    pub closed spec fn spec_batch_capacity(&self) -> int {
        self.batch.spec_capacity()
    }

    /// The engine's invariant, established by [`Engine::start`] and kept
    /// by every step: the prompt fits strictly inside the length bound,
    /// the position counter runs from prompt length to at most
    /// `max_length`, every decoded token moved it by one, and while still
    /// decoding there is room for at least one more position.
    pub open spec fn wf(&self) -> bool {
        &&& 1 <= self.spec_max_length()
        &&& 1 <= self.spec_n_prompt() < self.spec_max_length()
        &&& self.spec_n_prompt() <= self.spec_n_cur() <= self.spec_max_length()
        &&& self.spec_n_decode() == self.spec_n_cur() - self.spec_n_prompt()
        &&& (self.spec_phase() == Phase::Decoding ==> self.spec_n_cur()
            < self.spec_max_length())
        &&& (self.spec_pending().len() == 0 || crate::decoder::is_partial_seq(
            self.spec_pending(),
        ))
        &&& self.spec_batch().len() <= self.spec_batch_capacity()
        &&& 1 <= self.spec_batch_capacity()
    }

    /// Validates capacity and builds the prefill batch; no model
    /// evaluation happens before both checks pass.
    ///
    /// On success the engine is in `Decoding` with the prefill batch
    /// ready: the host must evaluate it once, then sample from its last
    /// slot and call [`Engine::step`]. The call is refused with
    /// `CapacityExceeded` when `max_length` overruns the context window
    /// `n_ctx`, with `PromptTooLong` when the prompt leaves no room to
    /// generate, and with `EvaluationFailure` when the prompt does not fit
    /// one batch of the configured size.
    pub fn start(config: &GenerationConfig, n_ctx: u32, tokens: &Vec<i32>) -> (r: Result<
        Engine,
        GenerationError,
    >)
        requires
            config.wf(),
            tokens@.len() >= 1,
        ensures
            r is Ok <==> (kv_slots_required(config.max_length as int) <= n_ctx as int
                && (tokens@.len() as int) < config.max_length as int && tokens@.len() as int
                <= config.batch_size as int),
            r == Err::<Engine, GenerationError>(GenerationError::CapacityExceeded)
                <==> kv_slots_required(config.max_length as int) > n_ctx as int,
            r == Err::<Engine, GenerationError>(GenerationError::PromptTooLong)
                <==> (kv_slots_required(config.max_length as int) <= n_ctx as int
                && tokens@.len() as int >= config.max_length as int),
            r == Err::<Engine, GenerationError>(GenerationError::EvaluationFailure)
                <==> (kv_slots_required(config.max_length as int) <= n_ctx as int
                && (tokens@.len() as int) < config.max_length as int && tokens@.len() as int
                > config.batch_size as int),
            r matches Ok(e) ==> {
                &&& e.wf()
                &&& e.spec_phase() == Phase::Decoding
                &&& e.spec_max_length() == config.max_length as int
                &&& e.spec_n_prompt() == tokens@.len() as int
                &&& e.spec_n_cur() == tokens@.len() as int
                &&& e.spec_n_decode() == 0
                &&& e.spec_pending() =~= Seq::<u8>::empty()
                &&& e.spec_batch() =~= prefill_entries(tokens@)
            },
    {
        match validate_context_size(tokens.len(), config.max_length, n_ctx) {
            Err(e) => {
                return Err(e);
            },
            Ok(()) => {},
        }
        let mut batch = Batch::new(config.batch_size);
        match prepare_initial_batch(&mut batch, tokens) {
            Err(e) => {
                return Err(e);
            },
            Ok(()) => {},
        }
        let n_prompt = tokens.len();
        Ok(
            Engine {
                max_length: config.max_length,
                n_prompt,
                n_cur: n_prompt as i32,
                n_decode: 0,
                phase: Phase::Decoding,
                decoder: Utf8Decoder::new(),
                batch,
            },
        )
    }

    /// Takes the one token the host sampled from the last evaluation and
    /// decides what happens next, in this order: a cancellation request
    /// stops the call without touching the sink; an end-of-generation
    /// token completes the call before its bytes could ever be emitted;
    /// otherwise the token's bytes run through the incremental decoder,
    /// the batch is cleared and refilled with this one token at the
    /// current position (logits requested), the position advances, and
    /// evaluation is requested exactly while the position is still below
    /// `max_length`.
    pub fn step(&mut self, token_id: i32, is_eog: bool, token_bytes: &Vec<u8>, cancelled: bool) -> (r:
        StepResult)
        requires
            old(self).wf(),
            old(self).spec_phase() == Phase::Decoding,
        ensures
            final(self).wf(),
            final(self).spec_max_length() == old(self).spec_max_length(),
            final(self).spec_n_prompt() == old(self).spec_n_prompt(),
            final(self).spec_batch_capacity() == old(self).spec_batch_capacity(),
            cancelled ==> {
                &&& final(self).spec_phase() == Phase::Cancelled
                &&& final(self).spec_n_cur() == old(self).spec_n_cur()
                &&& final(self).spec_n_decode() == old(self).spec_n_decode()
                &&& final(self).spec_pending() =~= old(self).spec_pending()
                &&& final(self).spec_batch() =~= old(self).spec_batch()
                &&& r.fragment@ =~= Seq::<u8>::empty()
                &&& !r.evaluate
            },
            !cancelled && is_eog ==> {
                &&& final(self).spec_phase() == Phase::Completed
                &&& final(self).spec_n_cur() == old(self).spec_n_cur()
                &&& final(self).spec_n_decode() == old(self).spec_n_decode()
                &&& final(self).spec_pending() =~= old(self).spec_pending()
                &&& final(self).spec_batch() =~= old(self).spec_batch()
                &&& r.fragment@ =~= Seq::<u8>::empty()
                &&& !r.evaluate
            },
            !cancelled && !is_eog ==> {
                &&& final(self).spec_n_cur() == old(self).spec_n_cur() + 1
                &&& final(self).spec_n_decode() == old(self).spec_n_decode() + 1
                &&& r.fragment@ =~= utf8_decode(
                    old(self).spec_pending() + token_bytes@,
                ).emitted
                &&& final(self).spec_pending() =~= utf8_decode(
                    old(self).spec_pending() + token_bytes@,
                ).pending
                &&& is_valid_utf8(r.fragment@)
                &&& final(self).spec_batch() =~= seq![
                    (BatchEntry {
                        token_id,
                        pos: old(self).spec_n_cur() as i32,
                        seq_id: 0,
                        logits: true,
                    }),
                ]
                &&& final(self).spec_phase() == (if old(self).spec_n_cur() + 1 < old(
                    self,
                ).spec_max_length() {
                    Phase::Decoding
                } else {
                    Phase::LengthExhausted
                })
                &&& r.evaluate == (old(self).spec_n_cur() + 1 < old(self).spec_max_length())
            },
    {
        if cancelled {
            self.phase = Phase::Cancelled;
            return StepResult { fragment: Vec::new(), evaluate: false };
        }
        if is_eog {
            self.phase = Phase::Completed;
            return StepResult { fragment: Vec::new(), evaluate: false };
        }
        let fragment = self.decoder.push(token_bytes);
        self.batch.clear();
        match self.batch.add(token_id, self.n_cur, true) {
            Ok(()) => {},
            Err(_) => {
                proof {
                    assert(false);
                }
            },
        }
        self.n_cur = self.n_cur + 1;
        self.n_decode = self.n_decode + 1;
        if self.n_cur < self.max_length {
            StepResult { fragment, evaluate: true }
        } else {
            self.phase = Phase::LengthExhausted;
            StepResult { fragment, evaluate: false }
        }
    }

    /// The current phase, for the host's loop condition.
    pub fn phase(&self) -> (p: Phase)
        ensures
            p == self.spec_phase(),
    {
        self.phase
    }

    /// How many tokens were decoded so far.
    pub fn tokens_decoded(&self) -> (n: u32)
        ensures
            n as int == self.spec_n_decode(),
    {
        self.n_decode
    }

    /// The next absolute position to be filled.
    pub fn position(&self) -> (p: i32)
        ensures
            p as int == self.spec_n_cur(),
    {
        self.n_cur
    }

    /// The batch the host must evaluate next.
    pub fn batch(&self) -> (b: &Batch)
        ensures
            b@ =~= self.spec_batch(),
    {
        &self.batch
    }

    /// The call's statistics over the measured decode-phase time.
    pub fn stats(&self, elapsed_micros: u64) -> (s: GenerationStats)
        ensures
            s.tokens_decoded as int == self.spec_n_decode(),
            s.elapsed_micros == elapsed_micros,
    {
        GenerationStats { tokens_decoded: self.n_decode, elapsed_micros }
    }
}

/// The loop never outruns its budget: however the call ends, the number
/// of decoded tokens stays within `max_length` minus the prompt, and no
/// position at or past `max_length` is ever filled — so no more than
/// `max_length` positions are ever evaluated.
pub proof fn lemma_decode_budget(e: Engine)
    requires
        e.wf(),
    ensures
        e.spec_n_decode() <= e.spec_max_length() - e.spec_n_prompt(),
        e.spec_n_cur() <= e.spec_max_length(),
{
}

} // verus!
