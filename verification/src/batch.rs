//! The reusable, fixed-capacity evaluation batch.

use vstd::prelude::*;
use crate::error::GenerationError;

verus! {

/// One slot of an evaluation batch: a token placed at an absolute position
/// of sequence `seq_id`, with `logits` set when the model must compute the
/// next-token distribution at this slot.
#[derive(Clone, Copy, PartialEq, Eq, Structural)]
pub struct BatchEntry {
    pub token_id: i32,
    pub pos: i32,
    pub seq_id: i32,
    pub logits: bool,
}

/// A bounded container of entries submitted to the model in one evaluation
/// step. It is cleared and refilled across decode steps rather than
/// reallocated: its capacity is fixed for the call's duration, and a longer
/// fill is rejected before submission.
pub struct Batch {
    entries: Vec<BatchEntry>,
    capacity: usize,
}

impl Batch {
    /// The entries currently in the batch, oldest first.
    pub closed spec fn view(&self) -> Seq<BatchEntry> {
        self.entries@
    }

    /// The fixed capacity the batch was created with.
    pub closed spec fn spec_capacity(&self) -> int {
        self.capacity as int
    }

    /// The batch never holds more entries than its capacity.
    pub open spec fn wf(&self) -> bool {
        self@.len() <= self.spec_capacity()
    }

    /// Creates an empty batch of the given fixed capacity.
    pub fn new(capacity: usize) -> (b: Self)
        ensures
            b@ =~= Seq::<BatchEntry>::empty(),
            b.spec_capacity() == capacity as int,
            b.wf(),
    {
        Batch { entries: Vec::new(), capacity }
    }

    /// The fixed capacity the batch was created with.
    pub fn capacity(&self) -> (c: usize)
        ensures
            c == self.spec_capacity(),
    {
        self.capacity
    }

    /// How many entries the batch holds.
    pub fn n_tokens(&self) -> (n: usize)
        ensures
            n == self@.len(),
    {
        self.entries.len()
    }

    /// Reads the entry at `i`.
    pub fn entry(&self, i: usize) -> (e: BatchEntry)
        requires
            i < self@.len(),
        ensures
            e == self@[i as int],
    {
        self.entries[i]
    }

    /// Empties the batch; the capacity stays.
    pub fn clear(&mut self)
        ensures
            final(self)@ =~= Seq::<BatchEntry>::empty(),
            final(self).spec_capacity() == old(self).spec_capacity(),
            final(self).wf(),
    {
        self.entries.clear();
    }

    /// Appends one entry on sequence id 0, rejecting a fill beyond the
    /// fixed capacity before it could ever reach the model.
    pub fn add(&mut self, token_id: i32, pos: i32, logits: bool) -> (r: Result<
        (),
        GenerationError,
    >)
        requires
            old(self).wf(),
        ensures
            final(self).spec_capacity() == old(self).spec_capacity(),
            final(self).wf(),
            r is Ok <==> old(self)@.len() < old(self).spec_capacity(),
            r is Ok ==> final(self)@ =~= old(self)@.push(
                BatchEntry { token_id, pos, seq_id: 0, logits },
            ),
            r is Err ==> final(self)@ =~= old(self)@ && r == Err::<(), GenerationError>(
                GenerationError::EvaluationFailure,
            ),
    {
        if self.entries.len() >= self.capacity {
            return Err(GenerationError::EvaluationFailure);
        }
        self.entries.push(BatchEntry { token_id, pos, seq_id: 0, logits });
        Ok(())
    }
}

/// What the initial (prefill) batch must hold for a prompt: every prompt
/// token at its absolute position on sequence 0, with logits requested only
/// at the last slot — only the next-token distribution after the full
/// prompt is needed.
pub open spec fn prefill_entries(tokens: Seq<i32>) -> Seq<BatchEntry> {
    Seq::new(
        tokens.len(),
        |i: int|
            BatchEntry {
                token_id: tokens[i],
                pos: i as i32,
                seq_id: 0,
                logits: i == tokens.len() - 1,
            },
    )
}

/// Fills `batch` with the prefill entries for `tokens`.
///
/// The prompt is never empty (tokenization always prepends a
/// beginning-of-sequence marker) and must fit the batch's capacity; a
/// violated fill is rejected before submission.
pub fn prepare_initial_batch(batch: &mut Batch, tokens: &Vec<i32>) -> (r: Result<
    (),
    GenerationError,
>)
    requires
        old(batch).wf(),
        old(batch)@.len() == 0,
        tokens@.len() >= 1,
        tokens@.len() <= i32::MAX,
    ensures
        final(batch).wf(),
        final(batch).spec_capacity() == old(batch).spec_capacity(),
        r is Ok <==> tokens@.len() <= old(batch).spec_capacity(),
        r is Ok ==> final(batch)@ =~= prefill_entries(tokens@),
        r is Err ==> final(batch)@ =~= old(batch)@ && r == Err::<(), GenerationError>(
            GenerationError::EvaluationFailure,
        ),
{
    let n = tokens.len();
    if n > batch.capacity() {
        return Err(GenerationError::EvaluationFailure);
    }
    let mut i: usize = 0;
    while i < n
        invariant
            n == tokens@.len(),
            1 <= n <= i32::MAX,
            i <= n,
            batch.wf(),
            batch.spec_capacity() == old(batch).spec_capacity(),
            n <= batch.spec_capacity(),
            batch@ =~= prefill_entries(tokens@).take(i as int),
        decreases n - i,
    {
        let is_last = i == n - 1;
        let added = batch.add(tokens[i], i as i32, is_last);
        proof {
            assert(added is Ok);
            assert(batch@ =~= prefill_entries(tokens@).take(i as int).push(
                prefill_entries(tokens@)[i as int],
            ));
            assert(prefill_entries(tokens@).take(i as int).push(
                prefill_entries(tokens@)[i as int],
            ) =~= prefill_entries(tokens@).take(i as int + 1));
        }
        i = i + 1;
    }
    proof {
        assert(prefill_entries(tokens@).take(n as int) =~= prefill_entries(tokens@));
    }
    Ok(())
}

} // verus!
