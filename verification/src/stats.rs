//! Throughput statistics over the decode phase.

use vstd::prelude::*;

verus! {

/// What one generation call measured: how many tokens were decoded, and
/// the wall-clock time the decode phase took. Derived at the end of a
/// call, never stored.
#[derive(Clone, Copy, PartialEq, Eq, Structural)]
pub struct GenerationStats {
    pub tokens_decoded: u32,
    pub elapsed_micros: u64,
}

impl GenerationStats {
    /// Throughput in thousandths of a token per second, rounded down.
    pub fn throughput_milli(&self) -> (r: u64)
        requires
            self.elapsed_micros >= 1,
        ensures
            r as int == self.tokens_decoded as int * 1_000_000_000 / self.elapsed_micros as int,
    {
        let scaled: u128 = (self.tokens_decoded as u128) * 1_000_000_000;
        let q: u128 = scaled / (self.elapsed_micros as u128);
        proof {
            assert(scaled <= 0xFFFF_FFFFu128 * 1_000_000_000);
            assert(q <= scaled) by (nonlinear_arith)
                requires
                    self.elapsed_micros >= 1,
                    q == scaled / (self.elapsed_micros as u128),
                    scaled >= 0,
            ;
            assert(q <= u64::MAX);
        }
        q as u64
    }
}

} // verus!
