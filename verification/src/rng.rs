//! Deterministic pseudo-random source for reward placement.
//!
//! The engine only needs a draw that lands in `[0, max)`; nothing else is
//! promised about the sequence of values, so callers must work for every
//! outcome.  A seeded xorshift generator keeps reward placement reproducible
//! in tests while serving as the injected random capability the engine
//! requires.

use vstd::prelude::*;

verus! {

/// A 64-bit xorshift pseudo-random generator.
pub struct XorShiftRng {
    state: u64,
}

impl XorShiftRng {
    /// A generator seeded from `seed`; a zero seed is replaced by a fixed
    /// non-zero constant, since the all-zero state is a fixed point of the
    /// xorshift permutation.
    pub fn new(seed: u64) -> XorShiftRng {
        if seed == 0 {
            XorShiftRng { state: 0x9e3779b97f4a7c15 }
        } else {
            XorShiftRng { state: seed }
        }
    }

    /// The next raw 64-bit value of the sequence.
    fn next_u64(&mut self) -> u64 {
        let mut x: u64 = self.state;
        x = x ^ (x << 13);
        x = x ^ (x >> 7);
        x = x ^ (x << 17);
        self.state = x;
        x
    }

    /// A draw in `[0, max)`.
    pub fn below(&mut self, max: usize) -> (r: usize)
        requires
            max > 0,
        ensures
            r < max,
    {
        let x = self.next_u64();
        let r = x % (max as u64);
        assert(r < max as u64);
        assert(r <= usize::MAX as u64);
        r as usize
    }
}

} // verus!
