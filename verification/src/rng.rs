//! The seeded random stream that drives reproduction. The generator itself is
//! an outside type; the kernel only ever asks it for a uniform integer in a
//! range and reasons about every value that could come back.

use vstd::prelude::*;
use rand::Rng;
use rand::SeedableRng;

verus! {

/// The outside pseudo-random generator type, declared so a value of it can be
/// carried through the kernel.
#[verifier::external_type_specification]
#[verifier::external_body]
pub struct ExStdRng(rand::rngs::StdRng);

/// The simulation's seeded random stream.
pub struct GameRng(pub rand::rngs::StdRng);

impl GameRng {
    /// Relies on rand's `StdRng::seed_from_u64`: builds a generator
    /// deterministically from the seed.
    #[verifier::external_body]
    pub fn new(seed: u64) -> GameRng {
        GameRng(rand::rngs::StdRng::seed_from_u64(seed))
    }

    /// Draws an integer uniformly from `[lo, hi)`. Relies on rand's
    /// `Rng::random_range`, which returns a value of the given range and
    /// panics only on an empty one, which the precondition rules out.
    #[verifier::external_body]
    pub(crate) fn range_u64(&mut self, lo: u64, hi: u64) -> (r: u64)
        requires
            lo < hi,
        ensures
            lo <= r < hi,
    {
        self.0.random_range(lo..hi)
    }
}

} // verus!
