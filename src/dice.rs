//! The source of randomness for the dissolve effect.
use vstd::prelude::*;

use rand::rngs::StdRng;
use rand::Rng;
use rand::SeedableRng;

verus! {

#[verifier::external_type_specification]
#[verifier::external_body]
pub struct ExStdRng(StdRng);

/// A seedable random number generator. The same seed gives the same dissolve pattern.
pub struct Dice {
    rng: StdRng,
}

impl Dice {
    /// A generator seeded with `seed`.
    pub fn seeded(seed: u64) -> (r: Dice) {
        Dice::from_seed(seed)
    }

    /// Relies on `rand::SeedableRng::seed_from_u64` for `StdRng`: builds a generator from a seed.
    #[verifier::external_body]
    fn from_seed(seed: u64) -> (r: Dice) {
        Dice { rng: StdRng::seed_from_u64(seed) }
    }

    /// Relies on `rand::Rng::gen_range` over `0..n`: a value below `n`; it panics only on an
    /// empty range, which `requires` leaves out.
    #[verifier::external_body]
    pub(crate) fn below(&mut self, n: u64) -> (r: u64)
        requires
            n > 0,
        ensures
            r < n,
    {
        self.rng.gen_range(0..n)
    }

    /// Relies on `rand::Rng::gen::<bool>`: a fair coin.
    #[verifier::external_body]
    pub(crate) fn coin(&mut self) -> (r: bool) {
        self.rng.gen::<bool>()
    }
}

} // verus!
