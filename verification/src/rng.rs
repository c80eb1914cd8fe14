//! Deterministic random numbers for the annealer.
//!
//! The sampler draws from `rand`'s standard generator, seeded from a caller
//! supplied 64-bit seed.  For a fixed seed the whole stream is a
//! deterministic function of the draws made so far, so the generator state
//! is tracked as an abstract ghost value: seeding gives [`seeded_of`] the
//! seed, and each draw returns a value and a successor state named by an
//! uninterpreted function of the current state.  Contracts built on these
//! names pin the sampler's output to a function of its inputs alone.

use vstd::prelude::*;
use rand::Rng;
use rand::SeedableRng;
use rand::rngs::StdRng;

verus! {

#[verifier::external_type_specification]
#[verifier::external_body]
pub struct ExStdRng(StdRng);

/// The index a generator in state `state` draws uniformly from `0..n`,
/// paired with the successor state.
pub uninterp spec fn pick_of(state: int, n: usize) -> (usize, int);

/// The 32-bit word a generator in state `state` draws, paired with the
/// successor state.
pub uninterp spec fn word_of(state: int) -> (u32, int);

/// A seeded random source together with its abstract state.  Seeding from
/// `seed` puts the source in abstract state `seed as int`; each draw moves
/// it to the successor state its name pairs with the drawn value.
pub(crate) struct RandomSource {
    pub(crate) inner: StdRng,
    pub(crate) state: Ghost<int>,
}

/// Relies on `rand::SeedableRng::seed_from_u64`: a generator whose stream is
/// a deterministic function of `seed`.
#[verifier::external_body]
fn seed_generator(seed: u64) -> StdRng {
    StdRng::seed_from_u64(seed)
}

impl RandomSource {
    /// The abstract state of the generator.
    pub(crate) open spec fn state(&self) -> int {
        self.state@
    }

    /// Builds the deterministically seeded source for `seed`.
    pub(crate) fn from_seed(seed: u64) -> (r: RandomSource)
        ensures
            r.state() == seed as int,
    {
        RandomSource { inner: seed_generator(seed), state: Ghost(seed as int) }
    }

    /// Relies on `rand::Rng::gen_range`: an index below `n`, drawn uniformly
    /// and deterministically from the generator state; the call panics on an
    /// empty range, so `n > 0` is required here.
    #[verifier::external_body]
    pub(crate) fn pick(&mut self, n: usize) -> (r: usize)
        requires
            n > 0,
        ensures
            r == pick_of(old(self).state(), n).0,
            r < n,
            final(self).state() == pick_of(old(self).state(), n).1,
    {
        self.inner.gen_range(0..n)
    }

    /// Relies on `rand::Rng::gen`: the generator's next 32-bit word, a
    /// deterministic function of the generator state.
    #[verifier::external_body]
    pub(crate) fn word(&mut self) -> (r: u32)
        ensures
            r == word_of(old(self).state()).0,
            final(self).state() == word_of(old(self).state()).1,
    {
        self.inner.gen::<u32>()
    }
}

} // verus!
