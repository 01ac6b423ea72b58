//! The random generator behind tree placement.
use vstd::prelude::*;
use rand::rngs::StdRng;
use rand::RngExt;
use rand::SeedableRng;

verus! {

#[verifier::external_type_specification]
#[verifier::external_body]
pub struct ExStdRng(rand::rngs::StdRng);

/// `StdRng::seed_from_u64`: a generator whose stream is fixed by `seed`,
/// packed with a record that names `seed` as the seed it was made from and
/// lists no draws yet. The contract states only that record, which the body
/// writes from the same `seed` it passes to the call; nothing is stated of
/// the generator's state, which no spec here can describe.
#[verifier::external_body]
pub(crate) fn seed_rng(seed: u64) -> (r: TreeRng)
    ensures
        r.seed() == seed,
        r.draws() == Seq::<(u32, u32, bool)>::empty(),
{
    TreeRng { inner: StdRng::seed_from_u64(seed), seed: Ghost(seed), draws: Ghost(Seq::empty()) }
}

/// `RngExt::random_ratio`: `true` with a chance of `numerator` in
/// `denominator`. Its source returns `true` without drawing when the two are
/// equal and compares a draw with 0 when `numerator` is 0, so those two cases
/// are stated; it panics when `numerator > denominator` or `denominator == 0`,
/// which `requires` leaves out. Other outcomes are left open.
#[verifier::external_body]
pub(crate) fn random_ratio(rng: &mut StdRng, numerator: u32, denominator: u32) -> (b: bool)
    requires
        0 < denominator,
        numerator <= denominator,
    ensures
        numerator == 0 ==> !b,
        numerator == denominator ==> b,
{
    rng.random_ratio(numerator, denominator)
}

/// A generator together with a record of what it was seeded with and of
/// every chance asked of it, in order, with the answer.
pub struct TreeRng {
    inner: StdRng,
    seed: Ghost<u64>,
    draws: Ghost<Seq<(u32, u32, bool)>>,
}

impl TreeRng {
    /// The seed the generator was made from.
    pub closed spec fn seed(&self) -> u64 {
        self.seed@
    }

    /// Each draw so far: numerator, denominator and outcome.
    pub closed spec fn draws(&self) -> Seq<(u32, u32, bool)> {
        self.draws@
    }

    /// A generator seeded with `seed`, with no draws yet.
    pub fn seeded(seed: u64) -> (r: TreeRng)
        ensures
            r.seed() == seed,
            r.draws() == Seq::<(u32, u32, bool)>::empty(),
    {
        seed_rng(seed)
    }

    /// `true` with a chance of `numerator` in `denominator`; the draw is
    /// recorded.
    pub fn chance(&mut self, numerator: u32, denominator: u32) -> (b: bool)
        requires
            0 < denominator,
            numerator <= denominator,
        ensures
            numerator == 0 ==> !b,
            numerator == denominator ==> b,
            final(self).seed() == old(self).seed(),
            final(self).draws() == old(self).draws().push((numerator, denominator, b)),
    {
        let b = random_ratio(&mut self.inner, numerator, denominator);
        self.draws = Ghost(self.draws@.push((numerator, denominator, b)));
        b
    }
}

} // verus!
