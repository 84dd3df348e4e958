//! Reproducible random draws: a ChaCha8 generator seeded from the scenario's seed,
//! together with the record of the ranges it has been asked for.
use rand::RngExt;
use rand::SeedableRng;
use rand_chacha::ChaCha8Rng;
use vstd::prelude::*;

verus! {

#[verifier::external_type_specification]
#[verifier::external_body]
pub struct ExChaCha8Rng(ChaCha8Rng);

/// The value `random_range(low..=high)` returns for the last request of
/// `requests`, on a `ChaCha8Rng` made by `seed_from_u64(seed)` that has already
/// served the earlier requests, in order.
pub uninterp spec fn chacha8_draw(seed: u64, requests: Seq<(u64, u64)>) -> u64;

/// A seeded generator and the inclusive ranges it has served so far.
pub struct SeededRng {
    rng: ChaCha8Rng,
    seed: Ghost<u64>,
    history: Ghost<Seq<(u64, u64)>>,
}

impl SeededRng {
    pub closed spec fn seed(&self) -> u64 {
        self.seed@
    }

    pub closed spec fn history(&self) -> Seq<(u64, u64)> {
        self.history@
    }

    /// `rand_chacha::ChaCha8Rng::seed_from_u64`. Claimed: a fresh generator for
    /// `seed` that has served nothing yet.
    #[verifier::external_body]
    pub(crate) fn seeded(seed: u64) -> (r: SeededRng)
        ensures
            r.seed() == seed,
            r.history() == Seq::<(u64, u64)>::empty(),
    {
        SeededRng {
            rng: ChaCha8Rng::seed_from_u64(seed),
            seed: Ghost(seed),
            history: Ghost(Seq::empty()),
        }
    }

    /// `rand::RngExt::random_range(low..=high)` (it panics on an empty range,
    /// hence `low <= high`). Claimed: the value lies in the range and is the one a
    /// generator seeded the same way returns after serving the same earlier
    /// requests, named `chacha8_draw`.
    #[verifier::external_body]
    pub(crate) fn draw(&mut self, low: u64, high: u64) -> (r: u64)
        requires
            low <= high,
        ensures
            low <= r <= high,
            final(self).seed() == old(self).seed(),
            final(self).history() == old(self).history().push((low, high)),
            r == chacha8_draw(old(self).seed(), old(self).history().push((low, high))),
    {
        let r = self.rng.random_range(low..=high);
        self.history = Ghost(self.history@.push((low, high)));
        r
    }
}

/// The draws a generator seeded by `seed` gives for `requests`, in order.
pub open spec fn seeded_draws(seed: u64, requests: Seq<(u64, u64)>) -> Seq<u64> {
    Seq::new(requests.len(), |k: int| chacha8_draw(seed, requests.take(k + 1)))
}

} // verus!
