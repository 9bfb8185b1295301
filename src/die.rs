//! The time-indexed die: a pure function of a seed and a time index.
use rand::{Rng, SeedableRng};
use rand_chacha::ChaCha8Rng;
use vstd::prelude::*;

verus! {

/// Number of faces of the die: every roll lies in `0..DIE_FACES`.
pub const DIE_FACES: i32 = 6;

/// The value that a ChaCha8 generator seeded with `key` draws first from
/// `0..bound`.
pub uninterp spec fn chacha8_draw(key: u64, bound: i32) -> i32;

/// Relies on `ChaCha8Rng::seed_from_u64` and `Rng::random_range`: a generator
/// seeded from a `u64` is a fixed function of that seed, and a draw from the
/// non-empty range `0..bound` lies in that range.
#[verifier::external_body]
fn draw_below(key: u64, bound: i32) -> (r: i32)
    requires
        bound > 0,
    ensures
        r == chacha8_draw(key, bound),
        0 <= r < bound,
{
    ChaCha8Rng::seed_from_u64(key).random_range(0..bound)
}

/// The generator key for time index `t`: the seed mixed with the bits of `t`.
pub open spec fn roll_key(seed: u64, t: i32) -> u64 {
    (t as u64) ^ seed
}

/// The die value at time index `t` for a die with this seed.
pub open spec fn die_value(seed: u64, t: i32) -> i32 {
    chacha8_draw(roll_key(seed, t), DIE_FACES)
}

/// A die whose value at each time index depends on its seed and that index
/// alone.
#[derive(Clone, Copy, Debug, PartialEq, Eq)]
pub struct DeterministicDie {
    pub seed: u64,
}

impl DeterministicDie {
    /// The die value at time index `t`; negative indices are as valid as
    /// positive ones.
    pub fn roll(&self, t: i32) -> (r: i32)
        ensures
            r == die_value(self.seed, t),
            0 <= r < DIE_FACES,
    {
        let key: u64 = (t as u64) ^ self.seed;
        draw_below(key, DIE_FACES)
    }
}

} // verus!
