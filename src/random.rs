//! Calls into macroquad's pseudo-random generator.
//!
//! The generator is global state seeded with `macroquad::rand::srand`, so
//! nothing is known of a draw beyond the range it falls in.

use macroquad::rand::ChooseRandom;
use vstd::prelude::*;

verus! {

/// Largest upper bound handed to `random_below`.
pub const RANDOM_BOUND: u32 = 65536;

/// Relies on macroquad::rand::gen_range (quad_rand's `gen_range` on `u32`):
/// it computes `low + (high - low) * x` with `x` in `[0, 1)` and truncates,
/// which lies in `[low, high)` for `low < high <= 65536`.
#[verifier::external_body]
pub(crate) fn random_below(low: u32, high: u32) -> (r: u32)
    requires
        low < high <= RANDOM_BOUND,
    ensures
        low <= r < high,
{
    macroquad::rand::gen_range(low, high)
}

/// Relies on quad_rand's `ChooseRandom::shuffle` on slices (re-exported by
/// macroquad::rand): a Fisher-Yates pass made of swaps, so the elements are
/// only reordered.
#[verifier::external_body]
pub(crate) fn shuffle_in_place<T>(v: &mut Vec<T>)
    ensures
        final(v)@.to_multiset() == old(v)@.to_multiset(),
{
    v.shuffle()
}

} // verus!
