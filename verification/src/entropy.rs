//! Sources of randomness for the taker strategy.

use vstd::prelude::*;

use crate::types::FIXED_ONE;

verus! {

/// Relies on `rand::random::<bool>`: the standard distribution on `bool` is a
/// fair coin. Nothing can be promised of a random value, so the contract is
/// empty; whatever comes back, the caller decides from it.
#[verifier::external_body]
pub fn flip_coin() -> bool {
    rand::random::<bool>()
}

/// Relies on `rand::random_range`: a uniform draw from the given range. The
/// range `1..=FIXED_ONE` is never empty, so the call does not panic. The
/// result stands for a size multiplier in the open-closed unit interval at
/// [`FIXED_ONE`] resolution; only its bounds hold of every outcome.
#[verifier::external_body]
pub fn draw_unit_fraction() -> (r: u64)
    ensures
        1 <= r <= FIXED_ONE,
{
    rand::random_range(1..=FIXED_ONE)
}

} // verus!
