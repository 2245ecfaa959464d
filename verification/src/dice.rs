//! A dice roll backed by a random number generator.

use rand::Rng;
use vstd::prelude::*;

verus! {

/// Rolls a die with the given number of sides.
///
/// Relies on rand's `Rng::gen_range` over the range `1..=sides`: it returns
/// a value inside that range, and panics only when the range is empty, which
/// `sides >= 1` rules out. The outcome is random, so nothing more than the
/// bounds can be promised.
#[verifier::external_body]
pub fn roll_dice(sides: u8) -> (r: u8)
    requires
        sides >= 1,
    ensures
        1 <= r <= sides,
{
    rand::thread_rng().gen_range(1..=sides)
}

} // verus!
