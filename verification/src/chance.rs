//! The one source of chance: a uniform draw from a range of integers.

use rand::Rng;
use vstd::prelude::*;

verus! {

/// Draws an integer with `rand::thread_rng().gen_range(low..high)`.
///
/// Not proved: that the value lies in `low..high`, which is what
/// `Rng::gen_range` documents for a half-open range. Nothing else is claimed
/// of the value: two draws from one range may differ. `gen_range` panics on
/// an empty range, which the precondition excludes; `thread_rng` panics if
/// the operating system has no seed to give, whatever the range.
#[verifier::external_body]
pub(crate) fn random_between(low: i64, high: i64) -> (value: i64)
    requires
        low < high,
    ensures
        low <= value < high,
{
    rand::thread_rng().gen_range(low..high)
}

} // verus!
