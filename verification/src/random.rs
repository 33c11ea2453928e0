//! The source of randomness.

use rand::Rng;
use vstd::prelude::*;

verus! {

/// Draws a number from `low` up to, not including, `high` from `rand`'s
/// thread-local generator: the call is `rand::thread_rng()`, then
/// `gen_range(low..high)` on what it gave.
///
/// Trusted, not proved: the draw lies in the range it was asked for.
/// `gen_range` panics on an empty range, so `low` must be below `high`.
/// Nothing is claimed about which number of the range comes back.
#[verifier::external_body]
pub(crate) fn random_in(low: u32, high: u32) -> (drawn: u32)
    requires
        low < high,
    ensures
        low <= drawn < high,
{
    rand::thread_rng().gen_range(low..high)
}

} // verus!
