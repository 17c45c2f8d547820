//! Random numbers, from the thread-local generator of the `rand` crate.

use rand::Rng;
use vstd::prelude::*;

verus! {

/// Calls `rand::rng()` for the thread-local generator and
/// `Rng::random_range` on it with the half-open range `low..high`.
///
/// Not verified. The contract claims what the documentation of
/// `random_range` says: the value lies in the range that was given. The
/// call panics on an empty range, which `requires` leaves out, and
/// `rand::rng()` panics if the operating system cannot seed the generator.
#[verifier::external_body]
pub(crate) fn random_in_range(low: u8, high: u8) -> (value: u8)
    requires
        low < high,
    ensures
        low <= value < high,
{
    rand::rng().random_range(low..high)
}

} // verus!
