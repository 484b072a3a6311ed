//! Sources of randomness used by the protocol.

use vstd::prelude::*;

verus! {

/// Calls `rand::random_range` on the half-open range `low..high`.
///
/// Its documentation promises a value inside the range (and a panic on an empty
/// range, which `requires` rules out); which value comes back is left to chance.
#[verifier::external_body]
pub(crate) fn random_in_range(low: u128, high: u128) -> (r: u128)
    requires
        low < high,
    ensures
        low <= r < high,
{
    rand::random_range(low..high)
}

/// Calls `rand::random::<u64>()`: any `u64` may come back.
#[verifier::external_body]
pub(crate) fn random_u64() -> (r: u64) {
    rand::random::<u64>()
}

/// Calls `rand::random::<u128>()`: any `u128` may come back.
#[verifier::external_body]
pub(crate) fn random_u128() -> (r: u128) {
    rand::random::<u128>()
}

} // verus!
