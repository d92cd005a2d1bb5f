//! Random choices of the scan, drawn from the thread-local generator of
//! the `rand` crate.

use vstd::prelude::*;
use rand::Rng;

verus! {

/// `rand::thread_rng().gen::<u64>()`: a random 64-bit value. Nothing is
/// stated of it.
#[verifier::external_body]
pub(crate) fn random_u64() -> u64 {
    rand::thread_rng().gen::<u64>()
}

/// `rand::thread_rng().gen::<u16>()`: a random 16-bit value. Nothing is
/// stated of it.
#[verifier::external_body]
pub(crate) fn random_u16() -> u16 {
    rand::thread_rng().gen::<u16>()
}

/// `rand::thread_rng().gen_range(lo..hi)`: a random value of the
/// half-open range, which must not be empty (it panics on an empty one).
#[verifier::external_body]
pub(crate) fn random_in_range(lo: u16, hi: u16) -> (r: u16)
    requires
        lo < hi,
    ensures
        lo <= r < hi,
{
    rand::thread_rng().gen_range(lo..hi)
}

} // verus!
