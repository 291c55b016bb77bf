//! Trusted access to the process-wide pseudo-random source. Nothing beyond
//! range membership is ever assumed of an outcome: callers state what holds
//! whatever comes back.

use vstd::prelude::*;

verus! {

/// Relies on rand::random_ratio(1, 2): a fair coin flip. The arguments are in
/// range (1 <= 2), so the call cannot panic; nothing is promised of the
/// outcome.
#[verifier::external_body]
pub(crate) fn random_coin() -> bool {
    rand::random_ratio(1, 2)
}

/// Relies on rand::random_range over `lo..=hi`: a value drawn from the
/// inclusive range. The range must be non-empty, as the call panics on an
/// empty one; only membership in the range is promised.
#[verifier::external_body]
pub(crate) fn random_byte_between(lo: u8, hi: u8) -> (r: u8)
    requires
        lo <= hi,
    ensures
        lo <= r <= hi,
{
    rand::random_range(lo..=hi)
}

/// Relies on rand::random::<u32>: a uniformly drawn 32-bit value. Nothing is
/// promised of the outcome.
#[verifier::external_body]
pub(crate) fn random_u32() -> u32 {
    rand::random::<u32>()
}

} // verus!
