//! Draws from the process-wide random number generator.
//!
//! Nothing can be promised of a random value beyond its range, so the
//! contracts here state ranges only; every caller is verified for every
//! value the range admits.

use vstd::prelude::*;

verus! {

/// Relies on rand::random_range: a value drawn uniformly from
/// `[0, 5000)`, used to jitter cache expiry.
#[verifier::external_body]
pub(crate) fn jitter_millis() -> (j: u64)
    ensures
        j < 5000,
{
    rand::random_range(0..5000u64)
}

/// Relies on rand::random: an arbitrary 128-bit value; nothing is
/// promised of it.
#[verifier::external_body]
pub(crate) fn random_u128() -> u128 {
    rand::random()
}

/// Relies on rand::random: an arbitrary index seed; nothing is promised
/// of it.
#[verifier::external_body]
pub(crate) fn random_usize() -> usize {
    rand::random::<u64>() as usize
}

} // verus!
