//! Fresh randomness and the wall clock: the only non-deterministic inputs of
//! the protocol. Nothing is promised of the values drawn here; every function
//! that consumes them states what holds whatever came back.

use rand::Rng;
use vstd::prelude::*;

verus! {

/// Relies on rand::thread_rng / Rng::fill: 32 bytes from a cryptographically
/// secure generator. No two calls are related; nothing is promised of the value.
#[verifier::external_body]
pub(crate) fn random_bytes32() -> [u8; 32] {
    let mut bytes = [0u8; 32];
    rand::thread_rng().fill(&mut bytes);
    bytes
}

/// Relies on rand::thread_rng / Rng::gen: a uniformly drawn 64-bit value.
/// Nothing is promised of the value.
#[verifier::external_body]
pub(crate) fn random_u64() -> u64 {
    rand::thread_rng().gen()
}

/// Relies on std::time::SystemTime::now: whole seconds since the Unix epoch,
/// or 0 for a clock reading before the epoch. Nothing is promised of the value.
#[verifier::external_body]
pub(crate) fn unix_time_seconds() -> u64 {
    std::time::SystemTime::now()
        .duration_since(std::time::UNIX_EPOCH)
        .map(|d| d.as_secs())
        .unwrap_or(0)
}

} // verus!
