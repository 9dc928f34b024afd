//! Keccak-256, the hash every derived quantity of the protocol rests on.

use sha3::Digest;
use vstd::prelude::*;

verus! {

/// The 32-byte Keccak-256 digest of a byte sequence. The digest is named, not
/// defined: every fact the library states about hashes goes through this name,
/// and nothing is assumed of it beyond what the wrapper below returns.
pub uninterp spec fn keccak256(data: Seq<u8>) -> Seq<u8>;

/// Relies on sha3::Keccak256 (via the digest crate's `Digest` trait): the
/// 32-byte digest is a function of the input bytes alone.
#[verifier::external_body]
pub(crate) fn keccak256_digest(data: &[u8]) -> (r: [u8; 32])
    ensures
        r@ == keccak256(data@),
{
    let mut out = [0u8; 32];
    out.copy_from_slice(&sha3::Keccak256::digest(data));
    out
}

} // verus!
