//! A 32-byte binding and hiding commitment: the only trace of an exit note
//! that is ever published.

use crate::codec::{bytes32_eq, read_bytes32};
use crate::error::VoileError;
use crate::hashing::{keccak256, keccak256_digest};
use crate::hexcode::{hex_decode, hex_decoding, hex_encode, hex_encoding, is_hex_string};
use vstd::prelude::*;

verus! {

/// What committing to `value` under `blinding` yields: the Keccak-256 digest
/// of the value followed by the blinding factor.
pub open spec fn commitment_of(value: Seq<u8>, blinding: Seq<u8>) -> Seq<u8> {
    keccak256(value + blinding)
}

/// Whether commitment bytes `c` open to `value` under `blinding`.
pub open spec fn commitment_opens(c: Seq<u8>, value: Seq<u8>, blinding: Seq<u8>) -> bool {
    c == commitment_of(value, blinding)
}

/// A cryptographic commitment to a value: `H(value ‖ blinding_factor)`,
/// immutable once built. Its view is the 32 bytes of the hash.
#[derive(Clone, PartialEq, Eq, Debug)]
pub struct Commitment {
    hash: [u8; 32],
}

impl View for Commitment {
    type V = Seq<u8>;

    closed spec fn view(&self) -> Seq<u8> {
        self.hash@
    }
}

impl Commitment {
    /// Commit to `value` under the given blinding factor.
    pub fn new(value: &[u8], blinding_factor: &[u8; 32]) -> (r: Self)
        ensures
            r@ == commitment_of(value@, blinding_factor@),
            r@.len() == 32,
    {
        let mut input: Vec<u8> = Vec::new();
        input.extend_from_slice(value);
        input.extend_from_slice(blinding_factor.as_slice());
        proof {
            assert(input@ =~= value@ + blinding_factor@);
        }
        let hash = keccak256_digest(input.as_slice());
        Commitment { hash }
    }

    /// Whether this commitment opens to `value` under `blinding_factor`:
    /// recomputes the hash and compares.
    pub fn verify(&self, value: &[u8], blinding_factor: &[u8; 32]) -> (r: bool)
        ensures
            r == commitment_opens(self@, value@, blinding_factor@),
    {
        let computed = Self::new(value, blinding_factor);
        bytes32_eq(&self.hash, &computed.hash)
    }

    /// The commitment hash.
    pub fn as_bytes(&self) -> (r: &[u8; 32])
        ensures
            r@ == self@,
    {
        &self.hash
    }

    /// Rebuild a commitment from its 32 raw bytes; any other length is
    /// rejected.
    pub fn from_bytes(bytes: &[u8]) -> (r: Result<Self, VoileError>)
        ensures
            r is Ok <==> bytes@.len() == 32,
            r is Ok ==> r->Ok_0@ == bytes@,
            r is Err ==> r->Err_0 is InvalidCommitment,
    {
        if bytes.len() != 32 {
            return Err(VoileError::InvalidCommitment("Expected 32 bytes".to_owned()));
        }
        let hash = read_bytes32(bytes, 0);
        proof {
            assert(hash@ =~= bytes@);
        }
        Ok(Commitment { hash })
    }

    /// The commitment as 64 lowercase hex characters.
    pub fn to_hex(&self) -> (r: String)
        ensures
            r@ == hex_encoding(self@),
            r@.len() == 64,
    {
        hex_encode(self.hash.as_slice())
    }

    /// Parse a commitment from hex; accepts exactly the well-formed hex
    /// strings of 64 digits.
    pub fn from_hex(s: &str) -> (r: Result<Self, VoileError>)
        ensures
            r is Ok <==> is_hex_string(s@) && s@.len() == 64,
            r is Ok ==> r->Ok_0@ == hex_decoding(s@),
            r is Err ==> r->Err_0 is InvalidCommitment,
    {
        match hex_decode(s) {
            Some(bytes) => Self::from_bytes(bytes.as_slice()),
            None => Err(VoileError::InvalidCommitment("Invalid hex".to_owned())),
        }
    }
}

/// Every in-memory commitment holds exactly 32 bytes.
pub proof fn lemma_commitment_len(c: Commitment)
    ensures
        c@.len() == 32,
{
}

/// A commitment always opens to the value and blinding factor it was built
/// from.
pub proof fn lemma_commitment_verifies(value: Seq<u8>, blinding: Seq<u8>)
    ensures
        commitment_opens(commitment_of(value, blinding), value, blinding),
{
}

/// Binding: if a commitment to `value` under `blinding` also opens under a
/// different blinding factor of the same length, two distinct hash inputs
/// carry one Keccak-256 digest.
pub proof fn lemma_commitment_binding(value: Seq<u8>, blinding: Seq<u8>, blinding2: Seq<u8>)
    requires
        blinding.len() == blinding2.len(),
        blinding != blinding2,
        commitment_opens(commitment_of(value, blinding), value, blinding2),
    ensures
        value + blinding != value + blinding2,
        keccak256(value + blinding) == keccak256(value + blinding2),
{
    if value + blinding == value + blinding2 {
        assert forall|i: int| 0 <= i < blinding.len() implies blinding[i] == blinding2[i] by {
            assert((value + blinding)[value.len() + i] == blinding[i]);
            assert((value + blinding2)[value.len() + i] == blinding2[i]);
        }
        assert(blinding =~= blinding2);
    }
}

} // verus!
