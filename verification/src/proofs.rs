//! The Fiat-Shamir style proof of knowledge for exit transactions, and the
//! nullifier-based double-spend guard.
//!
//! Generation, under a domain hash `d` derived from an application-chosen
//! domain tag:
//! 1. nullifier `= H("voile_nullifier" ‖ d ‖ note_id ‖ owner_secret)`;
//! 2. a fresh random nonce `k`, announcement `= H("voile_announcement" ‖ d ‖ k)`;
//! 3. challenge `= H("voile_challenge" ‖ d ‖ commitment ‖ nullifier ‖ announcement)`;
//! 4. response `= H("voile_response" ‖ d ‖ k ‖ challenge ‖ owner_secret)`;
//! 5. verification tag
//!    `= H("voile_verification_tag" ‖ d ‖ response ‖ challenge ‖ announcement ‖ commitment ‖ nullifier)`.
//!
//! Verification recomputes the challenge and the tag from the proof's own
//! public values; it never re-derives the response from the secret. That
//! exact hash chain is what the wire format pins down, and it is preserved
//! here as-is.

use crate::codec::{bytes32_eq, is_zero32, read_bytes32, zero32};
use crate::commitment::{commitment_of, Commitment};
use crate::error::VoileError;
use crate::exit_note::{note_bytes, ExitNote, ExitNoteView};
use crate::hashing::{keccak256, keccak256_digest};
use crate::hexcode::{hex_encode, hex_encoding};
use crate::rng::random_bytes32;
use vstd::prelude::*;
use vstd::slice::slice_subrange;

verus! {

/// The tag bytes "voile_proof_domain" that prefix the domain hash derivation.
pub open spec fn domain_label() -> Seq<u8> {
    seq![
        118u8, 111u8, 105u8, 108u8, 101u8, 95u8, 112u8, 114u8, 111u8, 111u8, 102u8, 95u8,
        100u8, 111u8, 109u8, 97u8, 105u8, 110u8,
    ]
}

/// The tag bytes "voile_nullifier".
pub open spec fn nullifier_label() -> Seq<u8> {
    seq![
        118u8, 111u8, 105u8, 108u8, 101u8, 95u8, 110u8, 117u8, 108u8, 108u8, 105u8, 102u8,
        105u8, 101u8, 114u8,
    ]
}

/// The tag bytes "voile_announcement".
pub open spec fn announcement_label() -> Seq<u8> {
    seq![
        118u8, 111u8, 105u8, 108u8, 101u8, 95u8, 97u8, 110u8, 110u8, 111u8, 117u8, 110u8,
        99u8, 101u8, 109u8, 101u8, 110u8, 116u8,
    ]
}

/// The tag bytes "voile_challenge".
pub open spec fn challenge_label() -> Seq<u8> {
    seq![
        118u8, 111u8, 105u8, 108u8, 101u8, 95u8, 99u8, 104u8, 97u8, 108u8, 108u8, 101u8,
        110u8, 103u8, 101u8,
    ]
}

/// The tag bytes "voile_response".
pub open spec fn response_label() -> Seq<u8> {
    seq![
        118u8, 111u8, 105u8, 108u8, 101u8, 95u8, 114u8, 101u8, 115u8, 112u8, 111u8, 110u8,
        115u8, 101u8,
    ]
}

/// The tag bytes "voile_verification_tag".
pub open spec fn verification_tag_label() -> Seq<u8> {
    seq![
        118u8, 111u8, 105u8, 108u8, 101u8, 95u8, 118u8, 101u8, 114u8, 105u8, 102u8, 105u8,
        99u8, 97u8, 116u8, 105u8, 111u8, 110u8, 95u8, 116u8, 97u8, 103u8,
    ]
}

/// The default domain tag, "voile_mainnet".
pub open spec fn mainnet_label() -> Seq<u8> {
    seq![118u8, 111u8, 105u8, 108u8, 101u8, 95u8, 109u8, 97u8, 105u8, 110u8, 110u8, 101u8, 116u8]
}

/// The domain hash both parties derive from the application-chosen tag:
/// `H("voile_proof_domain" ‖ domain)`.
pub open spec fn domain_hash_of(domain: Seq<u8>) -> Seq<u8> {
    keccak256(domain_label() + domain)
}

/// The nullifier for a note under a domain and owner secret — a pure
/// function of the three, which is what makes double-spends detectable.
pub open spec fn nullifier_of(domain_hash: Seq<u8>, note_id: Seq<u8>, owner_secret: Seq<u8>) -> Seq<
    u8,
> {
    keccak256(nullifier_label() + domain_hash + note_id + owner_secret)
}

/// The announcement for a prover nonce `k`.
pub open spec fn announcement_of(domain_hash: Seq<u8>, k: Seq<u8>) -> Seq<u8> {
    keccak256(announcement_label() + domain_hash + k)
}

/// The Fiat-Shamir challenge: a hash of the public transcript alone.
pub open spec fn challenge_of(
    domain_hash: Seq<u8>,
    commitment: Seq<u8>,
    nullifier: Seq<u8>,
    announcement: Seq<u8>,
) -> Seq<u8> {
    keccak256(challenge_label() + domain_hash + commitment + nullifier + announcement)
}

/// The prover's response, binding nonce, challenge and secret.
pub open spec fn response_of(
    domain_hash: Seq<u8>,
    k: Seq<u8>,
    challenge: Seq<u8>,
    owner_secret: Seq<u8>,
) -> Seq<u8> {
    keccak256(response_label() + domain_hash + k + challenge + owner_secret)
}

/// The preimage of the verification tag: the closing line of the transcript.
pub open spec fn tag_input(
    domain_hash: Seq<u8>,
    response: Seq<u8>,
    challenge: Seq<u8>,
    announcement: Seq<u8>,
    commitment: Seq<u8>,
    nullifier: Seq<u8>,
) -> Seq<u8> {
    verification_tag_label() + domain_hash + response + challenge + announcement + commitment
        + nullifier
}

/// The verification tag: the digest the verifier recomputes and compares.
pub open spec fn verification_tag_of(
    domain_hash: Seq<u8>,
    response: Seq<u8>,
    challenge: Seq<u8>,
    announcement: Seq<u8>,
    commitment: Seq<u8>,
    nullifier: Seq<u8>,
) -> Seq<u8> {
    keccak256(tag_input(domain_hash, response, challenge, announcement, commitment, nullifier))
}

/// The mathematical content of an exit proof: five 32-byte words.
pub ghost struct ExitProofView {
    pub commitment: Seq<u8>,
    pub announcement: Seq<u8>,
    pub response: Seq<u8>,
    pub verification_tag: Seq<u8>,
    pub nullifier: Seq<u8>,
}

impl ExitProofView {
    /// The field shapes every in-memory proof has.
    pub open spec fn wf(self) -> bool {
        self.commitment.len() == 32 && self.announcement.len() == 32 && self.response.len() == 32
            && self.verification_tag.len() == 32 && self.nullifier.len() == 32
    }
}

/// The 160-byte wire form of a proof:
/// `commitment ‖ announcement ‖ response ‖ verification_tag ‖ nullifier`.
pub open spec fn proof_bytes(p: ExitProofView) -> Seq<u8> {
    p.commitment + p.announcement + p.response + p.verification_tag + p.nullifier
}

/// The proof a byte string parses to; exactly 160 bytes are accepted.
pub open spec fn parse_proof(bytes: Seq<u8>) -> Option<ExitProofView> {
    if bytes.len() != 160 {
        None
    } else {
        Some(
            ExitProofView {
                commitment: bytes.subrange(0, 32),
                announcement: bytes.subrange(32, 64),
                response: bytes.subrange(64, 96),
                verification_tag: bytes.subrange(96, 128),
                nullifier: bytes.subrange(128, 160),
            },
        )
    }
}

/// What generation promises of its output: commitment and nullifier are the
/// note's and the domain's; announcement and response arose from one fresh
/// 32-byte nonce; the verification tag closes the transcript.
pub open spec fn generated_proof(
    domain_hash: Seq<u8>,
    note: ExitNoteView,
    owner_secret: Seq<u8>,
    p: ExitProofView,
) -> bool {
    &&& p.wf()
    &&& p.commitment == commitment_of(note_bytes(note), note.blinding_factor)
    &&& p.nullifier == nullifier_of(domain_hash, note.note_id, owner_secret)
    &&& exists|k: Seq<u8>|
        {
            &&& k.len() == 32
            &&& p.announcement == #[trigger] announcement_of(domain_hash, k)
            &&& p.response == response_of(
                domain_hash,
                k,
                challenge_of(domain_hash, p.commitment, p.nullifier, p.announcement),
                owner_secret,
            )
        }
    &&& p.verification_tag == verification_tag_of(
        domain_hash,
        p.response,
        challenge_of(domain_hash, p.commitment, p.nullifier, p.announcement),
        p.announcement,
        p.commitment,
        p.nullifier,
    )
}

/// The exact condition under which a verifier accepts a proof: unused
/// nullifier, no all-zero field, and the recomputed verification tag equal to
/// the one carried.
pub open spec fn accepts(v: ProofVerifierView, p: ExitProofView) -> bool {
    &&& !v.used_nullifiers.contains(p.nullifier)
    &&& p.response != zero32()
    &&& p.announcement != zero32()
    &&& p.nullifier != zero32()
    &&& p.verification_tag != zero32()
    &&& p.verification_tag == verification_tag_of(
        v.domain_hash,
        p.response,
        challenge_of(v.domain_hash, p.commitment, p.nullifier, p.announcement),
        p.announcement,
        p.commitment,
        p.nullifier,
    )
}

/// The exec bytes of `domain_label()`.
fn domain_label_bytes() -> (r: Vec<u8>)
    ensures
        r@ == domain_label(),
{
    let arr: [u8; 18] = [118, 111, 105, 108, 101, 95, 112, 114, 111, 111, 102, 95, 100, 111, 109,
        97, 105, 110];
    let mut v: Vec<u8> = Vec::new();
    v.extend_from_slice(arr.as_slice());
    proof {
        assert(v@ =~= domain_label());
    }
    v
}

/// The domain hash for an application-chosen tag.
fn domain_hash_bytes(domain: &[u8]) -> (r: [u8; 32])
    ensures
        r@ == domain_hash_of(domain@),
{
    let mut input = domain_label_bytes();
    input.extend_from_slice(domain);
    proof {
        assert(input@ =~= domain_label() + domain@);
    }
    keccak256_digest(input.as_slice())
}

/// The nullifier digest for a note identifier and owner secret.
fn nullifier_digest(
    domain_hash: &[u8; 32],
    note_id: &[u8; 32],
    owner_secret: &[u8; 32],
) -> (r: [u8; 32])
    ensures
        r@ == nullifier_of(domain_hash@, note_id@, owner_secret@),
{
    let arr: [u8; 15] = [118, 111, 105, 108, 101, 95, 110, 117, 108, 108, 105, 102, 105, 101, 114];
    let mut input: Vec<u8> = Vec::new();
    input.extend_from_slice(arr.as_slice());
    input.extend_from_slice(domain_hash.as_slice());
    input.extend_from_slice(note_id.as_slice());
    input.extend_from_slice(owner_secret.as_slice());
    proof {
        assert(input@ =~= nullifier_label() + domain_hash@ + note_id@ + owner_secret@);
    }
    keccak256_digest(input.as_slice())
}

/// The announcement digest for a prover nonce.
fn announcement_digest(domain_hash: &[u8; 32], k: &[u8; 32]) -> (r: [u8; 32])
    ensures
        r@ == announcement_of(domain_hash@, k@),
{
    let arr: [u8; 18] = [118, 111, 105, 108, 101, 95, 97, 110, 110, 111, 117, 110, 99, 101, 109,
        101, 110, 116];
    let mut input: Vec<u8> = Vec::new();
    input.extend_from_slice(arr.as_slice());
    input.extend_from_slice(domain_hash.as_slice());
    input.extend_from_slice(k.as_slice());
    proof {
        assert(input@ =~= announcement_label() + domain_hash@ + k@);
    }
    keccak256_digest(input.as_slice())
}

/// The Fiat-Shamir challenge digest, shared by generator and verifier.
fn challenge_digest(
    domain_hash: &[u8; 32],
    commitment: &[u8; 32],
    nullifier: &[u8; 32],
    announcement: &[u8; 32],
) -> (r: [u8; 32])
    ensures
        r@ == challenge_of(domain_hash@, commitment@, nullifier@, announcement@),
{
    let arr: [u8; 15] = [118, 111, 105, 108, 101, 95, 99, 104, 97, 108, 108, 101, 110, 103, 101];
    let mut input: Vec<u8> = Vec::new();
    input.extend_from_slice(arr.as_slice());
    input.extend_from_slice(domain_hash.as_slice());
    input.extend_from_slice(commitment.as_slice());
    input.extend_from_slice(nullifier.as_slice());
    input.extend_from_slice(announcement.as_slice());
    proof {
        assert(input@ =~= challenge_label() + domain_hash@ + commitment@ + nullifier@
            + announcement@);
    }
    keccak256_digest(input.as_slice())
}

/// The response digest.
fn response_digest(
    domain_hash: &[u8; 32],
    k: &[u8; 32],
    challenge: &[u8; 32],
    owner_secret: &[u8; 32],
) -> (r: [u8; 32])
    ensures
        r@ == response_of(domain_hash@, k@, challenge@, owner_secret@),
{
    let arr: [u8; 14] = [118, 111, 105, 108, 101, 95, 114, 101, 115, 112, 111, 110, 115, 101];
    let mut input: Vec<u8> = Vec::new();
    input.extend_from_slice(arr.as_slice());
    input.extend_from_slice(domain_hash.as_slice());
    input.extend_from_slice(k.as_slice());
    input.extend_from_slice(challenge.as_slice());
    input.extend_from_slice(owner_secret.as_slice());
    proof {
        assert(input@ =~= response_label() + domain_hash@ + k@ + challenge@ + owner_secret@);
    }
    keccak256_digest(input.as_slice())
}

/// The verification-tag digest, shared by generator and verifier.
fn verification_tag_digest(
    domain_hash: &[u8; 32],
    response: &[u8; 32],
    challenge: &[u8; 32],
    announcement: &[u8; 32],
    commitment: &[u8; 32],
    nullifier: &[u8; 32],
) -> (r: [u8; 32])
    ensures
        r@ == verification_tag_of(
            domain_hash@,
            response@,
            challenge@,
            announcement@,
            commitment@,
            nullifier@,
        ),
{
    let arr: [u8; 22] = [118, 111, 105, 108, 101, 95, 118, 101, 114, 105, 102, 105, 99, 97, 116,
        105, 111, 110, 95, 116, 97, 103];
    let mut input: Vec<u8> = Vec::new();
    input.extend_from_slice(arr.as_slice());
    input.extend_from_slice(domain_hash.as_slice());
    input.extend_from_slice(response.as_slice());
    input.extend_from_slice(challenge.as_slice());
    input.extend_from_slice(announcement.as_slice());
    input.extend_from_slice(commitment.as_slice());
    input.extend_from_slice(nullifier.as_slice());
    proof {
        assert(input@ =~= tag_input(domain_hash@, response@, challenge@, announcement@,
            commitment@, nullifier@));
    }
    keccak256_digest(input.as_slice())
}

/// A proof of a valid exit transaction: the only artifact ever exposed
/// publicly, 160 bytes on the wire.
#[derive(Clone, Debug)]
pub struct ExitProof {
    commitment: Commitment,
    announcement: [u8; 32],
    response: [u8; 32],
    verification_tag: [u8; 32],
    nullifier: [u8; 32],
}

impl View for ExitProof {
    type V = ExitProofView;

    closed spec fn view(&self) -> ExitProofView {
        ExitProofView {
            commitment: self.commitment@,
            announcement: self.announcement@,
            response: self.response@,
            verification_tag: self.verification_tag@,
            nullifier: self.nullifier@,
        }
    }
}

/// Every in-memory exit proof is well formed.
pub proof fn lemma_proof_wf(p: ExitProof)
    ensures
        p@.wf(),
{
    crate::commitment::lemma_commitment_len(p.commitment);
}

impl ExitProof {
    /// The commitment the proof speaks for.
    pub fn commitment(&self) -> (r: &Commitment)
        ensures
            r@ == self@.commitment,
    {
        &self.commitment
    }

    /// The nullifier, published once per spend.
    pub fn nullifier(&self) -> (r: &[u8; 32])
        ensures
            r@ == self@.nullifier,
    {
        &self.nullifier
    }

    /// The announcement.
    pub fn announcement(&self) -> (r: &[u8; 32])
        ensures
            r@ == self@.announcement,
    {
        &self.announcement
    }

    /// The verification tag.
    pub fn verification_tag(&self) -> (r: &[u8; 32])
        ensures
            r@ == self@.verification_tag,
    {
        &self.verification_tag
    }

    /// Serialize the proof to its 160-byte wire form.
    pub fn to_bytes(&self) -> (r: Vec<u8>)
        ensures
            r@ == proof_bytes(self@),
            r@.len() == 160,
    {
        let mut bytes: Vec<u8> = Vec::new();
        bytes.extend_from_slice(self.commitment.as_bytes().as_slice());
        bytes.extend_from_slice(self.announcement.as_slice());
        bytes.extend_from_slice(self.response.as_slice());
        bytes.extend_from_slice(self.verification_tag.as_slice());
        bytes.extend_from_slice(self.nullifier.as_slice());
        proof {
            crate::commitment::lemma_commitment_len(self.commitment);
            assert(bytes@ =~= proof_bytes(self@));
        }
        bytes
    }

    /// Parse a proof; exactly 160 bytes are accepted.
    pub fn from_bytes(bytes: &[u8]) -> (r: Result<Self, VoileError>)
        ensures
            r is Ok <==> parse_proof(bytes@) is Some,
            r is Ok ==> r->Ok_0@ == parse_proof(bytes@).unwrap(),
            r is Err ==> r->Err_0 is ProofVerificationFailed,
    {
        if bytes.len() != 160 {
            return Err(
                VoileError::ProofVerificationFailed("Invalid proof size: expected 160 bytes".to_owned()),
            );
        }
        let commitment = match Commitment::from_bytes(slice_subrange(bytes, 0, 32)) {
            Ok(c) => c,
            Err(_) => {
                return Err(
                    VoileError::ProofVerificationFailed("Invalid commitment bytes".to_owned()),
                );
            },
        };
        let announcement = read_bytes32(bytes, 32);
        let response = read_bytes32(bytes, 64);
        let verification_tag = read_bytes32(bytes, 96);
        let nullifier = read_bytes32(bytes, 128);
        Ok(ExitProof { commitment, announcement, response, verification_tag, nullifier })
    }

    /// The proof as 320 lowercase hex characters, for transport.
    pub fn to_hex(&self) -> (r: String)
        ensures
            r@ == hex_encoding(proof_bytes(self@)),
            r@.len() == 320,
    {
        let bytes = self.to_bytes();
        hex_encode(bytes.as_slice())
    }
}

/// Serialization round trip for the 160-byte proof form.
pub proof fn lemma_proof_roundtrip(p: ExitProofView)
    requires
        p.wf(),
    ensures
        parse_proof(proof_bytes(p)) == Some(p),
{
    let bytes = proof_bytes(p);
    assert(bytes.subrange(0, 32) =~= p.commitment);
    assert(bytes.subrange(32, 64) =~= p.announcement);
    assert(bytes.subrange(64, 96) =~= p.response);
    assert(bytes.subrange(96, 128) =~= p.verification_tag);
    assert(bytes.subrange(128, 160) =~= p.nullifier);
}

/// Generates exit proofs on the user's device. Its view is the domain hash
/// all its transcripts are prefixed with.
pub struct ProofGenerator {
    domain: [u8; 32],
}

impl View for ProofGenerator {
    type V = Seq<u8>;

    closed spec fn view(&self) -> Seq<u8> {
        self.domain@
    }
}

impl ProofGenerator {
    /// A generator for the given proof domain (for instance a chain
    /// identifier): proofs never validate under another domain.
    pub fn new(domain: &[u8]) -> (r: Self)
        ensures
            r@ == domain_hash_of(domain@),
    {
        ProofGenerator { domain: domain_hash_bytes(domain) }
    }

    /// Generate a proof for a note under the owner's secret. A fresh random
    /// nonce is drawn for each call; the output satisfies `generated_proof`
    /// whatever nonce was drawn.
    pub fn generate(&self, note: &ExitNote, owner_secret: &[u8; 32]) -> (r: Result<
        ExitProof,
        VoileError,
    >)
        ensures
            r is Ok,
            r is Ok ==> generated_proof(self@, note@, owner_secret@, r->Ok_0@),
    {
        let commitment = note.commitment();
        let nullifier = nullifier_digest(&self.domain, note.note_id(), owner_secret);
        let random_k = random_bytes32();
        let announcement = announcement_digest(&self.domain, &random_k);
        let challenge = challenge_digest(
            &self.domain,
            commitment.as_bytes(),
            &nullifier,
            &announcement,
        );
        let response = response_digest(&self.domain, &random_k, &challenge, owner_secret);
        let verification_tag = verification_tag_digest(
            &self.domain,
            &response,
            &challenge,
            &announcement,
            commitment.as_bytes(),
            &nullifier,
        );
        let exit_proof = ExitProof { commitment, announcement, response, verification_tag, nullifier };
        proof {
            lemma_proof_wf(exit_proof);
            assert(exit_proof@.announcement == announcement_of(self@, random_k@));
            assert(exit_proof@.response == response_of(
                self@,
                random_k@,
                challenge_of(self@, exit_proof@.commitment, exit_proof@.nullifier, exit_proof@.announcement),
                owner_secret@,
            ));
        }
        Ok(exit_proof)
    }
}

impl Default for ProofGenerator {
    /// A generator for the default domain, "voile_mainnet".
    fn default() -> (r: Self)
        ensures
            r@ == domain_hash_of(mainnet_label()),
    {
        let arr: [u8; 13] = [118, 111, 105, 108, 101, 95, 109, 97, 105, 110, 110, 101, 116];
        let mut tag: Vec<u8> = Vec::new();
        tag.extend_from_slice(arr.as_slice());
        proof {
            assert(tag@ =~= mainnet_label());
        }
        ProofGenerator::new(tag.as_slice())
    }
}

/// The mathematical content of a verifier: its domain hash and the set of
/// nullifiers already spent against it.
pub ghost struct ProofVerifierView {
    pub domain_hash: Seq<u8>,
    pub used_nullifiers: Set<Seq<u8>>,
}

/// Verifies exit proofs and tracks used nullifiers. The in-process set is a
/// cache; a deployment backs it with durable storage and composes `verify`
/// and `mark_nullifier_used` as one atomic check-and-set.
pub struct ProofVerifier {
    domain: [u8; 32],
    used_nullifiers: Vec<[u8; 32]>,
}

impl View for ProofVerifier {
    type V = ProofVerifierView;

    closed spec fn view(&self) -> ProofVerifierView {
        ProofVerifierView {
            domain_hash: self.domain@,
            used_nullifiers: Set::new(
                |n: Seq<u8>|
                    exists|i: int|
                        0 <= i < self.used_nullifiers@.len() && (
                        #[trigger] self.used_nullifiers@[i])@ == n,
            ),
        }
    }
}

impl ProofVerifier {
    /// A verifier for the given proof domain, with no nullifier used yet.
    pub fn new(domain: &[u8]) -> (r: Self)
        ensures
            r@.domain_hash == domain_hash_of(domain@),
            r@.used_nullifiers == Set::<Seq<u8>>::empty(),
    {
        let r = ProofVerifier { domain: domain_hash_bytes(domain), used_nullifiers: Vec::new() };
        proof {
            assert(r@.used_nullifiers =~= Set::<Seq<u8>>::empty());
        }
        r
    }

    /// Verify a proof: reject a used nullifier, any all-zero field, and any
    /// verification tag other than the one recomputed from the proof's own
    /// public values.
    pub fn verify(&self, exit_proof: &ExitProof) -> (r: Result<(), VoileError>)
        ensures
            r is Ok <==> accepts(self@, exit_proof@),
            r is Err ==> r->Err_0 is ProofVerificationFailed,
    {
        if self.is_nullifier_used(&exit_proof.nullifier) {
            return Err(VoileError::ProofVerificationFailed("Nullifier already used".to_owned()));
        }
        match self.verify_basic_structure(exit_proof) {
            Ok(()) => (),
            Err(e) => {
                return Err(e);
            },
        }
        match self.verify_proof_cryptography(exit_proof) {
            Ok(()) => (),
            Err(e) => {
                return Err(e);
            },
        }
        Ok(())
    }

    /// Reject any proof with an all-zero response, announcement, nullifier
    /// or verification tag.
    fn verify_basic_structure(&self, exit_proof: &ExitProof) -> (r: Result<(), VoileError>)
        ensures
            r is Ok <==> (exit_proof@.response != zero32() && exit_proof@.announcement != zero32()
                && exit_proof@.nullifier != zero32() && exit_proof@.verification_tag != zero32()),
            r is Err ==> r->Err_0 is ProofVerificationFailed,
    {
        if is_zero32(&exit_proof.response) {
            return Err(
                VoileError::ProofVerificationFailed("Invalid response: zero value".to_owned()),
            );
        }
        if is_zero32(&exit_proof.announcement) {
            return Err(
                VoileError::ProofVerificationFailed("Invalid announcement: zero value".to_owned()),
            );
        }
        if is_zero32(&exit_proof.nullifier) {
            return Err(
                VoileError::ProofVerificationFailed("Invalid nullifier: zero value".to_owned()),
            );
        }
        if is_zero32(&exit_proof.verification_tag) {
            return Err(
                VoileError::ProofVerificationFailed(
                    "Invalid verification tag: zero value".to_owned(),
                ),
            );
        }
        Ok(())
    }

    /// Recompute the challenge and verification tag from the proof's public
    /// values and compare the tag.
    fn verify_proof_cryptography(&self, exit_proof: &ExitProof) -> (r: Result<(), VoileError>)
        ensures
            r is Ok <==> exit_proof@.verification_tag == verification_tag_of(
                self@.domain_hash,
                exit_proof@.response,
                challenge_of(
                    self@.domain_hash,
                    exit_proof@.commitment,
                    exit_proof@.nullifier,
                    exit_proof@.announcement,
                ),
                exit_proof@.announcement,
                exit_proof@.commitment,
                exit_proof@.nullifier,
            ),
            r is Err ==> r->Err_0 is ProofVerificationFailed,
    {
        let challenge = challenge_digest(
            &self.domain,
            exit_proof.commitment.as_bytes(),
            &exit_proof.nullifier,
            &exit_proof.announcement,
        );
        let expected_tag = verification_tag_digest(
            &self.domain,
            &exit_proof.response,
            &challenge,
            &exit_proof.announcement,
            exit_proof.commitment.as_bytes(),
            &exit_proof.nullifier,
        );
        if !bytes32_eq(&exit_proof.verification_tag, &expected_tag) {
            return Err(
                VoileError::ProofVerificationFailed("Verification tag mismatch".to_owned()),
            );
        }
        Ok(())
    }

    /// Record a nullifier as spent. One-way: the used set only grows.
    pub fn mark_nullifier_used(&mut self, nullifier: [u8; 32])
        ensures
            final(self)@.domain_hash == old(self)@.domain_hash,
            final(self)@.used_nullifiers == old(self)@.used_nullifiers.insert(nullifier@),
    {
        self.used_nullifiers.push(nullifier);
        proof {
            let s_old = old(self)@.used_nullifiers;
            let s_new = self@.used_nullifiers;
            assert forall|m: Seq<u8>| s_new.contains(m) implies s_old.contains(m) || m
                == nullifier@ by {
                let i = choose|i: int|
                    0 <= i < self.used_nullifiers@.len() && (
                    #[trigger] self.used_nullifiers@[i])@ == m;
                if i < old(self).used_nullifiers@.len() {
                    assert((old(self).used_nullifiers@[i])@ == m);
                }
            }
            assert forall|m: Seq<u8>| s_old.contains(m) || m == nullifier@ implies s_new.contains(
                m,
            ) by {
                if s_old.contains(m) {
                    let i = choose|i: int|
                        0 <= i < old(self).used_nullifiers@.len() && (
                        #[trigger] old(self).used_nullifiers@[i])@ == m;
                    assert((self.used_nullifiers@[i])@ == m);
                } else {
                    assert((self.used_nullifiers@[old(self).used_nullifiers@.len() as int])@ == m);
                }
            }
            assert(s_new =~= s_old.insert(nullifier@));
        }
    }

    /// Whether a nullifier has already been spent against this verifier.
    pub fn is_nullifier_used(&self, nullifier: &[u8; 32]) -> (r: bool)
        ensures
            r == self@.used_nullifiers.contains(nullifier@),
    {
        let mut i: usize = 0;
        while i < self.used_nullifiers.len()
            invariant
                i <= self.used_nullifiers@.len(),
                forall|j: int| 0 <= j < i ==> (#[trigger] self.used_nullifiers@[j])@ != nullifier@,
            decreases self.used_nullifiers@.len() - i,
        {
            if bytes32_eq(&self.used_nullifiers[i], nullifier) {
                proof {
                    assert((self.used_nullifiers@[i as int])@ == nullifier@);
                }
                return true;
            }
            i += 1;
        }
        false
    }
}

impl Default for ProofVerifier {
    /// A verifier for the default domain, "voile_mainnet".
    fn default() -> (r: Self)
        ensures
            r@.domain_hash == domain_hash_of(mainnet_label()),
            r@.used_nullifiers == Set::<Seq<u8>>::empty(),
    {
        let arr: [u8; 13] = [118, 111, 105, 108, 101, 95, 109, 97, 105, 110, 110, 101, 116];
        let mut tag: Vec<u8> = Vec::new();
        tag.extend_from_slice(arr.as_slice());
        proof {
            assert(tag@ =~= mainnet_label());
        }
        ProofVerifier::new(tag.as_slice())
    }
}

/// An honestly generated proof is accepted by a verifier of the same domain,
/// provided its nullifier is not yet used and no hash output happened to be
/// the all-zero word.
pub proof fn lemma_generated_proof_accepted(
    v: ProofVerifierView,
    note: ExitNoteView,
    owner_secret: Seq<u8>,
    p: ExitProofView,
)
    requires
        generated_proof(v.domain_hash, note, owner_secret, p),
        !v.used_nullifiers.contains(p.nullifier),
        p.response != zero32(),
        p.announcement != zero32(),
        p.nullifier != zero32(),
        p.verification_tag != zero32(),
    ensures
        accepts(v, p),
{
}

/// Double-spend prevention: once a nullifier is in the used set, no proof
/// carrying it is accepted, whatever its other fields hold.
pub proof fn lemma_double_spend_rejected(v: ProofVerifierView, p: ExitProofView)
    requires
        v.used_nullifiers.contains(p.nullifier),
    ensures
        !accepts(v, p),
{
}

/// Domain separation: one proof accepted under two different domain hashes
/// of one length exhibits a Keccak-256 collision — the two verification-tag
/// preimages differ, yet their digests agree.
pub proof fn lemma_cross_domain_collision(
    v1: ProofVerifierView,
    v2: ProofVerifierView,
    p: ExitProofView,
)
    requires
        v1.domain_hash.len() == v2.domain_hash.len(),
        v1.domain_hash != v2.domain_hash,
        accepts(v1, p),
        accepts(v2, p),
    ensures
        tag_input(
            v1.domain_hash,
            p.response,
            challenge_of(v1.domain_hash, p.commitment, p.nullifier, p.announcement),
            p.announcement,
            p.commitment,
            p.nullifier,
        ) != tag_input(
            v2.domain_hash,
            p.response,
            challenge_of(v2.domain_hash, p.commitment, p.nullifier, p.announcement),
            p.announcement,
            p.commitment,
            p.nullifier,
        ),
        keccak256(
            tag_input(
                v1.domain_hash,
                p.response,
                challenge_of(v1.domain_hash, p.commitment, p.nullifier, p.announcement),
                p.announcement,
                p.commitment,
                p.nullifier,
            ),
        ) == keccak256(
            tag_input(
                v2.domain_hash,
                p.response,
                challenge_of(v2.domain_hash, p.commitment, p.nullifier, p.announcement),
                p.announcement,
                p.commitment,
                p.nullifier,
            ),
        ),
{
    let in1 = tag_input(
        v1.domain_hash,
        p.response,
        challenge_of(v1.domain_hash, p.commitment, p.nullifier, p.announcement),
        p.announcement,
        p.commitment,
        p.nullifier,
    );
    let in2 = tag_input(
        v2.domain_hash,
        p.response,
        challenge_of(v2.domain_hash, p.commitment, p.nullifier, p.announcement),
        p.announcement,
        p.commitment,
        p.nullifier,
    );
    let l = verification_tag_label().len() as int;
    if in1 == in2 {
        assert forall|i: int| 0 <= i < v1.domain_hash.len() implies v1.domain_hash[i]
            == v2.domain_hash[i] by {
            assert(in1[l + i] == v1.domain_hash[i]);
            assert(in2[l + i] == v2.domain_hash[i]);
        }
        assert(v1.domain_hash =~= v2.domain_hash);
    }
}

/// Tamper evidence: a proof that differs from a validly tagged transcript
/// only in its response, yet still carries the original tag, is accepted
/// only if Keccak-256 collides — the two tag preimages differ, yet their
/// digests agree.
pub proof fn lemma_tampered_response_collision(
    v: ProofVerifierView,
    p: ExitProofView,
    tampered: ExitProofView,
)
    requires
        tampered.commitment == p.commitment,
        tampered.nullifier == p.nullifier,
        tampered.announcement == p.announcement,
        tampered.verification_tag == p.verification_tag,
        tampered.response.len() == p.response.len(),
        tampered.response != p.response,
        p.verification_tag == verification_tag_of(
            v.domain_hash,
            p.response,
            challenge_of(v.domain_hash, p.commitment, p.nullifier, p.announcement),
            p.announcement,
            p.commitment,
            p.nullifier,
        ),
        accepts(v, tampered),
    ensures
        tag_input(
            v.domain_hash,
            p.response,
            challenge_of(v.domain_hash, p.commitment, p.nullifier, p.announcement),
            p.announcement,
            p.commitment,
            p.nullifier,
        ) != tag_input(
            v.domain_hash,
            tampered.response,
            challenge_of(v.domain_hash, p.commitment, p.nullifier, p.announcement),
            p.announcement,
            p.commitment,
            p.nullifier,
        ),
        keccak256(
            tag_input(
                v.domain_hash,
                p.response,
                challenge_of(v.domain_hash, p.commitment, p.nullifier, p.announcement),
                p.announcement,
                p.commitment,
                p.nullifier,
            ),
        ) == keccak256(
            tag_input(
                v.domain_hash,
                tampered.response,
                challenge_of(v.domain_hash, p.commitment, p.nullifier, p.announcement),
                p.announcement,
                p.commitment,
                p.nullifier,
            ),
        ),
{
    let chal = challenge_of(v.domain_hash, p.commitment, p.nullifier, p.announcement);
    let in_p = tag_input(v.domain_hash, p.response, chal, p.announcement, p.commitment,
        p.nullifier);
    let in_t = tag_input(v.domain_hash, tampered.response, chal, p.announcement, p.commitment,
        p.nullifier);
    let l = verification_tag_label().len() as int + v.domain_hash.len() as int;
    if in_p == in_t {
        assert forall|i: int| 0 <= i < p.response.len() implies p.response[i]
            == tampered.response[i] by {
            assert(in_p[l + i] == p.response[i]);
            assert(in_t[l + i] == tampered.response[i]);
        }
        assert(p.response =~= tampered.response);
    }
}

} // verus!
