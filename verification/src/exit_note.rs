//! The private exit note — the user's pending unstake and its terms — and its
//! fixed binary encoding: a 114-byte header followed by a variable terms tail.

use crate::codec::read_bytes32;
use crate::commitment::{commitment_of, Commitment};
use crate::encryption::{xor_stream, EncryptedNote, EncryptionKey};
use crate::error::VoileError;
use crate::hashing::keccak256;
use crate::rng::{random_bytes32, unix_time_seconds};
use vstd::bytes::{
    lemma_auto_spec_u16_to_from_le_bytes, lemma_auto_spec_u64_to_from_le_bytes,
    spec_u16_from_le_bytes, spec_u16_to_le_bytes, spec_u64_from_le_bytes, spec_u64_to_le_bytes,
    u16_from_le_bytes, u16_to_le_bytes, u64_from_le_bytes, u64_to_le_bytes,
};
use vstd::prelude::*;
use vstd::slice::slice_subrange;

verus! {

/// The terms of an exit request: a closed set of four shapes.
#[derive(Clone, Debug, PartialEq, Eq)]
pub enum ExitTerms {
    /// Immediate exit, possibly at a penalty.
    Immediate,
    /// Standard exit over the normal unstaking period.
    Standard,
    /// Delayed exit for better rates.
    Delayed { blocks: u64 },
    /// Custom terms with explicit bounds.
    Custom { min_rate_bps: u16, max_slippage_bps: u16 },
}

/// The wire form of exit terms: a tag byte, then the variant's payload in
/// little-endian.
pub open spec fn terms_bytes(t: ExitTerms) -> Seq<u8> {
    match t {
        ExitTerms::Immediate => seq![0u8],
        ExitTerms::Standard => seq![1u8],
        ExitTerms::Delayed { blocks } => seq![2u8] + spec_u64_to_le_bytes(blocks),
        ExitTerms::Custom { min_rate_bps, max_slippage_bps } => seq![3u8]
            + spec_u16_to_le_bytes(min_rate_bps) + spec_u16_to_le_bytes(max_slippage_bps),
    }
}

/// The terms a byte string decodes to: an unknown tag or a payload shorter
/// than its variant demands is rejected; trailing bytes are ignored.
pub open spec fn parse_terms(bytes: Seq<u8>) -> Option<ExitTerms> {
    if bytes.len() == 0 {
        None
    } else if bytes[0] == 0 {
        Some(ExitTerms::Immediate)
    } else if bytes[0] == 1 {
        Some(ExitTerms::Standard)
    } else if bytes[0] == 2 {
        if bytes.len() < 9 {
            None
        } else {
            Some(ExitTerms::Delayed { blocks: spec_u64_from_le_bytes(bytes.subrange(1, 9)) })
        }
    } else if bytes[0] == 3 {
        if bytes.len() < 5 {
            None
        } else {
            Some(
                ExitTerms::Custom {
                    min_rate_bps: spec_u16_from_le_bytes(bytes.subrange(1, 3)),
                    max_slippage_bps: spec_u16_from_le_bytes(bytes.subrange(3, 5)),
                },
            )
        }
    } else {
        None
    }
}

impl ExitTerms {
    /// Serialize the terms.
    pub fn to_bytes(&self) -> (r: Vec<u8>)
        ensures
            r@ == terms_bytes(*self),
    {
        let mut bytes: Vec<u8> = Vec::new();
        match self {
            ExitTerms::Immediate => {
                bytes.push(0);
            },
            ExitTerms::Standard => {
                bytes.push(1);
            },
            ExitTerms::Delayed { blocks } => {
                bytes.push(2);
                let payload = u64_to_le_bytes(*blocks);
                bytes.extend_from_slice(payload.as_slice());
            },
            ExitTerms::Custom { min_rate_bps, max_slippage_bps } => {
                bytes.push(3);
                let rate = u16_to_le_bytes(*min_rate_bps);
                bytes.extend_from_slice(rate.as_slice());
                let slippage = u16_to_le_bytes(*max_slippage_bps);
                bytes.extend_from_slice(slippage.as_slice());
            },
        }
        proof {
            assert(bytes@ =~= terms_bytes(*self));
        }
        bytes
    }

    /// Parse terms from bytes, rejecting an empty buffer, an unknown tag, or
    /// a truncated payload.
    pub fn from_bytes(bytes: &[u8]) -> (r: Result<Self, VoileError>)
        ensures
            r is Ok <==> parse_terms(bytes@) is Some,
            r is Ok ==> r->Ok_0 == parse_terms(bytes@).unwrap(),
            r is Err ==> r->Err_0 is InvalidExitNote,
    {
        if bytes.len() == 0 {
            return Err(VoileError::InvalidExitNote("Empty terms data".to_owned()));
        }
        if bytes[0] == 0 {
            Ok(ExitTerms::Immediate)
        } else if bytes[0] == 1 {
            Ok(ExitTerms::Standard)
        } else if bytes[0] == 2 {
            if bytes.len() < 9 {
                return Err(VoileError::InvalidExitNote("Delayed terms missing blocks".to_owned()));
            }
            let blocks = u64_from_le_bytes(slice_subrange(bytes, 1, 9));
            Ok(ExitTerms::Delayed { blocks })
        } else if bytes[0] == 3 {
            if bytes.len() < 5 {
                return Err(
                    VoileError::InvalidExitNote("Custom terms missing parameters".to_owned()),
                );
            }
            let min_rate_bps = u16_from_le_bytes(slice_subrange(bytes, 1, 3));
            let max_slippage_bps = u16_from_le_bytes(slice_subrange(bytes, 3, 5));
            Ok(ExitTerms::Custom { min_rate_bps, max_slippage_bps })
        } else {
            Err(VoileError::InvalidExitNote("Unknown terms type".to_owned()))
        }
    }
}

/// The terms tail is always between 1 and 9 bytes, so its length fits the
/// 16-bit length field of the note header.
pub proof fn lemma_terms_bytes_len(t: ExitTerms)
    ensures
        1 <= terms_bytes(t).len() <= 9,
{
    lemma_auto_spec_u64_to_from_le_bytes();
    lemma_auto_spec_u16_to_from_le_bytes();
}

/// Parsing inverts serialization for every shape of terms.
pub proof fn lemma_terms_roundtrip(t: ExitTerms)
    ensures
        parse_terms(terms_bytes(t)) == Some(t),
{
    lemma_auto_spec_u64_to_from_le_bytes();
    lemma_auto_spec_u16_to_from_le_bytes();
    let bytes = terms_bytes(t);
    match t {
        ExitTerms::Immediate => {
            assert(bytes[0] == 0);
        },
        ExitTerms::Standard => {
            assert(bytes[0] == 1);
        },
        ExitTerms::Delayed { blocks } => {
            assert(bytes[0] == 2);
            assert(bytes.subrange(1, 9) =~= spec_u64_to_le_bytes(blocks));
        },
        ExitTerms::Custom { min_rate_bps, max_slippage_bps } => {
            assert(bytes[0] == 3);
            assert(bytes.subrange(1, 3) =~= spec_u16_to_le_bytes(min_rate_bps));
            assert(bytes.subrange(3, 5) =~= spec_u16_to_le_bytes(max_slippage_bps));
        },
    }
}

/// The mathematical content of an exit note.
pub ghost struct ExitNoteView {
    pub note_id: Seq<u8>,
    pub amount: u64,
    pub owner: Seq<u8>,
    pub terms: ExitTerms,
    pub created_at: u64,
    pub blinding_factor: Seq<u8>,
}

impl ExitNoteView {
    /// The field shapes every in-memory note has: three 32-byte words.
    pub open spec fn wf(self) -> bool {
        self.note_id.len() == 32 && self.owner.len() == 32 && self.blinding_factor.len() == 32
    }
}

/// The wire form of an exit note: the 114-byte header
/// `note_id ‖ amount_LE64 ‖ owner ‖ created_at_LE64 ‖ blinding_factor ‖
/// terms_len_LE16`, then the terms tail.
pub open spec fn note_bytes(v: ExitNoteView) -> Seq<u8> {
    v.note_id + spec_u64_to_le_bytes(v.amount) + v.owner + spec_u64_to_le_bytes(v.created_at)
        + v.blinding_factor + spec_u16_to_le_bytes(terms_bytes(v.terms).len() as u16)
        + terms_bytes(v.terms)
}

/// The exit note a byte string parses to: rejected if shorter than the
/// header, if the declared terms length overruns the buffer, or if the terms
/// tail fails its own decode. Bytes past the declared tail are ignored.
pub open spec fn parse_note(bytes: Seq<u8>) -> Option<ExitNoteView> {
    if bytes.len() < 114 {
        None
    } else {
        let terms_len = spec_u16_from_le_bytes(bytes.subrange(112, 114)) as int;
        if bytes.len() < 114 + terms_len {
            None
        } else {
            match parse_terms(bytes.subrange(114, 114 + terms_len)) {
                Some(terms) => Some(
                    ExitNoteView {
                        note_id: bytes.subrange(0, 32),
                        amount: spec_u64_from_le_bytes(bytes.subrange(32, 40)),
                        owner: bytes.subrange(40, 72),
                        terms,
                        created_at: spec_u64_from_le_bytes(bytes.subrange(72, 80)),
                        blinding_factor: bytes.subrange(80, 112),
                    },
                ),
                None => None,
            }
        }
    }
}

/// A private exit note: created on the user's device, encrypted at rest, and
/// represented on-chain only by its commitment.
#[derive(Clone, Debug)]
pub struct ExitNote {
    note_id: [u8; 32],
    amount: u64,
    owner: [u8; 32],
    terms: ExitTerms,
    created_at: u64,
    blinding_factor: [u8; 32],
}

impl View for ExitNote {
    type V = ExitNoteView;

    closed spec fn view(&self) -> ExitNoteView {
        ExitNoteView {
            note_id: self.note_id@,
            amount: self.amount,
            owner: self.owner@,
            terms: self.terms,
            created_at: self.created_at,
            blinding_factor: self.blinding_factor@,
        }
    }
}

/// Every in-memory exit note is well formed.
pub proof fn lemma_note_wf(n: ExitNote)
    ensures
        n@.wf(),
{
}

impl ExitNote {
    /// Build a note for `amount` under `owner` with the given terms, drawing
    /// a fresh random identifier and blinding factor and stamping the current
    /// time. Nothing is promised of the random or clock-derived fields.
    pub fn new(amount: u64, owner: [u8; 32], terms: ExitTerms) -> (r: Self)
        ensures
            r@.amount == amount,
            r@.owner == owner@,
            r@.terms == terms,
            r@.wf(),
    {
        let note_id = random_bytes32();
        let blinding_factor = random_bytes32();
        let created_at = unix_time_seconds();
        ExitNote { note_id, amount, owner, terms, created_at, blinding_factor }
    }

    /// The note identifier.
    pub fn note_id(&self) -> (r: &[u8; 32])
        ensures
            r@ == self@.note_id,
    {
        &self.note_id
    }

    /// The unstake amount in base units.
    pub fn amount(&self) -> (r: u64)
        ensures
            r == self@.amount,
    {
        self.amount
    }

    /// The owner's 32-byte identifier.
    pub fn owner(&self) -> (r: &[u8; 32])
        ensures
            r@ == self@.owner,
    {
        &self.owner
    }

    /// The exit terms.
    pub fn terms(&self) -> (r: &ExitTerms)
        ensures
            *r == self@.terms,
    {
        &self.terms
    }

    /// The creation timestamp, in seconds since the Unix epoch.
    pub fn created_at(&self) -> (r: u64)
        ensures
            r == self@.created_at,
    {
        self.created_at
    }

    /// Serialize the note: fixed header, then the terms tail.
    pub fn to_bytes(&self) -> (r: Vec<u8>)
        ensures
            r@ == note_bytes(self@),
    {
        proof {
            lemma_terms_bytes_len(self@.terms);
        }
        let terms_vec = self.terms.to_bytes();
        let mut bytes: Vec<u8> = Vec::new();
        bytes.extend_from_slice(self.note_id.as_slice());
        let amount_bytes = u64_to_le_bytes(self.amount);
        bytes.extend_from_slice(amount_bytes.as_slice());
        bytes.extend_from_slice(self.owner.as_slice());
        let created_bytes = u64_to_le_bytes(self.created_at);
        bytes.extend_from_slice(created_bytes.as_slice());
        bytes.extend_from_slice(self.blinding_factor.as_slice());
        let len_bytes = u16_to_le_bytes(terms_vec.len() as u16);
        bytes.extend_from_slice(len_bytes.as_slice());
        bytes.extend_from_slice(terms_vec.as_slice());
        proof {
            assert(bytes@ =~= note_bytes(self@));
        }
        bytes
    }

    /// Parse a note, rejecting a buffer shorter than the header, a declared
    /// terms length past the end, or a malformed terms tail.
    pub fn from_bytes(bytes: &[u8]) -> (r: Result<Self, VoileError>)
        ensures
            r is Ok <==> parse_note(bytes@) is Some,
            r is Ok ==> r->Ok_0@ == parse_note(bytes@).unwrap(),
            r is Err ==> r->Err_0 is InvalidExitNote,
    {
        if bytes.len() < 114 {
            return Err(VoileError::InvalidExitNote("Exit note too short".to_owned()));
        }
        let note_id = read_bytes32(bytes, 0);
        let amount = u64_from_le_bytes(slice_subrange(bytes, 32, 40));
        let owner = read_bytes32(bytes, 40);
        let created_at = u64_from_le_bytes(slice_subrange(bytes, 72, 80));
        let blinding_factor = read_bytes32(bytes, 80);
        let terms_len = u16_from_le_bytes(slice_subrange(bytes, 112, 114)) as usize;
        if bytes.len() - 114 < terms_len {
            return Err(VoileError::InvalidExitNote("Exit note truncated".to_owned()));
        }
        let terms = match ExitTerms::from_bytes(slice_subrange(bytes, 114, 114 + terms_len)) {
            Ok(t) => t,
            Err(e) => {
                return Err(e);
            },
        };
        Ok(ExitNote { note_id, amount, owner, terms, created_at, blinding_factor })
    }

    /// The commitment published for this note: the whole serialized note —
    /// embedded blinding factor included — hashed together with the blinding
    /// factor once more.
    pub fn commitment(&self) -> (r: Commitment)
        ensures
            r@ == commitment_of(note_bytes(self@), self@.blinding_factor),
    {
        let note_b = self.to_bytes();
        Commitment::new(note_b.as_slice(), &self.blinding_factor)
    }

    /// Encrypt the serialized note under a fresh random counter.
    pub fn encrypt(&self, key: &EncryptionKey) -> (r: EncryptedNote)
        ensures
            r@.ciphertext.len() == note_bytes(self@).len(),
            r@.ciphertext == xor_stream(key@, r@.counter, note_bytes(self@)),
    {
        let plaintext = self.to_bytes();
        EncryptedNote::encrypt(key, plaintext.as_slice())
    }

    /// Decrypt and re-parse a note. A wrong key surfaces only here, as the
    /// garbage plaintext failing to parse.
    pub fn decrypt(encrypted: &EncryptedNote, key: &EncryptionKey) -> (r: Result<
        Self,
        VoileError,
    >)
        ensures
            r is Ok <==> parse_note(
                xor_stream(key@, encrypted@.counter, encrypted@.ciphertext),
            ) is Some,
            r is Ok ==> r->Ok_0@ == parse_note(
                xor_stream(key@, encrypted@.counter, encrypted@.ciphertext),
            ).unwrap(),
            r is Err ==> r->Err_0 is InvalidExitNote,
    {
        let plaintext = match encrypted.decrypt(key) {
            Ok(p) => p,
            Err(_) => {
                return Err(VoileError::InvalidExitNote("Undecryptable note".to_owned()));
            },
        };
        Self::from_bytes(plaintext.as_slice())
    }

    /// Whether this note is the one a commitment was published for.
    pub fn verify_commitment(&self, commitment: &Commitment) -> (r: bool)
        ensures
            r == (commitment@ == commitment_of(note_bytes(self@), self@.blinding_factor)),
    {
        let expected = self.commitment();
        crate::codec::bytes32_eq(expected.as_bytes(), commitment.as_bytes())
    }
}

/// Parsing inverts serialization for every well-formed note.
pub proof fn lemma_note_roundtrip(v: ExitNoteView)
    requires
        v.wf(),
    ensures
        parse_note(note_bytes(v)) == Some(v),
{
    lemma_auto_spec_u64_to_from_le_bytes();
    lemma_auto_spec_u16_to_from_le_bytes();
    lemma_terms_bytes_len(v.terms);
    let tb = terms_bytes(v.terms);
    let bytes = note_bytes(v);
    assert(bytes.subrange(0, 32) =~= v.note_id);
    assert(bytes.subrange(32, 40) =~= spec_u64_to_le_bytes(v.amount));
    assert(bytes.subrange(40, 72) =~= v.owner);
    assert(bytes.subrange(72, 80) =~= spec_u64_to_le_bytes(v.created_at));
    assert(bytes.subrange(80, 112) =~= v.blinding_factor);
    assert(bytes.subrange(112, 114) =~= spec_u16_to_le_bytes(tb.len() as u16));
    assert(bytes.subrange(114, 114 + tb.len() as int) =~= tb);
    lemma_terms_roundtrip(v.terms);
}

/// Encrypting a note and decrypting with the same key recovers the note
/// exactly, whatever counter the encryption drew.
pub proof fn lemma_note_encrypt_roundtrip(v: ExitNoteView, key: Seq<u8>, counter: u64)
    requires
        v.wf(),
    ensures
        parse_note(xor_stream(key, counter, xor_stream(key, counter, note_bytes(v)))) == Some(v),
{
    crate::encryption::lemma_xor_stream_involutive(key, counter, note_bytes(v));
    lemma_note_roundtrip(v);
}

/// Notes with different identifiers serialize differently, so two notes with
/// one commitment exhibit a Keccak-256 collision: two distinct inputs with
/// one digest.
pub proof fn lemma_distinct_notes_collide(n1: ExitNoteView, n2: ExitNoteView)
    requires
        n1.wf(),
        n2.wf(),
        n1.note_id != n2.note_id,
        commitment_of(note_bytes(n1), n1.blinding_factor) == commitment_of(
            note_bytes(n2),
            n2.blinding_factor,
        ),
    ensures
        note_bytes(n1) + n1.blinding_factor != note_bytes(n2) + n2.blinding_factor,
        keccak256(note_bytes(n1) + n1.blinding_factor) == keccak256(
            note_bytes(n2) + n2.blinding_factor,
        ),
{
    let in1 = note_bytes(n1) + n1.blinding_factor;
    let in2 = note_bytes(n2) + n2.blinding_factor;
    if in1 == in2 {
        assert forall|i: int| 0 <= i < 32 implies n1.note_id[i] == n2.note_id[i] by {
            assert(in1[i] == n1.note_id[i]);
            assert(in2[i] == n2.note_id[i]);
        }
        assert(n1.note_id =~= n2.note_id);
    }
}

} // verus!
