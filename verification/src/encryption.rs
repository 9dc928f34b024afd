//! Hash-derived counter-mode stream encryption for exit notes: a keystream of
//! Keccak-256 blocks, XORed byte-wise with the plaintext. Decryption never
//! fails; a wrong key silently yields garbage bytes.

use crate::error::VoileError;
use crate::hashing::{keccak256, keccak256_digest};
use crate::rng::{random_bytes32, random_u64};
use vstd::arithmetic::div_mod::lemma_fundamental_div_mod_converse;
use vstd::bytes::{
    lemma_auto_spec_u64_to_from_le_bytes, spec_u64_from_le_bytes, spec_u64_to_le_bytes,
    u64_from_le_bytes, u64_to_le_bytes,
};
use vstd::prelude::*;
use vstd::slice::{slice_subrange, slice_to_vec};

verus! {

/// The tag bytes "voile_nonce" that prefix every nonce derivation.
pub open spec fn nonce_label() -> Seq<u8> {
    seq![118u8, 111u8, 105u8, 108u8, 101u8, 95u8, 110u8, 111u8, 110u8, 99u8, 101u8]
}

/// The nonce derived for a counter: `H("voile_nonce" ‖ key ‖ counter_LE64)`.
pub open spec fn nonce_of(key: Seq<u8>, counter: u64) -> Seq<u8> {
    keccak256(nonce_label() + key + spec_u64_to_le_bytes(counter))
}

/// The preimage of one keystream block: `key ‖ nonce ‖ index_LE64`.
pub open spec fn keystream_block_input(key: Seq<u8>, nonce: Seq<u8>, index: u64) -> Seq<u8> {
    key + nonce + spec_u64_to_le_bytes(index)
}

/// Byte `j` of the keystream for `(key, nonce)`: byte `j % 32` of the block
/// `H(key ‖ nonce ‖ (j / 32)_LE64)`.
pub open spec fn keystream_byte(key: Seq<u8>, nonce: Seq<u8>, j: int) -> u8 {
    keccak256(keystream_block_input(key, nonce, (j / 32) as u64))[j % 32]
}

/// `data` XORed byte-wise with the keystream for `(key, counter)`. Encryption
/// and decryption are each one application of this function.
pub open spec fn xor_stream(key: Seq<u8>, counter: u64, data: Seq<u8>) -> Seq<u8> {
    Seq::new(data.len(), |j: int| data[j] ^ keystream_byte(key, nonce_of(key, counter), j))
}

/// A 32-byte symmetric encryption key, generated client-side and never
/// serialized on-chain. Its view is the raw key bytes.
#[derive(Clone)]
pub struct EncryptionKey {
    key: [u8; 32],
}

impl View for EncryptionKey {
    type V = Seq<u8>;

    closed spec fn view(&self) -> Seq<u8> {
        self.key@
    }
}

impl EncryptionKey {
    /// Draw a fresh random 32-byte key. Nothing is promised of the bytes
    /// beyond their shape, which holds of every draw.
    pub fn generate() -> (r: Self)
        ensures
            r@.len() == 32,
    {
        EncryptionKey { key: random_bytes32() }
    }

    /// Build a key from raw bytes; any length other than 32 is rejected.
    pub fn from_bytes(bytes: &[u8]) -> (r: Result<Self, VoileError>)
        ensures
            r is Ok <==> bytes@.len() == 32,
            r is Ok ==> r->Ok_0@ == bytes@,
            r is Err ==> r->Err_0 is InvalidKey,
    {
        if bytes.len() != 32 {
            return Err(VoileError::InvalidKey("Expected 32 bytes".to_owned()));
        }
        let key = crate::codec::read_bytes32(bytes, 0);
        proof {
            assert(key@ =~= bytes@);
        }
        Ok(EncryptionKey { key })
    }

    /// The raw key bytes.
    pub fn as_bytes(&self) -> (r: &[u8; 32])
        ensures
            r@ == self@,
    {
        &self.key
    }

    /// The nonce for one encryption counter.
    fn derive_nonce(&self, counter: u64) -> (r: [u8; 32])
        ensures
            r@ == nonce_of(self@, counter),
    {
        let mut input: Vec<u8> = Vec::new();
        input.push(118);
        input.push(111);
        input.push(105);
        input.push(108);
        input.push(101);
        input.push(95);
        input.push(110);
        input.push(111);
        input.push(110);
        input.push(99);
        input.push(101);
        input.extend_from_slice(self.key.as_slice());
        let counter_bytes = u64_to_le_bytes(counter);
        input.extend_from_slice(counter_bytes.as_slice());
        proof {
            assert(input@ =~= nonce_label() + self@ + spec_u64_to_le_bytes(counter));
        }
        keccak256_digest(input.as_slice())
    }

    /// The first `length` keystream bytes for a nonce.
    fn derive_keystream(&self, nonce: &[u8; 32], length: usize) -> (r: Vec<u8>)
        ensures
            r@.len() == length,
            forall|j: int| 0 <= j < length ==> r@[j] == keystream_byte(self@, nonce@, j),
    {
        let mut keystream: Vec<u8> = Vec::new();
        let mut block_counter: u64 = 0;
        while keystream.len() < length
            invariant
                keystream@.len() <= length,
                keystream@.len() == 32 * (block_counter as int) || keystream@.len() == length,
                forall|j: int|
                    0 <= j < keystream@.len() ==> keystream@[j] == keystream_byte(
                        self@,
                        nonce@,
                        j,
                    ),
            decreases length - keystream@.len(),
        {
            let mut input: Vec<u8> = Vec::new();
            input.extend_from_slice(self.key.as_slice());
            input.extend_from_slice(nonce.as_slice());
            let counter_bytes = u64_to_le_bytes(block_counter);
            input.extend_from_slice(counter_bytes.as_slice());
            proof {
                assert(input@ =~= self@ + nonce@ + spec_u64_to_le_bytes(block_counter));
            }
            let block = keccak256_digest(input.as_slice());
            let ghost base = keystream@.len() as int;
            let mut t: usize = 0;
            while t < 32 && keystream.len() < length
                invariant
                    t <= 32,
                    base == 32 * (block_counter as int),
                    keystream@.len() == base + t,
                    keystream@.len() <= length,
                    block@ == keccak256(self@ + nonce@ + spec_u64_to_le_bytes(block_counter)),
                    forall|j: int|
                        0 <= j < keystream@.len() ==> keystream@[j] == keystream_byte(
                            self@,
                            nonce@,
                            j,
                        ),
                decreases 32 - t,
            {
                proof {
                    lemma_fundamental_div_mod_converse(
                        base + t,
                        32,
                        block_counter as int,
                        t as int,
                    );
                }
                keystream.push(block[t]);
                t += 1;
            }
            block_counter += 1;
        }
        keystream
    }
}

/// The mathematical content of an encrypted note: the public counter and the
/// ciphertext bytes.
pub ghost struct EncryptedNoteView {
    pub counter: u64,
    pub ciphertext: Seq<u8>,
}

/// The wire form of an encrypted note: `counter_LE64 ‖ ciphertext`.
pub open spec fn encrypted_note_bytes(v: EncryptedNoteView) -> Seq<u8> {
    spec_u64_to_le_bytes(v.counter) + v.ciphertext
}

/// The encrypted note a byte string parses to, if it is long enough to hold
/// the counter.
pub open spec fn parse_encrypted_note(bytes: Seq<u8>) -> Option<EncryptedNoteView> {
    if bytes.len() < 8 {
        None
    } else {
        Some(
            EncryptedNoteView {
                counter: spec_u64_from_le_bytes(bytes.subrange(0, 8)),
                ciphertext: bytes.skip(8),
            },
        )
    }
}

/// An encrypted exit note: the ciphertext together with the public counter
/// its nonce was derived from.
#[derive(Clone, Debug)]
pub struct EncryptedNote {
    ciphertext: Vec<u8>,
    counter: u64,
}

impl View for EncryptedNote {
    type V = EncryptedNoteView;

    closed spec fn view(&self) -> EncryptedNoteView {
        EncryptedNoteView { counter: self.counter, ciphertext: self.ciphertext@ }
    }
}

impl EncryptedNote {
    /// Encrypt `plaintext` under a fresh random counter: the ciphertext is
    /// the plaintext XORed with the keystream for that counter.
    pub fn encrypt(key: &EncryptionKey, plaintext: &[u8]) -> (r: Self)
        ensures
            r@.ciphertext.len() == plaintext@.len(),
            r@.ciphertext == xor_stream(key@, r@.counter, plaintext@),
    {
        let counter = random_u64();
        let nonce = key.derive_nonce(counter);
        let keystream = key.derive_keystream(&nonce, plaintext.len());
        let mut ciphertext: Vec<u8> = Vec::new();
        let mut i: usize = 0;
        while i < plaintext.len()
            invariant
                i <= plaintext@.len(),
                keystream@.len() == plaintext@.len(),
                nonce@ == nonce_of(key@, counter),
                forall|j: int|
                    0 <= j < keystream@.len() ==> keystream@[j] == keystream_byte(
                        key@,
                        nonce@,
                        j,
                    ),
                ciphertext@.len() == i,
                forall|j: int|
                    0 <= j < i ==> ciphertext@[j] == (plaintext@[j] ^ keystream@[j]),
            decreases plaintext@.len() - i,
        {
            ciphertext.push(plaintext[i] ^ keystream[i]);
            i += 1;
        }
        proof {
            assert(ciphertext@ =~= xor_stream(key@, counter, plaintext@));
        }
        EncryptedNote { ciphertext, counter }
    }

    /// Apply the keystream for the stored counter once more. This always
    /// returns bytes: a wrong key is never detected here, it only yields
    /// garbage plaintext.
    pub fn decrypt(&self, key: &EncryptionKey) -> (r: Result<Vec<u8>, VoileError>)
        ensures
            r is Ok,
            r is Ok ==> r->Ok_0@ == xor_stream(key@, self@.counter, self@.ciphertext),
    {
        let nonce = key.derive_nonce(self.counter);
        let keystream = key.derive_keystream(&nonce, self.ciphertext.len());
        let mut plaintext: Vec<u8> = Vec::new();
        let mut i: usize = 0;
        while i < self.ciphertext.len()
            invariant
                i <= self@.ciphertext.len(),
                keystream@.len() == self@.ciphertext.len(),
                nonce@ == nonce_of(key@, self@.counter),
                forall|j: int|
                    0 <= j < keystream@.len() ==> keystream@[j] == keystream_byte(
                        key@,
                        nonce@,
                        j,
                    ),
                plaintext@.len() == i,
                forall|j: int|
                    0 <= j < i ==> plaintext@[j] == (self@.ciphertext[j] ^ keystream@[j]),
            decreases self@.ciphertext.len() - i,
        {
            plaintext.push(self.ciphertext[i] ^ keystream[i]);
            i += 1;
        }
        proof {
            assert(plaintext@ =~= xor_stream(key@, self@.counter, self@.ciphertext));
        }
        Ok(plaintext)
    }

    /// The ciphertext bytes.
    pub fn ciphertext(&self) -> (r: &[u8])
        ensures
            r@ == self@.ciphertext,
    {
        self.ciphertext.as_slice()
    }

    /// Serialize: the counter in little-endian, then the ciphertext.
    pub fn to_bytes(&self) -> (r: Vec<u8>)
        ensures
            r@ == encrypted_note_bytes(self@),
    {
        let mut bytes: Vec<u8> = Vec::new();
        let counter_bytes = u64_to_le_bytes(self.counter);
        bytes.extend_from_slice(counter_bytes.as_slice());
        bytes.extend_from_slice(self.ciphertext.as_slice());
        proof {
            assert(bytes@ =~= encrypted_note_bytes(self@));
        }
        bytes
    }

    /// Parse an encrypted-note envelope; anything shorter than the 8-byte
    /// counter is rejected.
    pub fn from_bytes(bytes: &[u8]) -> (r: Result<Self, VoileError>)
        ensures
            r is Ok <==> parse_encrypted_note(bytes@) is Some,
            r is Ok ==> r->Ok_0@ == parse_encrypted_note(bytes@).unwrap(),
            r is Err ==> r->Err_0 is DecryptionError,
    {
        if bytes.len() < 8 {
            return Err(VoileError::DecryptionError("Encrypted note too short".to_owned()));
        }
        let counter = u64_from_le_bytes(slice_subrange(bytes, 0, 8));
        let ciphertext = slice_to_vec(slice_subrange(bytes, 8, bytes.len()));
        proof {
            assert(bytes@.subrange(8, bytes@.len() as int) =~= bytes@.skip(8));
        }
        Ok(EncryptedNote { ciphertext, counter })
    }
}

/// Decrypting with the encrypting key restores the plaintext: XOR with one
/// keystream is an involution.
pub proof fn lemma_xor_stream_involutive(key: Seq<u8>, counter: u64, data: Seq<u8>)
    ensures
        xor_stream(key, counter, xor_stream(key, counter, data)) == data,
{
    let once = xor_stream(key, counter, data);
    let twice = xor_stream(key, counter, once);
    assert forall|j: int| 0 <= j < data.len() implies twice[j] == data[j] by {
        let k = keystream_byte(key, nonce_of(key, counter), j);
        let d = data[j];
        assert(((d ^ k) ^ k) == d) by (bit_vector);
    }
    assert(twice =~= data);
}

/// Key separation: when one non-empty plaintext encrypts to one ciphertext
/// under two different keys of one length, the two first-block keystream
/// preimages are distinct, yet their Keccak-256 digests agree on every byte
/// the ciphertext exposes of them.
pub proof fn lemma_key_separation(
    key1: Seq<u8>,
    counter1: u64,
    key2: Seq<u8>,
    counter2: u64,
    data: Seq<u8>,
)
    requires
        key1.len() == key2.len(),
        key1 != key2,
        data.len() > 0,
        xor_stream(key1, counter1, data) == xor_stream(key2, counter2, data),
    ensures
        keystream_block_input(key1, nonce_of(key1, counter1), 0) != keystream_block_input(
            key2,
            nonce_of(key2, counter2),
            0,
        ),
        forall|j: int|
            0 <= j < data.len() && j < 32 ==> keccak256(
                keystream_block_input(key1, nonce_of(key1, counter1), 0),
            )[j] == keccak256(keystream_block_input(key2, nonce_of(key2, counter2), 0))[j],
{
    let n1 = nonce_of(key1, counter1);
    let n2 = nonce_of(key2, counter2);
    let in1 = keystream_block_input(key1, n1, 0);
    let in2 = keystream_block_input(key2, n2, 0);
    if in1 == in2 {
        assert forall|i: int| 0 <= i < key1.len() implies key1[i] == key2[i] by {
            assert(in1[i] == key1[i]);
            assert(in2[i] == key2[i]);
        }
        assert(key1 =~= key2);
    }
    assert forall|j: int| 0 <= j < data.len() && j < 32 implies keccak256(in1)[j] == keccak256(
        in2,
    )[j] by {
        lemma_fundamental_div_mod_converse(j, 32, 0, j);
        let k1 = keystream_byte(key1, n1, j);
        let k2 = keystream_byte(key2, n2, j);
        assert(xor_stream(key1, counter1, data)[j] == data[j] ^ k1);
        assert(xor_stream(key2, counter2, data)[j] == data[j] ^ k2);
        let d = data[j];
        assert((d ^ k1) == (d ^ k2) ==> k1 == k2) by (bit_vector);
    }
}

/// Serialization round trip for the encrypted-note envelope.
pub proof fn lemma_encrypted_note_roundtrip(v: EncryptedNoteView)
    ensures
        parse_encrypted_note(encrypted_note_bytes(v)) == Some(v),
{
    lemma_auto_spec_u64_to_from_le_bytes();
    let bytes = encrypted_note_bytes(v);
    assert(bytes.subrange(0, 8) =~= spec_u64_to_le_bytes(v.counter));
    assert(bytes.skip(8) =~= v.ciphertext);
}

} // verus!
