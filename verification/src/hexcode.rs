//! Lowercase hexadecimal, the transport form of commitments and proofs.

use vstd::prelude::*;

verus! {

/// The lowercase hex digit for a nibble.
pub open spec fn hex_digit(n: u8) -> char
    recommends
        n < 16,
{
    if n == 0 {
        '0'
    } else if n == 1 {
        '1'
    } else if n == 2 {
        '2'
    } else if n == 3 {
        '3'
    } else if n == 4 {
        '4'
    } else if n == 5 {
        '5'
    } else if n == 6 {
        '6'
    } else if n == 7 {
        '7'
    } else if n == 8 {
        '8'
    } else if n == 9 {
        '9'
    } else if n == 10 {
        'a'
    } else if n == 11 {
        'b'
    } else if n == 12 {
        'c'
    } else if n == 13 {
        'd'
    } else if n == 14 {
        'e'
    } else {
        'f'
    }
}

/// The lowercase hex encoding of a byte string: two digits per byte, high
/// nibble first.
pub open spec fn hex_encoding(bytes: Seq<u8>) -> Seq<char> {
    Seq::new(
        bytes.len() * 2,
        |i: int| if i % 2 == 0 { hex_digit(bytes[i / 2] / 16) } else { hex_digit(bytes[i / 2] % 16) },
    )
}

/// Whether a character is a hex digit, in either case.
pub open spec fn is_hex_char(c: char) -> bool {
    ('0' <= c && c <= '9') || ('a' <= c && c <= 'f') || ('A' <= c && c <= 'F')
}

/// The value of a hex digit.
pub open spec fn hex_char_value(c: char) -> u8
    recommends
        is_hex_char(c),
{
    if '0' <= c && c <= '9' {
        (c as u8 - '0' as u8) as u8
    } else if 'a' <= c && c <= 'f' {
        (c as u8 - 'a' as u8 + 10) as u8
    } else {
        (c as u8 - 'A' as u8 + 10) as u8
    }
}

/// Whether a character string is a well-formed hex encoding: even length,
/// every character a hex digit of either case.
pub open spec fn is_hex_string(s: Seq<char>) -> bool {
    s.len() % 2 == 0 && (forall|i: int| 0 <= i < s.len() ==> is_hex_char(#[trigger] s[i]))
}

/// The bytes a well-formed hex string decodes to.
pub open spec fn hex_decoding(s: Seq<char>) -> Seq<u8>
    recommends
        is_hex_string(s),
{
    Seq::new(s.len() / 2, |i: int| (hex_char_value(s[2 * i]) * 16 + hex_char_value(s[2 * i + 1])) as u8)
}

/// Decoding inverts encoding: the round trip over the spec-level codec.
pub proof fn lemma_hex_roundtrip(bytes: Seq<u8>)
    ensures
        is_hex_string(hex_encoding(bytes)),
        hex_decoding(hex_encoding(bytes)) == bytes,
{
    let enc = hex_encoding(bytes);
    assert forall|i: int| 0 <= i < enc.len() implies is_hex_char(#[trigger] enc[i]) by {
        let b = bytes[i / 2];
        assert(b / 16 < 16) by (bit_vector);
        assert(b % 16 < 16) by (bit_vector);
    }
    assert forall|i: int| 0 <= i < bytes.len() implies hex_decoding(enc)[i] == bytes[i] by {
        let b = bytes[i];
        assert(enc[2 * i] == hex_digit(b / 16));
        assert(enc[2 * i + 1] == hex_digit(b % 16));
        assert(b / 16 < 16 && b % 16 < 16) by (bit_vector);
        assert(hex_char_value(hex_digit(b / 16)) == b / 16);
        assert(hex_char_value(hex_digit(b % 16)) == b % 16);
        assert((b / 16) * 16 + b % 16 == b) by (bit_vector);
    }
    assert(hex_decoding(enc) =~= bytes);
}

/// Relies on hex::encode: lowercase hex, two digits per byte, high nibble
/// first.
#[verifier::external_body]
pub(crate) fn hex_encode(bytes: &[u8]) -> (r: String)
    ensures
        r@ == hex_encoding(bytes@),
{
    hex::encode(bytes)
}

/// Relies on hex::decode: accepts exactly the even-length strings of hex
/// digits in either case, and returns the decoded bytes.
#[verifier::external_body]
pub(crate) fn hex_decode(s: &str) -> (r: Option<Vec<u8>>)
    ensures
        r is Some <==> is_hex_string(s@),
        r is Some ==> r.unwrap()@ == hex_decoding(s@),
{
    hex::decode(s).ok()
}

} // verus!
