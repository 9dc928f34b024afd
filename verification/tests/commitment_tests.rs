use sha3::{Digest, Keccak256};
use voile::Commitment;

#[test]
fn test_commitment_creation_and_verification() {
    let value = b"test_unstake_amount_1000";
    let blinding = [42u8; 32];

    let commitment = Commitment::new(value, &blinding);

    assert!(commitment.verify(value, &blinding));
    assert!(!commitment.verify(b"wrong_value", &blinding));
    assert!(!commitment.verify(value, &[0u8; 32]));
}

#[test]
fn test_commitment_serialization() {
    let value = b"exit_note_data";
    let blinding = [123u8; 32];

    let commitment = Commitment::new(value, &blinding);
    let hex_str = commitment.to_hex();

    let recovered = Commitment::from_hex(&hex_str).unwrap();
    assert_eq!(commitment, recovered);
}

#[test]
fn test_commitment_bytes_roundtrip() {
    let value = b"private_exit_data";
    let blinding = [99u8; 32];

    let commitment = Commitment::new(value, &blinding);
    let bytes = commitment.as_bytes();

    let recovered = Commitment::from_bytes(bytes).unwrap();
    assert_eq!(commitment, recovered);
}

#[test]
fn test_invalid_commitment_length() {
    let result = Commitment::from_bytes(&[0u8; 16]);
    assert!(result.is_err());
}

#[test]
fn commitment_matches_direct_keccak() {
    // The commitment must be exactly Keccak-256 of value ‖ blinding.
    let value = b"some value";
    let blinding = [7u8; 32];

    let commitment = Commitment::new(value, &blinding);

    let mut hasher = Keccak256::new();
    hasher.update(value);
    hasher.update(blinding);
    let expected: [u8; 32] = hasher.finalize().into();
    assert_eq!(commitment.as_bytes(), &expected);
}

#[test]
fn commitment_hex_is_lowercase_and_exact() {
    let mut raw = [0u8; 32];
    raw[0] = 0x01;
    raw[1] = 0xab;
    raw[31] = 0xff;
    let commitment = Commitment::from_bytes(&raw).unwrap();
    let hex_str = commitment.to_hex();
    assert_eq!(hex_str.len(), 64);
    assert_eq!(
        hex_str,
        "01ab0000000000000000000000000000000000000000000000000000000000ff"
    );
}

#[test]
fn commitment_from_hex_accepts_uppercase() {
    let commitment = Commitment::from_hex(
        "01AB0000000000000000000000000000000000000000000000000000000000FF",
    )
    .unwrap();
    assert_eq!(commitment.as_bytes()[0], 0x01);
    assert_eq!(commitment.as_bytes()[1], 0xab);
    assert_eq!(commitment.as_bytes()[31], 0xff);
}

#[test]
fn commitment_from_hex_rejects_malformed_input() {
    // Odd length.
    assert!(Commitment::from_hex("abc").is_err());
    // Not a hex digit.
    let bad = "zz".repeat(32);
    assert!(Commitment::from_hex(&bad).is_err());
    // Valid hex of the wrong length.
    assert!(Commitment::from_hex("abcd").is_err());
    // Empty.
    assert!(Commitment::from_hex("").is_err());
}

#[test]
fn commitment_rejects_different_blinding() {
    let value = b"amount:9000";
    let blinding1 = [5u8; 32];
    let mut blinding2 = [5u8; 32];
    blinding2[17] ^= 0x80;

    let commitment = Commitment::new(value, &blinding1);
    assert!(!commitment.verify(value, &blinding2));
}
