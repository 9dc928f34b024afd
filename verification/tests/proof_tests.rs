use voile::{ExitNote, ExitProof, ExitTerms, ProofGenerator, ProofVerifier, VoileError};

fn create_test_note() -> ExitNote {
    let owner = [42u8; 32];
    ExitNote::new(1000, owner, ExitTerms::Standard)
}

#[test]
fn test_proof_generation() {
    let note = create_test_note();
    let owner_secret = [123u8; 32];

    let generator = ProofGenerator::default();
    let proof = generator.generate(&note, &owner_secret).unwrap();

    // The proof carries the note's commitment.
    assert_eq!(proof.commitment(), &note.commitment());
}

#[test]
fn test_proof_verification() {
    let note = create_test_note();
    let owner_secret = [123u8; 32];

    let generator = ProofGenerator::default();
    let proof = generator.generate(&note, &owner_secret).unwrap();

    let verifier = ProofVerifier::default();

    assert!(verifier.verify(&proof).is_ok());
}

#[test]
fn test_proof_serialization() {
    let note = create_test_note();
    let owner_secret = [99u8; 32];

    let generator = ProofGenerator::default();
    let proof = generator.generate(&note, &owner_secret).unwrap();

    let bytes = proof.to_bytes();
    let recovered = ExitProof::from_bytes(&bytes).unwrap();

    assert_eq!(proof.commitment(), recovered.commitment());
    assert_eq!(proof.nullifier(), recovered.nullifier());
    assert_eq!(proof.announcement(), recovered.announcement());
}

#[test]
fn test_nullifier_uniqueness() {
    let note = create_test_note();
    let secret1 = [1u8; 32];
    let secret2 = [2u8; 32];

    let generator = ProofGenerator::default();

    let proof1 = generator.generate(&note, &secret1).unwrap();
    let proof2 = generator.generate(&note, &secret2).unwrap();

    // Different secrets should produce different nullifiers.
    assert_ne!(proof1.nullifier(), proof2.nullifier());
}

#[test]
fn test_double_spend_prevention() {
    let note = create_test_note();
    let owner_secret = [123u8; 32];

    let generator = ProofGenerator::default();
    let proof = generator.generate(&note, &owner_secret).unwrap();

    let mut verifier = ProofVerifier::default();

    // First verification should succeed.
    assert!(verifier.verify(&proof).is_ok());

    // Mark the nullifier as used.
    verifier.mark_nullifier_used(*proof.nullifier());

    // A second verification should fail (double spend).
    let result = verifier.verify(&proof);
    assert!(result.is_err());
    assert!(matches!(result.unwrap_err(), VoileError::ProofVerificationFailed(_)));
}

#[test]
fn test_verifier_nullifier_tracking() {
    let mut verifier = ProofVerifier::default();
    let nullifier = [42u8; 32];

    assert!(!verifier.is_nullifier_used(&nullifier));

    verifier.mark_nullifier_used(nullifier);

    assert!(verifier.is_nullifier_used(&nullifier));
}

#[test]
fn test_proof_hex_encoding() {
    let note = create_test_note();
    let owner_secret = [77u8; 32];

    let generator = ProofGenerator::default();
    let proof = generator.generate(&note, &owner_secret).unwrap();

    let hex_str = proof.to_hex();

    // 160 bytes = 320 hex characters.
    assert_eq!(hex_str.len(), 320);
}

#[test]
fn test_different_domains() {
    let note = create_test_note();
    let owner_secret = [55u8; 32];

    let gen1 = ProofGenerator::new(b"chain_1");
    let gen2 = ProofGenerator::new(b"chain_2");

    let proof1 = gen1.generate(&note, &owner_secret).unwrap();
    let proof2 = gen2.generate(&note, &owner_secret).unwrap();

    // The same note under different domains gives different nullifiers.
    assert_ne!(proof1.nullifier(), proof2.nullifier());
}

#[test]
fn test_cross_domain_verification_fails() {
    let note = create_test_note();
    let owner_secret = [55u8; 32];

    let generator = ProofGenerator::new(b"chain_1");
    let proof = generator.generate(&note, &owner_secret).unwrap();

    // Verification on chain_1 succeeds.
    let verifier1 = ProofVerifier::new(b"chain_1");
    assert!(verifier1.verify(&proof).is_ok());

    // Verification on chain_2 fails: a different domain.
    let verifier2 = ProofVerifier::new(b"chain_2");
    let result = verifier2.verify(&proof);
    assert!(result.is_err());
}

#[test]
fn test_tampered_proof_fails_verification() {
    let note = create_test_note();
    let owner_secret = [123u8; 32];

    let generator = ProofGenerator::default();
    let proof = generator.generate(&note, &owner_secret).unwrap();

    // Tamper with the proof by flipping bits inside the response.
    let mut bytes = proof.to_bytes();
    bytes[64] ^= 0xFF;

    let tampered_proof = ExitProof::from_bytes(&bytes).unwrap();

    let verifier = ProofVerifier::default();
    let result = verifier.verify(&tampered_proof);

    assert!(result.is_err());
    assert!(matches!(result.unwrap_err(), VoileError::ProofVerificationFailed(_)));
}

#[test]
fn test_serialized_proof_verifies() {
    let note = create_test_note();
    let owner_secret = [123u8; 32];

    let generator = ProofGenerator::default();
    let proof = generator.generate(&note, &owner_secret).unwrap();

    let bytes = proof.to_bytes();
    let recovered = ExitProof::from_bytes(&bytes).unwrap();

    let verifier = ProofVerifier::default();
    assert!(verifier.verify(&recovered).is_ok());
}
