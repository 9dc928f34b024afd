use sha3::{Digest, Keccak256};
use voile::{ExitNote, ExitProof, ExitTerms, ProofGenerator, ProofVerifier, VoileError};

fn keccak(parts: &[&[u8]]) -> [u8; 32] {
    let mut hasher = Keccak256::new();
    for part in parts {
        hasher.update(part);
    }
    hasher.finalize().into()
}

#[test]
fn end_to_end_spend() {
    let note = ExitNote::new(1000, [42u8; 32], ExitTerms::Standard);
    let generator = ProofGenerator::new(b"voile_mainnet");
    let secret = [123u8; 32];

    let proof = generator.generate(&note, &secret).unwrap();

    let verifier = ProofVerifier::new(b"voile_mainnet");
    assert!(verifier.verify(&proof).is_ok());
    assert_eq!(proof.to_hex().len(), 320);
    assert_eq!(proof.commitment(), &note.commitment());
}

#[test]
fn nullifier_matches_direct_keccak_chain() {
    // The nullifier must be exactly
    // H("voile_nullifier" ‖ H("voile_proof_domain" ‖ domain) ‖ note_id ‖ secret).
    let note = ExitNote::new(5, [9u8; 32], ExitTerms::Immediate);
    let secret = [77u8; 32];
    let generator = ProofGenerator::new(b"some_chain");
    let proof = generator.generate(&note, &secret).unwrap();

    let domain_hash = keccak(&[b"voile_proof_domain", b"some_chain"]);
    let expected = keccak(&[b"voile_nullifier", &domain_hash, note.note_id(), &secret]);
    assert_eq!(proof.nullifier(), &expected);
}

#[test]
fn verification_tag_matches_direct_keccak_chain() {
    // Recompute challenge and tag from the proof's public values with sha3
    // alone; the stored tag must match byte for byte.
    let note = ExitNote::new(31337, [4u8; 32], ExitTerms::Delayed { blocks: 7 });
    let secret = [250u8; 32];
    let generator = ProofGenerator::new(b"tag_chain");
    let proof = generator.generate(&note, &secret).unwrap();

    let domain_hash = keccak(&[b"voile_proof_domain", b"tag_chain"]);
    let challenge = keccak(&[
        b"voile_challenge",
        &domain_hash,
        proof.commitment().as_bytes(),
        proof.nullifier(),
        proof.announcement(),
    ]);
    let response: [u8; 32] = proof.to_bytes()[64..96].try_into().unwrap();
    let expected_tag = keccak(&[
        b"voile_verification_tag",
        &domain_hash,
        &response,
        &challenge,
        proof.announcement(),
        proof.commitment().as_bytes(),
        proof.nullifier(),
    ]);
    assert_eq!(proof.verification_tag(), &expected_tag);
}

#[test]
fn nullifier_is_deterministic_per_note_and_secret() {
    let note = ExitNote::new(64, [6u8; 32], ExitTerms::Standard);
    let secret = [1u8; 32];
    let generator = ProofGenerator::default();

    let proof1 = generator.generate(&note, &secret).unwrap();
    let proof2 = generator.generate(&note, &secret).unwrap();

    // Regenerating yields the same nullifier but a fresh announcement.
    assert_eq!(proof1.nullifier(), proof2.nullifier());
    assert_ne!(proof1.announcement(), proof2.announcement());
}

#[test]
fn proof_wire_layout_is_exact() {
    let note = ExitNote::new(2, [11u8; 32], ExitTerms::Standard);
    let generator = ProofGenerator::default();
    let proof = generator.generate(&note, &[13u8; 32]).unwrap();

    let bytes = proof.to_bytes();
    assert_eq!(bytes.len(), 160);
    assert_eq!(&bytes[0..32], proof.commitment().as_bytes());
    assert_eq!(&bytes[32..64], proof.announcement());
    assert_eq!(&bytes[96..128], proof.verification_tag());
    assert_eq!(&bytes[128..160], proof.nullifier());
}

#[test]
fn proof_of_wrong_size_is_rejected() {
    assert!(matches!(
        ExitProof::from_bytes(&[0u8; 159]).unwrap_err(),
        VoileError::ProofVerificationFailed(_)
    ));
    assert!(ExitProof::from_bytes(&[0u8; 161]).is_err());
    assert!(ExitProof::from_bytes(&[]).is_err());
}

#[test]
fn zero_valued_fields_are_rejected() {
    let note = ExitNote::new(8, [21u8; 32], ExitTerms::Standard);
    let generator = ProofGenerator::default();
    let verifier = ProofVerifier::default();
    let proof = generator.generate(&note, &[22u8; 32]).unwrap();
    let bytes = proof.to_bytes();

    // Zero out each checked field in turn: response, announcement,
    // nullifier, verification tag.
    for range in [64..96, 32..64, 128..160, 96..128] {
        let mut zeroed = bytes.clone();
        for b in &mut zeroed[range] {
            *b = 0;
        }
        let broken = ExitProof::from_bytes(&zeroed).unwrap();
        let result = verifier.verify(&broken);
        assert!(matches!(result.unwrap_err(), VoileError::ProofVerificationFailed(_)));
    }
}

#[test]
fn marking_one_nullifier_leaves_others_spendable() {
    let mut verifier = ProofVerifier::default();
    let a = [1u8; 32];
    let b = [2u8; 32];
    verifier.mark_nullifier_used(a);
    assert!(verifier.is_nullifier_used(&a));
    assert!(!verifier.is_nullifier_used(&b));

    // Marking twice changes nothing.
    verifier.mark_nullifier_used(a);
    assert!(verifier.is_nullifier_used(&a));
    assert!(!verifier.is_nullifier_used(&b));
}

#[test]
fn double_spend_of_reserialized_proof_is_caught() {
    // The nullifier survives a serialization round trip, so even a
    // re-parsed copy of the proof cannot be spent twice.
    let note = ExitNote::new(400, [30u8; 32], ExitTerms::Custom {
        min_rate_bps: 9000,
        max_slippage_bps: 25,
    });
    let generator = ProofGenerator::default();
    let proof = generator.generate(&note, &[31u8; 32]).unwrap();
    let copy = ExitProof::from_bytes(&proof.to_bytes()).unwrap();

    let mut verifier = ProofVerifier::default();
    assert!(verifier.verify(&proof).is_ok());
    verifier.mark_nullifier_used(*proof.nullifier());
    assert!(verifier.verify(&copy).is_err());
}
