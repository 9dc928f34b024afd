use voile::{EncryptionKey, ExitNote, ExitTerms, VoileError};

#[test]
fn test_exit_note_creation() {
    let owner = [42u8; 32];
    let note = ExitNote::new(1000, owner, ExitTerms::Standard);

    assert_eq!(note.amount(), 1000);
    assert_eq!(note.owner(), &owner);
    assert_eq!(note.terms(), &ExitTerms::Standard);
}

#[test]
fn test_exit_note_serialization() {
    let owner = [1u8; 32];
    let note = ExitNote::new(5000, owner, ExitTerms::Immediate);

    let bytes = note.to_bytes();
    let recovered = ExitNote::from_bytes(&bytes).unwrap();

    assert_eq!(note.amount(), recovered.amount());
    assert_eq!(note.owner(), recovered.owner());
    assert_eq!(note.terms(), recovered.terms());
}

#[test]
fn test_exit_note_commitment() {
    let owner = [99u8; 32];
    let note = ExitNote::new(10000, owner, ExitTerms::Standard);

    let commitment = note.commitment();

    // The commitment is deterministic for the same note.
    assert!(note.verify_commitment(&commitment));
}

#[test]
fn test_exit_note_encryption() {
    let owner = [7u8; 32];
    let note = ExitNote::new(2500, owner, ExitTerms::Delayed { blocks: 100 });

    let key = EncryptionKey::generate();
    let encrypted = note.encrypt(&key);

    let decrypted = ExitNote::decrypt(&encrypted, &key).unwrap();

    assert_eq!(note.amount(), decrypted.amount());
    assert_eq!(note.owner(), decrypted.owner());
    assert_eq!(note.terms(), decrypted.terms());
}

#[test]
fn test_exit_terms_serialization() {
    let terms_cases = vec![
        ExitTerms::Immediate,
        ExitTerms::Standard,
        ExitTerms::Delayed { blocks: 1000 },
        ExitTerms::Custom { min_rate_bps: 9500, max_slippage_bps: 50 },
    ];

    for terms in terms_cases {
        let bytes = terms.to_bytes();
        let recovered = ExitTerms::from_bytes(&bytes).unwrap();
        assert_eq!(terms, recovered);
    }
}

#[test]
fn test_different_notes_different_commitments() {
    let owner = [1u8; 32];
    let note1 = ExitNote::new(1000, owner, ExitTerms::Standard);
    let note2 = ExitNote::new(1000, owner, ExitTerms::Standard);

    // Different notes (different ids and blinding factors) should commit
    // differently.
    assert_ne!(note1.commitment(), note2.commitment());
}

#[test]
fn terms_wire_bytes_are_exact() {
    assert_eq!(ExitTerms::Immediate.to_bytes(), vec![0u8]);
    assert_eq!(ExitTerms::Standard.to_bytes(), vec![1u8]);
    assert_eq!(
        ExitTerms::Delayed { blocks: 0x0102030405060708 }.to_bytes(),
        vec![2u8, 0x08, 0x07, 0x06, 0x05, 0x04, 0x03, 0x02, 0x01]
    );
    assert_eq!(
        ExitTerms::Custom { min_rate_bps: 0x1234, max_slippage_bps: 0xabcd }.to_bytes(),
        vec![3u8, 0x34, 0x12, 0xcd, 0xab]
    );
}

#[test]
fn terms_reject_malformed_input() {
    // Empty buffer.
    assert!(matches!(
        ExitTerms::from_bytes(&[]).unwrap_err(),
        VoileError::InvalidExitNote(_)
    ));
    // Unknown tag.
    assert!(ExitTerms::from_bytes(&[7u8]).is_err());
    // Delayed payload truncated.
    assert!(ExitTerms::from_bytes(&[2u8, 1, 2, 3, 4]).is_err());
    // Custom payload truncated.
    assert!(ExitTerms::from_bytes(&[3u8, 1, 2]).is_err());
}

#[test]
fn note_wire_layout_is_exact() {
    let owner = [0x11u8; 32];
    let note = ExitNote::new(0x0a0b0c0d0e0f1011, owner, ExitTerms::Standard);
    let bytes = note.to_bytes();

    assert_eq!(bytes.len(), 114 + 1);
    assert_eq!(&bytes[0..32], note.note_id());
    assert_eq!(
        &bytes[32..40],
        &0x0a0b0c0d0e0f1011u64.to_le_bytes()
    );
    assert_eq!(&bytes[40..72], &owner);
    assert_eq!(&bytes[72..80], &note.created_at().to_le_bytes());
    assert_eq!(&bytes[112..114], &[1u8, 0u8]);
    assert_eq!(bytes[114], 1u8);
}

#[test]
fn note_rejects_malformed_input() {
    // Shorter than the fixed header.
    assert!(matches!(
        ExitNote::from_bytes(&[0u8; 113]).unwrap_err(),
        VoileError::InvalidExitNote(_)
    ));
    // Declared terms length runs past the end.
    let owner = [2u8; 32];
    let note = ExitNote::new(1, owner, ExitTerms::Standard);
    let mut bytes = note.to_bytes();
    bytes[112] = 9;
    assert!(ExitNote::from_bytes(&bytes).is_err());
    // Terms tail carries an unknown tag.
    let mut bad_tag = note.to_bytes();
    bad_tag[114] = 200;
    assert!(ExitNote::from_bytes(&bad_tag).is_err());
}

#[test]
fn wrong_key_usually_fails_note_decryption() {
    let owner = [3u8; 32];
    let note = ExitNote::new(777, owner, ExitTerms::Standard);
    let key1 = EncryptionKey::from_bytes(&[1u8; 32]).unwrap();
    let key2 = EncryptionKey::from_bytes(&[2u8; 32]).unwrap();

    let encrypted = note.encrypt(&key1);
    // The garbage plaintext is only caught when it fails to re-parse.
    let result = ExitNote::decrypt(&encrypted, &key2);
    if let Err(e) = result {
        assert!(matches!(e, VoileError::InvalidExitNote(_)));
    }
}

#[test]
fn note_roundtrips_all_terms_shapes() {
    let owner = [8u8; 32];
    let cases = vec![
        ExitTerms::Immediate,
        ExitTerms::Standard,
        ExitTerms::Delayed { blocks: u64::MAX },
        ExitTerms::Custom { min_rate_bps: 0, max_slippage_bps: u16::MAX },
    ];
    for terms in cases {
        let note = ExitNote::new(12345, owner, terms.clone());
        let recovered = ExitNote::from_bytes(&note.to_bytes()).unwrap();
        assert_eq!(recovered.amount(), 12345);
        assert_eq!(recovered.owner(), &owner);
        assert_eq!(recovered.terms(), &terms);
        assert_eq!(recovered.note_id(), note.note_id());
        assert_eq!(recovered.created_at(), note.created_at());
        // The recovered note still opens the original commitment.
        assert!(recovered.verify_commitment(&note.commitment()));
    }
}
