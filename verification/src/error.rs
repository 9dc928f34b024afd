//! The typed failure outcomes of every fallible operation of the protocol.

use vstd::prelude::*;

verus! {

/// Everything that can go wrong while handling commitments, keys, encrypted
/// notes, exit notes or proofs. Each variant carries a short description of
/// what was malformed; contracts speak only of the variant.
#[derive(Debug)]
pub enum VoileError {
    /// Commitment bytes of the wrong shape.
    InvalidCommitment(String),
    /// Encryption could not be performed.
    EncryptionError(String),
    /// A malformed encrypted-note envelope.
    DecryptionError(String),
    /// A truncated or ill-tagged exit note.
    InvalidExitNote(String),
    /// Proof generation failed.
    ProofGenerationError(String),
    /// A proof was rejected.
    ProofVerificationFailed(String),
    /// Key material of the wrong shape.
    InvalidKey(String),
}

impl VoileError {
    /// The description carried by this error.
    pub fn message(&self) -> (r: &String)
        ensures
            *r == self.spec_message(),
    {
        match self {
            VoileError::InvalidCommitment(m) => m,
            VoileError::EncryptionError(m) => m,
            VoileError::DecryptionError(m) => m,
            VoileError::InvalidExitNote(m) => m,
            VoileError::ProofGenerationError(m) => m,
            VoileError::ProofVerificationFailed(m) => m,
            VoileError::InvalidKey(m) => m,
        }
    }

    /// The description carried by this error.
    pub open spec fn spec_message(&self) -> String {
        match self {
            VoileError::InvalidCommitment(m) => *m,
            VoileError::EncryptionError(m) => *m,
            VoileError::DecryptionError(m) => *m,
            VoileError::InvalidExitNote(m) => *m,
            VoileError::ProofGenerationError(m) => *m,
            VoileError::ProofVerificationFailed(m) => *m,
            VoileError::InvalidKey(m) => *m,
        }
    }
}

} // verus!
