//! A private exit-liquidity protocol core: commitments, hash-derived stream
//! encryption, the exit-note binary data model, and a Fiat-Shamir style
//! proof-of-knowledge with nullifier-based double-spend prevention.

pub mod codec;
pub mod commitment;
pub mod encryption;
pub mod error;
pub mod exit_note;
pub mod hashing;
pub mod hexcode;
pub mod proofs;
pub mod rng;

pub use commitment::Commitment;
pub use encryption::{EncryptedNote, EncryptionKey};
pub use error::VoileError;
pub use exit_note::{ExitNote, ExitTerms};
pub use proofs::{ExitProof, ProofGenerator, ProofVerifier};
