//! Zero-knowledge attestation library over the BN254 curve.
//!
//! A prover convinces a verifier of facts about private data — membership of
//! a value in an authenticated set, possession of coordinates inside a
//! country's bounding box, possession of an email address at a DKIM-attested
//! domain — without revealing the witness. The library holds the verified
//! core: the Poseidon hasher, the Merkle tree with path extraction, the
//! three circuit assignments, the byte codecs for proofs and keys, and the
//! attestation front-ends. Constraint synthesis and the Groth16 setup and
//! proving calls, which go through an outside trait, live with the host
//! layer; verification of a finished proof is available here.

use vstd::prelude::*;

pub mod country_proof;
pub mod email;
pub mod email_proof;
pub mod field;
pub mod hash;
pub mod location;
pub mod merkle_proof;
pub mod prover;
pub mod text;
pub mod tree;
pub mod verification;

verus! {

/// Supported proof types.
pub enum ProofType {
    /// Proves ownership of an email at a specific domain.
    EmailDomain { domain: String },
    /// Proves location within a country.
    Country { country_code: String },
}

/// A verified proof that can be shared.
pub struct VerifiedProof {
    /// Type of proof.
    pub proof_type: ProofType,
    /// The cryptographic proof (serialized).
    pub proof_data: Vec<u8>,
    /// Timestamp when the proof was generated.
    pub generated_at: u64,
    /// Optional expiry.
    pub expires_at: Option<u64>,
}

} // verus!
