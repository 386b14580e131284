//! Groth16 proof verification for Merkle membership proofs.
//!
//! The verifier holds the verifying key in its serialized form; each
//! check deserializes the key, the proof and the public inputs and runs
//! the pairing test in the outside crate behind one trusted wrapper,
//! whose verdict is a function of those bytes alone.

use vstd::prelude::*;

use ark_bn254::{Bn254, Fr};
use ark_groth16::{Groth16, Proof, VerifyingKey};
use ark_serialize::CanonicalDeserialize;
use ark_snark::SNARK;

use crate::field::{Fe, fe_canon, hex_bytes, hex_decode, hex_valid};
use crate::hash::fe_views;
use crate::prover::{MembershipProof, spec_membership_bytes_valid};

verus! {

/// Whether bytes begin with a well-formed compressed Groth16 verifying
/// key over BN254.
pub uninterp spec fn vk_canon(b: Seq<u8>) -> bool;

/// The verdict of Groth16 verification over BN254, as a function of the
/// verifying key bytes, the public inputs' canonical encodings, and the
/// proof bytes: `None` when a decode fails or the input count does not
/// match the key, `Some(valid)` for a completed pairing check.
pub uninterp spec fn groth16_verdict(vk: Seq<u8>, inputs: Seq<Seq<u8>>, proof: Seq<u8>) -> Option<
    bool,
>;

/// Relies on ark_serialize: `VerifyingKey::<Bn254>::deserialize_compressed`
/// succeeds or fails deterministically in the bytes.
#[verifier::external_body]
pub fn vk_check(b: &Vec<u8>) -> (r: bool)
    ensures
        r == vk_canon(b@),
{
    VerifyingKey::<Bn254>::deserialize_compressed(&b[..]).is_ok()
}

/// Relies on ark_groth16: deserializing the verifying key, the public
/// inputs and the proof, preparing the key and running
/// `verify_with_processed_vk` are each deterministic in their inputs, so
/// the verdict is a function of the bytes alone.
#[verifier::external_body]
fn groth16_verify(vk_bytes: &Vec<u8>, inputs: &Vec<Fe>, proof_bytes: &Vec<u8>) -> (r: Option<bool>)
    ensures
        r == groth16_verdict(vk_bytes@, fe_views(inputs@), proof_bytes@),
{
    let vk = VerifyingKey::<Bn254>::deserialize_compressed(&vk_bytes[..]).ok()?;
    let pvk = Groth16::<Bn254>::process_vk(&vk).ok()?;
    let proof = Proof::<Bn254>::deserialize_compressed(&proof_bytes[..]).ok()?;
    let mut ins: Vec<Fr> = Vec::new();
    for fe in inputs.iter() {
        ins.push(Fr::deserialize_compressed(&fe.bytes[..]).ok()?);
    }
    Groth16::<Bn254>::verify_with_processed_vk(&pvk, &ins, &proof).ok()
}

/// Errors that can occur during verification.
#[derive(Debug)]
pub enum VerifierError {
    /// The pairing check could not be run.
    VerificationFailed(String),
    /// The proof bytes could not be decoded.
    InvalidProof(String),
    /// A key could not be decoded.
    SerializationError(String),
    /// A file could not be read or written.
    IoError(String),
    /// The proof's public root is not the root the caller expected.
    RootMismatch,
}

/// Verifier for Merkle membership proofs, holding a serialized
/// verifying key.
pub struct Verifier {
    vk_bytes: Vec<u8>,
}

impl Verifier {
    #[verifier::type_invariant]
    closed spec fn wf(self) -> bool {
        vk_canon(self.vk_bytes@)
    }

    /// The serialized verifying key.
    pub closed spec fn vk_view(&self) -> Seq<u8> {
        self.vk_bytes@
    }

    /// Create a verifier from a serialized verifying key; accepts exactly
    /// the byte strings that decode as one.
    pub fn new(vk_bytes: Vec<u8>) -> (r: Result<Verifier, VerifierError>)
        ensures
            r is Ok <==> vk_canon(vk_bytes@),
            r is Ok ==> r->Ok_0.vk_view() == vk_bytes@,
            r is Err ==> r->Err_0 is SerializationError,
    {
        if vk_check(&vk_bytes) {
            Ok(Verifier { vk_bytes })
        } else {
            Err(VerifierError::SerializationError("malformed verifying key".to_owned()))
        }
    }

    /// The serialized verifying key.
    pub fn verifying_key(&self) -> (r: &Vec<u8>)
        ensures
            r@ == self.vk_view(),
    {
        &self.vk_bytes
    }

    /// Verify a membership proof: the pairing check over the proof's own
    /// public input. `Ok` carries the check's verdict; `Err` means the
    /// key and proof could not be combined.
    pub fn verify(&self, proof: &MembershipProof) -> (r: Result<bool, VerifierError>)
        ensures
            match r {
                Ok(valid) => groth16_verdict(
                    self.vk_view(),
                    seq![proof.input_view()],
                    proof.proof_view(),
                ) == Some(valid),
                Err(e) => groth16_verdict(
                    self.vk_view(),
                    seq![proof.input_view()],
                    proof.proof_view(),
                ) is None && e is VerificationFailed,
            },
    {
        let mut inputs: Vec<Fe> = Vec::new();
        inputs.push(proof.public_input().dup());
        let bytes = proof.to_bytes();
        let proof_part = vstd::slice::slice_to_vec(
            vstd::slice::slice_subrange(bytes.as_slice(), 0, 128),
        );
        proof {
            assert(proof_part@ =~= proof.proof_view());
            assert(fe_views(inputs@) =~= seq![proof.input_view()]);
        }
        match groth16_verify(&self.vk_bytes, &inputs, &proof_part) {
            Some(valid) => Ok(valid),
            None => Err(
                VerifierError::VerificationFailed("verifying key and proof mismatch".to_owned()),
            ),
        }
    }

    /// Verify a proof against a specific Merkle root: rejected with
    /// `RootMismatch` exactly when the proof's public input differs from
    /// the expected root, otherwise verified as `verify` does.
    pub fn verify_with_root(&self, proof: &MembershipProof, expected_root: &Fe) -> (r: Result<
        bool,
        VerifierError,
    >)
        ensures
            proof.input_view() != expected_root@ ==> r is Err && r->Err_0 is RootMismatch,
            proof.input_view() == expected_root@ ==> match r {
                Ok(valid) => groth16_verdict(
                    self.vk_view(),
                    seq![proof.input_view()],
                    proof.proof_view(),
                ) == Some(valid),
                Err(e) => groth16_verdict(
                    self.vk_view(),
                    seq![proof.input_view()],
                    proof.proof_view(),
                ) is None && e is VerificationFailed,
            },
    {
        if !proof.public_input().eq_fe(expected_root) {
            return Err(VerifierError::RootMismatch);
        }
        self.verify(proof)
    }

    /// Verify a proof from raw bytes: decoded as `MembershipProof` and
    /// then verified; malformed bytes are rejected with `InvalidProof`.
    pub fn verify_bytes(&self, proof_bytes: &[u8]) -> (r: Result<bool, VerifierError>)
        ensures
            !spec_membership_bytes_valid(proof_bytes@) ==> r is Err && r->Err_0 is InvalidProof,
            spec_membership_bytes_valid(proof_bytes@) ==> match r {
                Ok(valid) => groth16_verdict(
                    self.vk_view(),
                    seq![proof_bytes@.subrange(128, 160)],
                    proof_bytes@.subrange(0, 128),
                ) == Some(valid),
                Err(e) => groth16_verdict(
                    self.vk_view(),
                    seq![proof_bytes@.subrange(128, 160)],
                    proof_bytes@.subrange(0, 128),
                ) is None && e is VerificationFailed,
            },
    {
        let proof = match MembershipProof::from_bytes(proof_bytes) {
            Ok(p) => p,
            Err(_) => {
                return Err(VerifierError::InvalidProof("malformed proof bytes".to_owned()));
            },
        };
        self.verify(&proof)
    }
}

/// Whether a hex string decodes to one canonical field element.
pub open spec fn spec_hex_fe_ok(s: Seq<char>) -> bool {
    hex_valid(s) && hex_bytes(s).len() == 32 && fe_canon(hex_bytes(s))
}

/// Decode a hex-encoded field element.
fn hex_fe(s: &str) -> (r: Option<Fe>)
    ensures
        r is Some <==> spec_hex_fe_ok(s@),
        r is Some ==> r->Some_0@ == hex_bytes(s@),
{
    match hex_decode(s) {
        Some(b) => Fe::from_bytes(b),
        None => None,
    }
}

/// Verify a country proof from its hex-encoded wire form: true exactly
/// when the proof and the public input decode and the pairing check over
/// the commitment as the sole public input passes. Malformed input never
/// panics; it verifies as false.
pub fn verify_country_proof(vk_bytes: &Vec<u8>, proof_hex: &str, public_input_hex: &str) -> (r:
    bool)
    ensures
        r == (hex_valid(proof_hex@) && spec_hex_fe_ok(public_input_hex@) && groth16_verdict(
            vk_bytes@,
            seq![hex_bytes(public_input_hex@)],
            hex_bytes(proof_hex@),
        ) == Some(true)),
{
    let proof_bytes = match hex_decode(proof_hex) {
        Some(b) => b,
        None => {
            return false;
        },
    };
    let public_input = match hex_fe(public_input_hex) {
        Some(f) => f,
        None => {
            return false;
        },
    };
    let mut inputs: Vec<Fe> = Vec::new();
    inputs.push(public_input);
    proof {
        assert(fe_views(inputs@) =~= seq![hex_bytes(public_input_hex@)]);
    }
    match groth16_verify(vk_bytes, &inputs, &proof_bytes) {
        Some(valid) => valid,
        None => false,
    }
}

/// Verify an email domain proof from its hex-encoded wire form: true
/// exactly when everything decodes and the pairing check over the public
/// inputs (the domain hash, then the commitment) passes. Malformed input
/// never panics; it verifies as false.
pub fn verify_email_proof(
    vk_bytes: &Vec<u8>,
    proof_hex: &str,
    domain_hash_hex: &str,
    commitment_hex: &str,
) -> (r: bool)
    ensures
        r == (hex_valid(proof_hex@) && spec_hex_fe_ok(domain_hash_hex@) && spec_hex_fe_ok(
            commitment_hex@,
        ) && groth16_verdict(
            vk_bytes@,
            seq![hex_bytes(domain_hash_hex@), hex_bytes(commitment_hex@)],
            hex_bytes(proof_hex@),
        ) == Some(true)),
{
    let proof_bytes = match hex_decode(proof_hex) {
        Some(b) => b,
        None => {
            return false;
        },
    };
    let domain_hash = match hex_fe(domain_hash_hex) {
        Some(f) => f,
        None => {
            return false;
        },
    };
    let commitment = match hex_fe(commitment_hex) {
        Some(f) => f,
        None => {
            return false;
        },
    };
    let mut inputs: Vec<Fe> = Vec::new();
    inputs.push(domain_hash);
    inputs.push(commitment);
    proof {
        assert(fe_views(inputs@) =~= seq![
            hex_bytes(domain_hash_hex@),
            hex_bytes(commitment_hex@),
        ]);
    }
    match groth16_verify(vk_bytes, &inputs, &proof_bytes) {
        Some(valid) => valid,
        None => false,
    }
}

/// Verification result with additional metadata.
pub struct VerificationReport {
    /// Whether the proof is valid.
    pub is_valid: bool,
    /// The Merkle root the proof was verified against.
    pub merkle_root: Fe,
    /// Size of the proof in bytes.
    pub proof_size: usize,
}

impl Verifier {
    /// Verify and produce a detailed report.
    pub fn verify_with_report(&self, proof: &MembershipProof) -> (r: Result<
        VerificationReport,
        VerifierError,
    >)
        ensures
            match r {
                Ok(rep) => groth16_verdict(
                    self.vk_view(),
                    seq![proof.input_view()],
                    proof.proof_view(),
                ) == Some(rep.is_valid) && rep.merkle_root@ == proof.input_view()
                    && rep.proof_size == 160,
                Err(e) => groth16_verdict(
                    self.vk_view(),
                    seq![proof.input_view()],
                    proof.proof_view(),
                ) is None && e is VerificationFailed,
            },
    {
        let is_valid = match self.verify(proof) {
            Ok(v) => v,
            Err(e) => {
                return Err(e);
            },
        };
        Ok(
            VerificationReport {
                is_valid,
                merkle_root: proof.public_input().dup(),
                proof_size: proof.size(),
            },
        )
    }
}

} // verus!
