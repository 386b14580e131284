//! Membership proofs and their byte form.
//!
//! A membership proof couples the compressed Groth16 proof bytes with the
//! public input, the Merkle root. The Groth16 prover itself runs in the
//! host layer, which also holds the proving key; the byte codec and the
//! witness checks live here.

use vstd::prelude::*;

use ark_serialize::CanonicalDeserialize;

use crate::field::{Fe, fe_canon};
use crate::merkle_proof::MerkleProofCircuit;
use crate::tree::MerklePath;

verus! {

/// Whether 128 bytes are a well-formed compressed Groth16 proof over
/// BN254: two group-1 points and one group-2 point that deserialize.
pub uninterp spec fn proof_canon(b: Seq<u8>) -> bool;

/// Relies on ark_groth16 / ark_serialize: `Proof::<Bn254>` deserializes
/// from exactly 128 compressed bytes, deterministically in the bytes,
/// validating that the points lie on the curve and in the subgroup.
#[verifier::external_body]
pub fn proof_check(b: &Vec<u8>) -> (r: bool)
    requires
        b@.len() == 128,
    ensures
        r == proof_canon(b@),
{
    ark_groth16::Proof::<ark_bn254::Bn254>::deserialize_compressed(&b[..]).is_ok()
}

/// Errors that can occur during proving.
#[derive(Debug)]
pub enum ProverError {
    /// Trusted setup failed.
    SetupFailed(String),
    /// Proof generation failed.
    ProofGenerationFailed(String),
    /// Serialization error.
    SerializationError(String),
    /// IO error.
    IoError(String),
    /// Leaf not found in tree.
    LeafNotFound,
}

/// Groth16 proof of Merkle membership: the compressed proof bytes and the
/// public input (the Merkle root).
pub struct MembershipProof {
    pub(crate) proof_bytes: Vec<u8>,
    pub(crate) public_input: Fe,
}

impl MembershipProof {
    #[verifier::type_invariant]
    closed spec fn wf(self) -> bool {
        self.proof_bytes@.len() == 128 && proof_canon(self.proof_bytes@)
    }

    /// The compressed proof bytes.
    pub closed spec fn proof_view(&self) -> Seq<u8> {
        self.proof_bytes@
    }

    /// The canonical encoding of the public input.
    pub closed spec fn input_view(&self) -> Seq<u8> {
        self.public_input@
    }

    /// Assemble a proof from its parts; accepts exactly 128 well-formed
    /// compressed proof bytes.
    pub fn new(proof_bytes: Vec<u8>, public_input: Fe) -> (r: Option<MembershipProof>)
        ensures
            r is Some <==> (proof_bytes@.len() == 128 && proof_canon(proof_bytes@)),
            r is Some ==> r->Some_0.proof_view() == proof_bytes@ && r->Some_0.input_view()
                == public_input@,
    {
        if proof_bytes.len() == 128 && proof_check(&proof_bytes) {
            Some(MembershipProof { proof_bytes, public_input })
        } else {
            None
        }
    }

    /// The public input: the Merkle root the proof speaks of.
    pub fn public_input(&self) -> (r: &Fe)
        ensures
            r@ == self.input_view(),
    {
        &self.public_input
    }

    /// Serialize: the proof bytes followed by the public input's 32-byte
    /// encoding.
    pub fn to_bytes(&self) -> (r: Vec<u8>)
        ensures
            r@ == self.proof_view() + self.input_view(),
            r@.len() == 160,
            r@.subrange(0, 128) == self.proof_view(),
            r@.subrange(128, 160) == self.input_view(),
            proof_canon(self.proof_view()),
            fe_canon(self.input_view()),
    {
        proof {
            use_type_invariant(self);
            use_type_invariant(&self.public_input);
        }
        let mut r: Vec<u8> = Vec::new();
        let mut i: usize = 0;
        while i < self.proof_bytes.len()
            invariant
                i <= self.proof_bytes@.len(),
                r@ == self.proof_bytes@.subrange(0, i as int),
            decreases self.proof_bytes@.len() - i,
        {
            r.push(self.proof_bytes[i]);
            i = i + 1;
        }
        proof {
            assert(r@ =~= self.proof_bytes@);
        }
        let mut input_bytes = self.public_input.to_bytes();
        r.append(&mut input_bytes);
        proof {
            assert(r@.subrange(0, 128) =~= self.proof_view());
            assert(r@.subrange(128, 160) =~= self.input_view());
        }
        r
    }

    /// Deserialize: the first 128 bytes must be a well-formed proof, the
    /// next 32 a canonical field element; anything past that is ignored.
    pub fn from_bytes(bytes: &[u8]) -> (r: Result<MembershipProof, ProverError>)
        ensures
            r is Ok <==> spec_membership_bytes_valid(bytes@),
            r is Ok ==> r->Ok_0.proof_view() == bytes@.subrange(0, 128) && r->Ok_0.input_view()
                == bytes@.subrange(128, 160),
            r is Err ==> r->Err_0 is SerializationError,
    {
        if bytes.len() < 160 {
            return Err(ProverError::SerializationError("proof bytes truncated".to_owned()));
        }
        let proof_part = vstd::slice::slice_to_vec(vstd::slice::slice_subrange(bytes, 0, 128));
        proof {
            assert(proof_part@ =~= bytes@.subrange(0, 128));
        }
        if !proof_check(&proof_part) {
            return Err(ProverError::SerializationError("malformed proof encoding".to_owned()));
        }
        let input_part = vstd::slice::slice_to_vec(vstd::slice::slice_subrange(bytes, 128, 160));
        proof {
            assert(input_part@ =~= bytes@.subrange(128, 160));
        }
        match Fe::from_bytes(input_part) {
            Some(fe) => Ok(MembershipProof { proof_bytes: proof_part, public_input: fe }),
            None => Err(ProverError::SerializationError("malformed public input".to_owned())),
        }
    }

    /// The size of this proof in bytes.
    pub fn size(&self) -> (r: usize)
        ensures
            r == 160,
    {
        let b = self.to_bytes();
        b.len()
    }
}

/// The bytes `MembershipProof::from_bytes` accepts.
pub open spec fn spec_membership_bytes_valid(b: Seq<u8>) -> bool {
    &&& b.len() >= 160
    &&& proof_canon(b.subrange(0, 128))
    &&& fe_canon(b.subrange(128, 160))
}

/// Round trip of the membership proof codec: the serialized form is
/// accepted back and parses into the same proof and public input.
pub proof fn lemma_membership_round_trip(proof: Seq<u8>, input: Seq<u8>)
    requires
        proof.len() == 128,
        proof_canon(proof),
        input.len() == 32,
        fe_canon(input),
    ensures
        spec_membership_bytes_valid(proof + input),
        (proof + input).subrange(0, 128) == proof,
        (proof + input).subrange(128, 160) == input,
{
    assert((proof + input).subrange(0, 128) =~= proof);
    assert((proof + input).subrange(128, 160) =~= input);
}

/// The witness check made before proving: the path must match the depth
/// the proving key was set up for; otherwise no proof is attempted.
pub fn membership_circuit_for_depth(path: &MerklePath, root: Fe, depth: usize) -> (r: Result<
    MerkleProofCircuit,
    ProverError,
>)
    ensures
        r is Ok <==> path.siblings@.len() == depth,
        r is Err ==> r->Err_0 is ProofGenerationFailed,
        r is Ok ==> {
            let c = r->Ok_0;
            &&& c.leaf@ == path.leaf@
            &&& c.path_indices@ == path.indices@
            &&& c.root@ == root@
            &&& (c.spec_satisfied() <==> path.spec_root() == root@)
        },
{
    let circuit = MerkleProofCircuit::new_with_witness(path, root);
    if circuit.depth() != depth {
        return Err(
            ProverError::ProofGenerationFailed(
                "path depth does not match prover setup depth".to_owned(),
            ),
        );
    }
    Ok(circuit)
}

/// Encode a proving-key file: a 4-byte little-endian depth header,
/// followed by the key bytes.
pub fn pk_file_encode(depth: u32, pk_bytes: &Vec<u8>) -> (r: Vec<u8>)
    ensures
        r@ == vstd::bytes::spec_u32_to_le_bytes(depth) + pk_bytes@,
{
    let mut r = vstd::bytes::u32_to_le_bytes(depth);
    let mut i: usize = 0;
    while i < pk_bytes.len()
        invariant
            i <= pk_bytes@.len(),
            r@ == vstd::bytes::spec_u32_to_le_bytes(depth) + pk_bytes@.subrange(0, i as int),
        decreases pk_bytes@.len() - i,
    {
        proof {
            assert(vstd::bytes::spec_u32_to_le_bytes(depth) + pk_bytes@.subrange(0, i + 1)
                =~= (vstd::bytes::spec_u32_to_le_bytes(depth) + pk_bytes@.subrange(
                0,
                i as int,
            )).push(pk_bytes@[i as int]));
        }
        r.push(pk_bytes[i]);
        i = i + 1;
    }
    proof {
        assert(pk_bytes@.subrange(0, pk_bytes@.len() as int) =~= pk_bytes@);
    }
    r
}

/// Decode a proving-key file into the depth header and the key bytes;
/// fails exactly on fewer than 4 bytes.
pub fn pk_file_decode(bytes: &[u8]) -> (r: Result<(u32, Vec<u8>), ProverError>)
    ensures
        r is Ok <==> bytes@.len() >= 4,
        r is Ok ==> {
            let (d, pk) = r->Ok_0;
            &&& d == vstd::bytes::spec_u32_from_le_bytes(bytes@.subrange(0, 4))
            &&& pk@ == bytes@.subrange(4, bytes@.len() as int)
        },
        r is Err ==> r->Err_0 is SerializationError,
{
    if bytes.len() < 4 {
        return Err(ProverError::SerializationError("key file truncated".to_owned()));
    }
    let depth = vstd::bytes::u32_from_le_bytes(vstd::slice::slice_subrange(bytes, 0, 4));
    let rest = vstd::slice::slice_to_vec(
        vstd::slice::slice_subrange(bytes, 4, bytes.len()),
    );
    Ok((depth, rest))
}

/// Round trip of the proving-key file framing.
pub proof fn lemma_pk_file_round_trip(depth: u32, pk: Seq<u8>)
    ensures
        (vstd::bytes::spec_u32_to_le_bytes(depth) + pk).len() >= 4,
        vstd::bytes::spec_u32_from_le_bytes(
            (vstd::bytes::spec_u32_to_le_bytes(depth) + pk).subrange(0, 4),
        ) == depth,
        (vstd::bytes::spec_u32_to_le_bytes(depth) + pk).subrange(
            4,
            (vstd::bytes::spec_u32_to_le_bytes(depth) + pk).len() as int,
        ) == pk,
{
    vstd::bytes::lemma_auto_spec_u32_to_from_le_bytes();
    let b = vstd::bytes::spec_u32_to_le_bytes(depth) + pk;
    assert(b.subrange(0, 4) =~= vstd::bytes::spec_u32_to_le_bytes(depth));
    assert(b.subrange(4, b.len() as int) =~= pk);
}

} // verus!
