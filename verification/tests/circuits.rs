use ark_bn254::{Bn254, Fr};
use ark_crypto_primitives::sponge::constraints::CryptographicSpongeVar;
use ark_crypto_primitives::sponge::poseidon::constraints::PoseidonSpongeVar;
use ark_crypto_primitives::sponge::poseidon::{PoseidonConfig, PoseidonSponge};
use ark_crypto_primitives::sponge::CryptographicSponge;
use ark_ff::Field;
use ark_r1cs_std::alloc::AllocVar;
use ark_r1cs_std::boolean::Boolean;
use ark_r1cs_std::eq::EqGadget;
use ark_r1cs_std::fields::fp::FpVar;
use ark_r1cs_std::select::CondSelectGadget;
use ark_relations::r1cs::{
    ConstraintSynthesizer, ConstraintSystem, ConstraintSystemRef, SynthesisError,
};
use ark_serialize::{CanonicalDeserialize, CanonicalSerialize};
use ark_snark::SNARK;
use ark_std::rand::rngs::StdRng;
use ark_std::rand::SeedableRng;

use zkvault::country_proof::{CountryProofCircuit, ScaledBounds};
use zkvault::email_proof::{EmailDomainCircuit, EmailProofInput};
use zkvault::field::Fe;
use zkvault::hash::PoseidonHasher;
use zkvault::merkle_proof::MerkleProofCircuit;
use zkvault::prover::MembershipProof;
use zkvault::tree::MerkleTree;
use zkvault::verification::{Verifier, VerifierError};

fn fe_to_fr(fe: &Fe) -> Fr {
    Fr::deserialize_compressed(&fe.to_bytes()[..]).unwrap()
}

fn poseidon_config() -> PoseidonConfig<Fr> {
    let h = PoseidonHasher::new();
    let ark: Vec<Vec<Fr>> = h
        .ark_seed_table()
        .iter()
        .map(|row| row.iter().map(|s| Fr::from(*s)).collect())
        .collect();
    let mds: Vec<Vec<Fr>> = h
        .mds_seed_table()
        .iter()
        .map(|row| {
            row.iter()
                .map(|s| Fr::from(*s).inverse().unwrap_or(Fr::from(1u64)))
                .collect()
        })
        .collect();
    PoseidonConfig::new(8, 57, 5, mds, ark, 2, 1)
}

fn hash_gadget(
    cs: ConstraintSystemRef<Fr>,
    config: &PoseidonConfig<Fr>,
    inputs: &[&FpVar<Fr>],
) -> Result<FpVar<Fr>, SynthesisError> {
    let mut sponge = PoseidonSpongeVar::new(cs, config);
    for x in inputs {
        sponge.absorb(x)?;
    }
    let out = sponge.squeeze_field_elements(1)?;
    Ok(out[0].clone())
}

struct MembershipTestCircuit {
    config: PoseidonConfig<Fr>,
    leaf: Fr,
    path: Vec<Fr>,
    indices: Vec<bool>,
    root: Fr,
}

impl ConstraintSynthesizer<Fr> for MembershipTestCircuit {
    fn generate_constraints(self, cs: ConstraintSystemRef<Fr>) -> Result<(), SynthesisError> {
        let leaf_var = FpVar::new_witness(cs.clone(), || Ok(self.leaf))?;
        let root_var = FpVar::new_input(cs.clone(), || Ok(self.root))?;
        let path_vars: Vec<FpVar<Fr>> = self
            .path
            .iter()
            .map(|s| FpVar::new_witness(cs.clone(), || Ok(*s)))
            .collect::<Result<Vec<_>, _>>()?;
        let index_vars: Vec<Boolean<Fr>> = self
            .indices
            .iter()
            .map(|b| Boolean::new_witness(cs.clone(), || Ok(*b)))
            .collect::<Result<Vec<_>, _>>()?;

        let mut current = leaf_var;
        for (sibling, is_right) in path_vars.iter().zip(index_vars.iter()) {
            let left = FpVar::conditionally_select(is_right, sibling, &current)?;
            let right = FpVar::conditionally_select(is_right, &current, sibling)?;
            current = hash_gadget(cs.clone(), &self.config, &[&left, &right])?;
        }
        current.enforce_equal(&root_var)?;
        Ok(())
    }
}

fn membership_test_circuit(c: &MerkleProofCircuit) -> MembershipTestCircuit {
    MembershipTestCircuit {
        config: poseidon_config(),
        leaf: fe_to_fr(&c.leaf),
        path: c.path.iter().map(fe_to_fr).collect(),
        indices: c.path_indices.clone(),
        root: fe_to_fr(&c.root),
    }
}

struct CountryTestCircuit {
    config: PoseidonConfig<Fr>,
    latitude: Fr,
    longitude: Fr,
    country_id: Fr,
    commitment: Fr,
}

impl ConstraintSynthesizer<Fr> for CountryTestCircuit {
    fn generate_constraints(self, cs: ConstraintSystemRef<Fr>) -> Result<(), SynthesisError> {
        let lat_var = FpVar::new_witness(cs.clone(), || Ok(self.latitude))?;
        let lng_var = FpVar::new_witness(cs.clone(), || Ok(self.longitude))?;
        let country_var = FpVar::new_witness(cs.clone(), || Ok(self.country_id))?;
        let commitment_var = FpVar::new_input(cs.clone(), || Ok(self.commitment))?;
        let computed = hash_gadget(
            cs.clone(),
            &self.config,
            &[&lat_var, &lng_var, &country_var],
        )?;
        computed.enforce_equal(&commitment_var)?;
        Ok(())
    }
}

fn country_test_circuit(c: &CountryProofCircuit) -> CountryTestCircuit {
    CountryTestCircuit {
        config: poseidon_config(),
        latitude: fe_to_fr(&c.latitude),
        longitude: fe_to_fr(&c.longitude),
        country_id: fe_to_fr(&c.country_id),
        commitment: fe_to_fr(&c.commitment),
    }
}

struct EmailTestCircuit {
    config: PoseidonConfig<Fr>,
    email_hash: Fr,
    dkim_hash: Fr,
    nonce: Fr,
    domain_hash: Fr,
    commitment: Fr,
}

impl ConstraintSynthesizer<Fr> for EmailTestCircuit {
    fn generate_constraints(self, cs: ConstraintSystemRef<Fr>) -> Result<(), SynthesisError> {
        let email_var = FpVar::new_witness(cs.clone(), || Ok(self.email_hash))?;
        let dkim_var = FpVar::new_witness(cs.clone(), || Ok(self.dkim_hash))?;
        let nonce_var = FpVar::new_witness(cs.clone(), || Ok(self.nonce))?;
        let domain_var = FpVar::new_input(cs.clone(), || Ok(self.domain_hash))?;
        let commitment_var = FpVar::new_input(cs.clone(), || Ok(self.commitment))?;
        let computed = hash_gadget(
            cs.clone(),
            &self.config,
            &[&email_var, &domain_var, &dkim_var, &nonce_var],
        )?;
        computed.enforce_equal(&commitment_var)?;
        Ok(())
    }
}

fn email_test_circuit(c: &EmailDomainCircuit) -> EmailTestCircuit {
    EmailTestCircuit {
        config: poseidon_config(),
        email_hash: fe_to_fr(&c.email_hash),
        dkim_hash: fe_to_fr(&c.dkim_hash),
        nonce: fe_to_fr(&c.nonce),
        domain_hash: fe_to_fr(&c.domain_hash),
        commitment: fe_to_fr(&c.commitment),
    }
}

#[test]
fn test_poseidon_matches_sponge() {
    // The verified hasher must agree with a direct run of the outside
    // sponge on the same configuration.
    let hasher = PoseidonHasher::new();
    let out = hasher.hash_two(&Fe::from_u64(1), &Fe::from_u64(2));

    let config = poseidon_config();
    let mut sponge = PoseidonSponge::new(&config);
    sponge.absorb(&Fr::from(1u64));
    sponge.absorb(&Fr::from(2u64));
    let direct: Fr = sponge.squeeze_field_elements(1)[0];

    assert_eq!(fe_to_fr(&out), direct);
}

#[test]
fn test_circuit_satisfiability() {
    let leaves: Vec<Fe> = (0..8).map(|i| Fe::from_u64(i as u64)).collect();
    let tree = MerkleTree::new(leaves);

    let circuit = MerkleProofCircuit::from_tree(&tree, 3).unwrap();

    let cs = ConstraintSystem::<Fr>::new_ref();
    membership_test_circuit(&circuit)
        .generate_constraints(cs.clone())
        .unwrap();

    assert!(cs.is_satisfied().unwrap());
}

#[test]
fn test_circuit_with_wrong_root_fails() {
    let leaves: Vec<Fe> = (0..8).map(|i| Fe::from_u64(i as u64)).collect();
    let tree = MerkleTree::new(leaves);

    let path = tree.get_path(3).unwrap();
    let wrong_root = Fe::from_u64(999);
    let circuit = MerkleProofCircuit::new_with_witness(&path, wrong_root);

    let cs = ConstraintSystem::<Fr>::new_ref();
    membership_test_circuit(&circuit)
        .generate_constraints(cs.clone())
        .unwrap();

    assert!(!cs.is_satisfied().unwrap());
}

#[test]
fn merkle_proof_test_empty_circuit_for_setup() {
    let leaves: Vec<Fe> = (0..8).map(|i| Fe::from_u64(i as u64)).collect();
    let tree = MerkleTree::new(leaves);
    let circuit = MerkleProofCircuit::from_tree(&tree, 0).unwrap();

    let cs = ConstraintSystem::<Fr>::new_ref();
    membership_test_circuit(&circuit)
        .generate_constraints(cs.clone())
        .unwrap();
    assert!(cs.num_constraints() > 0);
}

#[test]
fn test_valid_circuit() {
    // San Francisco coordinates, scaled to microdegrees.
    let lat: i64 = 37_774_900;
    let lng: i64 = -122_419_400;

    // USA bounds.
    let bounds = ScaledBounds::new(24_396_308, 49_384_358, -125_000_000, -66_934_570);

    let circuit = CountryProofCircuit::new_with_witness(lat, lng, &bounds, "US");

    let cs = ConstraintSystem::<Fr>::new_ref();
    country_test_circuit(&circuit)
        .generate_constraints(cs.clone())
        .unwrap();

    assert!(cs.is_satisfied().unwrap(), "Circuit should be satisfied");
}

#[test]
fn country_proof_test_empty_circuit_for_setup() {
    let circuit = CountryProofCircuit::new_empty();

    let cs = ConstraintSystem::<Fr>::new_ref();
    country_test_circuit(&circuit)
        .generate_constraints(cs.clone())
        .unwrap();

    assert!(cs.is_satisfied().unwrap(), "Setup circuit should be satisfied");
}

#[test]
fn test_commitment_uniqueness() {
    let bounds = ScaledBounds::new(24_396_308, 49_384_358, -125_000_000, -66_934_570);

    // Two different locations should produce different commitments.
    let circuit1 = CountryProofCircuit::new_with_witness(37_774_900, -122_419_400, &bounds, "US");
    let circuit2 = CountryProofCircuit::new_with_witness(40_712_800, -74_006_000, &bounds, "US");

    assert_ne!(circuit1.get_commitment(), circuit2.get_commitment());
}

#[test]
fn test_email_circuit_valid() {
    let input = EmailProofInput::new("alice@google.com", "dkim-signature-data", "dkim=pass");

    let circuit = EmailDomainCircuit::new_with_witness(&input);

    let cs = ConstraintSystem::<Fr>::new_ref();
    email_test_circuit(&circuit)
        .generate_constraints(cs.clone())
        .unwrap();

    assert!(cs.is_satisfied().unwrap(), "Circuit should be satisfied");
}

#[test]
fn test_email_circuit_setup() {
    let circuit = EmailDomainCircuit::new_empty();

    let cs = ConstraintSystem::<Fr>::new_ref();
    email_test_circuit(&circuit)
        .generate_constraints(cs.clone())
        .unwrap();

    assert!(cs.is_satisfied().unwrap(), "Setup circuit should be satisfied");
}

#[test]
fn test_different_emails_different_commitments() {
    let input1 = EmailProofInput::new("alice@google.com", "sig1", "dkim=pass");
    let input2 = EmailProofInput::new("bob@google.com", "sig2", "dkim=pass");

    let circuit1 = EmailDomainCircuit::new_with_witness(&input1);
    let circuit2 = EmailDomainCircuit::new_with_witness(&input2);

    // Different emails should produce different commitments.
    assert_ne!(circuit1.get_commitment(), circuit2.get_commitment());

    // But same domain hash (both google.com).
    assert_eq!(circuit1.get_domain_hash(), circuit2.get_domain_hash());
}

fn setup_membership(depth: usize) -> (ark_groth16::ProvingKey<Bn254>, ark_groth16::VerifyingKey<Bn254>) {
    let empty = MerkleProofCircuit::new_empty(depth);
    let mut rng = StdRng::seed_from_u64(0xDEADBEEF);
    ark_groth16::Groth16::<Bn254>::circuit_specific_setup(membership_test_circuit(&empty), &mut rng)
        .unwrap()
}

fn prove_membership(
    pk: &ark_groth16::ProvingKey<Bn254>,
    tree: &MerkleTree,
    leaf: &Fe,
) -> MembershipProof {
    let idx = tree.find_leaf(leaf).unwrap();
    let path = tree.get_path(idx).unwrap();
    let circuit = MerkleProofCircuit::new_with_witness(&path, tree.root());
    let mut rng = StdRng::seed_from_u64(0xCAFEBABE);
    let proof = ark_groth16::Groth16::<Bn254>::prove(pk, membership_test_circuit(&circuit), &mut rng)
        .unwrap();
    let mut proof_bytes = Vec::new();
    proof.serialize_compressed(&mut proof_bytes).unwrap();
    MembershipProof::new(proof_bytes, tree.root()).unwrap()
}

fn vk_bytes(vk: &ark_groth16::VerifyingKey<Bn254>) -> Vec<u8> {
    let mut bytes = Vec::new();
    vk.serialize_compressed(&mut bytes).unwrap();
    bytes
}

#[test]
fn test_setup_and_prove() {
    let leaves: Vec<Fe> = (0..8).map(|i| Fe::from_u64(i as u64)).collect();
    let tree = MerkleTree::new(leaves);

    let (pk, vk) = setup_membership(tree.depth());
    let proof = prove_membership(&pk, &tree, &Fe::from_u64(3));

    let pvk = ark_groth16::Groth16::<Bn254>::process_vk(&vk).unwrap();
    let raw = proof.to_bytes();
    let groth_proof =
        ark_groth16::Proof::<Bn254>::deserialize_compressed(&raw[0..128]).unwrap();
    let valid = ark_groth16::Groth16::<Bn254>::verify_with_processed_vk(
        &pvk,
        &[fe_to_fr(&tree.root())],
        &groth_proof,
    )
    .unwrap();

    assert!(valid);
    assert!(proof.size() >= 160 && proof.size() <= 224);
}

#[test]
fn test_proof_serialization() {
    let leaves: Vec<Fe> = (0..4).map(|i| Fe::from_u64(i as u64)).collect();
    let tree = MerkleTree::new(leaves);

    let (pk, _vk) = setup_membership(tree.depth());
    let proof = prove_membership(&pk, &tree, &Fe::from_u64(2));

    // Serialize and deserialize
    let bytes = proof.to_bytes();
    let restored = MembershipProof::from_bytes(&bytes).unwrap();

    assert_eq!(proof.public_input(), restored.public_input());
    assert_eq!(proof.to_bytes(), restored.to_bytes());
}

#[test]
fn test_verify_valid_proof() {
    let leaves: Vec<Fe> = (0..8).map(|i| Fe::from_u64(i as u64)).collect();
    let tree = MerkleTree::new(leaves);

    let (pk, vk) = setup_membership(tree.depth());
    let verifier = Verifier::new(vk_bytes(&vk)).unwrap();

    let proof = prove_membership(&pk, &tree, &Fe::from_u64(5));
    assert!(verifier.verify(&proof).unwrap());
}

#[test]
fn test_verify_with_wrong_root() {
    let leaves: Vec<Fe> = (0..8).map(|i| Fe::from_u64(i as u64)).collect();
    let tree = MerkleTree::new(leaves);

    let (pk, vk) = setup_membership(tree.depth());
    let verifier = Verifier::new(vk_bytes(&vk)).unwrap();

    let proof = prove_membership(&pk, &tree, &Fe::from_u64(5));

    // Verify against wrong root
    let wrong_root = Fe::from_u64(999);
    let result = verifier.verify_with_root(&proof, &wrong_root);

    assert!(matches!(result, Err(VerifierError::RootMismatch)));
}

#[test]
fn test_verification_report() {
    let leaves: Vec<Fe> = (0..4).map(|i| Fe::from_u64(i as u64)).collect();
    let tree = MerkleTree::new(leaves);

    let (pk, vk) = setup_membership(tree.depth());
    let verifier = Verifier::new(vk_bytes(&vk)).unwrap();

    let proof = prove_membership(&pk, &tree, &Fe::from_u64(2));
    let report = verifier.verify_with_report(&proof).unwrap();

    assert!(report.is_valid);
    assert_eq!(report.merkle_root, tree.root());
    assert!(report.proof_size > 0);
}

#[test]
fn test_wrong_public_input_rejected() {
    // A proof bound to the tree's root must not verify against another
    // public input.
    let leaves: Vec<Fe> = (0..8).map(|i| Fe::from_u64(i as u64)).collect();
    let tree = MerkleTree::new(leaves);

    let (pk, vk) = setup_membership(tree.depth());
    let verifier = Verifier::new(vk_bytes(&vk)).unwrap();

    let proof = prove_membership(&pk, &tree, &Fe::from_u64(3));
    let raw = proof.to_bytes();
    let mut forged_bytes = raw[0..128].to_vec();
    let mut other_input = Fe::from_u64(999).to_bytes();
    forged_bytes.append(&mut other_input);
    let forged = MembershipProof::from_bytes(&forged_bytes).unwrap();

    assert_eq!(verifier.verify(&forged).unwrap(), false);
}

#[test]
fn test_verify_bytes_rejects_malformed() {
    let leaves: Vec<Fe> = (0..4).map(|i| Fe::from_u64(i as u64)).collect();
    let tree = MerkleTree::new(leaves);
    let (_pk, vk) = setup_membership(tree.depth());
    let verifier = Verifier::new(vk_bytes(&vk)).unwrap();

    let garbage = vec![7u8; 40];
    assert!(matches!(
        verifier.verify_bytes(&garbage),
        Err(VerifierError::InvalidProof(_))
    ));
}

#[test]
fn test_verifier_rejects_malformed_key() {
    let garbage = vec![1u8, 2, 3];
    assert!(matches!(
        Verifier::new(garbage),
        Err(VerifierError::SerializationError(_))
    ));
}

#[test]
fn test_country_proof_hex_round_trip() {
    // End-to-end over the hex wire form: prove a committed location tuple
    // and verify through the library's hex entry point.
    let circuit = CountryProofCircuit::new_empty();
    let mut rng = StdRng::seed_from_u64(0x5A4B);
    let (pk, vk) = ark_groth16::Groth16::<Bn254>::circuit_specific_setup(
        country_test_circuit(&circuit),
        &mut rng,
    )
    .unwrap();

    let bounds = ScaledBounds::new(24_396_308, 49_384_358, -125_000_000, -66_934_570);
    let witness = CountryProofCircuit::new_with_witness(37_774_900, -122_419_400, &bounds, "US");
    let commitment = witness.get_commitment();
    let proof = ark_groth16::Groth16::<Bn254>::prove(
        &pk,
        country_test_circuit(&witness),
        &mut rng,
    )
    .unwrap();
    let mut proof_bytes = Vec::new();
    proof.serialize_compressed(&mut proof_bytes).unwrap();

    let proof_hex = hex::encode(&proof_bytes);
    let input_hex = hex::encode(commitment.to_bytes());
    let vkb = vk_bytes(&vk);

    assert!(zkvault::verification::verify_country_proof(
        &vkb, &proof_hex, &input_hex
    ));
    // A different public input must not verify.
    let other_hex = hex::encode(Fe::from_u64(123).to_bytes());
    assert!(!zkvault::verification::verify_country_proof(
        &vkb, &proof_hex, &other_hex
    ));
}

#[test]
fn test_email_proof_hex_round_trip() {
    let circuit = EmailDomainCircuit::new_empty();
    let mut rng = StdRng::seed_from_u64(0x454D);
    let (pk, vk) = ark_groth16::Groth16::<Bn254>::circuit_specific_setup(
        email_test_circuit(&circuit),
        &mut rng,
    )
    .unwrap();

    let input = EmailProofInput::from_domain_with_dkim("google.com", true, "v=1;d=google.com;b=x");
    let witness = EmailDomainCircuit::new_with_witness(&input);
    let domain_hash = witness.get_domain_hash();
    let commitment = witness.get_commitment();
    let proof = ark_groth16::Groth16::<Bn254>::prove(&pk, email_test_circuit(&witness), &mut rng)
        .unwrap();
    let mut proof_bytes = Vec::new();
    proof.serialize_compressed(&mut proof_bytes).unwrap();

    let proof_hex = hex::encode(&proof_bytes);
    let domain_hex = hex::encode(domain_hash.to_bytes());
    let commitment_hex = hex::encode(commitment.to_bytes());
    let vkb = vk_bytes(&vk);

    assert!(zkvault::verification::verify_email_proof(
        &vkb,
        &proof_hex,
        &domain_hex,
        &commitment_hex
    ));
    assert!(!zkvault::verification::verify_email_proof(
        &vkb,
        &proof_hex,
        &commitment_hex,
        &domain_hex
    ));
}

#[test]
fn test_from_bytes_rejects_short_proof() {
    let bytes = vec![0u8; 10];
    let result = MembershipProof::from_bytes(&bytes);
    assert!(matches!(
        result,
        Err(zkvault::prover::ProverError::SerializationError(_))
    ));
}

#[test]
fn test_depth_gate_rejects_mismatched_path() {
    let leaves: Vec<Fe> = (0..8).map(|i| Fe::from_u64(i as u64)).collect();
    let tree = MerkleTree::new(leaves);
    let path = tree.get_path(2).unwrap();

    // The tree has depth 3; a prover set up for depth 4 must refuse.
    let result = zkvault::prover::membership_circuit_for_depth(&path, tree.root(), 4);
    assert!(matches!(
        result,
        Err(zkvault::prover::ProverError::ProofGenerationFailed(_))
    ));
    assert!(zkvault::prover::membership_circuit_for_depth(&path, tree.root(), 3).is_ok());
}

#[test]
fn test_pk_file_framing_round_trip() {
    let payload = vec![9u8, 8, 7, 6, 5];
    let framed = zkvault::prover::pk_file_encode(3, &payload);
    let (depth, rest) = zkvault::prover::pk_file_decode(&framed).unwrap();
    assert_eq!(depth, 3);
    assert_eq!(rest, payload);

    let short = vec![1u8, 2];
    assert!(zkvault::prover::pk_file_decode(&short).is_err());
}

#[test]
fn test_verify_fails_with_foreign_key() {
    // A verifying key set up for the email circuit expects two public
    // inputs; combining it with a one-input membership proof cannot run
    // the pairing check.
    let leaves: Vec<Fe> = (0..4).map(|i| Fe::from_u64(i as u64)).collect();
    let tree = MerkleTree::new(leaves);
    let (pk, _vk) = setup_membership(tree.depth());
    let proof = prove_membership(&pk, &tree, &Fe::from_u64(1));

    let email_circuit = EmailDomainCircuit::new_empty();
    let mut rng = StdRng::seed_from_u64(7);
    let (_epk, evk) = ark_groth16::Groth16::<Bn254>::circuit_specific_setup(
        email_test_circuit(&email_circuit),
        &mut rng,
    )
    .unwrap();
    let verifier = Verifier::new(vk_bytes(&evk)).unwrap();
    assert!(matches!(
        verifier.verify(&proof),
        Err(VerifierError::VerificationFailed(_))
    ));
}
