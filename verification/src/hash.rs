//! Poseidon hashing over the BN254 scalar field.
//!
//! The hasher carries the parameter seed tables from which the round
//! constants and the MDS matrix are built: round constant `(r, i)` is the
//! field element of seed `ark_seeds[r][i]`, and MDS entry `(i, j)` is the
//! multiplicative inverse of the field element of seed `mds_seeds[i][j]`.
//! The derivation of the seeds is verified here; the sponge itself runs in
//! the outside crate behind one trusted wrapper.

use vstd::prelude::*;

use ark_bn254::Fr;
use ark_crypto_primitives::sponge::poseidon::{PoseidonConfig, PoseidonSponge};
use ark_crypto_primitives::sponge::{CryptographicSponge, FieldBasedCryptographicSponge};
use ark_ff::Field;
use ark_serialize::{CanonicalDeserialize, CanonicalSerialize};

use crate::field::{Fe, fe_of_be, hex_bytes, hex_decode, hex_valid};

verus! {

/// Element squeezed by the Poseidon sponge, over the crate's fixed
/// parameter set, as a function of the canonical encodings of the
/// absorbed elements.
pub uninterp spec fn poseidon_of(inputs: Seq<Seq<u8>>) -> Seq<u8>;

/// Poseidon hash of two elements.
pub open spec fn poseidon2(a: Seq<u8>, b: Seq<u8>) -> Seq<u8> {
    poseidon_of(seq![a, b])
}

/// The canonical encodings of a sequence of field elements.
pub open spec fn fe_views(s: Seq<Fe>) -> Seq<Seq<u8>> {
    Seq::new(s.len(), |i: int| s[i]@)
}

/// Seed of round constant `(r, i)`: the round-robin index multiplied,
/// wrapping, by a 64-bit mixing constant.
pub open spec fn ark_seed_spec(r: int, i: int) -> u64 {
    vstd::wrapping::u64_specs::wrapping_mul((r * 3 + i) as u64, 0x9e3779b97f4a7c15u64)
}

/// Seed of MDS entry `(i, j)`: the entry itself is the inverse of the
/// field element of `i + j + width + 2`, with `width = 3`.
pub open spec fn mds_seed_spec(i: int, j: int) -> u64 {
    (i + j + 5) as u64
}

/// The views of a table of seed rows.
pub open spec fn seed_rows(s: Seq<Vec<u64>>) -> Seq<Seq<u64>> {
    Seq::new(s.len(), |i: int| s[i]@)
}

/// Serialized form of the Poseidon configuration built from round counts,
/// S-box exponent, rate, capacity and the two seed tables: round constant
/// `(r, i)` is the field element of `ark[r][i]`, and MDS entry `(i, j)`
/// is the inverse of the field element of `mds[i][j]`.
pub uninterp spec fn poseidon_config_bytes(
    full_rounds: usize,
    partial_rounds: usize,
    alpha: u64,
    rate: usize,
    capacity: usize,
    ark: Seq<Seq<u64>>,
    mds: Seq<Seq<u64>>,
) -> Seq<u8>;

/// Relies on ark_crypto_primitives and ark_serialize: building a
/// `PoseidonConfig` from the given parameters and serializing it
/// compressed is deterministic in the arguments. The MDS seeds must be
/// nonzero so that their field inverses exist.
#[verifier::external_body]
fn build_config_bytes(
    full_rounds: usize,
    partial_rounds: usize,
    alpha: u64,
    rate: usize,
    capacity: usize,
    ark_seeds: &Vec<Vec<u64>>,
    mds_seeds: &Vec<Vec<u64>>,
) -> (r: Vec<u8>)
    requires
        ark_seeds@.len() == full_rounds + partial_rounds,
        forall|i: int| 0 <= i < ark_seeds@.len() ==> (#[trigger] ark_seeds@[i])@.len() == rate
            + capacity,
        mds_seeds@.len() == rate + capacity,
        forall|i: int| 0 <= i < mds_seeds@.len() ==> (#[trigger] mds_seeds@[i])@.len() == rate
            + capacity,
        forall|i: int, j: int|
            0 <= i < mds_seeds@.len() && 0 <= j < mds_seeds@[i]@.len()
                ==> #[trigger] mds_seeds@[i]@[j] >= 1,
    ensures
        r@ == poseidon_config_bytes(
            full_rounds,
            partial_rounds,
            alpha,
            rate,
            capacity,
            seed_rows(ark_seeds@),
            seed_rows(mds_seeds@),
        ),
{
    let ark: Vec<Vec<Fr>> = ark_seeds.iter().map(|r| r.iter().map(|s| Fr::from(*s)).collect()).collect();
    let mds: Vec<Vec<Fr>> = mds_seeds.iter().map(
        |r| r.iter().map(|s| Fr::from(*s).inverse().unwrap()).collect(),
    ).collect();
    let cfg = PoseidonConfig::new(full_rounds, partial_rounds, alpha, mds, ark, rate, capacity);
    let mut b = Vec::new();
    cfg.serialize_compressed(&mut b).unwrap();
    b
}

/// Poseidon hasher configured for the BN254 scalar field: 8 full rounds,
/// 57 partial rounds, S-box exponent 5, rate 2 and capacity 1.
pub struct PoseidonHasher {
    config_bytes: Vec<u8>,
    ark_seeds: Vec<Vec<u64>>,
    mds_seeds: Vec<Vec<u64>>,
}

impl PoseidonHasher {
    #[verifier::type_invariant]
    closed spec fn inv(self) -> bool {
        &&& self.ark_seeds@.len() == 65
        &&& forall|r: int| 0 <= r < 65 ==> (#[trigger] self.ark_seeds@[r])@.len() == 3
        &&& forall|r: int, i: int|
            0 <= r < 65 && 0 <= i < 3 ==> #[trigger] self.ark_seeds@[r]@[i] == ark_seed_spec(r, i)
        &&& self.mds_seeds@.len() == 3
        &&& forall|i: int| 0 <= i < 3 ==> (#[trigger] self.mds_seeds@[i])@.len() == 3
        &&& forall|i: int, j: int|
            0 <= i < 3 && 0 <= j < 3 ==> #[trigger] self.mds_seeds@[i]@[j] == mds_seed_spec(i, j)
        &&& self.config_bytes@ == poseidon_config_bytes(
            8,
            57,
            5,
            2,
            1,
            seed_rows(self.ark_seeds@),
            seed_rows(self.mds_seeds@),
        )
    }

    /// Create a new Poseidon hasher with the crate's fixed parameters.
    pub fn new() -> (r: PoseidonHasher) {
        let mut ark_seeds: Vec<Vec<u64>> = Vec::new();
        let mut rr: usize = 0;
        while rr < 65
            invariant
                rr <= 65,
                ark_seeds@.len() == rr,
                forall|r: int| 0 <= r < rr ==> (#[trigger] ark_seeds@[r])@.len() == 3,
                forall|r: int, i: int|
                    0 <= r < rr && 0 <= i < 3 ==> #[trigger] ark_seeds@[r]@[i] == ark_seed_spec(
                        r,
                        i,
                    ),
            decreases 65 - rr,
        {
            let mut row: Vec<u64> = Vec::new();
            let mut i: usize = 0;
            while i < 3
                invariant
                    i <= 3,
                    rr < 65,
                    row@.len() == i,
                    forall|k: int|
                        0 <= k < i ==> #[trigger] row@[k] == ark_seed_spec(rr as int, k),
                decreases 3 - i,
            {
                let idx: u64 = (rr * 3 + i) as u64;
                row.push(idx.wrapping_mul(0x9e3779b97f4a7c15));
                i = i + 1;
            }
            ark_seeds.push(row);
            rr = rr + 1;
        }
        let mut mds_seeds: Vec<Vec<u64>> = Vec::new();
        let mut mi: usize = 0;
        while mi < 3
            invariant
                mi <= 3,
                mds_seeds@.len() == mi,
                forall|i: int| 0 <= i < mi ==> (#[trigger] mds_seeds@[i])@.len() == 3,
                forall|i: int, j: int|
                    0 <= i < mi && 0 <= j < 3 ==> #[trigger] mds_seeds@[i]@[j] == mds_seed_spec(
                        i,
                        j,
                    ),
            decreases 3 - mi,
        {
            let mut row: Vec<u64> = Vec::new();
            let mut j: usize = 0;
            while j < 3
                invariant
                    j <= 3,
                    mi < 3,
                    row@.len() == j,
                    forall|k: int|
                        0 <= k < j ==> #[trigger] row@[k] == mds_seed_spec(mi as int, k),
                decreases 3 - j,
            {
                row.push((mi + j + 5) as u64);
                j = j + 1;
            }
            mds_seeds.push(row);
            mi = mi + 1;
        }
        let config_bytes = build_config_bytes(8, 57, 5, 2, 1, &ark_seeds, &mds_seeds);
        PoseidonHasher { config_bytes, ark_seeds, mds_seeds }
    }

    /// Hash two field elements into one.
    pub fn hash_two(&self, left: &Fe, right: &Fe) -> (r: Fe)
        ensures
            r@ == poseidon2(left@, right@),
    {
        let mut v: Vec<Fe> = Vec::new();
        v.push(left.dup());
        v.push(right.dup());
        let r = sponge_hash(self, &v);
        proof {
            assert(fe_views(v@) =~= seq![left@, right@]);
        }
        r
    }

    /// Hash a sequence of field elements into one.
    pub fn hash_many(&self, elements: &Vec<Fe>) -> (r: Fe)
        ensures
            r@ == poseidon_of(fe_views(elements@)),
    {
        sponge_hash(self, elements)
    }

    /// The seed table of the round constants.
    pub fn ark_seed_table(&self) -> (r: &Vec<Vec<u64>>)
        ensures
            r@.len() == 65,
            forall|i: int| 0 <= i < 65 ==> (#[trigger] r@[i])@.len() == 3,
            forall|i: int, j: int|
                0 <= i < 65 && 0 <= j < 3 ==> #[trigger] r@[i]@[j] == ark_seed_spec(i, j),
    {
        proof {
            use_type_invariant(self);
        }
        &self.ark_seeds
    }

    /// The seed table of the MDS matrix.
    pub fn mds_seed_table(&self) -> (r: &Vec<Vec<u64>>)
        ensures
            r@.len() == 3,
            forall|i: int| 0 <= i < 3 ==> (#[trigger] r@[i])@.len() == 3,
            forall|i: int, j: int|
                0 <= i < 3 && 0 <= j < 3 ==> #[trigger] r@[i]@[j] == mds_seed_spec(i, j),
    {
        proof {
            use_type_invariant(self);
        }
        &self.mds_seeds
    }
}

/// Relies on ark_crypto_primitives' `PoseidonSponge`: for a fixed
/// configuration, absorbing the inputs in order and squeezing one element
/// is deterministic, so the result is a function of the inputs alone. The
/// hasher's type invariant pins its serialized configuration to the
/// crate's fixed parameter set.
#[verifier::external_body]
fn sponge_hash(h: &PoseidonHasher, inputs: &Vec<Fe>) -> (r: Fe)
    ensures
        r@ == poseidon_of(fe_views(inputs@)),
{
    let cfg = PoseidonConfig::<Fr>::deserialize_compressed(&h.config_bytes[..]).unwrap();
    let mut sponge = PoseidonSponge::new(&cfg);
    for x in inputs.iter() {
        sponge.absorb(&Fr::deserialize_compressed(&x.bytes[..]).unwrap());
    }
    let mut bytes = Vec::new();
    sponge.squeeze_native_field_elements(1)[0].serialize_compressed(&mut bytes).unwrap();
    Fe { bytes }
}

/// Convert bytes to a field element by big-endian reduction.
pub fn bytes_to_field(bytes: &[u8]) -> (r: Fe)
    ensures
        r@ == fe_of_be(bytes@),
{
    Fe::from_be_bytes(bytes)
}

/// Convert a hex string to a field element by big-endian reduction;
/// `None` exactly on a string that is no well-formed hex encoding.
pub fn hex_to_field(hex_str: &str) -> (r: Option<Fe>)
    ensures
        r is Some <==> hex_valid(hex_str@),
        r is Some ==> r->Some_0@ == fe_of_be(hex_bytes(hex_str@)),
{
    match hex_decode(hex_str) {
        Some(b) => Some(Fe::from_be_bytes(b.as_slice())),
        None => None,
    }
}

} // verus!
