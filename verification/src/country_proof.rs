//! Country location proof circuit assignment.
//!
//! The assignment binds a commitment
//! `Poseidon(latitude, longitude, country_id)` to a fixed-point
//! coordinate pair and a country identifier. It does NOT range-check the
//! coordinates against the country's bounds in zero knowledge: the caller
//! must verify the bounds natively before committing, and the proof shows
//! only knowledge of a tuple under the commitment.

use vstd::prelude::*;

use crate::email_proof::{spec_str_field, string_to_field};
use crate::field::{Fe, fe_of_u64};
use crate::hash::{PoseidonHasher, fe_views, poseidon_of};
use crate::text::{to_ascii_upper, upper_chars};

verus! {

/// Scale factor for fixed-point coordinates (6 decimal places).
pub const COORD_SCALE: i64 = 1_000_000;

/// Field encoding of a country code: SHA-256 of the ASCII upper-cased
/// code, reduced modulo the field order.
pub fn country_code_to_field(code: &str) -> (r: Fe)
    ensures
        r@ == spec_str_field(upper_chars(code@)),
{
    let upper = to_ascii_upper(code);
    string_to_field(upper.as_str())
}

/// Country bounds as scaled microdegree integers.
pub struct ScaledBounds {
    pub min_lat: i64,
    pub max_lat: i64,
    pub min_lng: i64,
    pub max_lng: i64,
}

impl ScaledBounds {
    /// Bounds from already-scaled microdegree values.
    pub fn new(min_lat: i64, max_lat: i64, min_lng: i64, max_lng: i64) -> (r: ScaledBounds)
        ensures
            r.min_lat == min_lat,
            r.max_lat == max_lat,
            r.min_lng == min_lng,
            r.max_lng == max_lng,
    {
        ScaledBounds { min_lat, max_lat, min_lng, max_lng }
    }
}

/// The 64-bit two's-complement value of a signed integer, as the cast to
/// an unsigned word gives it.
pub open spec fn spec_i64_wrap(x: i64) -> u64 {
    if x >= 0 {
        x as u64
    } else {
        (x + 0x1_0000_0000_0000_0000) as u64
    }
}

/// Cast a signed microdegree value to the unsigned word the field
/// encoding uses, wrapping negatives.
pub fn i64_wrap(x: i64) -> (r: u64)
    ensures
        r == spec_i64_wrap(x),
{
    if x >= 0 {
        x as u64
    } else {
        let m = (-(x + 1)) as u64;
        u64::MAX - m
    }
}

/// Circuit assignment for proving a committed location tuple. The sole
/// public input is the commitment; the coordinates and the country
/// identifier are private witnesses. The rank-1 constraints the host
/// layer synthesizes from it enforce exactly `spec_satisfied`.
pub struct CountryProofCircuit {
    /// Private: latitude, as a field element of the scaled value.
    pub latitude: Fe,
    /// Private: longitude, as a field element of the shifted scaled value.
    pub longitude: Fe,
    /// Private: country identifier.
    pub country_id: Fe,
    /// Public: commitment to the location tuple.
    pub commitment: Fe,
}

impl CountryProofCircuit {
    /// What the constraints enforce: the commitment is the Poseidon hash
    /// of (latitude, longitude, country identifier).
    pub open spec fn spec_satisfied(&self) -> bool {
        self.commitment@ == poseidon_of(
            seq![self.latitude@, self.longitude@, self.country_id@],
        )
    }

    /// An assignment with zero values for the trusted setup; it is
    /// satisfiable, since the setup enumerates constraints over a
    /// consistent witness.
    pub fn new_empty() -> (r: CountryProofCircuit)
        ensures
            r.latitude@ == fe_of_u64(0),
            r.longitude@ == fe_of_u64(0),
            r.country_id@ == fe_of_u64(0),
            r.spec_satisfied(),
    {
        let hasher = PoseidonHasher::new();
        let latitude = Fe::from_u64(0);
        let longitude = Fe::from_u64(0);
        let country_id = Fe::from_u64(0);
        let mut inputs: Vec<Fe> = Vec::new();
        inputs.push(latitude.dup());
        inputs.push(longitude.dup());
        inputs.push(country_id.dup());
        let commitment = hasher.hash_many(&inputs);
        proof {
            assert(fe_views(inputs@) =~= seq![latitude@, longitude@, country_id@]);
        }
        CountryProofCircuit { latitude, longitude, country_id, commitment }
    }

    /// An assignment with actual witness values: the scaled latitude, the
    /// longitude shifted by 180 degrees to keep it non-negative, and the
    /// country code's field encoding. The caller must have verified the
    /// coordinates against the bounds before committing.
    pub fn new_with_witness(
        lat_scaled: i64,
        lng_scaled: i64,
        _bounds: &ScaledBounds,
        country_code: &str,
    ) -> (r: CountryProofCircuit)
        requires
            lng_scaled <= i64::MAX - 180_000_000,
        ensures
            r.latitude@ == fe_of_u64(spec_i64_wrap(lat_scaled)),
            r.longitude@ == fe_of_u64(spec_i64_wrap((lng_scaled + 180_000_000) as i64)),
            r.country_id@ == spec_str_field(upper_chars(country_code@)),
            r.spec_satisfied(),
    {
        let hasher = PoseidonHasher::new();
        let latitude = Fe::from_u64(i64_wrap(lat_scaled));
        let shifted: i64 = lng_scaled + 180 * COORD_SCALE;
        let longitude = Fe::from_u64(i64_wrap(shifted));
        let country_id = country_code_to_field(country_code);
        let mut inputs: Vec<Fe> = Vec::new();
        inputs.push(latitude.dup());
        inputs.push(longitude.dup());
        inputs.push(country_id.dup());
        let commitment = hasher.hash_many(&inputs);
        proof {
            assert(fe_views(inputs@) =~= seq![latitude@, longitude@, country_id@]);
        }
        CountryProofCircuit { latitude, longitude, country_id, commitment }
    }

    /// The commitment (the sole public input).
    pub fn get_commitment(&self) -> (r: Fe)
        ensures
            r@ == self.commitment@,
    {
        self.commitment.dup()
    }
}

} // verus!
