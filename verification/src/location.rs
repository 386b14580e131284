//! Location and country attestation over fixed-point coordinates.
//!
//! Coordinates are carried as microdegrees: degrees multiplied by one
//! million, the circuit's fixed-point scale. A static table of country
//! bounding boxes decides which country a coordinate pair falls in;
//! matching is first-wins in table order. The conversion from floating
//! point coordinates to microdegrees belongs to the host layer.

use vstd::prelude::*;
use vstd::bytes::{spec_u64_to_le_bytes, u64_to_le_bytes};
use vstd::string::*;
use vstd::utf8::encode_utf8;

use crate::country_proof::{i64_wrap, spec_i64_wrap};
use crate::email_proof::{spec_str_field, string_to_field};
use crate::field::{Fe, hex_encode, hex_lower, sha256, sha256_of};
use crate::text::{chars_eq, str_chars, upper_chars, upper_vec};

verus! {

/// One row of the country table, with bounds in microdegrees.
pub struct CountryBounds {
    pub code: String,
    pub name: String,
    pub min_lat: i64,
    pub max_lat: i64,
    pub min_lng: i64,
    pub max_lng: i64,
}

/// The rows of the country table, as
/// (code, name, min_lat, max_lat, min_lng, max_lng) in microdegrees.
pub open spec fn spec_countries() -> Seq<(Seq<char>, Seq<char>, i64, i64, i64, i64)> {
    seq![
        ("US"@, "United States"@, 24396308i64, 49384358i64, -125000000i64, -66934569i64),
        ("GB"@, "United Kingdom"@, 49674000i64, 61061000i64, -14015517i64, 2091911i64),
        ("CA"@, "Canada"@, 41675105i64, 83233240i64, -141000000i64, -52648098i64),
        ("AU"@, "Australia"@, -43634597i64, -10668185i64, 113338953i64, 153569469i64),
        ("DE"@, "Germany"@, 47270111i64, 55081500i64, 5866342i64, 15041931i64),
        ("FR"@, "France"@, 41365800i64, 51124199i64, -5559100i64, 9662500i64),
        ("JP"@, "Japan"@, 24396308i64, 45551483i64, 122934570i64, 153986672i64),
        ("IN"@, "India"@, 6554607i64, 35674545i64, 68111378i64, 97395561i64),
        ("BR"@, "Brazil"@, -33768377i64, 5244486i64, -73987235i64, -34729993i64),
        ("CN"@, "China"@, 18153500i64, 53560860i64, 73499413i64, 134775456i64),
    ]
}

/// Whether a row of the table matches a `CountryBounds` value.
pub open spec fn row_matches(
    b: CountryBounds,
    row: (Seq<char>, Seq<char>, i64, i64, i64, i64),
) -> bool {
    &&& b.code@ == row.0
    &&& b.name@ == row.1
    &&& b.min_lat == row.2
    &&& b.max_lat == row.3
    &&& b.min_lng == row.4
    &&& b.max_lng == row.5
}

/// The common country bounding boxes.
pub fn country_table() -> (r: Vec<CountryBounds>)
    ensures
        r@.len() == spec_countries().len(),
        forall|i: int|
            0 <= i < r@.len() ==> row_matches(#[trigger] r@[i], spec_countries()[i]),
{
    let mut r: Vec<CountryBounds> = Vec::new();
    r.push(
        CountryBounds {
            code: "US".to_owned(),
            name: "United States".to_owned(),
            min_lat: 24396308,
            max_lat: 49384358,
            min_lng: -125000000,
            max_lng: -66934569,
        },
    );
    r.push(
        CountryBounds {
            code: "GB".to_owned(),
            name: "United Kingdom".to_owned(),
            min_lat: 49674000,
            max_lat: 61061000,
            min_lng: -14015517,
            max_lng: 2091911,
        },
    );
    r.push(
        CountryBounds {
            code: "CA".to_owned(),
            name: "Canada".to_owned(),
            min_lat: 41675105,
            max_lat: 83233240,
            min_lng: -141000000,
            max_lng: -52648098,
        },
    );
    r.push(
        CountryBounds {
            code: "AU".to_owned(),
            name: "Australia".to_owned(),
            min_lat: -43634597,
            max_lat: -10668185,
            min_lng: 113338953,
            max_lng: 153569469,
        },
    );
    r.push(
        CountryBounds {
            code: "DE".to_owned(),
            name: "Germany".to_owned(),
            min_lat: 47270111,
            max_lat: 55081500,
            min_lng: 5866342,
            max_lng: 15041931,
        },
    );
    r.push(
        CountryBounds {
            code: "FR".to_owned(),
            name: "France".to_owned(),
            min_lat: 41365800,
            max_lat: 51124199,
            min_lng: -5559100,
            max_lng: 9662500,
        },
    );
    r.push(
        CountryBounds {
            code: "JP".to_owned(),
            name: "Japan".to_owned(),
            min_lat: 24396308,
            max_lat: 45551483,
            min_lng: 122934570,
            max_lng: 153986672,
        },
    );
    r.push(
        CountryBounds {
            code: "IN".to_owned(),
            name: "India".to_owned(),
            min_lat: 6554607,
            max_lat: 35674545,
            min_lng: 68111378,
            max_lng: 97395561,
        },
    );
    r.push(
        CountryBounds {
            code: "BR".to_owned(),
            name: "Brazil".to_owned(),
            min_lat: -33768377,
            max_lat: 5244486,
            min_lng: -73987235,
            max_lng: -34729993,
        },
    );
    r.push(
        CountryBounds {
            code: "CN".to_owned(),
            name: "China".to_owned(),
            min_lat: 18153500,
            max_lat: 53560860,
            min_lng: 73499413,
            max_lng: 134775456,
        },
    );
    r
}

/// GPS coordinates in microdegrees (degrees times one million).
pub struct Coordinates {
    pub latitude_micro: i64,
    pub longitude_micro: i64,
}

/// Result of location verification.
pub struct LocationProof {
    /// Country code (e.g., "US").
    pub country_code: String,
    /// Country name (e.g., "United States").
    pub country_name: String,
    /// Hash binding the coordinates, country and timestamp.
    pub proof_hash: String,
    /// Timestamp of verification.
    pub verified_at: u64,
}

/// Errors of the location front-end.
#[derive(Debug)]
pub enum LocationError {
    /// The given country code is not in the table.
    UnknownCountryCode,
    /// The coordinates fall in no known country.
    NoCountryMatch,
}

/// Whether coordinates fall within a table row's bounding box.
pub open spec fn spec_in_box(
    lat: i64,
    lng: i64,
    row: (Seq<char>, Seq<char>, i64, i64, i64, i64),
) -> bool {
    row.2 <= lat <= row.3 && row.4 <= lng <= row.5
}

/// Index of the first table row whose box holds the coordinates,
/// scanning from `i`; -1 if none.
pub open spec fn spec_first_match(lat: i64, lng: i64, i: int) -> int
    decreases spec_countries().len() - i,
        when 0 <= i <= spec_countries().len()
{
    if i >= spec_countries().len() {
        -1
    } else if spec_in_box(lat, lng, spec_countries()[i]) {
        i
    } else {
        spec_first_match(lat, lng, i + 1)
    }
}

/// Index of the first table row with the given code, scanning from `i`;
/// -1 if none.
pub open spec fn spec_find_code(code: Seq<char>, i: int) -> int
    decreases spec_countries().len() - i,
        when 0 <= i <= spec_countries().len()
{
    if i >= spec_countries().len() {
        -1
    } else if spec_countries()[i].0 == code {
        i
    } else {
        spec_find_code(code, i + 1)
    }
}

/// The bytes hashed into a location proof: the wrapped scaled coordinates
/// and the timestamp in little-endian, then the country code.
pub open spec fn spec_location_hash_input(lat: i64, lng: i64, code: Seq<char>, now: u64) -> Seq<
    u8,
> {
    spec_u64_to_le_bytes(spec_i64_wrap(lat)) + spec_u64_to_le_bytes(spec_i64_wrap(lng))
        + encode_utf8(code) + spec_u64_to_le_bytes(now)
}

/// Location verifier.
pub struct LocationVerifier;

impl LocationVerifier {
    /// Check if coordinates are within a country's bounding box.
    pub fn is_in_country(coords: &Coordinates, country: &CountryBounds) -> (r: bool)
        ensures
            r == (country.min_lat <= coords.latitude_micro <= country.max_lat
                && country.min_lng <= coords.longitude_micro <= country.max_lng),
    {
        coords.latitude_micro >= country.min_lat && coords.latitude_micro <= country.max_lat
            && coords.longitude_micro >= country.min_lng && coords.longitude_micro
            <= country.max_lng
    }

    /// Find which country contains the coordinates: the first row of the
    /// table whose box holds them.
    pub fn find_country(coords: &Coordinates) -> (r: Option<CountryBounds>)
        ensures
            r is Some <==> spec_first_match(coords.latitude_micro, coords.longitude_micro, 0)
                >= 0,
            r is Some ==> row_matches(
                r->Some_0,
                spec_countries()[spec_first_match(
                    coords.latitude_micro,
                    coords.longitude_micro,
                    0,
                )],
            ),
    {
        let table = country_table();
        let mut i: usize = 0;
        while i < table.len()
            invariant
                i <= table@.len(),
                table@.len() == spec_countries().len(),
                forall|j: int|
                    0 <= j < table@.len() ==> row_matches(
                        #[trigger] table@[j],
                        spec_countries()[j],
                    ),
                spec_first_match(coords.latitude_micro, coords.longitude_micro, 0)
                    == spec_first_match(coords.latitude_micro, coords.longitude_micro, i as int),
            decreases table@.len() - i,
        {
            let row = &table[i];
            if Self::is_in_country(coords, row) {
                return Some(
                    CountryBounds {
                        code: row.code.clone(),
                        name: row.name.clone(),
                        min_lat: row.min_lat,
                        max_lat: row.max_lat,
                        min_lng: row.min_lng,
                        max_lng: row.max_lng,
                    },
                );
            }
            i = i + 1;
        }
        None
    }

    /// Find the table row for a country code, upper-casing it first;
    /// `None` when no row carries that code.
    pub fn find_country_by_code(country_code: &str) -> (r: Option<CountryBounds>)
        ensures
            r is Some <==> spec_find_code(upper_chars(country_code@), 0) >= 0,
            r is Some ==> row_matches(
                r->Some_0,
                spec_countries()[spec_find_code(upper_chars(country_code@), 0)],
            ),
    {
        let table = country_table();
        let wanted = upper_vec(&str_chars(country_code));
        let mut i: usize = 0;
        while i < table.len()
            invariant
                i <= table@.len(),
                wanted@ == upper_chars(country_code@),
                table@.len() == spec_countries().len(),
                forall|j: int|
                    0 <= j < table@.len() ==> row_matches(
                        #[trigger] table@[j],
                        spec_countries()[j],
                    ),
                spec_find_code(upper_chars(country_code@), 0) == spec_find_code(
                    upper_chars(country_code@),
                    i as int,
                ),
            decreases table@.len() - i,
        {
            let row = &table[i];
            let code_chars = str_chars(row.code.as_str());
            if chars_eq(&code_chars, &wanted) {
                return Some(
                    CountryBounds {
                        code: row.code.clone(),
                        name: row.name.clone(),
                        min_lat: row.min_lat,
                        max_lat: row.max_lat,
                        min_lng: row.min_lng,
                        max_lng: row.max_lng,
                    },
                );
            }
            i = i + 1;
        }
        None
    }

    /// Verify coordinates against a specific country, named by its code;
    /// an unknown code is an error.
    pub fn verify_country(coords: &Coordinates, country_code: &str) -> (r: Result<
        bool,
        LocationError,
    >)
        ensures
            r is Ok <==> spec_find_code(country_code@, 0) >= 0,
            r is Err ==> r->Err_0 is UnknownCountryCode,
            r is Ok ==> r->Ok_0 == spec_in_box(
                coords.latitude_micro,
                coords.longitude_micro,
                spec_countries()[spec_find_code(country_code@, 0)],
            ),
    {
        let table = country_table();
        let wanted = str_chars(country_code);
        let mut i: usize = 0;
        while i < table.len()
            invariant
                i <= table@.len(),
                wanted@ == country_code@,
                table@.len() == spec_countries().len(),
                forall|j: int|
                    0 <= j < table@.len() ==> row_matches(
                        #[trigger] table@[j],
                        spec_countries()[j],
                    ),
                spec_find_code(country_code@, 0) == spec_find_code(country_code@, i as int),
            decreases table@.len() - i,
        {
            let row = &table[i];
            let code_chars = str_chars(row.code.as_str());
            if chars_eq(&code_chars, &wanted) {
                return Ok(Self::is_in_country(coords, row));
            }
            i = i + 1;
        }
        Err(LocationError::UnknownCountryCode)
    }

    /// Generate a proof record that coordinates lie within some country:
    /// the first matching table row, with a hash binding the coordinates,
    /// the country code and the given timestamp.
    pub fn generate_proof(coords: &Coordinates, now_unix: u64) -> (r: Result<
        LocationProof,
        LocationError,
    >)
        ensures
            r is Ok <==> spec_first_match(coords.latitude_micro, coords.longitude_micro, 0) >= 0,
            r is Err ==> r->Err_0 is NoCountryMatch,
            r is Ok ==> {
                let row = spec_countries()[spec_first_match(
                    coords.latitude_micro,
                    coords.longitude_micro,
                    0,
                )];
                let p = r->Ok_0;
                &&& p.country_code@ == row.0
                &&& p.country_name@ == row.1
                &&& p.verified_at == now_unix
                &&& p.proof_hash@ == hex_lower(
                    sha256_of(
                        spec_location_hash_input(
                            coords.latitude_micro,
                            coords.longitude_micro,
                            row.0,
                            now_unix,
                        ),
                    ),
                )
            },
    {
        let country = match Self::find_country(coords) {
            Some(c) => c,
            None => {
                return Err(LocationError::NoCountryMatch);
            },
        };
        let mut data = u64_to_le_bytes(i64_wrap(coords.latitude_micro));
        let mut lng_bytes = u64_to_le_bytes(i64_wrap(coords.longitude_micro));
        data.append(&mut lng_bytes);
        let mut code_bytes = country.code.as_str().as_bytes_vec();
        data.append(&mut code_bytes);
        let mut ts_bytes = u64_to_le_bytes(now_unix);
        data.append(&mut ts_bytes);
        let digest = sha256(data.as_slice());
        let proof_hash = hex_encode(digest.as_slice());
        proof {
            broadcast use vstd::string::is_ascii_spec_bytes;

            assert(data@ =~= spec_location_hash_input(
                coords.latitude_micro,
                coords.longitude_micro,
                country.code@,
                now_unix,
            ));
        }
        Ok(
            LocationProof {
                country_code: country.code,
                country_name: country.name,
                proof_hash,
                verified_at: now_unix,
            },
        )
    }

    /// Field encoding of a country code for the circuit: SHA-256 of the
    /// code as given, reduced modulo the field order.
    pub fn country_to_field(country_code: &str) -> (r: Fe)
        ensures
            r@ == spec_str_field(country_code@),
    {
        string_to_field(country_code)
    }

    /// The supported countries, as (code, name) pairs in table order.
    pub fn supported_countries() -> (r: Vec<(String, String)>)
        ensures
            r@.len() == spec_countries().len(),
            forall|i: int|
                0 <= i < r@.len() ==> (#[trigger] r@[i]).0@ == spec_countries()[i].0 && r@[i].1@
                    == spec_countries()[i].1,
    {
        let table = country_table();
        let mut r: Vec<(String, String)> = Vec::new();
        let mut i: usize = 0;
        while i < table.len()
            invariant
                i <= table@.len(),
                r@.len() == i,
                table@.len() == spec_countries().len(),
                forall|j: int|
                    0 <= j < table@.len() ==> row_matches(
                        #[trigger] table@[j],
                        spec_countries()[j],
                    ),
                forall|j: int|
                    0 <= j < i ==> (#[trigger] r@[j]).0@ == spec_countries()[j].0 && r@[j].1@
                        == spec_countries()[j].1,
            decreases table@.len() - i,
        {
            let row = &table[i];
            r.push((row.code.clone(), row.name.clone()));
            i = i + 1;
        }
        r
    }
}

/// Fixed-point coordinates for the circuit: degrees times one million.
pub struct FixedPointCoords {
    /// Latitude in microdegrees.
    pub lat_fixed: i64,
    /// Longitude in microdegrees.
    pub lng_fixed: i64,
}

impl FixedPointCoords {
    /// The fixed-point form of a coordinate pair.
    pub fn from_coords(coords: &Coordinates) -> (r: FixedPointCoords)
        ensures
            r.lat_fixed == coords.latitude_micro,
            r.lng_fixed == coords.longitude_micro,
    {
        FixedPointCoords { lat_fixed: coords.latitude_micro, lng_fixed: coords.longitude_micro }
    }
}

} // verus!
