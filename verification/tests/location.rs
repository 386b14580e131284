use zkvault::location::{Coordinates, LocationError, LocationVerifier};

#[test]
fn test_san_francisco_in_usa() {
    let sf = Coordinates {
        latitude_micro: 37_774_900,
        longitude_micro: -122_419_400,
    };

    let country = LocationVerifier::find_country(&sf);
    assert!(country.is_some());
    assert_eq!(country.unwrap().code, "US");
}

#[test]
fn test_london_in_uk() {
    let london = Coordinates {
        latitude_micro: 51_507_400,
        longitude_micro: -127_800,
    };

    let country = LocationVerifier::find_country(&london);
    assert!(country.is_some());
    assert_eq!(country.unwrap().code, "GB");
}

#[test]
fn test_tokyo_in_japan() {
    let tokyo = Coordinates {
        latitude_micro: 35_676_200,
        longitude_micro: 139_650_300,
    };

    let country = LocationVerifier::find_country(&tokyo);
    assert!(country.is_some());
    assert_eq!(country.unwrap().code, "JP");
}

#[test]
fn test_generate_proof() {
    let sf = Coordinates {
        latitude_micro: 37_774_900,
        longitude_micro: -122_419_400,
    };

    let proof = LocationVerifier::generate_proof(&sf, 1_700_000_000).unwrap();
    assert_eq!(proof.country_code, "US");
    assert_eq!(proof.country_name, "United States");
    assert!(!proof.proof_hash.is_empty());
    assert_eq!(proof.verified_at, 1_700_000_000);
}

#[test]
fn test_verify_country() {
    let sf = Coordinates {
        latitude_micro: 37_774_900,
        longitude_micro: -122_419_400,
    };

    assert!(LocationVerifier::verify_country(&sf, "US").unwrap());
    assert!(!LocationVerifier::verify_country(&sf, "GB").unwrap());
}

#[test]
fn test_verify_country_unknown_code() {
    let sf = Coordinates {
        latitude_micro: 37_774_900,
        longitude_micro: -122_419_400,
    };

    let result = LocationVerifier::verify_country(&sf, "XX");
    assert!(matches!(result, Err(LocationError::UnknownCountryCode)));
}

#[test]
fn test_no_country_match() {
    // The middle of the Pacific belongs to no table row.
    let nowhere = Coordinates {
        latitude_micro: 0,
        longitude_micro: -150_000_000,
    };
    assert!(LocationVerifier::find_country(&nowhere).is_none());
    let result = LocationVerifier::generate_proof(&nowhere, 1);
    assert!(matches!(result, Err(LocationError::NoCountryMatch)));
}

#[test]
fn test_supported_countries() {
    let countries = LocationVerifier::supported_countries();
    assert_eq!(countries.len(), 10);
    assert_eq!(countries[0].0, "US");
    assert_eq!(countries[0].1, "United States");
    assert_eq!(countries[9].0, "CN");
}

#[test]
fn test_country_code_to_field_uppercases() {
    // The circuit encoding upper-cases the code first; the plain encoding
    // does not, so "us" and "US" agree only through the circuit path.
    let a = zkvault::country_proof::country_code_to_field("us");
    let b = zkvault::country_proof::country_code_to_field("US");
    assert_eq!(a, b);
    let c = LocationVerifier::country_to_field("us");
    let d = LocationVerifier::country_to_field("US");
    assert_ne!(c, d);
}

#[test]
fn test_find_country_by_code() {
    let us = LocationVerifier::find_country_by_code("us").unwrap();
    assert_eq!(us.code, "US");
    assert_eq!(us.name, "United States");
    let jp = LocationVerifier::find_country_by_code("JP").unwrap();
    assert_eq!(jp.code, "JP");
    assert!(LocationVerifier::find_country_by_code("XX").is_none());
}

#[test]
fn test_proof_hash_binds_timestamp() {
    let sf = Coordinates {
        latitude_micro: 37_774_900,
        longitude_micro: -122_419_400,
    };
    let p1 = LocationVerifier::generate_proof(&sf, 1).unwrap();
    let p2 = LocationVerifier::generate_proof(&sf, 2).unwrap();
    assert_ne!(p1.proof_hash, p2.proof_hash);
}

#[test]
fn test_fixed_point_coords() {
    let sf = Coordinates {
        latitude_micro: 37_774_900,
        longitude_micro: -122_419_400,
    };
    let fp = zkvault::location::FixedPointCoords::from_coords(&sf);
    assert_eq!(fp.lat_fixed, 37_774_900);
    assert_eq!(fp.lng_fixed, -122_419_400);
}
