use ark_ff::PrimeField;
use ark_serialize::CanonicalSerialize;
use sha2::Digest;

use zkvault::email::{EmailError, EmailVerifier};
use zkvault::email_proof::{extract_domain, EmailProofInput};

#[test]
fn test_domain_extraction() {
    assert_eq!(
        extract_domain("alice@google.com"),
        Some("google.com".to_string())
    );
    assert_eq!(extract_domain("bob@meta.com"), Some("meta.com".to_string()));
    assert_eq!(extract_domain("invalid"), None);
}

#[test]
fn test_extract_domain() {
    assert_eq!(
        EmailVerifier::extract_domain("john@google.com").unwrap(),
        "google.com"
    );
    assert_eq!(
        EmailVerifier::extract_domain("John Doe <john@google.com>").unwrap(),
        "google.com"
    );
    assert_eq!(
        EmailVerifier::extract_domain("  jane@EXAMPLE.COM  ").unwrap(),
        "example.com"
    );
}

#[test]
fn test_extract_dkim_domain() {
    let dkim = "v=1; a=rsa-sha256; d=google.com; s=20230601; b=abc123";
    assert_eq!(
        EmailVerifier::extract_dkim_domain(dkim),
        Some("google.com".to_string())
    );
}

#[test]
fn test_domain_to_field() {
    let field1 = EmailVerifier::domain_to_field("google.com");
    let field2 = EmailVerifier::domain_to_field("google.com");
    let field3 = EmailVerifier::domain_to_field("meta.com");

    assert_eq!(field1, field2); // Same domain = same field element
    assert_ne!(field1, field3); // Different domain = different field element
}

#[test]
fn test_domain_to_field_matches_sha256() {
    // The field encoding of a domain must be the SHA-256 digest of its
    // bytes, reduced modulo the field order — checked against a direct
    // computation through the outside crates.
    let digest = sha2::Sha256::digest("google.com".as_bytes());
    let fr = ark_bn254::Fr::from_be_bytes_mod_order(&digest);
    let mut bytes = Vec::new();
    fr.serialize_compressed(&mut bytes).unwrap();

    let fe = EmailVerifier::domain_to_field("google.com");
    assert_eq!(fe.to_bytes(), bytes);
}

#[test]
fn test_email_input_dkim_pass() {
    let input = EmailProofInput::new(
        "alice@google.com",
        "v=1;a=rsa-sha256;d=google.com;s=sel;b=abc",
        "dkim=pass",
    );
    assert!(input.dkim_verified);
    assert_eq!(input.domain, "google.com");
    assert_eq!(input.email, "alice@google.com");
}

#[test]
fn test_email_input_dkim_fail() {
    // With `dkim=fail` the front-end refuses to treat the mail as
    // authentic, so no proof is produced downstream.
    let input = EmailProofInput::new(
        "alice@google.com",
        "v=1;a=rsa-sha256;d=google.com;s=sel;b=abc",
        "dkim=fail",
    );
    assert!(!input.dkim_verified);
}

#[test]
fn test_email_input_dkim_case_insensitive() {
    let input = EmailProofInput::new("a@b.com", "", "DKIM=Pass; spf=pass");
    assert!(input.dkim_verified);
}

#[test]
fn test_from_domain_with_dkim() {
    let input = EmailProofInput::from_domain_with_dkim("Google.COM", true, "data");
    assert_eq!(input.domain, "google.com");
    assert_eq!(input.email, "user@Google.COM");
    assert_eq!(input.dkim_data, "data");

    let refused = EmailProofInput::from_domain_with_dkim("google.com", false, "data");
    assert_eq!(refused.dkim_data, "");
}

#[test]
fn test_parse_email_with_dkim() {
    let eml = "From: John Doe <john@google.com>\r\nDKIM-Signature: v=1; a=rsa-sha256; d=google.com; s=sel; b=abc\r\nSubject: hi\r\n\r\nbody\r\n";
    let parsed = EmailVerifier::parse_email(eml).unwrap();
    assert_eq!(parsed.from_domain, "google.com");
    assert_eq!(parsed.dkim_domain, Some("google.com".to_string()));
    assert!(parsed.dkim_signature.is_some());
    assert!(EmailVerifier::verify_dkim(&parsed).unwrap());
}

#[test]
fn test_parse_email_no_from() {
    let eml = "Subject: hi\r\n\r\nbody\r\n";
    let result = EmailVerifier::parse_email(eml);
    assert!(matches!(result, Err(EmailError::NoFromHeader)));
}

#[test]
fn test_verify_dkim_missing_fields() {
    let eml = "From: a@b.com\r\nDKIM-Signature: v=1; d=b.com\r\n\r\nx\r\n";
    let parsed = EmailVerifier::parse_email(eml).unwrap();
    let result = EmailVerifier::verify_dkim(&parsed);
    assert!(matches!(result, Err(EmailError::DkimMissingFields)));
}

#[test]
fn test_verify_dkim_domain_mismatch() {
    let eml = "From: a@b.com\r\nDKIM-Signature: v=1; a=rsa; d=evil.org; s=sel; b=abc\r\n\r\nx\r\n";
    let parsed = EmailVerifier::parse_email(eml).unwrap();
    let result = EmailVerifier::verify_dkim(&parsed);
    assert!(matches!(result, Err(EmailError::DkimDomainMismatch)));
}

#[test]
fn test_verify_dkim_absent() {
    let eml = "From: a@b.com\r\n\r\nx\r\n";
    let parsed = EmailVerifier::parse_email(eml).unwrap();
    let result = EmailVerifier::verify_dkim(&parsed);
    assert!(matches!(result, Err(EmailError::NoDkimSignature)));
}

#[test]
fn test_generate_email_proof() {
    let eml = "From: John <john@google.com>\r\nDKIM-Signature: v=1; a=rsa; d=google.com; s=sel; b=abc\r\n\r\nx\r\n";
    let parsed = EmailVerifier::parse_email(eml).unwrap();
    let proof = EmailVerifier::generate_proof(&parsed, 1_700_000_000).unwrap();
    assert_eq!(proof.domain, "google.com");
    assert!(proof.dkim_valid);
    assert_eq!(proof.verified_at, 1_700_000_000);
    assert!(!proof.dkim_hash.is_empty());
}

#[test]
fn test_hash_to_field_hex() {
    // The hex form round-trips through the field decoder, and hashing is
    // not the identity on its input.
    let hexed = zkvault::email_proof::hash_to_field("hello");
    assert_eq!(hexed.len(), 64);
    assert!(zkvault::hash::hex_to_field(&hexed).is_some());
    assert_ne!(hexed, "hello");
    assert!(zkvault::hash::hex_to_field("zz").is_none());
}

#[test]
fn test_parse_email_no_at() {
    let eml = "From: nobody\r\n\r\nbody\r\n";
    let result = EmailVerifier::parse_email(eml);
    assert!(matches!(result, Err(EmailError::NoAtInAddress)));
}
