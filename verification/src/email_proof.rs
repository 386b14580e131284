//! Email domain proof circuit assignment.
//!
//! The assignment binds a commitment
//! `Poseidon(email_hash, domain_hash, dkim_hash, nonce)` to the hashes of
//! the email address, the domain and the DKIM data, with a fresh random
//! nonce for unlinkability. The domain hash and the commitment are the
//! public inputs, in that order; the rest are private witnesses.

use vstd::prelude::*;
use vstd::string::*;
use vstd::utf8::encode_utf8;

use crate::field::{Fe, fe_of_be, fe_of_u64, random_bytes32, sha256, sha256_of};
use crate::hash::{PoseidonHasher, fe_views, poseidon_of};
use crate::text::{
    chars_range, chars_to_string, contains_chars, find_char, lower_chars, lower_vec,
    spec_contains_seq, str_chars,
};

verus! {

/// Field encoding of a text: SHA-256 of its UTF-8 bytes, reduced
/// big-endian modulo the field order.
pub open spec fn spec_str_field(s: Seq<char>) -> Seq<u8> {
    fe_of_be(sha256_of(encode_utf8(s)))
}

/// Convert a string to a field element using SHA-256.
pub fn string_to_field(s: &str) -> (r: Fe)
    ensures
        r@ == spec_str_field(s@),
{
    let digest = sha256(s.as_bytes());
    Fe::from_be_bytes(digest.as_slice())
}

/// Hash a string to a field element and give its encoding in hex.
pub fn hash_to_field(input: &str) -> (r: String)
    ensures
        r@ == crate::field::hex_lower(spec_str_field(input@)),
{
    let fe = string_to_field(input);
    let bytes = fe.to_bytes();
    crate::field::hex_encode(bytes.as_slice())
}

/// The domain of an address: the text between the first `@` and the next
/// `@` or the end, ASCII lower-cased; nothing without an `@`.
pub open spec fn spec_extract_domain(s: Seq<char>) -> Option<Seq<char>> {
    let i = crate::text::find_from(s, '@', 0);
    if i == -1 {
        None
    } else {
        let j = crate::text::find_from(s, '@', i + 1);
        let end = if j == -1 {
            s.len() as int
        } else {
            j
        };
        Some(lower_chars(s.subrange(i + 1, end)))
    }
}

/// Extract the domain from an email address.
pub fn extract_domain(email: &str) -> (r: Option<String>)
    ensures
        r is Some <==> spec_extract_domain(email@) is Some,
        r is Some ==> r->Some_0@ == spec_extract_domain(email@)->Some_0,
{
    let v = str_chars(email);
    let n = v.len();
    let i = match find_char(&v, '@', 0) {
        Some(i) => i,
        None => {
            return None;
        },
    };
    let j = match find_char(&v, '@', i + 1) {
        Some(j) => j,
        None => n,
    };
    let part = chars_range(&v, i + 1, j);
    let lowered = lower_vec(&part);
    Some(chars_to_string(&lowered))
}

/// Email proof input data.
pub struct EmailProofInput {
    /// The full email address (private).
    pub email: String,
    /// The domain, derived from the email.
    pub domain: String,
    /// DKIM signature or authentication result.
    pub dkim_data: String,
    /// Whether DKIM verification passed.
    pub dkim_verified: bool,
}

impl EmailProofInput {
    /// Create from an email address and DKIM data. DKIM counts as
    /// verified exactly when the authentication results contain
    /// `dkim=pass`, case-insensitively.
    pub fn new(email: &str, dkim_signature: &str, auth_results: &str) -> (r: EmailProofInput)
        ensures
            r.email@ == email@,
            spec_extract_domain(email@) is Some ==> r.domain@ == spec_extract_domain(
                email@,
            )->Some_0,
            spec_extract_domain(email@) is None ==> r.domain@ == Seq::<char>::empty(),
            r.dkim_data@ == dkim_signature@ + auth_results@,
            r.dkim_verified == spec_contains_seq(lower_chars(auth_results@), "dkim=pass"@),
    {
        let domain = match extract_domain(email) {
            Some(d) => d,
            None => String::new(),
        };
        let auth_lower = lower_vec(&str_chars(auth_results));
        let needle = str_chars("dkim=pass");
        let dkim_verified = contains_chars(&auth_lower, &needle);
        EmailProofInput {
            email: String::from_str(email),
            domain,
            dkim_data: String::from_str(dkim_signature).concat(auth_results),
            dkim_verified,
        }
    }

    /// Create from just a domain, standing in `dkim=pass` as the data.
    pub fn from_domain(domain: &str, dkim_verified: bool) -> (r: EmailProofInput)
        ensures
            r.email@ == "user@"@ + domain@,
            r.domain@ == lower_chars(domain@),
            dkim_verified ==> r.dkim_data@ == "dkim=pass"@,
            !dkim_verified ==> r.dkim_data@ == Seq::<char>::empty(),
            r.dkim_verified == dkim_verified,
    {
        Self::from_domain_with_dkim(domain, dkim_verified, "dkim=pass")
    }

    /// Create from a domain with actual DKIM data for stronger binding;
    /// the data is kept only when verification passed.
    pub fn from_domain_with_dkim(domain: &str, dkim_verified: bool, dkim_data: &str) -> (r:
        EmailProofInput)
        ensures
            r.email@ == "user@"@ + domain@,
            r.domain@ == lower_chars(domain@),
            dkim_verified ==> r.dkim_data@ == dkim_data@,
            !dkim_verified ==> r.dkim_data@ == Seq::<char>::empty(),
            r.dkim_verified == dkim_verified,
    {
        let lowered = lower_vec(&str_chars(domain));
        EmailProofInput {
            email: String::from_str("user@").concat(domain),
            domain: chars_to_string(&lowered),
            dkim_data: if dkim_verified {
                String::from_str(dkim_data)
            } else {
                String::new()
            },
            dkim_verified,
        }
    }
}

/// Circuit assignment for proving email domain ownership. Public inputs:
/// the domain hash, then the commitment. The rank-1 constraints the host
/// layer synthesizes from it enforce exactly `spec_satisfied`.
pub struct EmailDomainCircuit {
    /// Private: hash of the email address.
    pub email_hash: Fe,
    /// Private: hash of the DKIM data, binding authenticity.
    pub dkim_hash: Fe,
    /// Private: random nonce for unlinkability.
    pub nonce: Fe,
    /// Public: hash of the domain being proven.
    pub domain_hash: Fe,
    /// Public: commitment to all the private data.
    pub commitment: Fe,
}

impl EmailDomainCircuit {
    /// What the constraints enforce: the commitment is the Poseidon hash
    /// of the email hash, the domain hash, the DKIM hash and the nonce.
    pub open spec fn spec_satisfied(&self) -> bool {
        self.commitment@ == poseidon_of(
            seq![self.email_hash@, self.domain_hash@, self.dkim_hash@, self.nonce@],
        )
    }

    /// An assignment with small fixed values for the trusted setup; it is
    /// satisfiable, since the setup enumerates constraints over a
    /// consistent witness.
    pub fn new_empty() -> (r: EmailDomainCircuit)
        ensures
            r.email_hash@ == fe_of_u64(0),
            r.dkim_hash@ == fe_of_u64(1),
            r.nonce@ == fe_of_u64(2),
            r.domain_hash@ == fe_of_u64(3),
            r.spec_satisfied(),
    {
        let hasher = PoseidonHasher::new();
        let email_hash = Fe::from_u64(0);
        let dkim_hash = Fe::from_u64(1);
        let nonce = Fe::from_u64(2);
        let domain_hash = Fe::from_u64(3);
        let mut inputs: Vec<Fe> = Vec::new();
        inputs.push(email_hash.dup());
        inputs.push(domain_hash.dup());
        inputs.push(dkim_hash.dup());
        inputs.push(nonce.dup());
        let commitment = hasher.hash_many(&inputs);
        proof {
            assert(fe_views(inputs@) =~= seq![
                email_hash@,
                domain_hash@,
                dkim_hash@,
                nonce@,
            ]);
        }
        EmailDomainCircuit { email_hash, dkim_hash, nonce, domain_hash, commitment }
    }

    /// An assignment with actual witness values: the hashes of the input's
    /// email, domain and DKIM data, and a fresh random nonce.
    pub fn new_with_witness(input: &EmailProofInput) -> (r: EmailDomainCircuit)
        ensures
            r.email_hash@ == spec_str_field(input.email@),
            r.domain_hash@ == spec_str_field(input.domain@),
            r.dkim_hash@ == spec_str_field(input.dkim_data@),
            r.spec_satisfied(),
    {
        let hasher = PoseidonHasher::new();
        let email_hash = string_to_field(input.email.as_str());
        let domain_hash = string_to_field(input.domain.as_str());
        let dkim_hash = string_to_field(input.dkim_data.as_str());
        let nonce_bytes = random_bytes32();
        let nonce = Fe::from_be_bytes(nonce_bytes.as_slice());
        let mut inputs: Vec<Fe> = Vec::new();
        inputs.push(email_hash.dup());
        inputs.push(domain_hash.dup());
        inputs.push(dkim_hash.dup());
        inputs.push(nonce.dup());
        let commitment = hasher.hash_many(&inputs);
        proof {
            assert(fe_views(inputs@) =~= seq![
                email_hash@,
                domain_hash@,
                dkim_hash@,
                nonce@,
            ]);
        }
        EmailDomainCircuit { email_hash, dkim_hash, nonce, domain_hash, commitment }
    }

    /// The domain hash (first public input).
    pub fn get_domain_hash(&self) -> (r: Fe)
        ensures
            r@ == self.domain_hash@,
    {
        self.domain_hash.dup()
    }

    /// The commitment (second public input).
    pub fn get_commitment(&self) -> (r: Fe)
        ensures
            r@ == self.commitment@,
    {
        self.commitment.dup()
    }
}

} // verus!
