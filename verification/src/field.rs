//! Field elements of the BN254 scalar field, carried by their canonical
//! 32-byte compressed encoding, together with the trusted conversions into
//! the outside arithmetic and hashing crates.

use vstd::prelude::*;

use sha2::Digest;

verus! {

/// Digest of SHA-256, as a function of the input bytes.
pub uninterp spec fn sha256_of(data: Seq<u8>) -> Seq<u8>;

/// Canonical encoding of the BN254 scalar field element with the given
/// integer value.
pub uninterp spec fn fe_of_u64(n: u64) -> Seq<u8>;

/// Canonical encoding of the field element obtained by interpreting bytes
/// as a big-endian integer and reducing it modulo the field order.
pub uninterp spec fn fe_of_be(b: Seq<u8>) -> Seq<u8>;

/// Whether 32 bytes are the canonical encoding of a BN254 scalar field
/// element, that is, whether they deserialize successfully.
pub uninterp spec fn fe_canon(b: Seq<u8>) -> bool;

/// An element of the BN254 scalar field, held as its canonical 32-byte
/// compressed encoding. Two elements are equal exactly when their
/// encodings are equal.
#[derive(Debug)]
pub struct Fe {
    pub(crate) bytes: Vec<u8>,
}

impl View for Fe {
    type V = Seq<u8>;

    closed spec fn view(&self) -> Seq<u8> {
        self.bytes@
    }
}

impl Fe {
    /// Every element holds 32 canonical bytes; `use_type_invariant`
    /// recovers this of any value.
    #[verifier::type_invariant]
    pub open spec fn wf(self) -> bool {
        self@.len() == 32 && fe_canon(self@)
    }

    /// Relies on ark_ff: `Fr::from(u64)` followed by
    /// `serialize_compressed`, which writes the canonical 32-byte form.
    #[verifier::external_body]
    pub fn from_u64(n: u64) -> (r: Fe)
        ensures
            r@ == fe_of_u64(n),
    {
        let f = ark_bn254::Fr::from(n);
        let mut bytes = Vec::new();
        ark_serialize::CanonicalSerialize::serialize_compressed(&f, &mut bytes).unwrap();
        Fe { bytes }
    }

    /// Relies on ark_ff: `Fr::from_be_bytes_mod_order` followed by
    /// `serialize_compressed`.
    #[verifier::external_body]
    pub fn from_be_bytes(b: &[u8]) -> (r: Fe)
        ensures
            r@ == fe_of_be(b@),
    {
        let f = <ark_bn254::Fr as ark_ff::PrimeField>::from_be_bytes_mod_order(b);
        let mut bytes = Vec::new();
        ark_serialize::CanonicalSerialize::serialize_compressed(&f, &mut bytes).unwrap();
        Fe { bytes }
    }

    /// Accepts exactly the canonical 32-byte encodings.
    pub fn from_bytes(bytes: Vec<u8>) -> (r: Option<Fe>)
        ensures
            r is Some <==> (bytes@.len() == 32 && fe_canon(bytes@)),
            r is Some ==> r->Some_0@ == bytes@,
    {
        if bytes.len() == 32 && fe_check(&bytes) {
            Some(Fe { bytes })
        } else {
            None
        }
    }

    /// A copy of the encoding.
    pub fn to_bytes(&self) -> (r: Vec<u8>)
        ensures
            r@ == self@,
    {
        proof {
            use_type_invariant(self);
        }
        let mut r: Vec<u8> = Vec::new();
        let mut i: usize = 0;
        while i < self.bytes.len()
            invariant
                i <= self.bytes@.len(),
                r@ == self.bytes@.subrange(0, i as int),
            decreases self.bytes@.len() - i,
        {
            r.push(self.bytes[i]);
            i = i + 1;
        }
        assert(r@ =~= self.bytes@);
        r
    }

    /// A copy of the element.
    pub fn dup(&self) -> (r: Fe)
        ensures
            r@ == self@,
    {
        proof {
            use_type_invariant(self);
        }
        let bytes = self.to_bytes();
        Fe { bytes }
    }

    /// Equality of elements, which is equality of canonical encodings.
    pub fn eq_fe(&self, other: &Fe) -> (r: bool)
        ensures
            r == (self@ == other@),
    {
        bytes_eq(&self.bytes, &other.bytes)
    }
}

impl PartialEq for Fe {
    fn eq(&self, other: &Fe) -> (r: bool) {
        self.eq_fe(other)
    }
}

impl vstd::std_specs::cmp::PartialEqSpecImpl for Fe {
    open spec fn obeys_eq_spec() -> bool {
        true
    }

    open spec fn eq_spec(&self, other: &Fe) -> bool {
        self@ == other@
    }
}

/// Byte-for-byte equality of two byte vectors.
pub fn bytes_eq(a: &Vec<u8>, b: &Vec<u8>) -> (r: bool)
    ensures
        r == (a@ == b@),
{
    if a.len() != b.len() {
        proof {
            assert(a@ != b@);
        }
        return false;
    }
    let mut i: usize = 0;
    while i < a.len()
        invariant
            i <= a@.len(),
            a@.len() == b@.len(),
            forall|j: int| 0 <= j < i ==> a@[j] == b@[j],
        decreases a@.len() - i,
    {
        if a[i] != b[i] {
            return false;
        }
        i = i + 1;
    }
    proof {
        assert(a@ =~= b@);
    }
    true
}

/// Relies on ark_serialize: `Fr::deserialize_compressed` succeeds exactly
/// on the canonical encodings (it rejects values at or above the modulus).
#[verifier::external_body]
pub fn fe_check(b: &Vec<u8>) -> (r: bool)
    requires
        b@.len() == 32,
    ensures
        r == fe_canon(b@),
{
    <ark_bn254::Fr as ark_serialize::CanonicalDeserialize>::deserialize_compressed(
        &b[..],
    ).is_ok()
}

/// Relies on sha2: `Sha256` produces the 32-byte SHA-256 digest of its
/// input, a function of the input alone.
#[verifier::external_body]
pub fn sha256(data: &[u8]) -> (r: Vec<u8>)
    ensures
        r@ == sha256_of(data@),
        r@.len() == 32,
{
    sha2::Sha256::digest(data).to_vec()
}

/// Relies on rand: `random` over a 32-byte array. Nothing is promised of
/// the value beyond its length; callers treat it as fresh entropy.
#[verifier::external_body]
pub fn random_bytes32() -> (r: Vec<u8>)
    ensures
        r@.len() == 32,
{
    let a: [u8; 32] = rand::random();
    a.to_vec()
}

/// Whether a character is a hexadecimal digit.
pub open spec fn is_hex_digit(c: char) -> bool {
    ('0' <= c && c <= '9') || ('a' <= c && c <= 'f') || ('A' <= c && c <= 'F')
}

/// Numeric value of a hexadecimal digit.
pub open spec fn hex_val(c: char) -> u8 {
    if '0' <= c && c <= '9' {
        (c as u8 - 48) as u8
    } else if 'a' <= c && c <= 'f' {
        (c as u8 - 87) as u8
    } else {
        (c as u8 - 55) as u8
    }
}

/// Whether a string is a well-formed hexadecimal encoding: even length,
/// every character a digit.
pub open spec fn hex_valid(s: Seq<char>) -> bool {
    s.len() % 2 == 0 && (forall|i: int| 0 <= i < s.len() ==> is_hex_digit(#[trigger] s[i]))
}

/// The bytes encoded by a well-formed hexadecimal string.
pub open spec fn hex_bytes(s: Seq<char>) -> Seq<u8> {
    Seq::new((s.len() / 2) as nat, |i: int| ((hex_val(s[2 * i]) as int) * 16 + (hex_val(s[2 * i + 1]) as int)) as u8)
}

/// The lower-case hexadecimal character for a value below 16.
pub open spec fn hex_digit_char(n: u8) -> char {
    if n < 10 {
        (n + 48) as char
    } else {
        (n + 87) as char
    }
}

/// The lower-case hexadecimal encoding of a byte sequence.
pub open spec fn hex_lower(b: Seq<u8>) -> Seq<char> {
    Seq::new((b.len() * 2) as nat, |i: int| if i % 2 == 0 {
        hex_digit_char(b[i / 2] / 16)
    } else {
        hex_digit_char(b[i / 2] % 16)
    })
}

/// Relies on hex: `decode` turns two digits into one byte and fails
/// exactly on an odd length or a character that is no hexadecimal digit.
#[verifier::external_body]
pub fn hex_decode(s: &str) -> (r: Option<Vec<u8>>)
    ensures
        r is Some <==> hex_valid(s@),
        r is Some ==> r->Some_0@ == hex_bytes(s@),
{
    hex::decode(s).ok()
}

/// Relies on hex: `encode` writes two lower-case digits for each byte.
#[verifier::external_body]
pub fn hex_encode(data: &[u8]) -> (r: String)
    ensures
        r@ == hex_lower(data@),
{
    hex::encode(data)
}

} // verus!
