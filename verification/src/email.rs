//! Email domain verification using DKIM headers.
//!
//! An email file is parsed by the outside mail parser behind one trusted
//! wrapper that hands back the plain header list; everything decided from
//! the headers — the sender domain, the DKIM signature and its `d=`
//! domain, the structural DKIM check — is verified logic here. Full
//! cryptographic DKIM verification against DNS records is out of scope;
//! the structural check accepts a signature that carries the required
//! fields and whose domain signs for the sender's.

use vstd::prelude::*;
use vstd::string::*;
use vstd::utf8::encode_utf8;

use crate::email_proof::spec_str_field;
use crate::field::{Fe, hex_encode, hex_lower, sha256, sha256_of};
use crate::text::{
    chars_eq, chars_range, chars_to_string, contains_chars, ends_with_chars, find_char,
    find_from, lower_chars, lower_vec, spec_contains_seq, spec_ends_with, spec_trim, str_chars,
    trim_chars,
};

verus! {

/// The header names and values of a parsed mail message, in order, as the
/// outside parser reports them; nothing when parsing fails.
pub uninterp spec fn mail_headers_of(raw: Seq<u8>) -> Option<Seq<(Seq<char>, Seq<char>)>>;

/// The views of a list of header pairs.
pub open spec fn pairs_views(v: Seq<(String, String)>) -> Seq<(Seq<char>, Seq<char>)> {
    Seq::new(v.len(), |i: int| (v[i].0@, v[i].1@))
}

/// Relies on mailparse: `parse_mail` is deterministic in the raw bytes,
/// and each header's `get_key` and `get_value` give its name and decoded
/// value.
#[verifier::external_body]
fn mail_headers(raw: &[u8]) -> (r: Option<Vec<(String, String)>>)
    ensures
        r is Some <==> mail_headers_of(raw@) is Some,
        r is Some ==> pairs_views(r->Some_0@) == mail_headers_of(raw@)->Some_0,
{
    let parsed = match mailparse::parse_mail(raw) {
        Ok(p) => p,
        Err(_) => return None,
    };
    Some(parsed.headers.iter().map(|h| (h.get_key(), h.get_value())).collect())
}

/// Index of the first header whose lower-cased name equals `name`,
/// scanning from `i`; -1 if none.
pub open spec fn spec_find_header(hs: Seq<(Seq<char>, Seq<char>)>, name: Seq<char>, i: int) -> int
    decreases hs.len() - i,
        when 0 <= i <= hs.len()
{
    if i >= hs.len() {
        -1
    } else if lower_chars(hs[i].0) == name {
        i
    } else {
        spec_find_header(hs, name, i + 1)
    }
}

/// Find the first header with the given lower-case name.
fn find_header(headers: &Vec<(String, String)>, name: &Vec<char>) -> (r: Option<usize>)
    ensures
        r is Some <==> spec_find_header(pairs_views(headers@), name@, 0) >= 0,
        r is Some ==> r->Some_0 < headers@.len() && spec_find_header(
            pairs_views(headers@),
            name@,
            0,
        ) == r->Some_0 as int,
{
    let mut i: usize = 0;
    while i < headers.len()
        invariant
            i <= headers@.len(),
            spec_find_header(pairs_views(headers@), name@, 0) == spec_find_header(
                pairs_views(headers@),
                name@,
                i as int,
            ),
        decreases headers@.len() - i,
    {
        let key_chars = str_chars(headers[i].0.as_str());
        let lowered = lower_vec(&key_chars);
        if chars_eq(&lowered, name) {
            return Some(i);
        }
        i = i + 1;
    }
    None
}

/// Parsed email data.
pub struct ParsedEmail {
    /// Full From header value.
    pub from_address: String,
    /// Extracted domain.
    pub from_domain: String,
    /// DKIM signature header if present.
    pub dkim_signature: Option<String>,
    /// Domain from the DKIM `d=` parameter.
    pub dkim_domain: Option<String>,
    /// Raw email content.
    pub raw_content: String,
}

/// Errors of the email front-end.
#[derive(Debug)]
pub enum EmailError {
    /// The mail file could not be parsed.
    ParseFailed,
    /// No From header was found.
    NoFromHeader,
    /// The From address carries no `@`.
    NoAtInAddress,
    /// No DKIM signature header was found.
    NoDkimSignature,
    /// The DKIM signature misses a required field.
    DkimMissingFields,
    /// The DKIM domain does not sign for the From domain.
    DkimDomainMismatch,
}

/// The address part of a From header: the text between the first `<` and
/// the following `>` when an angle bracket is present, the trimmed header
/// otherwise.
pub open spec fn spec_email_part(s: Seq<char>) -> Seq<char> {
    let lt = find_from(s, '<', 0);
    if lt == -1 {
        spec_trim(s)
    } else {
        let lt2 = find_from(s, '<', lt + 1);
        let seg_end = if lt2 == -1 {
            s.len() as int
        } else {
            lt2
        };
        let seg = s.subrange(lt + 1, seg_end);
        let gt = find_from(seg, '>', 0);
        if gt == -1 {
            seg
        } else {
            seg.subrange(0, gt)
        }
    }
}

/// The domain of a From header: what follows the first `@` of the address
/// part up to the next `@` or the end, trimmed and lower-cased; nothing
/// without an `@`.
pub open spec fn spec_from_domain(s: Seq<char>) -> Option<Seq<char>> {
    let e = spec_email_part(s);
    let at = find_from(e, '@', 0);
    if at == -1 {
        None
    } else {
        let at2 = find_from(e, '@', at + 1);
        let end = if at2 == -1 {
            e.len() as int
        } else {
            at2
        };
        Some(lower_chars(spec_trim(e.subrange(at + 1, end))))
    }
}

/// The `d=` domain of a DKIM signature: scanning the `;`-separated parts
/// from `from`, the first trimmed part with prefix `d=` gives its
/// remainder, trimmed and lower-cased.
pub open spec fn spec_dkim_domain_from(s: Seq<char>, from: int) -> Option<Seq<char>>
    decreases s.len() - from,
        when 0 <= from <= s.len()
        via spec_dkim_domain_from_decreases
{
    let semi = find_from(s, ';', from);
    let end = if semi == -1 {
        s.len() as int
    } else {
        semi
    };
    let part = spec_trim(s.subrange(from, end));
    if part.len() >= 2 && part.subrange(0, 2) == "d="@ {
        Some(lower_chars(spec_trim(part.subrange(2, part.len() as int))))
    } else if semi == -1 {
        None
    } else {
        spec_dkim_domain_from(s, semi + 1)
    }
}

#[via_fn]
proof fn spec_dkim_domain_from_decreases(s: Seq<char>, from: int) {
    crate::text::lemma_find_from_range(s, ';', from);
}

/// The DKIM signature carries all structurally required fields.
pub open spec fn spec_dkim_fields_ok(sig: Seq<char>) -> bool {
    &&& spec_contains_seq(sig, "v="@)
    &&& spec_contains_seq(sig, "a="@)
    &&& spec_contains_seq(sig, "d="@)
    &&& spec_contains_seq(sig, "s="@)
    &&& spec_contains_seq(sig, "b="@)
}

/// The DKIM domain, when present, signs for the From domain: the From
/// domain ends with it or equals it.
pub open spec fn spec_dkim_domain_ok(parsed: ParsedEmail) -> bool {
    match parsed.dkim_domain {
        None => true,
        Some(dd) => spec_ends_with(parsed.from_domain@, dd@) || dd@ == parsed.from_domain@,
    }
}

/// The structural DKIM check passes.
pub open spec fn spec_dkim_ok(parsed: ParsedEmail) -> bool {
    &&& parsed.dkim_signature is Some
    &&& spec_dkim_fields_ok(parsed.dkim_signature->Some_0@)
    &&& spec_dkim_domain_ok(parsed)
}

/// Email verifier for extracting the domain and checking DKIM.
pub struct EmailVerifier;

impl EmailVerifier {
    /// Parse an email file and extract the sender domain and DKIM data.
    pub fn parse_email(eml_content: &str) -> (r: Result<ParsedEmail, EmailError>)
        ensures
            mail_headers_of(eml_content.spec_bytes()) is None ==> r is Err && r->Err_0
                is ParseFailed,
            mail_headers_of(eml_content.spec_bytes()) is Some ==> {
                let hs = mail_headers_of(eml_content.spec_bytes())->Some_0;
                let fi = spec_find_header(hs, "from"@, 0);
                if fi < 0 {
                    r is Err && r->Err_0 is NoFromHeader
                } else if spec_from_domain(hs[fi].1) is None {
                    r is Err && r->Err_0 is NoAtInAddress
                } else {
                    let di = spec_find_header(hs, "dkim-signature"@, 0);
                    &&& r is Ok
                    &&& r->Ok_0.from_address@ == hs[fi].1
                    &&& r->Ok_0.from_domain@ == spec_from_domain(hs[fi].1)->Some_0
                    &&& (di < 0 ==> r->Ok_0.dkim_signature is None && r->Ok_0.dkim_domain
                        is None)
                    &&& (di >= 0 ==> r->Ok_0.dkim_signature is Some
                        && r->Ok_0.dkim_signature->Some_0@ == hs[di].1 && (match r->Ok_0
                        .dkim_domain {
                        None => spec_dkim_domain_from(hs[di].1, 0) is None,
                        Some(dd) => spec_dkim_domain_from(hs[di].1, 0) == Some(dd@),
                    }))
                    &&& r->Ok_0.raw_content@ == eml_content@
                }
            },
    {
        let headers = match mail_headers(eml_content.as_bytes()) {
            Some(h) => h,
            None => {
                return Err(EmailError::ParseFailed);
            },
        };
        let from_name = str_chars("from");
        let fi = match find_header(&headers, &from_name) {
            Some(i) => i,
            None => {
                return Err(EmailError::NoFromHeader);
            },
        };
        let from = headers[fi].1.clone();
        proof {
            assert(pairs_views(headers@)[fi as int].1 == headers@[fi as int].1@);
        }
        let domain = match Self::extract_domain(from.as_str()) {
            Ok(d) => d,
            Err(e) => {
                return Err(e);
            },
        };
        let dkim_name = str_chars("dkim-signature");
        let dkim_signature: Option<String> = match find_header(&headers, &dkim_name) {
            Some(i) => {
                proof {
                    assert(pairs_views(headers@)[i as int].1 == headers@[i as int].1@);
                }
                Some(headers[i].1.clone())
            },
            None => None,
        };
        let dkim_domain: Option<String> = match &dkim_signature {
            Some(sig) => Self::extract_dkim_domain(sig.as_str()),
            None => None,
        };
        Ok(
            ParsedEmail {
                from_address: from,
                from_domain: domain,
                dkim_signature,
                dkim_domain,
                raw_content: String::from_str(eml_content),
            },
        )
    }

    /// Extract the domain from a From header value, handling both
    /// `Name <user@domain>` and plain `user@domain` forms.
    pub fn extract_domain(from: &str) -> (r: Result<String, EmailError>)
        ensures
            r is Ok <==> spec_from_domain(from@) is Some,
            r is Ok ==> r->Ok_0@ == spec_from_domain(from@)->Some_0,
            r is Err ==> r->Err_0 is NoAtInAddress,
    {
        let v = str_chars(from);
        let n = v.len();
        let email: Vec<char> = match find_char(&v, '<', 0) {
            None => trim_chars(&v),
            Some(lt) => {
                let seg_end = match find_char(&v, '<', lt + 1) {
                    Some(lt2) => lt2,
                    None => n,
                };
                let seg = chars_range(&v, lt + 1, seg_end);
                match find_char(&seg, '>', 0) {
                    Some(gt) => chars_range(&seg, 0, gt),
                    None => seg,
                }
            },
        };
        proof {
            assert(email@ == spec_email_part(from@));
        }
        let en = email.len();
        let at = match find_char(&email, '@', 0) {
            Some(i) => i,
            None => {
                return Err(EmailError::NoAtInAddress);
            },
        };
        let end = match find_char(&email, '@', at + 1) {
            Some(j) => j,
            None => en,
        };
        let part = chars_range(&email, at + 1, end);
        let trimmed = trim_chars(&part);
        let lowered = lower_vec(&trimmed);
        Ok(chars_to_string(&lowered))
    }

    /// Extract the `d=` (domain) parameter from a DKIM signature.
    pub fn extract_dkim_domain(dkim_sig: &str) -> (r: Option<String>)
        ensures
            r is Some <==> spec_dkim_domain_from(dkim_sig@, 0) is Some,
            r is Some ==> spec_dkim_domain_from(dkim_sig@, 0) == Some(r->Some_0@),
    {
        let v = str_chars(dkim_sig);
        let n = v.len();
        let prefix = str_chars("d=");
        let mut from: usize = 0;
        loop
            invariant
                0 <= from <= n,
                n == v@.len(),
                v@ == dkim_sig@,
                prefix@ == "d="@,
                spec_dkim_domain_from(dkim_sig@, 0) == spec_dkim_domain_from(
                    dkim_sig@,
                    from as int,
                ),
            decreases n - from,
        {
            let end = match find_char(&v, ';', from) {
                Some(s) => s,
                None => n,
            };
            let part = trim_chars(&chars_range(&v, from, end));
            proof {
                broadcast use vstd::string::group_string_axioms;

                reveal_strlit("d=");
                assert(("d="@).len() == 2 && ("d="@)[0] == 'd' && ("d="@)[1] == '=');
                if part@.len() >= 2 {
                    assert(part@.subrange(0, 2)[0] == part@[0]);
                    assert(part@.subrange(0, 2)[1] == part@[1]);
                }
            }
            if part.len() >= 2 && part[0] == 'd' && part[1] == '=' {
                proof {
                    assert(part@.subrange(0, 2) =~= "d="@);
                }
                let rest = chars_range(&part, 2, part.len());
                let trimmed = trim_chars(&rest);
                let lowered = lower_vec(&trimmed);
                return Some(chars_to_string(&lowered));
            }
            proof {
                assert(!(part@.len() >= 2 && part@.subrange(0, 2) == "d="@));
            }
            if end == n {
                return None;
            }
            from = end + 1;
        }
    }

    /// Structural DKIM verification: the signature must exist, carry the
    /// required fields, and its domain must sign for the From domain. The
    /// cryptographic check against DNS-published keys is out of scope.
    pub fn verify_dkim(parsed: &ParsedEmail) -> (r: Result<bool, EmailError>)
        ensures
            parsed.dkim_signature is None ==> r is Err && r->Err_0 is NoDkimSignature,
            parsed.dkim_signature is Some && !spec_dkim_fields_ok(
                parsed.dkim_signature->Some_0@,
            ) ==> r is Err && r->Err_0 is DkimMissingFields,
            parsed.dkim_signature is Some && spec_dkim_fields_ok(parsed.dkim_signature->Some_0@)
                && !spec_dkim_domain_ok(*parsed) ==> r is Err && r->Err_0 is DkimDomainMismatch,
            spec_dkim_ok(*parsed) ==> r is Ok && r->Ok_0 == true,
    {
        let sig = match &parsed.dkim_signature {
            Some(s) => s,
            None => {
                return Err(EmailError::NoDkimSignature);
            },
        };
        let sig_chars = str_chars(sig.as_str());
        let has_version = contains_chars(&sig_chars, &str_chars("v="));
        let has_algorithm = contains_chars(&sig_chars, &str_chars("a="));
        let has_domain = contains_chars(&sig_chars, &str_chars("d="));
        let has_selector = contains_chars(&sig_chars, &str_chars("s="));
        let has_signature = contains_chars(&sig_chars, &str_chars("b="));
        if !has_version || !has_algorithm || !has_domain || !has_selector || !has_signature {
            return Err(EmailError::DkimMissingFields);
        }
        match &parsed.dkim_domain {
            Some(dkim_domain) => {
                let from_chars = str_chars(parsed.from_domain.as_str());
                let dd_chars = str_chars(dkim_domain.as_str());
                if !ends_with_chars(&from_chars, &dd_chars) && !chars_eq(&dd_chars, &from_chars) {
                    return Err(EmailError::DkimDomainMismatch);
                }
            },
            None => {},
        }
        Ok(true)
    }

    /// Generate a proof record of email domain ownership: the attested
    /// domain (the DKIM domain when present, the From domain otherwise),
    /// the hash of the DKIM signature, and the structural check's verdict.
    pub fn generate_proof(parsed: &ParsedEmail, now_unix: u64) -> (r: Result<
        EmailDomainProof,
        EmailError,
    >)
        ensures
            r is Ok,
            ({
                let p = r->Ok_0;
                &&& p.verified_at == now_unix
                &&& p.dkim_valid == spec_dkim_ok(*parsed)
                &&& (parsed.dkim_signature is Some ==> p.dkim_hash@ == hex_lower(
                    sha256_of(encode_utf8(parsed.dkim_signature->Some_0@)),
                ))
                &&& (parsed.dkim_signature is None ==> p.dkim_hash@ == Seq::<char>::empty())
                &&& (parsed.dkim_domain is Some ==> p.domain@ == parsed.dkim_domain->Some_0@)
                &&& (parsed.dkim_domain is None ==> p.domain@ == parsed.from_domain@)
            }),
    {
        let dkim_valid = match Self::verify_dkim(parsed) {
            Ok(v) => v,
            Err(_) => false,
        };
        let dkim_hash = match &parsed.dkim_signature {
            Some(sig) => {
                let digest = sha256(sig.as_str().as_bytes());
                hex_encode(digest.as_slice())
            },
            None => String::new(),
        };
        let verified_domain = match &parsed.dkim_domain {
            Some(d) => d.clone(),
            None => parsed.from_domain.clone(),
        };
        Ok(
            EmailDomainProof {
                domain: verified_domain,
                dkim_hash,
                dkim_valid,
                verified_at: now_unix,
            },
        )
    }

    /// Convert a domain to a field element for the circuit.
    pub fn domain_to_field(domain: &str) -> (r: Fe)
        ensures
            r@ == spec_str_field(domain@),
    {
        crate::email_proof::string_to_field(domain)
    }
}

/// Result of parsing and verifying an email.
pub struct EmailDomainProof {
    /// The verified domain.
    pub domain: String,
    /// Hash of the DKIM signature, binding the proof.
    pub dkim_hash: String,
    /// Whether the structural DKIM check passed.
    pub dkim_valid: bool,
    /// Timestamp of verification.
    pub verified_at: u64,
}

} // verus!
