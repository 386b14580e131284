//! Character-level text helpers: ASCII case mapping, searching, trimming.
//!
//! The attestation front-ends normalize domains, country codes and
//! authentication results; all of that is ASCII processing, specified
//! here over character sequences.

use vstd::prelude::*;
use vstd::string::*;

verus! {

/// ASCII lower-casing of one character.
pub open spec fn lower_char(c: char) -> char {
    if 'A' <= c && c <= 'Z' {
        (((c as u8) + 32) as u8) as char
    } else {
        c
    }
}

/// ASCII upper-casing of one character.
pub open spec fn upper_char(c: char) -> char {
    if 'a' <= c && c <= 'z' {
        (((c as u8) - 32) as u8) as char
    } else {
        c
    }
}

/// ASCII lower-casing of a character sequence.
pub open spec fn lower_chars(s: Seq<char>) -> Seq<char> {
    s.map_values(|c: char| lower_char(c))
}

/// ASCII upper-casing of a character sequence.
pub open spec fn upper_chars(s: Seq<char>) -> Seq<char> {
    s.map_values(|c: char| upper_char(c))
}

/// The characters of a string.
pub fn str_chars(s: &str) -> (r: Vec<char>)
    ensures
        r@ == s@,
{
    let n = s.unicode_len();
    let mut r: Vec<char> = Vec::new();
    let mut i: usize = 0;
    while i < n
        invariant
            i <= n,
            n == s@.len(),
            r@ == s@.subrange(0, i as int),
        decreases n - i,
    {
        r.push(s.get_char(i));
        i = i + 1;
    }
    proof {
        assert(r@ =~= s@);
    }
    r
}

/// Relies on std's `FromIterator` for `String`: collecting characters
/// builds the string of exactly those characters.
#[verifier::external_body]
pub fn chars_to_string(v: &Vec<char>) -> (r: String)
    ensures
        r@ == v@,
{
    v.iter().collect()
}

/// ASCII lower-casing of a character vector.
pub fn lower_vec(v: &Vec<char>) -> (r: Vec<char>)
    ensures
        r@ == lower_chars(v@),
{
    let mut out: Vec<char> = Vec::new();
    let mut i: usize = 0;
    while i < v.len()
        invariant
            i <= v@.len(),
            out@ == lower_chars(v@).subrange(0, i as int),
        decreases v@.len() - i,
    {
        let c = v[i];
        let lc = if 'A' <= c && c <= 'Z' {
            ((c as u8) + 32) as char
        } else {
            c
        };
        out.push(lc);
        i = i + 1;
    }
    proof {
        assert(out@ =~= lower_chars(v@));
    }
    out
}

/// ASCII upper-casing of a character vector.
pub fn upper_vec(v: &Vec<char>) -> (r: Vec<char>)
    ensures
        r@ == upper_chars(v@),
{
    let mut out: Vec<char> = Vec::new();
    let mut i: usize = 0;
    while i < v.len()
        invariant
            i <= v@.len(),
            out@ == upper_chars(v@).subrange(0, i as int),
        decreases v@.len() - i,
    {
        let c = v[i];
        let uc = if 'a' <= c && c <= 'z' {
            ((c as u8) - 32) as char
        } else {
            c
        };
        out.push(uc);
        i = i + 1;
    }
    proof {
        assert(out@ =~= upper_chars(v@));
    }
    out
}

/// ASCII lower-casing of a string.
pub fn to_ascii_lower(s: &str) -> (r: String)
    ensures
        r@ == lower_chars(s@),
{
    let v = str_chars(s);
    let out = lower_vec(&v);
    chars_to_string(&out)
}

/// ASCII upper-casing of a string.
pub fn to_ascii_upper(s: &str) -> (r: String)
    ensures
        r@ == upper_chars(s@),
{
    let v = str_chars(s);
    let out = upper_vec(&v);
    chars_to_string(&out)
}

/// Equality of two character vectors.
pub fn chars_eq(a: &Vec<char>, b: &Vec<char>) -> (r: bool)
    ensures
        r == (a@ == b@),
{
    if a.len() != b.len() {
        proof {
            assert(a@ != b@);
        }
        return false;
    }
    let mut i: usize = 0;
    while i < a.len()
        invariant
            i <= a@.len(),
            a@.len() == b@.len(),
            forall|j: int| 0 <= j < i ==> a@[j] == b@[j],
        decreases a@.len() - i,
    {
        if a[i] != b[i] {
            return false;
        }
        i = i + 1;
    }
    proof {
        assert(a@ =~= b@);
    }
    true
}

/// Index of the first occurrence of `c` at or after `from`; -1 if none.
pub open spec fn find_from(s: Seq<char>, c: char, from: int) -> int
    decreases s.len() - from,
        when 0 <= from <= s.len()
{
    if from >= s.len() {
        -1
    } else if s[from] == c {
        from
    } else {
        find_from(s, c, from + 1)
    }
}

/// A found occurrence lies between the offset and the end.
pub proof fn lemma_find_from_range(s: Seq<char>, c: char, from: int)
    requires
        0 <= from <= s.len(),
    ensures
        find_from(s, c, from) == -1 || from <= find_from(s, c, from) < s.len(),
    decreases s.len() - from,
{
    if from < s.len() && s[from] != c {
        lemma_find_from_range(s, c, from + 1);
    }
}

/// Find the first occurrence of a character, from an offset.
pub fn find_char(v: &Vec<char>, c: char, from: usize) -> (r: Option<usize>)
    requires
        from <= v@.len(),
    ensures
        r is Some ==> from <= r->Some_0 < v@.len() && find_from(v@, c, from as int)
            == r->Some_0 as int && v@[r->Some_0 as int] == c,
        r is None ==> find_from(v@, c, from as int) == -1,
{
    let mut i = from;
    while i < v.len()
        invariant
            from <= i <= v@.len(),
            find_from(v@, c, from as int) == find_from(v@, c, i as int),
        decreases v@.len() - i,
    {
        if v[i] == c {
            return Some(i);
        }
        i = i + 1;
    }
    None
}

/// A copy of the characters in a range.
pub fn chars_range(v: &Vec<char>, i: usize, j: usize) -> (r: Vec<char>)
    requires
        i <= j <= v@.len(),
    ensures
        r@ == v@.subrange(i as int, j as int),
{
    let mut r: Vec<char> = Vec::new();
    let mut k = i;
    while k < j
        invariant
            i <= k <= j <= v@.len(),
            r@ == v@.subrange(i as int, k as int),
        decreases j - k,
    {
        proof {
            assert(v@.subrange(i as int, k + 1) =~= v@.subrange(i as int, k as int).push(
                v@[k as int],
            ));
        }
        r.push(v[k]);
        k = k + 1;
    }
    r
}

/// Whether `n` occurs as a contiguous part of `h`.
pub open spec fn spec_contains_seq(h: Seq<char>, n: Seq<char>) -> bool {
    exists|i: int| 0 <= i <= h.len() - n.len() && #[trigger] h.subrange(i, i + n.len()) == n
}

/// Whether one character vector occurs inside another.
pub fn contains_chars(h: &Vec<char>, n: &Vec<char>) -> (r: bool)
    ensures
        r == spec_contains_seq(h@, n@),
{
    let nl = n.len();
    let hl = h.len();
    if nl > hl {
        return false;
    }
    if nl == 0 {
        proof {
            assert(h@.subrange(0, 0 + n@.len() as int) =~= n@);
        }
        return true;
    }
    let mut i: usize = 0;
    while i <= hl - nl
        invariant
            nl == n@.len(),
            hl == h@.len(),
            1 <= nl <= hl,
            i <= hl - nl + 1,
            forall|ii: int| 0 <= ii < i ==> #[trigger] h@.subrange(ii, ii + n@.len()) != n@,
        decreases hl - i,
    {
        let mut j: usize = 0;
        let mut matched = true;
        while j < nl
            invariant
                j <= nl,
                nl == n@.len(),
                hl == h@.len(),
                i + nl <= hl,
                matched ==> forall|k: int| 0 <= k < j ==> h@[i + k] == n@[k],
                !matched ==> h@.subrange(i as int, i + n@.len()) != n@,
            decreases nl - j,
        {
            if h[i + j] != n[j] {
                proof {
                    assert(h@.subrange(i as int, i + n@.len())[j as int] == h@[i + j]);
                }
                matched = false;
                j = nl;
            } else {
                j = j + 1;
            }
        }
        if matched {
            proof {
                assert(h@.subrange(i as int, i + n@.len()) =~= n@);
            }
            return true;
        }
        i = i + 1;
    }
    false
}

/// Whether `s` ends with `suf`.
pub open spec fn spec_ends_with(s: Seq<char>, suf: Seq<char>) -> bool {
    s.len() >= suf.len() && s.subrange(s.len() - suf.len(), s.len() as int) == suf
}

/// Whether one character vector ends with another.
pub fn ends_with_chars(s: &Vec<char>, suf: &Vec<char>) -> (r: bool)
    ensures
        r == spec_ends_with(s@, suf@),
{
    let sl = s.len();
    let fl = suf.len();
    if fl > sl {
        return false;
    }
    let tail = chars_range(s, sl - fl, sl);
    let mut i: usize = 0;
    while i < fl
        invariant
            i <= fl,
            fl == suf@.len(),
            tail@ == s@.subrange(s@.len() - suf@.len(), s@.len() as int),
            tail@.len() == fl,
            forall|k: int| 0 <= k < i ==> tail@[k] == suf@[k],
        decreases fl - i,
    {
        if tail[i] != suf[i] {
            return false;
        }
        i = i + 1;
    }
    proof {
        assert(tail@ =~= suf@);
    }
    true
}

/// Whether `s` starts with `pre` at offset `at`.
pub open spec fn spec_starts_with_at(s: Seq<char>, pre: Seq<char>, at: int) -> bool {
    at + pre.len() <= s.len() && s.subrange(at, at + pre.len()) == pre
}

/// Whether a character vector carries a prefix at an offset.
pub fn starts_with_at(s: &Vec<char>, pre: &Vec<char>, at: usize) -> (r: bool)
    requires
        at <= s@.len(),
    ensures
        r == spec_starts_with_at(s@, pre@, at as int),
{
    let pl = pre.len();
    if pl > s.len() - at {
        return false;
    }
    let part = chars_range(s, at, at + pl);
    let mut i: usize = 0;
    while i < pl
        invariant
            i <= pl,
            pl == pre@.len(),
            part@ == s@.subrange(at as int, at + pre@.len()),
            part@.len() == pl,
            forall|k: int| 0 <= k < i ==> part@[k] == pre@[k],
        decreases pl - i,
    {
        if part[i] != pre[i] {
            return false;
        }
        i = i + 1;
    }
    proof {
        assert(part@ =~= pre@);
    }
    true
}

/// ASCII whitespace.
pub open spec fn is_ws(c: char) -> bool {
    c == ' ' || c == '\t' || c == '\r' || c == '\n'
}

/// The first index at or after `from` holding a non-whitespace
/// character; the length if none.
pub open spec fn first_non_ws(s: Seq<char>, from: int) -> int
    decreases s.len() - from,
        when 0 <= from <= s.len()
{
    if from >= s.len() {
        s.len() as int
    } else if is_ws(s[from]) {
        first_non_ws(s, from + 1)
    } else {
        from
    }
}

/// The end of `s` with trailing whitespace removed, scanning down from
/// `upto`.
pub open spec fn end_non_ws(s: Seq<char>, upto: int) -> int
    decreases upto,
        when 0 <= upto <= s.len()
{
    if upto <= 0 {
        0
    } else if is_ws(s[upto - 1]) {
        end_non_ws(s, upto - 1)
    } else {
        upto
    }
}

/// `s` with leading and trailing ASCII whitespace removed.
pub open spec fn spec_trim(s: Seq<char>) -> Seq<char> {
    let a = first_non_ws(s, 0);
    let b = end_non_ws(s, s.len() as int);
    if a <= b {
        s.subrange(a, b)
    } else {
        Seq::empty()
    }
}

/// Trim leading and trailing ASCII whitespace.
pub fn trim_chars(v: &Vec<char>) -> (r: Vec<char>)
    ensures
        r@ == spec_trim(v@),
{
    let n = v.len();
    let mut a: usize = 0;
    while a < n && (v[a] == ' ' || v[a] == '\t' || v[a] == '\r' || v[a] == '\n')
        invariant
            a <= n,
            n == v@.len(),
            first_non_ws(v@, 0) == first_non_ws(v@, a as int),
        decreases n - a,
    {
        a = a + 1;
    }
    let mut b: usize = n;
    while b > a && (v[b - 1] == ' ' || v[b - 1] == '\t' || v[b - 1] == '\r' || v[b - 1] == '\n')
        invariant
            a <= b <= n,
            n == v@.len(),
            first_non_ws(v@, 0) == a,
            end_non_ws(v@, n as int) == end_non_ws(v@, b as int),
        decreases b,
    {
        b = b - 1;
    }
    proof {
        lemma_end_non_ws_le(v@, b as int);
        if b > a {
            assert(end_non_ws(v@, b as int) == b);
        } else {
            assert(b == a);
            let bs = end_non_ws(v@, v@.len() as int);
            assert(bs == end_non_ws(v@, b as int));
            assert(bs <= a);
            if a <= bs {
                assert(a == bs);
                assert(spec_trim(v@) == v@.subrange(a as int, a as int));
            } else {
                assert(spec_trim(v@) == Seq::<char>::empty());
                assert(v@.subrange(a as int, a as int) =~= Seq::<char>::empty());
            }
        }
    }
    chars_range(v, a, b)
}

/// The whitespace-trimmed end never exceeds where the scan started.
proof fn lemma_end_non_ws_le(s: Seq<char>, u: int)
    requires
        0 <= u <= s.len(),
    ensures
        0 <= end_non_ws(s, u) <= u,
    decreases u,
{
    if u > 0 && is_ws(s[u - 1]) {
        lemma_end_non_ws_le(s, u - 1);
    }
}

} // verus!
