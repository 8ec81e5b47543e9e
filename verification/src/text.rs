//! Byte-string helpers shared by the parsers and the resolver stages.
//!
//! Service names travel through the proxy as raw bytes: they are extracted
//! from wire data and are not validated beyond that. This module gives the
//! few primitive operations the rest of the crate needs — equality, prefix
//! and suffix tests, whitespace trimming, and decimal port parsing — each
//! specified against a direct mathematical description.

use vstd::prelude::*;

verus! {

/// ASCII whitespace: space and the control characters tab through
/// carriage return.
pub open spec fn is_ws(b: u8) -> bool {
    b == 32 || (9 <= b && b <= 13)
}

/// ASCII lower-casing of a single byte; bytes outside `A..=Z` are unchanged.
pub open spec fn lower(b: u8) -> u8 {
    if 65 <= b && b <= 90 {
        (b + 32) as u8
    } else {
        b
    }
}

/// Case-insensitive ASCII equality of two byte strings.
pub open spec fn eq_ignore_case(a: Seq<u8>, b: Seq<u8>) -> bool {
    a.len() == b.len() && forall|i: int| 0 <= i < a.len() ==> lower(a[i]) == lower(b[i])
}

/// Index of the first occurrence of `c` in `s`, if any.
pub open spec fn find_byte(s: Seq<u8>, c: u8) -> Option<int>
    decreases s.len(),
{
    if s.len() == 0 {
        None
    } else if s[0] == c {
        Some(0)
    } else {
        match find_byte(s.drop_first(), c) {
            Some(i) => Some(i + 1),
            None => None,
        }
    }
}

/// What `find_byte` returns is exactly the first occurrence.
pub proof fn lemma_find_byte(s: Seq<u8>, c: u8)
    ensures
        match find_byte(s, c) {
            Some(i) => 0 <= i < s.len() && s[i] == c && forall|k: int| 0 <= k < i ==> s[k] != c,
            None => forall|k: int| 0 <= k < s.len() ==> s[k] != c,
        },
    decreases s.len(),
{
    if s.len() > 0 && s[0] != c {
        lemma_find_byte(s.drop_first(), c);
        let r = find_byte(s.drop_first(), c);
        match r {
            Some(j) => {
                assert forall|k: int| 0 <= k < j + 1 implies s[k] != c by {
                    if k > 0 {
                        assert(s.drop_first()[k - 1] != c);
                    }
                }
            },
            None => {
                assert forall|k: int| 0 <= k < s.len() implies s[k] != c by {
                    if k > 0 {
                        assert(s.drop_first()[k - 1] != c);
                    }
                }
            },
        }
    }
}

/// `s` with leading ASCII whitespace removed.
pub open spec fn trim_start(s: Seq<u8>) -> Seq<u8>
    decreases s.len(),
{
    if s.len() > 0 && is_ws(s[0]) {
        trim_start(s.drop_first())
    } else {
        s
    }
}

/// `s` with trailing ASCII whitespace removed.
pub open spec fn trim_end(s: Seq<u8>) -> Seq<u8>
    decreases s.len(),
{
    if s.len() > 0 && is_ws(s.last()) {
        trim_end(s.drop_last())
    } else {
        s
    }
}

/// `s` with leading and trailing ASCII whitespace removed.
pub open spec fn trim(s: Seq<u8>) -> Seq<u8> {
    trim_end(trim_start(s))
}

/// Dropping a known-whitespace prefix is what `trim_start` does.
proof fn lemma_trim_start_skip(s: Seq<u8>, lo: int)
    requires
        0 <= lo <= s.len(),
        forall|k: int| 0 <= k < lo ==> is_ws(s[k]),
        lo < s.len() ==> !is_ws(s[lo]),
    ensures
        trim_start(s) == s.skip(lo),
    decreases lo,
{
    if lo == 0 {
        assert(s.skip(0) =~= s);
    } else {
        assert(is_ws(s[0]));
        lemma_trim_start_skip(s.drop_first(), lo - 1);
        assert(s.drop_first().skip(lo - 1) =~= s.skip(lo));
    }
}

/// Dropping a known-whitespace suffix is what `trim_end` does.
proof fn lemma_trim_end_take(s: Seq<u8>, hi: int)
    requires
        0 <= hi <= s.len(),
        forall|k: int| hi <= k < s.len() ==> is_ws(s[k]),
        hi > 0 ==> !is_ws(s[hi - 1]),
    ensures
        trim_end(s) == s.take(hi),
    decreases s.len() - hi,
{
    if hi == s.len() {
        assert(s.take(hi) =~= s);
    } else {
        assert(is_ws(s.last()));
        lemma_trim_end_take(s.drop_last(), hi);
        assert(s.drop_last().take(hi) =~= s.take(hi));
    }
}

/// Byte-for-byte equality of two byte strings.
pub fn bytes_eq(a: &[u8], b: &[u8]) -> (r: bool)
    ensures
        r == (a@ == b@),
{
    if a.len() != b.len() {
        return false;
    }
    let n = a.len();
    for i in 0..n
        invariant
            n == a@.len() == b@.len(),
            forall|k: int| 0 <= k < i ==> a@[k] == b@[k],
    {
        if a[i] != b[i] {
            return false;
        }
    }
    proof {
        assert(a@ =~= b@);
    }
    true
}

/// Whether `p` is a prefix of `b`.
pub fn starts_with(b: &[u8], p: &[u8]) -> (r: bool)
    ensures
        r == p@.is_prefix_of(b@),
{
    if p.len() > b.len() {
        return false;
    }
    let n = p.len();
    for i in 0..n
        invariant
            n == p@.len() <= b@.len(),
            forall|k: int| 0 <= k < i ==> b@[k] == p@[k],
    {
        if b[i] != p[i] {
            return false;
        }
    }
    proof {
        assert(b@.take(p@.len() as int) =~= p@);
    }
    true
}

/// Whether `s` is a suffix of `b`.
pub fn ends_with(b: &[u8], s: &[u8]) -> (r: bool)
    ensures
        r == s@.is_suffix_of(b@),
{
    if s.len() > b.len() {
        return false;
    }
    let off = b.len() - s.len();
    let n = s.len();
    let mut i: usize = 0;
    let mut j: usize = off;
    while i < n
        invariant
            n == s@.len() <= b@.len(),
            off == b@.len() - s@.len(),
            0 <= i <= n,
            j == off + i,
            forall|k: int| 0 <= k < i ==> b@[off + k] == s@[k],
        decreases n - i,
    {
        if b[j] != s[i] {
            return false;
        }
        i += 1;
        j += 1;
    }
    proof {
        assert(b@.skip(off as int) =~= s@);
    }
    true
}

/// A fresh copy of `b[i..j]`.
pub fn copy_range(b: &[u8], i: usize, j: usize) -> (r: Vec<u8>)
    requires
        i <= j <= b@.len(),
    ensures
        r@ == b@.subrange(i as int, j as int),
{
    let mut out: Vec<u8> = Vec::new();
    let mut k = i;
    while k < j
        invariant
            i <= k <= j <= b@.len(),
            out@ =~= b@.subrange(i as int, k as int),
        decreases j - k,
    {
        out.push(b[k]);
        k += 1;
        proof {
            assert(out@ =~= b@.subrange(i as int, k as int));
        }
    }
    out
}

/// A fresh copy of the whole of `b`.
pub fn to_vec_copy(b: &[u8]) -> (r: Vec<u8>)
    ensures
        r@ == b@,
{
    let r = copy_range(b, 0, b.len());
    proof {
        assert(b@.subrange(0, b@.len() as int) =~= b@);
    }
    r
}

/// A fresh copy of `b` with leading and trailing ASCII whitespace removed.
pub fn trim_copy(b: &[u8]) -> (r: Vec<u8>)
    ensures
        r@ == trim(b@),
{
    let n = b.len();
    let mut lo: usize = 0;
    while lo < n && (b[lo] == 32 || (b[lo] >= 9 && b[lo] <= 13))
        invariant
            0 <= lo <= n == b@.len(),
            forall|k: int| 0 <= k < lo ==> is_ws(b@[k]),
        decreases n - lo,
    {
        lo += 1;
    }
    proof {
        lemma_trim_start_skip(b@, lo as int);
    }
    let mut hi: usize = n;
    while hi > lo && (b[hi - 1] == 32 || (b[hi - 1] >= 9 && b[hi - 1] <= 13))
        invariant
            lo <= hi <= n == b@.len(),
            forall|k: int| 0 <= k < lo ==> is_ws(b@[k]),
            forall|k: int| hi <= k < n ==> is_ws(b@[k]),
            lo < n ==> !is_ws(b@[lo as int]),
        decreases hi,
    {
        hi -= 1;
    }
    proof {
        let t = b@.skip(lo as int);
        lemma_trim_end_take(t, hi - lo);
        assert(t.take(hi - lo) =~= b@.subrange(lo as int, hi as int));
    }
    copy_range(b, lo, hi)
}

/// Whether some entry of `list` is a suffix of `name`.
pub open spec fn has_suffix_in(list: Seq<Seq<u8>>, name: Seq<u8>) -> bool {
    exists|i: int| 0 <= i < list.len() && (#[trigger] list[i]).is_suffix_of(name)
}

/// Whether some entry of `list` is a suffix of `name`.
pub fn matches_suffix(list: &Vec<Vec<u8>>, name: &[u8]) -> (r: bool)
    ensures
        r == has_suffix_in(list.deep_view(), name@),
{
    let n = list.len();
    for i in 0..n
        invariant
            n == list@.len(),
            forall|k: int| 0 <= k < i ==> !(#[trigger] list.deep_view()[k]).is_suffix_of(name@),
    {
        proof {
            assert(list.deep_view()[i as int] == list@[i as int]@);
        }
        if ends_with(name, list[i].as_slice()) {
            return true;
        }
    }
    false
}

/// Whether `b` is an ASCII decimal digit.
pub open spec fn is_digit(b: u8) -> bool {
    48 <= b && b <= 57
}

/// The value of a string of decimal digits.
pub open spec fn digits_value(s: Seq<u8>) -> int
    decreases s.len(),
{
    if s.len() == 0 {
        0
    } else {
        digits_value(s.drop_last()) * 10 + (s.last() - 48)
    }
}

proof fn lemma_digits_value_nonneg(s: Seq<u8>)
    requires
        forall|k: int| 0 <= k < s.len() ==> is_digit(s[k]),
    ensures
        digits_value(s) >= 0,
    decreases s.len(),
{
    if s.len() > 0 {
        lemma_digits_value_nonneg(s.drop_last());
    }
}

/// The value of a digit string never drops when digits are appended.
proof fn lemma_digits_value_grows(s: Seq<u8>, i: int)
    requires
        0 <= i <= s.len(),
        forall|k: int| 0 <= k < s.len() ==> is_digit(s[k]),
    ensures
        digits_value(s.take(i)) <= digits_value(s),
    decreases s.len() - i,
{
    if i < s.len() {
        lemma_digits_value_grows(s, i + 1);
        let t = s.take(i + 1);
        assert(t.drop_last() =~= s.take(i));
        lemma_digits_value_nonneg(s.take(i));
        assert(digits_value(s.take(i)) <= digits_value(t));
    } else {
        assert(s.take(i) =~= s);
    }
}

/// Whether every byte of `s` is a decimal digit.
pub open spec fn all_digits(s: Seq<u8>) -> bool {
    forall|k: int| 0 <= k < s.len() ==> is_digit(s[k])
}

/// `s` with one leading `+` removed, if present.
pub open spec fn plus_stripped(s: Seq<u8>) -> Seq<u8> {
    if s.len() > 0 && s[0] == 43 {
        s.drop_first()
    } else {
        s
    }
}

/// The decimal value named by `s`: an optional leading `+`, then one or more
/// digits, worth at most `u16::MAX`; anything else has no value.
pub open spec fn parse_u16_spec(s: Seq<u8>) -> Option<u16> {
    if plus_stripped(s).len() > 0 && all_digits(plus_stripped(s)) && digits_value(
        plus_stripped(s),
    ) <= 65535 {
        Some(digits_value(plus_stripped(s)) as u16)
    } else {
        None
    }
}

/// Parses a decimal port number, mirroring what `parse_u16_spec` names.
pub fn parse_u16(s: &[u8]) -> (r: Option<u16>)
    ensures
        r == parse_u16_spec(s@),
{
    let start: usize = if s.len() > 0 && s[0] == 43 {
        1
    } else {
        0
    };
    let ghost body = plus_stripped(s@);
    proof {
        assert(body =~= s@.skip(start as int));
    }
    if s.len() == start {
        return None;
    }
    let n = s.len();
    let mut acc: u32 = 0;
    let mut i = start;
    while i < n
        invariant
            start <= i <= n == s@.len(),
            start < n,
            body == s@.skip(start as int),
            body == plus_stripped(s@),
            forall|k: int| start <= k < i ==> is_digit(s@[k]),
            acc == digits_value(body.take(i - start)),
            acc <= 65535,
        decreases n - i,
    {
        let d = s[i];
        proof {
            assert(0 <= i - start < body.len());
            assert(body[i - start] == s@[i as int]);
        }
        if d < 48 || d > 57 {
            proof {
                assert(!is_digit(body[i - start]));
                assert(!all_digits(body));
            }
            return None;
        }
        let next: u32 = acc * 10 + ((d - 48) as u32);
        proof {
            assert(body.take(i + 1 - start).drop_last() =~= body.take(i - start));
            assert(body.take(i + 1 - start).last() == body[i - start]);
        }
        if next > 65535 {
            proof {
                assert(parse_u16_spec(s@) is None) by {
                    if all_digits(body) {
                        lemma_digits_value_grows(body, i + 1 - start);
                        assert(digits_value(body.take(i + 1 - start)) == next);
                        assert(digits_value(body) > 65535);
                    }
                };
            }
            return None;
        }
        acc = next;
        i += 1;
    }
    proof {
        assert(body.take(n - start) =~= body);
        assert forall|k: int| 0 <= k < body.len() implies is_digit(body[k]) by {
            assert(body[k] == s@[k + start]);
        }
    }
    Some(acc as u16)
}

} // verus!
