//! Character-level text utilities shared by the scrape and delta
//! parsers: substring search, line splitting, trimming, and decimal
//! number parsing, each against an exact sequence-level specification.

use vstd::prelude::*;
use vstd::string::StrSliceExecFns;

verus! {

/// ASCII whitespace, the separator class the scraped text uses.
pub open spec fn is_space(c: char) -> bool {
    c == ' ' || c == '\t' || c == '\n' || c == '\r'
}

/// `n` occurs in `h` at position `i`.
pub open spec fn match_at(h: Seq<char>, n: Seq<char>, i: int) -> bool {
    0 <= i && i + n.len() <= h.len() && h.subrange(i, i + n.len()) == n
}

/// `n` occurs somewhere in `h`.
pub open spec fn contains_seq(h: Seq<char>, n: Seq<char>) -> bool {
    exists|i: int| match_at(h, n, i)
}

/// `p` is a prefix of `h`.
pub open spec fn starts_with_seq(h: Seq<char>, p: Seq<char>) -> bool {
    p.len() <= h.len() && h.subrange(0, p.len() as int) == p
}

/// Copy the characters of `s` into a vector for random access.
pub fn chars_of(s: &str) -> (v: Vec<char>)
    ensures
        v@ == s@,
{
    let n: usize = s.unicode_len();
    let mut v: Vec<char> = Vec::new();
    let mut i: usize = 0;
    while i < n
        invariant
            i <= n,
            n == s@.len(),
            v@ =~= s@.subrange(0, i as int),
        decreases n - i,
    {
        v.push(s.get_char(i));
        i = i + 1;
    }
    proof {
        assert(v@ =~= s@);
    }
    v
}

/// Whether the two string slices hold the same characters.
pub fn str_eq(a: &str, b: &str) -> (r: bool)
    ensures
        r == (a@ == b@),
{
    let na: usize = a.unicode_len();
    let nb: usize = b.unicode_len();
    if na != nb {
        return false;
    }
    let mut i: usize = 0;
    while i < na
        invariant
            i <= na,
            na == a@.len(),
            na == b@.len(),
            forall|j: int| 0 <= j < i ==> a@[j] == b@[j],
        decreases na - i,
    {
        if a.get_char(i) != b.get_char(i) {
            return false;
        }
        i = i + 1;
    }
    proof {
        assert(a@ =~= b@);
    }
    true
}

/// The substring of `s` from `from` (inclusive) to `to` (exclusive), as
/// an owned string.
pub fn substring_string(s: &str, from: usize, to: usize) -> (r: String)
    requires
        from <= to <= s@.len(),
    ensures
        r@ == s@.subrange(from as int, to as int),
{
    s.substring_char(from, to).to_owned()
}

/// Whether `h[lo..hi]` equals `n`.
pub fn eq_at(h: &Vec<char>, lo: usize, hi: usize, n: &Vec<char>) -> (r: bool)
    requires
        lo <= hi <= h@.len(),
    ensures
        r == (h@.subrange(lo as int, hi as int) == n@),
{
    if hi - lo != n.len() {
        proof {
            assert(h@.subrange(lo as int, hi as int).len() != n@.len());
        }
        return false;
    }
    let mut i: usize = 0;
    while i < n.len()
        invariant
            lo <= hi <= h@.len(),
            hi - lo == n@.len(),
            i <= n@.len(),
            forall|j: int| 0 <= j < i ==> h@[lo + j] == n@[j],
        decreases n@.len() - i,
    {
        if h[lo + i] != n[i] {
            proof {
                assert(h@.subrange(lo as int, hi as int)[i as int] != n@[i as int]);
            }
            return false;
        }
        i = i + 1;
    }
    proof {
        assert(h@.subrange(lo as int, hi as int) =~= n@);
    }
    true
}

/// The first position in `[lo, hi - n.len()]` where `n` occurs in `h`,
/// if any; positions are into `h` itself.
pub fn find_sub(h: &Vec<char>, lo: usize, hi: usize, n: &Vec<char>) -> (r: Option<usize>)
    requires
        lo <= hi <= h@.len(),
    ensures
        match r {
            Some(i) => {
                &&& lo <= i && i + n@.len() <= hi
                &&& match_at(h@, n@, i as int)
                &&& forall|j: int|
                    lo <= j < i ==> !(j + n@.len() <= hi && match_at(h@, n@, j))
            },
            None => forall|j: int|
                lo <= j && j + n@.len() <= hi ==> !match_at(h@, n@, j),
        },
{
    if n.len() > hi - lo {
        return None;
    }
    if n.len() == 0 {
        proof {
            assert(h@.subrange(lo as int, lo as int) =~= n@);
        }
        return Some(lo);
    }
    let last: usize = hi - n.len();
    let mut i: usize = lo;
    while i <= last
        invariant
            lo <= i <= last + 1,
            lo <= hi <= h@.len(),
            1 <= n@.len() <= hi - lo,
            last == hi - n@.len(),
            forall|j: int| lo <= j < i ==> !(j + n@.len() <= hi && match_at(h@, n@, j)),
        decreases last + 1 - i,
    {
        if eq_at(h, i, i + n.len(), n) {
            proof {
                assert(match_at(h@, n@, i as int));
            }
            return Some(i);
        }
        i = i + 1;
    }
    None
}

/// Whether `n` occurs in `h[lo..hi]`.
pub fn contains_at(h: &Vec<char>, lo: usize, hi: usize, n: &Vec<char>) -> (r: bool)
    requires
        lo <= hi <= h@.len(),
    ensures
        r == contains_seq(h@.subrange(lo as int, hi as int), n@),
{
    let found = find_sub(h, lo, hi, n);
    proof {
        let seg = h@.subrange(lo as int, hi as int);
        if found is Some {
            let i = found->0 as int;
            assert(seg.subrange(i - lo, i - lo + n@.len()) =~= h@.subrange(i, i + n@.len()));
            assert(match_at(seg, n@, i - lo));
        } else {
            assert forall|k: int| !match_at(seg, n@, k) by {
                if 0 <= k && k + n@.len() <= seg.len() {
                    assert(!match_at(h@, n@, lo + k));
                    assert(seg.subrange(k, k + n@.len()) =~= h@.subrange(
                        lo + k,
                        lo + k + n@.len(),
                    ));
                }
            }
        }
    }
    found.is_some()
}

/// Whether `h[lo..hi]` starts with `p`.
pub fn starts_with_at(h: &Vec<char>, lo: usize, hi: usize, p: &Vec<char>) -> (r: bool)
    requires
        lo <= hi <= h@.len(),
    ensures
        r == starts_with_seq(h@.subrange(lo as int, hi as int), p@),
{
    if p.len() > hi - lo {
        return false;
    }
    let r = eq_at(h, lo, lo + p.len(), p);
    proof {
        assert(h@.subrange(lo as int, hi as int).subrange(0, p@.len() as int) =~= h@.subrange(
            lo as int,
            lo + p@.len(),
        ));
    }
    r
}

/// The first position of `c` in `h[lo..hi]`, if any.
pub fn find_char(h: &Vec<char>, lo: usize, hi: usize, c: char) -> (r: Option<usize>)
    requires
        lo <= hi <= h@.len(),
    ensures
        match r {
            Some(i) => {
                &&& lo <= i < hi
                &&& h@[i as int] == c
                &&& forall|j: int| lo <= j < i ==> h@[j] != c
            },
            None => forall|j: int| lo <= j < hi ==> h@[j] != c,
        },
{
    let mut i: usize = lo;
    while i < hi
        invariant
            lo <= i <= hi <= h@.len(),
            forall|j: int| lo <= j < i ==> h@[j] != c,
        decreases hi - i,
    {
        if h[i] == c {
            return Some(i);
        }
        i = i + 1;
    }
    None
}

/// Shrink `[lo, hi)` from both ends past ASCII whitespace.
pub fn trim_at(h: &Vec<char>, lo: usize, hi: usize) -> (r: (usize, usize))
    requires
        lo <= hi <= h@.len(),
    ensures
        lo <= r.0 <= r.1 <= hi,
        forall|j: int| lo <= j < r.0 ==> is_space(h@[j]),
        forall|j: int| r.1 <= j < hi ==> is_space(h@[j]),
        r.0 < r.1 ==> !is_space(h@[r.0 as int]) && !is_space(h@[r.1 - 1]),
{
    let mut a: usize = lo;
    let mut b: usize = hi;
    while a < b && (h[a] == ' ' || h[a] == '\t' || h[a] == '\n' || h[a] == '\r')
        invariant
            lo <= a <= b <= hi <= h@.len(),
            forall|j: int| lo <= j < a ==> is_space(h@[j]),
            b == hi,
        decreases b - a,
    {
        a = a + 1;
    }
    while a < b && (h[b - 1] == ' ' || h[b - 1] == '\t' || h[b - 1] == '\n' || h[b - 1]
        == '\r')
        invariant
            lo <= a <= b <= hi <= h@.len(),
            forall|j: int| b <= j < hi ==> is_space(h@[j]),
            a < b ==> !is_space(h@[a as int]),
        decreases b,
    {
        b = b - 1;
    }
    (a, b)
}

/// Decimal digits and their value.
pub open spec fn is_digit(c: char) -> bool {
    '0' <= c && c <= '9'
}

pub open spec fn digit_val(c: char) -> nat {
    (c as nat - '0' as nat) as nat
}

pub open spec fn all_digits(s: Seq<char>) -> bool {
    forall|j: int| 0 <= j < s.len() ==> is_digit(s[j])
}

/// The value of a digit string, most significant digit first.
pub open spec fn digits_val(s: Seq<char>) -> nat
    decreases s.len(),
{
    if s.len() == 0 {
        0
    } else {
        digits_val(s.drop_last()) * 10 + digit_val(s.last())
    }
}

/// A longer digit string never has a smaller value than its prefix.
proof fn lemma_digits_val_prefix_le(s: Seq<char>, i: int)
    requires
        0 <= i <= s.len(),
    ensures
        digits_val(s.subrange(0, i)) <= digits_val(s),
    decreases s.len() - i,
{
    if i < s.len() {
        let t = s.subrange(0, i + 1);
        assert(t.drop_last() =~= s.subrange(0, i));
        lemma_digits_val_prefix_le(s, i + 1);
        assert(s.subrange(0, s.len() as int) =~= s);
    } else {
        assert(s.subrange(0, i) =~= s);
    }
}

/// What a decimal field parses to: the digits' value when the whole
/// range is one or more digits, optionally preceded by `+`, and the
/// value fits in a `u64`; nothing otherwise.
pub open spec fn parsed_u64(s: Seq<char>) -> Option<u64> {
    let digs = if s.len() > 0 && s[0] == '+' {
        s.subrange(1, s.len() as int)
    } else {
        s
    };
    if digs.len() > 0 && all_digits(digs) && digits_val(digs) <= u64::MAX {
        Some(digits_val(digs) as u64)
    } else {
        None
    }
}

/// Parse `h[lo..hi]` as a decimal `u64`, as the standard integer
/// parser would: digits only (after an optional leading `+`), rejecting
/// empty fields and values that overflow.
pub fn parse_u64_at(h: &Vec<char>, lo: usize, hi: usize) -> (r: Option<u64>)
    requires
        lo <= hi <= h@.len(),
    ensures
        r == parsed_u64(h@.subrange(lo as int, hi as int)),
{
    let ghost whole = h@.subrange(lo as int, hi as int);
    let start: usize = if lo < hi && h[lo] == '+' {
        lo + 1
    } else {
        lo
    };
    let ghost digs = h@.subrange(start as int, hi as int);
    proof {
        if whole.len() > 0 && whole[0] == '+' {
            assert(whole.subrange(1, whole.len() as int) =~= digs);
        } else {
            assert(whole =~= digs);
        }
    }
    if start == hi {
        return None;
    }
    let mut acc: u64 = 0;
    let mut i: usize = start;
    while i < hi
        invariant
            start <= i <= hi <= h@.len(),
            lo <= start,
            digs == h@.subrange(start as int, hi as int),
            parsed_u64(h@.subrange(lo as int, hi as int)) == (if digs.len() > 0
                && all_digits(digs) && digits_val(digs) <= u64::MAX {
                Some(digits_val(digs) as u64)
            } else {
                None::<u64>
            }),
            all_digits(h@.subrange(start as int, i as int)),
            acc == digits_val(h@.subrange(start as int, i as int)),
        decreases hi - i,
    {
        let c = h[i];
        if !('0' <= c && c <= '9') {
            proof {
                assert(digs[i - start] == c);
                assert(!is_digit(digs[i - start]));
                assert(!all_digits(digs));
            }
            return None;
        }
        let d: u64 = (c as u32 - '0' as u32) as u64;
        let ghost pre = h@.subrange(start as int, i as int);
        let ghost pre1 = h@.subrange(start as int, i + 1);
        proof {
            assert(pre1.drop_last() =~= pre);
            assert(pre1.last() == c);
        }
        let limit: u64 = u64::MAX / 10;
        if acc > limit || (acc == limit && d > u64::MAX % 10) {
            proof {
                assert(digits_val(pre1) > u64::MAX);
                lemma_digits_val_prefix_le(digs, i + 1 - start);
                assert(digs.subrange(0, i + 1 - start) =~= pre1);
                assert(digits_val(digs) > u64::MAX);
            }
            return None;
        }
        acc = acc * 10 + d;
        i = i + 1;
    }
    proof {
        assert(h@.subrange(start as int, i as int) =~= digs);
    }
    Some(acc)
}

/// What a decimal field parses to as a `u32`.
pub open spec fn parsed_u32(s: Seq<char>) -> Option<u32> {
    match parsed_u64(s) {
        Some(v) => if v <= u32::MAX {
            Some(v as u32)
        } else {
            None
        },
        None => None,
    }
}

/// Parse `h[lo..hi]` as a decimal `u32`.
pub fn parse_u32_at(h: &Vec<char>, lo: usize, hi: usize) -> (r: Option<u32>)
    requires
        lo <= hi <= h@.len(),
    ensures
        r == parsed_u32(h@.subrange(lo as int, hi as int)),
{
    match parse_u64_at(h, lo, hi) {
        Some(v) => {
            if v <= u32::MAX as u64 {
                Some(v as u32)
            } else {
                None
            }
        },
        None => None,
    }
}

/// The first position at or after `i` holding a character that is not
/// ASCII whitespace; the sequence's length when none is.
pub open spec fn skip_space(s: Seq<char>, i: int) -> int
    decreases s.len() - i,
{
    if !(0 <= i < s.len()) {
        s.len() as int
    } else if is_space(s[i]) {
        skip_space(s, i + 1)
    } else {
        i
    }
}

pub proof fn lemma_skip_space_eq(s: Seq<char>, from: int, k: int)
    requires
        0 <= from <= k <= s.len(),
        forall|j: int| from <= j < k ==> is_space(s[j]),
        k < s.len() ==> !is_space(s[k]),
    ensures
        skip_space(s, from) == k,
    decreases k - from,
{
    if from < k {
        lemma_skip_space_eq(s, from + 1, k);
    }
}

/// The first position at or after `i` holding ASCII whitespace; the
/// sequence's length when none is.
pub open spec fn token_end(s: Seq<char>, i: int) -> int
    decreases s.len() - i,
{
    if !(0 <= i < s.len()) {
        s.len() as int
    } else if !is_space(s[i]) {
        token_end(s, i + 1)
    } else {
        i
    }
}

pub proof fn lemma_token_end_eq(s: Seq<char>, from: int, k: int)
    requires
        0 <= from <= k <= s.len(),
        forall|j: int| from <= j < k ==> !is_space(s[j]),
        k < s.len() ==> is_space(s[k]),
    ensures
        token_end(s, from) == k,
    decreases k - from,
{
    if from < k {
        lemma_token_end_eq(s, from + 1, k);
    }
}

/// The first position at or after `i` where `n` occurs in `s`.
pub open spec fn find_at(s: Seq<char>, n: Seq<char>, i: int) -> Option<int>
    decreases s.len() - i,
{
    if i < 0 || i + n.len() > s.len() {
        None
    } else if n.len() == 0 {
        Some(i)
    } else if match_at(s, n, i) {
        Some(i)
    } else {
        find_at(s, n, i + 1)
    }
}

pub proof fn lemma_find_at_some(s: Seq<char>, n: Seq<char>, from: int, k: int)
    requires
        0 <= from <= k,
        match_at(s, n, k),
        forall|j: int| from <= j < k ==> !match_at(s, n, j),
    ensures
        find_at(s, n, from) == Some(k),
    decreases k - from,
{
    if from < k {
        if n.len() == 0 {
            assert(s.subrange(from, from) =~= n);
            assert(match_at(s, n, from));
        } else {
            lemma_find_at_some(s, n, from + 1, k);
        }
    }
}

pub proof fn lemma_find_at_none(s: Seq<char>, n: Seq<char>, from: int)
    requires
        0 <= from,
        forall|j: int| from <= j ==> !match_at(s, n, j),
    ensures
        find_at(s, n, from) == None::<int>,
    decreases s.len() - from,
{
    if !(from + n.len() > s.len()) {
        if n.len() == 0 {
            assert(s.subrange(from, from) =~= n);
            assert(match_at(s, n, from));
        } else {
            lemma_find_at_none(s, n, from + 1);
        }
    }
}

/// The position of the first occurrence of `c` at or after `i`; the
/// sequence's length when there is none.
pub open spec fn first_char_from(s: Seq<char>, c: char, i: int) -> int
    decreases s.len() - i,
{
    if !(0 <= i < s.len()) {
        s.len() as int
    } else if s[i] == c {
        i
    } else {
        first_char_from(s, c, i + 1)
    }
}

pub proof fn lemma_first_char_from_eq(s: Seq<char>, c: char, from: int, k: int)
    requires
        0 <= from <= k <= s.len(),
        forall|j: int| from <= j < k ==> s[j] != c,
        k < s.len() ==> s[k] == c,
    ensures
        first_char_from(s, c, from) == k,
    decreases k - from,
{
    if from < k {
        lemma_first_char_from_eq(s, c, from + 1, k);
    }
}

/// The position of the first newline at or after `i`; the sequence's
/// length when there is none.
pub open spec fn first_nl(s: Seq<char>, i: int) -> int
    decreases s.len() - i,
{
    if !(0 <= i < s.len()) {
        s.len() as int
    } else if s[i] == '\n' {
        i
    } else {
        first_nl(s, i + 1)
    }
}

pub proof fn lemma_first_nl_eq(s: Seq<char>, from: int, k: int)
    requires
        0 <= from <= k <= s.len(),
        forall|j: int| from <= j < k ==> s[j] != '\n',
        k < s.len() ==> s[k] == '\n',
    ensures
        first_nl(s, from) == k,
    decreases k - from,
{
    if from < k {
        lemma_first_nl_eq(s, from + 1, k);
    }
}

/// The text split at every newline, the way a line iterator splits it:
/// the newline separates lines, and a final newline ends the last line
/// rather than opening an empty one.
pub open spec fn lines_of(s: Seq<char>) -> Seq<Seq<char>>
    decreases s.len(),
    via lines_of_decreases
{
    if s.len() == 0 {
        Seq::empty()
    } else {
        let k = first_nl(s, 0);
        if k == s.len() {
            seq![s]
        } else {
            seq![s.subrange(0, k)] + lines_of(s.subrange(k + 1, s.len() as int))
        }
    }
}

/// The first newline lies between the start position and the end.
pub proof fn lemma_first_nl_bounds(s: Seq<char>, i: int)
    requires
        0 <= i <= s.len(),
    ensures
        i <= first_nl(s, i) <= s.len(),
    decreases s.len() - i,
{
    if i < s.len() && s[i] != '\n' {
        lemma_first_nl_bounds(s, i + 1);
    }
}

#[via_fn]
proof fn lines_of_decreases(s: Seq<char>) {
    if s.len() > 0 {
        lemma_first_nl_bounds(s, 0);
    }
}

/// A line with a trailing carriage return stripped, the way a line
/// iterator strips it.
pub open spec fn strip_cr(l: Seq<char>) -> Seq<char> {
    if l.len() > 0 && l.last() == '\r' {
        l.drop_last()
    } else {
        l
    }
}

/// `s` with every successive occurrence of the prefix `p` removed.
pub open spec fn strip_all(s: Seq<char>, p: Seq<char>) -> Seq<char>
    decreases s.len(),
{
    if p.len() > 0 && p.len() <= s.len() && starts_with_seq(s, p) {
        strip_all(s.subrange(p.len() as int, s.len() as int), p)
    } else {
        s
    }
}

/// Advance `lo` past every successive occurrence of the prefix `p`.
pub fn strip_all_at(h: &Vec<char>, lo: usize, hi: usize, p: &Vec<char>) -> (r: usize)
    requires
        lo <= hi <= h@.len(),
        p@.len() > 0,
    ensures
        lo <= r <= hi,
        h@.subrange(r as int, hi as int) == strip_all(h@.subrange(lo as int, hi as int), p@),
{
    let mut a: usize = lo;
    while starts_with_at(h, a, hi, p)
        invariant
            lo <= a <= hi <= h@.len(),
            p@.len() > 0,
            strip_all(h@.subrange(a as int, hi as int), p@) == strip_all(
                h@.subrange(lo as int, hi as int),
                p@,
            ),
        decreases hi - a,
    {
        proof {
            let cur = h@.subrange(a as int, hi as int);
            assert(cur.subrange(p@.len() as int, cur.len() as int) =~= h@.subrange(
                a + p@.len(),
                hi as int,
            ));
        }
        a = a + p.len();
    }
    proof {
        assert(strip_all(h@.subrange(a as int, hi as int), p@) == h@.subrange(
            a as int,
            hi as int,
        ));
    }
    a
}

/// The range trimmed of ASCII whitespace at both ends: empty when all
/// whitespace, otherwise from the first to past the last non-blank.
pub open spec fn rskip_space(s: Seq<char>, i: int) -> int
    decreases i,
{
    if i <= 0 || i > s.len() {
        0
    } else if is_space(s[i - 1]) {
        rskip_space(s, i - 1)
    } else {
        i
    }
}

pub proof fn lemma_rskip_space_eq(s: Seq<char>, k: int, from: int)
    requires
        0 <= k <= from <= s.len(),
        forall|j: int| k <= j < from ==> is_space(s[j]),
        k > 0 ==> !is_space(s[k - 1]),
    ensures
        rskip_space(s, from) == k,
    decreases from - k,
{
    if k < from {
        lemma_rskip_space_eq(s, k, from - 1);
    }
}

/// `s` trimmed of ASCII whitespace at both ends.
pub open spec fn trim_seq(s: Seq<char>) -> Seq<char> {
    let a = skip_space(s, 0);
    let b = rskip_space(s, s.len() as int);
    if a >= b {
        Seq::empty()
    } else {
        s.subrange(a, b)
    }
}

/// Parse a whole string as a decimal `u64` after trimming ASCII
/// whitespace at both ends, as the scraped counter files are read.
pub fn parse_u64_trimmed(s: &str) -> (r: Option<u64>)
    ensures
        r == parsed_u64(trim_seq(s@)),
{
    let h = chars_of(s);
    let hn = h.len();
    let (a, b) = trim_at(&h, 0, hn);
    proof {
        if a < b {
            lemma_skip_space_eq(h@, 0, a as int);
            lemma_rskip_space_eq(h@, b as int, h@.len() as int);
            assert(trim_seq(s@) =~= h@.subrange(a as int, b as int));
        } else {
            lemma_skip_space_eq(h@, 0, h@.len() as int);
            lemma_rskip_space_eq(h@, 0, h@.len() as int);
            assert(trim_seq(s@) =~= Seq::<char>::empty());
            assert(h@.subrange(a as int, b as int) =~= Seq::<char>::empty());
        }
    }
    parse_u64_at(&h, a, b)
}

/// Parse a whole string as a decimal `u32` after trimming ASCII
/// whitespace at both ends.
pub fn parse_u32_trimmed(s: &str) -> (r: Option<u32>)
    ensures
        r == parsed_u32(trim_seq(s@)),
{
    let h = chars_of(s);
    let hn = h.len();
    let (a, b) = trim_at(&h, 0, hn);
    proof {
        if a < b {
            lemma_skip_space_eq(h@, 0, a as int);
            lemma_rskip_space_eq(h@, b as int, h@.len() as int);
            assert(trim_seq(s@) =~= h@.subrange(a as int, b as int));
        } else {
            lemma_skip_space_eq(h@, 0, h@.len() as int);
            lemma_rskip_space_eq(h@, 0, h@.len() as int);
            assert(trim_seq(s@) =~= Seq::<char>::empty());
            assert(h@.subrange(a as int, b as int) =~= Seq::<char>::empty());
        }
    }
    parse_u32_at(&h, a, b)
}

} // verus!
