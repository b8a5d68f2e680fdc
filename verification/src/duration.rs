//! Durations ("500ms", "5s", "2m", "1h", "30") and byte sizes ("50M",
//! "10kb", "2g", "1024") as typed on the command line.

use vstd::prelude::*;
use crate::text::{
    ascii_lower, chars_of, eq_ignore_ascii_case_seq, parse_u64_range, parse_u64_seq,
    trim_bounds, trim_seq,
};

verus! {

broadcast use vstd::string::group_string_axioms;

/// A duration in milliseconds.
#[derive(Debug, Clone, Copy, PartialEq, Eq, Structural)]
pub struct BgrunDuration(pub u64);

/// A size in bytes.
#[derive(Debug, Clone, Copy, PartialEq, Eq, Structural)]
pub struct BgrunSize(pub u64);

/// Why a duration or size was refused; holds the trimmed input.
#[derive(Debug, Clone, PartialEq)]
pub enum UnitParseError {
    InvalidDuration(String),
    InvalidSize(String),
}

impl UnitParseError {
    /// The message: `invalid duration: "<text>"` or `invalid size: "<text>"`,
    /// the text quoted as `{:?}` does.
    pub fn to_string(&self) -> (r: String)
        ensures
            match self {
                UnitParseError::InvalidDuration(t) => r@ == "invalid duration: "@ + crate::text::debug_str(t@),
                UnitParseError::InvalidSize(t) => r@ == "invalid size: "@ + crate::text::debug_str(t@),
            },
    {
        match self {
            UnitParseError::InvalidDuration(t) => {
                let mut s = crate::text::owned("invalid duration: ");
                crate::text::append_str(&mut s, crate::text::debug_quote(t.as_str()).as_str());
                s
            },
            UnitParseError::InvalidSize(t) => {
                let mut s = crate::text::owned("invalid size: ");
                crate::text::append_str(&mut s, crate::text::debug_quote(t.as_str()).as_str());
                s
            },
        }
    }
}

/// `n` with the suffix of length `k` removed.
pub open spec fn drop_suffix(t: Seq<char>, k: int) -> Seq<char> {
    t.take(t.len() - k)
}

/// The number of milliseconds a duration text denotes: `<n>ms`, `<n>s`,
/// `<n>m`, `<n>h`, or a bare `<n>` in seconds; text is trimmed first, and the
/// multiplication wraps as in a release build.
pub open spec fn duration_ms(s: Seq<char>) -> Option<u64> {
    let t = trim_seq(s);
    let n = t.len();
    if n >= 2 && t[n - 2] == 'm' && t[n - 1] == 's' {
        parse_u64_seq(drop_suffix(t, 2))
    } else if n >= 1 && t[n - 1] == 's' {
        scaled(parse_u64_seq(drop_suffix(t, 1)), 1000)
    } else if n >= 1 && t[n - 1] == 'm' {
        scaled(parse_u64_seq(drop_suffix(t, 1)), 60_000)
    } else if n >= 1 && t[n - 1] == 'h' {
        scaled(parse_u64_seq(drop_suffix(t, 1)), 3_600_000)
    } else {
        scaled(parse_u64_seq(t), 1000)
    }
}

/// A parsed number times `k`, wrapping on overflow.
pub open spec fn scaled(v: Option<u64>, k: u64) -> Option<u64> {
    match v {
        Some(n) => Some(n.wrapping_mul(k)),
        None => None,
    }
}

/// `t` ends with `suf`, ignoring ASCII case.
pub open spec fn ends_with_ci(t: Seq<char>, suf: Seq<char>) -> bool {
    suf.len() <= t.len() && eq_ignore_ascii_case_seq(t.skip(t.len() - suf.len()), suf)
}

/// `a * b`, saturating at `u64::MAX`.
pub open spec fn sat_mul(a: u64, b: u64) -> u64 {
    if a * b > u64::MAX {
        u64::MAX
    } else {
        (a * b) as u64
    }
}

/// The number of bytes for the number before a unit suffix of length `k`.
pub open spec fn size_with(t: Seq<char>, k: int, mult: u64) -> Option<u64> {
    match parse_u64_seq(trim_seq(drop_suffix(t, k))) {
        Some(n) => Some(sat_mul(n, mult)),
        None => None,
    }
}

pub open spec fn kib() -> u64 {
    1024
}

pub open spec fn mib() -> u64 {
    1048576u64
}

pub open spec fn gib() -> u64 {
    1073741824u64
}

/// The number of bytes a size text denotes: a number followed by one of the
/// units `kb`, `mb`, `gb`, `k`, `m`, `g`, `b` (any ASCII case, tried in that
/// order, binary multiples, saturating), or a bare number of bytes.
pub open spec fn size_bytes(s: Seq<char>) -> Option<u64> {
    let t = trim_seq(s);
    if ends_with_ci(t, seq!['k', 'b']) {
        size_with(t, 2, kib())
    } else if ends_with_ci(t, seq!['m', 'b']) {
        size_with(t, 2, mib())
    } else if ends_with_ci(t, seq!['g', 'b']) {
        size_with(t, 2, gib())
    } else if ends_with_ci(t, seq!['k']) {
        size_with(t, 1, kib())
    } else if ends_with_ci(t, seq!['m']) {
        size_with(t, 1, mib())
    } else if ends_with_ci(t, seq!['g']) {
        size_with(t, 1, gib())
    } else if ends_with_ci(t, seq!['b']) {
        size_with(t, 1, 1)
    } else {
        parse_u64_seq(t)
    }
}

/// Copy of `v[lo..hi]`.
fn slice_chars(v: &Vec<char>, lo: usize, hi: usize) -> (r: Vec<char>)
    requires
        lo <= hi <= v.len(),
    ensures
        r@ == v@.subrange(lo as int, hi as int),
{
    let mut r: Vec<char> = Vec::new();
    let mut i = lo;
    while i < hi
        invariant
            lo <= i <= hi <= v.len(),
            r@ == v@.subrange(lo as int, i as int),
        decreases hi - i,
    {
        r.push(v[i]);
        assert(v@.subrange(lo as int, i + 1) == v@.subrange(lo as int, i as int).push(v@[i as int]));
        i = i + 1;
    }
    r
}

fn lower(c: char) -> (r: char)
    ensures
        r == ascii_lower(c),
{
    if 'A' <= c && c <= 'Z' {
        let u: u8 = (c as u8) + 32;
        (u as char)
    } else {
        c
    }
}

/// Whether `t` ends with the lowercase ASCII suffix `suf`, ignoring case.
fn ends_ci(t: &Vec<char>, suf: &Vec<char>) -> (r: bool)
    requires
        forall|i: int| 0 <= i < suf.len() ==> ascii_lower(#[trigger] suf@[i]) == suf@[i],
    ensures
        r == ends_with_ci(t@, suf@),
{
    if suf.len() > t.len() {
        return false;
    }
    let off = t.len() - suf.len();
    let ghost tail = t@.skip(off as int);
    let mut i: usize = 0;
    while i < suf.len()
        invariant
            off + suf.len() == t.len(),
            tail == t@.skip(off as int),
            i <= suf.len(),
            forall|k: int| 0 <= k < i ==> ascii_lower(#[trigger] tail[k]) == ascii_lower(suf@[k]),
            forall|k: int| 0 <= k < suf.len() ==> ascii_lower(#[trigger] suf@[k]) == suf@[k],
        decreases suf.len() - i,
    {
        assert(tail[i as int] == t@[off + i]);
        if lower(t[off + i]) != suf[i] {
            return false;
        }
        i = i + 1;
    }
    assert(eq_ignore_ascii_case_seq(tail, suf@));
    true
}

fn scale_wrapping(v: Option<u64>, k: u64) -> (r: Option<u64>)
    ensures
        r == scaled(v, k),
{
    match v {
        Some(n) => Some(n.wrapping_mul(k)),
        None => None,
    }
}

fn mul_sat(a: u64, b: u64) -> (r: u64)
    ensures
        r == sat_mul(a, b),
{
    match a.checked_mul(b) {
        Some(v) => v,
        None => u64::MAX,
    }
}

/// Parses a duration text into milliseconds (see `duration_ms`).
pub fn parse_duration_ms(s: &str) -> (r: Option<u64>)
    ensures
        r == duration_ms(s@),
{
    let v = chars_of(s);
    let (lo, hi) = trim_bounds(&v);
    let ghost t = trim_seq(s@);
    let n = hi - lo;
    assert(t == v@.subrange(lo as int, hi as int));
    if n >= 2 && v[hi - 2] == 'm' && v[hi - 1] == 's' {
        assert(v@.subrange(lo as int, hi - 2) =~= drop_suffix(t, 2));
        return parse_u64_range(&v, lo, hi - 2);
    }
    if n >= 1 {
        let last = v[hi - 1];
        assert(v@.subrange(lo as int, hi - 1) =~= drop_suffix(t, 1));
        if last == 's' {
            return scale_wrapping(parse_u64_range(&v, lo, hi - 1), 1000);
        } else if last == 'm' {
            return scale_wrapping(parse_u64_range(&v, lo, hi - 1), 60_000);
        } else if last == 'h' {
            return scale_wrapping(parse_u64_range(&v, lo, hi - 1), 3_600_000);
        }
    }
    scale_wrapping(parse_u64_range(&v, lo, hi), 1000)
}

/// Parses a size text into bytes (see `size_bytes`).
pub fn parse_size_bytes(s: &str) -> (r: Option<u64>)
    ensures
        r == size_bytes(s@),
{
    let v = chars_of(s);
    let (lo, hi) = trim_bounds(&v);
    let t = slice_chars(&v, lo, hi);
    assert(t@ == trim_seq(s@));
    let kb = vec!['k', 'b'];
    let mb = vec!['m', 'b'];
    let gb = vec!['g', 'b'];
    let k = vec!['k'];
    let m = vec!['m'];
    let g = vec!['g'];
    let b = vec!['b'];
    assert(kb@ == seq!['k', 'b']);
    assert(mb@ == seq!['m', 'b']);
    assert(gb@ == seq!['g', 'b']);
    assert(k@ == seq!['k']);
    assert(m@ == seq!['m']);
    assert(g@ == seq!['g']);
    assert(b@ == seq!['b']);
    if ends_ci(&t, &kb) {
        return size_before(&t, 2, 1024);
    }
    if ends_ci(&t, &mb) {
        return size_before(&t, 2, 1024 * 1024);
    }
    if ends_ci(&t, &gb) {
        return size_before(&t, 2, 1024 * 1024 * 1024);
    }
    if ends_ci(&t, &k) {
        return size_before(&t, 1, 1024);
    }
    if ends_ci(&t, &m) {
        return size_before(&t, 1, 1024 * 1024);
    }
    if ends_ci(&t, &g) {
        return size_before(&t, 1, 1024 * 1024 * 1024);
    }
    if ends_ci(&t, &b) {
        return size_before(&t, 1, 1);
    }
    let r = parse_u64_range(&t, 0, t.len());
    assert(t@.subrange(0, t@.len() as int) =~= t@);
    r
}

fn size_before(t: &Vec<char>, k: usize, mult: u64) -> (r: Option<u64>)
    requires
        k <= t.len(),
    ensures
        r == size_with(t@, k as int, mult),
{
    let head = slice_chars(t, 0, t.len() - k);
    assert(head@ =~= drop_suffix(t@, k as int));
    let (lo, hi) = trim_bounds(&head);
    match parse_u64_range(&head, lo, hi) {
        Some(n) => Some(mul_sat(n, mult)),
        None => None,
    }
}

impl BgrunDuration {
    /// Parses a duration text (see `duration_ms`); the error holds the
    /// trimmed text.
    pub fn parse(s: &str) -> (r: Result<BgrunDuration, UnitParseError>)
        ensures
            match duration_ms(s@) {
                Some(ms) => r == Ok::<BgrunDuration, UnitParseError>(BgrunDuration(ms)),
                None => r matches Err(UnitParseError::InvalidDuration(t)) && t@ == trim_seq(s@),
            },
    {
        match parse_duration_ms(s) {
            Some(ms) => Ok(BgrunDuration(ms)),
            None => Err(UnitParseError::InvalidDuration(trimmed(s))),
        }
    }
}

impl BgrunSize {
    /// Parses a size text (see `size_bytes`); the error holds the trimmed text.
    pub fn parse(s: &str) -> (r: Result<BgrunSize, UnitParseError>)
        ensures
            match size_bytes(s@) {
                Some(n) => r == Ok::<BgrunSize, UnitParseError>(BgrunSize(n)),
                None => r matches Err(UnitParseError::InvalidSize(t)) && t@ == trim_seq(s@),
            },
    {
        match parse_size_bytes(s) {
            Some(n) => Ok(BgrunSize(n)),
            None => Err(UnitParseError::InvalidSize(trimmed(s))),
        }
    }
}

/// `s` trimmed of surrounding whitespace, as an owned string.
pub fn trimmed(s: &str) -> (r: String)
    ensures
        r@ == trim_seq(s@),
{
    let v = chars_of(s);
    let (lo, hi) = trim_bounds(&v);
    crate::text::string_from_range(&v, lo, hi)
}

impl std::str::FromStr for BgrunDuration {
    type Err = UnitParseError;

    /// Parses as `BgrunDuration::parse` does.
    fn from_str(s: &str) -> (r: Result<Self, Self::Err>)
        ensures
            match duration_ms(s@) {
                Some(ms) => r == Ok::<BgrunDuration, UnitParseError>(BgrunDuration(ms)),
                None => r matches Err(UnitParseError::InvalidDuration(t)) && t@ == trim_seq(s@),
            },
    {
        BgrunDuration::parse(s)
    }
}

impl std::str::FromStr for BgrunSize {
    type Err = UnitParseError;

    /// Parses as `BgrunSize::parse` does.
    fn from_str(s: &str) -> (r: Result<Self, Self::Err>)
        ensures
            match size_bytes(s@) {
                Some(n) => r == Ok::<BgrunSize, UnitParseError>(BgrunSize(n)),
                None => r matches Err(UnitParseError::InvalidSize(t)) && t@ == trim_seq(s@),
            },
    {
        BgrunSize::parse(s)
    }
}

} // verus!
