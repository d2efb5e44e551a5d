use vstd::prelude::*;

use crate::text::{ascii_lower_seq, lower_char, trim_text, trimmed};

verus! {

/// A character of the base-32 geohash alphabet.
pub open spec fn is_geohash_char(c: char) -> bool {
    ('0' <= c && c <= '9') || ('b' <= c && c <= 'h') || ('j' <= c && c <= 'k') || ('m' <= c && c <= 'n')
        || ('p' <= c && c <= 'z')
}

/// A geo key holds 1 to 12 geohash characters.
pub open spec fn spec_valid_geo_key(s: Seq<char>) -> bool {
    1 <= s.len() <= 12 && forall|i: int| 0 <= i < s.len() ==> is_geohash_char(#[trigger] s[i])
}

pub fn is_geohash_character(c: char) -> (r: bool)
    ensures
        r == is_geohash_char(c),
{
    ('0' <= c && c <= '9') || ('b' <= c && c <= 'h') || ('j' <= c && c <= 'k') || ('m' <= c && c <= 'n')
        || ('p' <= c && c <= 'z')
}

/// Whether `value` is a geohash of 1 to 12 characters.
pub fn is_valid_geo_key(value: &str) -> (r: bool)
    ensures
        r == spec_valid_geo_key(value@),
{
    let n = value.unicode_len();
    if n == 0 || n > 12 {
        return false;
    }
    let mut i: usize = 0;
    while i < n
        invariant
            n == value@.len(),
            i <= n,
            forall|j: int| 0 <= j < i ==> is_geohash_char(#[trigger] value@[j]),
        decreases n - i,
    {
        if !is_geohash_character(value.get_char(i)) {
            return false;
        }
        i = i + 1;
    }
    true
}

/// A geo key as the aggregation reads it: trimmed, with ASCII letters lowered.
pub open spec fn normalized_geo_key(s: Seq<char>) -> Seq<char> {
    ascii_lower_seq(trimmed(s))
}

/// Lowers the ASCII letters of a string.
pub fn to_ascii_lower(s: &str) -> (r: String)
    ensures
        r@ == ascii_lower_seq(s@),
{
    let n = s.unicode_len();
    let mut out = String::new();
    let mut i: usize = 0;
    while i < n
        invariant
            n == s@.len(),
            i <= n,
            out@ == ascii_lower_seq(s@).subrange(0, i as int),
        decreases n - i,
    {
        let c = lower_char(s.get_char(i));
        out.push(c);
        i = i + 1;
        assert(out@ =~= ascii_lower_seq(s@).subrange(0, i as int));
    }
    assert(out@ =~= ascii_lower_seq(s@));
    out
}

/// Trims a geo key and lowers its ASCII letters.
pub fn normalize_geo_key(geo_key: &str) -> (r: String)
    ensures
        r@ == normalized_geo_key(geo_key@),
{
    let t = trim_text(geo_key);
    to_ascii_lower(t.as_str())
}

/// The prefixes of a normalized geo key at each aggregation precision it is long enough for.
pub open spec fn spec_geo_prefixes(g: Seq<char>) -> Seq<Seq<char>> {
    let n = normalized_geo_key(g);
    if n.len() >= 6 {
        seq![n.subrange(0, 4), n.subrange(0, 5), n.subrange(0, 6)]
    } else if n.len() >= 5 {
        seq![n.subrange(0, 4), n.subrange(0, 5)]
    } else if n.len() >= 4 {
        seq![n.subrange(0, 4)]
    } else {
        seq![]
    }
}

/// How many of the precisions 4, 5, ... 3 + k fit in a key of `n` characters.
pub open spec fn prefixes_taken(n: int, k: int) -> int {
    if n < 4 {
        0
    } else if n - 3 < k {
        n - 3
    } else {
        k
    }
}

pub open spec fn string_views(v: Seq<String>) -> Seq<Seq<char>> {
    v.map_values(|s: String| s@)
}

/// The geohash prefixes of lengths 4, 5 and 6 of the normalized key, shortest first;
/// a precision longer than the key is left out.
pub fn geo_prefixes(geo_key: &str) -> (r: Vec<String>)
    ensures
        string_views(r@) == spec_geo_prefixes(geo_key@),
{
    let normalized = normalize_geo_key(geo_key);
    let n = normalized.as_str().unicode_len();
    let mut out: Vec<String> = Vec::new();
    let mut k: usize = 0;
    while k < 3
        invariant
            n == normalized@.len(),
            normalized@ == normalized_geo_key(geo_key@),
            k <= 3,
            string_views(out@) == spec_geo_prefixes(geo_key@).take(prefixes_taken(n as int, k as int)),
        decreases 3 - k,
    {
        let p: usize = 4 + k;
        let ghost before = out@;
        let ghost prefixes = spec_geo_prefixes(geo_key@);
        if n >= p {
            let piece = String::from_str(normalized.as_str().substring_char(0, p));
            assert(prefixes.len() >= k + 1);
            assert(prefixes[k as int] == normalized@.subrange(0, p as int));
            out.push(piece);
            assert(string_views(out@) =~= string_views(before).push(piece@));
        }
        k = k + 1;
        assert(string_views(out@) =~= spec_geo_prefixes(geo_key@).take(
            prefixes_taken(n as int, k as int),
        ));
    }
    assert(string_views(out@) =~= spec_geo_prefixes(geo_key@));
    out
}

/// The first `len` characters of `s`, or all of it when it is shorter.
pub open spec fn spec_prefix(s: Seq<char>, len: int) -> Seq<char> {
    if s.len() <= len {
        s
    } else {
        s.subrange(0, len)
    }
}

/// Cuts `s` to at most `len` characters.
pub fn take_prefix(s: &str, len: usize) -> (r: String)
    ensures
        r@ == spec_prefix(s@, len as int),
{
    let n = s.unicode_len();
    if n <= len {
        String::from_str(s)
    } else {
        String::from_str(s.substring_char(0, len))
    }
}

/// The geohash precision whose cells match a search radius given in meters:
/// up to 610 m gives 7, 2.4 km 6, 20 km 5, 78 km 4, 630 km 3, 2500 km 2, beyond that 1.
pub open spec fn spec_precision_for_radius(radius_m: u64) -> usize {
    if radius_m <= 610 {
        7
    } else if radius_m <= 2_400 {
        6
    } else if radius_m <= 20_000 {
        5
    } else if radius_m <= 78_000 {
        4
    } else if radius_m <= 630_000 {
        3
    } else if radius_m <= 2_500_000 {
        2
    } else {
        1
    }
}

pub fn geohash_precision_for_radius_m(radius_m: u64) -> (r: usize)
    ensures
        r == spec_precision_for_radius(radius_m),
{
    if radius_m <= 610 {
        7
    } else if radius_m <= 2_400 {
        6
    } else if radius_m <= 20_000 {
        5
    } else if radius_m <= 78_000 {
        4
    } else if radius_m <= 630_000 {
        3
    } else if radius_m <= 2_500_000 {
        2
    } else {
        1
    }
}

/// The meters in a distance given in thousandths of a mile, rounded down.
pub open spec fn spec_meters_from_milli_miles(milli_miles: u64) -> int {
    (milli_miles as int * 1_609_344) / 1_000_000
}

pub fn meters_from_milli_miles(milli_miles: u64) -> (r: u64)
    requires
        milli_miles <= 10_000_000_000_000_000,
    ensures
        r as int == spec_meters_from_milli_miles(milli_miles),
{
    ((milli_miles as u128 * 1_609_344) / 1_000_000) as u64
}

} // verus!
