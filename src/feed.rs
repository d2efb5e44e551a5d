use vstd::prelude::*;

use crate::geo::{spec_prefix, take_prefix};
use crate::signals::DerivedSignalRow;
use crate::text::{spec_starts_with, starts_with};

verus! {

/// The length of the geo prefix the feed reads signals at.
pub const FEED_GEO_PRECISION: usize = 4;

/// The feed's scope: the first four characters of the geo key, or all of a shorter key.
pub fn derive_geo_prefix(geo_key: &str) -> (r: String)
    ensures
        r@ == spec_prefix(geo_key@, 4),
{
    take_prefix(geo_key, FEED_GEO_PRECISION)
}

pub open spec fn spec_season(month: u32) -> Seq<char> {
    if 3 <= month <= 5 {
        "spring"@
    } else if 6 <= month <= 8 {
        "summer"@
    } else if 9 <= month <= 11 {
        "fall"@
    } else {
        "winter"@
    }
}

/// The season of a month of the northern hemisphere.
pub fn season_from_month(month: u32) -> (r: &'static str)
    ensures
        r@ == spec_season(month),
{
    if 3 <= month && month <= 5 {
        "spring"
    } else if 6 <= month && month <= 8 {
        "summer"
    } else if 9 <= month && month <= 11 {
        "fall"
    } else {
        "winter"
    }
}

/// The upper-case form of a character, which may be several characters long.
pub uninterp spec fn upper_of(c: char) -> Seq<char>;

/// Relies on `char::to_uppercase`: the characters of the upper-case mapping of `c`.
#[verifier::external_body]
fn uppercase_char(c: char) -> (r: String)
    ensures
        r@ == upper_of(c),
{
    c.to_uppercase().collect::<String>()
}

/// `value` with its first character in upper case.
pub fn capitalize_first(value: &str) -> (r: String)
    ensures
        value@.len() == 0 ==> r@.len() == 0,
        value@.len() > 0 ==> r@ == upper_of(value@[0]) + value@.subrange(1, value@.len() as int),
{
    let n = value.unicode_len();
    if n == 0 {
        return String::new();
    }
    let mut out = uppercase_char(value.get_char(0));
    out.append(value.substring_char(1, n));
    out
}

/// Whether the feed's answer comes from expired signals.
#[derive(Clone, Copy, Debug, PartialEq, Eq, Structural)]
pub struct FeedFreshness {
    pub is_stale: bool,
    pub stale_fallback_used: bool,
}

/// A signal row belongs to the feed's scope and window.
pub open spec fn feed_row_matches(r: DerivedSignalRow, prefix: Seq<char>, window_days: u32) -> bool {
    r.schema_version == 1 && r.window_days == window_days && spec_starts_with(r.geo_boundary_key@, prefix)
}

pub open spec fn feed_row_fresh(r: DerivedSignalRow, now: i64) -> bool {
    r.expires_at > now
}

/// Row `i` is one the feed may show: it matches, and has not expired when `fresh_only`.
pub open spec fn feed_candidate(
    rows: Seq<DerivedSignalRow>,
    i: int,
    prefix: Seq<char>,
    window_days: u32,
    now: i64,
    fresh_only: bool,
) -> bool {
    feed_row_matches(rows[i], prefix, window_days) && (!fresh_only || feed_row_fresh(rows[i], now))
}

/// Two rows describe the same (geo key, crop scope).
pub open spec fn same_scope(a: DerivedSignalRow, b: DerivedSignalRow) -> bool {
    a.geo_boundary_key@ == b.geo_boundary_key@ && a.crop_scope_id == b.crop_scope_id
}

/// Row `j` is newer than row `i`: computed later, or at the same time and written later.
pub open spec fn newer(rows: Seq<DerivedSignalRow>, j: int, i: int) -> bool {
    rows[j].computed_at > rows[i].computed_at || (rows[j].computed_at == rows[i].computed_at && j > i)
}

/// Row `i` is a candidate, and no candidate of its (geo key, crop scope) is newer.
pub open spec fn feed_latest(
    rows: Seq<DerivedSignalRow>,
    i: int,
    prefix: Seq<char>,
    window_days: u32,
    now: i64,
    fresh_only: bool,
) -> bool {
    &&& feed_candidate(rows, i, prefix, window_days, now, fresh_only)
    &&& forall|j: int|
        0 <= j < rows.len() && feed_candidate(rows, j, prefix, window_days, now, fresh_only) && same_scope(
            rows[j],
            rows[i],
        ) ==> !newer(rows, j, i)
}

/// The positions, in order, of the newest candidate of each (geo key, crop scope),
/// among the first `k` rows.
pub open spec fn spec_feed_rows(
    rows: Seq<DerivedSignalRow>,
    prefix: Seq<char>,
    window_days: u32,
    now: i64,
    fresh_only: bool,
    k: int,
) -> Seq<usize>
    decreases k,
{
    if k <= 0 {
        seq![]
    } else {
        let rest = spec_feed_rows(rows, prefix, window_days, now, fresh_only, k - 1);
        if feed_latest(rows, k - 1, prefix, window_days, now, fresh_only) {
            rest.push((k - 1) as usize)
        } else {
            rest
        }
    }
}

fn is_candidate(r: &DerivedSignalRow, prefix: &str, window_days: u32, now: i64, fresh_only: bool) -> (b: bool)
    ensures
        b == (feed_row_matches(*r, prefix@, window_days) && (!fresh_only || feed_row_fresh(*r, now))),
{
    r.schema_version == 1 && r.window_days == window_days && starts_with(r.geo_boundary_key.as_str(), prefix)
        && (!fresh_only || r.expires_at > now)
}

fn same_scope_rows(a: &DerivedSignalRow, b: &DerivedSignalRow) -> (r: bool)
    ensures
        r == same_scope(*a, *b),
{
    let crop_same = match (a.crop_scope_id, b.crop_scope_id) {
        (Some(x), Some(y)) => x == y,
        (None, None) => true,
        _ => false,
    };
    crop_same && a.geo_boundary_key == b.geo_boundary_key
}

fn is_latest(rows: &Vec<DerivedSignalRow>, i: usize, prefix: &str, window_days: u32, now: i64, fresh_only: bool) -> (b:
    bool)
    requires
        i < rows@.len(),
    ensures
        b == feed_latest(rows@, i as int, prefix@, window_days, now, fresh_only),
{
    if !is_candidate(&rows[i], prefix, window_days, now, fresh_only) {
        return false;
    }
    let mut j: usize = 0;
    while j < rows.len()
        invariant
            i < rows@.len(),
            j <= rows@.len(),
            feed_candidate(rows@, i as int, prefix@, window_days, now, fresh_only),
            forall|jj: int|
                0 <= jj < j && feed_candidate(rows@, jj, prefix@, window_days, now, fresh_only) && same_scope(
                    rows@[jj],
                    rows@[i as int],
                ) ==> !newer(rows@, jj, i as int),
        decreases rows@.len() - j,
    {
        if is_candidate(&rows[j], prefix, window_days, now, fresh_only) && same_scope_rows(&rows[j], &rows[i]) {
            if rows[j].computed_at > rows[i].computed_at || (rows[j].computed_at == rows[i].computed_at && j > i) {
                assert(feed_candidate(rows@, j as int, prefix@, window_days, now, fresh_only));
                assert(same_scope(rows@[j as int], rows@[i as int]));
                assert(newer(rows@, j as int, i as int));
                assert(!feed_latest(rows@, i as int, prefix@, window_days, now, fresh_only));
                return false;
            }
        }
        j = j + 1;
    }
    true
}

fn collect_feed_rows(
    rows: &Vec<DerivedSignalRow>,
    prefix: &str,
    window_days: u32,
    now: i64,
    fresh_only: bool,
) -> (r: Vec<usize>)
    ensures
        r@ == spec_feed_rows(rows@, prefix@, window_days, now, fresh_only, rows@.len() as int),
{
    let mut out: Vec<usize> = Vec::new();
    let mut i: usize = 0;
    while i < rows.len()
        invariant
            i <= rows@.len(),
            out@ == spec_feed_rows(rows@, prefix@, window_days, now, fresh_only, i as int),
        decreases rows@.len() - i,
    {
        if is_latest(rows, i, prefix, window_days, now, fresh_only) {
            out.push(i);
        }
        i = i + 1;
    }
    out
}

/// Some row of the scope and window has not expired at `now`.
pub open spec fn any_fresh(rows: Seq<DerivedSignalRow>, prefix: Seq<char>, window_days: u32, now: i64) -> bool {
    exists|i: int| 0 <= i < rows.len() && #[trigger] feed_candidate(rows, i, prefix, window_days, now, true)
}

fn has_fresh(rows: &Vec<DerivedSignalRow>, prefix: &str, window_days: u32, now: i64) -> (b: bool)
    ensures
        b == any_fresh(rows@, prefix@, window_days, now),
{
    let mut i: usize = 0;
    while i < rows.len()
        invariant
            i <= rows@.len(),
            forall|j: int| 0 <= j < i ==> !#[trigger] feed_candidate(rows@, j, prefix@, window_days, now, true),
        decreases rows@.len() - i,
    {
        if is_candidate(&rows[i], prefix, window_days, now, true) {
            assert(feed_candidate(rows@, i as int, prefix@, window_days, now, true));
            return true;
        }
        i = i + 1;
    }
    false
}

/// The signals the feed shows for a geo prefix and window: the newest row of each
/// (geo key, crop scope) among those that have not expired; when every row has expired, the newest row of each among the expired ones, with the answer marked stale.
pub fn select_feed_signals(rows: &Vec<DerivedSignalRow>, geo_prefix: &str, window_days: u32, now: i64) -> (r: (
    Vec<usize>,
    FeedFreshness,
))
    ensures
        any_fresh(rows@, geo_prefix@, window_days, now) ==> r.0@ == spec_feed_rows(
            rows@,
            geo_prefix@,
            window_days,
            now,
            true,
            rows@.len() as int,
        ) && r.1 == (FeedFreshness { is_stale: false, stale_fallback_used: false }),
        !any_fresh(rows@, geo_prefix@, window_days, now) ==> r.0@ == spec_feed_rows(
            rows@,
            geo_prefix@,
            window_days,
            now,
            false,
            rows@.len() as int,
        ) && r.1 == (FeedFreshness { is_stale: true, stale_fallback_used: true }),
{
    if has_fresh(rows, geo_prefix, window_days, now) {
        (
            collect_feed_rows(rows, geo_prefix, window_days, now, true),
            FeedFreshness { is_stale: false, stale_fallback_used: false },
        )
    } else {
        (
            collect_feed_rows(rows, geo_prefix, window_days, now, false),
            FeedFreshness { is_stale: true, stale_fallback_used: true },
        )
    }
}

} // verus!
