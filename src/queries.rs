use vstd::prelude::*;

use crate::error::CoreError;
use crate::geo::{
    is_valid_geo_key, meters_from_milli_miles, normalize_geo_key, normalized_geo_key, spec_meters_from_milli_miles,
    spec_valid_geo_key,
};
use crate::query::{pair_views, parse_i64, parse_milli, spec_parse_i64, spec_parse_milli, split_query, query_pairs};
use crate::status::{ClaimStatus, ListingStatus};
use crate::text::str_eq;

verus! {

/// Rows per page when a query names no limit.
pub const DEFAULT_PAGE_LIMIT: i64 = 20;

/// The feed's window when a query names none.
pub const DEFAULT_WINDOW_DAYS: u32 = 7;

pub open spec fn spec_limit(value: Seq<char>) -> Result<i64, CoreError> {
    match spec_parse_i64(value) {
        Some(l) => if 1 <= l <= 100 {
            Ok(l)
        } else {
            Err(CoreError::Validation)
        },
        None => Err(CoreError::Validation),
    }
}

pub open spec fn spec_offset(value: Seq<char>) -> Result<i64, CoreError> {
    match spec_parse_i64(value) {
        Some(o) => if o >= 0 {
            Ok(o)
        } else {
            Err(CoreError::Validation)
        },
        None => Err(CoreError::Validation),
    }
}

/// A page size: an integer from 1 to 100.
pub fn parse_limit(value: &str) -> (r: Result<i64, CoreError>)
    ensures
        r == spec_limit(value@),
{
    match parse_i64(value) {
        Some(l) => if 1 <= l && l <= 100 {
            Ok(l)
        } else {
            Err(CoreError::Validation)
        },
        None => Err(CoreError::Validation),
    }
}

/// A page offset: a non-negative integer.
pub fn parse_offset(value: &str) -> (r: Result<i64, CoreError>)
    ensures
        r == spec_offset(value@),
{
    match parse_i64(value) {
        Some(o) => if o >= 0 {
            Ok(o)
        } else {
            Err(CoreError::Validation)
        },
        None => Err(CoreError::Validation),
    }
}

fn query_to_pairs(query: Option<&str>) -> (r: Vec<(String, String)>)
    ensures
        pair_views(r@) == match query {
            Some(q) => query_pairs(q@),
            None => seq![],
        },
{
    match query {
        Some(q) => split_query(q),
        None => {
            let v: Vec<(String, String)> = Vec::new();
            assert(pair_views(v@) =~= seq![]);
            v
        },
    }
}

pub open spec fn opt_string(v: Option<String>) -> Option<Seq<char>> {
    match v {
        Some(s) => Some(s@),
        None => None,
    }
}

// ---- discovery ----

/// What a discovery query asks for. The radius is in meters.
#[derive(Debug)]
pub struct DiscoverListingsQuery {
    pub geo_key: String,
    pub status: ListingStatus,
    pub radius_m: Option<u64>,
    pub limit: i64,
    pub offset: i64,
}

pub type DiscoverState = (Option<Seq<char>>, Option<u64>, i64, i64);

/// One `key=value` of a discovery query applied to what was read so far.
pub open spec fn discover_step(st: DiscoverState, key: Seq<char>, value: Seq<char>) -> Result<DiscoverState, CoreError> {
    if key == "geoKey"@ {
        let g = normalized_geo_key(value);
        if g.len() == 0 || !spec_valid_geo_key(g) {
            Err(CoreError::Validation)
        } else {
            Ok((Some(g), st.1, st.2, st.3))
        }
    } else if key == "status"@ {
        if value.len() == 0 || value == "active"@ {
            Ok(st)
        } else {
            Err(CoreError::Validation)
        }
    } else if key == "radiusKm"@ || key == "radiusMiles"@ {
        if st.1 is Some {
            Err(CoreError::Validation)
        } else {
            match spec_parse_milli(value) {
                None => Err(CoreError::Validation),
                Some(m) => if m == 0 {
                    Err(CoreError::Validation)
                } else if key == "radiusKm"@ {
                    Ok((st.0, Some(m as u64), st.2, st.3))
                } else {
                    Ok((st.0, Some(spec_meters_from_milli_miles(m as u64) as u64), st.2, st.3))
                },
            }
        }
    } else if key == "limit"@ {
        match spec_limit(value) {
            Ok(l) => Ok((st.0, st.1, l, st.3)),
            Err(e) => Err(e),
        }
    } else if key == "offset"@ {
        match spec_offset(value) {
            Ok(o) => Ok((st.0, st.1, st.2, o)),
            Err(e) => Err(e),
        }
    } else {
        Ok(st)
    }
}

pub open spec fn discover_fold(st: DiscoverState, pairs: Seq<(Seq<char>, Seq<char>)>) -> Result<DiscoverState, CoreError>
    decreases pairs.len(),
{
    if pairs.len() == 0 {
        Ok(st)
    } else {
        match discover_step(st, pairs[0].0, pairs[0].1) {
            Err(e) => Err(e),
            Ok(next) => discover_fold(next, pairs.drop_first()),
        }
    }
}

/// A discovery query: the pairs read left to right, then a geo key required.
pub open spec fn spec_discover_query(pairs: Seq<(Seq<char>, Seq<char>)>) -> Result<DiscoverState, CoreError> {
    match discover_fold((None, None, 20, 0), pairs) {
        Err(e) => Err(e),
        Ok(st) => if st.0 is None {
            Err(CoreError::Validation)
        } else {
            Ok(st)
        },
    }
}

fn discover_apply(
    geo: &mut Option<String>,
    radius: &mut Option<u64>,
    limit: &mut i64,
    offset: &mut i64,
    key: &str,
    value: &str,
) -> (r: Result<(), CoreError>)
    ensures
        match discover_step((opt_string(*old(geo)), *old(radius), *old(limit), *old(offset)), key@, value@) {
            Ok(st) => r is Ok && st == (opt_string(*final(geo)), *final(radius), *final(limit), *final(offset)),
            Err(e) => r == Err::<(), CoreError>(e),
        },
{
    if str_eq(key, "geoKey") {
        let g = normalize_geo_key(value);
        if g.as_str().unicode_len() == 0 || !is_valid_geo_key(g.as_str()) {
            return Err(CoreError::Validation);
        }
        *geo = Some(g);
        Ok(())
    } else if str_eq(key, "status") {
        if value.unicode_len() == 0 || str_eq(value, "active") {
            Ok(())
        } else {
            Err(CoreError::Validation)
        }
    } else if str_eq(key, "radiusKm") || str_eq(key, "radiusMiles") {
        if radius.is_some() {
            return Err(CoreError::Validation);
        }
        let m = match parse_milli(value) {
            Some(m) => m,
            None => return Err(CoreError::Validation),
        };
        if m == 0 {
            return Err(CoreError::Validation);
        }
        if str_eq(key, "radiusKm") {
            *radius = Some(m);
        } else {
            *radius = Some(meters_from_milli_miles(m));
        }
        Ok(())
    } else if str_eq(key, "limit") {
        *limit = match parse_limit(value) {
            Ok(l) => l,
            Err(e) => return Err(e),
        };
        Ok(())
    } else if str_eq(key, "offset") {
        *offset = match parse_offset(value) {
            Ok(o) => o,
            Err(e) => return Err(e),
        };
        Ok(())
    } else {
        Ok(())
    }
}

/// Reads a discovery query string: `geoKey` (required, normalized, a valid geohash),
/// `status` (only `active`), one of `radiusKm` / `radiusMiles` (positive), `limit`
/// (1 to 100, default 20) and `offset` (at least 0, default 0).
pub fn parse_discover_listings_query(query: Option<&str>) -> (r: Result<DiscoverListingsQuery, CoreError>)
    ensures
        match spec_discover_query(
            match query {
                Some(q) => query_pairs(q@),
                None => seq![],
            },
        ) {
            Ok(st) => r matches Ok(q) && Some(q.geo_key@) == st.0 && q.radius_m == st.1 && q.limit == st.2
                && q.offset == st.3 && q.status == ListingStatus::Active,
            Err(e) => r == Err::<DiscoverListingsQuery, CoreError>(e),
        },
{
    let pairs = query_to_pairs(query);
    let ghost pv = pair_views(pairs@);
    let mut geo: Option<String> = None;
    let mut radius: Option<u64> = None;
    let mut limit: i64 = DEFAULT_PAGE_LIMIT;
    let mut offset: i64 = 0;
    let mut i: usize = 0;
    assert(pv.subrange(0, pv.len() as int) =~= pv);
    while i < pairs.len()
        invariant
            i <= pairs@.len(),
            pv == pair_views(pairs@),
            pv == match query {
                Some(q) => query_pairs(q@),
                None => seq![],
            },
            discover_fold((None, None, 20, 0), pv) == discover_fold(
                (opt_string(geo), radius, limit, offset),
                pv.subrange(i as int, pv.len() as int),
            ),
        decreases pairs@.len() - i,
    {
        let ghost rest = pv.subrange(i as int, pv.len() as int);
        assert(rest.drop_first() =~= pv.subrange(i + 1, pv.len() as int));
        assert(rest[0] == (pairs@[i as int].0@, pairs@[i as int].1@));
        let ghost before = (opt_string(geo), radius, limit, offset);
        assert(rest.len() > 0);
        match discover_apply(&mut geo, &mut radius, &mut limit, &mut offset, pairs[i].0.as_str(), pairs[i].1.as_str()) {
            Ok(()) => {},
            Err(e) => {
                assert(discover_fold(before, rest) == Err::<DiscoverState, CoreError>(e));
                return Err(e);
            },
        }
        i = i + 1;
    }
    assert(pv.subrange(i as int, pv.len() as int) =~= Seq::<(Seq<char>, Seq<char>)>::empty());
    match geo {
        Some(g) => Ok(DiscoverListingsQuery { geo_key: g, status: ListingStatus::Active, radius_m: radius, limit, offset }),
        None => Err(CoreError::Validation),
    }
}

// ---- claim listing ----

/// The text forms of a 128-bit identifier that the identifier parser accepts, read.
pub uninterp spec fn uuid_value_of(text: Seq<char>) -> Option<u128>;

/// Relies on `uuid::Uuid::parse_str`: the identifier a text spells, if it spells one.
#[verifier::external_body]
fn parse_uuid_text(text: &str) -> (r: Option<u128>)
    ensures
        r == uuid_value_of(text@),
{
    uuid::Uuid::parse_str(text).ok().map(|u| u.as_u128())
}

pub open spec fn spec_id_filter(parsed: Option<u128>) -> Result<Option<u128>, CoreError> {
    match parsed {
        Some(id) => Ok(Some(id)),
        None => Err(CoreError::Validation),
    }
}

/// An identifier filter: the parsed identifier, or a validation error when the text
/// did not parse.
pub fn id_filter(parsed: Option<u128>) -> (r: Result<Option<u128>, CoreError>)
    ensures
        r == spec_id_filter(parsed),
{
    match parsed {
        Some(id) => Ok(Some(id)),
        None => Err(CoreError::Validation),
    }
}

pub open spec fn claim_status_of(v: Seq<char>) -> Option<ClaimStatus> {
    if v == "pending"@ {
        Some(ClaimStatus::Pending)
    } else if v == "confirmed"@ {
        Some(ClaimStatus::Confirmed)
    } else if v == "completed"@ {
        Some(ClaimStatus::Completed)
    } else if v == "cancelled"@ {
        Some(ClaimStatus::Cancelled)
    } else if v == "no_show"@ {
        Some(ClaimStatus::NoShow)
    } else {
        None
    }
}

fn claim_status_text(v: &str) -> (r: Option<ClaimStatus>)
    ensures
        r == claim_status_of(v@),
{
    if str_eq(v, "pending") {
        Some(ClaimStatus::Pending)
    } else if str_eq(v, "confirmed") {
        Some(ClaimStatus::Confirmed)
    } else if str_eq(v, "completed") {
        Some(ClaimStatus::Completed)
    } else if str_eq(v, "cancelled") {
        Some(ClaimStatus::Cancelled)
    } else if str_eq(v, "no_show") {
        Some(ClaimStatus::NoShow)
    } else {
        None
    }
}

/// The filters of a claim listing.
#[derive(Clone, Copy, Debug, PartialEq, Eq, Structural)]
pub struct ListClaimsQuery {
    pub listing_id: Option<u128>,
    pub request_id: Option<u128>,
    pub status: Option<ClaimStatus>,
    pub limit: i64,
    pub offset: i64,
}

pub open spec fn claims_step(st: ListClaimsQuery, key: Seq<char>, value: Seq<char>) -> Result<ListClaimsQuery, CoreError> {
    if key == "listingId"@ {
        if value.len() == 0 {
            Ok(st)
        } else {
            match spec_id_filter(uuid_value_of(value)) {
                Ok(id) => Ok(ListClaimsQuery { listing_id: id, ..st }),
                Err(e) => Err(e),
            }
        }
    } else if key == "requestId"@ {
        if value.len() == 0 {
            Ok(st)
        } else {
            match spec_id_filter(uuid_value_of(value)) {
                Ok(id) => Ok(ListClaimsQuery { request_id: id, ..st }),
                Err(e) => Err(e),
            }
        }
    } else if key == "status"@ {
        if value.len() == 0 {
            Ok(st)
        } else {
            match claim_status_of(value) {
                Some(s) => Ok(ListClaimsQuery { status: Some(s), ..st }),
                None => Err(CoreError::Validation),
            }
        }
    } else if key == "limit"@ {
        match spec_limit(value) {
            Ok(l) => Ok(ListClaimsQuery { limit: l, ..st }),
            Err(e) => Err(e),
        }
    } else if key == "offset"@ {
        match spec_offset(value) {
            Ok(o) => Ok(ListClaimsQuery { offset: o, ..st }),
            Err(e) => Err(e),
        }
    } else {
        Ok(st)
    }
}

pub open spec fn claims_fold(st: ListClaimsQuery, pairs: Seq<(Seq<char>, Seq<char>)>) -> Result<ListClaimsQuery, CoreError>
    decreases pairs.len(),
{
    if pairs.len() == 0 {
        Ok(st)
    } else {
        match claims_step(st, pairs[0].0, pairs[0].1) {
            Err(e) => Err(e),
            Ok(next) => claims_fold(next, pairs.drop_first()),
        }
    }
}

pub open spec fn claims_default() -> ListClaimsQuery {
    ListClaimsQuery { listing_id: None, request_id: None, status: None, limit: 20, offset: 0 }
}

fn claims_apply(st: ListClaimsQuery, key: &str, value: &str) -> (r: Result<ListClaimsQuery, CoreError>)
    ensures
        r == claims_step(st, key@, value@),
{
    if str_eq(key, "listingId") {
        if value.unicode_len() == 0 {
            Ok(st)
        } else {
            match id_filter(parse_uuid_text(value)) {
                Ok(id) => Ok(ListClaimsQuery { listing_id: id, ..st }),
                Err(e) => Err(e),
            }
        }
    } else if str_eq(key, "requestId") {
        if value.unicode_len() == 0 {
            Ok(st)
        } else {
            match id_filter(parse_uuid_text(value)) {
                Ok(id) => Ok(ListClaimsQuery { request_id: id, ..st }),
                Err(e) => Err(e),
            }
        }
    } else if str_eq(key, "status") {
        if value.unicode_len() == 0 {
            Ok(st)
        } else {
            match claim_status_text(value) {
                Some(s) => Ok(ListClaimsQuery { status: Some(s), ..st }),
                None => Err(CoreError::Validation),
            }
        }
    } else if str_eq(key, "limit") {
        match parse_limit(value) {
            Ok(l) => Ok(ListClaimsQuery { limit: l, ..st }),
            Err(e) => Err(e),
        }
    } else if str_eq(key, "offset") {
        match parse_offset(value) {
            Ok(o) => Ok(ListClaimsQuery { offset: o, ..st }),
            Err(e) => Err(e),
        }
    } else {
        Ok(st)
    }
}

/// Reads the filters of a claim listing: `listingId` and `requestId` (identifiers),
/// `status` (a claim status), `limit` and `offset`; empty values are ignored.
pub fn parse_list_claims_query(query: Option<&str>) -> (r: Result<ListClaimsQuery, CoreError>)
    ensures
        r == claims_fold(
            claims_default(),
            match query {
                Some(q) => query_pairs(q@),
                None => seq![],
            },
        ),
{
    let pairs = query_to_pairs(query);
    let ghost pv = pair_views(pairs@);
    let mut st = ListClaimsQuery { listing_id: None, request_id: None, status: None, limit: DEFAULT_PAGE_LIMIT, offset: 0 };
    let mut i: usize = 0;
    assert(pv.subrange(0, pv.len() as int) =~= pv);
    while i < pairs.len()
        invariant
            i <= pairs@.len(),
            pv == pair_views(pairs@),
            pv == match query {
                Some(q) => query_pairs(q@),
                None => seq![],
            },
            claims_fold(claims_default(), pv) == claims_fold(st, pv.subrange(i as int, pv.len() as int)),
        decreases pairs@.len() - i,
    {
        let ghost rest = pv.subrange(i as int, pv.len() as int);
        assert(rest.drop_first() =~= pv.subrange(i + 1, pv.len() as int));
        assert(rest[0] == (pairs@[i as int].0@, pairs@[i as int].1@));
        assert(rest.len() > 0);
        st = match claims_apply(st, pairs[i].0.as_str(), pairs[i].1.as_str()) {
            Ok(next) => next,
            Err(e) => {
                assert(claims_fold(st, rest) == Err::<ListClaimsQuery, CoreError>(e));
                return Err(e);
            },
        };
        i = i + 1;
    }
    assert(pv.subrange(i as int, pv.len() as int) =~= Seq::<(Seq<char>, Seq<char>)>::empty());
    Ok(st)
}

// ---- owner's listings ----

pub open spec fn read_status_of(v: Seq<char>) -> Option<ListingStatus> {
    if v == "active"@ {
        Some(ListingStatus::Active)
    } else if v == "expired"@ {
        Some(ListingStatus::Expired)
    } else if v == "completed"@ {
        Some(ListingStatus::Completed)
    } else {
        None
    }
}

fn read_status_text(v: &str) -> (r: Option<ListingStatus>)
    ensures
        r == read_status_of(v@),
{
    if str_eq(v, "active") {
        Some(ListingStatus::Active)
    } else if str_eq(v, "expired") {
        Some(ListingStatus::Expired)
    } else if str_eq(v, "completed") {
        Some(ListingStatus::Completed)
    } else {
        None
    }
}

/// What an owner's listing query asks for.
#[derive(Clone, Copy, Debug, PartialEq, Eq, Structural)]
pub struct ListMyListingsQuery {
    pub status: Option<ListingStatus>,
    pub limit: i64,
    pub offset: i64,
}

pub open spec fn my_listings_step(st: ListMyListingsQuery, key: Seq<char>, value: Seq<char>) -> Result<
    ListMyListingsQuery,
    CoreError,
> {
    if key == "status"@ {
        if value.len() == 0 {
            Ok(st)
        } else {
            match read_status_of(value) {
                Some(s) => Ok(ListMyListingsQuery { status: Some(s), ..st }),
                None => Err(CoreError::Validation),
            }
        }
    } else if key == "limit"@ {
        match spec_limit(value) {
            Ok(l) => Ok(ListMyListingsQuery { limit: l, ..st }),
            Err(e) => Err(e),
        }
    } else if key == "offset"@ {
        match spec_offset(value) {
            Ok(o) => Ok(ListMyListingsQuery { offset: o, ..st }),
            Err(e) => Err(e),
        }
    } else {
        Ok(st)
    }
}

pub open spec fn my_listings_fold(st: ListMyListingsQuery, pairs: Seq<(Seq<char>, Seq<char>)>) -> Result<
    ListMyListingsQuery,
    CoreError,
>
    decreases pairs.len(),
{
    if pairs.len() == 0 {
        Ok(st)
    } else {
        match my_listings_step(st, pairs[0].0, pairs[0].1) {
            Err(e) => Err(e),
            Ok(next) => my_listings_fold(next, pairs.drop_first()),
        }
    }
}

fn my_listings_apply(st: ListMyListingsQuery, key: &str, value: &str) -> (r: Result<ListMyListingsQuery, CoreError>)
    ensures
        r == my_listings_step(st, key@, value@),
{
    if str_eq(key, "status") {
        if value.unicode_len() == 0 {
            Ok(st)
        } else {
            match read_status_text(value) {
                Some(s) => Ok(ListMyListingsQuery { status: Some(s), ..st }),
                None => Err(CoreError::Validation),
            }
        }
    } else if str_eq(key, "limit") {
        match parse_limit(value) {
            Ok(l) => Ok(ListMyListingsQuery { limit: l, ..st }),
            Err(e) => Err(e),
        }
    } else if str_eq(key, "offset") {
        match parse_offset(value) {
            Ok(o) => Ok(ListMyListingsQuery { offset: o, ..st }),
            Err(e) => Err(e),
        }
    } else {
        Ok(st)
    }
}

/// Reads an owner's listing query: `status` (active, expired or completed), `limit`
/// and `offset`.
pub fn parse_list_my_listings_query(query: Option<&str>) -> (r: Result<ListMyListingsQuery, CoreError>)
    ensures
        r == my_listings_fold(
            ListMyListingsQuery { status: None, limit: 20, offset: 0 },
            match query {
                Some(q) => query_pairs(q@),
                None => seq![],
            },
        ),
{
    let pairs = query_to_pairs(query);
    let ghost pv = pair_views(pairs@);
    let mut st = ListMyListingsQuery { status: None, limit: DEFAULT_PAGE_LIMIT, offset: 0 };
    let mut i: usize = 0;
    assert(pv.subrange(0, pv.len() as int) =~= pv);
    while i < pairs.len()
        invariant
            i <= pairs@.len(),
            pv == pair_views(pairs@),
            pv == match query {
                Some(q) => query_pairs(q@),
                None => seq![],
            },
            my_listings_fold(ListMyListingsQuery { status: None, limit: 20, offset: 0 }, pv) == my_listings_fold(
                st,
                pv.subrange(i as int, pv.len() as int),
            ),
        decreases pairs@.len() - i,
    {
        let ghost rest = pv.subrange(i as int, pv.len() as int);
        assert(rest.drop_first() =~= pv.subrange(i + 1, pv.len() as int));
        assert(rest[0] == (pairs@[i as int].0@, pairs@[i as int].1@));
        assert(rest.len() > 0);
        st = match my_listings_apply(st, pairs[i].0.as_str(), pairs[i].1.as_str()) {
            Ok(next) => next,
            Err(e) => {
                assert(my_listings_fold(st, rest) == Err::<ListMyListingsQuery, CoreError>(e));
                return Err(e);
            },
        };
        i = i + 1;
    }
    assert(pv.subrange(i as int, pv.len() as int) =~= Seq::<(Seq<char>, Seq<char>)>::empty());
    Ok(st)
}

// ---- feed ----

/// What a feed query asks for.
#[derive(Debug)]
pub struct DerivedFeedQuery {
    pub geo_key: String,
    pub window_days: u32,
    pub limit: i64,
    pub offset: i64,
}

pub type FeedState = (Option<Seq<char>>, u32, i64, i64);

pub open spec fn feed_step(st: FeedState, key: Seq<char>, value: Seq<char>) -> Result<FeedState, CoreError> {
    if key == "geoKey"@ {
        let g = normalized_geo_key(value);
        if g.len() == 0 || !spec_valid_geo_key(g) {
            Err(CoreError::Validation)
        } else {
            Ok((Some(g), st.1, st.2, st.3))
        }
    } else if key == "windowDays"@ {
        match spec_parse_i64(value) {
            Some(w) => if w == 7 || w == 14 || w == 30 {
                Ok((st.0, w as u32, st.2, st.3))
            } else {
                Err(CoreError::Validation)
            },
            None => Err(CoreError::Validation),
        }
    } else if key == "limit"@ {
        match spec_limit(value) {
            Ok(l) => Ok((st.0, st.1, l, st.3)),
            Err(e) => Err(e),
        }
    } else if key == "offset"@ {
        match spec_offset(value) {
            Ok(o) => Ok((st.0, st.1, st.2, o)),
            Err(e) => Err(e),
        }
    } else {
        Ok(st)
    }
}

pub open spec fn feed_fold(st: FeedState, pairs: Seq<(Seq<char>, Seq<char>)>) -> Result<FeedState, CoreError>
    decreases pairs.len(),
{
    if pairs.len() == 0 {
        Ok(st)
    } else {
        match feed_step(st, pairs[0].0, pairs[0].1) {
            Err(e) => Err(e),
            Ok(next) => feed_fold(next, pairs.drop_first()),
        }
    }
}

pub open spec fn spec_feed_query(pairs: Seq<(Seq<char>, Seq<char>)>) -> Result<FeedState, CoreError> {
    match feed_fold((None, 7, 20, 0), pairs) {
        Err(e) => Err(e),
        Ok(st) => if st.0 is None {
            Err(CoreError::Validation)
        } else {
            Ok(st)
        },
    }
}

fn feed_apply(
    geo: &mut Option<String>,
    window: &mut u32,
    limit: &mut i64,
    offset: &mut i64,
    key: &str,
    value: &str,
) -> (r: Result<(), CoreError>)
    ensures
        match feed_step((opt_string(*old(geo)), *old(window), *old(limit), *old(offset)), key@, value@) {
            Ok(st) => r is Ok && st == (opt_string(*final(geo)), *final(window), *final(limit), *final(offset)),
            Err(e) => r == Err::<(), CoreError>(e),
        },
{
    if str_eq(key, "geoKey") {
        let g = normalize_geo_key(value);
        if g.as_str().unicode_len() == 0 || !is_valid_geo_key(g.as_str()) {
            return Err(CoreError::Validation);
        }
        *geo = Some(g);
        Ok(())
    } else if str_eq(key, "windowDays") {
        match parse_i64(value) {
            Some(w) => {
                if w == 7 || w == 14 || w == 30 {
                    *window = w as u32;
                    Ok(())
                } else {
                    Err(CoreError::Validation)
                }
            },
            None => Err(CoreError::Validation),
        }
    } else if str_eq(key, "limit") {
        *limit = match parse_limit(value) {
            Ok(l) => l,
            Err(e) => return Err(e),
        };
        Ok(())
    } else if str_eq(key, "offset") {
        *offset = match parse_offset(value) {
            Ok(o) => o,
            Err(e) => return Err(e),
        };
        Ok(())
    } else {
        Ok(())
    }
}

/// Reads a feed query: `geoKey` (required), `windowDays` (7, 14 or 30; default 7),
/// `limit` and `offset`.
pub fn parse_derived_feed_query(query: Option<&str>) -> (r: Result<DerivedFeedQuery, CoreError>)
    ensures
        match spec_feed_query(
            match query {
                Some(q) => query_pairs(q@),
                None => seq![],
            },
        ) {
            Ok(st) => r matches Ok(q) && Some(q.geo_key@) == st.0 && q.window_days == st.1 && q.limit == st.2
                && q.offset == st.3,
            Err(e) => r == Err::<DerivedFeedQuery, CoreError>(e),
        },
{
    let pairs = query_to_pairs(query);
    let ghost pv = pair_views(pairs@);
    let mut geo: Option<String> = None;
    let mut window: u32 = DEFAULT_WINDOW_DAYS;
    let mut limit: i64 = DEFAULT_PAGE_LIMIT;
    let mut offset: i64 = 0;
    let mut i: usize = 0;
    assert(pv.subrange(0, pv.len() as int) =~= pv);
    while i < pairs.len()
        invariant
            i <= pairs@.len(),
            pv == pair_views(pairs@),
            pv == match query {
                Some(q) => query_pairs(q@),
                None => seq![],
            },
            feed_fold((None, 7, 20, 0), pv) == feed_fold(
                (opt_string(geo), window, limit, offset),
                pv.subrange(i as int, pv.len() as int),
            ),
        decreases pairs@.len() - i,
    {
        let ghost rest = pv.subrange(i as int, pv.len() as int);
        assert(rest.drop_first() =~= pv.subrange(i + 1, pv.len() as int));
        assert(rest[0] == (pairs@[i as int].0@, pairs@[i as int].1@));
        let ghost before = (opt_string(geo), window, limit, offset);
        assert(rest.len() > 0);
        match feed_apply(&mut geo, &mut window, &mut limit, &mut offset, pairs[i].0.as_str(), pairs[i].1.as_str()) {
            Ok(()) => {},
            Err(e) => {
                assert(feed_fold(before, rest) == Err::<FeedState, CoreError>(e));
                return Err(e);
            },
        }
        i = i + 1;
    }
    assert(pv.subrange(i as int, pv.len() as int) =~= Seq::<(Seq<char>, Seq<char>)>::empty());
    match geo {
        Some(g) => Ok(DerivedFeedQuery { geo_key: g, window_days: window, limit, offset }),
        None => Err(CoreError::Validation),
    }
}

} // verus!
