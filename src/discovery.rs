use vstd::prelude::*;

use crate::error::CoreError;
use crate::geo::{geohash_precision_for_radius_m, spec_precision_for_radius, spec_prefix, take_prefix};
use crate::text::owned;

verus! {

/// The discovery scope of a geo key: cut to the precision of the radius (in meters)
/// when one is given, else the whole key.
pub fn derive_geo_prefix(geo_key: &str, radius_m: Option<u64>) -> (r: String)
    ensures
        match radius_m {
            Some(m) => r@ == spec_prefix(geo_key@, spec_precision_for_radius(m) as int),
            None => r@ == geo_key@,
        },
{
    match radius_m {
        Some(m) => {
            let precision = geohash_precision_for_radius_m(m);
            take_prefix(geo_key, precision)
        },
        None => owned(geo_key),
    }
}

/// The largest page a listing query may ask for.
pub const MAX_PAGE_LIMIT: i64 = 100;

/// A page is 1 to 100 rows long and starts at a non-negative offset.
pub open spec fn spec_page_valid(limit: i64, offset: i64) -> bool {
    1 <= limit <= 100 && offset >= 0
}

/// Checks the paging arguments of a listing query.
pub fn validate_page(limit: i64, offset: i64) -> (r: Result<(), CoreError>)
    ensures
        r is Ok <==> spec_page_valid(limit, offset),
        r is Err ==> r == Err::<(), CoreError>(CoreError::Validation),
{
    if limit < 1 || limit > MAX_PAGE_LIMIT {
        return Err(CoreError::Validation);
    }
    if offset < 0 {
        return Err(CoreError::Validation);
    }
    Ok(())
}

/// The shape of a page: how many fetched rows to show, whether more follow, and where
/// the next page starts.
#[derive(Clone, Copy, Debug, PartialEq, Eq, Structural)]
pub struct PageInfo {
    pub shown: usize,
    pub has_more: bool,
    pub next_offset: Option<i64>,
}

/// A page query fetches `limit + 1` rows; a row beyond `limit` means more follow.
pub fn page_info(fetched: usize, limit: i64, offset: i64) -> (r: PageInfo)
    requires
        spec_page_valid(limit, offset),
        offset + limit <= i64::MAX,
    ensures
        r.has_more == (fetched > limit),
        r.shown == if fetched > limit {
            limit as usize
        } else {
            fetched
        },
        r.next_offset == if fetched > limit {
            Some((offset + limit) as i64)
        } else {
            None
        },
{
    let lim: usize = limit as usize;
    if fetched > lim {
        PageInfo { shown: lim, has_more: true, next_offset: Some(offset + limit) }
    } else {
        PageInfo { shown: fetched, has_more: false, next_offset: None }
    }
}

} // verus!
