use vstd::prelude::*;

use crate::status::{ListingStatus, RequestStatus};
use crate::text::{spec_starts_with, starts_with};

verus! {

/// The schema version that derived-signal keys carry.
pub const SCHEMA_VERSION: u32 = 1;

/// Seconds in a day.
pub const SECONDS_PER_DAY: i64 = 86_400;

/// Seconds in an aggregation bucket.
pub const BUCKET_SECONDS: i64 = 300;

/// One unit of quantity, in the thousandths that quantities are kept in.
pub const QUANTITY_UNIT: u128 = 1000;

/// The rolling windows, in days, that signals are computed over.
pub open spec fn window_of(k: int) -> u32 {
    if k == 0 {
        7
    } else if k == 1 {
        14
    } else {
        30
    }
}

/// Days a signal of the given window is kept: 7 gives 35, 14 gives 49, 30 gives 90.
pub open spec fn spec_retention_days(window_days: u32) -> u32 {
    if window_days == 7 {
        35
    } else if window_days == 14 {
        49
    } else {
        90
    }
}

pub fn retention_days(window_days: u32) -> (r: u32)
    ensures
        r == spec_retention_days(window_days),
{
    if window_days == 7 {
        35
    } else if window_days == 14 {
        49
    } else {
        90
    }
}

/// The 5-minute floor of a time in epoch seconds: `t - (t mod 300)`.
pub open spec fn spec_bucket_start(t: i64) -> int {
    t - (t as int % 300)
}

pub fn compute_bucket_start(occurred_at: i64) -> (r: i64)
    requires
        occurred_at >= i64::MIN + 300,
    ensures
        r as int == spec_bucket_start(occurred_at),
{
    let m: i64 = occurred_at % BUCKET_SECONDS;
    let e: i64 = if m < 0 {
        m + BUCKET_SECONDS
    } else {
        m
    };
    assert(e as int == occurred_at as int % 300) by {
        assert(occurred_at as int == (occurred_at as int / 300) * 300 + occurred_at as int % 300);
    }
    occurred_at - e
}

/// A region of the spatial hierarchy, for one crop or for all crops (`None`).
#[derive(Debug)]
pub struct GeoScope {
    pub geo_boundary_key: String,
    pub crop_id: Option<u128>,
}

pub open spec fn scope_view(s: GeoScope) -> (Seq<char>, Option<u128>) {
    (s.geo_boundary_key@, s.crop_id)
}

/// An exact non-negative ratio.
#[derive(Clone, Copy, Debug, PartialEq, Eq, Structural)]
pub struct Ratio {
    pub numerator: u128,
    pub denominator: u128,
}

/// A listing row as the aggregation reads it.
#[derive(Debug)]
pub struct SupplyRow {
    pub geo_key: String,
    pub crop_id: u128,
    pub status: ListingStatus,
    pub quantity_remaining: Option<u64>,
    pub created_at: i64,
    pub deleted: bool,
}

/// A request row as the aggregation reads it.
#[derive(Debug)]
pub struct DemandRow {
    pub geo_key: String,
    pub crop_id: u128,
    pub status: RequestStatus,
    pub quantity: u64,
    pub created_at: i64,
    pub deleted: bool,
}

/// One derived-signal row, keyed by schema version, geo key, crop scope, window and bucket.
#[derive(Debug)]
pub struct DerivedSignalRow {
    pub schema_version: u32,
    pub geo_boundary_key: String,
    pub crop_scope_id: Option<u128>,
    pub window_days: u32,
    pub bucket_start: i64,
    pub listing_count: usize,
    pub request_count: usize,
    pub supply_quantity: u128,
    pub demand_quantity: u128,
    pub scarcity_score: Ratio,
    pub abundance_score: Ratio,
    pub computed_at: i64,
    pub expires_at: i64,
}

/// Whether a row of the given place, crop, age and deletion counts toward a scope.
pub open spec fn in_scope(
    geo_key: Seq<char>,
    crop_id: u128,
    created_at: i64,
    deleted: bool,
    scope: GeoScope,
    window_start: int,
) -> bool {
    &&& !deleted
    &&& created_at >= window_start
    &&& spec_starts_with(geo_key, scope.geo_boundary_key@)
    &&& (scope.crop_id is None || scope.crop_id == Some(crop_id))
}

pub open spec fn supply_counted(r: SupplyRow, scope: GeoScope, window_start: int) -> bool {
    in_scope(r.geo_key@, r.crop_id, r.created_at, r.deleted, scope, window_start)
        && r.status.spec_counts_as_supply()
}

pub open spec fn demand_counted(r: DemandRow, scope: GeoScope, window_start: int) -> bool {
    in_scope(r.geo_key@, r.crop_id, r.created_at, r.deleted, scope, window_start) && r.status
        == RequestStatus::Open
}

/// How many listings count toward the scope.
pub open spec fn supply_count(rows: Seq<SupplyRow>, scope: GeoScope, window_start: int) -> nat
    decreases rows.len(),
{
    if rows.len() == 0 {
        0
    } else {
        supply_count(rows.drop_last(), scope, window_start) + if supply_counted(
            rows.last(),
            scope,
            window_start,
        ) {
            1nat
        } else {
            0nat
        }
    }
}

/// The remaining quantity of the listings that count; unbounded ones add nothing.
pub open spec fn supply_total(rows: Seq<SupplyRow>, scope: GeoScope, window_start: int) -> nat
    decreases rows.len(),
{
    if rows.len() == 0 {
        0
    } else {
        supply_total(rows.drop_last(), scope, window_start) + if supply_counted(
            rows.last(),
            scope,
            window_start,
        ) && rows.last().quantity_remaining is Some {
            rows.last().quantity_remaining->0 as nat
        } else {
            0nat
        }
    }
}

pub open spec fn demand_count(rows: Seq<DemandRow>, scope: GeoScope, window_start: int) -> nat
    decreases rows.len(),
{
    if rows.len() == 0 {
        0
    } else {
        demand_count(rows.drop_last(), scope, window_start) + if demand_counted(
            rows.last(),
            scope,
            window_start,
        ) {
            1nat
        } else {
            0nat
        }
    }
}

pub open spec fn demand_total(rows: Seq<DemandRow>, scope: GeoScope, window_start: int) -> nat
    decreases rows.len(),
{
    if rows.len() == 0 {
        0
    } else {
        demand_total(rows.drop_last(), scope, window_start) + if demand_counted(
            rows.last(),
            scope,
            window_start,
        ) {
            rows.last().quantity as nat
        } else {
            0nat
        }
    }
}

proof fn lemma_supply_bounds(rows: Seq<SupplyRow>, scope: GeoScope, ws: int)
    ensures
        supply_count(rows, scope, ws) <= rows.len(),
        supply_total(rows, scope, ws) <= rows.len() * 0xffff_ffff_ffff_ffff,
    decreases rows.len(),
{
    if rows.len() > 0 {
        lemma_supply_bounds(rows.drop_last(), scope, ws);
        assert((rows.len() - 1) * 0xffff_ffff_ffff_ffff + 0xffff_ffff_ffff_ffff == rows.len()
            * 0xffff_ffff_ffff_ffff) by (nonlinear_arith);
    }
}

proof fn lemma_demand_bounds(rows: Seq<DemandRow>, scope: GeoScope, ws: int)
    ensures
        demand_count(rows, scope, ws) <= rows.len(),
        demand_total(rows, scope, ws) <= rows.len() * 0xffff_ffff_ffff_ffff,
    decreases rows.len(),
{
    if rows.len() > 0 {
        lemma_demand_bounds(rows.drop_last(), scope, ws);
        assert((rows.len() - 1) * 0xffff_ffff_ffff_ffff + 0xffff_ffff_ffff_ffff == rows.len()
            * 0xffff_ffff_ffff_ffff) by (nonlinear_arith);
    }
}

proof fn lemma_total_fits(n: nat, total: nat)
    requires
        n <= usize::MAX,
        total <= n * 0xffff_ffff_ffff_ffff,
    ensures
        total + 1000 <= u128::MAX,
{
    assert(n * 0xffff_ffff_ffff_ffff <= 0xffff_ffff_ffff_ffff * 0xffff_ffff_ffff_ffff) by (nonlinear_arith)
        requires
            n <= 0xffff_ffff_ffff_ffff,
    ;
}

fn scope_matches(
    geo_key: &String,
    crop_id: u128,
    created_at: i64,
    deleted: bool,
    scope: &GeoScope,
    window_start: i128,
) -> (r: bool)
    ensures
        r == in_scope(geo_key@, crop_id, created_at, deleted, *scope, window_start as int),
{
    if deleted || (created_at as i128) < window_start {
        return false;
    }
    if !starts_with(geo_key.as_str(), scope.geo_boundary_key.as_str()) {
        return false;
    }
    match scope.crop_id {
        None => true,
        Some(c) => c == crop_id,
    }
}

/// Counts the listings that count toward the scope and sums their remaining quantity.
pub fn aggregate_supply(rows: &Vec<SupplyRow>, scope: &GeoScope, window_start: i128) -> (r: (usize, u128))
    ensures
        r.0 as nat == supply_count(rows@, *scope, window_start as int),
        r.1 as nat == supply_total(rows@, *scope, window_start as int),
{
    let mut count: usize = 0;
    let mut total: u128 = 0;
    let mut i: usize = 0;
    while i < rows.len()
        invariant
            i <= rows@.len(),
            count as nat == supply_count(rows@.take(i as int), *scope, window_start as int),
            total as nat == supply_total(rows@.take(i as int), *scope, window_start as int),
        decreases rows@.len() - i,
    {
        proof {
            lemma_supply_bounds(rows@.take(i as int), *scope, window_start as int);
            assert(i * 0xffff_ffff_ffff_ffff <= 0xffff_ffff_ffff_ffff * 0xffff_ffff_ffff_ffff) by (nonlinear_arith)
                requires
                    i <= 0xffff_ffff_ffff_ffff,
            ;
            assert(rows@.take(i as int + 1).drop_last() =~= rows@.take(i as int));
        }
        let row = &rows[i];
        let counted = row.status.is_claimable() && scope_matches(
            &row.geo_key,
            row.crop_id,
            row.created_at,
            row.deleted,
            scope,
            window_start,
        );
        if counted {
            count = count + 1;
            match row.quantity_remaining {
                Some(q) => {
                    total = total + q as u128;
                },
                None => {},
            }
        }
        i = i + 1;
    }
    assert(rows@.take(i as int) =~= rows@);
    (count, total)
}

/// Counts the open requests that count toward the scope and sums their quantity.
pub fn aggregate_demand(rows: &Vec<DemandRow>, scope: &GeoScope, window_start: i128) -> (r: (usize, u128))
    ensures
        r.0 as nat == demand_count(rows@, *scope, window_start as int),
        r.1 as nat == demand_total(rows@, *scope, window_start as int),
{
    let mut count: usize = 0;
    let mut total: u128 = 0;
    let mut i: usize = 0;
    while i < rows.len()
        invariant
            i <= rows@.len(),
            count as nat == demand_count(rows@.take(i as int), *scope, window_start as int),
            total as nat == demand_total(rows@.take(i as int), *scope, window_start as int),
        decreases rows@.len() - i,
    {
        proof {
            lemma_demand_bounds(rows@.take(i as int), *scope, window_start as int);
            assert(i * 0xffff_ffff_ffff_ffff <= 0xffff_ffff_ffff_ffff * 0xffff_ffff_ffff_ffff) by (nonlinear_arith)
                requires
                    i <= 0xffff_ffff_ffff_ffff,
            ;
            assert(rows@.take(i as int + 1).drop_last() =~= rows@.take(i as int));
        }
        let row = &rows[i];
        let counted = row.status == RequestStatus::Open && scope_matches(
            &row.geo_key,
            row.crop_id,
            row.created_at,
            row.deleted,
            scope,
            window_start,
        );
        if counted {
            count = count + 1;
            total = total + row.quantity as u128;
        }
        i = i + 1;
    }
    assert(rows@.take(i as int) =~= rows@);
    (count, total)
}

/// The start of a window of `window_days` days that ends at `now`.
pub open spec fn window_start(now: i64, window_days: u32) -> int {
    now - window_days * 86_400
}

/// `scarcity = demand / (supply + 1)`, `abundance = supply / (demand + 1)`, with one
/// unit written as a thousand thousandths.
pub open spec fn spec_scores(supply: nat, demand: nat) -> (Ratio, Ratio) {
    (
        Ratio { numerator: demand as u128, denominator: (supply + 1000) as u128 },
        Ratio { numerator: supply as u128, denominator: (demand + 1000) as u128 },
    )
}

/// Times stay far enough from the ends of `i64` for any retention to be added.
pub open spec fn time_in_range(t: i64) -> bool {
    i64::MIN + 300 <= t && t + 90 * 86_400 <= i64::MAX
}

/// The row that recomputing `scope` over `window_days` at `now` writes into `bucket_start`.
pub open spec fn spec_signal_row(
    scope: GeoScope,
    window_days: u32,
    listings: Seq<SupplyRow>,
    requests: Seq<DemandRow>,
    bucket_start: i64,
    now: i64,
) -> DerivedSignalRow {
    let ws = window_start(now, window_days);
    let supply = supply_total(listings, scope, ws);
    let demand = demand_total(requests, scope, ws);
    DerivedSignalRow {
        schema_version: 1,
        geo_boundary_key: scope.geo_boundary_key,
        crop_scope_id: scope.crop_id,
        window_days,
        bucket_start,
        listing_count: supply_count(listings, scope, ws) as usize,
        request_count: demand_count(requests, scope, ws) as usize,
        supply_quantity: supply as u128,
        demand_quantity: demand as u128,
        scarcity_score: spec_scores(supply, demand).0,
        abundance_score: spec_scores(supply, demand).1,
        computed_at: now,
        expires_at: (now + spec_retention_days(window_days) * 86_400) as i64,
    }
}

/// Recomputes the aggregates of one scope and window from the listing and request rows.
/// The row expires `retention_days(window_days)` days after it was computed.
pub fn recompute_signal(
    scope: &GeoScope,
    window_days: u32,
    listings: &Vec<SupplyRow>,
    requests: &Vec<DemandRow>,
    bucket_start: i64,
    now: i64,
) -> (r: DerivedSignalRow)
    requires
        time_in_range(now),
        window_days <= 30,
    ensures
        r == spec_signal_row(*scope, window_days, listings@, requests@, bucket_start, now),
        r.expires_at == r.computed_at + spec_retention_days(r.window_days) * 86_400,
{
    let ws: i128 = now as i128 - (window_days as i128) * 86_400;
    let (listing_count, supply) = aggregate_supply(listings, scope, ws);
    let (request_count, demand) = aggregate_demand(requests, scope, ws);
    let n_listings = listings.len();
    let n_requests = requests.len();
    proof {
        lemma_supply_bounds(listings@, *scope, ws as int);
        lemma_demand_bounds(requests@, *scope, ws as int);
        lemma_total_fits(n_listings as nat, supply as nat);
        lemma_total_fits(n_requests as nat, demand as nat);
    }
    let retention: i64 = retention_days(window_days) as i64;
    DerivedSignalRow {
        schema_version: SCHEMA_VERSION,
        geo_boundary_key: scope.geo_boundary_key.clone(),
        crop_scope_id: scope.crop_id,
        window_days,
        bucket_start,
        listing_count,
        request_count,
        supply_quantity: supply,
        demand_quantity: demand,
        scarcity_score: Ratio { numerator: demand, denominator: supply + QUANTITY_UNIT },
        abundance_score: Ratio { numerator: supply, denominator: demand + QUANTITY_UNIT },
        computed_at: now,
        expires_at: now + retention * SECONDS_PER_DAY,
    }
}

} // verus!
