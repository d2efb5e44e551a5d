use vstd::prelude::*;

use crate::status::{ClaimStatus, ListingStatus, RequestStatus};

verus! {

/// The inventory-bearing part of a listing row.
///
/// Quantities are fixed-point numbers in thousandths of the listing's unit.
/// `quantity_remaining == None` means the listing is unbounded.
#[derive(Clone, Copy, Debug, PartialEq, Eq, Structural)]
pub struct ListingRecord {
    pub id: u128,
    pub owner_id: u128,
    pub crop_id: u128,
    pub quantity_total: u64,
    pub quantity_remaining: Option<u64>,
    pub status: ListingStatus,
    pub deleted: bool,
}

/// The part of a request row that claim creation checks.
#[derive(Clone, Copy, Debug, PartialEq, Eq, Structural)]
pub struct RequestRecord {
    pub id: u128,
    pub owner_id: u128,
    pub crop_id: u128,
    pub quantity: u64,
    pub status: RequestStatus,
    pub deleted: bool,
}

/// A claim row. Times are seconds since the Unix epoch.
#[derive(Debug)]
pub struct ClaimRecord {
    pub id: u128,
    pub listing_id: u128,
    pub request_id: Option<u128>,
    pub claimer_id: u128,
    pub quantity_claimed: u64,
    pub status: ClaimStatus,
    pub notes: Option<String>,
    pub claimed_at: i64,
    pub confirmed_at: Option<i64>,
    pub completed_at: Option<i64>,
    pub cancelled_at: Option<i64>,
}

/// Inventory never leaves `[0, quantity_total]` when it is bounded.
pub open spec fn inventory_in_range(l: ListingRecord) -> bool {
    match l.quantity_remaining {
        Some(r) => r <= l.quantity_total,
        None => true,
    }
}

/// A listing reads `claimed` exactly when its inventory is used up.
pub open spec fn status_matches_inventory(l: ListingRecord) -> bool {
    (l.status == ListingStatus::Claimed) <==> (l.quantity_remaining == Some(0u64))
}

pub open spec fn later_or_equal(t: Option<i64>, base: i64) -> bool {
    match t {
        Some(v) => v >= base,
        None => true,
    }
}

pub open spec fn opt_at_most(t: Option<i64>, bound: i64) -> bool {
    match t {
        Some(v) => v <= bound,
        None => true,
    }
}

/// Timestamps follow the status and never run backwards.
pub open spec fn claim_timeline_ok(c: &ClaimRecord) -> bool {
    &&& later_or_equal(c.confirmed_at, c.claimed_at)
    &&& (c.completed_at is Some ==> c.confirmed_at is Some
        && later_or_equal(c.completed_at, c.confirmed_at->0))
    &&& later_or_equal(c.cancelled_at, c.claimed_at)
    &&& (c.cancelled_at is Some && c.confirmed_at is Some ==> later_or_equal(
        c.cancelled_at,
        c.confirmed_at->0,
    ))
    &&& (c.status == ClaimStatus::Pending ==> c.confirmed_at is None && c.completed_at is None
        && c.cancelled_at is None)
    &&& (c.status == ClaimStatus::Confirmed ==> c.confirmed_at is Some && c.completed_at is None
        && c.cancelled_at is None)
    &&& (c.status == ClaimStatus::Completed ==> c.completed_at is Some && c.cancelled_at is None)
    &&& (c.status == ClaimStatus::Cancelled ==> c.cancelled_at is Some && c.completed_at is None)
    &&& (c.status == ClaimStatus::NoShow ==> c.cancelled_at is Some && c.confirmed_at is Some
        && c.completed_at is None)
}

/// No stamp of the claim lies after `now`.
pub open spec fn stamps_not_after(c: &ClaimRecord, now: i64) -> bool {
    &&& c.claimed_at <= now
    &&& opt_at_most(c.confirmed_at, now)
    &&& opt_at_most(c.completed_at, now)
    &&& opt_at_most(c.cancelled_at, now)
}

} // verus!
