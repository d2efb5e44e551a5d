use vstd::prelude::*;

use crate::error::CoreError;
use crate::model::{ClaimRecord, ListingRecord, RequestRecord};
use crate::status::{ClaimStatus, ListingStatus, RequestStatus};
use crate::text::{normalize_optional_text, normalized_text, opt_string_view, opt_view};

verus! {

/// The part a participant plays in a claim.
#[derive(Clone, Copy, Debug, PartialEq, Eq, Structural)]
pub enum ClaimActorRole {
    Claimer,
    ListingOwner,
}

/// How a transition moves the listing's inventory.
#[derive(Clone, Copy, Debug, PartialEq, Eq, Structural)]
pub enum QuantityAdjustment {
    NoChange,
    Decrement,
    Increment,
}

/// What a permitted transition does: the inventory move and the stamps to set.
#[derive(Clone, Copy, Debug, PartialEq, Eq, Structural)]
pub struct TransitionDecision {
    pub quantity_adjustment: QuantityAdjustment,
    pub stamp_confirmed_at: bool,
    pub stamp_completed_at: bool,
    pub stamp_cancelled_at: bool,
}

pub open spec fn spec_role(actor: u128, claimer: u128, owner: u128) -> Option<ClaimActorRole> {
    if actor == claimer {
        Some(ClaimActorRole::Claimer)
    } else if actor == owner {
        Some(ClaimActorRole::ListingOwner)
    } else {
        None
    }
}

/// Resolves the actor's role; a non-participant is refused.
pub fn determine_actor_role(actor_user_id: u128, claimer_id: u128, listing_owner_id: u128) -> (r:
    Result<ClaimActorRole, CoreError>)
    ensures
        match spec_role(actor_user_id, claimer_id, listing_owner_id) {
            Some(role) => r == Ok::<ClaimActorRole, CoreError>(role),
            None => r == Err::<ClaimActorRole, CoreError>(CoreError::Forbidden),
        },
{
    if actor_user_id == claimer_id {
        return Ok(ClaimActorRole::Claimer);
    }
    if actor_user_id == listing_owner_id {
        return Ok(ClaimActorRole::ListingOwner);
    }
    Err(CoreError::Forbidden)
}

pub open spec fn decision(
    adj: QuantityAdjustment,
    confirmed: bool,
    completed: bool,
    cancelled: bool,
) -> TransitionDecision {
    TransitionDecision {
        quantity_adjustment: adj,
        stamp_confirmed_at: confirmed,
        stamp_completed_at: completed,
        stamp_cancelled_at: cancelled,
    }
}

/// The transition table of the claim state machine.
pub open spec fn spec_decision(current: ClaimStatus, target: ClaimStatus, role: ClaimActorRole) -> Result<
    TransitionDecision,
    CoreError,
> {
    if current == target {
        Ok(decision(QuantityAdjustment::NoChange, false, false, false))
    } else {
        match (current, target) {
            (ClaimStatus::Pending, ClaimStatus::Confirmed) => if role == ClaimActorRole::ListingOwner {
                Ok(decision(QuantityAdjustment::Decrement, true, false, false))
            } else {
                Err(CoreError::Forbidden)
            },
            (ClaimStatus::Pending, ClaimStatus::Cancelled) => Ok(
                decision(QuantityAdjustment::NoChange, false, false, true),
            ),
            (ClaimStatus::Confirmed, ClaimStatus::Completed) => Ok(
                decision(QuantityAdjustment::NoChange, false, true, false),
            ),
            (ClaimStatus::Confirmed, ClaimStatus::Cancelled) => Ok(
                decision(QuantityAdjustment::Increment, false, false, true),
            ),
            (ClaimStatus::Confirmed, ClaimStatus::NoShow) => if role == ClaimActorRole::ListingOwner {
                Ok(decision(QuantityAdjustment::Increment, false, false, true))
            } else {
                Err(CoreError::Forbidden)
            },
            _ => Err(CoreError::InvalidTransition),
        }
    }
}

fn make_decision(adj: QuantityAdjustment, confirmed: bool, completed: bool, cancelled: bool) -> (r:
    TransitionDecision)
    ensures
        r == decision(adj, confirmed, completed, cancelled),
{
    TransitionDecision {
        quantity_adjustment: adj,
        stamp_confirmed_at: confirmed,
        stamp_completed_at: completed,
        stamp_cancelled_at: cancelled,
    }
}

/// Decides whether `role` may move a claim from `current` to `target`, and with what effect.
pub fn evaluate_transition(current: ClaimStatus, target: ClaimStatus, actor_role: ClaimActorRole) -> (r:
    Result<TransitionDecision, CoreError>)
    ensures
        r == spec_decision(current, target, actor_role),
{
    if current == target {
        return Ok(make_decision(QuantityAdjustment::NoChange, false, false, false));
    }
    match (current, target) {
        (ClaimStatus::Pending, ClaimStatus::Confirmed) => {
            if actor_role != ClaimActorRole::ListingOwner {
                return Err(CoreError::Forbidden);
            }
            Ok(make_decision(QuantityAdjustment::Decrement, true, false, false))
        },
        (ClaimStatus::Pending, ClaimStatus::Cancelled) => Ok(
            make_decision(QuantityAdjustment::NoChange, false, false, true),
        ),
        (ClaimStatus::Confirmed, ClaimStatus::Completed) => Ok(
            make_decision(QuantityAdjustment::NoChange, false, true, false),
        ),
        (ClaimStatus::Confirmed, ClaimStatus::Cancelled) => Ok(
            make_decision(QuantityAdjustment::Increment, false, false, true),
        ),
        (ClaimStatus::Confirmed, ClaimStatus::NoShow) => {
            if actor_role != ClaimActorRole::ListingOwner {
                return Err(CoreError::Forbidden);
            }
            Ok(make_decision(QuantityAdjustment::Increment, false, false, true))
        },
        _ => Err(CoreError::InvalidTransition),
    }
}

/// `r + q`, capped at `total`.
pub open spec fn capped_sum(r: u64, q: u64, total: u64) -> u64 {
    if r + q >= total {
        total
    } else {
        (r + q) as u64
    }
}

fn add_capped(r: u64, q: u64, total: u64) -> (out: u64)
    ensures
        out == capped_sum(r, q, total),
{
    if r >= total || q >= total - r {
        total
    } else {
        r + q
    }
}

/// The listing after the guarded inventory update of a transition.
///
/// A decrement on a bounded listing fails unless `quantity_remaining >= quantity`,
/// and flips the listing to `claimed` when nothing is left. An increment gives the
/// quantity back, capped at `quantity_total` (the total may have shrunk meanwhile), and
/// restores a `claimed` listing to `active`. An unbounded listing keeps its inventory.
pub open spec fn spec_adjusted(l: ListingRecord, quantity: u64, adj: QuantityAdjustment) -> Result<
    ListingRecord,
    CoreError,
> {
    match adj {
        QuantityAdjustment::NoChange => Ok(l),
        QuantityAdjustment::Decrement => if l.deleted {
            Err(CoreError::InsufficientQuantity)
        } else {
            match l.quantity_remaining {
                None => Ok(l),
                Some(r) => if r < quantity {
                    Err(CoreError::InsufficientQuantity)
                } else {
                    Ok(
                        ListingRecord {
                            quantity_remaining: Some((r - quantity) as u64),
                            status: if r - quantity == 0 {
                                ListingStatus::Claimed
                            } else {
                                l.status
                            },
                            ..l
                        },
                    )
                },
            }
        },
        QuantityAdjustment::Increment => if l.deleted {
            Ok(l)
        } else {
            Ok(
                ListingRecord {
                    quantity_remaining: match l.quantity_remaining {
                        Some(r) => Some(capped_sum(r, quantity, l.quantity_total)),
                        None => None,
                    },
                    status: if l.status == ListingStatus::Claimed {
                        ListingStatus::Active
                    } else {
                        l.status
                    },
                    ..l
                },
            )
        },
    }
}

/// Applies a transition's inventory move to the listing.
pub fn adjust_listing_quantity_if_needed(
    listing: &ListingRecord,
    quantity_claimed: u64,
    adjustment: QuantityAdjustment,
) -> (r: Result<ListingRecord, CoreError>)
    ensures
        r == spec_adjusted(*listing, quantity_claimed, adjustment),
{
    let mut l = *listing;
    match adjustment {
        QuantityAdjustment::NoChange => Ok(l),
        QuantityAdjustment::Decrement => {
            if l.deleted {
                return Err(CoreError::InsufficientQuantity);
            }
            match l.quantity_remaining {
                None => Ok(l),
                Some(r) => {
                    if r < quantity_claimed {
                        return Err(CoreError::InsufficientQuantity);
                    }
                    let left: u64 = r - quantity_claimed;
                    l.quantity_remaining = Some(left);
                    if left == 0 {
                        l.status = ListingStatus::Claimed;
                    }
                    Ok(l)
                },
            }
        },
        QuantityAdjustment::Increment => {
            if l.deleted {
                return Ok(l);
            }
            match l.quantity_remaining {
                Some(r) => {
                    l.quantity_remaining = Some(add_capped(r, quantity_claimed, l.quantity_total));
                },
                None => {},
            }
            if l.status == ListingStatus::Claimed {
                l.status = ListingStatus::Active;
            }
            Ok(l)
        },
    }
}

/// `COALESCE(existing, now)` when the stamp is due, else the existing value.
pub open spec fn stamp(existing: Option<i64>, due: bool, now: i64) -> Option<i64> {
    if due && existing is None {
        Some(now)
    } else {
        existing
    }
}

fn apply_stamp(existing: Option<i64>, due: bool, now: i64) -> (r: Option<i64>)
    ensures
        r == stamp(existing, due, now),
{
    if due && existing.is_none() {
        Some(now)
    } else {
        existing
    }
}

/// What a transition asks of the claim and the listing, or why it is refused.
pub open spec fn spec_transition(
    claim: &ClaimRecord,
    listing: ListingRecord,
    actor: u128,
    target: ClaimStatus,
) -> Result<(TransitionDecision, ListingRecord), CoreError> {
    if listing.deleted {
        Err(CoreError::NotFound)
    } else {
        match spec_role(actor, claim.claimer_id, listing.owner_id) {
            None => Err(CoreError::Forbidden),
            Some(role) => match spec_decision(claim.status, target, role) {
                Err(e) => Err(e),
                Ok(d) => match spec_adjusted(listing, claim.quantity_claimed, d.quantity_adjustment) {
                    Err(e) => Err(e),
                    Ok(l) => Ok((d, l)),
                },
            },
        }
    }
}

/// The claim row after a permitted transition.
pub open spec fn spec_stamped(
    claim: &ClaimRecord,
    d: TransitionDecision,
    target: ClaimStatus,
    notes: Option<String>,
    now: i64,
) -> ClaimRecord {
    ClaimRecord {
        id: claim.id,
        listing_id: claim.listing_id,
        request_id: claim.request_id,
        claimer_id: claim.claimer_id,
        quantity_claimed: claim.quantity_claimed,
        status: target,
        notes: match notes {
            Some(n) => Some(n),
            None => claim.notes,
        },
        claimed_at: claim.claimed_at,
        confirmed_at: stamp(claim.confirmed_at, d.stamp_confirmed_at, now),
        completed_at: stamp(claim.completed_at, d.stamp_completed_at, now),
        cancelled_at: stamp(claim.cancelled_at, d.stamp_cancelled_at, now),
    }
}

/// Moves a claim to `target` on behalf of `actor`, with the listing row locked beside it.
///
/// On success the claim takes the new status and its due stamps, `notes` replaces the
/// old notes when given, and the listing takes the inventory move. On failure neither
/// row changes.
pub fn transition_claim(
    claim: &mut ClaimRecord,
    listing: &mut ListingRecord,
    actor_user_id: u128,
    target_status: ClaimStatus,
    notes: Option<String>,
    now: i64,
) -> (r: Result<(), CoreError>)
    requires
        old(claim).listing_id == old(listing).id,
    ensures
        match spec_transition(old(claim), *old(listing), actor_user_id, target_status) {
            Ok((d, l)) => r is Ok && *final(listing) == l && *final(claim) == spec_stamped(
                old(claim),
                d,
                target_status,
                notes,
                now,
            ),
            Err(e) => r == Err::<(), CoreError>(e) && *final(listing) == *old(listing) && *final(claim)
                == *old(claim),
        },
{
    if listing.deleted {
        return Err(CoreError::NotFound);
    }
    let role = match determine_actor_role(actor_user_id, claim.claimer_id, listing.owner_id) {
        Ok(role) => role,
        Err(e) => return Err(e),
    };
    let d = match evaluate_transition(claim.status, target_status, role) {
        Ok(d) => d,
        Err(e) => return Err(e),
    };
    let updated = match adjust_listing_quantity_if_needed(
        listing,
        claim.quantity_claimed,
        d.quantity_adjustment,
    ) {
        Ok(l) => l,
        Err(e) => return Err(e),
    };
    *listing = updated;
    claim.status = target_status;
    match notes {
        Some(n) => {
            claim.notes = Some(n);
        },
        None => {},
    }
    claim.confirmed_at = apply_stamp(claim.confirmed_at, d.stamp_confirmed_at, now);
    claim.completed_at = apply_stamp(claim.completed_at, d.stamp_completed_at, now);
    claim.cancelled_at = apply_stamp(claim.cancelled_at, d.stamp_cancelled_at, now);
    Ok(())
}

/// The checks that tie a claim to a request of the claimer's.
pub open spec fn spec_request_linkage(
    request: Option<RequestRecord>,
    claimer_id: u128,
    listing_crop_id: u128,
) -> Result<(), CoreError> {
    match request {
        None => Err(CoreError::NotFound),
        Some(q) => if q.deleted {
            Err(CoreError::NotFound)
        } else if q.owner_id != claimer_id {
            Err(CoreError::Forbidden)
        } else if q.status == RequestStatus::Closed {
            Err(CoreError::Validation)
        } else if q.crop_id != listing_crop_id {
            Err(CoreError::Validation)
        } else {
            Ok(())
        },
    }
}

/// Checks the request a claim names: it must exist, belong to the claimer, be open to
/// matching, and ask for the listing's crop.
pub fn validate_request_linkage(
    request: Option<&RequestRecord>,
    claimer_id: u128,
    listing_crop_id: u128,
) -> (r: Result<(), CoreError>)
    ensures
        r == spec_request_linkage(
            match request {
                Some(q) => Some(*q),
                None => None,
            },
            claimer_id,
            listing_crop_id,
        ),
{
    match request {
        None => Err(CoreError::NotFound),
        Some(q) => {
            if q.deleted {
                Err(CoreError::NotFound)
            } else if q.owner_id != claimer_id {
                Err(CoreError::Forbidden)
            } else if q.status == RequestStatus::Closed {
                Err(CoreError::Validation)
            } else if q.crop_id != listing_crop_id {
                Err(CoreError::Validation)
            } else {
                Ok(())
            }
        },
    }
}

/// Why a claim cannot be opened, if it cannot.
pub open spec fn spec_create_refusal(
    listing: ListingRecord,
    request_id: Option<u128>,
    request: Option<RequestRecord>,
    claimer_id: u128,
    quantity_claimed: u64,
) -> Option<CoreError> {
    if quantity_claimed == 0 {
        Some(CoreError::Validation)
    } else if listing.deleted {
        Some(CoreError::NotFound)
    } else if !listing.status.spec_is_claimable() {
        Some(CoreError::NotClaimable)
    } else if listing.quantity_remaining is Some && listing.quantity_remaining->0 < quantity_claimed {
        Some(CoreError::InsufficientQuantity)
    } else if request_id is Some {
        match spec_request_linkage(request, claimer_id, listing.crop_id) {
            Err(e) => Some(e),
            Ok(_) => None,
        }
    } else {
        None
    }
}

/// Opens a pending claim against a listing. Inventory is not touched: only the
/// owner's confirmation reserves it.
///
/// `request` is the row found under `request_id`, if any.
pub fn create_claim(
    claim_id: u128,
    claimer_id: u128,
    listing: &ListingRecord,
    request_id: Option<u128>,
    request: Option<&RequestRecord>,
    quantity_claimed: u64,
    notes: Option<&str>,
    now: i64,
) -> (r: Result<ClaimRecord, CoreError>)
    requires
        request is Some ==> request_id == Some(request->0.id),
    ensures
        match spec_create_refusal(
            *listing,
            request_id,
            match request {
                Some(q) => Some(*q),
                None => None,
            },
            claimer_id,
            quantity_claimed,
        ) {
            Some(e) => r matches Err(x) && x == e,
            None => r matches Ok(c) && c.id == claim_id && c.listing_id == listing.id && c.request_id
                == request_id && c.claimer_id == claimer_id && c.quantity_claimed == quantity_claimed
                && c.status == ClaimStatus::Pending && opt_string_view(c.notes) == normalized_text(
                opt_view(notes),
            ) && c.claimed_at == now && c.confirmed_at is None && c.completed_at is None
                && c.cancelled_at is None,
        },
{
    if quantity_claimed == 0 {
        return Err(CoreError::Validation);
    }
    if listing.deleted {
        return Err(CoreError::NotFound);
    }
    if !listing.status.is_claimable() {
        return Err(CoreError::NotClaimable);
    }
    match listing.quantity_remaining {
        Some(r) => {
            if r < quantity_claimed {
                return Err(CoreError::InsufficientQuantity);
            }
        },
        None => {},
    }
    if request_id.is_some() {
        match validate_request_linkage(request, claimer_id, listing.crop_id) {
            Ok(_) => {},
            Err(e) => return Err(e),
        }
    }
    Ok(
        ClaimRecord {
            id: claim_id,
            listing_id: listing.id,
            request_id,
            claimer_id,
            quantity_claimed,
            status: ClaimStatus::Pending,
            notes: normalize_optional_text(notes),
            claimed_at: now,
            confirmed_at: None,
            completed_at: None,
            cancelled_at: None,
        },
    )
}

} // verus!
