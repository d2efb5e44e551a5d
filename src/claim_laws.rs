use vstd::prelude::*;

use crate::claim::{
    spec_decision, spec_role, spec_stamped, spec_transition, QuantityAdjustment,
};
use crate::error::CoreError;
use crate::model::{
    claim_timeline_ok, inventory_in_range, stamps_not_after, status_matches_inventory, ClaimRecord,
    ListingRecord,
};
use crate::status::ClaimStatus;

verus! {

/// A participant gets exactly one role: the claimer's when they are the claimer,
/// else the owner's. Anyone else is refused with `Forbidden`, and `transition_claim`
/// then leaves both rows as they were.
pub proof fn lemma_role_resolution(claim: &ClaimRecord, listing: ListingRecord, actor: u128, target: ClaimStatus)
    ensures
        (actor == claim.claimer_id || actor == listing.owner_id) <==> spec_role(
            actor,
            claim.claimer_id,
            listing.owner_id,
        ) is Some,
        actor == claim.claimer_id ==> spec_role(actor, claim.claimer_id, listing.owner_id)
            == Some(crate::claim::ClaimActorRole::Claimer),
        actor != claim.claimer_id && actor == listing.owner_id ==> spec_role(
            actor,
            claim.claimer_id,
            listing.owner_id,
        ) == Some(crate::claim::ClaimActorRole::ListingOwner),
        !listing.deleted && actor != claim.claimer_id && actor != listing.owner_id ==> spec_transition(
            claim,
            listing,
            actor,
            target,
        ) == Err::<(crate::claim::TransitionDecision, ListingRecord), CoreError>(CoreError::Forbidden),
{
}

/// Re-issuing the status a claim already has, without new notes, changes neither
/// the claim (no stamp is set again) nor the listing.
pub proof fn lemma_same_status_is_noop(claim: &ClaimRecord, listing: ListingRecord, actor: u128, now: i64)
    requires
        !listing.deleted,
        actor == claim.claimer_id || actor == listing.owner_id,
    ensures
        spec_transition(claim, listing, actor, claim.status) matches Ok((d, l)) && l == listing
            && spec_stamped(claim, d, claim.status, None, now) == *claim,
{
    let role = spec_role(actor, claim.claimer_id, listing.owner_id)->0;
    assert(spec_decision(claim.status, claim.status, role) is Ok);
}

/// A transition keeps the listing's `claimed` status in step with an empty inventory.
pub proof fn lemma_transition_keeps_status_in_step(
    claim: &ClaimRecord,
    listing: ListingRecord,
    actor: u128,
    target: ClaimStatus,
)
    requires
        status_matches_inventory(listing),
        inventory_in_range(listing),
        listing.quantity_total > 0,
        claim.quantity_claimed > 0,
    ensures
        spec_transition(claim, listing, actor, target) matches Ok((d, l)) ==> status_matches_inventory(
            l,
        ),
{
}

/// A transition keeps inventory within `[0, quantity_total]`: a decrement cannot go
/// below zero and an increment is capped at the total.
pub proof fn lemma_transition_keeps_inventory_in_range(
    claim: &ClaimRecord,
    listing: ListingRecord,
    actor: u128,
    target: ClaimStatus,
)
    requires
        inventory_in_range(listing),
    ensures
        spec_transition(claim, listing, actor, target) matches Ok((d, l)) ==> inventory_in_range(l),
{
}

/// Stamps follow the status and do not run backwards, given a clock that does not.
pub proof fn lemma_transition_keeps_timeline(
    claim: &ClaimRecord,
    listing: ListingRecord,
    actor: u128,
    target: ClaimStatus,
    notes: Option<String>,
    now: i64,
)
    requires
        claim_timeline_ok(claim),
        stamps_not_after(claim, now),
    ensures
        spec_transition(claim, listing, actor, target) matches Ok((d, l)) ==> claim_timeline_ok(
            &spec_stamped(claim, d, target, notes, now),
        ) && stamps_not_after(&spec_stamped(claim, d, target, notes, now), now),
{
}

/// Confirming a pending claim and then cancelling it leaves the listing's remaining
/// quantity where it was before the confirmation. (The confirmation succeeds only when
/// the owner acts as owner, so the claimer is someone else.)
pub proof fn lemma_confirm_then_cancel_restores_inventory(
    claim: &ClaimRecord,
    listing: ListingRecord,
    cancelling_actor: u128,
    notes: Option<String>,
    confirmed_at: i64,
)
    requires
        claim.status == ClaimStatus::Pending,
        inventory_in_range(listing),
        spec_transition(claim, listing, listing.owner_id, ClaimStatus::Confirmed) is Ok,
        cancelling_actor == claim.claimer_id || cancelling_actor == listing.owner_id,
    ensures
        ({
            let (d1, l1) = spec_transition(claim, listing, listing.owner_id, ClaimStatus::Confirmed)->Ok_0;
            let c1 = spec_stamped(claim, d1, ClaimStatus::Confirmed, notes, confirmed_at);
            spec_transition(&c1, l1, cancelling_actor, ClaimStatus::Cancelled) matches Ok((d2, l2))
                && l2.quantity_remaining == listing.quantity_remaining
        }),
{
    let (d1, l1) = spec_transition(claim, listing, listing.owner_id, ClaimStatus::Confirmed)->Ok_0;
    let c1 = spec_stamped(claim, d1, ClaimStatus::Confirmed, notes, confirmed_at);
    assert(d1.quantity_adjustment == QuantityAdjustment::Decrement);
    let role = spec_role(cancelling_actor, c1.claimer_id, l1.owner_id)->0;
    assert(spec_decision(ClaimStatus::Confirmed, ClaimStatus::Cancelled, role) is Ok);
}

} // verus!
