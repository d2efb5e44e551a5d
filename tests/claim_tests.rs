use harvest_core::claim::{
    adjust_listing_quantity_if_needed, create_claim, determine_actor_role, evaluate_transition,
    transition_claim, validate_request_linkage, ClaimActorRole, QuantityAdjustment,
};
use harvest_core::claim_read::{ensure_listing_filter_access, ensure_request_filter_access, list_claims, ClaimPage};
use harvest_core::queries::ListClaimsQuery;
use harvest_core::error::CoreError;
use harvest_core::ledger::{capped_remaining, ListingLedger};
use harvest_core::model::{ClaimRecord, ListingRecord, RequestRecord};
use harvest_core::status::{ClaimStatus, ListingStatus, RequestStatus};
use uuid::Uuid;

const GROWER: u128 = 0xb630af9b_6de5_44cd_9d83_d37df86ce2ef;
const GATHERER_A: u128 = 0x6b7a6e9d_e31d_4ac2_b688_15f0490adf9b;
const GATHERER_B: u128 = 0xd6d8958f_bfd8_4a9a_a18f_793fbe6746d5;
const STRANGER: u128 = 0x1111;
const LISTING: u128 = 0x8b5a1a3e_d7ad_4ca4_9f56_2f188db4e6ef;
const CROP: u128 = 0x5df666d4_f6b1_4e6f_97d6_321e531ad7ca;
const T: i64 = 1_771_581_600;

fn id(text: &str) -> u128 {
    Uuid::parse_str(text).unwrap().as_u128()
}

fn listing(total: u64, remaining: Option<u64>, status: ListingStatus) -> ListingRecord {
    ListingRecord {
        id: LISTING,
        owner_id: GROWER,
        crop_id: CROP,
        quantity_total: total,
        quantity_remaining: remaining,
        status,
        deleted: false,
    }
}

fn claim(status: ClaimStatus, quantity: u64) -> ClaimRecord {
    ClaimRecord {
        id: 1,
        listing_id: LISTING,
        request_id: None,
        claimer_id: GATHERER_A,
        quantity_claimed: quantity,
        status,
        notes: None,
        claimed_at: T,
        confirmed_at: if status == ClaimStatus::Confirmed { Some(T + 10) } else { None },
        completed_at: None,
        cancelled_at: None,
    }
}

#[test]
fn determine_actor_role_identifies_claimer() {
    let actor = id("6b7a6e9d-e31d-4ac2-b688-15f0490adf9b");
    let owner = id("b630af9b-6de5-44cd-9d83-d37df86ce2ef");
    assert_eq!(determine_actor_role(actor, actor, owner).unwrap(), ClaimActorRole::Claimer);
}

#[test]
fn determine_actor_role_identifies_listing_owner() {
    let claimer = id("6b7a6e9d-e31d-4ac2-b688-15f0490adf9b");
    let owner = id("b630af9b-6de5-44cd-9d83-d37df86ce2ef");
    assert_eq!(determine_actor_role(owner, claimer, owner).unwrap(), ClaimActorRole::ListingOwner);
}

#[test]
fn determine_actor_role_rejects_non_participants() {
    let actor = id("d6d8958f-bfd8-4a9a-a18f-793fbe6746d5");
    let claimer = id("6b7a6e9d-e31d-4ac2-b688-15f0490adf9b");
    let owner = id("b630af9b-6de5-44cd-9d83-d37df86ce2ef");
    assert_eq!(determine_actor_role(actor, claimer, owner), Err(CoreError::Forbidden));
}

#[test]
fn evaluate_transition_allows_pending_to_confirmed_for_listing_owner() {
    let result =
        evaluate_transition(ClaimStatus::Pending, ClaimStatus::Confirmed, ClaimActorRole::ListingOwner).unwrap();
    assert_eq!(result.quantity_adjustment, QuantityAdjustment::Decrement);
    assert!(result.stamp_confirmed_at);
    assert!(!result.stamp_completed_at);
    assert!(!result.stamp_cancelled_at);
}

#[test]
fn evaluate_transition_rejects_pending_to_confirmed_for_claimer() {
    let result = evaluate_transition(ClaimStatus::Pending, ClaimStatus::Confirmed, ClaimActorRole::Claimer);
    assert_eq!(result, Err(CoreError::Forbidden));
}

#[test]
fn evaluate_transition_allows_pending_to_cancelled_for_both_participants() {
    let claimer_result =
        evaluate_transition(ClaimStatus::Pending, ClaimStatus::Cancelled, ClaimActorRole::Claimer).unwrap();
    let owner_result =
        evaluate_transition(ClaimStatus::Pending, ClaimStatus::Cancelled, ClaimActorRole::ListingOwner).unwrap();
    assert_eq!(claimer_result.quantity_adjustment, QuantityAdjustment::NoChange);
    assert_eq!(owner_result.quantity_adjustment, QuantityAdjustment::NoChange);
    assert!(claimer_result.stamp_cancelled_at);
    assert!(owner_result.stamp_cancelled_at);
}

#[test]
fn evaluate_transition_allows_confirmed_to_completed_for_participants() {
    let claimer_result =
        evaluate_transition(ClaimStatus::Confirmed, ClaimStatus::Completed, ClaimActorRole::Claimer).unwrap();
    let owner_result =
        evaluate_transition(ClaimStatus::Confirmed, ClaimStatus::Completed, ClaimActorRole::ListingOwner).unwrap();
    assert!(claimer_result.stamp_completed_at);
    assert!(owner_result.stamp_completed_at);
    assert_eq!(claimer_result.quantity_adjustment, QuantityAdjustment::NoChange);
}

#[test]
fn evaluate_transition_allows_confirmed_to_cancelled_and_restores_quantity() {
    let result =
        evaluate_transition(ClaimStatus::Confirmed, ClaimStatus::Cancelled, ClaimActorRole::Claimer).unwrap();
    assert_eq!(result.quantity_adjustment, QuantityAdjustment::Increment);
    assert!(result.stamp_cancelled_at);
}

#[test]
fn evaluate_transition_allows_confirmed_to_no_show_for_listing_owner_only() {
    let owner_result =
        evaluate_transition(ClaimStatus::Confirmed, ClaimStatus::NoShow, ClaimActorRole::ListingOwner).unwrap();
    let claimer_result = evaluate_transition(ClaimStatus::Confirmed, ClaimStatus::NoShow, ClaimActorRole::Claimer);
    assert_eq!(owner_result.quantity_adjustment, QuantityAdjustment::Increment);
    assert!(owner_result.stamp_cancelled_at);
    assert_eq!(claimer_result, Err(CoreError::Forbidden));
}

#[test]
fn evaluate_transition_rejects_invalid_paths() {
    let invalid_paths = vec![
        (ClaimStatus::Pending, ClaimStatus::Completed),
        (ClaimStatus::Pending, ClaimStatus::NoShow),
        (ClaimStatus::Completed, ClaimStatus::Cancelled),
        (ClaimStatus::Cancelled, ClaimStatus::Confirmed),
        (ClaimStatus::NoShow, ClaimStatus::Completed),
    ];
    for (current, target) in invalid_paths {
        let result = evaluate_transition(current, target, ClaimActorRole::ListingOwner);
        assert_eq!(result, Err(CoreError::InvalidTransition));
    }
}

#[test]
fn evaluate_transition_allows_same_status_as_idempotent() {
    let result =
        evaluate_transition(ClaimStatus::Confirmed, ClaimStatus::Confirmed, ClaimActorRole::ListingOwner).unwrap();
    assert_eq!(result.quantity_adjustment, QuantityAdjustment::NoChange);
    assert!(!result.stamp_confirmed_at);
    assert!(!result.stamp_completed_at);
    assert!(!result.stamp_cancelled_at);
}

#[test]
fn decrement_to_zero_flips_listing_to_claimed() {
    let l = listing(10_000, Some(4_000), ListingStatus::Active);
    let out = adjust_listing_quantity_if_needed(&l, 4_000, QuantityAdjustment::Decrement).unwrap();
    assert_eq!(out.quantity_remaining, Some(0));
    assert_eq!(out.status, ListingStatus::Claimed);
}

#[test]
fn decrement_beyond_remaining_is_insufficient() {
    let l = listing(10_000, Some(3_000), ListingStatus::Active);
    let out = adjust_listing_quantity_if_needed(&l, 4_000, QuantityAdjustment::Decrement);
    assert_eq!(out, Err(CoreError::InsufficientQuantity));
}

#[test]
fn unbounded_listing_keeps_null_inventory() {
    let l = listing(10_000, None, ListingStatus::Active);
    let dec = adjust_listing_quantity_if_needed(&l, 4_000, QuantityAdjustment::Decrement).unwrap();
    assert_eq!(dec.quantity_remaining, None);
    assert_eq!(dec.status, ListingStatus::Active);
    let inc = adjust_listing_quantity_if_needed(&l, 4_000, QuantityAdjustment::Increment).unwrap();
    assert_eq!(inc.quantity_remaining, None);
}

#[test]
fn increment_restores_claimed_listing_to_active() {
    let l = listing(10_000, Some(0), ListingStatus::Claimed);
    let out = adjust_listing_quantity_if_needed(&l, 4_000, QuantityAdjustment::Increment).unwrap();
    assert_eq!(out.quantity_remaining, Some(4_000));
    assert_eq!(out.status, ListingStatus::Active);
}

#[test]
fn non_participant_transition_changes_nothing() {
    let mut c = claim(ClaimStatus::Pending, 4_000);
    let mut l = listing(10_000, Some(10_000), ListingStatus::Active);
    let result = transition_claim(&mut c, &mut l, STRANGER, ClaimStatus::Cancelled, None, T + 5);
    assert_eq!(result, Err(CoreError::Forbidden));
    assert_eq!(c.status, ClaimStatus::Pending);
    assert_eq!(c.cancelled_at, None);
    assert_eq!(l, listing(10_000, Some(10_000), ListingStatus::Active));
}

#[test]
fn deleted_listing_hides_the_claim() {
    let mut c = claim(ClaimStatus::Pending, 4_000);
    let mut l = listing(10_000, Some(10_000), ListingStatus::Active);
    l.deleted = true;
    let result = transition_claim(&mut c, &mut l, GROWER, ClaimStatus::Confirmed, None, T + 5);
    assert_eq!(result, Err(CoreError::NotFound));
}

#[test]
fn notes_replace_only_when_given() {
    let mut c = claim(ClaimStatus::Pending, 4_000);
    c.notes = Some("first".to_string());
    let mut l = listing(10_000, Some(10_000), ListingStatus::Active);
    transition_claim(&mut c, &mut l, GROWER, ClaimStatus::Confirmed, None, T + 5).unwrap();
    assert_eq!(c.notes.as_deref(), Some("first"));
    transition_claim(&mut c, &mut l, GATHERER_A, ClaimStatus::Completed, Some("done".to_string()), T + 9)
        .unwrap();
    assert_eq!(c.notes.as_deref(), Some("done"));
    assert_eq!(c.completed_at, Some(T + 9));
    assert_eq!(c.confirmed_at, Some(T + 5));
}

#[test]
fn create_claim_checks_quantity_status_and_linkage() {
    let l = listing(10_000, Some(10_000), ListingStatus::Active);
    assert_eq!(
        create_claim(1, GATHERER_A, &l, None, None, 0, None, T).unwrap_err(),
        CoreError::Validation
    );
    assert_eq!(
        create_claim(1, GATHERER_A, &l, None, None, 11_000, None, T).unwrap_err(),
        CoreError::InsufficientQuantity
    );
    let expired = listing(10_000, Some(10_000), ListingStatus::Expired);
    assert_eq!(
        create_claim(1, GATHERER_A, &expired, None, None, 1_000, None, T).unwrap_err(),
        CoreError::NotClaimable
    );
    let request = RequestRecord {
        id: 77,
        owner_id: GATHERER_B,
        crop_id: CROP,
        quantity: 1_000,
        status: RequestStatus::Open,
        deleted: false,
    };
    assert_eq!(
        create_claim(1, GATHERER_A, &l, Some(77), Some(&request), 1_000, None, T).unwrap_err(),
        CoreError::Forbidden
    );
    assert_eq!(
        create_claim(1, GATHERER_A, &l, Some(77), None, 1_000, None, T).unwrap_err(),
        CoreError::NotFound
    );
    let c = create_claim(1, GATHERER_A, &l, None, None, 1_000, Some("  by noon  "), T).unwrap();
    assert_eq!(c.status, ClaimStatus::Pending);
    assert_eq!(c.notes.as_deref(), Some("by noon"));
    let blank = create_claim(2, GATHERER_A, &l, None, None, 1_000, Some("   "), T).unwrap();
    assert_eq!(blank.notes, None);
}

#[test]
fn request_linkage_rules() {
    let open = RequestRecord {
        id: 5,
        owner_id: GATHERER_A,
        crop_id: CROP,
        quantity: 1_000,
        status: RequestStatus::Open,
        deleted: false,
    };
    assert_eq!(validate_request_linkage(Some(&open), GATHERER_A, CROP), Ok(()));
    assert_eq!(validate_request_linkage(Some(&open), GATHERER_A, CROP + 1), Err(CoreError::Validation));
    let closed = RequestRecord { status: RequestStatus::Closed, ..open };
    assert_eq!(validate_request_linkage(Some(&closed), GATHERER_A, CROP), Err(CoreError::Validation));
    assert_eq!(validate_request_linkage(None, GATHERER_A, CROP), Err(CoreError::NotFound));
}

fn open_ledger() -> ListingLedger {
    ListingLedger::new(listing(10_000, Some(10_000), ListingStatus::Active))
}

#[test]
fn scenario_create_claim_leaves_listing_unchanged() {
    let mut ledger = open_ledger();
    ledger.open_claim(101, GATHERER_A, None, None, 4_000, None, T).unwrap();
    let c = &ledger.claims[0];
    assert_eq!(c.status, ClaimStatus::Pending);
    assert_eq!(c.quantity_claimed, 4_000);
    assert_eq!(ledger.listing.quantity_remaining, Some(10_000));
    assert_eq!(ledger.listing.status, ListingStatus::Active);
    assert_eq!(ledger.open_claim(101, GATHERER_B, None, None, 1_000, None, T), Err(CoreError::Conflict));
}

#[test]
fn scenario_confirm_then_cancel_then_cancel_again() {
    let mut ledger = open_ledger();
    ledger.open_claim(101, GATHERER_A, None, None, 4_000, None, T).unwrap();
    let i = ledger.find_claim(101).unwrap();

    ledger.transition(i, GROWER, ClaimStatus::Confirmed, None, T + 60).unwrap();
    assert_eq!(ledger.listing.quantity_remaining, Some(6_000));
    assert_eq!(ledger.listing.status, ListingStatus::Active);
    assert_eq!(ledger.claims[i].confirmed_at, Some(T + 60));

    ledger.transition(i, GATHERER_A, ClaimStatus::Cancelled, None, T + 120).unwrap();
    assert_eq!(ledger.listing.quantity_remaining, Some(10_000));
    assert_eq!(ledger.listing.status, ListingStatus::Active);
    assert_eq!(ledger.claims[i].cancelled_at, Some(T + 120));

    ledger.transition(i, GATHERER_A, ClaimStatus::Cancelled, None, T + 180).unwrap();
    assert_eq!(ledger.listing.quantity_remaining, Some(10_000));
    assert_eq!(ledger.claims[i].cancelled_at, Some(T + 120));
    assert_eq!(ledger.claims[i].confirmed_at, Some(T + 60));
}

#[test]
fn scenario_competing_confirms_one_is_insufficient() {
    let mut ledger = open_ledger();
    ledger.open_claim(1, GATHERER_A, None, None, 4_000, None, T).unwrap();
    ledger.open_claim(2, GATHERER_B, None, None, 7_000, None, T).unwrap();
    ledger.transition(0, GROWER, ClaimStatus::Confirmed, None, T + 1).unwrap();
    assert_eq!(ledger.listing.quantity_remaining, Some(6_000));
    let second = ledger.transition(1, GROWER, ClaimStatus::Confirmed, None, T + 2);
    assert_eq!(second, Err(CoreError::InsufficientQuantity));
    assert_eq!(second.unwrap_err().http_status(), 409);
    assert_eq!(ledger.listing.quantity_remaining, Some(6_000));
    assert_eq!(ledger.claims[1].status, ClaimStatus::Pending);

    let mut other_order = open_ledger();
    other_order.open_claim(1, GATHERER_A, None, None, 4_000, None, T).unwrap();
    other_order.open_claim(2, GATHERER_B, None, None, 7_000, None, T).unwrap();
    other_order.transition(1, GROWER, ClaimStatus::Confirmed, None, T + 1).unwrap();
    assert_eq!(other_order.listing.quantity_remaining, Some(3_000));
    assert_eq!(
        other_order.transition(0, GROWER, ClaimStatus::Confirmed, None, T + 2),
        Err(CoreError::InsufficientQuantity)
    );
}

#[test]
fn full_confirmation_marks_listing_claimed_and_no_show_restores() {
    let mut ledger = open_ledger();
    ledger.open_claim(1, GATHERER_A, None, None, 10_000, None, T).unwrap();
    ledger.transition(0, GROWER, ClaimStatus::Confirmed, None, T + 1).unwrap();
    assert_eq!(ledger.listing.quantity_remaining, Some(0));
    assert_eq!(ledger.listing.status, ListingStatus::Claimed);
    assert_eq!(ledger.transition(0, GATHERER_A, ClaimStatus::NoShow, None, T + 2), Err(CoreError::Forbidden));
    ledger.transition(0, GROWER, ClaimStatus::NoShow, None, T + 3).unwrap();
    assert_eq!(ledger.listing.quantity_remaining, Some(10_000));
    assert_eq!(ledger.listing.status, ListingStatus::Active);
    assert_eq!(ledger.claims[0].cancelled_at, Some(T + 3));
}

#[test]
fn listing_update_caps_remaining_inventory() {
    assert_eq!(capped_remaining(Some(6_000), 4_000), 4_000);
    assert_eq!(capped_remaining(Some(3_000), 4_000), 3_000);
    assert_eq!(capped_remaining(None, 4_000), 4_000);
    let mut ledger = open_ledger();
    assert_eq!(ledger.update_listing(GATHERER_A, 8_000, ListingStatus::Active), Err(CoreError::NotFound));
    ledger.update_listing(GROWER, 8_000, ListingStatus::Active).unwrap();
    assert_eq!(ledger.listing.quantity_total, 8_000);
    assert_eq!(ledger.listing.quantity_remaining, Some(8_000));
    assert_eq!(ledger.update_listing(GROWER, 0, ListingStatus::Active), Err(CoreError::Validation));
    ledger.open_claim(1, GATHERER_A, None, None, 5_000, None, T).unwrap();
    ledger.transition(0, GROWER, ClaimStatus::Confirmed, None, T + 1).unwrap();
    assert_eq!(ledger.listing.quantity_remaining, Some(3_000));
    ledger.update_listing(GROWER, 2_000, ListingStatus::Active).unwrap();
    assert_eq!(ledger.listing.quantity_remaining, Some(2_000));
}

#[test]
fn cancel_after_shrink_stays_within_total() {
    let mut ledger = open_ledger();
    ledger.open_claim(1, GATHERER_A, None, None, 4_000, None, T).unwrap();
    ledger.transition(0, GROWER, ClaimStatus::Confirmed, None, T + 1).unwrap();
    assert_eq!(ledger.listing.quantity_remaining, Some(6_000));
    ledger.update_listing(GROWER, 6_000, ListingStatus::Active).unwrap();
    ledger.transition(0, GATHERER_A, ClaimStatus::Cancelled, None, T + 2).unwrap();
    assert_eq!(ledger.listing.quantity_total, 6_000);
    assert_eq!(ledger.listing.quantity_remaining, Some(6_000));
    let l = listing(10_000, Some(10_000), ListingStatus::Active);
    let out = adjust_listing_quantity_if_needed(&l, 1_000, QuantityAdjustment::Increment).unwrap();
    assert_eq!(out.quantity_remaining, Some(10_000));
}

#[test]
fn update_keeps_status_in_step_with_inventory() {
    let mut ledger = open_ledger();
    ledger.update_listing(GROWER, 5_000, ListingStatus::Claimed).unwrap();
    assert_eq!(ledger.listing.status, ListingStatus::Active);
    ledger.open_claim(1, GATHERER_A, None, None, 5_000, None, T).unwrap();
    ledger.transition(0, GROWER, ClaimStatus::Confirmed, None, T + 1).unwrap();
    assert_eq!(ledger.listing.status, ListingStatus::Claimed);
    ledger.update_listing(GROWER, 5_000, ListingStatus::Active).unwrap();
    assert_eq!(ledger.listing.quantity_remaining, Some(0));
    assert_eq!(ledger.listing.status, ListingStatus::Claimed);
    ledger.update_listing(GROWER, 5_000, ListingStatus::Expired).unwrap();
    assert_eq!(ledger.listing.status, ListingStatus::Claimed);
}

fn query(listing_id: Option<u128>, status: Option<ClaimStatus>, limit: i64, offset: i64) -> ListClaimsQuery {
    ListClaimsQuery { listing_id, request_id: None, status, limit, offset }
}

fn refs(page: &ClaimPage) -> Vec<(usize, usize)> {
    page.items.iter().map(|r| (r.ledger, r.claim)).collect()
}

#[test]
fn claim_listing_is_scoped_to_participants() {
    let mut ledger = open_ledger();
    ledger.open_claim(1, GATHERER_A, Some(9), None, 1_000, None, T).unwrap_err();
    ledger.open_claim(1, GATHERER_A, None, None, 1_000, None, T).unwrap();
    ledger.open_claim(2, GATHERER_B, None, None, 2_000, None, T + 5).unwrap();
    let ledgers = vec![ledger];
    let mine = list_claims(&ledgers, GATHERER_A, &query(None, None, 20, 0), None).unwrap();
    assert_eq!(refs(&mine), vec![(0, 0)]);
    let owner = list_claims(&ledgers, GROWER, &query(None, None, 20, 0), None).unwrap();
    assert_eq!(refs(&owner), vec![(0, 1), (0, 0)]);
    assert!(!owner.has_more);
    assert_eq!(owner.next_offset, None);
    let none = list_claims(&ledgers, STRANGER, &query(None, None, 20, 0), None).unwrap();
    assert!(none.items.is_empty());
    let confirmed = list_claims(&ledgers, GROWER, &query(None, Some(ClaimStatus::Confirmed), 20, 0), None).unwrap();
    assert!(confirmed.items.is_empty());
    assert_eq!(ensure_listing_filter_access(&ledgers[0], GATHERER_B), Ok(()));
    assert_eq!(ensure_listing_filter_access(&ledgers[0], STRANGER), Err(CoreError::Forbidden));
    assert_eq!(
        list_claims(&ledgers, STRANGER, &query(Some(LISTING), None, 20, 0), None).unwrap_err(),
        CoreError::Forbidden
    );
    assert_eq!(
        list_claims(&ledgers, GROWER, &query(Some(LISTING + 1), None, 20, 0), None).unwrap_err(),
        CoreError::NotFound
    );
    let filtered = list_claims(&ledgers, GATHERER_B, &query(Some(LISTING), None, 20, 0), None).unwrap();
    assert_eq!(refs(&filtered), vec![(0, 1)]);
}

#[test]
fn claim_listing_pages_newest_first() {
    let mut ledger = open_ledger();
    for k in 0..5u128 {
        ledger.open_claim(10 + k, GATHERER_A, None, None, 1_000, None, T + k as i64).unwrap();
    }
    let ledgers = vec![ledger];
    let first = list_claims(&ledgers, GATHERER_A, &query(None, None, 2, 0), None).unwrap();
    assert_eq!(refs(&first), vec![(0, 4), (0, 3)]);
    assert!(first.has_more);
    assert_eq!(first.next_offset, Some(2));
    let last = list_claims(&ledgers, GATHERER_A, &query(None, None, 2, 4), None).unwrap();
    assert_eq!(refs(&last), vec![(0, 0)]);
    assert!(!last.has_more);
    let past = list_claims(&ledgers, GATHERER_A, &query(None, None, 2, 9), None).unwrap();
    assert!(past.items.is_empty());
}

#[test]
fn request_filter_access_rules() {
    let request = RequestRecord {
        id: 9,
        owner_id: GATHERER_A,
        crop_id: CROP,
        quantity: 1_000,
        status: RequestStatus::Open,
        deleted: false,
    };
    let mut ledger = open_ledger();
    ledger.open_claim(1, GATHERER_A, Some(9), Some(&request), 1_000, None, T).unwrap();
    let ledgers = vec![ledger];
    assert_eq!(ensure_request_filter_access(Some(&request), &ledgers, GATHERER_A), Ok(()));
    assert_eq!(ensure_request_filter_access(Some(&request), &ledgers, GROWER), Ok(()));
    assert_eq!(ensure_request_filter_access(Some(&request), &ledgers, GATHERER_B), Err(CoreError::Forbidden));
    assert_eq!(ensure_request_filter_access(None, &ledgers, GATHERER_A), Err(CoreError::NotFound));
}
