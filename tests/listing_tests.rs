use chrono::{DateTime, Duration, Utc};
use harvest_core::error::CoreError;
use harvest_core::ledger::UPDATE_LISTING_SQL;
use harvest_core::listing::{
    derive_deterministic_listing_id, from_id_bytes, normalize_listing_payload, parse_contact_preference,
    parse_pickup_disclosure_policy, to_id_bytes, validate_request_terms, ContactPreference, ListingStore,
    PickupDisclosurePolicy,
};
use harvest_core::model::ListingRecord;
use harvest_core::status::{ListingStatus, RequestStatus};
use sha2::{Digest, Sha256};
use uuid::Uuid;
use harvest_core::listing::new_listing_record;

fn ts(text: &str) -> i64 {
    DateTime::parse_from_rfc3339(text).unwrap().timestamp()
}

fn normalize(
    start: &str,
    end: &str,
    policy: Option<&str>,
    contact: Option<&str>,
) -> Result<harvest_core::listing::ListingTerms, CoreError> {
    normalize_listing_payload("Fresh Tomatoes", "lb", 12_500, ts(start), ts(end), policy, contact, Some("active"))
}

#[test]
fn update_listing_sql_preserves_existing_remaining_inventory() {
    assert!(UPDATE_LISTING_SQL.contains("quantity_remaining = least("));
    assert!(UPDATE_LISTING_SQL.contains("coalesce(quantity_remaining, $5)"));
    assert!(!UPDATE_LISTING_SQL.contains("quantity_remaining = $5,"));
}

#[test]
fn listing_normalize_payload_accepts_valid_input() {
    let normalized = normalize(
        "2026-02-20T10:00:00Z",
        "2026-02-20T18:00:00Z",
        Some("after_confirmed"),
        Some("app_message"),
    )
    .unwrap();
    assert_eq!(normalized.status, ListingStatus::Active);
    assert_eq!(normalized.pickup_disclosure_policy, PickupDisclosurePolicy::AfterConfirmed);
    assert_eq!(normalized.contact_pref, ContactPreference::AppMessage);
    assert_eq!(normalized.quantity_total, 12_500);
}

#[test]
fn normalize_payload_rejects_invalid_window() {
    let result = normalize("2026-02-21T10:00:00Z", "2026-02-20T10:00:00Z", Some("after_confirmed"), None);
    assert_eq!(result, Err(CoreError::Validation));
}

#[test]
fn normalize_payload_rejects_invalid_pickup_disclosure_policy() {
    let result = normalize("2026-02-20T10:00:00Z", "2026-02-20T18:00:00Z", Some("always"), None);
    assert_eq!(result, Err(CoreError::Validation));
}

#[test]
fn normalize_payload_rejects_invalid_contact_pref() {
    let result = normalize("2026-02-20T10:00:00Z", "2026-02-20T18:00:00Z", None, Some("carrier_pigeon"));
    assert_eq!(result, Err(CoreError::Validation));
}

#[test]
fn listing_payload_defaults_and_blank_fields() {
    let t = normalize_listing_payload("Beans", "kg", 1, 5, 5, None, None, None).unwrap();
    assert_eq!(t.status, ListingStatus::Active);
    assert_eq!(t.pickup_disclosure_policy, PickupDisclosurePolicy::AfterConfirmed);
    assert_eq!(t.contact_pref, ContactPreference::AppMessage);
    assert_eq!(normalize_listing_payload("   ", "kg", 1, 5, 5, None, None, None), Err(CoreError::Validation));
    assert_eq!(normalize_listing_payload("Beans", "\t", 1, 5, 5, None, None, None), Err(CoreError::Validation));
    assert_eq!(normalize_listing_payload("Beans", "kg", 0, 5, 5, None, None, None), Err(CoreError::Validation));
    assert_eq!(
        normalize_listing_payload("Beans", "kg", 1, 5, 5, None, None, Some("sold")),
        Err(CoreError::Validation)
    );
    assert_eq!(parse_pickup_disclosure_policy(Some("immediate")), Ok(PickupDisclosurePolicy::Immediate));
    assert_eq!(parse_contact_preference(Some("knock")), Ok(ContactPreference::Knock));
}

#[test]
fn request_normalize_payload_accepts_valid_input() {
    let now = Utc::now();
    let needed_by = (now + Duration::days(2)).timestamp();
    let status = validate_request_terms(12_500, needed_by, now.timestamp(), Some("open")).unwrap();
    assert_eq!(status, RequestStatus::Open);
}

#[test]
fn normalize_payload_rejects_non_positive_quantity() {
    let now = Utc::now();
    let needed_by = (now + Duration::days(2)).timestamp();
    assert_eq!(validate_request_terms(0, needed_by, now.timestamp(), Some("open")), Err(CoreError::Validation));
}

#[test]
fn normalize_payload_rejects_past_needed_by() {
    let now = Utc::now();
    let needed_by = (now - Duration::hours(1)).timestamp();
    assert_eq!(validate_request_terms(12_500, needed_by, now.timestamp(), Some("open")), Err(CoreError::Validation));
}

#[test]
fn normalize_payload_rejects_invalid_status() {
    let now = Utc::now();
    let needed_by = (now + Duration::days(2)).timestamp();
    assert_eq!(
        validate_request_terms(12_500, needed_by, now.timestamp(), Some("cancelled")),
        Err(CoreError::Validation)
    );
}

#[test]
fn needed_by_horizon_edges() {
    let now: i64 = 1_771_621_230;
    assert_eq!(validate_request_terms(1, now, now, None), Ok(RequestStatus::Open));
    assert_eq!(validate_request_terms(1, now + 365 * 86_400, now, None), Ok(RequestStatus::Open));
    assert_eq!(validate_request_terms(1, now + 365 * 86_400 + 1, now, None), Err(CoreError::Validation));
}

#[test]
fn deterministic_listing_id_is_stable_for_same_key() {
    let user_id = Uuid::parse_str("0e7ab2f8-9d1b-46b0-9c53-b6053bc90011").unwrap().as_u128();
    let id1 = derive_deterministic_listing_id(user_id, "same-key");
    let id2 = derive_deterministic_listing_id(user_id, "same-key");
    assert_eq!(id1, id2);
}

#[test]
fn deterministic_listing_id_differs_for_different_keys() {
    let user_id = Uuid::parse_str("0e7ab2f8-9d1b-46b0-9c53-b6053bc90011").unwrap().as_u128();
    let id1 = derive_deterministic_listing_id(user_id, "key-a");
    let id2 = derive_deterministic_listing_id(user_id, "key-b");
    assert_ne!(id1, id2);
}

#[test]
fn deterministic_listing_id_matches_offline_computation() {
    let user = Uuid::parse_str("0e7ab2f8-9d1b-46b0-9c53-b6053bc90011").unwrap();
    let mut hasher = Sha256::new();
    hasher.update(user.as_bytes());
    hasher.update(b":");
    hasher.update(b"same-key");
    let digest = hasher.finalize();
    let mut bytes = [0_u8; 16];
    bytes.copy_from_slice(&digest[..16]);
    bytes[6] = (bytes[6] & 0x0f) | 0x40;
    bytes[8] = (bytes[8] & 0x3f) | 0x80;
    let expected = Uuid::from_bytes(bytes);
    let derived = Uuid::from_u128(derive_deterministic_listing_id(user.as_u128(), "same-key"));
    assert_eq!(derived, expected);
    assert_eq!(derived.get_version_num(), 4);
}

#[test]
fn id_bytes_round_trip() {
    let id: u128 = 0x0e7ab2f8_9d1b_46b0_9c53_b6053bc90011;
    let bytes = to_id_bytes(id);
    assert_eq!(bytes, Uuid::from_u128(id).as_bytes().to_vec());
    assert_eq!(from_id_bytes(&bytes), id);
}

fn fresh(id: u128, owner: u128, total: u64) -> ListingRecord {
    ListingRecord {
        id,
        owner_id: owner,
        crop_id: 3,
        quantity_total: total,
        quantity_remaining: Some(total),
        status: ListingStatus::Active,
        deleted: false,
    }
}

#[test]
fn create_with_same_key_replays_the_first_row() {
    let owner: u128 = 0x0e7ab2f8_9d1b_46b0_9c53_b6053bc90011;
    let id = derive_deterministic_listing_id(owner, "retry-1");
    let mut store = ListingStore::new();
    let (first, replay) = store.insert_or_replay(fresh(id, owner, 10_000)).unwrap();
    assert!(!replay);
    assert_eq!(first.quantity_remaining, Some(10_000));
    let again_id = derive_deterministic_listing_id(owner, "retry-1");
    let (second, replay) = store.insert_or_replay(fresh(again_id, owner, 99_000)).unwrap();
    assert!(replay);
    assert_eq!(second, first);
    assert_eq!(store.listings.len(), 1);
    assert_eq!(store.insert_or_replay(fresh(id, owner + 1, 1_000)), Err(CoreError::IdempotencyConflict));
    assert_eq!(store.listings.len(), 1);
    store.listings[0].deleted = true;
    assert_eq!(store.insert_or_replay(fresh(id, owner, 1_000)), Err(CoreError::NotFound));
    assert_eq!(store.listings.len(), 1);
}

#[test]
fn new_listing_never_reads_claimed_with_stock_left() {
    let t = normalize_listing_payload("Beans", "kg", 3_000, 5, 5, None, None, Some("claimed")).unwrap();
    assert_eq!(t.status, ListingStatus::Claimed);
    let row = new_listing_record(1, 2, 3, &t);
    assert_eq!(row.status, ListingStatus::Active);
    assert_eq!(row.quantity_remaining, Some(3_000));
}

#[test]
fn scenario_grower_creates_listing() {
    let start = ts("2026-02-20T10:00:00Z");
    let end = start + 8 * 3600;
    let terms = normalize_listing_payload("Tomatoes", "lb", 10_000, start, end, None, None, None).unwrap();
    let row = new_listing_record(42, 7, 3, &terms);
    assert_eq!(row.quantity_remaining, Some(10_000));
    assert_eq!(row.quantity_total, 10_000);
    assert_eq!(row.status, ListingStatus::Active);
    let mut store = ListingStore::new();
    let (created, replay) = store.insert_or_replay(row).unwrap();
    assert!(!replay);
    assert_eq!(created, row);
}
