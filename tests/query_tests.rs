use harvest_core::error::CoreError;
use harvest_core::queries::{
    id_filter, parse_derived_feed_query, parse_discover_listings_query, parse_limit, parse_list_claims_query,
    parse_list_my_listings_query, parse_offset,
};
use harvest_core::query::{parse_i64, parse_milli, split_query};
use harvest_core::status::{ClaimStatus, ListingStatus};
use uuid::Uuid;

#[test]
fn query_strings_split_into_pairs() {
    let pairs = split_query("a=1&&b&c=x=y&");
    assert_eq!(
        pairs,
        vec![
            ("a".to_string(), "1".to_string()),
            ("b".to_string(), String::new()),
            ("c".to_string(), "x=y".to_string()),
        ]
    );
    assert!(split_query("").is_empty());
}

#[test]
fn integers_and_decimals_parse() {
    assert_eq!(parse_i64("20"), Some(20));
    assert_eq!(parse_i64("-1"), Some(-1));
    assert_eq!(parse_i64("+7"), Some(7));
    assert_eq!(parse_i64("9223372036854775807"), Some(i64::MAX));
    assert_eq!(parse_i64("-9223372036854775808"), Some(i64::MIN));
    assert_eq!(parse_i64("9223372036854775808"), None);
    assert_eq!(parse_i64("1x"), None);
    assert_eq!(parse_i64(""), None);
    assert_eq!(parse_i64("-"), None);
    assert_eq!(parse_milli("12.5"), Some(12_500));
    assert_eq!(parse_milli("0.0015"), Some(1));
    assert_eq!(parse_milli(".5"), Some(500));
    assert_eq!(parse_milli("3."), Some(3_000));
    assert_eq!(parse_milli("."), None);
    assert_eq!(parse_milli("1.2.3"), None);
    assert_eq!(parse_milli("abc"), None);
    assert_eq!(parse_limit("100"), Ok(100));
    assert_eq!(parse_limit("101"), Err(CoreError::Validation));
    assert_eq!(parse_offset("-1"), Err(CoreError::Validation));
    assert_eq!(id_filter(None), Err(CoreError::Validation));
    assert_eq!(id_filter(Some(5)), Ok(Some(5)));
}

#[test]
fn parse_discover_listings_query_defaults() {
    let parsed = parse_discover_listings_query(Some("geoKey=9q8yyk8")).unwrap();
    assert_eq!(parsed.geo_key, "9q8yyk8");
    assert_eq!(parsed.status, ListingStatus::Active);
    assert_eq!(parsed.radius_m, None);
    assert_eq!(parsed.limit, 20);
    assert_eq!(parsed.offset, 0);
}

#[test]
fn parse_discover_listings_query_with_km_filters() {
    let parsed =
        parse_discover_listings_query(Some("geoKey=9q8yyk8&status=active&radiusKm=12.5&limit=10&offset=20")).unwrap();
    assert_eq!(parsed.geo_key, "9q8yyk8");
    assert_eq!(parsed.status, ListingStatus::Active);
    assert_eq!(parsed.radius_m, Some(12_500));
    assert_eq!(parsed.limit, 10);
    assert_eq!(parsed.offset, 20);
}

#[test]
fn parse_discover_listings_query_with_miles_filters() {
    let parsed =
        parse_discover_listings_query(Some("geoKey=9q8yyk8&status=active&radiusMiles=10&limit=10&offset=20")).unwrap();
    assert_eq!(parsed.geo_key, "9q8yyk8");
    assert_eq!(parsed.radius_m, Some(16_093));
    assert_eq!(parsed.limit, 10);
    assert_eq!(parsed.offset, 20);
}

#[test]
fn parse_discover_listings_query_rejects_multiple_radius_units() {
    let result = parse_discover_listings_query(Some("geoKey=9q8yyk8&radiusKm=10&radiusMiles=6"));
    assert_eq!(result.unwrap_err(), CoreError::Validation);
}

#[test]
fn parse_discover_listings_query_requires_geo_key() {
    let result = parse_discover_listings_query(Some("status=active"));
    assert_eq!(result.unwrap_err(), CoreError::Validation);
}

#[test]
fn parse_discover_listings_query_rejects_invalid_geo_key() {
    let result = parse_discover_listings_query(Some("geoKey=abc!"));
    assert_eq!(result.unwrap_err(), CoreError::Validation);
}

#[test]
fn parse_discover_listings_query_rejects_invalid_radius() {
    let result = parse_discover_listings_query(Some("geoKey=9q8yyk8&radiusKm=0"));
    assert_eq!(result.unwrap_err(), CoreError::Validation);
}

#[test]
fn parse_discover_listings_query_rejects_invalid_miles_radius() {
    let result = parse_discover_listings_query(Some("geoKey=9q8yyk8&radiusMiles=0"));
    assert_eq!(result.unwrap_err(), CoreError::Validation);
}

#[test]
fn parse_discover_listings_query_rejects_non_active_status() {
    let result = parse_discover_listings_query(Some("geoKey=9q8yyk8&status=expired"));
    assert_eq!(result.unwrap_err(), CoreError::Validation);
}

#[test]
fn discover_query_normalizes_geo_key() {
    let parsed = parse_discover_listings_query(Some("geoKey=%20&geoKey=9Q8YY")).unwrap_err();
    assert_eq!(parsed, CoreError::Validation);
    let parsed = parse_discover_listings_query(Some("geoKey= 9Q8YY ")).unwrap();
    assert_eq!(parsed.geo_key, "9q8yy");
}

#[test]
fn parse_list_claims_query_defaults() {
    let parsed = parse_list_claims_query(None).unwrap();
    assert_eq!(parsed.listing_id, None);
    assert_eq!(parsed.request_id, None);
    assert_eq!(parsed.status, None);
    assert_eq!(parsed.limit, 20);
    assert_eq!(parsed.offset, 0);
}

#[test]
fn parse_list_claims_query_with_filters() {
    let parsed = parse_list_claims_query(Some(
        "listingId=5df666d4-f6b1-4e6f-97d6-321e531ad7ca&requestId=3c861fd9-69eb-42f3-ab57-9ef8f85eb6da&status=pending&limit=10&offset=5",
    ))
    .unwrap();
    assert_eq!(parsed.listing_id, Some(Uuid::parse_str("5df666d4-f6b1-4e6f-97d6-321e531ad7ca").unwrap().as_u128()));
    assert_eq!(parsed.request_id, Some(Uuid::parse_str("3c861fd9-69eb-42f3-ab57-9ef8f85eb6da").unwrap().as_u128()));
    assert_eq!(parsed.status, Some(ClaimStatus::Pending));
    assert_eq!(parsed.limit, 10);
    assert_eq!(parsed.offset, 5);
}

#[test]
fn parse_list_claims_query_rejects_invalid_status() {
    assert_eq!(parse_list_claims_query(Some("status=closed")), Err(CoreError::Validation));
}

#[test]
fn parse_list_claims_query_rejects_invalid_listing_id() {
    assert_eq!(parse_list_claims_query(Some("listingId=not-a-uuid")), Err(CoreError::Validation));
}

#[test]
fn parse_list_claims_query_rejects_limit_out_of_range() {
    assert_eq!(parse_list_claims_query(Some("limit=0")), Err(CoreError::Validation));
}

#[test]
fn parse_list_claims_query_rejects_negative_offset() {
    assert_eq!(parse_list_claims_query(Some("offset=-1")), Err(CoreError::Validation));
}

#[test]
fn parse_list_my_listings_query_defaults() {
    let parsed = parse_list_my_listings_query(None).unwrap();
    assert_eq!(parsed.status, None);
    assert_eq!(parsed.limit, 20);
    assert_eq!(parsed.offset, 0);
}

#[test]
fn parse_list_my_listings_query_with_filters() {
    let parsed = parse_list_my_listings_query(Some("status=active&limit=10&offset=20")).unwrap();
    assert_eq!(parsed.status, Some(ListingStatus::Active));
    assert_eq!(parsed.limit, 10);
    assert_eq!(parsed.offset, 20);
    assert_eq!(parse_list_my_listings_query(Some("status=pending")), Err(CoreError::Validation));
}

#[test]
fn parse_derived_feed_query_defaults() {
    let parsed = parse_derived_feed_query(Some("geoKey=9q8yyk8")).unwrap();
    assert_eq!(parsed.geo_key, "9q8yyk8");
    assert_eq!(parsed.window_days, 7);
    assert_eq!(parsed.limit, 20);
    assert_eq!(parsed.offset, 0);
}

#[test]
fn parse_derived_feed_query_accepts_supported_window() {
    let parsed = parse_derived_feed_query(Some("geoKey=9q8yyk8&windowDays=14")).unwrap();
    assert_eq!(parsed.window_days, 14);
}

#[test]
fn parse_derived_feed_query_rejects_unsupported_window() {
    let result = parse_derived_feed_query(Some("geoKey=9q8yyk8&windowDays=9"));
    assert_eq!(result.unwrap_err(), CoreError::Validation);
}

#[test]
fn parse_derived_feed_query_requires_geo_key() {
    let result = parse_derived_feed_query(Some("windowDays=7"));
    assert_eq!(result.unwrap_err(), CoreError::Validation);
}
