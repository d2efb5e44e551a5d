use harvest_core::access::{
    entitlements_snapshot, map_subscription_status, require_entitlement, user_pk, FeatureLockedError, UserProfile,
    CORRELATION_ID_HEADER,
};
use harvest_core::authorizer::{get_api_arn_pattern, is_post_confirmation_trigger, issuer_for_pool, map_group_to_tier};
use harvest_core::status::ClaimStatus;
use harvest_core::wire::{parse_transition_request, TransitionClaimRequest};
use harvest_core::authorizer::{build_context, generate_policy};

#[test]
fn map_subscription_status_active_maps_to_premium_active() {
    let (tier, status) = map_subscription_status("active");
    assert_eq!(tier, "premium");
    assert_eq!(status, "active");
}

#[test]
fn map_subscription_status_trialing_maps_to_premium_active() {
    let (tier, status) = map_subscription_status("trialing");
    assert_eq!(tier, "premium");
    assert_eq!(status, "active");
}

#[test]
fn map_subscription_status_past_due_maps_to_premium_past_due() {
    let (tier, status) = map_subscription_status("past_due");
    assert_eq!(tier, "premium");
    assert_eq!(status, "past_due");
}

#[test]
fn map_subscription_status_canceled_maps_to_free_canceled() {
    let (tier, status) = map_subscription_status("canceled");
    assert_eq!(tier, "free");
    assert_eq!(status, "canceled");
}

#[test]
fn user_pk_prefixes_user_id() {
    assert_eq!(user_pk("abc"), "USER#abc");
}

#[test]
fn test_correlation_id_header_name_is_lowercase() {
    assert_eq!(CORRELATION_ID_HEADER, "x-correlation-id");
}

#[test]
fn test_user_profile_equality() {
    let profile1 = UserProfile {
        user_id: "test-123".to_string(),
        email: "test@example.com".to_string(),
        first_name: "Test".to_string(),
        last_name: "User".to_string(),
        tier: "neighbor".to_string(),
    };
    let profile2 = UserProfile {
        user_id: "test-123".to_string(),
        email: "test@example.com".to_string(),
        first_name: "Test".to_string(),
        last_name: "User".to_string(),
        tier: "neighbor".to_string(),
    };
    assert_eq!(profile1, profile2);
}

#[test]
fn get_api_arn_pattern_expands_resource() {
    let arn = "arn:aws:execute-api:us-east-1:123456789012:apiId/prod/GET/resource";
    assert_eq!(get_api_arn_pattern(arn), "arn:aws:execute-api:us-east-1:123456789012:apiId/prod/*/*");
}

#[test]
fn get_api_arn_pattern_returns_input_when_short() {
    let arn = "invalid";
    assert_eq!(get_api_arn_pattern(arn), arn);
}

#[test]
fn get_api_arn_pattern_with_two_parts_only() {
    assert_eq!(get_api_arn_pattern("a/b"), "a/b/*/*");
}

#[test]
fn tier_mapping_caretaker_tier_maps_to_caretaker() {
    let groups = vec!["caretaker-tier"];
    assert_eq!(map_group_to_tier(&groups), "caretaker");
}

#[test]
fn tier_mapping_supporter_tier_maps_to_supporter() {
    let groups = vec!["supporter-tier"];
    assert_eq!(map_group_to_tier(&groups), "supporter");
}

#[test]
fn tier_mapping_neighbor_tier_maps_to_neighbor() {
    let groups = vec!["neighbor-tier"];
    assert_eq!(map_group_to_tier(&groups), "neighbor");
}

#[test]
fn tier_mapping_no_group_defaults_to_neighbor() {
    let groups: Vec<&str> = vec![];
    assert_eq!(map_group_to_tier(&groups), "neighbor");
}

#[test]
fn tier_mapping_unknown_group_defaults_to_neighbor() {
    let groups = vec!["some-other-group"];
    assert_eq!(map_group_to_tier(&groups), "neighbor");
}

#[test]
fn tier_mapping_caretaker_takes_precedence_over_supporter() {
    let groups = vec!["supporter-tier", "caretaker-tier"];
    assert_eq!(map_group_to_tier(&groups), "caretaker");
}

#[test]
fn tier_mapping_caretaker_takes_precedence_over_neighbor() {
    let groups = vec!["neighbor-tier", "caretaker-tier"];
    assert_eq!(map_group_to_tier(&groups), "caretaker");
}

#[test]
fn tier_mapping_supporter_takes_precedence_over_neighbor() {
    let groups = vec!["neighbor-tier", "supporter-tier"];
    assert_eq!(map_group_to_tier(&groups), "supporter");
}

#[test]
fn tier_mapping_all_groups_returns_caretaker() {
    let groups = vec!["neighbor-tier", "supporter-tier", "caretaker-tier"];
    assert_eq!(map_group_to_tier(&groups), "caretaker");
}

#[test]
fn post_confirmation_trigger_filter_is_strict() {
    assert!(is_post_confirmation_trigger(Some("PostConfirmation_ConfirmSignUp")));
    assert!(is_post_confirmation_trigger(Some("PostConfirmation_AdminConfirmSignUp")));
    assert!(is_post_confirmation_trigger(Some("PostConfirmation_ConfirmForgotPassword")));
    assert!(!is_post_confirmation_trigger(Some("PreSignUp_SignUp")));
    assert!(!is_post_confirmation_trigger(None));
}

#[test]
fn issuer_uses_pool_region() {
    assert_eq!(
        issuer_for_pool("us-east-1_AbC123"),
        "https://cognito-idp.us-east-1.amazonaws.com/us-east-1_AbC123"
    );
    assert_eq!(issuer_for_pool("nopool"), "https://cognito-idp.nopool.amazonaws.com/nopool");
}

#[test]
fn entitlements_follow_the_tier() {
    let free = entitlements_snapshot("free".to_string());
    assert_eq!(free.entitlements.len(), 7);
    assert_eq!(free.entitlements_version, "v1");
    assert!(require_entitlement(&free, "core.discovery").is_ok());
    let locked = require_entitlement(&free, "ai.feed_insights.read").unwrap_err();
    assert_eq!(locked.entitlement_key, "ai.feed_insights.read");
    let premium = entitlements_snapshot("premium".to_string());
    assert_eq!(premium.entitlements.len(), 11);
    assert!(require_entitlement(&premium, "ai.feed_insights.read").is_ok());
    assert!(premium.policy.ai_is_premium_only);
}

#[test]
fn feature_locked_response_names_the_upgrade() {
    let err = FeatureLockedError { entitlement_key: "premium.analytics.read".to_string() };
    let body = err.to_response();
    assert_eq!(body.error, "feature_locked");
    assert_eq!(body.entitlement_key, "premium.analytics.read");
    assert_eq!(body.required_tier, "premium");
    assert_eq!(body.upgrade_hint_key, "upgrade.premium");
}

#[test]
fn transition_body_parses_status_and_trims_notes() {
    let body = TransitionClaimRequest { status: "confirmed".to_string(), notes: Some("  see you  ".to_string()) };
    let (status, notes) = parse_transition_request(&body).unwrap();
    assert_eq!(status, ClaimStatus::Confirmed);
    assert_eq!(notes.as_deref(), Some("see you"));
    let bad = TransitionClaimRequest { status: "done".to_string(), notes: None };
    assert!(parse_transition_request(&bad).is_err());
}

#[test]
fn policy_keeps_context_only_on_allow() {
    let context = build_context(vec![
        ("userId", Some("u-1".to_string())),
        ("email", None),
        ("tier", Some("neighbor".to_string())),
    ]);
    assert_eq!(
        context,
        Some(vec![("userId".to_string(), "u-1".to_string()), ("tier".to_string(), "neighbor".to_string())])
    );
    assert_eq!(build_context(vec![("email", None)]), None);
    let allow = generate_policy("user-1", "Allow", "arn:x/prod/*/*", context.clone());
    assert_eq!(allow.principal_id, "user-1");
    assert_eq!(allow.policy_document.version, "2012-10-17");
    assert_eq!(allow.policy_document.statement.len(), 1);
    assert_eq!(allow.policy_document.statement[0].action, "execute-api:Invoke");
    assert_eq!(allow.policy_document.statement[0].effect, "Allow");
    assert_eq!(allow.policy_document.statement[0].resource, "arn:x/prod/*/*");
    assert_eq!(allow.context, context);
    let deny = generate_policy("user", "Deny", "arn:x/prod/*/*", context);
    assert_eq!(deny.context, None);
}
