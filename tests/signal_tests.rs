use harvest_core::feed::select_feed_signals;
use harvest_core::replay::{
    default_from_for_mode, event_kind, mode_name, parse_bool_flag, parse_replay_mode, resolve_from,
    select_scope_sources, EventKind, ReplayMode, ScopeSource,
};
use harvest_core::signal_table::{expand_geo_scopes, SignalTable};
use harvest_core::signals::{
    compute_bucket_start, recompute_signal, retention_days, DemandRow, GeoScope, Ratio, SupplyRow,
};
use harvest_core::status::{ListingStatus, RequestStatus};
use harvest_core::wire::{feed_freshness, summary_provider_from_setting, SummaryProvider};
use std::collections::HashSet;

const CROP: u128 = 0x8b5a1a3e_d7ad_4ca4_9f56_2f188db4e6ef;
const DAY: i64 = 86_400;
const NOW: i64 = 1_771_621_230;

fn supply(geo: &str, crop: u128, status: ListingStatus, remaining: Option<u64>, age_days: i64) -> SupplyRow {
    SupplyRow {
        geo_key: geo.to_string(),
        crop_id: crop,
        status,
        quantity_remaining: remaining,
        created_at: NOW - age_days * DAY,
        deleted: false,
    }
}

fn demand(geo: &str, crop: u128, status: RequestStatus, quantity: u64, age_days: i64) -> DemandRow {
    DemandRow {
        geo_key: geo.to_string(),
        crop_id: crop,
        status,
        quantity,
        created_at: NOW - age_days * DAY,
        deleted: false,
    }
}

fn sample_rows() -> (Vec<SupplyRow>, Vec<DemandRow>) {
    let listings = vec![
        supply("9q8yyk8", CROP, ListingStatus::Active, Some(4_000), 1),
        supply("9q8yyk9", CROP, ListingStatus::Claimed, Some(0), 2),
        supply("9q8yzzz", CROP, ListingStatus::Pending, None, 3),
        supply("9q8yyk8", CROP, ListingStatus::Expired, Some(9_000), 1),
        supply("9q8yyk8", CROP + 1, ListingStatus::Active, Some(2_000), 1),
        supply("9q8yyk8", CROP, ListingStatus::Active, Some(5_000), 20),
        supply("9r00000", CROP, ListingStatus::Active, Some(5_000), 1),
    ];
    let requests = vec![
        demand("9q8yyk8", CROP, RequestStatus::Open, 3_000, 1),
        demand("9q8yyk8", CROP, RequestStatus::Closed, 8_000, 1),
        demand("9q8yyk1", CROP + 1, RequestStatus::Open, 1_000, 10),
    ];
    (listings, requests)
}

#[test]
fn retention_matches_spec() {
    assert_eq!(retention_days(7), 35);
    assert_eq!(retention_days(14), 49);
    assert_eq!(retention_days(30), 90);
}

#[test]
fn bucket_start_is_five_minute_floor() {
    assert_eq!(compute_bucket_start(1_771_621_230), 1_771_621_200);
    assert_eq!(compute_bucket_start(1_771_621_200), 1_771_621_200);
    assert_eq!(compute_bucket_start(299), 0);
    assert_eq!(compute_bucket_start(-1), -300);
}

#[test]
fn recompute_counts_only_matching_rows() {
    let (listings, requests) = sample_rows();
    let scope = GeoScope { geo_boundary_key: "9q8y".to_string(), crop_id: Some(CROP) };
    let row = recompute_signal(&scope, 7, &listings, &requests, 1_771_621_200, NOW);
    assert_eq!(row.listing_count, 3);
    assert_eq!(row.supply_quantity, 4_000);
    assert_eq!(row.request_count, 1);
    assert_eq!(row.demand_quantity, 3_000);
    assert_eq!(row.scarcity_score, Ratio { numerator: 3_000, denominator: 5_000 });
    assert_eq!(row.abundance_score, Ratio { numerator: 4_000, denominator: 4_000 });
    assert_eq!(row.computed_at, NOW);
    assert_eq!(row.expires_at, NOW + 35 * DAY);
    assert_eq!(row.schema_version, 1);

    let all_crops = GeoScope { geo_boundary_key: "9q8y".to_string(), crop_id: None };
    let wide = recompute_signal(&all_crops, 30, &listings, &requests, 1_771_621_200, NOW);
    assert_eq!(wide.listing_count, 5);
    assert_eq!(wide.supply_quantity, 11_000);
    assert_eq!(wide.request_count, 2);
    assert_eq!(wide.demand_quantity, 4_000);
    assert_eq!(wide.expires_at, NOW + 90 * DAY);
}

#[test]
fn expand_geo_scopes_deduplicates_duplicate_events() {
    let source = vec![("9q8yyk8".to_string(), Some(CROP)), ("9q8yyk8".to_string(), Some(CROP))];
    let scopes = expand_geo_scopes(&source);
    let unique: HashSet<(String, Option<u128>)> =
        scopes.iter().map(|s| (s.geo_boundary_key.clone(), s.crop_id)).collect();
    assert_eq!(unique.len(), 6);
    assert_eq!(scopes.len(), 6);
}

#[test]
fn creation_event_fans_out_to_eighteen_upserts() {
    let (listings, requests) = sample_rows();
    let scopes = expand_geo_scopes(&vec![("9q8yyk8".to_string(), Some(CROP))]);
    let mut table = SignalTable::new();
    let n = table.run_recompute(&scopes, &listings, &requests, NOW, NOW, false);
    assert_eq!(n, 18);
    assert_eq!(table.rows.len(), 18);
    let keys: HashSet<(String, Option<u128>, u32)> = table
        .rows
        .iter()
        .map(|r| (r.geo_boundary_key.clone(), r.crop_scope_id, r.window_days))
        .collect();
    assert_eq!(keys.len(), 18);
    assert!(table.rows.iter().all(|r| r.bucket_start == 1_771_621_200));
    assert!(keys.contains(&("9q8yyk".to_string(), None, 14)));

    let redelivered = table.run_recompute(&scopes, &listings, &requests, NOW + 60, NOW + 60, false);
    assert_eq!(redelivered, 18);
    assert_eq!(table.rows.len(), 18);
    assert!(table.rows.iter().all(|r| r.computed_at == NOW + 60));
}

#[test]
fn rerun_on_same_state_is_identical() {
    let (listings, requests) = sample_rows();
    let scopes = expand_geo_scopes(&vec![("9q8yyk8".to_string(), Some(CROP))]);
    let mut table = SignalTable::new();
    table.run_recompute(&scopes, &listings, &requests, NOW, NOW, false);
    let first = format!("{:?}", table.rows);
    table.run_recompute(&scopes, &listings, &requests, NOW, NOW, false);
    assert_eq!(format!("{:?}", table.rows), first);
}

#[test]
fn dry_run_writes_nothing_but_counts_the_same_work() {
    let (listings, requests) = sample_rows();
    let scopes = expand_geo_scopes(&vec![("9q8yyk8".to_string(), Some(CROP))]);
    let mut table = SignalTable::new();
    let planned = table.run_recompute(&scopes, &listings, &requests, NOW, NOW, true);
    assert_eq!(planned, 18);
    assert!(table.rows.is_empty());
}

#[test]
fn replay_selection_and_defaults() {
    let sources = vec![
        ScopeSource { geo_key: Some("9q8yyk8".to_string()), crop_id: Some(CROP), at: NOW - 10 },
        ScopeSource { geo_key: Some("9q8zzzz".to_string()), crop_id: None, at: NOW - 2 * DAY },
        ScopeSource { geo_key: None, crop_id: Some(CROP), at: NOW - 10 },
        ScopeSource { geo_key: Some("9r00000".to_string()), crop_id: None, at: NOW },
    ];
    let from = default_from_for_mode(ReplayMode::Replay, NOW);
    assert_eq!(from, Some(NOW - DAY));
    let replay = select_scope_sources(&sources, ReplayMode::Replay, from, NOW);
    assert_eq!(replay, vec![("9q8yyk8".to_string(), Some(CROP))]);
    let backfill = select_scope_sources(&sources, ReplayMode::Backfill, None, NOW);
    assert_eq!(backfill.len(), 3);
    assert_eq!(default_from_for_mode(ReplayMode::Backfill, NOW), None);
    assert_eq!(resolve_from(ReplayMode::Replay, NOW, Some(5), Some(7)), Some(5));
    assert_eq!(resolve_from(ReplayMode::Replay, NOW, None, Some(7)), Some(7));
    assert_eq!(resolve_from(ReplayMode::Backfill, NOW, None, None), None);
    assert_eq!(parse_replay_mode("BackFill"), Ok(ReplayMode::Backfill));
    assert!(parse_replay_mode("rerun").is_err());
    assert_eq!(mode_name(ReplayMode::Replay), "replay");
    assert_eq!(parse_bool_flag("on"), Some(true));
    assert_eq!(parse_bool_flag("FALSE"), Some(false));
    assert_eq!(parse_bool_flag("True"), None);
}

#[test]
fn event_detail_types() {
    assert_eq!(event_kind("listing.created"), Some(EventKind::Listing));
    assert_eq!(event_kind("request.updated"), Some(EventKind::Request));
    assert_eq!(event_kind("claim.created"), Some(EventKind::Claim));
    assert_eq!(event_kind("user.created"), None);
}

#[test]
fn feed_prefers_fresh_signals_and_falls_back_to_stale() {
    let (listings, requests) = sample_rows();
    let scopes = expand_geo_scopes(&vec![("9q8yyk8".to_string(), Some(CROP))]);
    let mut table = SignalTable::new();
    table.run_recompute(&scopes, &listings, &requests, NOW, NOW, false);
    let (fresh, freshness) = select_feed_signals(&table.rows, "9q8y", 7, NOW + DAY);
    assert_eq!(fresh.len(), 6);
    assert!(!freshness.is_stale);
    let (stale, freshness) = select_feed_signals(&table.rows, "9q8y", 7, NOW + 36 * DAY);
    assert_eq!(stale.len(), 6);
    assert!(freshness.is_stale && freshness.stale_fallback_used);
    let (none, _) = select_feed_signals(&table.rows, "9r00", 7, NOW);
    assert!(none.is_empty());
    let block = feed_freshness("2026-02-20T21:00:00+00:00".to_string(), true);
    assert_eq!(
        block.stale_reason.as_deref(),
        Some("No non-expired derived signals available for requested scope")
    );
    assert!(feed_freshness(String::new(), false).stale_reason.is_none());
}

#[test]
fn feed_keeps_the_newest_row_of_each_scope() {
    let (listings, requests) = sample_rows();
    let scopes = expand_geo_scopes(&vec![("9q8yyk8".to_string(), Some(CROP))]);
    let mut table = SignalTable::new();
    table.run_recompute(&scopes, &listings, &requests, NOW, NOW, false);
    table.run_recompute(&scopes, &listings, &requests, NOW + 600, NOW + 600, false);
    assert_eq!(table.rows.len(), 36);
    let (fresh, freshness) = select_feed_signals(&table.rows, "9q8y", 7, NOW + 700);
    assert!(!freshness.is_stale);
    assert_eq!(fresh.len(), 6);
    assert!(fresh.iter().all(|&i| table.rows[i].computed_at == NOW + 600));
    let (stale, freshness) = select_feed_signals(&table.rows, "9q8y", 7, NOW + 40 * DAY);
    assert!(freshness.is_stale);
    assert_eq!(stale.len(), 6);
    assert!(stale.iter().all(|&i| table.rows[i].computed_at == NOW + 600));
}

#[test]
fn summary_provider_selection() {
    assert_eq!(summary_provider_from_setting(Some("MOCK")), SummaryProvider::Mock);
    assert_eq!(summary_provider_from_setting(Some("bedrock")), SummaryProvider::Bedrock);
    assert_eq!(summary_provider_from_setting(None), SummaryProvider::Bedrock);
}
