use vstd::prelude::*;

use crate::error::CoreError;
use crate::text::{ascii_lower_seq, eq_lowered, str_eq};

verus! {

/// How the replay driver picks its scopes.
#[derive(Clone, Copy, Debug, PartialEq, Eq, Structural)]
pub enum ReplayMode {
    /// Entities created (or claims made) in `[from, to)`.
    Replay,
    /// Every current (geo key, crop) pair, whatever its age.
    Backfill,
}

pub open spec fn replay_mode_name(m: ReplayMode) -> Seq<char> {
    match m {
        ReplayMode::Replay => "replay"@,
        ReplayMode::Backfill => "backfill"@,
    }
}

/// The name written into a checkpoint.
pub fn mode_name(mode: ReplayMode) -> (r: &'static str)
    ensures
        r@ == replay_mode_name(mode),
{
    match mode {
        ReplayMode::Replay => "replay",
        ReplayMode::Backfill => "backfill",
    }
}

/// Reads a mode, ignoring the case of ASCII letters; anything else is a validation error.
pub fn parse_replay_mode(value: &str) -> (r: Result<ReplayMode, CoreError>)
    ensures
        r == (if ascii_lower_seq(value@) == "replay"@ {
            Ok::<ReplayMode, CoreError>(ReplayMode::Replay)
        } else if ascii_lower_seq(value@) == "backfill"@ {
            Ok(ReplayMode::Backfill)
        } else {
            Err(CoreError::Validation)
        }),
{
    if eq_lowered(value, "replay") {
        Ok(ReplayMode::Replay)
    } else if eq_lowered(value, "backfill") {
        Ok(ReplayMode::Backfill)
    } else {
        Err(CoreError::Validation)
    }
}

/// Seconds in the default replay look-back.
pub const REPLAY_LOOKBACK_SECONDS: i64 = 86_400;

/// A replay with no start looks back a day from `to`; a backfill has no start.
pub fn default_from_for_mode(mode: ReplayMode, to: i64) -> (r: Option<i64>)
    requires
        to >= i64::MIN + 86_400,
    ensures
        mode == ReplayMode::Replay ==> r == Some((to - 86_400) as i64),
        mode == ReplayMode::Backfill ==> r is None,
{
    match mode {
        ReplayMode::Replay => Some(to - REPLAY_LOOKBACK_SECONDS),
        ReplayMode::Backfill => None,
    }
}

/// The start of the replay: an explicit start wins, then the previous run's checkpoint,
/// then the mode's default.
pub fn resolve_from(mode: ReplayMode, to: i64, explicit_from: Option<i64>, checkpoint_to: Option<i64>) -> (r:
    Option<i64>)
    requires
        to >= i64::MIN + 86_400,
    ensures
        explicit_from is Some ==> r == explicit_from,
        explicit_from is None && checkpoint_to is Some ==> r == checkpoint_to,
        explicit_from is None && checkpoint_to is None ==> r == (if mode == ReplayMode::Replay {
            Some((to - 86_400) as i64)
        } else {
            None
        }),
{
    match explicit_from {
        Some(f) => Some(f),
        None => match checkpoint_to {
            Some(c) => Some(c),
            None => default_from_for_mode(mode, to),
        },
    }
}

pub open spec fn spec_bool_flag(v: Seq<char>) -> Option<bool> {
    if v == "1"@ || v == "true"@ || v == "TRUE"@ || v == "yes"@ || v == "on"@ {
        Some(true)
    } else if v == "0"@ || v == "false"@ || v == "FALSE"@ || v == "no"@ || v == "off"@ {
        Some(false)
    } else {
        None
    }
}

/// Reads a boolean switch such as `DRY_RUN`.
pub fn parse_bool_flag(value: &str) -> (r: Option<bool>)
    ensures
        r == spec_bool_flag(value@),
{
    if str_eq(value, "1") || str_eq(value, "true") || str_eq(value, "TRUE") || str_eq(value, "yes")
        || str_eq(value, "on") {
        Some(true)
    } else if str_eq(value, "0") || str_eq(value, "false") || str_eq(value, "FALSE") || str_eq(
        value,
        "no",
    ) || str_eq(value, "off") {
        Some(false)
    } else {
        None
    }
}

/// A (geo key, crop, time) triple read from listings, requests or claims.
#[derive(Debug)]
pub struct ScopeSource {
    pub geo_key: Option<String>,
    pub crop_id: Option<u128>,
    pub at: i64,
}

pub open spec fn source_selected(s: ScopeSource, mode: ReplayMode, from: Option<i64>, to: i64) -> bool {
    s.geo_key is Some && (mode == ReplayMode::Backfill || ((from is None || s.at >= from->0) && s.at < to))
}

/// The (geo key, crop) pairs of the selected sources, in order.
pub open spec fn spec_selected_pairs(
    sources: Seq<ScopeSource>,
    mode: ReplayMode,
    from: Option<i64>,
    to: i64,
) -> Seq<(Seq<char>, Option<u128>)>
    decreases sources.len(),
{
    if sources.len() == 0 {
        seq![]
    } else {
        let rest = spec_selected_pairs(sources.drop_last(), mode, from, to);
        let s = sources.last();
        if source_selected(s, mode, from, to) {
            rest.push((s.geo_key->0@, s.crop_id))
        } else {
            rest
        }
    }
}

pub open spec fn pair_views(v: Seq<(String, Option<u128>)>) -> Seq<(Seq<char>, Option<u128>)> {
    v.map_values(|p: (String, Option<u128>)| (p.0@, p.1))
}

/// Picks the sources that a replay over `[from, to)`, or a backfill, covers.
pub fn select_scope_sources(sources: &Vec<ScopeSource>, mode: ReplayMode, from: Option<i64>, to: i64) -> (r: Vec<
    (String, Option<u128>),
>)
    ensures
        pair_views(r@) == spec_selected_pairs(sources@, mode, from, to),
{
    let mut out: Vec<(String, Option<u128>)> = Vec::new();
    let mut i: usize = 0;
    while i < sources.len()
        invariant
            i <= sources@.len(),
            pair_views(out@) == spec_selected_pairs(sources@.take(i as int), mode, from, to),
        decreases sources@.len() - i,
    {
        proof {
            assert(sources@.take(i as int + 1).drop_last() =~= sources@.take(i as int));
        }
        let s = &sources[i];
        let in_time = match mode {
            ReplayMode::Backfill => true,
            ReplayMode::Replay => {
                let after_from = match from {
                    Some(f) => s.at >= f,
                    None => true,
                };
                after_from && s.at < to
            },
        };
        match &s.geo_key {
            Some(g) => {
                if in_time {
                    let ghost before = out@;
                    out.push((g.clone(), s.crop_id));
                    assert(pair_views(out@) =~= pair_views(before).push((g@, s.crop_id)));
                }
            },
            None => {},
        }
        i = i + 1;
    }
    assert(sources@.take(i as int) =~= sources@);
    out
}

/// The entity an aggregation event names.
#[derive(Clone, Copy, Debug, PartialEq, Eq, Structural)]
pub enum EventKind {
    Listing,
    Request,
    Claim,
}

pub open spec fn spec_event_kind(detail_type: Seq<char>) -> Option<EventKind> {
    if detail_type == "listing.created"@ || detail_type == "listing.updated"@ {
        Some(EventKind::Listing)
    } else if detail_type == "request.created"@ || detail_type == "request.updated"@ {
        Some(EventKind::Request)
    } else if detail_type == "claim.created"@ || detail_type == "claim.updated"@ {
        Some(EventKind::Claim)
    } else {
        None
    }
}

/// Which entity an event of this detail type is about; other detail types are not consumed.
pub fn event_kind(detail_type: &str) -> (r: Option<EventKind>)
    ensures
        r == spec_event_kind(detail_type@),
{
    if str_eq(detail_type, "listing.created") || str_eq(detail_type, "listing.updated") {
        Some(EventKind::Listing)
    } else if str_eq(detail_type, "request.created") || str_eq(detail_type, "request.updated") {
        Some(EventKind::Request)
    } else if str_eq(detail_type, "claim.created") || str_eq(detail_type, "claim.updated") {
        Some(EventKind::Claim)
    } else {
        None
    }
}

} // verus!
