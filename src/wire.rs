use vstd::prelude::*;

use crate::error::CoreError;
use crate::status::{claim_status_name, parse_claim_status, ClaimStatus};
use crate::text::{ascii_lower_seq, eq_lowered, normalize_optional_text, normalized_text, opt_string_view, owned};

verus! {

/// The body of a claim transition.
#[derive(Debug)]
pub struct TransitionClaimRequest {
    pub status: String,
    pub notes: Option<String>,
}

/// Reads a transition body: the target status, and the notes trimmed (blank ones dropped).
pub fn parse_transition_request(payload: &TransitionClaimRequest) -> (r: Result<(ClaimStatus, Option<String>), CoreError>)
    ensures
        match r {
            Ok((s, notes)) => payload.status@ == claim_status_name(s) && opt_string_view(notes) == normalized_text(
                opt_string_view(payload.notes),
            ),
            Err(e) => e == CoreError::Validation && forall|s: ClaimStatus| payload.status@ != #[trigger] claim_status_name(
                s,
            ),
        },
{
    let target = match parse_claim_status(payload.status.as_str()) {
        Ok(s) => s,
        Err(e) => return Err(e),
    };
    let notes = match &payload.notes {
        Some(n) => normalize_optional_text(Some(n.as_str())),
        None => None,
    };
    Ok((target, notes))
}

/// How fresh the feed's signals are.
#[derive(Debug)]
pub struct DerivedFeedFreshness {
    pub as_of: String,
    pub is_stale: bool,
    pub stale_fallback_used: bool,
    pub stale_reason: Option<String>,
}

pub open spec fn stale_reason_text() -> Seq<char> {
    "No non-expired derived signals available for requested scope"@
}

/// The freshness block of a feed answer; a stale answer says why.
pub fn feed_freshness(as_of: String, stale: bool) -> (r: DerivedFeedFreshness)
    ensures
        r.as_of@ == as_of@,
        r.is_stale == stale,
        r.stale_fallback_used == stale,
        stale ==> (r.stale_reason matches Some(t) && t@ == stale_reason_text()),
        !stale ==> r.stale_reason is None,
{
    if stale {
        DerivedFeedFreshness {
            as_of,
            is_stale: true,
            stale_fallback_used: true,
            stale_reason: Some(owned("No non-expired derived signals available for requested scope")),
        }
    } else {
        DerivedFeedFreshness { as_of, is_stale: false, stale_fallback_used: false, stale_reason: None }
    }
}

/// An error body.
#[derive(Debug)]
pub struct ErrorResponse {
    pub error: String,
}

/// One problem with a submitted field.
#[derive(Debug, Clone, PartialEq, Eq)]
pub struct ValidationIssue {
    pub field: String,
    pub message: String,
}

/// A user's rating, as the store keeps it.
#[derive(Debug)]
pub struct UserRatingSummary {
    pub avg_score: String,
    pub rating_count: i32,
}

/// Where feed summaries come from.
#[derive(Clone, Copy, Debug, PartialEq, Eq, Structural)]
pub enum SummaryProvider {
    Bedrock,
    Mock,
}

/// The provider a setting selects: `mock` in any ASCII case, else the live provider.
pub fn summary_provider_from_setting(value: Option<&str>) -> (r: SummaryProvider)
    ensures
        r == (match value {
            Some(v) => if ascii_lower_seq(v@) == "mock"@ {
                SummaryProvider::Mock
            } else {
                SummaryProvider::Bedrock
            },
            None => SummaryProvider::Bedrock,
        }),
{
    match value {
        Some(v) => {
            if eq_lowered(v, "mock") {
                SummaryProvider::Mock
            } else {
                SummaryProvider::Bedrock
            }
        },
        None => SummaryProvider::Bedrock,
    }
}

/// Generates feed summaries with the selected provider.
#[derive(Debug)]
pub struct SummaryGenerator {
    pub provider: SummaryProvider,
}

} // verus!
