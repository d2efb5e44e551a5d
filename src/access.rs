use vstd::prelude::*;

use crate::error::CoreError;
use crate::geo::string_views;
use crate::status::UserType;
use crate::text::{owned, str_eq};

verus! {

/// The name of the header that carries the correlation id.
pub const CORRELATION_ID_HEADER: &'static str = "x-correlation-id";

/// Who is calling, as the upstream authorizer put it on the request.
#[derive(Debug)]
pub struct AuthContext {
    pub user_id: String,
    pub user_type: Option<UserType>,
    pub tier: String,
    pub email: Option<String>,
}

/// Grower-only features are refused to gatherers and to users who have not onboarded.
pub fn require_grower(ctx: &AuthContext) -> (r: Result<(), CoreError>)
    ensures
        r is Ok <==> ctx.user_type == Some(UserType::Grower),
        r is Err ==> r == Err::<(), CoreError>(CoreError::Forbidden),
{
    match ctx.user_type {
        Some(UserType::Grower) => Ok(()),
        _ => Err(CoreError::Forbidden),
    }
}

/// Features of one user type are refused to the other type and to users without one.
pub fn require_user_type(ctx: &AuthContext, required: UserType) -> (r: Result<(), CoreError>)
    ensures
        r is Ok <==> ctx.user_type == Some(required),
        r is Err ==> r == Err::<(), CoreError>(CoreError::Forbidden),
{
    match ctx.user_type {
        Some(t) => {
            if t == required {
                Ok(())
            } else {
                Err(CoreError::Forbidden)
            }
        },
        None => Err(CoreError::Forbidden),
    }
}

/// Claims can be read by either user type, once onboarding has set one.
pub fn require_claim_read_user_type(user_type: Option<UserType>) -> (r: Result<(), CoreError>)
    ensures
        r is Ok <==> user_type is Some,
        r is Err ==> r == Err::<(), CoreError>(CoreError::Forbidden),
{
    match user_type {
        Some(_) => Ok(()),
        None => Err(CoreError::Forbidden),
    }
}

/// The tier and status that a payment provider's subscription status maps to.
pub open spec fn spec_subscription(status: Seq<char>) -> (Seq<char>, Seq<char>) {
    if status == "active"@ || status == "trialing"@ {
        ("premium"@, "active"@)
    } else if status == "past_due"@ {
        ("premium"@, "past_due"@)
    } else {
        ("free"@, "canceled"@)
    }
}

/// Maps a subscription status to the user's (tier, subscription status).
pub fn map_subscription_status(status: &str) -> (r: (&'static str, &'static str))
    ensures
        (r.0@, r.1@) == spec_subscription(status@),
{
    if str_eq(status, "active") || str_eq(status, "trialing") {
        ("premium", "active")
    } else if str_eq(status, "past_due") {
        ("premium", "past_due")
    } else {
        ("free", "canceled")
    }
}

/// The partition key of a user's item: `USER#` and the id.
pub fn user_pk(user_id: &str) -> (r: String)
    ensures
        r@ == "USER#"@ + user_id@,
{
    let mut key = String::from_str("USER#");
    key.append(user_id);
    key
}

/// The public profile of a user.
#[derive(Debug, Clone, PartialEq, Eq)]
pub struct UserProfile {
    pub user_id: String,
    pub email: String,
    pub first_name: String,
    pub last_name: String,
    pub tier: String,
}

/// The version of the entitlement set.
pub const ENTITLEMENTS_VERSION: &'static str = "v1";

pub open spec fn free_entitlements() -> Seq<Seq<char>> {
    seq![
        "core.discovery"@,
        "core.listings.write"@,
        "core.requests.write"@,
        "core.claims.write"@,
        "core.derived_feed.read"@,
        "reminders.deterministic.schedule"@,
        "reminders.deterministic.manage"@,
    ]
}

pub open spec fn premium_only_entitlements() -> Seq<Seq<char>> {
    seq![
        "ai.copilot.weekly_grow_plan"@,
        "ai.feed_insights.read"@,
        "agent.tasks.automation"@,
        "premium.analytics.read"@,
    ]
}

/// The entitlements of a tier: the free set, and the premium set on `premium`.
pub open spec fn spec_entitlements(tier: Seq<char>) -> Seq<Seq<char>> {
    if tier == "premium"@ {
        free_entitlements() + premium_only_entitlements()
    } else {
        free_entitlements()
    }
}

/// How entitlements are shaped.
#[derive(Clone, Copy, Debug, PartialEq, Eq, Structural)]
pub struct EntitlementsPolicy {
    pub ai_is_premium_only: bool,
    pub free_reminders_deterministic_only: bool,
}

/// What a user may use.
#[derive(Debug)]
pub struct EntitlementsResponse {
    pub tier: String,
    pub entitlements_version: String,
    pub entitlements: Vec<String>,
    pub policy: EntitlementsPolicy,
}

fn push_text(v: &mut Vec<String>, s: &str)
    ensures
        string_views(final(v)@) == string_views(old(v)@).push(s@),
{
    let ghost before = v@;
    v.push(owned(s));
    assert(string_views(v@) =~= string_views(before).push(s@));
}

/// The entitlement snapshot of a tier.
pub fn entitlements_snapshot(tier: String) -> (r: EntitlementsResponse)
    ensures
        r.tier@ == tier@,
        r.entitlements_version@ == "v1"@,
        string_views(r.entitlements@) == spec_entitlements(tier@),
        r.policy == (EntitlementsPolicy { ai_is_premium_only: true, free_reminders_deterministic_only: true }),
{
    let mut keys: Vec<String> = Vec::new();
    push_text(&mut keys, "core.discovery");
    push_text(&mut keys, "core.listings.write");
    push_text(&mut keys, "core.requests.write");
    push_text(&mut keys, "core.claims.write");
    push_text(&mut keys, "core.derived_feed.read");
    push_text(&mut keys, "reminders.deterministic.schedule");
    push_text(&mut keys, "reminders.deterministic.manage");
    assert(string_views(keys@) =~= free_entitlements());
    if str_eq(tier.as_str(), "premium") {
        push_text(&mut keys, "ai.copilot.weekly_grow_plan");
        push_text(&mut keys, "ai.feed_insights.read");
        push_text(&mut keys, "agent.tasks.automation");
        push_text(&mut keys, "premium.analytics.read");
        assert(string_views(keys@) =~= free_entitlements() + premium_only_entitlements());
    }
    EntitlementsResponse {
        tier,
        entitlements_version: owned(ENTITLEMENTS_VERSION),
        entitlements: keys,
        policy: EntitlementsPolicy { ai_is_premium_only: true, free_reminders_deterministic_only: true },
    }
}

/// A feature that the caller's tier does not include.
#[derive(Debug)]
pub struct FeatureLockedError {
    pub entitlement_key: String,
}

/// The body of a `feature_locked` answer.
#[derive(Debug)]
pub struct FeatureLockedErrorResponse {
    pub error: String,
    pub entitlement_key: String,
    pub required_tier: String,
    pub upgrade_hint_key: String,
}

impl FeatureLockedError {
    pub fn to_response(&self) -> (r: FeatureLockedErrorResponse)
        ensures
            r.error@ == "feature_locked"@,
            r.entitlement_key@ == self.entitlement_key@,
            r.required_tier@ == "premium"@,
            r.upgrade_hint_key@ == "upgrade.premium"@,
    {
        FeatureLockedErrorResponse {
            error: owned("feature_locked"),
            entitlement_key: self.entitlement_key.clone(),
            required_tier: owned("premium"),
            upgrade_hint_key: owned("upgrade.premium"),
        }
    }
}

/// A feature is open when the snapshot lists its key; else it is locked.
pub fn require_entitlement(snapshot: &EntitlementsResponse, entitlement_key: &str) -> (r: Result<
    (),
    FeatureLockedError,
>)
    ensures
        r is Ok <==> string_views(snapshot.entitlements@).contains(entitlement_key@),
        match r {
            Err(e) => e.entitlement_key@ == entitlement_key@,
            Ok(_) => true,
        },
{
    let mut i: usize = 0;
    while i < snapshot.entitlements.len()
        invariant
            i <= snapshot.entitlements@.len(),
            forall|j: int| 0 <= j < i ==> (#[trigger] snapshot.entitlements@[j])@ != entitlement_key@,
        decreases snapshot.entitlements@.len() - i,
    {
        if str_eq(snapshot.entitlements[i].as_str(), entitlement_key) {
            assert(string_views(snapshot.entitlements@)[i as int] == entitlement_key@);
            return Ok(());
        }
        i = i + 1;
    }
    assert(!string_views(snapshot.entitlements@).contains(entitlement_key@)) by {
        if string_views(snapshot.entitlements@).contains(entitlement_key@) {
            let j = choose|j: int|
                0 <= j < string_views(snapshot.entitlements@).len() && string_views(snapshot.entitlements@)[j]
                    == entitlement_key@;
            assert(snapshot.entitlements@[j]@ == entitlement_key@);
        }
    }
    Err(FeatureLockedError { entitlement_key: owned(entitlement_key) })
}

} // verus!
