use vstd::prelude::*;

use crate::text::{absent_from, find_char_from, first_at_or_after, owned, str_eq};

verus! {

/// The wildcard resource that an allow policy grants: the first two `/`-separated parts
/// of the method ARN followed by `/*/*`; an ARN without a `/` is kept as it is.
pub open spec fn spec_arn_pattern(arn: Seq<char>) -> Seq<char> {
    if absent_from(arn, '/', 0) {
        arn
    } else {
        let k1 = choose|k: int| #[trigger] first_at_or_after(arn, '/', 0, k);
        let end = if absent_from(arn, '/', k1 + 1) {
            arn.len() as int
        } else {
            choose|k: int| #[trigger] first_at_or_after(arn, '/', k1 + 1, k)
        };
        arn.subrange(0, end) + "/*/*"@
    }
}

proof fn lemma_first_unique(s: Seq<char>, c: char, from: int, a: int, b: int)
    requires
        first_at_or_after(s, c, from, a),
        first_at_or_after(s, c, from, b),
    ensures
        a == b,
{
    if a < b {
        assert(s[a] != c);
    } else if b < a {
        assert(s[b] != c);
    }
}

pub fn get_api_arn_pattern(method_arn: &str) -> (r: String)
    ensures
        r@ == spec_arn_pattern(method_arn@),
{
    let n = method_arn.unicode_len();
    match find_char_from(method_arn, '/', 0) {
        None => owned(method_arn),
        Some(k1) => {
            let end = match find_char_from(method_arn, '/', k1 + 1) {
                Some(k2) => k2,
                None => n,
            };
            let mut out = owned(method_arn.substring_char(0, end));
            out.append("/*/*");
            proof {
                let c1 = choose|k: int| #[trigger] first_at_or_after(method_arn@, '/', 0, k);
                lemma_first_unique(method_arn@, '/', 0, c1, k1 as int);
                if !absent_from(method_arn@, '/', k1 + 1) {
                    let c2 = choose|k: int| #[trigger] first_at_or_after(method_arn@, '/', k1 + 1, k);
                    lemma_first_unique(method_arn@, '/', k1 + 1, c2, end as int);
                }
            }
            out
        },
    }
}

/// The tier a user's groups grant: caretaker over supporter over neighbor, neighbor
/// when no tier group is present.
pub open spec fn spec_tier(groups: Seq<Seq<char>>) -> Seq<char> {
    if groups.contains("caretaker-tier"@) {
        "caretaker"@
    } else if groups.contains("supporter-tier"@) {
        "supporter"@
    } else {
        "neighbor"@
    }
}

pub open spec fn str_views(groups: Seq<&str>) -> Seq<Seq<char>> {
    groups.map_values(|g: &str| g@)
}

fn contains_text(groups: &[&str], wanted: &str) -> (r: bool)
    ensures
        r == str_views(groups@).contains(wanted@),
{
    let mut i: usize = 0;
    while i < groups.len()
        invariant
            i <= groups@.len(),
            forall|j: int| 0 <= j < i ==> (#[trigger] groups@[j])@ != wanted@,
        decreases groups@.len() - i,
    {
        if str_eq(groups[i], wanted) {
            assert(str_views(groups@)[i as int] == wanted@);
            return true;
        }
        i = i + 1;
    }
    assert(!str_views(groups@).contains(wanted@)) by {
        if str_views(groups@).contains(wanted@) {
            let j = choose|j: int| 0 <= j < str_views(groups@).len() && str_views(groups@)[j] == wanted@;
            assert(groups@[j]@ == wanted@);
        }
    }
    false
}

/// Maps a user's identity-provider groups to a tier.
pub fn map_group_to_tier(group_names: &[&str]) -> (r: String)
    ensures
        r@ == spec_tier(str_views(group_names@)),
{
    if contains_text(group_names, "caretaker-tier") {
        owned("caretaker")
    } else if contains_text(group_names, "supporter-tier") {
        owned("supporter")
    } else {
        owned("neighbor")
    }
}

/// The issuer URL of a user pool; the region is the part of the pool id before `_`.
pub open spec fn spec_issuer(pool: Seq<char>) -> Seq<char> {
    let region = if absent_from(pool, '_', 0) {
        pool
    } else {
        pool.subrange(0, choose|k: int| #[trigger] first_at_or_after(pool, '_', 0, k))
    };
    "https://cognito-idp."@ + region + ".amazonaws.com/"@ + pool
}

pub fn issuer_for_pool(user_pool_id: &str) -> (r: String)
    ensures
        r@ == spec_issuer(user_pool_id@),
{
    let region_end = match find_char_from(user_pool_id, '_', 0) {
        Some(k) => k,
        None => user_pool_id.unicode_len(),
    };
    proof {
        if !absent_from(user_pool_id@, '_', 0) {
            let c = choose|k: int| #[trigger] first_at_or_after(user_pool_id@, '_', 0, k);
            lemma_first_unique(user_pool_id@, '_', 0, c, region_end as int);
        } else {
            assert(user_pool_id@.subrange(0, region_end as int) =~= user_pool_id@);
        }
    }
    let mut out = owned("https://cognito-idp.");
    out.append(user_pool_id.substring_char(0, region_end));
    out.append(".amazonaws.com/");
    out.append(user_pool_id);
    out
}

pub open spec fn spec_post_confirmation(trigger: Option<Seq<char>>) -> bool {
    match trigger {
        Some(t) => t == "PostConfirmation_ConfirmSignUp"@ || t == "PostConfirmation_AdminConfirmSignUp"@ || t
            == "PostConfirmation_ConfirmForgotPassword"@,
        None => false,
    }
}

/// Only the three post-confirmation triggers create a shell user.
pub fn is_post_confirmation_trigger(trigger_source: Option<&str>) -> (r: bool)
    ensures
        r == spec_post_confirmation(
            match trigger_source {
                Some(t) => Some(t@),
                None => None,
            },
        ),
{
    match trigger_source {
        Some(t) => str_eq(t, "PostConfirmation_ConfirmSignUp") || str_eq(t, "PostConfirmation_AdminConfirmSignUp")
            || str_eq(t, "PostConfirmation_ConfirmForgotPassword"),
        None => false,
    }
}

/// One statement of an authorizer policy.
#[derive(Debug)]
pub struct PolicyStatement {
    pub action: String,
    pub effect: String,
    pub resource: String,
}

/// An authorizer policy document.
#[derive(Debug)]
pub struct PolicyDocument {
    pub version: String,
    pub statement: Vec<PolicyStatement>,
}

/// What the authorizer answers: who the caller is, the policy, and the context that
/// downstream handlers read (only on `Allow`).
#[derive(Debug)]
pub struct PolicyResponse {
    pub principal_id: String,
    pub policy_document: PolicyDocument,
    pub context: Option<Vec<(String, String)>>,
}

/// A policy with one `execute-api:Invoke` statement; the context is kept only when the
/// effect is `Allow`.
pub fn generate_policy(principal_id: &str, effect: &str, resource: &str, context: Option<Vec<(String, String)>>) -> (r:
    PolicyResponse)
    ensures
        r.principal_id@ == principal_id@,
        r.policy_document.version@ == "2012-10-17"@,
        r.policy_document.statement@.len() == 1,
        r.policy_document.statement@[0].action@ == "execute-api:Invoke"@,
        r.policy_document.statement@[0].effect@ == effect@,
        r.policy_document.statement@[0].resource@ == resource@,
        effect@ == "Allow"@ ==> r.context == context,
        effect@ != "Allow"@ ==> r.context is None,
{
    let mut statement: Vec<PolicyStatement> = Vec::new();
    statement.push(
        PolicyStatement { action: owned("execute-api:Invoke"), effect: owned(effect), resource: owned(resource) },
    );
    let allowed = str_eq(effect, "Allow");
    PolicyResponse {
        principal_id: owned(principal_id),
        policy_document: PolicyDocument { version: owned("2012-10-17"), statement },
        context: if allowed {
            context
        } else {
            None
        },
    }
}

/// The context entries that carry a value, in order.
pub open spec fn present_entries(entries: Seq<(&str, Option<String>)>) -> Seq<(Seq<char>, Seq<char>)>
    decreases entries.len(),
{
    if entries.len() == 0 {
        seq![]
    } else {
        let rest = present_entries(entries.drop_last());
        match entries.last().1 {
            Some(v) => rest.push((entries.last().0@, v@)),
            None => rest,
        }
    }
}

pub open spec fn entry_views(v: Seq<(String, String)>) -> Seq<(Seq<char>, Seq<char>)> {
    v.map_values(|p: (String, String)| (p.0@, p.1@))
}

/// The authorizer context: the entries that carry a value, or `None` when none does.
pub fn build_context(entries: Vec<(&str, Option<String>)>) -> (r: Option<Vec<(String, String)>>)
    ensures
        present_entries(entries@).len() == 0 ==> r is None,
        present_entries(entries@).len() > 0 ==> (r matches Some(v) && entry_views(v@) == present_entries(entries@)),
{
    let ghost all = entries@;
    let mut out: Vec<(String, String)> = Vec::new();
    let mut rest = entries;
    let mut taken: Vec<(&str, Option<String>)> = Vec::new();
    while rest.len() > 0
        invariant
            all == taken@ + rest@,
            entry_views(out@) == present_entries(taken@),
        decreases rest@.len(),
    {
        let (key, value) = rest.remove(0);
        let ghost before = out@;
        let ghost prev = taken@;
        match value {
            Some(v) => {
                out.push((owned(key), v.clone()));
                assert(entry_views(out@) =~= entry_views(before).push((key@, v@)));
                taken.push((key, Some(v)));
            },
            None => {
                taken.push((key, None));
            },
        }
        assert(taken@.drop_last() =~= prev);
        assert(all =~= taken@ + rest@);
    }
    assert(rest@ =~= Seq::<(&str, Option<String>)>::empty());
    assert(all =~= taken@);
    if out.len() == 0 {
        None
    } else {
        Some(out)
    }
}

} // verus!
