use vstd::prelude::*;

use crate::error::CoreError;
use crate::ledger::ListingLedger;
use crate::model::{ClaimRecord, RequestRecord};
use crate::queries::ListClaimsQuery;
use crate::status::ClaimStatus;

verus! {

/// A claim is visible to its claimer and to the owner of its listing.
pub open spec fn claim_visible(c: ClaimRecord, listing_owner: u128, actor: u128) -> bool {
    c.claimer_id == actor || listing_owner == actor
}

/// The optional filters of a claim listing.
pub open spec fn claim_passes(c: ClaimRecord, status: Option<ClaimStatus>, request_id: Option<u128>) -> bool {
    (status is None || status == Some(c.status)) && (request_id is None || c.request_id == request_id)
}

/// Some claim of the listing was made by `actor`.
pub open spec fn has_claim_by(claims: Seq<ClaimRecord>, actor: u128) -> bool {
    exists|i: int| 0 <= i < claims.len() && (#[trigger] claims[i]).claimer_id == actor
}

/// A listing filter is open to the listing's owner and to anyone who claimed against it.
pub fn ensure_listing_filter_access(ledger: &ListingLedger, actor: u128) -> (r: Result<(), CoreError>)
    ensures
        ledger.listing.deleted ==> r == Err::<(), CoreError>(CoreError::NotFound),
        !ledger.listing.deleted ==> (r is Ok <==> (ledger.listing.owner_id == actor || has_claim_by(
            ledger.claims@,
            actor,
        ))),
        !ledger.listing.deleted && r is Err ==> r == Err::<(), CoreError>(CoreError::Forbidden),
{
    if ledger.listing.deleted {
        return Err(CoreError::NotFound);
    }
    if ledger.listing.owner_id == actor {
        return Ok(());
    }
    let mut i: usize = 0;
    while i < ledger.claims.len()
        invariant
            i <= ledger.claims@.len(),
            !ledger.listing.deleted,
            forall|j: int| 0 <= j < i ==> (#[trigger] ledger.claims@[j]).claimer_id != actor,
        decreases ledger.claims@.len() - i,
    {
        if ledger.claims[i].claimer_id == actor {
            return Ok(());
        }
        i = i + 1;
    }
    Err(CoreError::Forbidden)
}

/// Some live listing of `actor` carries a claim linked to the request.
pub open spec fn owns_listing_linked_to(ledgers: Seq<ListingLedger>, request_id: u128, actor: u128) -> bool {
    exists|k: int, i: int|
        0 <= k < ledgers.len() && !ledgers[k].listing.deleted && ledgers[k].listing.owner_id == actor && 0 <= i
            < ledgers[k].claims@.len() && (#[trigger] ledgers[k].claims@[i]).request_id == Some(request_id)
}

/// A request filter is open to the request's owner and to the owner of any live listing
/// that has a claim linked to the request.
pub fn ensure_request_filter_access(request: Option<&RequestRecord>, ledgers: &Vec<ListingLedger>, actor: u128) -> (r:
    Result<(), CoreError>)
    ensures
        (request is None || request->0.deleted) ==> r == Err::<(), CoreError>(CoreError::NotFound),
        request is Some && !request->0.deleted ==> (r is Ok <==> (request->0.owner_id == actor
            || owns_listing_linked_to(ledgers@, request->0.id, actor))),
        request is Some && !request->0.deleted && r is Err ==> r == Err::<(), CoreError>(CoreError::Forbidden),
{
    let q = match request {
        None => return Err(CoreError::NotFound),
        Some(q) => q,
    };
    if q.deleted {
        return Err(CoreError::NotFound);
    }
    if q.owner_id == actor {
        return Ok(());
    }
    let mut k: usize = 0;
    while k < ledgers.len()
        invariant
            k <= ledgers@.len(),
            request == Some(q),
            !q.deleted,
            q.owner_id != actor,
            forall|kk: int, i: int|
                0 <= kk < k && !ledgers@[kk].listing.deleted && ledgers@[kk].listing.owner_id == actor && 0 <= i
                    < ledgers@[kk].claims@.len() ==> (#[trigger] ledgers@[kk].claims@[i]).request_id != Some(q.id),
        decreases ledgers@.len() - k,
    {
        let l = &ledgers[k];
        if !l.listing.deleted && l.listing.owner_id == actor {
            let mut i: usize = 0;
            while i < l.claims.len()
                invariant
                    i <= l.claims@.len(),
                    k < ledgers@.len(),
                    *l == ledgers@[k as int],
                    !l.listing.deleted,
                    l.listing.owner_id == actor,
                    request == Some(q),
                    !q.deleted,
                    forall|j: int| 0 <= j < i ==> (#[trigger] l.claims@[j]).request_id != Some(q.id),
                decreases l.claims@.len() - i,
            {
                let linked = match l.claims[i].request_id {
                    Some(x) => x == q.id,
                    None => false,
                };
                if linked {
                    assert(ledgers@[k as int].claims@[i as int].request_id == Some(q.id));
                    assert(owns_listing_linked_to(ledgers@, q.id, actor));
                    return Ok(());
                }
                i = i + 1;
            }
        }
        k = k + 1;
    }
    Err(CoreError::Forbidden)
}

/// A claim of the listing at `ledger` in a list of ledgers, at position `claim`.
#[derive(Clone, Copy, Debug, PartialEq, Eq, Structural)]
pub struct ClaimRef {
    pub ledger: usize,
    pub claim: usize,
}

pub open spec fn ref_valid(ledgers: Seq<ListingLedger>, r: ClaimRef) -> bool {
    r.ledger < ledgers.len() && r.claim < ledgers[r.ledger as int].claims@.len()
}

pub open spec fn claim_at(ledgers: Seq<ListingLedger>, r: ClaimRef) -> ClaimRecord {
    ledgers[r.ledger as int].claims@[r.claim as int]
}

/// The claim is one the actor sees under the query: its listing is live, the actor is
/// its claimer or the listing's owner, and it passes the filters.
pub open spec fn claim_listed(ledgers: Seq<ListingLedger>, r: ClaimRef, actor: u128, q: ListClaimsQuery) -> bool {
    let l = ledgers[r.ledger as int].listing;
    let c = claim_at(ledgers, r);
    &&& ref_valid(ledgers, r)
    &&& !l.deleted
    &&& claim_visible(c, l.owner_id, actor)
    &&& claim_passes(c, q.status, q.request_id)
    &&& (q.listing_id is None || q.listing_id == Some(l.id))
}

/// `a` comes before `b`: claimed later, or at the same time with the larger id.
pub open spec fn listed_before(a: ClaimRecord, b: ClaimRecord) -> bool {
    a.claimed_at > b.claimed_at || (a.claimed_at == b.claimed_at && a.id > b.id)
}

/// Newest first: no entry comes before one that precedes it.
pub open spec fn newest_first(ledgers: Seq<ListingLedger>, s: Seq<ClaimRef>) -> bool {
    forall|x: int, y: int|
        0 <= x < y < s.len() ==> !listed_before(claim_at(ledgers, #[trigger] s[y]), claim_at(ledgers, #[trigger] s[x]))
}

/// One page of a claim listing.
#[derive(Debug)]
pub struct ClaimPage {
    pub items: Vec<ClaimRef>,
    pub limit: i64,
    pub offset: i64,
    pub has_more: bool,
    pub next_offset: Option<i64>,
}

/// The first ledger whose listing has this id, if any.
pub open spec fn listing_found(ledgers: Seq<ListingLedger>, id: u128, k: int) -> bool {
    0 <= k < ledgers.len() && ledgers[k].listing.id == id && forall|j: int| 0 <= j < k ==> (#[trigger] ledgers[j]).listing.id != id
}

pub open spec fn no_listing(ledgers: Seq<ListingLedger>, id: u128) -> bool {
    forall|j: int| 0 <= j < ledgers.len() ==> (#[trigger] ledgers[j]).listing.id != id
}

fn find_listing(ledgers: &Vec<ListingLedger>, id: u128) -> (r: Option<usize>)
    ensures
        match r {
            Some(k) => listing_found(ledgers@, id, k as int),
            None => no_listing(ledgers@, id),
        },
{
    let mut k: usize = 0;
    while k < ledgers.len()
        invariant
            k <= ledgers@.len(),
            forall|j: int| 0 <= j < k ==> (#[trigger] ledgers@[j]).listing.id != id,
        decreases ledgers@.len() - k,
    {
        if ledgers[k].listing.id == id {
            return Some(k);
        }
        k = k + 1;
    }
    None
}

/// Why a claim listing is refused, if it is: an unknown or foreign listing filter, then
/// an unknown or foreign request filter.
pub open spec fn spec_list_refusal(
    ledgers: Seq<ListingLedger>,
    actor: u128,
    q: ListClaimsQuery,
    request: Option<RequestRecord>,
) -> Option<CoreError> {
    let listing_err: Option<CoreError> = match q.listing_id {
        None => None,
        Some(id) => if no_listing(ledgers, id) {
            Some(CoreError::NotFound)
        } else {
            let k = choose|k: int| #[trigger] listing_found(ledgers, id, k);
            if ledgers[k].listing.deleted {
                Some(CoreError::NotFound)
            } else if ledgers[k].listing.owner_id == actor || has_claim_by(ledgers[k].claims@, actor) {
                None
            } else {
                Some(CoreError::Forbidden)
            }
        },
    };
    if listing_err is Some {
        listing_err
    } else if q.request_id is None {
        None
    } else {
        match request {
            None => Some(CoreError::NotFound),
            Some(rq) => if rq.deleted {
                Some(CoreError::NotFound)
            } else if rq.owner_id == actor || owns_listing_linked_to(ledgers, rq.id, actor) {
                None
            } else {
                Some(CoreError::Forbidden)
            },
        }
    }
}

proof fn lemma_listing_found_unique(ledgers: Seq<ListingLedger>, id: u128, a: int, b: int)
    requires
        listing_found(ledgers, id, a),
        listing_found(ledgers, id, b),
    ensures
        a == b,
{
    if a < b {
        assert(ledgers[a].listing.id != id);
    } else if b < a {
        assert(ledgers[b].listing.id != id);
    }
}

fn before_key(a: &ClaimRecord, b: &ClaimRecord) -> (r: bool)
    ensures
        r == listed_before(*a, *b),
{
    a.claimed_at > b.claimed_at || (a.claimed_at == b.claimed_at && a.id > b.id)
}

/// Entries of ledgers before `k`, or of ledger `k` before claim `i`, have been read.
pub open spec fn read_before(r: ClaimRef, k: int, i: int) -> bool {
    r.ledger < k || (r.ledger == k && r.claim < i)
}

/// Inserts `e` into a newest-first sequence, keeping it newest first.
fn insert_newest_first(ledgers: &Vec<ListingLedger>, out: &mut Vec<ClaimRef>, e: ClaimRef)
    requires
        ref_valid(ledgers@, e),
        forall|x: int| 0 <= x < old(out)@.len() ==> ref_valid(ledgers@, #[trigger] old(out)@[x]),
        newest_first(ledgers@, old(out)@),
        old(out)@.no_duplicates(),
        !old(out)@.contains(e),
    ensures
        newest_first(ledgers@, final(out)@),
        forall|x: int| 0 <= x < final(out)@.len() ==> ref_valid(ledgers@, #[trigger] final(out)@[x]),
        forall|x: ClaimRef| final(out)@.contains(x) <==> (old(out)@.contains(x) || x == e),
        final(out)@.no_duplicates(),
{
    let ghost s = out@;
    let ec = &ledgers[e.ledger].claims[e.claim];
    let mut p: usize = 0;
    while p < out.len() && !before_key(ec, &ledgers[out[p].ledger].claims[out[p].claim])
        invariant
            out@ == s,
            p <= s.len(),
            ref_valid(ledgers@, e),
            *ec == claim_at(ledgers@, e),
            forall|x: int| 0 <= x < s.len() ==> ref_valid(ledgers@, #[trigger] s[x]),
            forall|x: int| 0 <= x < p ==> !listed_before(claim_at(ledgers@, e), claim_at(ledgers@, #[trigger] s[x])),
        decreases s.len() - p,
    {
        p = p + 1;
    }
    assert(p < s.len() ==> listed_before(claim_at(ledgers@, e), claim_at(ledgers@, s[p as int])));
    out.insert(p, e);
    proof {
        let t = out@;
        assert(t =~= s.insert(p as int, e));
        assert forall|x: int, y: int| 0 <= x < y < t.len() implies !listed_before(
            claim_at(ledgers@, #[trigger] t[y]),
            claim_at(ledgers@, #[trigger] t[x]),
        ) by {
            if y < p {
                assert(t[x] == s[x] && t[y] == s[y]);
            } else if y == p {
                assert(t[x] == s[x]);
            } else if x < p {
                assert(t[x] == s[x] && t[y] == s[y - 1]);
            } else if x == p {
                assert(t[y] == s[y - 1]);
                if y - 1 > p {
                    assert(!listed_before(claim_at(ledgers@, s[y - 1]), claim_at(ledgers@, s[p as int])));
                }
            } else {
                assert(t[x] == s[x - 1] && t[y] == s[y - 1]);
            }
        }
        assert forall|x: int| 0 <= x < t.len() implies ref_valid(ledgers@, #[trigger] t[x]) by {
            if x < p {
                assert(t[x] == s[x]);
            } else if x > p {
                assert(t[x] == s[x - 1]);
            }
        }
        assert forall|v: ClaimRef| t.contains(v) <==> (s.contains(v) || v == e) by {
            if t.contains(v) {
                let x = choose|x: int| 0 <= x < t.len() && t[x] == v;
                if x < p {
                    assert(s[x] == v);
                } else if x > p {
                    assert(s[x - 1] == v);
                }
            }
            if s.contains(v) {
                let x = choose|x: int| 0 <= x < s.len() && s[x] == v;
                if x < p {
                    assert(t[x] == v);
                } else {
                    assert(t[x + 1] == v);
                }
            }
            if v == e {
                assert(t[p as int] == e);
            }
        }
        assert forall|x: int, y: int| 0 <= x < t.len() && 0 <= y < t.len() && x != y implies t[x] != t[y] by {
            if x == p {
                if y < p {
                    assert(s[y] == t[y]);
                    assert(s.contains(t[y]));
                } else {
                    assert(s[y - 1] == t[y]);
                    assert(s.contains(t[y]));
                }
            } else if y == p {
                if x < p {
                    assert(s[x] == t[x]);
                    assert(s.contains(t[x]));
                } else {
                    assert(s[x - 1] == t[x]);
                    assert(s.contains(t[x]));
                }
            } else {
                let sx = if x < p { x } else { x - 1 };
                let sy = if y < p { y } else { y - 1 };
                assert(t[x] == s[sx] && t[y] == s[sy]);
            }
        }
    }
}

/// The claims that `actor` sees under the query, newest first (by `claimed_at`, then id),
/// one page of them. A listing filter is open to the listing's owner and its claimers; a
/// request filter to the request's owner and the owners of listings with claims linked to
/// it. `request` is the row found under the request filter, if any.
pub fn list_claims(
    ledgers: &Vec<ListingLedger>,
    actor: u128,
    query: &ListClaimsQuery,
    request: Option<&RequestRecord>,
) -> (r: Result<ClaimPage, CoreError>)
    requires
        1 <= query.limit <= 100,
        query.offset >= 0,
        query.offset + query.limit <= i64::MAX,
        request is Some ==> query.request_id == Some(request->0.id),
    ensures
        match spec_list_refusal(
            ledgers@,
            actor,
            *query,
            match request {
                Some(q) => Some(*q),
                None => None,
            },
        ) {
            Some(e) => r matches Err(x) && x == e,
            None => r matches Ok(page) && exists|all: Seq<ClaimRef>|
                {
                    &&& newest_first(ledgers@, all)
                    &&& all.no_duplicates()
                    &&& forall|e: ClaimRef| all.contains(e) <==> claim_listed(ledgers@, e, actor, *query)
                    &&& page.items@ == all.subrange(
                        if query.offset >= all.len() {
                            all.len() as int
                        } else {
                            query.offset as int
                        },
                        if query.offset + query.limit >= all.len() {
                            all.len() as int
                        } else {
                            (query.offset + query.limit) as int
                        },
                    )
                    &&& page.has_more == (all.len() > query.offset + query.limit)
                    &&& page.next_offset == if page.has_more {
                        Some((query.offset + query.limit) as i64)
                    } else {
                        None
                    }
                    &&& page.limit == query.limit && page.offset == query.offset
                },
        },
{
    match query.listing_id {
        None => {},
        Some(id) => {
            match find_listing(ledgers, id) {
                None => return Err(CoreError::NotFound),
                Some(k) => {
                    proof {
                        let c = choose|c: int| #[trigger] listing_found(ledgers@, id, c);
                        lemma_listing_found_unique(ledgers@, id, c, k as int);
                    }
                    match ensure_listing_filter_access(&ledgers[k], actor) {
                        Ok(()) => {},
                        Err(e) => return Err(e),
                    }
                },
            }
        },
    }
    if query.request_id.is_some() {
        match ensure_request_filter_access(request, ledgers, actor) {
            Ok(()) => {},
            Err(e) => return Err(e),
        }
    }
    let mut all: Vec<ClaimRef> = Vec::new();
    let mut k: usize = 0;
    while k < ledgers.len()
        invariant
            k <= ledgers@.len(),
            newest_first(ledgers@, all@),
            forall|x: int| 0 <= x < all@.len() ==> ref_valid(ledgers@, #[trigger] all@[x]),
            all@.no_duplicates(),
            forall|e: ClaimRef| all@.contains(e) <==> (claim_listed(ledgers@, e, actor, *query) && read_before(e, k as int, 0)),
        decreases ledgers@.len() - k,
    {
        let l = &ledgers[k];
        let mut i: usize = 0;
        while i < l.claims.len()
            invariant
                k < ledgers@.len(),
                *l == ledgers@[k as int],
                i <= l.claims@.len(),
                newest_first(ledgers@, all@),
                forall|x: int| 0 <= x < all@.len() ==> ref_valid(ledgers@, #[trigger] all@[x]),
                all@.no_duplicates(),
                forall|e: ClaimRef|
                    all@.contains(e) <==> (claim_listed(ledgers@, e, actor, *query) && read_before(e, k as int, i as int)),
            decreases l.claims@.len() - i,
        {
            let c = &l.claims[i];
            let visible = !l.listing.deleted && (c.claimer_id == actor || l.listing.owner_id == actor);
            let status_ok = match query.status {
                None => true,
                Some(s) => s == c.status,
            };
            let request_ok = match query.request_id {
                None => true,
                Some(q) => match c.request_id {
                    Some(x) => x == q,
                    None => false,
                },
            };
            let listing_ok = match query.listing_id {
                None => true,
                Some(id) => id == l.listing.id,
            };
            let e = ClaimRef { ledger: k, claim: i };
            let ghost before = all@;
            if visible && status_ok && request_ok && listing_ok {
                assert(claim_listed(ledgers@, e, actor, *query));
                assert(!before.contains(e));
                insert_newest_first(ledgers, &mut all, e);
            } else {
                assert(!claim_listed(ledgers@, e, actor, *query));
            }
            i = i + 1;
        }
        k = k + 1;
    }
    let n = all.len();
    let limit = query.limit;
    let offset = query.offset;
    let start: usize = if offset as u128 >= n as u128 {
        n
    } else {
        offset as usize
    };
    let end: usize = if (offset as u128) + (limit as u128) >= n as u128 {
        n
    } else {
        (offset + limit) as usize
    };
    let mut items: Vec<ClaimRef> = Vec::new();
    let mut j: usize = start;
    while j < end
        invariant
            start <= j <= end,
            end <= all@.len(),
            items@ == all@.subrange(start as int, j as int),
        decreases end - j,
    {
        items.push(all[j]);
        j = j + 1;
        assert(items@ =~= all@.subrange(start as int, j as int));
    }
    let has_more = (n as u128) > (offset as u128) + (limit as u128);
    Ok(ClaimPage { items, limit, offset, has_more, next_offset: if has_more { Some(offset + limit) } else { None } })
}

} // verus!
