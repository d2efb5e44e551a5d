use vstd::prelude::*;

use crate::claim::{
    create_claim, spec_create_refusal, spec_stamped, spec_transition, transition_claim,
};
use crate::claim_laws::lemma_transition_keeps_timeline;
use crate::error::CoreError;
use crate::model::{
    claim_timeline_ok, inventory_in_range, stamps_not_after, status_matches_inventory, ClaimRecord,
    ListingRecord, RequestRecord,
};
use crate::status::{ClaimStatus, ListingStatus};
use crate::text::{normalized_text, opt_string_view, opt_view};

verus! {

/// The statement that updates a listing row. Shrinking `quantity_total` caps the
/// remaining inventory at the new total, and an unbounded listing takes the new total.
pub const UPDATE_LISTING_SQL: &'static str = "
            update surplus_listings
            set crop_id = $1,
                variety_id = $2,
                title = $3,
                unit = $4,
                quantity_total = $5,
                quantity_remaining = least(coalesce(quantity_remaining, $5), $5),
                available_start = $6,
                available_end = $7,
                status = $8::listing_status,
                pickup_location_text = $9,
                pickup_address = $10,
                effective_pickup_address = $11,
                pickup_disclosure_policy = $12::pickup_disclosure_policy,
                pickup_notes = $13,
                contact_pref = $14::contact_preference,
                geo_key = $15,
                lat = $16,
                lng = $17
            where id = $18
              and user_id = $19
              and deleted_at is null
            returning id
";

/// What a claim holds of the listing: its quantity once confirmed, and after completion.
pub open spec fn held(c: ClaimRecord) -> nat {
    if c.status == ClaimStatus::Confirmed || c.status == ClaimStatus::Completed {
        c.quantity_claimed as nat
    } else {
        0
    }
}

/// The quantity that the claims hold, over all of them.
pub open spec fn held_sum(s: Seq<ClaimRecord>) -> nat
    decreases s.len(),
{
    if s.len() == 0 {
        0
    } else {
        held_sum(s.drop_last()) + held(s.last())
    }
}

pub proof fn lemma_held_sum_push(s: Seq<ClaimRecord>, c: ClaimRecord)
    ensures
        held_sum(s.push(c)) == held_sum(s) + held(c),
{
    assert(s.push(c).drop_last() =~= s);
}

pub proof fn lemma_held_le_sum(s: Seq<ClaimRecord>, i: int)
    requires
        0 <= i < s.len(),
    ensures
        held(s[i]) <= held_sum(s),
    decreases s.len(),
{
    if i < s.len() - 1 {
        lemma_held_le_sum(s.drop_last(), i);
        assert(s.drop_last()[i] == s[i]);
    }
}

pub proof fn lemma_held_sum_update(s: Seq<ClaimRecord>, i: int, c: ClaimRecord)
    requires
        0 <= i < s.len(),
    ensures
        held_sum(s.update(i, c)) + held(s[i]) == held_sum(s) + held(c),
    decreases s.len(),
{
    if i == s.len() - 1 {
        assert(s.update(i, c).drop_last() =~= s.drop_last());
    } else {
        lemma_held_sum_update(s.drop_last(), i, c);
        assert(s.update(i, c).drop_last() =~= s.drop_last().update(i, c));
    }
}

/// On a bounded listing whose account holds, the claims that are confirmed or
/// completed hold no more than the listing's total, and the inventory stays in range.
pub proof fn lemma_held_within_total(ledger: &ListingLedger)
    requires
        ledger.account_ok(),
        ledger.listing.quantity_remaining is Some,
    ensures
        held_sum(ledger.claims@) <= ledger.listing.quantity_total,
        inventory_in_range(ledger.listing),
{
}

/// `LEAST(COALESCE(quantity_remaining, new_total), new_total)`.
pub open spec fn spec_capped_remaining(current: Option<u64>, new_total: u64) -> u64 {
    match current {
        Some(r) => if r < new_total {
            r
        } else {
            new_total
        },
        None => new_total,
    }
}

/// The remaining inventory after the total is set to `new_total`.
pub fn capped_remaining(current: Option<u64>, new_total: u64) -> (r: u64)
    ensures
        r == spec_capped_remaining(current, new_total),
        r <= new_total,
{
    match current {
        Some(r) => if r < new_total {
            r
        } else {
            new_total
        },
        None => new_total,
    }
}

/// The status a listing takes with `remaining` left: `claimed` when nothing is left;
/// otherwise the asked status, with `claimed` read as `active`.
pub open spec fn spec_status_for(asked: ListingStatus, remaining: u64) -> ListingStatus {
    if remaining == 0 {
        ListingStatus::Claimed
    } else if asked == ListingStatus::Claimed {
        ListingStatus::Active
    } else {
        asked
    }
}

pub fn status_for(asked: ListingStatus, remaining: u64) -> (r: ListingStatus)
    ensures
        r == spec_status_for(asked, remaining),
        (r == ListingStatus::Claimed) <==> (remaining == 0),
{
    if remaining == 0 {
        ListingStatus::Claimed
    } else if asked == ListingStatus::Claimed {
        ListingStatus::Active
    } else {
        asked
    }
}

/// Why a listing update is refused, if it is.
pub open spec fn spec_update_refusal(l: ListingRecord, actor: u128, new_total: u64) -> Option<CoreError> {
    if new_total == 0 {
        Some(CoreError::Validation)
    } else if l.deleted || l.owner_id != actor {
        Some(CoreError::NotFound)
    } else {
        None
    }
}

/// A listing together with every claim made against it: the unit that one
/// transaction locks.
pub struct ListingLedger {
    pub listing: ListingRecord,
    pub claims: Vec<ClaimRecord>,
}

impl ListingLedger {
    /// Every claim belongs to the listing, asks for a positive quantity, has stamps that
    /// follow its status in order, and has its own id.
    pub open spec fn wf(&self) -> bool {
        &&& forall|i: int|
            0 <= i < self.claims@.len() ==> (#[trigger] self.claims@[i]).listing_id == self.listing.id
                && self.claims@[i].quantity_claimed > 0 && claim_timeline_ok(&self.claims@[i])
        &&& forall|i: int, j: int|
            0 <= i < j < self.claims@.len() ==> (#[trigger] self.claims@[i]).id != (#[trigger] self.claims@[j]).id
    }

    /// On a bounded listing, what is left plus what the claims hold stays within the total.
    pub open spec fn account_ok(&self) -> bool {
        match self.listing.quantity_remaining {
            Some(r) => r + held_sum(self.claims@) <= self.listing.quantity_total,
            None => true,
        }
    }

    /// A ledger for a listing with no claims yet.
    pub fn new(listing: ListingRecord) -> (r: Self)
        ensures
            r.wf(),
            r.listing == listing,
            r.claims@.len() == 0,
            inventory_in_range(listing) ==> r.account_ok(),
    {
        ListingLedger { listing, claims: Vec::new() }
    }

    /// The position of the claim with this id, if there is one.
    pub fn find_claim(&self, claim_id: u128) -> (r: Option<usize>)
        ensures
            match r {
                Some(i) => i < self.claims@.len() && self.claims@[i as int].id == claim_id,
                None => forall|i: int| 0 <= i < self.claims@.len() ==> (#[trigger] self.claims@[i]).id != claim_id,
            },
    {
        let mut i: usize = 0;
        while i < self.claims.len()
            invariant
                i <= self.claims@.len(),
                forall|j: int| 0 <= j < i ==> (#[trigger] self.claims@[j]).id != claim_id,
            decreases self.claims@.len() - i,
        {
            if self.claims[i].id == claim_id {
                return Some(i);
            }
            i = i + 1;
        }
        None
    }

    /// Opens a pending claim against the listing; see `create_claim`. An id already in
    /// use is a conflict.
    pub fn open_claim(
        &mut self,
        claim_id: u128,
        claimer_id: u128,
        request_id: Option<u128>,
        request: Option<&RequestRecord>,
        quantity_claimed: u64,
        notes: Option<&str>,
        now: i64,
    ) -> (r: Result<(), CoreError>)
        requires
            old(self).wf(),
            request is Some ==> request_id == Some(request->0.id),
        ensures
            final(self).wf(),
            final(self).listing == old(self).listing,
            old(self).account_ok() ==> final(self).account_ok(),
            (exists|i: int| 0 <= i < old(self).claims@.len() && (#[trigger] old(self).claims@[i]).id == claim_id)
                ==> r == Err::<(), CoreError>(CoreError::Conflict) && final(self).claims@ == old(self).claims@,
            (forall|i: int| 0 <= i < old(self).claims@.len() ==> (#[trigger] old(self).claims@[i]).id != claim_id)
                ==> match spec_create_refusal(
                old(self).listing,
                request_id,
                match request {
                    Some(q) => Some(*q),
                    None => None,
                },
                claimer_id,
                quantity_claimed,
            ) {
                Some(e) => r == Err::<(), CoreError>(e) && final(self).claims@ == old(self).claims@,
                None => r is Ok && final(self).claims@.len() == old(self).claims@.len() + 1
                    && final(self).claims@.drop_last() == old(self).claims@ && ({
                    let c = final(self).claims@.last();
                    &&& c.id == claim_id
                    &&& c.claimer_id == claimer_id
                    &&& c.request_id == request_id
                    &&& c.quantity_claimed == quantity_claimed
                    &&& c.status == ClaimStatus::Pending
                    &&& opt_string_view(c.notes) == normalized_text(opt_view(notes))
                    &&& c.claimed_at == now
                    &&& c.confirmed_at is None && c.completed_at is None && c.cancelled_at is None
                }),
            },
    {
        match self.find_claim(claim_id) {
            Some(_) => {
                return Err(CoreError::Conflict);
            },
            None => {},
        }
        let c = match create_claim(
            claim_id,
            claimer_id,
            &self.listing,
            request_id,
            request,
            quantity_claimed,
            notes,
            now,
        ) {
            Ok(c) => c,
            Err(e) => return Err(e),
        };
        let ghost before = self.claims@;
        proof {
            lemma_held_sum_push(before, c);
        }
        self.claims.push(c);
        proof {
            assert(self.claims@.drop_last() =~= before);
            assert forall|i: int, j: int|
                0 <= i < j < self.claims@.len() implies (#[trigger] self.claims@[i]).id != (#[trigger] self.claims@[j]).id by {
                if j < before.len() {
                    assert(self.claims@[i] == before[i]);
                    assert(self.claims@[j] == before[j]);
                } else {
                    assert(self.claims@[i] == before[i]);
                }
            }
        }
        Ok(())
    }

    /// Moves the claim at `index` to `target` for `actor`; see `transition_claim`.
    /// On failure nothing changes. `now` is read from a clock that is not behind the
    /// claim's stamps, so stamps keep following the status in order.
    pub fn transition(
        &mut self,
        index: usize,
        actor_user_id: u128,
        target_status: ClaimStatus,
        notes: Option<String>,
        now: i64,
    ) -> (r: Result<(), CoreError>)
        requires
            old(self).wf(),
            index < old(self).claims@.len(),
            stamps_not_after(&old(self).claims@[index as int], now),
        ensures
            final(self).wf(),
            final(self).claims@.len() == old(self).claims@.len(),
            match spec_transition(&old(self).claims@[index as int], old(self).listing, actor_user_id, target_status) {
                Ok((d, l)) => r is Ok && final(self).listing == l && final(self).claims@ == old(
                    self,
                ).claims@.update(
                    index as int,
                    spec_stamped(&old(self).claims@[index as int], d, target_status, notes, now),
                ),
                Err(e) => r == Err::<(), CoreError>(e) && final(self).listing == old(self).listing
                    && final(self).claims@ == old(self).claims@,
            },
            old(self).account_ok() ==> final(self).account_ok(),
            status_matches_inventory(old(self).listing) && inventory_in_range(old(self).listing)
                && old(self).listing.quantity_total > 0 ==> status_matches_inventory(final(self).listing),
            inventory_in_range(old(self).listing) ==> inventory_in_range(final(self).listing),
    {
        let ghost before = self.claims@;
        let ghost old_listing = self.listing;
        let mut c = self.claims.remove(index);
        proof {
            assert(c == before[index as int]);
            lemma_held_le_sum(before, index as int);
        }
        proof {
            lemma_transition_keeps_timeline(&c, self.listing, actor_user_id, target_status, notes, now);
        }
        let r = transition_claim(&mut c, &mut self.listing, actor_user_id, target_status, notes, now);
        proof {
            lemma_held_sum_update(before, index as int, c);
        }
        self.claims.insert(index, c);
        proof {
            assert(self.claims@ =~= before.update(index as int, c));
            assert forall|i: int|
                0 <= i < self.claims@.len() implies (#[trigger] self.claims@[i]).listing_id == self.listing.id
                && self.claims@[i].quantity_claimed > 0 && claim_timeline_ok(&self.claims@[i]) by {
                if i != index {
                    assert(self.claims@[i] == before[i]);
                }
            }
            assert forall|i: int, j: int|
                0 <= i < j < self.claims@.len() implies (#[trigger] self.claims@[i]).id != (#[trigger] self.claims@[j]).id by {
                assert(i != index ==> self.claims@[i] == before[i]);
                assert(j != index ==> self.claims@[j] == before[j]);
            }
            if r is Err {
                assert(self.claims@ =~= before);
            }
        }
        r
    }

    /// The owner sets a new total and status on a live listing; remaining inventory is
    /// capped at the new total, and the status is kept in step with it (see `status_for`). A total of zero is invalid; a deleted listing, or one of
    /// another owner, is not found.
    pub fn update_listing(&mut self, actor_user_id: u128, new_total: u64, new_status: ListingStatus) -> (r: Result<
        (),
        CoreError,
    >)
        requires
            old(self).wf(),
        ensures
            final(self).wf(),
            final(self).claims@ == old(self).claims@,
            match spec_update_refusal(old(self).listing, actor_user_id, new_total) {
                Some(e) => r == Err::<(), CoreError>(e) && *final(self) == *old(self),
                None => r is Ok && final(self).listing == (ListingRecord {
                    quantity_total: new_total,
                    quantity_remaining: Some(spec_capped_remaining(old(self).listing.quantity_remaining, new_total)),
                    status: spec_status_for(
                        new_status,
                        spec_capped_remaining(old(self).listing.quantity_remaining, new_total),
                    ),
                    ..old(self).listing
                }),
            },
            r is Ok ==> inventory_in_range(final(self).listing) && status_matches_inventory(final(self).listing),
    {
        if new_total == 0 {
            return Err(CoreError::Validation);
        }
        if self.listing.deleted || self.listing.owner_id != actor_user_id {
            return Err(CoreError::NotFound);
        }
        let remaining = capped_remaining(self.listing.quantity_remaining, new_total);
        self.listing.quantity_total = new_total;
        self.listing.quantity_remaining = Some(remaining);
        self.listing.status = status_for(new_status, remaining);
        Ok(())
    }
}

} // verus!
