use vstd::prelude::*;

use crate::error::CoreError;
use crate::ledger::{spec_status_for, status_for};
use crate::model::{inventory_in_range, status_matches_inventory, ListingRecord};
use crate::status::{listing_status_name, parse_listing_status, ListingStatus, RequestStatus, parse_request_status};
use crate::text::{is_blank, str_eq, trimmed};
use vstd::string::StringSliceAdditionalSpecFns;

verus! {

/// The SHA-256 digest of a byte string.
pub uninterp spec fn sha256_of(data: Seq<u8>) -> Seq<u8>;

/// Relies on `sha2::Sha256::digest`: the SHA-256 digest of the input, 32 bytes long.
#[verifier::external_body]
fn sha256(data: &[u8]) -> (r: Vec<u8>)
    ensures
        r@ == sha256_of(data@),
        r@.len() == 32,
{
    <sha2::Sha256 as sha2::Digest>::digest(data).to_vec()
}

/// The big-endian bytes of a 128-bit identifier.
pub open spec fn id_bytes(id: u128) -> Seq<u8> {
    Seq::new(16, |i: int| (id >> ((120 - 8 * i) as u128)) as u8)
}

/// The number that a big-endian byte string spells.
pub open spec fn be_value(s: Seq<u8>) -> nat
    decreases s.len(),
{
    if s.len() == 0 {
        0
    } else {
        be_value(s.drop_last()) * 256 + s.last() as nat
    }
}

pub open spec fn pow256(n: nat) -> nat
    decreases n,
{
    if n == 0 {
        1
    } else {
        256 * pow256((n - 1) as nat)
    }
}

proof fn lemma_be_value_bound(s: Seq<u8>)
    ensures
        be_value(s) < pow256(s.len()),
    decreases s.len(),
{
    if s.len() > 0 {
        lemma_be_value_bound(s.drop_last());
        let a = be_value(s.drop_last());
        let p = pow256((s.len() - 1) as nat);
        assert(a * 256 + (s.last() as nat) < 256 * p) by (nonlinear_arith)
            requires
                a < p,
                s.last() < 256,
        ;
    }
}

proof fn lemma_pow256_mono(a: nat, b: nat)
    requires
        a <= b,
    ensures
        pow256(a) <= pow256(b),
    decreases b,
{
    if a < b {
        lemma_pow256_mono(a, (b - 1) as nat);
    }
}

/// The 16 leading digest bytes with the version nibble set to 4 and the variant bits to `10`.
pub open spec fn uuid_v4_bytes(digest: Seq<u8>) -> Seq<u8> {
    digest.subrange(0, 16).update(6, (digest[6] & 0x0f) | 0x40).update(8, (digest[8] & 0x3f) | 0x80)
}

/// The listing id that an owner's idempotency key names:
/// SHA-256(owner id bytes ∥ ":" ∥ key bytes), cut to 16 bytes, shaped as a UUID v4.
pub open spec fn spec_listing_id(owner_id: u128, key_bytes: Seq<u8>) -> u128 {
    be_value(uuid_v4_bytes(sha256_of(id_bytes(owner_id) + seq![58u8] + key_bytes))) as u128
}

/// The bytes of an identifier, most significant first.
pub fn to_id_bytes(id: u128) -> (r: Vec<u8>)
    ensures
        r@ == id_bytes(id),
{
    let mut out: Vec<u8> = Vec::new();
    let mut i: usize = 0;
    while i < 16
        invariant
            i <= 16,
            out@ == id_bytes(id).take(i as int),
        decreases 16 - i,
    {
        let shift: u128 = (120 - 8 * i) as u128;
        out.push((id >> shift) as u8);
        i = i + 1;
        assert(out@ =~= id_bytes(id).take(i as int));
    }
    assert(out@ =~= id_bytes(id));
    out
}

/// The identifier that 16 big-endian bytes spell.
pub fn from_id_bytes(b: &Vec<u8>) -> (r: u128)
    requires
        b@.len() == 16,
    ensures
        r as nat == be_value(b@),
{
    let mut acc: u128 = 0;
    let mut i: usize = 0;
    while i < 16
        invariant
            i <= 16,
            b@.len() == 16,
            acc as nat == be_value(b@.take(i as int)),
        decreases 16 - i,
    {
        proof {
            lemma_be_value_bound(b@.take(i as int));
            lemma_pow256_mono((i + 1) as nat, 16);
            reveal_with_fuel(pow256, 17);
            assert(b@.take(i + 1).drop_last() =~= b@.take(i as int));
            let a = acc as nat;
            let p = pow256(i as nat);
            assert(a * 256 + (b@[i as int] as nat) < 256 * p) by (nonlinear_arith)
                requires
                    a < p,
                    b@[i as int] < 256,
            ;
        }
        acc = acc * 256 + b[i] as u128;
        i = i + 1;
    }
    assert(b@.take(16) =~= b@);
    acc
}

/// Derives the listing id for an owner and an idempotency key, so that a client can
/// compute it offline and a repeated create lands on the same row.
pub fn derive_deterministic_listing_id(user_id: u128, idempotency_key: &str) -> (r: u128)
    ensures
        r == spec_listing_id(user_id, idempotency_key.spec_bytes()),
{
    let mut input = to_id_bytes(user_id);
    input.push(58u8);
    let key = idempotency_key.as_bytes();
    let mut i: usize = 0;
    let ghost head = id_bytes(user_id) + seq![58u8];
    assert(input@ =~= head);
    while i < key.len()
        invariant
            i <= key@.len(),
            key@ == idempotency_key.spec_bytes(),
            input@ == head + key@.take(i as int),
        decreases key@.len() - i,
    {
        input.push(key[i]);
        i = i + 1;
        assert(input@ =~= head + key@.take(i as int));
    }
    assert(key@.take(i as int) =~= key@);
    let digest = sha256(input.as_slice());
    let mut bytes: Vec<u8> = Vec::new();
    let mut j: usize = 0;
    while j < 16
        invariant
            j <= 16,
            digest@.len() == 32,
            bytes@ == digest@.take(j as int),
        decreases 16 - j,
    {
        bytes.push(digest[j]);
        j = j + 1;
        assert(bytes@ =~= digest@.take(j as int));
    }
    let b6 = (bytes[6] & 0x0f) | 0x40;
    bytes.set(6, b6);
    let b8 = (bytes[8] & 0x3f) | 0x80;
    bytes.set(8, b8);
    assert(bytes@ =~= uuid_v4_bytes(digest@));
    from_id_bytes(&bytes)
}

/// When the pickup address is disclosed to a gatherer.
#[derive(Clone, Copy, Debug, PartialEq, Eq, Structural)]
pub enum PickupDisclosurePolicy {
    Immediate,
    AfterConfirmed,
    AfterAccepted,
}

pub open spec fn policy_name(p: PickupDisclosurePolicy) -> Seq<char> {
    match p {
        PickupDisclosurePolicy::Immediate => "immediate"@,
        PickupDisclosurePolicy::AfterConfirmed => "after_confirmed"@,
        PickupDisclosurePolicy::AfterAccepted => "after_accepted"@,
    }
}

/// Reads a disclosure policy; none given means `after_confirmed`.
pub fn parse_pickup_disclosure_policy(value: Option<&str>) -> (r: Result<PickupDisclosurePolicy, CoreError>)
    ensures
        match value {
            None => r == Ok::<PickupDisclosurePolicy, CoreError>(PickupDisclosurePolicy::AfterConfirmed),
            Some(v) => match r {
                Ok(p) => v@ == policy_name(p),
                Err(e) => e == CoreError::Validation && forall|p: PickupDisclosurePolicy|
                    v@ != #[trigger] policy_name(p),
            },
        },
{
    match value {
        None => Ok(PickupDisclosurePolicy::AfterConfirmed),
        Some(v) => {
            if str_eq(v, "immediate") {
                Ok(PickupDisclosurePolicy::Immediate)
            } else if str_eq(v, "after_confirmed") {
                Ok(PickupDisclosurePolicy::AfterConfirmed)
            } else if str_eq(v, "after_accepted") {
                Ok(PickupDisclosurePolicy::AfterAccepted)
            } else {
                assert forall|p: PickupDisclosurePolicy| v@ != #[trigger] policy_name(p) by {
                    match p {
                        PickupDisclosurePolicy::Immediate => {},
                        PickupDisclosurePolicy::AfterConfirmed => {},
                        PickupDisclosurePolicy::AfterAccepted => {},
                    }
                }
                Err(CoreError::Validation)
            }
        },
    }
}

/// How a gatherer should reach the grower.
#[derive(Clone, Copy, Debug, PartialEq, Eq, Structural)]
pub enum ContactPreference {
    AppMessage,
    Phone,
    Knock,
}

pub open spec fn contact_name(c: ContactPreference) -> Seq<char> {
    match c {
        ContactPreference::AppMessage => "app_message"@,
        ContactPreference::Phone => "phone"@,
        ContactPreference::Knock => "knock"@,
    }
}

/// Reads a contact preference; none given means `app_message`.
pub fn parse_contact_preference(value: Option<&str>) -> (r: Result<ContactPreference, CoreError>)
    ensures
        match value {
            None => r == Ok::<ContactPreference, CoreError>(ContactPreference::AppMessage),
            Some(v) => match r {
                Ok(c) => v@ == contact_name(c),
                Err(e) => e == CoreError::Validation && forall|c: ContactPreference| v@ != #[trigger] contact_name(c),
            },
        },
{
    match value {
        None => Ok(ContactPreference::AppMessage),
        Some(v) => {
            if str_eq(v, "app_message") {
                Ok(ContactPreference::AppMessage)
            } else if str_eq(v, "phone") {
                Ok(ContactPreference::Phone)
            } else if str_eq(v, "knock") {
                Ok(ContactPreference::Knock)
            } else {
                assert forall|c: ContactPreference| v@ != #[trigger] contact_name(c) by {
                    match c {
                        ContactPreference::AppMessage => {},
                        ContactPreference::Phone => {},
                        ContactPreference::Knock => {},
                    }
                }
                Err(CoreError::Validation)
            }
        },
    }
}

/// The validated, typed fields of a listing write.
#[derive(Clone, Copy, Debug, PartialEq, Eq, Structural)]
pub struct ListingTerms {
    pub quantity_total: u64,
    pub available_start: i64,
    pub available_end: i64,
    pub pickup_disclosure_policy: PickupDisclosurePolicy,
    pub contact_pref: ContactPreference,
    pub status: ListingStatus,
}

/// Why a listing write is refused, if it is: a blank title or unit, a quantity of zero,
/// a window that ends before it starts, or an unknown policy, contact preference or status.
pub open spec fn listing_write_valid(
    title: Seq<char>,
    unit: Seq<char>,
    quantity_total: u64,
    available_start: i64,
    available_end: i64,
) -> bool {
    trimmed(title).len() > 0 && trimmed(unit).len() > 0 && quantity_total > 0 && available_start
        <= available_end
}

/// Validates a listing write. Times are seconds since the epoch; the status defaults to
/// `active`, the policy to `after_confirmed` and the contact preference to `app_message`.
pub fn normalize_listing_payload(
    title: &str,
    unit: &str,
    quantity_total: u64,
    available_start: i64,
    available_end: i64,
    pickup_disclosure_policy: Option<&str>,
    contact_pref: Option<&str>,
    status: Option<&str>,
) -> (r: Result<ListingTerms, CoreError>)
    ensures
        !listing_write_valid(title@, unit@, quantity_total, available_start, available_end) ==> r
            == Err::<ListingTerms, CoreError>(CoreError::Validation),
        match r {
            Ok(t) => listing_write_valid(title@, unit@, quantity_total, available_start, available_end)
                && t.quantity_total == quantity_total && t.available_start == available_start
                && t.available_end == available_end && match pickup_disclosure_policy {
                None => t.pickup_disclosure_policy == PickupDisclosurePolicy::AfterConfirmed,
                Some(v) => v@ == policy_name(t.pickup_disclosure_policy),
            } && match contact_pref {
                None => t.contact_pref == ContactPreference::AppMessage,
                Some(v) => v@ == contact_name(t.contact_pref),
            } && match status {
                None => t.status == ListingStatus::Active,
                Some(v) => v@ == listing_status_name(t.status),
            },
            Err(e) => e == CoreError::Validation && (!listing_write_valid(
                title@,
                unit@,
                quantity_total,
                available_start,
                available_end,
            ) || (pickup_disclosure_policy is Some && forall|p: PickupDisclosurePolicy|
                pickup_disclosure_policy->0@ != #[trigger] policy_name(p)) || (contact_pref is Some
                && forall|c: ContactPreference| contact_pref->0@ != #[trigger] contact_name(c)) || (
            status is Some && forall|s: ListingStatus| status->0@ != #[trigger] listing_status_name(s))),
        },
{
    if is_blank(title) {
        return Err(CoreError::Validation);
    }
    if is_blank(unit) {
        return Err(CoreError::Validation);
    }
    if quantity_total == 0 {
        return Err(CoreError::Validation);
    }
    if available_start > available_end {
        return Err(CoreError::Validation);
    }
    let policy = match parse_pickup_disclosure_policy(pickup_disclosure_policy) {
        Ok(p) => p,
        Err(e) => return Err(e),
    };
    let contact = match parse_contact_preference(contact_pref) {
        Ok(c) => c,
        Err(e) => return Err(e),
    };
    let st = match status {
        None => ListingStatus::Active,
        Some(v) => match parse_listing_status(v) {
            Ok(s) => s,
            Err(e) => return Err(e),
        },
    };
    Ok(
        ListingTerms {
            quantity_total,
            available_start,
            available_end,
            pickup_disclosure_policy: policy,
            contact_pref: contact,
            status: st,
        },
    )
}

/// Seconds in the 365-day horizon of a request's `needed_by`.
pub const REQUEST_HORIZON_SECONDS: i64 = 365 * 86_400;

/// Validates a request write: a positive quantity, `now <= needed_by <= now + 365 days`,
/// and a known status (`open` when none is given).
pub fn validate_request_terms(quantity: u64, needed_by: i64, now: i64, status: Option<&str>) -> (r: Result<
    RequestStatus,
    CoreError,
>)
    requires
        now + 365 * 86_400 <= i64::MAX,
    ensures
        (quantity == 0 || needed_by < now || needed_by > now + 365 * 86_400) ==> r == Err::<
            RequestStatus,
            CoreError,
        >(CoreError::Validation),
        r matches Ok(s) ==> quantity > 0 && now <= needed_by <= now + 365 * 86_400 && match status {
            None => s == RequestStatus::Open,
            Some(v) => v@ == crate::status::request_status_name(s),
        },
        (quantity > 0 && now <= needed_by <= now + 365 * 86_400 && status is None) ==> r == Ok::<
            RequestStatus,
            CoreError,
        >(RequestStatus::Open),
        r matches Err(e) ==> e == CoreError::Validation && (quantity == 0 || needed_by < now || needed_by > now
            + 365 * 86_400 || (status is Some && forall|s: RequestStatus|
            status->0@ != #[trigger] crate::status::request_status_name(s))),
{
    if quantity == 0 {
        return Err(CoreError::Validation);
    }
    if needed_by < now {
        return Err(CoreError::Validation);
    }
    if needed_by > now + REQUEST_HORIZON_SECONDS {
        return Err(CoreError::Validation);
    }
    match status {
        None => Ok(RequestStatus::Open),
        Some(v) => parse_request_status(v),
    }
}

/// A fresh listing row: all of its quantity is still available, and its status is kept
/// in step with that (see `spec_status_for`).
pub open spec fn spec_new_listing(id: u128, owner_id: u128, crop_id: u128, terms: ListingTerms) -> ListingRecord {
    ListingRecord {
        id,
        owner_id,
        crop_id,
        quantity_total: terms.quantity_total,
        quantity_remaining: Some(terms.quantity_total),
        status: spec_status_for(terms.status, terms.quantity_total),
        deleted: false,
    }
}

/// The row a create inserts for validated terms: all of its quantity is still available.
pub fn new_listing_record(id: u128, owner_id: u128, crop_id: u128, terms: &ListingTerms) -> (r: ListingRecord)
    ensures
        r == spec_new_listing(id, owner_id, crop_id, *terms),
        inventory_in_range(r),
        status_matches_inventory(r),
{
    ListingRecord {
        id,
        owner_id,
        crop_id,
        quantity_total: terms.quantity_total,
        quantity_remaining: Some(terms.quantity_total),
        status: status_for(terms.status, terms.quantity_total),
        deleted: false,
    }
}

/// The listing rows, keyed by id.
pub struct ListingStore {
    pub listings: Vec<ListingRecord>,
}

/// The position of the row with this id, if any (the last one, were there several).
pub open spec fn listing_index(s: Seq<ListingRecord>, id: u128) -> int
    decreases s.len(),
{
    if s.len() == 0 {
        -1
    } else if s.last().id == id {
        s.len() - 1
    } else {
        listing_index(s.drop_last(), id)
    }
}

proof fn lemma_listing_index(s: Seq<ListingRecord>, id: u128, i: int)
    requires
        -1 <= i < s.len(),
        i >= 0 ==> s[i].id == id,
        forall|j: int| i < j < s.len() ==> (#[trigger] s[j]).id != id,
    ensures
        listing_index(s, id) == i,
    decreases s.len(),
{
    if s.len() > 0 && i < s.len() - 1 {
        assert(s[s.len() - 1].id != id);
        assert forall|j: int| i < j < s.len() - 1 implies (#[trigger] s.drop_last()[j]).id != id by {
            assert(s.drop_last()[j] == s[j]);
        }
        lemma_listing_index(s.drop_last(), id, i);
    }
}

/// What a create does to the store: insert; replay the live row of the same owner;
/// answer `NotFound` for the same owner's soft-deleted row (it does not exist for reads
/// and writes, and its id stays taken); refuse a key that names another owner's row.
pub open spec fn spec_create(s: Seq<ListingRecord>, row: ListingRecord) -> (Seq<ListingRecord>, Result<
    (ListingRecord, bool),
    CoreError,
>) {
    let i = listing_index(s, row.id);
    if i < 0 {
        (s.push(row), Ok((row, false)))
    } else if s[i].owner_id != row.owner_id {
        (s, Err(CoreError::IdempotencyConflict))
    } else if s[i].deleted {
        (s, Err(CoreError::NotFound))
    } else {
        (s, Ok((s[i], true)))
    }
}

impl ListingStore {
    pub fn new() -> (r: Self)
        ensures
            r.listings@.len() == 0,
    {
        ListingStore { listings: Vec::new() }
    }

    /// Inserts `row` unless its id is taken (insert, on conflict do nothing). When the
    /// id is taken by a live row of the same owner that row comes back, marked as a
    /// replay (`true`); the same owner's soft-deleted row is not found; a row of another
    /// owner is a conflict.
    pub fn insert_or_replay(&mut self, row: ListingRecord) -> (r: Result<(ListingRecord, bool), CoreError>)
        ensures
            (final(self).listings@, r) == spec_create(old(self).listings@, row),
    {
        let ghost s = self.listings@;
        let mut i: usize = self.listings.len();
        while i > 0
            invariant
                self.listings@ == s,
                s == old(self).listings@,
                i <= s.len(),
                forall|j: int| i <= j < s.len() ==> (#[trigger] s[j]).id != row.id,
            decreases i,
        {
            let existing = self.listings[i - 1];
            if existing.id == row.id {
                proof {
                    lemma_listing_index(s, row.id, i - 1);
                }
                if existing.owner_id != row.owner_id {
                    return Err(CoreError::IdempotencyConflict);
                }
                if existing.deleted {
                    return Err(CoreError::NotFound);
                }
                return Ok((existing, true));
            }
            i = i - 1;
        }
        proof {
            lemma_listing_index(s, row.id, -1);
        }
        self.listings.push(row);
        Ok((row, false))
    }
}

/// Creating twice with the same idempotency key by the same owner changes nothing after
/// the first create and answers with the same row, whatever the second payload says.
pub proof fn lemma_create_is_idempotent(
    store: Seq<ListingRecord>,
    owner_id: u128,
    key_bytes: Seq<u8>,
    crop_id: u128,
    first: ListingTerms,
    second_crop_id: u128,
    second: ListingTerms,
)
    ensures
        ({
            let id = spec_listing_id(owner_id, key_bytes);
            let (s1, r1) = spec_create(store, spec_new_listing(id, owner_id, crop_id, first));
            let (s2, r2) = spec_create(s1, spec_new_listing(id, owner_id, second_crop_id, second));
            r1 is Ok ==> s2 == s1 && r2 is Ok && r2->Ok_0.0 == r1->Ok_0.0 && r2->Ok_0.1
        }),
{
    let id = spec_listing_id(owner_id, key_bytes);
    let row1 = spec_new_listing(id, owner_id, crop_id, first);
    let (s1, r1) = spec_create(store, row1);
    if r1 is Ok && listing_index(store, id) < 0 {
        lemma_listing_index(s1, id, store.len() as int);
    }
}

} // verus!
