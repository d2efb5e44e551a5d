use vstd::prelude::*;

use crate::geo::{geo_prefixes, normalized_geo_key, spec_geo_prefixes};
use crate::signals::{
    compute_bucket_start, recompute_signal, spec_bucket_start, spec_retention_days, spec_signal_row,
    time_in_range, window_of, DemandRow, DerivedSignalRow, GeoScope, SupplyRow,
};

verus! {

/// The key a derived-signal row is upserted under.
pub open spec fn row_key(r: DerivedSignalRow) -> (u32, Seq<char>, Option<u128>, u32, i64) {
    (r.schema_version, r.geo_boundary_key@, r.crop_scope_id, r.window_days, r.bucket_start)
}

/// The last position of a row with key `k`, or -1.
pub open spec fn key_index(t: Seq<DerivedSignalRow>, k: (u32, Seq<char>, Option<u128>, u32, i64)) -> int
    decreases t.len(),
{
    if t.len() == 0 {
        -1
    } else if row_key(t.last()) == k {
        t.len() - 1
    } else {
        key_index(t.drop_last(), k)
    }
}

/// Insert-or-replace by key.
pub open spec fn spec_upsert(t: Seq<DerivedSignalRow>, r: DerivedSignalRow) -> Seq<DerivedSignalRow> {
    let i = key_index(t, row_key(r));
    if i >= 0 {
        t.update(i, r)
    } else {
        t.push(r)
    }
}

/// Upserting `rows` one after another, first to last.
pub open spec fn upsert_all(t: Seq<DerivedSignalRow>, rows: Seq<DerivedSignalRow>) -> Seq<DerivedSignalRow>
    decreases rows.len(),
{
    if rows.len() == 0 {
        t
    } else {
        spec_upsert(upsert_all(t, rows.drop_last()), rows.last())
    }
}

/// The table holds `r` under its key.
pub open spec fn holds_row(t: Seq<DerivedSignalRow>, r: DerivedSignalRow) -> bool {
    let i = key_index(t, row_key(r));
    0 <= i < t.len() && t[i] == r
}

pub open spec fn keys_distinct(rows: Seq<DerivedSignalRow>) -> bool {
    forall|i: int, j: int| 0 <= i < j < rows.len() ==> row_key(#[trigger] rows[i]) != row_key(#[trigger] rows[j])
}

proof fn lemma_key_index_facts(t: Seq<DerivedSignalRow>, k: (u32, Seq<char>, Option<u128>, u32, i64))
    ensures
        -1 <= key_index(t, k) < t.len(),
        key_index(t, k) >= 0 ==> row_key(t[key_index(t, k)]) == k,
        forall|j: int| key_index(t, k) < j < t.len() ==> row_key(#[trigger] t[j]) != k,
    decreases t.len(),
{
    if t.len() > 0 && row_key(t.last()) != k {
        lemma_key_index_facts(t.drop_last(), k);
        assert forall|j: int| key_index(t, k) < j < t.len() implies row_key(#[trigger] t[j]) != k by {
            if j < t.len() - 1 {
                assert(t[j] == t.drop_last()[j]);
            }
        }
    }
}

proof fn lemma_key_index_is(t: Seq<DerivedSignalRow>, k: (u32, Seq<char>, Option<u128>, u32, i64), i: int)
    requires
        -1 <= i < t.len(),
        i >= 0 ==> row_key(t[i]) == k,
        forall|j: int| i < j < t.len() ==> row_key(#[trigger] t[j]) != k,
    ensures
        key_index(t, k) == i,
    decreases t.len(),
{
    if t.len() > 0 && i < t.len() - 1 {
        assert(row_key(t[t.len() - 1]) != k);
        assert forall|j: int| i < j < t.len() - 1 implies row_key(#[trigger] t.drop_last()[j]) != k by {
            assert(t.drop_last()[j] == t[j]);
        }
        lemma_key_index_is(t.drop_last(), k, i);
    }
}

/// After an upsert the table holds the row.
pub proof fn lemma_upsert_holds(t: Seq<DerivedSignalRow>, r: DerivedSignalRow)
    ensures
        holds_row(spec_upsert(t, r), r),
{
    let k = row_key(r);
    lemma_key_index_facts(t, k);
    let i = key_index(t, k);
    let u = spec_upsert(t, r);
    if i >= 0 {
        assert forall|j: int| i < j < u.len() implies row_key(#[trigger] u[j]) != k by {
            assert(u[j] == t[j]);
        }
        lemma_key_index_is(u, k, i);
    } else {
        lemma_key_index_is(u, k, t.len() as int);
    }
}

/// An upsert under another key leaves a held row in place.
pub proof fn lemma_upsert_keeps_other(t: Seq<DerivedSignalRow>, r: DerivedSignalRow, x: DerivedSignalRow)
    requires
        holds_row(t, x),
        row_key(r) != row_key(x),
    ensures
        holds_row(spec_upsert(t, r), x),
{
    let kx = row_key(x);
    let kr = row_key(r);
    lemma_key_index_facts(t, kx);
    lemma_key_index_facts(t, kr);
    let ix = key_index(t, kx);
    let ir = key_index(t, kr);
    let u = spec_upsert(t, r);
    if ir >= 0 {
        assert(ir != ix);
        assert forall|j: int| ix < j < u.len() implies row_key(#[trigger] u[j]) != kx by {
            if j != ir {
                assert(u[j] == t[j]);
            }
        }
        lemma_key_index_is(u, kx, ix);
    } else {
        assert forall|j: int| ix < j < u.len() implies row_key(#[trigger] u[j]) != kx by {
            if j < t.len() {
                assert(u[j] == t[j]);
            }
        }
        lemma_key_index_is(u, kx, ix);
    }
}

/// Upserting a row the table already holds changes nothing.
pub proof fn lemma_upsert_held_is_noop(t: Seq<DerivedSignalRow>, r: DerivedSignalRow)
    requires
        holds_row(t, r),
    ensures
        spec_upsert(t, r) == t,
{
    assert(spec_upsert(t, r) =~= t);
}

proof fn lemma_upsert_all_holds(t: Seq<DerivedSignalRow>, rows: Seq<DerivedSignalRow>)
    requires
        keys_distinct(rows),
    ensures
        forall|j: int| 0 <= j < rows.len() ==> holds_row(upsert_all(t, rows), #[trigger] rows[j]),
    decreases rows.len(),
{
    if rows.len() > 0 {
        let prev = rows.drop_last();
        assert(keys_distinct(prev)) by {
            assert forall|i: int, j: int| 0 <= i < j < prev.len() implies row_key(#[trigger] prev[i])
                != row_key(#[trigger] prev[j]) by {
                assert(prev[i] == rows[i] && prev[j] == rows[j]);
            }
        }
        lemma_upsert_all_holds(t, prev);
        let u = upsert_all(t, prev);
        lemma_upsert_holds(u, rows.last());
        assert forall|j: int| 0 <= j < rows.len() implies holds_row(upsert_all(t, rows), #[trigger] rows[j]) by {
            if j < rows.len() - 1 {
                assert(rows[j] == prev[j]);
                assert(row_key(rows[j]) != row_key(rows[rows.len() - 1]));
                lemma_upsert_keeps_other(u, rows.last(), rows[j]);
            }
        }
    }
}

proof fn lemma_upsert_all_held_is_noop(t: Seq<DerivedSignalRow>, rows: Seq<DerivedSignalRow>)
    requires
        forall|j: int| 0 <= j < rows.len() ==> holds_row(t, #[trigger] rows[j]),
    ensures
        upsert_all(t, rows) == t,
    decreases rows.len(),
{
    if rows.len() > 0 {
        let prev = rows.drop_last();
        assert forall|j: int| 0 <= j < prev.len() implies holds_row(t, #[trigger] prev[j]) by {
            assert(prev[j] == rows[j]);
        }
        lemma_upsert_all_held_is_noop(t, prev);
        assert(holds_row(t, rows[rows.len() - 1]));
        lemma_upsert_held_is_noop(t, rows.last());
    }
}

/// Upserting the same rows of distinct keys a second time leaves the table as the
/// first pass left it.
pub proof fn lemma_upsert_all_idempotent(t: Seq<DerivedSignalRow>, rows: Seq<DerivedSignalRow>)
    requires
        keys_distinct(rows),
    ensures
        upsert_all(upsert_all(t, rows), rows) == upsert_all(t, rows),
{
    lemma_upsert_all_holds(t, rows);
    lemma_upsert_all_held_is_noop(upsert_all(t, rows), rows);
}

pub open spec fn scope_key(s: GeoScope) -> (Seq<char>, Option<u128>) {
    (s.geo_boundary_key@, s.crop_id)
}

pub open spec fn scopes_distinct(scopes: Seq<GeoScope>) -> bool {
    forall|i: int, j: int| 0 <= i < j < scopes.len() ==> scope_key(#[trigger] scopes[i]) != scope_key(#[trigger] scopes[j])
}

/// Every scope crossed with the windows 7, 14 and 30, in that order.
pub open spec fn spec_run_rows(
    scopes: Seq<GeoScope>,
    listings: Seq<SupplyRow>,
    requests: Seq<DemandRow>,
    bucket_start: i64,
    now: i64,
) -> Seq<DerivedSignalRow> {
    Seq::new(
        (3 * scopes.len()) as nat,
        |i: int| spec_signal_row(scopes[i / 3], window_of(i % 3), listings, requests, bucket_start, now),
    )
}

/// Distinct scopes give rows of distinct keys.
pub proof fn lemma_run_rows_distinct(
    scopes: Seq<GeoScope>,
    listings: Seq<SupplyRow>,
    requests: Seq<DemandRow>,
    bucket_start: i64,
    now: i64,
)
    requires
        scopes_distinct(scopes),
    ensures
        keys_distinct(spec_run_rows(scopes, listings, requests, bucket_start, now)),
{
    let rows = spec_run_rows(scopes, listings, requests, bucket_start, now);
    assert forall|i: int, j: int| 0 <= i < j < rows.len() implies row_key(#[trigger] rows[i]) != row_key(
        #[trigger] rows[j],
    ) by {
        assert(0 <= i / 3 <= j / 3 < scopes.len()) by (nonlinear_arith)
            requires
                0 <= i < j < 3 * scopes.len(),
        ;
        if i / 3 == j / 3 {
            assert(i % 3 != j % 3) by (nonlinear_arith)
                requires
                    i / 3 == j / 3,
                    i < j,
                    0 <= i,
            ;
            assert(0 <= i % 3 < 3 && 0 <= j % 3 < 3) by (nonlinear_arith)
                requires
                    0 <= i,
                    0 <= j,
            ;
        } else {
            assert(scope_key(scopes[i / 3]) != scope_key(scopes[j / 3]));
        }
    }
}

/// The derived-signal table.
pub struct SignalTable {
    pub rows: Vec<DerivedSignalRow>,
}

fn same_key(a: &DerivedSignalRow, b: &DerivedSignalRow) -> (r: bool)
    ensures
        r == (row_key(*a) == row_key(*b)),
{
    if a.schema_version != b.schema_version || a.window_days != b.window_days || a.bucket_start
        != b.bucket_start {
        return false;
    }
    let crop_same = match (a.crop_scope_id, b.crop_scope_id) {
        (Some(x), Some(y)) => x == y,
        (None, None) => true,
        _ => false,
    };
    crop_same && a.geo_boundary_key == b.geo_boundary_key
}

impl SignalTable {
    pub fn new() -> (r: Self)
        ensures
            r.rows@.len() == 0,
    {
        SignalTable { rows: Vec::new() }
    }

    /// Writes `row` under its key, replacing the row already there.
    pub fn upsert(&mut self, row: DerivedSignalRow)
        ensures
            final(self).rows@ == spec_upsert(old(self).rows@, row),
    {
        let ghost t = self.rows@;
        let mut i: usize = self.rows.len();
        while i > 0
            invariant
                self.rows@ == t,
                t == old(self).rows@,
                i <= t.len(),
                forall|j: int| i <= j < t.len() ==> row_key(#[trigger] t[j]) != row_key(row),
            decreases i,
        {
            if same_key(&self.rows[i - 1], &row) {
                proof {
                    lemma_key_index_is(t, row_key(row), i - 1);
                }
                self.rows.set(i - 1, row);
                return;
            }
            i = i - 1;
        }
        proof {
            lemma_key_index_is(t, row_key(row), -1);
        }
        self.rows.push(row);
    }

    /// Recomputes every scope over the windows 7, 14 and 30 and upserts the rows into
    /// the 5-minute bucket of `occurred_at`. With `dry_run` nothing is written. Returns
    /// the number of rows recomputed.
    pub fn run_recompute(
        &mut self,
        scopes: &Vec<GeoScope>,
        listings: &Vec<SupplyRow>,
        requests: &Vec<DemandRow>,
        occurred_at: i64,
        now: i64,
        dry_run: bool,
    ) -> (r: usize)
        requires
            time_in_range(now),
            occurred_at >= i64::MIN + 300,
            3 * scopes@.len() <= usize::MAX,
        ensures
            r == 3 * scopes@.len(),
            dry_run ==> final(self).rows@ == old(self).rows@,
            !dry_run ==> final(self).rows@ == upsert_all(
                old(self).rows@,
                spec_run_rows(scopes@, listings@, requests@, spec_bucket_start(occurred_at) as i64, now),
            ),
    {
        let bucket_start = compute_bucket_start(occurred_at);
        let ghost rows = spec_run_rows(scopes@, listings@, requests@, bucket_start, now);
        let ghost t0 = self.rows@;
        let mut count: usize = 0;
        let mut s: usize = 0;
        while s < scopes.len()
            invariant
                s <= scopes@.len(),
                count == 3 * s,
                3 * scopes@.len() <= usize::MAX,
                time_in_range(now),
                rows == spec_run_rows(scopes@, listings@, requests@, bucket_start, now),
                dry_run ==> self.rows@ == t0,
                !dry_run ==> self.rows@ == upsert_all(t0, rows.take(3 * s)),
            decreases scopes@.len() - s,
        {
            let mut w: usize = 0;
            while w < 3
                invariant
                    s < scopes@.len(),
                    w <= 3,
                    count == 3 * s + w,
                    3 * scopes@.len() <= usize::MAX,
                    time_in_range(now),
                    rows == spec_run_rows(scopes@, listings@, requests@, bucket_start, now),
                    dry_run ==> self.rows@ == t0,
                    !dry_run ==> self.rows@ == upsert_all(t0, rows.take(3 * s + w)),
                decreases 3 - w,
            {
                let window_days: u32 = if w == 0 {
                    7
                } else if w == 1 {
                    14
                } else {
                    30
                };
                let k: usize = 3 * s + w;
                assert(k / 3 == s && k % 3 == w) by (nonlinear_arith)
                    requires
                        k == 3 * s + w,
                        w < 3,
                ;
                if !dry_run {
                    let row = recompute_signal(&scopes[s], window_days, listings, requests, bucket_start, now);
                    assert(row == rows[k as int]);
                    self.upsert(row);
                    assert(rows.take(k + 1).drop_last() =~= rows.take(k as int));
                }
                count = count + 1;
                w = w + 1;
            }
            s = s + 1;
        }
        assert(rows.take(3 * s) =~= rows);
        count
    }
}

/// Re-running the same recompute over the same rows, in the same bucket and at the same
/// time, leaves the table exactly as the first run left it.
pub proof fn lemma_rerun_is_idempotent(
    table: Seq<DerivedSignalRow>,
    scopes: Seq<GeoScope>,
    listings: Seq<SupplyRow>,
    requests: Seq<DemandRow>,
    occurred_at: i64,
    now: i64,
)
    requires
        scopes_distinct(scopes),
    ensures
        ({
            let rows = spec_run_rows(scopes, listings, requests, spec_bucket_start(occurred_at) as i64, now);
            upsert_all(upsert_all(table, rows), rows) == upsert_all(table, rows)
        }),
{
    let rows = spec_run_rows(scopes, listings, requests, spec_bucket_start(occurred_at) as i64, now);
    lemma_run_rows_distinct(scopes, listings, requests, spec_bucket_start(occurred_at) as i64, now);
    lemma_upsert_all_idempotent(table, rows);
}

/// A run over `n` distinct scopes leaves a row under each (scope, window) key, with the
/// bucket of `occurred_at`, and each row expires its window's retention after `now`.
pub proof fn lemma_run_writes_every_key(
    table: Seq<DerivedSignalRow>,
    scopes: Seq<GeoScope>,
    listings: Seq<SupplyRow>,
    requests: Seq<DemandRow>,
    occurred_at: i64,
    now: i64,
)
    requires
        scopes_distinct(scopes),
    ensures
        ({
            let b = spec_bucket_start(occurred_at) as i64;
            let rows = spec_run_rows(scopes, listings, requests, b, now);
            &&& rows.len() == 3 * scopes.len()
            &&& forall|i: int| 0 <= i < rows.len() ==> holds_row(upsert_all(table, rows), #[trigger] rows[i])
            &&& forall|i: int|
                0 <= i < rows.len() ==> (#[trigger] rows[i]).bucket_start == b && rows[i].geo_boundary_key
                    == scopes[i / 3].geo_boundary_key && rows[i].crop_scope_id == scopes[i / 3].crop_id
                    && rows[i].window_days == window_of(i % 3) && rows[i].expires_at == (rows[i].computed_at
                    + spec_retention_days(rows[i].window_days) * 86_400) as i64
        }),
{
    let b = spec_bucket_start(occurred_at) as i64;
    let rows = spec_run_rows(scopes, listings, requests, b, now);
    lemma_run_rows_distinct(scopes, listings, requests, b, now);
    lemma_upsert_all_holds(table, rows);
}

/// A scope is due for a source (geo key, crop) when its key is one of the key's
/// prefixes and its crop is the source's crop or all crops.
pub open spec fn scope_due(pairs: Seq<(String, Option<u128>)>, sv: (Seq<char>, Option<u128>)) -> bool {
    exists|i: int, k: int|
        0 <= i < pairs.len() && 0 <= k < spec_geo_prefixes(pairs[i].0@).len() && sv.0 == #[trigger] spec_geo_prefixes(
            pairs[i].0@,
        )[k] && (sv.1 == pairs[i].1 || sv.1 is None)
}

/// The same, for the sources before `i` and the first `k` prefixes of source `i`.
pub open spec fn scope_due_upto(
    pairs: Seq<(String, Option<u128>)>,
    i: int,
    k: int,
    sv: (Seq<char>, Option<u128>),
) -> bool {
    exists|ii: int, kk: int|
        0 <= ii <= i && ii < pairs.len() && 0 <= kk < spec_geo_prefixes(pairs[ii].0@).len() && (ii < i || kk
            < k) && sv.0 == #[trigger] spec_geo_prefixes(pairs[ii].0@)[kk] && (sv.1 == pairs[ii].1 || sv.1 is None)
}

pub open spec fn scope_views(v: Seq<GeoScope>) -> Seq<(Seq<char>, Option<u128>)> {
    v.map_values(|s: GeoScope| scope_key(s))
}

fn push_scope_once(out: &mut Vec<GeoScope>, key: &String, crop_id: Option<u128>)
    requires
        scopes_distinct(old(out)@),
    ensures
        scopes_distinct(final(out)@),
        forall|sv: (Seq<char>, Option<u128>)|
            scope_views(final(out)@).contains(sv) <==> (scope_views(old(out)@).contains(sv) || sv == (
                key@,
                crop_id,
            )),
{
    let mut i: usize = 0;
    while i < out.len()
        invariant
            i <= out@.len(),
            out@ == old(out)@,
            scopes_distinct(out@),
            forall|j: int| 0 <= j < i ==> scope_key(#[trigger] out@[j]) != (key@, crop_id),
        decreases out@.len() - i,
    {
        let same_crop = match (out[i].crop_id, crop_id) {
            (Some(x), Some(y)) => x == y,
            (None, None) => true,
            _ => false,
        };
        if same_crop && out[i].geo_boundary_key == *key {
            assert(scope_views(out@)[i as int] == (key@, crop_id));
            return;
        }
        i = i + 1;
    }
    let ghost before = out@;
    out.push(GeoScope { geo_boundary_key: key.clone(), crop_id });
    proof {
        assert(scope_views(out@) =~= scope_views(before).push((key@, crop_id)));
        assert forall|a: int, b: int| 0 <= a < b < out@.len() implies scope_key(#[trigger] out@[a]) != scope_key(
            #[trigger] out@[b],
        ) by {
            assert(out@[a] == before[a] || a == before.len());
            if b < before.len() {
                assert(out@[a] == before[a] && out@[b] == before[b]);
            } else {
                assert(out@[a] == before[a]);
            }
        }
        assert forall|sv: (Seq<char>, Option<u128>)|
            scope_views(out@).contains(sv) <==> (scope_views(before).contains(sv) || sv == (key@, crop_id)) by {
            if scope_views(before).contains(sv) {
                let j = choose|j: int| 0 <= j < scope_views(before).len() && scope_views(before)[j] == sv;
                assert(scope_views(out@)[j] == sv);
            }
            if sv == (key@, crop_id) {
                assert(scope_views(out@)[before.len() as int] == sv);
            }
            if scope_views(out@).contains(sv) {
                let j = choose|j: int| 0 <= j < scope_views(out@).len() && scope_views(out@)[j] == sv;
                if j < before.len() {
                    assert(scope_views(before)[j] == sv);
                }
            }
        }
    }
}

/// The scopes that a set of (geo key, crop) sources fans out to: every prefix of
/// length 4, 5 and 6 of each key, for the source's crop and for all crops, each once.
pub fn expand_geo_scopes(source_pairs: &Vec<(String, Option<u128>)>) -> (r: Vec<GeoScope>)
    ensures
        scopes_distinct(r@),
        forall|sv: (Seq<char>, Option<u128>)| scope_views(r@).contains(sv) <==> scope_due(source_pairs@, sv),
{
    let mut out: Vec<GeoScope> = Vec::new();
    let mut i: usize = 0;
    while i < source_pairs.len()
        invariant
            i <= source_pairs@.len(),
            scopes_distinct(out@),
            forall|sv: (Seq<char>, Option<u128>)|
                scope_views(out@).contains(sv) <==> scope_due_upto(source_pairs@, i as int, 0, sv),
        decreases source_pairs@.len() - i,
    {
        let prefixes = geo_prefixes(&source_pairs[i].0);
        let crop = source_pairs[i].1;
        let ghost pv = spec_geo_prefixes(source_pairs@[i as int].0@);
        let mut k: usize = 0;
        while k < prefixes.len()
            invariant
                i < source_pairs@.len(),
                k <= prefixes@.len(),
                crop == source_pairs@[i as int].1,
                pv == spec_geo_prefixes(source_pairs@[i as int].0@),
                crate::geo::string_views(prefixes@) == pv,
                scopes_distinct(out@),
                forall|sv: (Seq<char>, Option<u128>)|
                    scope_views(out@).contains(sv) <==> scope_due_upto(source_pairs@, i as int, k as int, sv),
            decreases prefixes@.len() - k,
        {
            let ghost before = scope_views(out@);
            assert(prefixes@[k as int]@ == pv[k as int]);
            push_scope_once(&mut out, &prefixes[k], crop);
            push_scope_once(&mut out, &prefixes[k], None);
            proof {
                assert forall|sv: (Seq<char>, Option<u128>)|
                    scope_views(out@).contains(sv) <==> scope_due_upto(
                        source_pairs@,
                        i as int,
                        k + 1,
                        sv,
                    ) by {
                    if sv == (pv[k as int], crop) || sv == (pv[k as int], None::<u128>) {
                        assert(sv.0 == spec_geo_prefixes(source_pairs@[i as int].0@)[k as int]);
                    }
                    if scope_due_upto(source_pairs@, i as int, k + 1, sv) {
                        let (ii, kk) = choose|ii: int, kk: int|
                            0 <= ii <= i && ii < source_pairs@.len() && 0 <= kk < spec_geo_prefixes(
                                source_pairs@[ii].0@,
                            ).len() && (ii < i || kk < k + 1) && sv.0 == #[trigger] spec_geo_prefixes(
                                source_pairs@[ii].0@,
                            )[kk] && (sv.1 == source_pairs@[ii].1 || sv.1 is None);
                        if ii < i || kk < k {
                            assert(scope_due_upto(source_pairs@, i as int, k as int, sv));
                        }
                    }
                }
            }
            k = k + 1;
        }
        proof {
            assert forall|sv: (Seq<char>, Option<u128>)|
                scope_due_upto(source_pairs@, i as int, k as int, sv) <==> scope_due_upto(
                    source_pairs@,
                    i + 1,
                    0,
                    sv,
                ) by {
                if scope_due_upto(source_pairs@, i + 1, 0, sv) {
                    let (ii, kk) = choose|ii: int, kk: int|
                        0 <= ii <= i + 1 && ii < source_pairs@.len() && 0 <= kk < spec_geo_prefixes(
                            source_pairs@[ii].0@,
                        ).len() && (ii < i + 1 || kk < 0) && sv.0 == #[trigger] spec_geo_prefixes(
                            source_pairs@[ii].0@,
                        )[kk] && (sv.1 == source_pairs@[ii].1 || sv.1 is None);
                    assert(scope_due_upto(source_pairs@, i as int, k as int, sv));
                }
            }
        }
        i = i + 1;
    }
    proof {
        assert forall|sv: (Seq<char>, Option<u128>)|
            scope_due_upto(source_pairs@, i as int, 0, sv) <==> scope_due(source_pairs@, sv) by {
            if scope_due(source_pairs@, sv) {
                let (ii, kk) = choose|ii: int, kk: int|
                    0 <= ii < source_pairs@.len() && 0 <= kk < spec_geo_prefixes(source_pairs@[ii].0@).len()
                        && sv.0 == #[trigger] spec_geo_prefixes(source_pairs@[ii].0@)[kk] && (sv.1
                        == source_pairs@[ii].1 || sv.1 is None);
                assert(scope_due_upto(source_pairs@, i as int, 0, sv));
            }
        }
    }
    out
}

/// A single source whose normalized key has at least six characters and which names a
/// crop fans out to exactly six scopes: three prefixes, each for the crop and for all crops.
pub proof fn lemma_single_source_gives_six_scopes(pairs: Seq<(String, Option<u128>)>, scopes: Seq<GeoScope>)
    requires
        pairs.len() == 1,
        normalized_geo_key(pairs[0].0@).len() >= 6,
        pairs[0].1 is Some,
        scopes_distinct(scopes),
        forall|sv: (Seq<char>, Option<u128>)| scope_views(scopes).contains(sv) <==> scope_due(pairs, sv),
    ensures
        scopes.len() == 6,
{
    let c = pairs[0].1;
    let p = spec_geo_prefixes(pairs[0].0@);
    assert(p.len() == 3);
    assert(p[0].len() == 4 && p[1].len() == 5 && p[2].len() == 6);
    let e = seq![(p[0], c), (p[0], None::<u128>), (p[1], c), (p[1], None::<u128>), (p[2], c), (p[2], None::<u128>)];
    let sv_seq = scope_views(scopes);
    assert(sv_seq.no_duplicates()) by {
        assert forall|i: int, j: int| 0 <= i < sv_seq.len() && 0 <= j < sv_seq.len() && i != j implies sv_seq[i]
            != sv_seq[j] by {
            if i < j {
                assert(scope_key(scopes[i]) != scope_key(scopes[j]));
            } else {
                assert(scope_key(scopes[j]) != scope_key(scopes[i]));
            }
        }
    }
    assert(e.no_duplicates()) by {
        assert forall|i: int, j: int| 0 <= i < e.len() && 0 <= j < e.len() && i != j implies e[i] != e[j] by {
            if i / 2 != j / 2 {
                assert(e[i].0.len() != e[j].0.len());
            } else {
                assert(e[i].1 != e[j].1);
            }
        }
    }
    assert forall|x: (Seq<char>, Option<u128>)| sv_seq.to_set().contains(x) <==> e.to_set().contains(x) by {
        if sv_seq.contains(x) {
            assert(scope_due(pairs, x));
            let (i, k) = choose|i: int, k: int|
                0 <= i < pairs.len() && 0 <= k < spec_geo_prefixes(pairs[i].0@).len() && x.0 == #[trigger] spec_geo_prefixes(
                    pairs[i].0@,
                )[k] && (x.1 == pairs[i].1 || x.1 is None);
            assert(i == 0);
            if x.1 is None {
                assert(e[2 * k + 1] == x);
            } else {
                assert(e[2 * k] == x);
            }
        }
        if e.contains(x) {
            let j = choose|j: int| 0 <= j < e.len() && e[j] == x;
            let k = j / 2;
            assert(x.0 == spec_geo_prefixes(pairs[0].0@)[k]);
            assert(scope_due(pairs, x));
        }
    }
    assert(sv_seq.to_set() =~= e.to_set());
    sv_seq.unique_seq_to_set();
    e.unique_seq_to_set();
}

/// An event for a listing, request or claim whose entity sits at a key of at least six
/// characters and names a crop leads to eighteen upserts, one per (scope, window), all in
/// the bucket of the event's time; running it again in that bucket rewrites the same rows.
pub proof fn lemma_event_fans_out_to_eighteen_rows(
    table: Seq<DerivedSignalRow>,
    pairs: Seq<(String, Option<u128>)>,
    scopes: Seq<GeoScope>,
    listings: Seq<SupplyRow>,
    requests: Seq<DemandRow>,
    occurred_at: i64,
    now: i64,
)
    requires
        pairs.len() == 1,
        normalized_geo_key(pairs[0].0@).len() >= 6,
        pairs[0].1 is Some,
        scopes_distinct(scopes),
        forall|sv: (Seq<char>, Option<u128>)| scope_views(scopes).contains(sv) <==> scope_due(pairs, sv),
    ensures
        ({
            let rows = spec_run_rows(scopes, listings, requests, spec_bucket_start(occurred_at) as i64, now);
            &&& rows.len() == 18
            &&& forall|i: int| 0 <= i < 18 ==> holds_row(upsert_all(table, rows), #[trigger] rows[i])
                && rows[i].bucket_start == spec_bucket_start(occurred_at) as i64
            &&& upsert_all(upsert_all(table, rows), rows) == upsert_all(table, rows)
        }),
{
    lemma_single_source_gives_six_scopes(pairs, scopes);
    lemma_run_writes_every_key(table, scopes, listings, requests, occurred_at, now);
    lemma_rerun_is_idempotent(table, scopes, listings, requests, occurred_at, now);
}

} // verus!
