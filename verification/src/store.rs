//! The modelled record store: an in-memory table of statistics rows whose
//! natural keys are pairwise distinct, with the operations the service
//! performs on it — natural-key upsert, filtered reads, lookup and delete by
//! surrogate id.
//!
//! The live system keeps this table in a relational store; the operations
//! here are the semantics the query builder's output and the ingestor's
//! upsert statement ask that store for.

use vstd::prelude::*;

use crate::model::{
    candidate_key, key_of, row_ok, spec_key_time, CreateHeroStats, HeroStats, NaturalKey,
};
use crate::query::{effective_order, HeroQueryParams, Order, OrderBy};

verus! {

use crate::model::key_time;
use crate::error::AppError;
use vstd::multiset::Multiset;
use vstd::string::StringExecFns;

/// Do the categorical equality filters of a request all accept a row?
pub open spec fn tag_filters_ok(r: HeroStats, p: HeroQueryParams) -> bool {
    &&& (p.hero_id matches Some(v) ==> r.hero_id@ == v@)
    &&& (p.region matches Some(v) ==> r.region@ == v@)
    &&& (p.platform matches Some(v) ==> r.platform@ == v@)
    &&& (p.gamemode matches Some(v) ==> r.gamemode@ == v@)
    &&& (p.map matches Some(v) ==> r.map@ == v@)
    &&& (p.tier matches Some(v) ==> r.tier@ == v@)
}

/// Is a row at or after the requested start of the time window? The lower
/// bound is inclusive.
pub open spec fn lower_bound_ok(r: HeroStats, p: HeroQueryParams) -> bool {
    p.start_time matches Some(t) ==> r.inserted_at >= t
}

/// Is a row before the requested end of the time window? The upper bound is
/// exclusive: the window is half-open.
pub open spec fn upper_bound_ok(r: HeroStats, p: HeroQueryParams) -> bool {
    p.end_time matches Some(t) ==> r.inserted_at < t
}

/// Does a row satisfy every present filter of a request? This is the row
/// set the built query selects.
pub open spec fn matches_spec(r: HeroStats, p: HeroQueryParams) -> bool {
    &&& tag_filters_ok(r, p)
    &&& lower_bound_ok(r, p)
    &&& upper_bound_ok(r, p)
}

/// The time window is half-open: a row whose `inserted_at` equals the start
/// bound passes the lower bound, while one whose `inserted_at` equals the
/// end bound is excluded outright.
pub proof fn lemma_half_open_interval(r: HeroStats, p: HeroQueryParams)
    ensures
        p.start_time matches Some(t) && r.inserted_at == t ==> lower_bound_ok(r, p),
        p.end_time matches Some(t) && r.inserted_at == t ==> !upper_bound_ok(r, p)
            && !matches_spec(r, p),
{
}

/// Decide whether a row satisfies every present filter of a request.
pub fn matches(r: &HeroStats, p: &HeroQueryParams) -> (res: bool)
    ensures
        res == matches_spec(*r, *p),
{
    if let Some(v) = &p.hero_id {
        if !(r.hero_id == *v) {
            return false;
        }
    }
    if let Some(v) = &p.region {
        if !(r.region == *v) {
            return false;
        }
    }
    if let Some(v) = &p.platform {
        if !(r.platform == *v) {
            return false;
        }
    }
    if let Some(v) = &p.gamemode {
        if !(r.gamemode == *v) {
            return false;
        }
    }
    if let Some(v) = &p.map {
        if !(r.map == *v) {
            return false;
        }
    }
    if let Some(v) = &p.tier {
        if !(r.tier == *v) {
            return false;
        }
    }
    if let Some(t) = &p.start_time {
        if r.inserted_at < *t {
            return false;
        }
    }
    if let Some(t) = &p.end_time {
        if r.inserted_at >= *t {
            return false;
        }
    }
    true
}

/// Index of the first row with natural key `k`, or `-1` when no row has it.
pub open spec fn find_key(rows: Seq<HeroStats>, k: NaturalKey) -> int
    decreases rows.len(),
{
    if rows.len() == 0 {
        -1
    } else if key_of(rows[0]) == k {
        0
    } else {
        let rest = find_key(rows.drop_first(), k);
        if rest < 0 {
            -1
        } else {
            rest + 1
        }
    }
}

/// What [`find_key`] returns: the first index holding the key when one
/// exists, `-1` exactly when none does.
pub proof fn lemma_find_key(rows: Seq<HeroStats>, k: NaturalKey)
    ensures
        find_key(rows, k) >= 0 ==> find_key(rows, k) < rows.len() && key_of(
            rows[find_key(rows, k)],
        ) == k,
        find_key(rows, k) >= 0 ==> forall|i: int|
            0 <= i < find_key(rows, k) ==> key_of(#[trigger] rows[i]) != k,
        find_key(rows, k) < 0 ==> forall|i: int|
            0 <= i < rows.len() ==> key_of(#[trigger] rows[i]) != k,
    decreases rows.len(),
{
    if rows.len() > 0 && key_of(rows[0]) != k {
        lemma_find_key(rows.drop_first(), k);
        assert(forall|i: int|
            1 <= i < rows.len() ==> #[trigger] rows[i] == rows.drop_first()[i - 1]);
    }
}

/// Appending a row leaves every earlier hit of [`find_key`] where it was;
/// it is found itself only when its key was absent and is searched for.
pub proof fn lemma_find_key_push(rows: Seq<HeroStats>, k: NaturalKey, r: HeroStats)
    ensures
        find_key(rows.push(r), k) == (if find_key(rows, k) >= 0 {
            find_key(rows, k)
        } else if key_of(r) == k {
            rows.len() as int
        } else {
            -1
        }),
    decreases rows.len(),
{
    if rows.len() == 0 {
        assert(rows.push(r)[0] == r);
        assert(rows.push(r).drop_first() =~= Seq::<HeroStats>::empty());
        assert(find_key(Seq::<HeroStats>::empty(), k) == -1);
        assert(find_key(rows.push(r).drop_first(), k) == -1);
        if key_of(r) == k {
            assert(find_key(rows.push(r), k) == 0);
        } else {
            assert(find_key(rows.push(r), k) == -1);
        }
    } else {
        assert(rows.push(r)[0] == rows[0]);
        assert(rows.push(r).drop_first() =~= rows.drop_first().push(r));
        lemma_find_key_push(rows.drop_first(), k, r);
        assert(find_key(rows.push(r).drop_first(), k) == find_key(rows.drop_first().push(r), k));
    }
}

/// Replacing a row by one with the same natural key does not move any hit
/// of [`find_key`].
pub proof fn lemma_find_key_update(rows: Seq<HeroStats>, i: int, r: HeroStats, k: NaturalKey)
    requires
        0 <= i < rows.len(),
        key_of(r) == key_of(rows[i]),
    ensures
        find_key(rows.update(i, r), k) == find_key(rows, k),
    decreases rows.len(),
{
    if i == 0 {
        assert(rows.update(0, r)[0] == r);
        assert(rows.update(0, r).drop_first() =~= rows.drop_first());
    } else {
        assert(rows.update(i, r)[0] == rows[0]);
        assert(rows.update(i, r).drop_first() =~= rows.drop_first().update(i - 1, r));
        lemma_find_key_update(rows.drop_first(), i - 1, r, k);
    }
}

/// Well-formedness of the table: natural keys and surrogate ids are
/// pairwise distinct, and every id was assigned below the next free one.
pub open spec fn wf_rows(rows: Seq<HeroStats>, next_id: int) -> bool {
    &&& forall|i: int, j: int|
        0 <= i < j < rows.len() ==> key_of(#[trigger] rows[i]) != key_of(#[trigger] rows[j])
    &&& forall|i: int, j: int|
        0 <= i < j < rows.len() ==> (#[trigger] rows[i]).id != (#[trigger] rows[j]).id
    &&& forall|i: int| 0 <= i < rows.len() ==> (#[trigger] rows[i]).id < next_id
}

/// The row an existing snapshot is merged into: rates and `updated_at` are
/// taken fresh, every key field and the surrogate id stay untouched.
pub open spec fn merged_row(r: HeroStats, c: CreateHeroStats, now: i64) -> HeroStats {
    HeroStats { pick_rate: c.pick_rate, win_rate: c.win_rate, updated_at: now, ..r }
}

/// The row a new snapshot is inserted as: `inserted_at` is the key
/// timestamp, `updated_at` the ingestion time.
pub open spec fn new_row(c: CreateHeroStats, id: i32, key_at: i64, now: i64) -> HeroStats {
    HeroStats {
        id: id,
        hero_id: c.hero_id,
        hero_class: c.hero_class,
        pick_rate: c.pick_rate,
        win_rate: c.win_rate,
        region: c.region,
        platform: c.platform,
        gamemode: c.gamemode,
        map: c.map,
        map_type: c.map_type,
        tier: c.tier,
        inserted_at: key_at,
        updated_at: now,
    }
}

/// Table and next free id after one upsert of candidate `c` at time `now`:
/// a row with the candidate's natural key is merged in place, otherwise a
/// new row is appended.
pub open spec fn upsert_result(
    rows: Seq<HeroStats>,
    next_id: i32,
    c: CreateHeroStats,
    now: i64,
) -> (Seq<HeroStats>, i32) {
    let k = candidate_key(c, now);
    let i = find_key(rows, k);
    if i >= 0 {
        (rows.update(i, merged_row(rows[i], c, now)), next_id)
    } else {
        (rows.push(new_row(c, next_id, spec_key_time(c, now), now)), (next_id + 1) as i32)
    }
}

/// One upsert keeps the table well-formed.
pub proof fn lemma_upsert_preserves_wf(
    rows: Seq<HeroStats>,
    next_id: i32,
    c: CreateHeroStats,
    now: i64,
)
    requires
        wf_rows(rows, next_id as int),
        next_id < i32::MAX,
    ensures
        wf_rows(upsert_result(rows, next_id, c, now).0, upsert_result(rows, next_id, c, now).1 as int),
        upsert_result(rows, next_id, c, now).1 >= next_id,
{
    let k = candidate_key(c, now);
    lemma_find_key(rows, k);
    let i = find_key(rows, k);
    if i >= 0 {
        let out = rows.update(i, merged_row(rows[i], c, now));
        assert(key_of(out[i]) == key_of(rows[i]));
        assert(forall|j: int| 0 <= j < out.len() ==> key_of(#[trigger] out[j]) == key_of(rows[j]));
        assert(forall|j: int| 0 <= j < out.len() ==> (#[trigger] out[j]).id == rows[j].id);
    }
}

/// The natural key of the row a candidate is inserted as is the candidate's
/// key.
pub proof fn lemma_new_row_key(c: CreateHeroStats, id: i32, now: i64)
    ensures
        key_of(new_row(c, id, spec_key_time(c, now), now)) == candidate_key(c, now),
{
}

/// The statistics table: rows with pairwise-distinct natural keys, and the
/// next surrogate id the store will assign.
pub struct StatStore {
    pub rows: Vec<HeroStats>,
    pub next_id: i32,
}

impl StatStore {
    /// Well-formedness: see [`wf_rows`].
    pub open spec fn wf(self) -> bool {
        wf_rows(self.rows@, self.next_id as int)
    }

    /// An empty table; surrogate ids start at 1.
    pub fn new() -> (r: StatStore)
        ensures
            r.wf(),
            r.rows@.len() == 0,
            r.next_id == 1,
    {
        StatStore { rows: Vec::new(), next_id: 1 }
    }

    /// Index of the first row with the candidate's natural key, if any.
    fn find_match(&self, c: &CreateHeroStats, now: i64) -> (r: Option<usize>)
        ensures
            (match r {
                Some(i) => i as int == find_key(self.rows@, candidate_key(*c, now)),
                None => find_key(self.rows@, candidate_key(*c, now)) == -1,
            }),
    {
        let ghost k = candidate_key(*c, now);
        proof {
            lemma_find_key(self.rows@, k);
        }
        let kt = key_time(c, now);
        let mut i: usize = 0;
        while i < self.rows.len()
            invariant
                i <= self.rows@.len(),
                k == candidate_key(*c, now),
                kt == spec_key_time(*c, now),
                forall|j: int| 0 <= j < i ==> key_of(#[trigger] self.rows@[j]) != k,
            decreases self.rows@.len() - i,
        {
            let row = &self.rows[i];
            let same = row.hero_id == c.hero_id && row.region == c.region && row.platform
                == c.platform && row.gamemode == c.gamemode && row.map == c.map && row.tier
                == c.tier && row.inserted_at == kt;
            if same {
                proof {
                    assert(key_of(self.rows@[i as int]) == k);
                    lemma_find_key(self.rows@, k);
                }
                return Some(i);
            }
            assert(key_of(self.rows@[i as int]) != k);
            i = i + 1;
        }
        proof {
            lemma_find_key(self.rows@, k);
        }
        None
    }

    /// Upsert one candidate at time `now`: merge into the row holding its
    /// natural key, or append it as a new row with the next surrogate id.
    pub fn upsert(&mut self, c: &CreateHeroStats, now: i64)
        requires
            old(self).wf(),
            old(self).next_id < i32::MAX,
        ensures
            final(self).wf(),
            final(self).rows@ == upsert_result(old(self).rows@, old(self).next_id, *c, now).0,
            final(self).next_id == upsert_result(old(self).rows@, old(self).next_id, *c, now).1,
            final(self).next_id >= old(self).next_id,
    {
        proof {
            lemma_upsert_preserves_wf(self.rows@, self.next_id, *c, now);
            lemma_find_key(self.rows@, candidate_key(*c, now));
        }
        let kt = key_time(c, now);
        match self.find_match(c, now) {
            Some(i) => {
                let row = &self.rows[i];
                let merged = HeroStats {
                    id: row.id,
                    hero_id: row.hero_id.clone(),
                    hero_class: row.hero_class,
                    pick_rate: c.pick_rate,
                    win_rate: c.win_rate,
                    region: row.region.clone(),
                    platform: row.platform.clone(),
                    gamemode: row.gamemode.clone(),
                    map: row.map.clone(),
                    map_type: row.map_type,
                    tier: row.tier.clone(),
                    inserted_at: row.inserted_at,
                    updated_at: now,
                };
                assert(merged == merged_row(old(self).rows@[i as int], *c, now));
                self.rows[i] = merged;
            },
            None => {
                let fresh = HeroStats {
                    id: self.next_id,
                    hero_id: c.hero_id.clone(),
                    hero_class: c.hero_class,
                    pick_rate: c.pick_rate,
                    win_rate: c.win_rate,
                    region: c.region.clone(),
                    platform: c.platform.clone(),
                    gamemode: c.gamemode.clone(),
                    map: c.map.clone(),
                    map_type: c.map_type,
                    tier: c.tier.clone(),
                    inserted_at: kt,
                    updated_at: now,
                };
                assert(fresh == new_row(*c, old(self).next_id, spec_key_time(*c, now), now));
                self.rows.push(fresh);
                self.next_id = self.next_id + 1;
            },
        }
    }
}

/// The row predicate a request selects by, as one stable function value.
pub open spec fn match_pred(p: HeroQueryParams) -> spec_fn(HeroStats) -> bool {
    |row: HeroStats| matches_spec(row, p)
}

/// The rows of a table a request selects, in table order.
pub open spec fn selected(rows: Seq<HeroStats>, p: HeroQueryParams) -> Seq<HeroStats> {
    rows.filter(match_pred(p))
}

/// Appending one row to a table extends its selection by that row exactly
/// when the row matches.
proof fn lemma_selected_push(rows: Seq<HeroStats>, r: HeroStats, p: HeroQueryParams)
    ensures
        selected(rows.push(r), p) == (if matches_spec(r, p) {
            selected(rows, p).push(r)
        } else {
            selected(rows, p)
        }),
{
    reveal(Seq::filter);
    assert(rows.push(r).drop_last() =~= rows);
    assert(rows.push(r).last() == r);
}

/// The sort rank of an optional rate: absent rates order after every
/// present value, as the backing store orders NULL.
pub open spec fn opt_rank(o: Option<u32>) -> int {
    match o {
        Some(v) => v as int,
        None => 0x1_0000_0000,
    }
}

/// The sort rank of a row under a sort key.
pub open spec fn rank_of(k: OrderBy, r: HeroStats) -> int {
    match k {
        OrderBy::PickRate => opt_rank(r.pick_rate),
        OrderBy::WinRate => opt_rank(r.win_rate),
        OrderBy::InsertedAt => r.inserted_at as int,
    }
}

/// Does `a` come no later than `b` under sort key `k` in direction `d`?
pub open spec fn le_in(k: OrderBy, d: Order, a: HeroStats, b: HeroStats) -> bool {
    if d == Order::Asc {
        rank_of(k, a) <= rank_of(k, b)
    } else {
        rank_of(k, b) <= rank_of(k, a)
    }
}

/// Is a row sequence sorted under sort key `k` in direction `d`?
pub open spec fn sorted_by(s: Seq<HeroStats>, k: OrderBy, d: Order) -> bool {
    forall|i: int, j: int| 0 <= i <= j < s.len() ==> le_in(k, d, s[i], s[j])
}

/// The sort rank of an optional rate, as a machine integer.
fn rank32(o: &Option<u32>) -> (r: u64)
    ensures
        r as int == opt_rank(*o),
{
    match o {
        Some(v) => *v as u64,
        None => 0x1_0000_0000u64,
    }
}

/// Decide whether `a` comes no later than `b` under `k` in direction `d`.
fn le_records(k: OrderBy, d: Order, a: &HeroStats, b: &HeroStats) -> (r: bool)
    ensures
        r == le_in(k, d, *a, *b),
{
    let asc = d == Order::Asc;
    match k {
        OrderBy::PickRate => {
            let ra = rank32(&a.pick_rate);
            let rb = rank32(&b.pick_rate);
            if asc {
                ra <= rb
            } else {
                rb <= ra
            }
        },
        OrderBy::WinRate => {
            let ra = rank32(&a.win_rate);
            let rb = rank32(&b.win_rate);
            if asc {
                ra <= rb
            } else {
                rb <= ra
            }
        },
        OrderBy::InsertedAt => {
            if asc {
                a.inserted_at <= b.inserted_at
            } else {
                b.inserted_at <= a.inserted_at
            }
        },
    }
}

/// Sort rows under sort key `k` in direction `d`: the result holds the same
/// rows (as a multiset) in sorted order. Selection sort: repeatedly move a
/// least remaining row to the output.
pub fn sort_records(v: Vec<HeroStats>, k: OrderBy, d: Order) -> (out: Vec<HeroStats>)
    ensures
        out@.to_multiset() == v@.to_multiset(),
        out@.len() == v@.len(),
        sorted_by(out@, k, d),
{
    broadcast use vstd::seq_lib::group_to_multiset_ensures;
    broadcast use vstd::multiset::group_multiset_axioms;

    let mut src = v;
    let ghost orig = src@;
    let mut out: Vec<HeroStats> = Vec::new();
    assert(out@.to_multiset().add(src@.to_multiset()) =~= orig.to_multiset());
    while src.len() > 0
        invariant
            out@.to_multiset().add(src@.to_multiset()) == orig.to_multiset(),
            out@.len() + src@.len() == orig.len(),
            sorted_by(out@, k, d),
            forall|a: int, b: int|
                0 <= a < out@.len() && 0 <= b < src@.len() ==> le_in(k, d, out@[a], src@[b]),
        decreases src@.len(),
    {
        broadcast use vstd::seq_lib::group_to_multiset_ensures;
        broadcast use vstd::multiset::group_multiset_axioms;

        let mut m: usize = 0;
        let mut j: usize = 1;
        while j < src.len()
            invariant
                0 <= m < j <= src@.len(),
                forall|t: int| 0 <= t < j ==> le_in(k, d, src@[m as int], #[trigger] src@[t]),
            decreases src@.len() - j,
        {
            if le_records(k, d, &src[j], &src[m]) {
                m = j;
            }
            j = j + 1;
        }
        let ghost src_before = src@;
        let ghost out_before = out@;
        let x = src.remove(m);
        out.push(x);
        proof {
            vstd::seq_lib::to_multiset_remove(src_before, m as int);
            assert(out@.to_multiset().add(src@.to_multiset()) =~= out_before.to_multiset().add(
                src_before.to_multiset(),
            ));
            assert(forall|t: int|
                0 <= t < src@.len() ==> #[trigger] src@[t] == (if t < m as int {
                    src_before[t]
                } else {
                    src_before[t + 1]
                }));
            assert(forall|t: int| 0 <= t < src@.len() ==> le_in(k, d, x, #[trigger] src@[t]));
            assert(forall|a: int|
                0 <= a < out@.len() ==> #[trigger] out@[a] == (if a < out_before.len() {
                    out_before[a]
                } else {
                    x
                }));
        }
    }
    proof {
        assert(src@.to_multiset() =~= Multiset::<HeroStats>::empty());
        assert(out@.to_multiset() =~= orig.to_multiset());
        vstd::seq_lib::to_multiset_len(out@);
        vstd::seq_lib::to_multiset_len(orig);
    }
    out
}

impl StatStore {
    /// Run a read request against the table: every row the present filters
    /// accept, in table order, sorted as requested when a sort key is given.
    pub fn run_query(&self, p: &HeroQueryParams) -> (r: Vec<HeroStats>)
        ensures
            p.order_by is None ==> r@ == selected(self.rows@, *p),
            p.order_by is Some ==> r@.to_multiset() == selected(self.rows@, *p).to_multiset()
                && sorted_by(r@, p.order_by->0, effective_order(*p)),
            r@.len() == selected(self.rows@, *p).len(),
    {
        let mut out: Vec<HeroStats> = Vec::new();
        let mut i: usize = 0;
        assert(self.rows@.take(0) =~= Seq::<HeroStats>::empty());
        assert(Seq::<HeroStats>::empty().filter(match_pred(*p)) =~= Seq::<HeroStats>::empty())
            by {
            reveal(Seq::filter);
        }
        while i < self.rows.len()
            invariant
                i <= self.rows@.len(),
                out@ == selected(self.rows@.take(i as int), *p),
            decreases self.rows@.len() - i,
        {
            let row = &self.rows[i];
            proof {
                lemma_selected_push(self.rows@.take(i as int), self.rows@[i as int], *p);
                assert(self.rows@.take(i as int + 1) =~= self.rows@.take(i as int).push(
                    self.rows@[i as int],
                ));
            }
            if matches(row, p) {
                out.push(row.clone());
            }
            i = i + 1;
        }
        assert(self.rows@.take(self.rows@.len() as int) =~= self.rows@);
        if let Some(key) = &p.order_by {
            let dir = match &p.order {
                Some(d) => *d,
                None => Order::Asc,
            };
            sort_records(out, *key, dir)
        } else {
            out
        }
    }
}

/// Index of the first row with surrogate id `id`, or `-1` when none has it.
pub open spec fn find_id(rows: Seq<HeroStats>, id: i32) -> int
    decreases rows.len(),
{
    if rows.len() == 0 {
        -1
    } else if rows[0].id == id {
        0
    } else {
        let rest = find_id(rows.drop_first(), id);
        if rest < 0 {
            -1
        } else {
            rest + 1
        }
    }
}

/// What [`find_id`] returns: the first index holding the id when one
/// exists, `-1` exactly when none does.
pub proof fn lemma_find_id(rows: Seq<HeroStats>, id: i32)
    ensures
        find_id(rows, id) >= 0 ==> find_id(rows, id) < rows.len() && rows[find_id(rows, id)].id
            == id,
        find_id(rows, id) >= 0 ==> forall|i: int|
            0 <= i < find_id(rows, id) ==> (#[trigger] rows[i]).id != id,
        find_id(rows, id) < 0 ==> forall|i: int|
            0 <= i < rows.len() ==> (#[trigger] rows[i]).id != id,
    decreases rows.len(),
{
    if rows.len() > 0 && rows[0].id != id {
        lemma_find_id(rows.drop_first(), id);
        assert(forall|i: int|
            1 <= i < rows.len() ==> #[trigger] rows[i] == rows.drop_first()[i - 1]);
    }
}

impl StatStore {
    /// Index of the first row with surrogate id `id`, if any.
    fn find_by_id(&self, id: i32) -> (r: Option<usize>)
        ensures
            (match r {
                Some(i) => i as int == find_id(self.rows@, id),
                None => find_id(self.rows@, id) == -1,
            }),
    {
        proof {
            lemma_find_id(self.rows@, id);
        }
        let mut i: usize = 0;
        while i < self.rows.len()
            invariant
                i <= self.rows@.len(),
                forall|j: int| 0 <= j < i ==> (#[trigger] self.rows@[j]).id != id,
            decreases self.rows@.len() - i,
        {
            if self.rows[i].id == id {
                proof {
                    lemma_find_id(self.rows@, id);
                }
                return Some(i);
            }
            i = i + 1;
        }
        proof {
            lemma_find_id(self.rows@, id);
        }
        None
    }

    /// Fetch the row with surrogate id `id`, or report that no such
    /// resource exists.
    pub fn get_by_id(&self, id: i32) -> (r: Result<HeroStats, AppError>)
        ensures
            (match r {
                Ok(row) => find_id(self.rows@, id) >= 0 && row == self.rows@[find_id(
                    self.rows@,
                    id,
                )],
                Err(e) => ({
                    &&& find_id(self.rows@, id) < 0
                    &&& e matches AppError::NotFound { resource } && resource@ == "Hero"@
                }),
            }),
    {
        match self.find_by_id(id) {
            Some(i) => {
                proof {
                    lemma_find_id(self.rows@, id);
                }
                Ok(self.rows[i].clone())
            },
            None => Err(AppError::NotFound { resource: String::from_str("Hero") }),
        }
    }

    /// Delete the row with surrogate id `id`; report when no row was
    /// affected. Under well-formedness ids are unique, so removing the
    /// first hit removes every row with that id.
    pub fn delete_by_id(&mut self, id: i32) -> (r: Result<(), AppError>)
        requires
            old(self).wf(),
        ensures
            final(self).wf(),
            final(self).next_id == old(self).next_id,
            (match r {
                Ok(()) => find_id(old(self).rows@, id) >= 0 && final(self).rows@ == old(
                    self,
                ).rows@.remove(find_id(old(self).rows@, id)),
                Err(e) => ({
                    &&& find_id(old(self).rows@, id) < 0
                    &&& *final(self) == *old(self)
                    &&& e matches AppError::NotFound { resource } && resource@ == "Hero"@
                }),
            }),
    {
        match self.find_by_id(id) {
            Some(i) => {
                proof {
                    lemma_find_id(self.rows@, id);
                }
                let ghost before = self.rows@;
                let _ = self.rows.remove(i);
                proof {
                    assert(forall|t: int|
                        0 <= t < self.rows@.len() ==> #[trigger] self.rows@[t] == (if t < i as int {
                            before[t]
                        } else {
                            before[t + 1]
                        }));
                }
                Ok(())
            },
            None => Err(AppError::NotFound { resource: String::from_str("Hero") }),
        }
    }

    /// Insert one candidate as a brand-new row, as the single-record create
    /// path does: no merge — a natural-key conflict or an invalid row is a
    /// store error, and the table is left untouched.
    pub fn insert_new(&mut self, c: &CreateHeroStats, now: i64) -> (r: Result<HeroStats, AppError>)
        requires
            old(self).wf(),
            old(self).next_id < i32::MAX,
        ensures
            final(self).wf(),
            (match r {
                Ok(row) => ({
                    &&& row_ok(*c)
                    &&& find_key(old(self).rows@, candidate_key(*c, now)) < 0
                    &&& row == new_row(*c, old(self).next_id, spec_key_time(*c, now), now)
                    &&& final(self).rows@ == old(self).rows@.push(row)
                    &&& final(self).next_id == old(self).next_id + 1
                }),
                Err(e) => ({
                    &&& (!row_ok(*c) || find_key(old(self).rows@, candidate_key(*c, now)) >= 0)
                    &&& *final(self) == *old(self)
                    &&& e is Database
                }),
            }),
    {
        proof {
            lemma_find_key(self.rows@, candidate_key(*c, now));
        }
        if !crate::model::check_row_ok(c) {
            return Err(AppError::Database {
                message: String::from_str("null value in column \"hero_id\""),
            });
        }
        let kt = key_time(c, now);
        match self.find_match(c, now) {
            Some(_) => Err(AppError::Database {
                message: String::from_str("duplicate key value violates unique constraint"),
            }),
            None => {
                let fresh = HeroStats {
                    id: self.next_id,
                    hero_id: c.hero_id.clone(),
                    hero_class: c.hero_class,
                    pick_rate: c.pick_rate,
                    win_rate: c.win_rate,
                    region: c.region.clone(),
                    platform: c.platform.clone(),
                    gamemode: c.gamemode.clone(),
                    map: c.map.clone(),
                    map_type: c.map_type,
                    tier: c.tier.clone(),
                    inserted_at: kt,
                    updated_at: now,
                };
                assert(fresh == new_row(*c, old(self).next_id, spec_key_time(*c, now), now));
                proof {
                    lemma_new_row_key(*c, old(self).next_id, now);
                    lemma_find_key(self.rows@, candidate_key(*c, now));
                }
                let out = fresh.clone();
                self.rows.push(fresh);
                self.next_id = self.next_id + 1;
                Ok(out)
            },
        }
    }
}

/// Ingesting the same snapshot twice merges, never duplicates: a second
/// upsert with the same natural key leaves the row count and every other row
/// untouched, stores the second call's rates, keeps `inserted_at`, and
/// advances `updated_at` to the second call's time.
pub proof fn lemma_upsert_idempotent(
    rows: Seq<HeroStats>,
    next_id: i32,
    c1: CreateHeroStats,
    c2: CreateHeroStats,
    now1: i64,
    now2: i64,
)
    requires
        wf_rows(rows, next_id as int),
        next_id < i32::MAX,
        candidate_key(c1, now1) == candidate_key(c2, now2),
    ensures
        ({
            let (rows1, id1) = upsert_result(rows, next_id, c1, now1);
            let (rows2, id2) = upsert_result(rows1, id1, c2, now2);
            let k = candidate_key(c2, now2);
            let i = find_key(rows1, k);
            &&& 0 <= i < rows1.len()
            &&& rows2.len() == rows1.len()
            &&& id2 == id1
            &&& rows2 == rows1.update(i, merged_row(rows1[i], c2, now2))
            &&& rows2[i].pick_rate == c2.pick_rate
            &&& rows2[i].win_rate == c2.win_rate
            &&& rows2[i].inserted_at == rows1[i].inserted_at
            &&& rows2[i].inserted_at as int == candidate_key(c1, now1).inserted_at
            &&& rows2[i].updated_at == now2
            &&& forall|j: int| 0 <= j < rows1.len() && j != i ==> rows2[j] == rows1[j]
        }),
{
    let k = candidate_key(c1, now1);
    lemma_find_key(rows, k);
    let i0 = find_key(rows, k);
    let (rows1, id1) = upsert_result(rows, next_id, c1, now1);
    if i0 >= 0 {
        lemma_find_key_update(rows, i0, merged_row(rows[i0], c1, now1), k);
        assert(find_key(rows1, k) == i0);
    } else {
        lemma_new_row_key(c1, next_id, now1);
        lemma_find_key_push(rows, k, new_row(c1, next_id, spec_key_time(c1, now1), now1));
        assert(find_key(rows1, k) == rows.len());
    }
    lemma_find_key(rows1, k);
    let i = find_key(rows1, k);
    assert(key_of(rows1[i]) == k);
    assert(rows1[i].inserted_at as int == k.inserted_at);
}

} // verus!
