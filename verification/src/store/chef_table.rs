use vstd::prelude::*;
use vstd::seq_lib::*;

use crate::entities::bakery;
use crate::entities::chef::{
    apply_update, filter_matches, inserted_row, ActiveModel, ActiveModelView, Filter, FilterView,
    Model, ModelView,
};
use crate::error::StoreError;

verus! {

/// Mathematical view of the chef table: its rows in store order, and the
/// key the next insert receives.
pub struct TableView {
    pub rows: Seq<ModelView>,
    pub next_id: int,
}

/// Well-formedness: keys are positive, pairwise distinct, and below the key
/// the next insert receives.
pub open spec fn wf(t: TableView) -> bool {
    &&& 1 <= t.next_id <= i32::MAX
    &&& forall|i: int| 0 <= i < t.rows.len() ==> 1 <= #[trigger] t.rows[i].id < t.next_id
    &&& forall|i: int, j: int|
        0 <= i < j < t.rows.len() ==> #[trigger] t.rows[i].id != #[trigger] t.rows[j].id
}

/// The first row carrying `key`, scanning in store order. Under `wf` there
/// is at most one such row.
pub open spec fn find_row(rows: Seq<ModelView>, key: int) -> Option<ModelView>
    decreases rows.len(),
{
    if rows.len() == 0 {
        None
    } else if rows[0].id == key {
        Some(rows[0])
    } else {
        find_row(rows.subrange(1, rows.len() as int), key)
    }
}

/// Whether some row carries `key`.
pub open spec fn has_key(rows: Seq<ModelView>, key: int) -> bool {
    exists|i: int| 0 <= i < rows.len() && #[trigger] rows[i].id == key
}

/// Every row carrying `key` with the partial applied; all others unchanged.
pub open spec fn update_rows(rows: Seq<ModelView>, key: int, am: ActiveModelView) -> Seq<
    ModelView,
> {
    rows.map_values(
        |m: ModelView|
            if m.id == key {
                apply_update(m, am)
            } else {
                m
            },
    )
}

/// The rows that remain once every row carrying `key` is removed.
pub open spec fn delete_rows(rows: Seq<ModelView>, key: int) -> Seq<ModelView> {
    rows.filter(|m: ModelView| m.id != key)
}

/// The rows matching a field-equals-literal predicate, in store order.
pub open spec fn filtered_rows(rows: Seq<ModelView>, f: FilterView) -> Seq<ModelView> {
    rows.filter(|m: ModelView| filter_matches(m, f))
}

/// The verified in-memory `chef` table: the reference semantics of the
/// data-access layer for the chef entity. Every operation is a fresh pass
/// over the rows; nothing is cached between calls.
pub struct ChefTable {
    rows: Vec<Model>,
    next_id: i32,
}

impl View for ChefTable {
    type V = TableView;

    closed spec fn view(&self) -> TableView {
        TableView { rows: self.rows.deep_view(), next_id: self.next_id as int }
    }
}

impl ChefTable {
    /// An empty table; the first insert receives key 1.
    pub fn new() -> (t: Self)
        ensures
            t@.rows.len() == 0,
            t@.next_id == 1,
            wf(t@),
    {
        ChefTable { rows: Vec::new(), next_id: 1 }
    }

    /// Inserts a partial record. The name and the foreign key to the
    /// owning bakery are required and the absence of either is a
    /// constraint violation; unset contact details take the column's null.
    /// On success the store-assigned key is returned and the new row sits
    /// at the end of the table.
    pub fn insert(&mut self, am: ActiveModel) -> (r: Result<i32, StoreError>)
        requires
            wf(old(self)@),
            old(self)@.next_id < i32::MAX,
        ensures
            wf(final(self)@),
            am@.name is None || am@.bakery_id is None ==> r == Err::<i32, StoreError>(
                StoreError::Constraint,
            ) && final(self)@ == old(self)@,
            am@.name is Some && am@.bakery_id is Some ==> {
                &&& r == Ok::<i32, StoreError>(old(self)@.next_id as i32)
                &&& final(self)@.rows == old(self)@.rows.push(
                    inserted_row(am@, old(self)@.next_id),
                )
                &&& final(self)@.next_id == old(self)@.next_id + 1
            },
    {
        if !am.insertable() {
            return Err(StoreError::Constraint);
        }
        let ghost amv = am@;
        let ActiveModel { name, contact_details, bakery_id } = am;
        let id = self.next_id;
        self.next_id = id + 1;
        let row = Model {
            id: id,
            name: name.unwrap(),
            contact_details: match contact_details {
                Some(c) => c,
                None => None,
            },
            bakery_id: bakery_id.unwrap(),
        };
        proof {
            assert(row@ == inserted_row(amv, id as int));
        }
        self.rows.push(row);
        proof {
            assert(self@.rows =~= old(self)@.rows.push(inserted_row(amv, old(self)@.next_id)));
            assert forall|i: int| 0 <= i < self@.rows.len() implies 1 <= #[trigger] self@.rows[i].id
                < self@.next_id by {
                if i < old(self)@.rows.len() {
                    assert(old(self)@.rows[i].id < old(self)@.next_id);
                }
            }
            assert forall|i: int, j: int| 0 <= i < j < self@.rows.len() implies #[trigger] self@
                .rows[i].id != #[trigger] self@.rows[j].id by {
                if j < old(self)@.rows.len() {
                } else {
                    assert(self@.rows[i].id < old(self)@.next_id);
                }
            }
        }
        Ok(id)
    }

    /// Applies the set fields of `am` to the record carrying `key`; unset
    /// fields keep their stored value, and the key never moves. A key no
    /// record carries is reported as `NotFound` and changes nothing — this
    /// table makes the miss-policy explicit rather than a silent no-op.
    pub fn update_by_key(&mut self, key: i32, am: ActiveModel) -> (r: Result<(), StoreError>)
        requires
            wf(old(self)@),
        ensures
            wf(final(self)@),
            final(self)@.next_id == old(self)@.next_id,
            final(self)@.rows == update_rows(old(self)@.rows, key as int, am@),
            has_key(old(self)@.rows, key as int) ==> r == Ok::<(), StoreError>(()),
            !has_key(old(self)@.rows, key as int) ==> r == Err::<(), StoreError>(
                StoreError::NotFound,
            ),
    {
        let n = self.rows.len();
        let mut i: usize = 0;
        while i < n
            invariant
                *self == *old(self),
                n == self.rows@.len(),
                i <= n,
                wf(self@),
                forall|k: int| 0 <= k < i ==> #[trigger] self@.rows[k].id != key as int,
            decreases n - i,
        {
            if self.rows[i].id == key {
                let current = &self.rows[i];
                let new_name = match &am.name {
                    Some(s) => s.clone(),
                    None => current.name.clone(),
                };
                let new_contact = match &am.contact_details {
                    Some(Some(s)) => Some(s.clone()),
                    Some(None) => None,
                    None => match &current.contact_details {
                        Some(s) => Some(s.clone()),
                        None => None,
                    },
                };
                let new_bakery = match am.bakery_id {
                    Some(b) => b,
                    None => current.bakery_id,
                };
                let updated = Model {
                    id: current.id,
                    name: new_name,
                    contact_details: new_contact,
                    bakery_id: new_bakery,
                };
                proof {
                    assert(updated@ == apply_update(old(self)@.rows[i as int], am@));
                }
                self.rows[i] = updated;
                proof {
                    assert(has_key(old(self)@.rows, key as int)) by {
                        assert(old(self)@.rows[i as int].id == key as int);
                    }
                    assert(self@.rows =~= update_rows(old(self)@.rows, key as int, am@));
                    assert forall|p: int, q: int| 0 <= p < q < self@.rows.len() implies #[trigger] self@
                        .rows[p].id != #[trigger] self@.rows[q].id by {
                        assert(old(self)@.rows[p].id != old(self)@.rows[q].id);
                    }
                }
                return Ok(());
            }
            i += 1;
        }
        proof {
            assert(self@.rows =~= update_rows(old(self)@.rows, key as int, am@));
        }
        Err(StoreError::NotFound)
    }

    /// Removes the record carrying `key`, if any. Deleting an absent key
    /// succeeds unchanged: delete is idempotent.
    pub fn delete_by_key(&mut self, key: i32) -> (r: Result<(), StoreError>)
        requires
            wf(old(self)@),
        ensures
            wf(final(self)@),
            final(self)@.next_id == old(self)@.next_id,
            final(self)@.rows == delete_rows(old(self)@.rows, key as int),
            r == Ok::<(), StoreError>(()),
    {
        let n = self.rows.len();
        let mut kept: Vec<Model> = Vec::new();
        let mut i: usize = 0;
        while i < n
            invariant
                *self == *old(self),
                n == self.rows@.len(),
                i <= n,
                kept.deep_view() == delete_rows(self@.rows.subrange(0, i as int), key as int),
            decreases n - i,
        {
            proof {
                assert(self@.rows.subrange(0, i as int + 1) =~= self@.rows.subrange(
                    0,
                    i as int,
                ).push(self@.rows[i as int]));
                lemma_delete_rows_push(self@.rows.subrange(0, i as int), self@.rows[i as int], key as int);
            }
            if self.rows[i].id != key {
                kept.push(self.rows[i].clone());
                proof {
                    assert(kept.deep_view() =~= delete_rows(
                        self@.rows.subrange(0, i as int + 1),
                        key as int,
                    ));
                }
            }
            i += 1;
        }
        proof {
            assert(self@.rows.subrange(0, n as int) =~= self@.rows);
            lemma_delete_rows_wf(old(self)@, key as int);
        }
        self.rows = kept;
        Ok(())
    }

    /// Removes every record and reports how many there were. The key
    /// counter is not reset: the store never reuses a key.
    pub fn delete_all(&mut self) -> (n: usize)
        requires
            wf(old(self)@),
        ensures
            wf(final(self)@),
            final(self)@.next_id == old(self)@.next_id,
            final(self)@.rows.len() == 0,
            n == old(self)@.rows.len(),
    {
        let n = self.rows.len();
        self.rows = Vec::new();
        n
    }

    /// Every record, in store order.
    pub fn find_all(&self) -> (v: Vec<Model>)
        ensures
            v.deep_view() == self@.rows,
    {
        let mut v: Vec<Model> = Vec::new();
        let mut i: usize = 0;
        while i < self.rows.len()
            invariant
                i <= self.rows@.len(),
                v.deep_view() == self@.rows.subrange(0, i as int),
            decreases self.rows@.len() - i,
        {
            let m = self.rows[i].clone();
            proof {
                assert(m.deep_view() == self@.rows[i as int]);
            }
            let ghost vprev = v.deep_view();
            v.push(m);
            proof {
                assert(v.deep_view().len() == vprev.len() + 1);
                assert forall|k: int| 0 <= k < vprev.len() implies v.deep_view()[k]
                    == vprev[k] by {}
                assert(v.deep_view()[vprev.len() as int] == m.deep_view());
                assert(v.deep_view() =~= self@.rows.subrange(0, i as int + 1));
            }
            i += 1;
        }
        proof {
            assert(self@.rows.subrange(0, self.rows@.len() as int) =~= self@.rows);
        }
        v
    }

    /// The single record carrying `key`, or nothing when no record does.
    pub fn find_by_key(&self, key: i32) -> (r: Option<Model>)
        requires
            wf(self@),
        ensures
            r.deep_view() == find_row(self@.rows, key as int),
    {
        let n = self.rows.len();
        let mut i: usize = 0;
        while i < n
            invariant
                n == self.rows@.len(),
                i <= n,
                forall|k: int| 0 <= k < i ==> #[trigger] self@.rows[k].id != key as int,
            decreases n - i,
        {
            if self.rows[i].id == key {
                let found = self.rows[i].clone();
                proof {
                    lemma_find_row_skips_misses(self@.rows, key as int, i as int);
                    assert(self@.rows.subrange(i as int, n as int)[0] == self@.rows[i as int]);
                }
                return Some(found);
            }
            i += 1;
        }
        proof {
            lemma_find_row_skips_misses(self@.rows, key as int, n as int);
            assert(self@.rows.subrange(n as int, n as int) =~= Seq::<ModelView>::empty());
        }
        None
    }

    /// The records matching a field-equals-literal predicate, in store
    /// order: exactly those rows whose named field equals the literal.
    pub fn find_where(&self, f: &Filter) -> (v: Vec<Model>)
        ensures
            v.deep_view() == filtered_rows(self@.rows, f@),
    {
        let n = self.rows.len();
        let mut v: Vec<Model> = Vec::new();
        let mut i: usize = 0;
        while i < n
            invariant
                n == self.rows@.len(),
                i <= n,
                v.deep_view() == filtered_rows(self@.rows.subrange(0, i as int), f@),
            decreases n - i,
        {
            proof {
                assert(self@.rows.subrange(0, i as int + 1) =~= self@.rows.subrange(
                    0,
                    i as int,
                ).push(self@.rows[i as int]));
                lemma_filtered_rows_push(self@.rows.subrange(0, i as int), self@.rows[i as int], f@);
            }
            let hit = match f {
                Filter::IdEq(k) => self.rows[i].id == *k,
                Filter::NameEq(name) => self.rows[i].name == *name,
                Filter::BakeryIdEq(k) => self.rows[i].bakery_id == *k,
            };
            if hit {
                v.push(self.rows[i].clone());
            }
            proof {
                assert(v.deep_view() =~= filtered_rows(
                    self@.rows.subrange(0, i as int + 1),
                    f@,
                ));
            }
            i += 1;
        }
        proof {
            assert(self@.rows.subrange(0, n as int) =~= self@.rows);
        }
        v
    }

    /// The chefs of one bakery: the relationship-traversal primitive. A
    /// parent record captured on a first query keys a second query over
    /// the chef table's foreign key — no eager join.
    pub fn find_related(&self, parent: &bakery::Model) -> (v: Vec<Model>)
        ensures
            v.deep_view() == related_rows(self@.rows, parent.id),
    {
        self.find_where(&Filter::BakeryIdEq(parent.id))
    }
}

/// The chefs whose foreign key names the bakery with key `bakery_id`, in
/// store order.
pub open spec fn related_rows(rows: Seq<ModelView>, bakery_id: i32) -> Seq<ModelView> {
    filtered_rows(rows, FilterView::BakeryIdEq(bakery_id))
}

/// The names of those chefs, in store order.
pub open spec fn related_names(rows: Seq<ModelView>, bakery_id: i32) -> Seq<Seq<char>> {
    related_rows(rows, bakery_id).map_values(|c: ModelView| c.name)
}

/// The table contents after inserting one chef per name in `names`, in
/// order, each with the given foreign key and no contact details; paired
/// with the next key after those inserts.
pub open spec fn insert_all_for_bakery(
    rows: Seq<ModelView>,
    next: int,
    names: Seq<Seq<char>>,
    bakery_id: i32,
) -> (Seq<ModelView>, int)
    decreases names.len(),
{
    if names.len() == 0 {
        (rows, next)
    } else {
        let am = ActiveModelView {
            name: Some(names[0]),
            contact_details: None,
            bakery_id: Some(bakery_id),
        };
        insert_all_for_bakery(
            rows.push(inserted_row(am, next)),
            next + 1,
            names.subrange(1, names.len() as int),
            bakery_id,
        )
    }
}

/// Relationship consistency: inserting chefs named `names`, all with
/// foreign key `bakery_id`, appends exactly those names to that bakery's
/// related names; a bakery that had no chefs ends with exactly the
/// inserted names, in insertion order — so the unordered collection of
/// returned names equals the unordered collection of inserted names.
pub proof fn lemma_relationship_consistency(
    rows: Seq<ModelView>,
    next: int,
    names: Seq<Seq<char>>,
    bakery_id: i32,
)
    ensures
        related_names(insert_all_for_bakery(rows, next, names, bakery_id).0, bakery_id)
            == related_names(rows, bakery_id) + names,
        related_rows(rows, bakery_id).len() == 0 ==> related_names(
            insert_all_for_bakery(rows, next, names, bakery_id).0,
            bakery_id,
        ) == names,
    decreases names.len(),
{
    if names.len() == 0 {
        assert(related_names(rows, bakery_id) + names =~= related_names(rows, bakery_id));
        if related_rows(rows, bakery_id).len() == 0 {
            assert(related_names(rows, bakery_id) =~= names);
        }
    } else {
        let am = ActiveModelView {
            name: Some(names[0]),
            contact_details: None,
            bakery_id: Some(bakery_id),
        };
        let x = inserted_row(am, next);
        let r1 = rows.push(x);
        lemma_filtered_rows_push(rows, x, FilterView::BakeryIdEq(bakery_id));
        assert(related_rows(r1, bakery_id) == related_rows(rows, bakery_id).push(x));
        assert(related_names(r1, bakery_id) =~= related_names(rows, bakery_id).push(names[0]));
        let tail = names.subrange(1, names.len() as int);
        lemma_relationship_consistency(r1, next + 1, tail, bakery_id);
        assert(insert_all_for_bakery(rows, next, names, bakery_id) == insert_all_for_bakery(
            r1,
            next + 1,
            tail,
            bakery_id,
        ));
        assert(related_names(rows, bakery_id).push(names[0]) + tail =~= related_names(
            rows,
            bakery_id,
        ) + names);
        if related_rows(rows, bakery_id).len() == 0 {
            assert(related_names(rows, bakery_id) + names =~= names);
        }
    }
}

/// Appending a row and then deleting by key is deleting first and appending
/// the row unless it carries the key.
proof fn lemma_delete_rows_push(rows: Seq<ModelView>, x: ModelView, key: int)
    ensures
        delete_rows(rows.push(x), key) == if x.id != key {
            delete_rows(rows, key).push(x)
        } else {
            delete_rows(rows, key)
        },
{
    reveal(Seq::filter);
    assert(rows.push(x).drop_last() =~= rows);
}

/// Appending a row and then filtering is filtering first and appending the
/// row when it matches.
proof fn lemma_filtered_rows_push(rows: Seq<ModelView>, x: ModelView, f: FilterView)
    ensures
        filtered_rows(rows.push(x), f) == if filter_matches(x, f) {
            filtered_rows(rows, f).push(x)
        } else {
            filtered_rows(rows, f)
        },
{
    reveal(Seq::filter);
    assert(rows.push(x).drop_last() =~= rows);
}

/// Scanning past a prefix of misses does not change what `find_row` finds.
proof fn lemma_find_row_skips_misses(rows: Seq<ModelView>, key: int, j: int)
    requires
        0 <= j <= rows.len(),
        forall|k: int| 0 <= k < j ==> #[trigger] rows[k].id != key,
    ensures
        find_row(rows, key) == find_row(rows.subrange(j, rows.len() as int), key),
    decreases j,
{
    if j == 0 {
        assert(rows.subrange(0, rows.len() as int) =~= rows);
    } else {
        assert(rows[0].id != key);
        let tail = rows.subrange(1, rows.len() as int);
        assert forall|k: int| 0 <= k < j - 1 implies #[trigger] tail[k].id != key by {
            assert(tail[k] == rows[k + 1]);
        }
        lemma_find_row_skips_misses(tail, key, j - 1);
        assert(tail.subrange(j - 1, tail.len() as int) =~= rows.subrange(j, rows.len() as int));
        assert(find_row(rows, key) == find_row(tail, key));
    }
}

/// What deleting leaves behind is drawn from the rows it started from, and none
/// of it carries the deleted key.
pub proof fn lemma_delete_rows_contains(rows: Seq<ModelView>, key: int)
    ensures
        forall|e: ModelView| #[trigger]
            delete_rows(rows, key).contains(e) ==> rows.contains(e) && e.id != key,
    decreases rows.len(),
{
    if rows.len() == 0 {
        reveal(Seq::filter);
    } else {
        let prefix = rows.drop_last();
        let x = rows.last();
        assert(rows =~= prefix.push(x));
        lemma_delete_rows_push(prefix, x, key);
        lemma_delete_rows_contains(prefix, key);
        let d = delete_rows(rows, key);
        assert forall|e: ModelView| #[trigger] d.contains(e) implies rows.contains(e) && e.id
            != key by {
            let dp = delete_rows(prefix, key);
            if x.id != key && e == x {
                assert(rows[rows.len() - 1] == x);
            } else {
                assert(dp.contains(e)) by {
                    let i = choose|i: int| 0 <= i < d.len() && d[i] == e;
                    if x.id != key {
                        assert(d == dp.push(x));
                        assert(d[i] == e && e != x);
                        assert(i < dp.len() && dp[i] == e);
                    }
                }
                assert(prefix.contains(e));
                let j = choose|j: int| 0 <= j < prefix.len() && prefix[j] == e;
                assert(rows[j] == e);
            }
        }
    }
}

/// Deleting by key preserves well-formedness: what remains is drawn from
/// the rows it started from, so keys stay positive, bounded and distinct.
proof fn lemma_delete_rows_wf(t: TableView, key: int)
    requires
        wf(t),
    ensures
        wf(TableView { rows: delete_rows(t.rows, key), next_id: t.next_id }),
    decreases t.rows.len(),
{
    if t.rows.len() == 0 {
        reveal(Seq::filter);
    } else {
        let prefix = t.rows.drop_last();
        let x = t.rows.last();
        assert(t.rows =~= prefix.push(x));
        lemma_delete_rows_push(prefix, x, key);
        assert(wf(TableView { rows: prefix, next_id: t.next_id })) by {
            assert forall|i: int| 0 <= i < prefix.len() implies 1 <= #[trigger] prefix[i].id
                < t.next_id by {
                assert(prefix[i] == t.rows[i]);
            }
        }
        lemma_delete_rows_wf(TableView { rows: prefix, next_id: t.next_id }, key);
        lemma_delete_rows_contains(prefix, key);
        let dp = delete_rows(prefix, key);
        let d = delete_rows(t.rows, key);
        let ghost dpt = TableView { rows: dp, next_id: t.next_id };
        assert(wf(dpt));
        assert forall|i: int| 0 <= i < dp.len() implies 1 <= (#[trigger] dp[i]).id
            < t.next_id by {
            assert(1 <= dpt.rows[i].id < dpt.next_id);
        }
        assert forall|i: int, j: int| 0 <= i < j < dp.len() implies (#[trigger] dp[i]).id != (
        #[trigger] dp[j]).id by {
            assert(dpt.rows[i].id != dpt.rows[j].id);
        }
        if x.id != key {
            assert(d == dp.push(x));
            assert forall|i: int| 0 <= i < d.len() implies 1 <= #[trigger] d[i].id
                < t.next_id by {
                if i < dp.len() {
                    assert(d[i] == dp[i]);
                    assert(1 <= dp[i].id < t.next_id);
                } else {
                    assert(d[i] == x && x == t.rows[t.rows.len() - 1]);
                    assert(1 <= t.rows[t.rows.len() - 1].id < t.next_id);
                }
            }
            assert forall|i: int, j: int| 0 <= i < j < d.len() implies #[trigger] d[i].id
                != #[trigger] d[j].id by {
                if j < dp.len() {
                    assert(d[i] == dp[i] && d[j] == dp[j]);
                    assert(dp[i].id != dp[j].id);
                } else {
                    assert(d[j] == x);
                    assert(dp.contains(d[i])) by {
                        assert(dp[i] == d[i]);
                    }
                    assert(prefix.contains(d[i]));
                    let p = choose|p: int| 0 <= p < prefix.len() && prefix[p] == d[i];
                    assert(t.rows[p] == d[i] && t.rows[t.rows.len() - 1] == x);
                    assert(t.rows[p].id != t.rows[t.rows.len() - 1].id);
                }
            }
        }
    }
}

/// Round trip: inserting a chef into a well-formed table and then fetching
/// it by the returned key yields exactly the inserted values — the
/// store-assigned key, the set fields, and null for unset contact details.
pub proof fn lemma_insert_round_trip(t: TableView, am: ActiveModelView)
    requires
        wf(t),
        am.name is Some,
        am.bakery_id is Some,
    ensures
        find_row(t.rows.push(inserted_row(am, t.next_id)), t.next_id) == Some(
            inserted_row(am, t.next_id),
        ),
{
    let rows = t.rows.push(inserted_row(am, t.next_id));
    assert forall|k: int| 0 <= k < t.rows.len() implies #[trigger] rows[k].id != t.next_id by {
        assert(rows[k] == t.rows[k]);
        assert(t.rows[k].id < t.next_id);
    }
    lemma_find_row_skips_misses(rows, t.next_id, t.rows.len() as int);
    let tail = rows.subrange(t.rows.len() as int, rows.len() as int);
    assert(tail.len() == 1);
    assert(tail[0] == inserted_row(am, t.next_id));
}

/// Fetching after an update by key yields the previously stored record
/// with the partial applied; a key that was absent stays absent.
pub proof fn lemma_update_then_find(rows: Seq<ModelView>, key: int, am: ActiveModelView)
    ensures
        find_row(update_rows(rows, key, am), key) == match find_row(rows, key) {
            Some(m) => Some(apply_update(m, am)),
            None => None::<ModelView>,
        },
    decreases rows.len(),
{
    let u = update_rows(rows, key, am);
    if rows.len() == 0 {
        assert(u.len() == 0);
    } else {
        assert(u[0] == if rows[0].id == key {
            apply_update(rows[0], am)
        } else {
            rows[0]
        });
        if rows[0].id == key {
            assert(apply_update(rows[0], am).id == rows[0].id);
            assert(find_row(u, key) == Some(u[0]));
        } else {
            lemma_update_then_find(rows.subrange(1, rows.len() as int), key, am);
            assert(u.subrange(1, u.len() as int) =~= update_rows(
                rows.subrange(1, rows.len() as int),
                key,
                am,
            ));
        }
    }
}

/// Partial update preserves unset fields: after updating the chef under
/// `key`, every field the partial leaves unset reads back unchanged — in
/// particular, leaving the nullable contact column unset is not the same
/// as setting it to null — and the key itself never moves.
pub proof fn lemma_update_preserves_unset(rows: Seq<ModelView>, key: int, am: ActiveModelView)
    requires
        find_row(rows, key) is Some,
    ensures
        find_row(update_rows(rows, key, am), key) is Some,
        find_row(update_rows(rows, key, am), key).unwrap().id == find_row(rows, key).unwrap().id,
        am.name is None ==> find_row(update_rows(rows, key, am), key).unwrap().name == find_row(
            rows,
            key,
        ).unwrap().name,
        am.contact_details is None ==> find_row(update_rows(rows, key, am), key).unwrap()
            .contact_details == find_row(rows, key).unwrap().contact_details,
        am.bakery_id is None ==> find_row(update_rows(rows, key, am), key).unwrap().bakery_id
            == find_row(rows, key).unwrap().bakery_id,
{
    lemma_update_then_find(rows, key, am);
}

} // verus!
