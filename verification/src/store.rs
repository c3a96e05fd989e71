//! The durable store of task projections: insert-or-overwrite by id,
//! point lookup, and listing by status ordered by creation time, newest
//! first.
//!
//! The table is a verified in-memory structure; mirroring it to a
//! database on disk is the embedding program's affair.  A task's
//! pipeline is never part of the stored projection.

use vstd::prelude::*;
use crate::error::LuminaError;
use crate::task::{Task, TaskView, TaskStatus};
use crate::strutil::{lex_le, str_eq, str_lex_le, lemma_lex_le_total, lemma_lex_le_trans};

verus! {

/// The stored projection of a task: everything but the pipeline.
pub open spec fn proj_row(t: TaskView) -> TaskView {
    TaskView { graph: None, ..t }
}

/// First-match lookup by id.
pub open spec fn row_lookup(rows: Seq<TaskView>, id: Seq<char>) -> Option<TaskView>
    decreases rows.len(),
{
    if rows.len() == 0 {
        None
    } else if rows[0].id == id {
        Some(rows[0])
    } else {
        row_lookup(rows.skip(1), id)
    }
}

/// What an overwrite leaves of an existing row: status, retry count,
/// result, error and update time are replaced; id, url, creation time
/// and retry budget are immutable after the first insert.
pub open spec fn merge_row(old_row: TaskView, t: TaskView) -> TaskView {
    TaskView {
        status: t.status,
        retry_count: t.retry_count,
        result: t.result,
        error: t.error,
        updated_at: t.updated_at,
        ..old_row
    }
}

/// Insert-or-overwrite by id: the first row with the id is merged in
/// place; a missing id appends the projection at the end.
pub open spec fn row_upsert(rows: Seq<TaskView>, t: TaskView) -> Seq<TaskView>
    decreases rows.len(),
{
    if rows.len() == 0 {
        seq![proj_row(t)]
    } else if rows[0].id == t.id {
        seq![merge_row(rows[0], t)] + rows.skip(1)
    } else {
        seq![rows[0]] + row_upsert(rows.skip(1), t)
    }
}

/// The projections of the rows holding a status, in table order.
pub open spec fn rows_with_status(rows: Seq<TaskView>, st: TaskStatus) -> Seq<TaskView>
    decreases rows.len(),
{
    if rows.len() == 0 {
        Seq::empty()
    } else {
        let rest = rows_with_status(rows.drop_last(), st);
        if rows.last().status == st {
            rest.push(proj_row(rows.last()))
        } else {
            rest
        }
    }
}

/// A row placed into a list kept descending by creation time: it goes
/// in front of the first strictly older row, after any row at least as
/// new.
pub open spec fn insert_desc(rows: Seq<TaskView>, x: TaskView) -> Seq<TaskView>
    decreases rows.len(),
{
    if rows.len() == 0 {
        seq![x]
    } else if !lex_le(x.created_at, rows[0].created_at) {
        seq![x] + rows
    } else {
        seq![rows[0]] + insert_desc(rows.skip(1), x)
    }
}

/// The rows ordered by creation time, newest first, built row by row.
pub open spec fn sort_desc(rows: Seq<TaskView>) -> Seq<TaskView>
    decreases rows.len(),
{
    if rows.len() == 0 {
        Seq::empty()
    } else {
        insert_desc(sort_desc(rows.drop_last()), rows.last())
    }
}

/// Descending by creation time, position by position.
pub open spec fn sorted_desc(rows: Seq<TaskView>) -> bool {
    forall|i: int, j: int|
        0 <= i < j < rows.len() ==> lex_le(#[trigger] rows[j].created_at, #[trigger] rows[i].created_at)
}

/// Placing a row into a descending list keeps it descending.
proof fn lemma_insert_desc_sorted(rows: Seq<TaskView>, x: TaskView)
    requires
        sorted_desc(rows),
    ensures
        sorted_desc(insert_desc(rows, x)),
        insert_desc(rows, x).len() == rows.len() + 1,
    decreases rows.len(),
{
    if rows.len() == 0 {
    } else if !lex_le(x.created_at, rows[0].created_at) {
        lemma_lex_le_total(x.created_at, rows[0].created_at);
        let out = seq![x] + rows;
        assert forall|i: int, j: int| 0 <= i < j < out.len() implies lex_le(
            #[trigger] out[j].created_at,
            #[trigger] out[i].created_at,
        ) by {
            if i == 0 {
                assert(out[0] == x);
                assert(out[j] == rows[j - 1]);
                if j == 1 {
                    assert(lex_le(rows[0].created_at, x.created_at));
                } else {
                    assert(lex_le(rows[j - 1].created_at, rows[0].created_at));
                    lemma_lex_le_trans(rows[j - 1].created_at, rows[0].created_at, x.created_at);
                }
            } else {
                assert(out[i] == rows[i - 1]);
                assert(out[j] == rows[j - 1]);
            }
        }
    } else {
        assert(sorted_desc(rows.skip(1))) by {
            assert(forall|i: int|
                0 <= i < rows.skip(1).len() ==> rows.skip(1)[i] == rows[i + 1]);
        }
        lemma_insert_desc_sorted(rows.skip(1), x);
        let inner = insert_desc(rows.skip(1), x);
        let out = seq![rows[0]] + inner;
        assert forall|i: int, j: int| 0 <= i < j < out.len() implies lex_le(
            #[trigger] out[j].created_at,
            #[trigger] out[i].created_at,
        ) by {
            if i == 0 {
                assert(out[0] == rows[0]);
                assert(out[j] == inner[j - 1]);
                // every element of the inner insertion is either x, which
                // fits below the head here, or an original later row
                lemma_insert_desc_element(rows.skip(1), x, j - 1);
                if inner[j - 1] == x {
                    assert(lex_le(x.created_at, rows[0].created_at));
                } else {
                    let k = choose|k: int|
                        0 <= k < rows.skip(1).len() && rows.skip(1)[k] == inner[j - 1];
                    assert(rows.skip(1)[k] == rows[k + 1]);
                    assert(lex_le(rows[k + 1].created_at, rows[0].created_at));
                }
            } else {
                assert(out[i] == inner[i - 1]);
                assert(out[j] == inner[j - 1]);
            }
        }
    }
}

/// Every element of an insertion is the inserted row or one of the
/// originals.
proof fn lemma_insert_desc_element(rows: Seq<TaskView>, x: TaskView, i: int)
    requires
        0 <= i < insert_desc(rows, x).len(),
    ensures
        insert_desc(rows, x)[i] == x || exists|k: int|
            0 <= k < rows.len() && rows[k] == insert_desc(rows, x)[i],
    decreases rows.len(),
{
    if rows.len() == 0 {
    } else if !lex_le(x.created_at, rows[0].created_at) {
        if i > 0 {
            assert(insert_desc(rows, x)[i] == rows[i - 1]);
        }
    } else {
        if i == 0 {
        } else {
            lemma_insert_desc_element(rows.skip(1), x, i - 1);
            assert(insert_desc(rows, x)[i] == insert_desc(rows.skip(1), x)[i - 1]);
            if insert_desc(rows.skip(1), x)[i - 1] != x {
                let k = choose|k: int|
                    0 <= k < rows.skip(1).len() && rows.skip(1)[k] == insert_desc(
                        rows.skip(1),
                        x,
                    )[i - 1];
                assert(rows[k + 1] == insert_desc(rows, x)[i]);
            }
        }
    }
}

/// The listing order law: a sorted build is descending by creation
/// time, newest first, and keeps every row.
pub proof fn lemma_sort_desc_sorted(rows: Seq<TaskView>)
    ensures
        sorted_desc(sort_desc(rows)),
        sort_desc(rows).len() == rows.len(),
    decreases rows.len(),
{
    if rows.len() > 0 {
        lemma_sort_desc_sorted(rows.drop_last());
        lemma_insert_desc_sorted(sort_desc(rows.drop_last()), rows.last());
    }
}

/// A found row carries the id it was looked up by.
pub proof fn lemma_row_lookup_id(rows: Seq<TaskView>, id: Seq<char>)
    requires
        row_lookup(rows, id) is Some,
    ensures
        row_lookup(rows, id)->Some_0.id == id,
    decreases rows.len(),
{
    if rows.len() > 0 && rows[0].id != id {
        lemma_row_lookup_id(rows.skip(1), id);
    }
}

/// The round trip law: a save followed by a get of the same id reads
/// the saved status, retry count, result, error and update time back,
/// while an id saved before keeps its first url and creation time.
pub proof fn lemma_save_get_roundtrip(rows: Seq<TaskView>, t: TaskView)
    ensures
        row_lookup(row_upsert(rows, t), t.id) matches Some(row) && {
            &&& row.id == t.id
            &&& row.status == t.status
            &&& row.retry_count == t.retry_count
            &&& row.result == t.result
            &&& row.error == t.error
            &&& row.updated_at == t.updated_at
            &&& match row_lookup(rows, t.id) {
                Some(o) => row.url == o.url && row.created_at == o.created_at
                    && row.max_retries == o.max_retries,
                None => row.url == t.url && row.created_at == t.created_at && row.max_retries
                    == t.max_retries,
            }
        },
{
    lemma_row_upsert_same(rows, t);
    if row_lookup(rows, t.id) is Some {
        lemma_row_lookup_id(rows, t.id);
    }
}

/// Copies the stored fields of a task; the pipeline is not part of the
/// projection.
fn copy_row(t: &Task) -> (r: Task)
    ensures
        r@ == proj_row(t@),
{
    Task {
        id: t.id.clone(),
        url: t.url.clone(),
        status: t.status,
        retry_count: t.retry_count,
        max_retries: t.max_retries,
        result: match &t.result {
            Some(s) => Some(s.clone()),
            None => None,
        },
        error: match &t.error {
            Some(s) => Some(s.clone()),
            None => None,
        },
        created_at: t.created_at.clone(),
        updated_at: t.updated_at.clone(),
        graph: None,
    }
}

/// Durable persistence for task projections, keyed by id.
#[derive(Debug)]
pub struct TaskStore {
    rows: Vec<Task>,
}

impl View for TaskStore {
    type V = Seq<TaskView>;

    closed spec fn view(&self) -> Seq<TaskView> {
        Seq::new(self.rows@.len(), |i: int| self.rows@[i]@)
    }
}

impl TaskStore {
    /// An empty store.
    pub fn new() -> (r: Self)
        ensures
            r@ == Seq::<TaskView>::empty(),
    {
        let r = TaskStore { rows: Vec::new() };
        proof {
            assert(r@ =~= Seq::<TaskView>::empty());
        }
        r
    }

    /// Insert-or-overwrite by the task's id.  A new id appends the
    /// projection; an existing id replaces status, retry count, result,
    /// error and update time, keeping id, url, creation time and retry
    /// budget.  The in-memory table cannot fail, so this always
    /// succeeds.
    pub fn save(&mut self, task: &Task) -> (r: Result<(), LuminaError>)
        ensures
            r is Ok,
            final(self)@ == row_upsert(old(self)@, task@),
    {
        let n = self.rows.len();
        let mut i: usize = 0;
        while i < n
            invariant
                i <= n,
                n == self.rows@.len(),
                *self == *old(self),
                forall|j: int| 0 <= j < i ==> self@[j].id != task@.id,
            decreases n - i,
        {
            if str_eq(self.rows[i].id.as_str(), task.id.as_str()) {
                proof {
                    lemma_row_upsert_found(old(self)@, task@, i as int);
                }
                let merged = Task {
                    id: self.rows[i].id.clone(),
                    url: self.rows[i].url.clone(),
                    status: task.status,
                    retry_count: task.retry_count,
                    max_retries: self.rows[i].max_retries,
                    result: match &task.result {
                        Some(s) => Some(s.clone()),
                        None => None,
                    },
                    error: match &task.error {
                        Some(s) => Some(s.clone()),
                        None => None,
                    },
                    created_at: self.rows[i].created_at.clone(),
                    updated_at: task.updated_at.clone(),
                    graph: match self.rows.remove(i).graph {
                        Some(g) => Some(g),
                        None => None,
                    },
                };
                self.rows.insert(i, merged);
                proof {
                    assert(self@ =~= old(self)@.update(
                        i as int,
                        merge_row(old(self)@[i as int], task@),
                    ));
                }
                return Ok(());
            }
            i += 1;
        }
        proof {
            lemma_row_upsert_missing(old(self)@, task@);
        }
        self.rows.push(copy_row(task));
        proof {
            assert(self@ =~= old(self)@.push(proj_row(task@)));
        }
        Ok(())
    }

    /// Point lookup by id: the stored projection, or nothing.  The
    /// in-memory table cannot fail, so this always succeeds.
    pub fn get(&self, id: &str) -> (r: Result<Option<Task>, LuminaError>)
        ensures
            r is Ok,
            match row_lookup(self@, id@) {
                Some(row) => r matches Ok(o) && o matches Some(t) && t@ == proj_row(row),
                None => r == Ok::<Option<Task>, LuminaError>(None),
            },
    {
        let n = self.rows.len();
        let mut i: usize = 0;
        while i < n
            invariant
                i <= n,
                n == self.rows@.len(),
                forall|j: int| 0 <= j < i ==> self@[j].id != id@,
            decreases n - i,
        {
            if str_eq(self.rows[i].id.as_str(), id) {
                proof {
                    lemma_row_lookup_skip(self@, id@, i as int);
                    assert(self@.skip(i as int)[0] == self@[i as int]);
                }
                return Ok(Some(copy_row(&self.rows[i])));
            }
            i += 1;
        }
        proof {
            lemma_row_lookup_skip(self@, id@, n as int);
        }
        Ok(None)
    }

    /// Every stored projection holding the status, ordered by creation
    /// time, newest first.  The in-memory table cannot fail, so this
    /// always succeeds.
    pub fn list_by_status(&self, status: TaskStatus) -> (r: Result<Vec<Task>, LuminaError>)
        ensures
            r matches Ok(out) && Seq::new(out@.len(), |i: int| out@[i]@) == sort_desc(
                rows_with_status(self@, status),
            ),
    {
        let mut matched: Vec<Task> = Vec::new();
        let n = self.rows.len();
        let mut i: usize = 0;
        proof {
            assert(Seq::new(matched@.len(), |k: int| matched@[k]@) =~= rows_with_status(
                self@.take(0),
                status,
            ));
        }
        while i < n
            invariant
                i <= n,
                n == self.rows@.len(),
                n == self@.len(),
                Seq::new(matched@.len(), |k: int| matched@[k]@) == rows_with_status(
                    self@.take(i as int),
                    status,
                ),
            decreases n - i,
        {
            if self.rows[i].status == status {
                matched.push(copy_row(&self.rows[i]));
            }
            proof {
                assert(self@.take(i as int + 1).drop_last() =~= self@.take(i as int));
                assert(self@.take(i as int + 1).last() == self@[i as int]);
                assert(Seq::new(matched@.len(), |k: int| matched@[k]@) =~= rows_with_status(
                    self@.take(i as int + 1),
                    status,
                ));
            }
            i += 1;
        }
        proof {
            assert(self@.take(n as int) =~= self@);
        }
        let ghost mview = Seq::new(matched@.len(), |k: int| matched@[k]@);
        let mut out: Vec<Task> = Vec::new();
        let mut taken: usize = 0;
        let total = matched.len();
        proof {
            assert(Seq::new(out@.len(), |k: int| out@[k]@) =~= sort_desc(mview.take(0)));
        }
        while taken < total
            invariant
                taken <= total,
                total == mview.len(),
                matched@.len() == total - taken,
                forall|k: int| 0 <= k < matched@.len() ==> matched@[k]@ == mview[taken + k],
                Seq::new(out@.len(), |k: int| out@[k]@) == sort_desc(mview.take(taken as int)),
            decreases total - taken,
        {
            let ghost opre = Seq::new(out@.len(), |k: int| out@[k]@);
            let x = matched.remove(0);
            let xn = out.len();
            let mut p: usize = 0;
            loop
                invariant_except_break
                    p <= xn,
                    xn == out@.len(),
                    forall|j: int| 0 <= j < p ==> lex_le(x@.created_at, (#[trigger] out@[j])@.created_at),
                ensures
                    p <= xn,
                    xn == out@.len(),
                    forall|j: int| 0 <= j < p ==> lex_le(x@.created_at, (#[trigger] out@[j])@.created_at),
                    p == xn || !lex_le(x@.created_at, out@[p as int]@.created_at),
                decreases xn - p,
            {
                if p == xn {
                    break ;
                }
                if !str_lex_le(x.created_at.as_str(), out[p].created_at.as_str()) {
                    break ;
                }
                p += 1;
            }
            proof {
                lemma_insert_desc_at(opre, x@, p as int);
            }
            out.insert(p, x);
            proof {
                assert(mview.take(taken as int + 1).drop_last() =~= mview.take(taken as int));
                assert(mview.take(taken as int + 1).last() == mview[taken as int]);
                assert(Seq::new(out@.len(), |k: int| out@[k]@) =~= insert_desc(opre, x@));
                assert(Seq::new(out@.len(), |k: int| out@[k]@) =~= sort_desc(
                    mview.take(taken as int + 1),
                ));
            }
            taken += 1;
        }
        proof {
            assert(mview.take(total as int) =~= mview);
        }
        Ok(out)
    }
}

/// After an upsert, the task's id maps to the merged row, or to the
/// fresh projection where the id was absent.
pub proof fn lemma_row_upsert_same(rows: Seq<TaskView>, t: TaskView)
    ensures
        row_lookup(row_upsert(rows, t), t.id) == Some(
            match row_lookup(rows, t.id) {
                Some(o) => merge_row(o, t),
                None => proj_row(t),
            },
        ),
    decreases rows.len(),
{
    let r = row_upsert(rows, t);
    if rows.len() == 0 {
        assert(r.len() == 1 && r[0] == proj_row(t));
    } else if rows[0].id == t.id {
        assert(r.len() > 0 && r[0] == merge_row(rows[0], t));
    } else {
        lemma_row_upsert_same(rows.skip(1), t);
        assert(r.len() > 0 && r[0] == rows[0]);
        assert(r.skip(1) =~= row_upsert(rows.skip(1), t));
        assert(row_lookup(r, t.id) == row_lookup(r.skip(1), t.id));
        assert(row_lookup(rows, t.id) == row_lookup(rows.skip(1), t.id));
    }
}

/// An upsert leaves every other id's row unchanged.
pub proof fn lemma_row_upsert_other(rows: Seq<TaskView>, t: TaskView, id2: Seq<char>)
    requires
        id2 != t.id,
    ensures
        row_lookup(row_upsert(rows, t), id2) == row_lookup(rows, id2),
    decreases rows.len(),
{
    let r = row_upsert(rows, t);
    if rows.len() == 0 {
        assert(r.len() == 1 && r[0] == proj_row(t));
        assert(row_lookup(r, id2) == row_lookup(r.skip(1), id2));
        assert(r.skip(1) =~= Seq::<TaskView>::empty());
    } else if rows[0].id == t.id {
        assert(r.len() > 0 && r[0] == merge_row(rows[0], t));
        assert(row_lookup(r, id2) == row_lookup(r.skip(1), id2));
        assert(r.skip(1) =~= rows.skip(1));
        assert(row_lookup(rows, id2) == row_lookup(rows.skip(1), id2));
    } else {
        lemma_row_upsert_other(rows.skip(1), t, id2);
        assert(r.len() > 0 && r[0] == rows[0]);
        assert(r.skip(1) =~= row_upsert(rows.skip(1), t));
    }
}

/// Lookup ignores a dropped prefix that does not hold the id.
proof fn lemma_row_lookup_skip(rows: Seq<TaskView>, id: Seq<char>, i: int)
    requires
        0 <= i <= rows.len(),
        forall|j: int| 0 <= j < i ==> rows[j].id != id,
    ensures
        row_lookup(rows, id) == row_lookup(rows.skip(i), id),
    decreases i,
{
    if i > 0 {
        lemma_row_lookup_skip(rows.skip(1), id, i - 1);
        assert(rows.skip(1).skip(i - 1) =~= rows.skip(i));
    } else {
        assert(rows.skip(0) =~= rows);
    }
}

/// An upsert that hits index `i` is an in-place merge.
proof fn lemma_row_upsert_found(rows: Seq<TaskView>, t: TaskView, i: int)
    requires
        0 <= i < rows.len(),
        forall|j: int| 0 <= j < i ==> rows[j].id != t.id,
        rows[i].id == t.id,
    ensures
        row_upsert(rows, t) == rows.update(i, merge_row(rows[i], t)),
    decreases i,
{
    if i == 0 {
        assert(row_upsert(rows, t) =~= rows.update(0, merge_row(rows[0], t)));
    } else {
        lemma_row_upsert_found(rows.skip(1), t, i - 1);
        assert(rows.skip(1).update(i - 1, merge_row(rows[i], t)) =~= rows.update(
            i,
            merge_row(rows[i], t),
        ).skip(1));
        assert(row_upsert(rows, t) =~= seq![rows[0]] + row_upsert(rows.skip(1), t));
        assert(seq![rows[0]] + rows.update(i, merge_row(rows[i], t)).skip(1) =~= rows.update(
            i,
            merge_row(rows[i], t),
        ));
    }
}

/// An upsert of an absent id appends the projection.
proof fn lemma_row_upsert_missing(rows: Seq<TaskView>, t: TaskView)
    requires
        forall|j: int| 0 <= j < rows.len() ==> rows[j].id != t.id,
    ensures
        row_upsert(rows, t) == rows.push(proj_row(t)),
    decreases rows.len(),
{
    if rows.len() == 0 {
        assert(row_upsert(rows, t) =~= rows.push(proj_row(t)));
    } else {
        lemma_row_upsert_missing(rows.skip(1), t);
        assert(row_upsert(rows, t) =~= seq![rows[0]] + rows.skip(1).push(proj_row(t)));
        assert(seq![rows[0]] + rows.skip(1).push(proj_row(t)) =~= rows.push(proj_row(t)));
    }
}

/// An insertion that lands at position `p` splits the list there.
proof fn lemma_insert_desc_at(rows: Seq<TaskView>, x: TaskView, p: int)
    requires
        0 <= p <= rows.len(),
        forall|j: int| 0 <= j < p ==> lex_le(x.created_at, (#[trigger] rows[j]).created_at),
        p == rows.len() || !lex_le(x.created_at, rows[p].created_at),
    ensures
        insert_desc(rows, x) == rows.take(p) + seq![x] + rows.skip(p),
    decreases p,
{
    if p == 0 {
        if rows.len() == 0 {
            assert(insert_desc(rows, x) =~= rows.take(0) + seq![x] + rows.skip(0));
        } else {
            assert(insert_desc(rows, x) =~= rows.take(0) + seq![x] + rows.skip(0));
        }
    } else {
        lemma_insert_desc_at(rows.skip(1), x, p - 1);
        assert(rows.skip(1).take(p - 1) =~= rows.take(p).skip(1));
        assert(rows.skip(1).skip(p - 1) =~= rows.skip(p));
        assert(insert_desc(rows, x) =~= seq![rows[0]] + insert_desc(rows.skip(1), x));
        assert(seq![rows[0]] + (rows.take(p).skip(1) + seq![x] + rows.skip(p)) =~= rows.take(p)
            + seq![x] + rows.skip(p));
    }
}

} // verus!
