//! The operations on a task collection: add, update, delete, set a status and
//! list by status. Each is a transformation of the whole collection.
use vstd::prelude::*;
use crate::error::TrackerError;
use crate::stamp::Stamp;
use crate::task::{Task, TaskStatus, TaskView};

verus! {

/// The views of a sequence of tasks.
pub open spec fn views(v: Seq<Task>) -> Seq<TaskView> {
    v.map_values(|t: Task| t@)
}

/// Every task of the collection can be written.
pub open spec fn all_wf(s: Seq<TaskView>) -> bool {
    forall|i: int| 0 <= i < s.len() ==> (#[trigger] s[i]).wf()
}

/// No two tasks share an id.
pub open spec fn ids_unique(s: Seq<TaskView>) -> bool {
    forall|i: int, j: int| 0 <= i < s.len() && 0 <= j < s.len() && i != j ==> s[i].id != s[j].id
}

pub open spec fn has_id(s: Seq<TaskView>, id: u32) -> bool {
    exists|i: int| 0 <= i < s.len() && (#[trigger] s[i]).id == id
}

/// The largest id in the collection, 0 where it is empty.
pub open spec fn max_id(s: Seq<TaskView>) -> nat
    decreases s.len(),
{
    if s.len() == 0 {
        0
    } else {
        let m = max_id(s.drop_last());
        if s.last().id as nat > m { s.last().id as nat } else { m }
    }
}

/// The id that the next added task gets.
pub open spec fn next_id(s: Seq<TaskView>) -> nat {
    max_id(s) + 1
}

/// A new task as added.
pub open spec fn new_task(id: u32, description: Seq<char>, now: Stamp) -> TaskView {
    TaskView { id, description, status: TaskStatus::Todo, created_at: now, updated_at: now }
}

/// The collection with the description of the task with id `id` replaced.
pub open spec fn with_description(s: Seq<TaskView>, id: u32, d: Seq<char>) -> Seq<TaskView> {
    Seq::new(s.len(), |i: int| if s[i].id == id { TaskView { description: d, ..s[i] } } else { s[i] })
}

/// The collection with the status of the task with id `id` set to `st`.
pub open spec fn with_status_set(s: Seq<TaskView>, id: u32, st: TaskStatus) -> Seq<TaskView> {
    Seq::new(s.len(), |i: int| if s[i].id == id { TaskView { status: st, ..s[i] } } else { s[i] })
}

/// The collection without the tasks with id `id`, in order.
pub open spec fn without_id(s: Seq<TaskView>, id: u32) -> Seq<TaskView>
    decreases s.len(),
{
    if s.len() == 0 {
        s
    } else if s.last().id == id {
        without_id(s.drop_last(), id)
    } else {
        without_id(s.drop_last(), id).push(s.last())
    }
}

/// The tasks of the collection whose status is `st`, in order.
pub open spec fn of_status(s: Seq<TaskView>, st: TaskStatus) -> Seq<TaskView>
    decreases s.len(),
{
    if s.len() == 0 {
        s
    } else if s.last().status == st {
        of_status(s.drop_last(), st).push(s.last())
    } else {
        of_status(s.drop_last(), st)
    }
}

proof fn lemma_max_id_bounds(s: Seq<TaskView>)
    ensures
        forall|i: int| 0 <= i < s.len() ==> (#[trigger] s[i]).id as nat <= max_id(s),
        s.len() > 0 ==> exists|i: int| 0 <= i < s.len() && (#[trigger] s[i]).id as nat == max_id(s),
        max_id(s) <= u32::MAX,
    decreases s.len(),
{
    if s.len() > 0 {
        let p = s.drop_last();
        lemma_max_id_bounds(p);
        assert forall|i: int| 0 <= i < s.len() implies (#[trigger] s[i]).id as nat <= max_id(s) by {
            if i < s.len() - 1 {
                assert(s[i] == p[i]);
            }
        }
        if s.last().id as nat > max_id(p) || p.len() == 0 {
            assert(s[s.len() - 1].id as nat == max_id(s));
        } else {
            let k = choose|k: int| 0 <= k < p.len() && (#[trigger] p[k]).id as nat == max_id(p);
            assert(s[k] == p[k]);
        }
    }
}

/// The largest id of a collection, 0 where it is empty.
pub fn largest_id(tasks: &Vec<Task>) -> (r: u32)
    ensures
        r as nat == max_id(views(tasks@)),
{
    let mut m: u32 = 0;
    let mut i: usize = 0;
    while i < tasks.len()
        invariant
            0 <= i <= tasks.len(),
            m as nat == max_id(views(tasks@).take(i as int)),
        decreases tasks.len() - i,
    {
        assert(views(tasks@).take(i + 1).drop_last() =~= views(tasks@).take(i as int));
        if tasks[i].id > m {
            m = tasks[i].id;
        }
        i = i + 1;
    }
    assert(views(tasks@).take(tasks.len() as int) =~= views(tasks@));
    m
}

/// Appends a new task with status `Todo`, both timestamps `now`, and the id
/// after the largest one in the collection (1 where it is empty), which it
/// returns. Fails, changing nothing, where the largest id is `u32::MAX`.
pub fn add_task(tasks: &mut Vec<Task>, description: String, now: Stamp) -> (r: Result<u32, TrackerError>)
    requires
        now.wf(),
    ensures
        max_id(views(old(tasks)@)) < u32::MAX ==> r == Ok::<u32, TrackerError>(
            next_id(views(old(tasks)@)) as u32,
        ) && views(final(tasks)@) == views(old(tasks)@).push(
            new_task(next_id(views(old(tasks)@)) as u32, description@, now),
        ),
        max_id(views(old(tasks)@)) >= u32::MAX ==> r == Err::<u32, TrackerError>(
            TrackerError::IdsExhausted,
        ) && final(tasks)@ == old(tasks)@,
{
    let m = largest_id(tasks);
    if m == u32::MAX {
        return Err(TrackerError::IdsExhausted);
    }
    let id = m + 1;
    let ghost d = description@;
    tasks.push(
        Task {
            id,
            description,
            status: TaskStatus::Todo,
            created_at: now,
            updated_at: now,
        },
    );
    assert(views(tasks@) =~= views(old(tasks)@).push(new_task(id, d, now)));
    Ok(id)
}

/// Replaces the description of the task with id `id`; no change where there is
/// none. The timestamps stay as they are.
pub fn update(tasks: &mut Vec<Task>, id: u32, description: &str)
    ensures
        views(final(tasks)@) == with_description(views(old(tasks)@), id, description@),
{
    let ghost start = views(tasks@);
    let mut i: usize = 0;
    while i < tasks.len()
        invariant
            0 <= i <= tasks.len(),
            tasks.len() == start.len(),
            forall|j: int|
                0 <= j < tasks.len() ==> #[trigger] views(tasks@)[j] == if j < i {
                    with_description(start, id, description@)[j]
                } else {
                    start[j]
                },
        decreases tasks.len() - i,
    {
        assert(views(tasks@)[i as int] == start[i as int]);
        if tasks[i].id == id {
            let mut t = tasks[i].copy();
            t.description = description.to_owned();
            let ghost before = views(tasks@);
            let ghost tv = t@;
            tasks.set(i, t);
            assert(views(tasks@) =~= before.update(i as int, tv));
        }
        assert forall|j: int| 0 <= j < tasks.len() implies #[trigger] views(tasks@)[j] == if j < i + 1 {
            with_description(start, id, description@)[j]
        } else {
            start[j]
        } by {
            if j == i {
                assert(views(tasks@)[j] == with_description(start, id, description@)[j]);
            }
        }
        i = i + 1;
    }
    assert(views(tasks@) =~= with_description(start, id, description@));
}

/// Sets the status of the task with id `id` to `status`; no change where there
/// is none. The timestamps stay as they are.
pub fn set_status(tasks: &mut Vec<Task>, id: u32, status: TaskStatus)
    ensures
        views(final(tasks)@) == with_status_set(views(old(tasks)@), id, status),
{
    let ghost start = views(tasks@);
    let mut i: usize = 0;
    while i < tasks.len()
        invariant
            0 <= i <= tasks.len(),
            tasks.len() == start.len(),
            forall|j: int|
                0 <= j < tasks.len() ==> #[trigger] views(tasks@)[j] == if j < i {
                    with_status_set(start, id, status)[j]
                } else {
                    start[j]
                },
        decreases tasks.len() - i,
    {
        assert(views(tasks@)[i as int] == start[i as int]);
        if tasks[i].id == id {
            let mut t = tasks[i].copy();
            t.status = status;
            let ghost before = views(tasks@);
            let ghost tv = t@;
            tasks.set(i, t);
            assert(views(tasks@) =~= before.update(i as int, tv));
        }
        assert forall|j: int| 0 <= j < tasks.len() implies #[trigger] views(tasks@)[j] == if j < i + 1 {
            with_status_set(start, id, status)[j]
        } else {
            start[j]
        } by {
            if j == i {
                assert(views(tasks@)[j] == with_status_set(start, id, status)[j]);
            }
        }
        i = i + 1;
    }
    assert(views(tasks@) =~= with_status_set(start, id, status));
}

/// Removes the task with id `id`, keeping the order of the others; no change
/// where there is none.
pub fn delete(tasks: &mut Vec<Task>, id: u32)
    ensures
        views(final(tasks)@) == without_id(views(old(tasks)@), id),
{
    let ghost start = views(tasks@);
    let mut kept: Vec<Task> = Vec::new();
    let mut i: usize = 0;
    while i < tasks.len()
        invariant
            0 <= i <= tasks.len(),
            views(tasks@) == start,
            views(kept@) == without_id(start.take(i as int), id),
        decreases tasks.len() - i,
    {
        assert(start.take(i + 1).drop_last() =~= start.take(i as int));
        if tasks[i].id != id {
            kept.push(tasks[i].copy());
            assert(views(kept@) =~= without_id(start.take(i + 1), id));
        }
        i = i + 1;
    }
    assert(start.take(i as int) =~= start);
    *tasks = kept;
}

/// The tasks whose status is `status`, in the order of the collection.
pub fn list(tasks: &Vec<Task>, status: TaskStatus) -> (r: Vec<Task>)
    ensures
        views(r@) == of_status(views(tasks@), status),
{
    let ghost start = views(tasks@);
    let mut found: Vec<Task> = Vec::new();
    let mut i: usize = 0;
    while i < tasks.len()
        invariant
            0 <= i <= tasks.len(),
            views(tasks@) == start,
            views(found@) == of_status(start.take(i as int), status),
        decreases tasks.len() - i,
    {
        assert(start.take(i + 1).drop_last() =~= start.take(i as int));
        if tasks[i].status == status {
            found.push(tasks[i].copy());
            assert(views(found@) =~= of_status(start.take(i + 1), status));
        }
        i = i + 1;
    }
    assert(start.take(i as int) =~= start);
    found
}

/// The ids of the collection are 1, 2, ..., n in order.
pub open spec fn ids_sequential(s: Seq<TaskView>) -> bool {
    forall|i: int| 0 <= i < s.len() ==> (#[trigger] s[i]).id as int == i + 1
}

proof fn lemma_sequential_max(s: Seq<TaskView>)
    requires
        ids_sequential(s),
    ensures
        max_id(s) == s.len(),
    decreases s.len(),
{
    if s.len() > 0 {
        let p = s.drop_last();
        assert(ids_sequential(p)) by {
            assert forall|i: int| 0 <= i < p.len() implies (#[trigger] p[i]).id as int == i + 1 by {
                assert(p[i] == s[i]);
            }
        }
        lemma_sequential_max(p);
        assert(s[s.len() - 1].id as int == s.len());
    }
}

/// Adding to a collection whose ids are 1..n gives the new task id n + 1, so
/// that a run of adds with no deletes numbers the tasks 1, 2, 3, ... with no gap.
pub proof fn lemma_add_extends_sequence(s: Seq<TaskView>, description: Seq<char>, now: Stamp)
    requires
        ids_sequential(s),
        s.len() < u32::MAX,
    ensures
        next_id(s) == s.len() + 1,
        ids_sequential(s.push(new_task(next_id(s) as u32, description, now))),
{
    lemma_sequential_max(s);
    let t = s.push(new_task(next_id(s) as u32, description, now));
    assert forall|i: int| 0 <= i < t.len() implies (#[trigger] t[i]).id as int == i + 1 by {
        if i < s.len() {
            assert(t[i] == s[i]);
        }
    }
}

/// After deleting the task with the largest id n from a collection with ids
/// 1..n, the next add gives id n again: the id follows from the largest id that
/// is left, not from the number of tasks.
pub proof fn lemma_add_after_delete_of_max(s: Seq<TaskView>)
    requires
        ids_sequential(s),
        s.len() > 0,
    ensures
        next_id(without_id(s, s.len() as u32)) == s.len(),
{
    let p = s.drop_last();
    assert(s.last().id as int == s.len());
    assert(without_id(p, s.len() as u32) == p) by {
        lemma_missing_id_no_op(p, s.len() as u32, Seq::empty(), TaskStatus::Todo);
        assert forall|i: int| 0 <= i < p.len() implies (#[trigger] p[i]).id != s.len() as u32 by {
            assert(p[i] == s[i]);
        }
    }
    assert(ids_sequential(p)) by {
        assert forall|i: int| 0 <= i < p.len() implies (#[trigger] p[i]).id as int == i + 1 by {
            assert(p[i] == s[i]);
        }
    }
    lemma_sequential_max(p);
}

/// An add keeps the ids unique: the new id is above every id there is.
pub proof fn lemma_add_keeps_ids_unique(s: Seq<TaskView>, description: Seq<char>, now: Stamp)
    requires
        ids_unique(s),
        max_id(s) < u32::MAX,
    ensures
        ids_unique(s.push(new_task(next_id(s) as u32, description, now))),
{
    lemma_max_id_bounds(s);
    let t = s.push(new_task(next_id(s) as u32, description, now));
    assert forall|i: int, j: int| 0 <= i < t.len() && 0 <= j < t.len() && i != j implies t[i].id
        != t[j].id by {
        if i < s.len() {
            assert(t[i] == s[i]);
        }
        if j < s.len() {
            assert(t[j] == s[j]);
        }
    }
}

/// Setting a status twice gives what setting it once gives.
pub proof fn lemma_set_status_idempotent(s: Seq<TaskView>, id: u32, st: TaskStatus)
    ensures
        with_status_set(with_status_set(s, id, st), id, st) == with_status_set(s, id, st),
{
    assert(with_status_set(with_status_set(s, id, st), id, st) =~= with_status_set(s, id, st));
}

/// Update, delete and status changes leave a collection without the id as it is.
pub proof fn lemma_missing_id_no_op(s: Seq<TaskView>, id: u32, d: Seq<char>, st: TaskStatus)
    requires
        !has_id(s, id),
    ensures
        with_description(s, id, d) == s,
        with_status_set(s, id, st) == s,
        without_id(s, id) == s,
    decreases s.len(),
{
    assert(with_description(s, id, d) =~= s);
    assert(with_status_set(s, id, st) =~= s);
    if s.len() > 0 {
        let p = s.drop_last();
        assert(!has_id(p, id)) by {
            if has_id(p, id) {
                let k = choose|k: int| 0 <= k < p.len() && (#[trigger] p[k]).id == id;
                assert(s[k] == p[k]);
            }
        }
        lemma_missing_id_no_op(p, id, d, st);
        assert(s[s.len() - 1].id != id);
        assert(p.push(s.last()) =~= s);
    }
}

/// Listing by a status gives the tasks of the collection with that status and
/// no others, in the order of the collection.
pub proof fn lemma_list_exact(s: Seq<TaskView>, st: TaskStatus)
    ensures
        forall|k: int| 0 <= k < of_status(s, st).len() ==> (#[trigger] of_status(s, st)[k]).status == st,
        forall|k: int| 0 <= k < of_status(s, st).len() ==> s.contains(#[trigger] of_status(s, st)[k]),
        forall|i: int| 0 <= i < s.len() && (#[trigger] s[i]).status == st ==> of_status(s, st).contains(s[i]),
        of_status(s, st).len() <= s.len(),
    decreases s.len(),
{
    if s.len() > 0 {
        let p = s.drop_last();
        let r = of_status(s, st);
        let q = of_status(p, st);
        lemma_list_exact(p, st);
        assert forall|k: int| 0 <= k < r.len() implies s.contains(#[trigger] r[k]) by {
            if k < q.len() {
                assert(r[k] == q[k]);
                let m = choose|m: int| 0 <= m < p.len() && p[m] == q[k];
                assert(s[m] == p[m]);
            } else {
                assert(r[k] == s[s.len() - 1]);
            }
        }
        assert forall|k: int| 0 <= k < r.len() implies (#[trigger] r[k]).status == st by {
            if k < q.len() {
                assert(r[k] == q[k]);
            }
        }
        assert forall|i: int| 0 <= i < s.len() && (#[trigger] s[i]).status == st implies r.contains(s[i]) by {
            if i < s.len() - 1 {
                assert(s[i] == p[i]);
                let m = choose|m: int| 0 <= m < q.len() && q[m] == p[i];
                assert(r[m] == q[m]);
            } else {
                assert(r[r.len() - 1] == s[i]);
            }
        }
    }
}

/// The collection after adding, in turn, a task for each description of `ds`
/// to `s`, the i-th at time `nows[i]`.
pub open spec fn after_adds(s: Seq<TaskView>, ds: Seq<Seq<char>>, nows: Seq<Stamp>) -> Seq<TaskView>
    decreases ds.len(),
{
    if ds.len() == 0 {
        s
    } else {
        let p = after_adds(s, ds.drop_last(), nows.take(ds.len() - 1));
        p.push(new_task(next_id(p) as u32, ds.last(), nows[ds.len() - 1]))
    }
}

/// Any run of adds on an empty collection, with no delete, numbers the tasks
/// 1, 2, ..., n in order.
pub proof fn lemma_adds_number_sequentially(ds: Seq<Seq<char>>, nows: Seq<Stamp>)
    requires
        ds.len() == nows.len(),
        ds.len() <= u32::MAX,
    ensures
        ids_sequential(after_adds(Seq::empty(), ds, nows)),
        after_adds(Seq::empty(), ds, nows).len() == ds.len(),
    decreases ds.len(),
{
    if ds.len() > 0 {
        let n = ds.len() - 1;
        lemma_adds_number_sequentially(ds.drop_last(), nows.take(n));
        lemma_add_extends_sequence(after_adds(Seq::empty(), ds.drop_last(), nows.take(n)), ds.last(), nows[n]);
    }
}

/// After a run of n adds on an empty collection, deleting task n and adding
/// again gives id n: the largest id left plus one, not the count plus one.
pub proof fn lemma_adds_then_delete_of_max(ds: Seq<Seq<char>>, nows: Seq<Stamp>)
    requires
        ds.len() == nows.len(),
        0 < ds.len() <= u32::MAX,
    ensures
        next_id(without_id(after_adds(Seq::empty(), ds, nows), ds.len() as u32)) == ds.len(),
{
    lemma_adds_number_sequentially(ds, nows);
    lemma_add_after_delete_of_max(after_adds(Seq::empty(), ds, nows));
}

} // verus!
