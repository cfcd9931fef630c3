//! Gathering tasks without duplicates, and choosing the tasks that a
//! listing or a count shows.
use crate::frontmatter::opt_view;
use crate::task::{Task, TaskError};
use vstd::prelude::*;

verus! {

/// Two tasks are the same note when their base names are equal and their
/// creation dates are equal, both absent counting as equal.
pub open spec fn same_identity(a: Task, b: Task) -> bool {
    a.filename@ == b.filename@ && opt_view(a.date_created) == opt_view(b.date_created)
}

/// Whether a task with the identity of `t` is among `tasks`.
pub open spec fn seen(tasks: Seq<Task>, t: Task) -> bool {
    exists|k: int| 0 <= k < tasks.len() && same_identity(#[trigger] tasks[k], t)
}

/// The tasks found, in order, each kept only when no earlier kept task has
/// its identity.
pub open spec fn dedup(found: Seq<Task>) -> Seq<Task>
    decreases found.len(),
{
    if found.len() == 0 {
        Seq::empty()
    } else {
        let kept = dedup(found.drop_last());
        if seen(kept, found.last()) {
            kept
        } else {
            kept.push(found.last())
        }
    }
}

fn same_task(a: &Task, b: &Task) -> (r: bool)
    ensures
        r == same_identity(*a, *b),
{
    if a.filename != b.filename {
        return false;
    }
    match (&a.date_created, &b.date_created) {
        (Some(x), Some(y)) => *x == *y,
        (None, None) => true,
        _ => false,
    }
}

/// Appends `task` unless a task with its identity is already there; tells
/// whether it was appended.
pub fn push_unique(tasks: &mut Vec<Task>, task: Task) -> (added: bool)
    ensures
        added == !seen(old(tasks)@, task),
        added ==> final(tasks)@ == old(tasks)@.push(task),
        !added ==> final(tasks)@ == old(tasks)@,
{
    let mut k: usize = 0;
    while k < tasks.len()
        invariant
            k <= tasks@.len(),
            forall|j: int| 0 <= j < k ==> !same_identity(#[trigger] tasks@[j], task),
        decreases tasks@.len() - k,
    {
        if same_task(&tasks[k], &task) {
            return false;
        }
        k += 1;
    }
    tasks.push(task);
    true
}

/// The tasks of the notes that yielded one, in order.
pub open spec fn successes(outcomes: Seq<Result<Task, TaskError>>) -> Seq<Task>
    decreases outcomes.len(),
{
    if outcomes.len() == 0 {
        Seq::empty()
    } else {
        let before = successes(outcomes.drop_last());
        match outcomes.last() {
            Ok(t) => before.push(t),
            Err(_) => before,
        }
    }
}

/// The tasks of a scan, from the outcome of each note in the order found:
/// notes that yielded no task are passed over, and of the tasks that share
/// an identity only the first is kept.
pub fn collect_tasks(outcomes: Vec<Result<Task, TaskError>>) -> (r: Vec<Task>)
    ensures
        r@ == dedup(successes(outcomes@)),
{
    let ghost all = outcomes@;
    let mut tasks: Vec<Task> = Vec::new();
    for outcome in it: outcomes
        invariant
            it.seq() == all,
            tasks@ == dedup(successes(all.take(it.index() as int))),
    {
        proof {
            assert(all.take(it.index() + 1).drop_last() =~= all.take(it.index() as int));
        }
        match outcome {
            Ok(t) => {
                proof {
                    let done = successes(all.take(it.index() as int));
                    assert(done.push(t).drop_last() =~= done);
                }
                push_unique(&mut tasks, t);
            },
            Err(_) => {},
        }
    }
    proof {
        assert(all.take(all.len() as int) =~= all);
    }
    tasks
}

/// Of the tasks found, the first of each identity is kept and no other:
/// no two kept tasks share an identity, each kept task is the first found
/// with its identity, and every identity found is kept.
pub proof fn lemma_dedup_keeps_first(found: Seq<Task>)
    ensures
        forall|a: int, b: int|
            0 <= a < b < dedup(found).len() ==> !same_identity(
                #[trigger] dedup(found)[a],
                #[trigger] dedup(found)[b],
            ),
        forall|k: int|
            0 <= k < dedup(found).len() ==> exists|i: int|
                0 <= i < found.len() && #[trigger] found[i] == #[trigger] dedup(found)[k]
                    && forall|j: int| 0 <= j < i ==> !same_identity(#[trigger] found[j], found[i]),
        forall|i: int| 0 <= i < found.len() ==> seen(dedup(found), #[trigger] found[i]),
    decreases found.len(),
{
    if found.len() > 0 {
        let p = found.drop_last();
        let x = found.last();
        let kp = dedup(p);
        let r = dedup(found);
        let n = found.len() - 1;
        lemma_dedup_keeps_first(p);
        assert forall|i: int| 0 <= i < n implies found[i] == p[i] by {}
        if seen(kp, x) {
            assert(r == kp);
            assert forall|k: int| 0 <= k < r.len() implies exists|i: int|
                0 <= i < found.len() && #[trigger] found[i] == #[trigger] r[k]
                    && forall|j: int| 0 <= j < i ==> !same_identity(#[trigger] found[j], found[i]) by {
                let i = choose|i: int|
                    0 <= i < p.len() && #[trigger] p[i] == #[trigger] kp[k]
                        && forall|j: int| 0 <= j < i ==> !same_identity(#[trigger] p[j], p[i]);
                assert(found[i] == r[k]);
                assert forall|j: int| 0 <= j < i implies !same_identity(#[trigger] found[j], found[i]) by {
                    assert(found[j] == p[j]);
                }
            }
            assert forall|i: int| 0 <= i < found.len() implies seen(r, #[trigger] found[i]) by {
                if i < n {
                    assert(found[i] == p[i]);
                }
            }
        } else {
            assert(r == kp.push(x));
            assert forall|a: int, b: int| 0 <= a < b < r.len() implies !same_identity(
                #[trigger] r[a],
                #[trigger] r[b],
            ) by {
                if b == kp.len() {
                    assert(r[a] == kp[a]);
                } else {
                    assert(r[a] == kp[a] && r[b] == kp[b]);
                }
            }
            assert forall|k: int| 0 <= k < r.len() implies exists|i: int|
                0 <= i < found.len() && #[trigger] found[i] == #[trigger] r[k]
                    && forall|j: int| 0 <= j < i ==> !same_identity(#[trigger] found[j], found[i]) by {
                if k == kp.len() {
                    assert(found[n] == r[k]);
                    assert forall|j: int| 0 <= j < n implies !same_identity(#[trigger] found[j], found[n]) by {
                        assert(found[j] == p[j]);
                        assert(seen(kp, p[j]));
                        let m = choose|m: int| 0 <= m < kp.len() && same_identity(#[trigger] kp[m], p[j]);
                        if same_identity(found[j], found[n]) {
                            assert(same_identity(kp[m], x));
                        }
                    }
                } else {
                    assert(r[k] == kp[k]);
                    let i = choose|i: int|
                        0 <= i < p.len() && #[trigger] p[i] == #[trigger] kp[k]
                            && forall|j: int| 0 <= j < i ==> !same_identity(#[trigger] p[j], p[i]);
                    assert(found[i] == r[k]);
                    assert forall|j: int| 0 <= j < i implies !same_identity(#[trigger] found[j], found[i]) by {
                        assert(found[j] == p[j]);
                    }
                }
            }
            assert forall|i: int| 0 <= i < found.len() implies seen(r, #[trigger] found[i]) by {
                if i < n {
                    assert(found[i] == p[i]);
                    assert(seen(kp, p[i]));
                    let m = choose|m: int| 0 <= m < kp.len() && same_identity(#[trigger] kp[m], p[i]);
                    assert(r[m] == kp[m]);
                } else {
                    assert(r[kp.len() as int] == x);
                    assert(same_identity(r[kp.len() as int], found[i]));
                }
            }
        }
    }
}

} // verus!
