//! Choosing the tasks that a listing or a count shows.
use crate::date::Date;
use crate::task::{spec_completed_today, spec_done, spec_due_today, spec_overdue, Task};
use vstd::prelude::*;

verus! {

/// Which tasks a command shows.
#[derive(Clone, Copy, Debug, PartialEq, Eq, Structural)]
pub enum Selection {
    All,
    DueToday,
    Overdue,
    Pending,
    CompletedToday,
}

/// Whether a selection shows a task on `today`.
pub open spec fn selects(sel: Selection, t: Task, today: Date) -> bool {
    match sel {
        Selection::All => true,
        Selection::DueToday => spec_due_today(&t, today),
        Selection::Overdue => spec_overdue(&t, today),
        Selection::Pending => !spec_done(&t),
        Selection::CompletedToday => spec_completed_today(&t, today),
    }
}

/// The positions, in order, of the tasks that a selection shows.
pub open spec fn selected_indices(tasks: Seq<Task>, sel: Selection, today: Date) -> Seq<usize>
    decreases tasks.len(),
{
    if tasks.len() == 0 {
        Seq::empty()
    } else {
        let before = selected_indices(tasks.drop_last(), sel, today);
        if selects(sel, tasks.last(), today) {
            before.push((tasks.len() - 1) as usize)
        } else {
            before
        }
    }
}

impl Selection {
    /// Whether this selection shows `t` on `today`.
    pub fn matches(&self, t: &Task, today: Date) -> (r: bool)
        ensures
            r == selects(*self, *t, today),
    {
        match self {
            Selection::All => true,
            Selection::DueToday => t.is_due_today(today),
            Selection::Overdue => t.is_overdue(today),
            Selection::Pending => t.is_pending(),
            Selection::CompletedToday => t.is_completed_today(today),
        }
    }

    /// The selection that a count uses for its flags: due today first, then
    /// overdue, then completed today, and pending when none is set.
    pub fn for_count(today: bool, overdue: bool, completed_today: bool) -> (r: Selection)
        ensures
            r == (if today {
                Selection::DueToday
            } else if overdue {
                Selection::Overdue
            } else if completed_today {
                Selection::CompletedToday
            } else {
                Selection::Pending
            }),
    {
        if today {
            Selection::DueToday
        } else if overdue {
            Selection::Overdue
        } else if completed_today {
            Selection::CompletedToday
        } else {
            Selection::Pending
        }
    }
}

/// The positions, in order, of the tasks that `sel` shows on `today`.
pub fn select(tasks: &Vec<Task>, sel: Selection, today: Date) -> (r: Vec<usize>)
    ensures
        r@ == selected_indices(tasks@, sel, today),
{
    let mut picked: Vec<usize> = Vec::new();
    let mut i: usize = 0;
    while i < tasks.len()
        invariant
            i <= tasks@.len(),
            picked@ == selected_indices(tasks@.take(i as int), sel, today),
        decreases tasks@.len() - i,
    {
        proof {
            assert(tasks@.take(i + 1).drop_last() =~= tasks@.take(i as int));
        }
        if sel.matches(&tasks[i], today) {
            picked.push(i);
        }
        i += 1;
    }
    proof {
        assert(tasks@.take(i as int) =~= tasks@);
    }
    picked
}

/// How many tasks `sel` shows on `today`.
pub fn count_selected(tasks: &Vec<Task>, sel: Selection, today: Date) -> (r: usize)
    ensures
        r == selected_indices(tasks@, sel, today).len(),
{
    select(tasks, sel, today).len()
}

} // verus!
