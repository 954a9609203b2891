//! The orders that tasks are shown in.

use vstd::prelude::*;

use crate::nav::Sort;
use crate::order::{reading, reads_before};
use crate::sorting::{arrange_by, arranged, rank_le, ranks};
use crate::task::{TaskView, unref};
use crate::zone::Moment;

verus! {

// -- the order of tasks -------------------------------------------------------------

/// A moment among others; none comes first.
pub open spec fn moment_rank(at: Option<Moment>) -> Seq<i64> {
    match at {
        None => seq![0i64, 0, 0],
        Some(m) => seq![1i64, m.secs, m.nanos as i64],
    }
}

/// By the numbers the user gave, then by when they were added.
pub open spec fn custom_rank(t: TaskView) -> Seq<i64> {
    (match t.task.sort_order {
        None => seq![1i64, 0],
        Some(n) => seq![0i64, n],
    }) + moment_rank(t.task.created)
}

/// By the day and the time due; without a date last.
pub open spec fn due_rank(t: TaskView) -> Seq<i64> {
    match t.task.due {
        None => seq![1i64, 0, 0, 0],
        Some(w) => seq![0i64, w.date.ce as i64, w.at.secs, w.at.nanos as i64],
    }
}

/// By a moment; without one last.
pub open spec fn late_rank(at: Option<Moment>) -> Seq<i64> {
    match at {
        None => seq![1i64, 0, 0],
        Some(m) => seq![0i64, m.secs, m.nanos as i64],
    }
}

/// Where a task stands in an order that goes by numbers.
pub open spec fn rank(t: TaskView, sort: Sort) -> Seq<i64> {
    match sort {
        Sort::Due => due_rank(t) + seq![t.task.level as i64] + custom_rank(t),
        Sort::Priority => seq![t.task.level as i64] + due_rank(t) + custom_rank(t),
        Sort::Added => late_rank(t.task.created),
        Sort::Modified => late_rank(
            if t.task.modified is Some {
                t.task.modified
            } else {
                t.task.created
            },
        ),
        Sort::Custom | Sort::Name => custom_rank(t),
    }
}

/// `a` does not come after `b`.
pub open spec fn task_le(a: TaskView, b: TaskView, sort: Sort) -> bool {
    if sort == Sort::Name {
        let o = reading(a.task.summary@, b.task.summary@);
        o < 0 || (o == 0 && rank_le(rank(a, sort), rank(b, sort)))
    } else {
        rank_le(rank(a, sort), rank(b, sort))
    }
}

pub open spec fn order(sort: Sort) -> spec_fn(TaskView, TaskView) -> bool {
    |a: TaskView, b: TaskView| task_le(a, b, sort)
}

fn push_moment(out: &mut Vec<i64>, at: Option<Moment>)
    ensures
        final(out)@ == old(out)@ + moment_rank(at),
{
    match at {
        None => {
            out.push(0);
            out.push(0);
            out.push(0);
        },
        Some(m) => {
            out.push(1);
            out.push(m.secs);
            out.push(m.nanos as i64);
        },
    }
}

fn push_custom(out: &mut Vec<i64>, t: &TaskView)
    ensures
        final(out)@ == old(out)@ + custom_rank(*t),
{
    match t.task.sort_order {
        None => {
            out.push(1);
            out.push(0);
        },
        Some(n) => {
            out.push(0);
            out.push(n);
        },
    }
    push_moment(out, t.task.created);
}

fn push_due(out: &mut Vec<i64>, t: &TaskView)
    ensures
        final(out)@ == old(out)@ + due_rank(*t),
{
    match t.task.due {
        None => {
            out.push(1);
            out.push(0);
            out.push(0);
            out.push(0);
        },
        Some(w) => {
            out.push(0);
            out.push(w.date.ce as i64);
            out.push(w.at.secs);
            out.push(w.at.nanos as i64);
        },
    }
}

fn late(at: Option<Moment>) -> (r: Vec<i64>)
    ensures
        r@ == late_rank(at),
{
    match at {
        None => vec![1, 0, 0],
        Some(m) => vec![0, m.secs, m.nanos as i64],
    }
}

fn rank_of(t: &TaskView, sort: Sort) -> (r: Vec<i64>)
    ensures
        r@ == rank(*t, sort),
{
    let mut out: Vec<i64> = Vec::new();
    match sort {
        Sort::Due => {
            push_due(&mut out, t);
            out.push(t.task.level as i64);
            push_custom(&mut out, t);
        },
        Sort::Priority => {
            out.push(t.task.level as i64);
            push_due(&mut out, t);
            push_custom(&mut out, t);
        },
        Sort::Added => {
            return late(t.task.created);
        },
        Sort::Modified => {
            return late(
                if t.task.modified.is_some() {
                    t.task.modified
                } else {
                    t.task.created
                },
            );
        },
        Sort::Custom | Sort::Name => {
            push_custom(&mut out, t);
        },
    }
    out
}

/// Whether `a` does not come after `b`.
fn goes_before(a: &TaskView, b: &TaskView, sort: Sort) -> (r: bool)
    ensures
        r == task_le(*a, *b, sort),
{
    if sort == Sort::Name {
        let there = reads_before(a.task.summary.as_str(), b.task.summary.as_str());
        let back = reads_before(b.task.summary.as_str(), a.task.summary.as_str());
        proof {
            crate::order::reading_flips(a.task.summary@, b.task.summary@);
        }
        there && (!back || ranks(&rank_of(a, sort), &rank_of(b, sort)))
    } else {
        ranks(&rank_of(a, sort), &rank_of(b, sort))
    }
}

/// The order of references to tasks is that of the tasks.
pub open spec fn ref_order<'a>(sort: Sort) -> spec_fn(&'a TaskView, &'a TaskView) -> bool {
    |a: &'a TaskView, b: &'a TaskView| task_le(*a, *b, sort)
}

proof fn lemma_placed_unref<'a>(s: Seq<&'a TaskView>, x: &'a TaskView, sort: Sort)
    ensures
        unref(crate::sorting::placed(s, x, ref_order(sort))) == crate::sorting::placed(
            unref(s),
            *x,
            order(sort),
        ),
    decreases s.len(),
{
    if s.len() == 0 || task_le(*s.last(), *x, sort) {
        assert(unref(s.push(x)) == unref(s).push(*x));
    } else {
        lemma_placed_unref(s.drop_last(), x, sort);
        assert(unref(s.drop_last()) == unref(s).drop_last());
        let p = crate::sorting::placed(s.drop_last(), x, ref_order(sort));
        assert(unref(p.push(s.last())) == unref(p).push(*s.last()));
    }
}

proof fn lemma_arranged_unref<'a>(s: Seq<&'a TaskView>, sort: Sort)
    ensures
        unref(arranged(s, ref_order(sort))) == arranged(unref(s), order(sort)),
    decreases s.len(),
{
    if s.len() > 0 {
        lemma_arranged_unref(s.drop_last(), sort);
        assert(unref(s.drop_last()) == unref(s).drop_last());
        lemma_placed_unref(arranged(s.drop_last(), ref_order(sort)), s.last(), sort);
    }
}

/// The tasks in an order. What ties stays as it was.
pub fn sorted<'a>(tasks: Vec<&'a TaskView>, sort: Sort) -> (r: Vec<&'a TaskView>)
    ensures
        unref(r@) == arranged(unref(tasks@), order(sort)),
{
    let f = |a: &&'a TaskView, b: &&'a TaskView| -> (r: bool)
        ensures
            r == task_le(**a, **b, sort),
        { goes_before(*a, *b, sort) };
    let ghost s = tasks@;
    let r = arrange_by(tasks, &f, Ghost(ref_order(sort)));
    proof {
        lemma_arranged_unref(s, sort);
    }
    r
}

/// The orders of tasks are orders.
pub proof fn tasks_are_ordered(s: Seq<TaskView>, sort: Sort)
    ensures
        crate::sorting::orders(order(sort), s),
{
    let le = order(sort);
    assert forall|a: TaskView, b: TaskView| s.contains(a) && s.contains(b) implies #[trigger] le(
        a,
        b,
    ) || le(b, a) by {
        crate::sorting::rank_orders(rank(a, sort), rank(b, sort), rank(a, sort));
        crate::order::reading_flips(a.task.summary@, b.task.summary@);
    }
    assert forall|a: TaskView, b: TaskView, c: TaskView|
        s.contains(a) && s.contains(b) && s.contains(c) && #[trigger] le(a, b) && #[trigger] le(
            b,
            c,
        ) implies le(a, c) by {
        crate::sorting::rank_orders(rank(a, sort), rank(b, sort), rank(c, sort));
        if sort == Sort::Name {
            let (x, y, z) = (a.task.summary@, b.task.summary@, c.task.summary@);
            crate::order::reading_carries(x, y, z);
            crate::order::reading_carries(z, y, x);
            crate::order::reading_flips(x, y);
            crate::order::reading_flips(y, z);
            crate::order::reading_flips(x, z);
        }
    }
}

} // verus!
