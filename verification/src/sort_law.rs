//! What each order is: which of two tasks comes first, by what they hold.

use vstd::prelude::*;

use crate::arrange::{
    custom_rank, due_rank, late_rank, moment_rank, order, sorted, task_le, tasks_are_ordered,
};
use crate::nav::{NavView, OptsView, Sort};
use crate::number::{decimal, decimal_reads_back};
use crate::order::{lex, reading, run};
use crate::plan::ordered;
use crate::sorting::{arranged, arranged_is_in_order, rank_le};
use crate::task::{TaskView, When, unref};
use crate::text::{digit, lowercase};
use crate::zone::Moment;

verus! {

// -- which comes first --------------------------------------------------------------------------

/// No later than.
pub open spec fn no_later(a: Moment, b: Moment) -> bool {
    a.secs < b.secs || (a.secs == b.secs && a.nanos <= b.nanos)
}

/// Due no later: an earlier day, or an earlier time on the same one. What has
/// no date comes last.
pub open spec fn due_no_later(a: Option<When>, b: Option<When>) -> bool {
    match (a, b) {
        (_, None) => true,
        (None, Some(_)) => false,
        (Some(x), Some(y)) => x.date.ce < y.date.ce || (x.date.ce == y.date.ce && no_later(
            x.at,
            y.at,
        )),
    }
}

/// Due at the same time of the same day, or neither due at all.
pub open spec fn due_together(a: Option<When>, b: Option<When>) -> bool {
    match (a, b) {
        (None, None) => true,
        (Some(x), Some(y)) => x.date.ce == y.date.ce && x.at.secs == y.at.secs && x.at.nanos
            == y.at.nanos,
        _ => false,
    }
}

/// Of two moments, the earlier; what has none comes last.
pub open spec fn known_no_later(a: Option<Moment>, b: Option<Moment>) -> bool {
    match (a, b) {
        (_, None) => true,
        (None, Some(_)) => false,
        (Some(x), Some(y)) => no_later(x, y),
    }
}

/// By hand: the smaller number, what has none after what has one, and then
/// what was added earlier.
pub open spec fn by_hand(a: TaskView, b: TaskView) -> bool {
    match (a.task.sort_order, b.task.sort_order) {
        (Some(_), None) => true,
        (None, Some(_)) => false,
        (Some(m), Some(n)) => m < n || (m == n && added_no_later(a, b)),
        (None, None) => added_no_later(a, b),
    }
}

pub open spec fn added_no_later(a: TaskView, b: TaskView) -> bool {
    match (a.task.created, b.task.created) {
        (None, _) => true,
        (Some(_), None) => false,
        (Some(x), Some(y)) => no_later(x, y),
    }
}

// -- the orders ---------------------------------------------------------------------------------

/// Sorted by priority, levels never fall (1 is the highest); tasks of one
/// level are by when they are due, and those by hand.
pub proof fn priorities_never_fall(s: Seq<TaskView>, i: int, j: int)
    requires
        0 <= i < j < arranged(s, order(Sort::Priority)).len(),
    ensures
        ({
            let v = arranged(s, order(Sort::Priority));
            let (a, b) = (v[i], v[j]);
            &&& a.task.level <= b.task.level
            &&& a.task.level == b.task.level ==> due_no_later(a.task.due, b.task.due)
            &&& a.task.level == b.task.level && due_together(a.task.due, b.task.due) ==> by_hand(
                a,
                b,
            )
        }),
{
    let v = arranged(s, order(Sort::Priority));
    let (a, b) = (v[i], v[j]);
    lemma_in_order(s, Sort::Priority, i, j);
    let (x, y) = (seq![a.task.level as i64], seq![b.task.level as i64]);
    lemma_parts(x + due_rank(a), custom_rank(a), y + due_rank(b), custom_rank(b));
    lemma_parts(x, due_rank(a), y, due_rank(b));
    lemma_one(a.task.level as i64, b.task.level as i64);
    lemma_due(a, b);
    lemma_custom(a, b);
}

/// Sorted by due date, what is due earlier comes first and what has no date
/// last; tasks due together are by priority, and those by hand.
pub proof fn due_dates_never_fall(s: Seq<TaskView>, i: int, j: int)
    requires
        0 <= i < j < arranged(s, order(Sort::Due)).len(),
    ensures
        ({
            let v = arranged(s, order(Sort::Due));
            let (a, b) = (v[i], v[j]);
            &&& due_no_later(a.task.due, b.task.due)
            &&& due_together(a.task.due, b.task.due) ==> a.task.level <= b.task.level
            &&& due_together(a.task.due, b.task.due) && a.task.level == b.task.level ==> by_hand(
                a,
                b,
            )
        }),
{
    let v = arranged(s, order(Sort::Due));
    let (a, b) = (v[i], v[j]);
    lemma_in_order(s, Sort::Due, i, j);
    let (x, y) = (seq![a.task.level as i64], seq![b.task.level as i64]);
    lemma_parts(due_rank(a) + x, custom_rank(a), due_rank(b) + y, custom_rank(b));
    lemma_parts(due_rank(a), x, due_rank(b), y);
    lemma_one(a.task.level as i64, b.task.level as i64);
    lemma_due(a, b);
    lemma_custom(a, b);
}

/// In custom order, tasks are by the numbers they were given.
pub proof fn numbers_never_fall(s: Seq<TaskView>, i: int, j: int)
    requires
        0 <= i < j < arranged(s, order(Sort::Custom)).len(),
    ensures
        by_hand(arranged(s, order(Sort::Custom))[i], arranged(s, order(Sort::Custom))[j]),
{
    let v = arranged(s, order(Sort::Custom));
    lemma_in_order(s, Sort::Custom, i, j);
    lemma_custom(v[i], v[j]);
}

/// Sorted by the date added, what was added earlier comes first; by the date
/// modified, what was changed earlier, and what never was goes by when it was
/// added. What has no such moment comes last.
pub proof fn moments_never_fall(s: Seq<TaskView>, i: int, j: int)
    requires
        0 <= i < j < s.len(),
    ensures
        ({
            let v = arranged(s, order(Sort::Added));
            known_no_later(v[i].task.created, v[j].task.created)
        }),
        ({
            let v = arranged(s, order(Sort::Modified));
            let at = |t: TaskView|
                match t.task.modified {
                    Some(m) => Some(m),
                    None => t.task.created,
                };
            known_no_later(at(v[i]), at(v[j]))
        }),
{
    crate::sorting::arranged_keeps_all(s, order(Sort::Added));
    crate::sorting::arranged_keeps_all(s, order(Sort::Modified));
    let v = arranged(s, order(Sort::Added));
    lemma_in_order(s, Sort::Added, i, j);
    lemma_late(v[i].task.created, v[j].task.created);
    let w = arranged(s, order(Sort::Modified));
    let at = |t: TaskView|
        match t.task.modified {
            Some(m) => Some(m),
            None => t.task.created,
        };
    lemma_in_order(s, Sort::Modified, i, j);
    lemma_late(at(w[i]), at(w[j]));
}

/// Sorted by name, names go as people read them; tasks of one name are by
/// hand.
pub proof fn names_go_as_read(s: Seq<TaskView>, i: int, j: int)
    requires
        0 <= i < j < arranged(s, order(Sort::Name)).len(),
    ensures
        ({
            let v = arranged(s, order(Sort::Name));
            let o = reading(v[i].task.summary@, v[j].task.summary@);
            o < 0 || (o == 0 && by_hand(v[i], v[j]))
        }),
{
    let v = arranged(s, order(Sort::Name));
    lemma_in_order(s, Sort::Name, i, j);
    if reading(v[i].task.summary@, v[j].task.summary@) == 0 {
        lemma_custom(v[i], v[j]);
    }
}

/// A view that is sorted last first shows what it would show, turned around;
/// a custom order is never turned around, and nor is one that the view is not
/// sorted by.
pub proof fn last_first_turns_around(s: Seq<TaskView>, sort: Sort, opts: OptsView, view_sort: Sort)
    ensures
        ({
            let up = arranged(s, order(sort));
            let v = ordered(s, sort, opts, view_sort);
            &&& v.len() == s.len()
            &&& forall|i: int|
                0 <= i < v.len() ==> #[trigger] v[i] == (if opts.descending && sort == view_sort
                    && sort != Sort::Custom {
                    up[v.len() - 1 - i]
                } else {
                    up[i]
                })
        }),
{
    crate::sorting::arranged_keeps_all(s, order(sort));
}

/// A list and the inbox are in the order they were put in by hand, and other
/// views by due date, until another order is chosen; and that one then holds.
pub proof fn orders_are_chosen(n: NavView, opts: OptsView)
    ensures
        opts.sort matches Some(s) ==> opts.sort_of(n) == s,
        opts.sort is None && (n is List || n is Inbox) ==> opts.sort_of(n) == Sort::Custom,
        opts.sort is None && !(n is List || n is Inbox) ==> opts.sort_of(n) == Sort::Due,
{
}

/// One task may come before another: by priority the higher, by date the
/// earlier, by name as read, by hand as it was put.
pub open spec fn may_precede(a: TaskView, b: TaskView, sort: Sort) -> bool {
    match sort {
        Sort::Priority => a.task.level <= b.task.level,
        Sort::Due => due_no_later(a.task.due, b.task.due),
        Sort::Custom => by_hand(a, b),
        Sort::Name => reading(a.task.summary@, b.task.summary@) <= 0,
        Sort::Added => known_no_later(a.task.created, b.task.created),
        Sort::Modified => known_no_later(
            if a.task.modified is Some {
                a.task.modified
            } else {
                a.task.created
            },
            if b.task.modified is Some {
                b.task.modified
            } else {
                b.task.created
            },
        ),
    }
}

/// What is sorted is in order: no task comes before one that should come
/// first, or the other way round last first.
pub proof fn sorted_tasks_are_in_order(
    s: Seq<TaskView>,
    sort: Sort,
    opts: OptsView,
    view_sort: Sort,
    i: int,
    j: int,
)
    requires
        0 <= i < j < s.len(),
    ensures
        ({
            let v = ordered(s, sort, opts, view_sort);
            &&& v.len() == s.len()
            &&& if opts.descending && sort == view_sort && sort != Sort::Custom {
                may_precede(v[j], v[i], sort)
            } else {
                may_precede(v[i], v[j], sort)
            }
        }),
{
    last_first_turns_around(s, sort, opts, view_sort);
    let n = s.len() as int;
    lemma_may_precede(s, sort, i, j);
    lemma_may_precede(s, sort, n - 1 - j, n - 1 - i);
}

proof fn lemma_may_precede(s: Seq<TaskView>, sort: Sort, i: int, j: int)
    requires
        0 <= i < j < s.len(),
    ensures
        may_precede(arranged(s, order(sort))[i], arranged(s, order(sort))[j], sort),
{
    crate::sorting::arranged_keeps_all(s, order(sort));
    match sort {
        Sort::Priority => priorities_never_fall(s, i, j),
        Sort::Due => due_dates_never_fall(s, i, j),
        Sort::Custom => numbers_never_fall(s, i, j),
        Sort::Name => names_go_as_read(s, i, j),
        Sort::Added | Sort::Modified => moments_never_fall(s, i, j),
    }
}

/// The tasks that are sorted are those that were given, each once.
pub proof fn sorting_keeps_the_tasks(
    tasks: Vec<&TaskView>,
    sort: Sort,
    r: Vec<&TaskView>,
    i: int,
    j: int,
)
    requires
        call_ensures(sorted, (tasks, sort), r),
        0 <= i < j < r@.len(),
    ensures
        unref(r@).to_multiset() == unref(tasks@).to_multiset(),
        may_precede(*r@[i], *r@[j], sort),
{
    let s = unref(tasks@);
    crate::sorting::arranged_keeps_all(s, order(sort));
    assert(unref(r@).len() == r@.len());
    assert(unref(r@)[i] == *r@[i] && unref(r@)[j] == *r@[j]);
    lemma_may_precede(s, sort, i, j);
}

// -- names --------------------------------------------------------------------------------------

/// Numbers in names go by what they are worth: "Task 2" comes before
/// "Task 10".
pub proof fn numbers_in_names_go_by_value(p: Seq<char>, m: nat, n: nat)
    requires
        forall|i: int| 0 <= i < p.len() ==> !('0' <= #[trigger] p[i] <= '9'),
    ensures
        (reading(p + decimal(m), p + decimal(n)) < 0) == (m < n),
        (reading(p + decimal(m), p + decimal(n)) == 0) == (m == n),
{
    lemma_same_start(p, decimal(m), decimal(n));
    decimal_reads_back(m);
    decimal_reads_back(n);
    let (a, b) = (decimal(m), decimal(n));
    lemma_all_run(a);
    lemma_all_run(b);
    assert(a.take(a.len() as int) == a && b.take(b.len() as int) == b);
    assert(digit(a[0]) && digit(b[0]));
    assert(a.skip(a.len() as int).len() == 0 && b.skip(b.len() as int).len() == 0);
    assert(crate::order::head_order(a, b) == crate::order::number_order(a, b));
    if m == n {
        crate::order::reading_is_reflexive(a);
    } else {
        assert(reading(a, b) == crate::order::head_order(a, b));
    }
}

/// Letters in names go by their lowercase, whatever the case, where two names
/// first differ.
pub proof fn letters_in_names_go_by_lowercase(
    p: Seq<char>,
    x: char,
    y: char,
    s: Seq<char>,
    t: Seq<char>,
    lx: char,
    ly: char,
)
    requires
        forall|i: int| 0 <= i < p.len() ==> !('0' <= #[trigger] p[i] <= '9'),
        !('0' <= x <= '9') && !('0' <= y <= '9') && !('0' <= lx <= '9') && !('0' <= ly <= '9'),
        lowercase(x) == seq![lx],
        lowercase(y) == seq![ly],
    ensures
        lx < ly ==> reading(p + (seq![x] + s), p + (seq![y] + t)) < 0,
        lx == ly ==> reading(p + (seq![x] + s), p + (seq![y] + t)) == reading(s, t),
{
    let (a, b) = (seq![x] + s, seq![y] + t);
    lemma_same_start(p, a, b);
    assert(a.skip(1) == s && b.skip(1) == t);
    assert(!digit(x) && !digit(y) && !digit(lx) && !digit(ly));
    assert(lowercase(x)[0] == lx && lowercase(y)[0] == ly);
    let (u, v) = (seq![lx], seq![ly]);
    assert(u.skip(1).len() == 0 && v.skip(1).len() == 0);
    reveal_with_fuel(lex, 2);
    assert(u[0] == lx && v[0] == ly);
}

/// Of two names, one the start of the other, the shorter comes first.
pub proof fn shorter_names_come_first(p: Seq<char>, s: Seq<char>)
    requires
        forall|i: int| 0 <= i < p.len() ==> !('0' <= #[trigger] p[i] <= '9'),
        s.len() > 0,
    ensures
        reading(p, p + s) < 0,
{
    lemma_same_start(p, Seq::empty(), s);
    assert(p + Seq::<char>::empty() == p);
}

proof fn lemma_same_start(p: Seq<char>, a: Seq<char>, b: Seq<char>)
    requires
        forall|i: int| 0 <= i < p.len() ==> !('0' <= #[trigger] p[i] <= '9'),
    ensures
        reading(p + a, p + b) == reading(a, b),
    decreases p.len(),
{
    if p.len() == 0 {
        assert(p + a == a && p + b == b);
    } else {
        let q = p.skip(1);
        let (x, y) = (p + a, p + b);
        assert forall|i: int| 0 <= i < q.len() implies !('0' <= #[trigger] q[i] <= '9') by {
            assert(q[i] == p[i + 1]);
        }
        lemma_same_start(q, a, b);
        assert(x[0] == p[0] && y[0] == p[0]);
        assert(x.skip(1) == q + a && y.skip(1) == q + b);
        assert(!digit(x[0]));
        crate::order::lemma_lex_same(crate::order::folded(p[0]), crate::order::folded(p[0]));
    }
}

proof fn lemma_all_run(s: Seq<char>)
    requires
        forall|i: int| 0 <= i < s.len() ==> digit(#[trigger] s[i]),
    ensures
        run(s) == s.len(),
    decreases s.len(),
{
    if s.len() > 0 {
        let t = s.skip(1);
        assert forall|i: int| 0 <= i < t.len() implies digit(#[trigger] t[i]) by {
            assert(t[i] == s[i + 1]);
        }
        lemma_all_run(t);
        assert(digit(s[0]));
    }
}

// -- ranks --------------------------------------------------------------------------------------

proof fn lemma_in_order(s: Seq<TaskView>, sort: Sort, i: int, j: int)
    requires
        0 <= i < j < arranged(s, order(sort)).len(),
    ensures
        task_le(arranged(s, order(sort))[i], arranged(s, order(sort))[j], sort),
{
    tasks_are_ordered(s, sort);
    arranged_is_in_order(s, order(sort));
    let v = arranged(s, order(sort));
    assert(order(sort)(v[i], v[j]));
}

/// Ranks in parts: the first parts decide, and where those are the same, the
/// others do.
proof fn lemma_parts(a: Seq<i64>, x: Seq<i64>, b: Seq<i64>, y: Seq<i64>)
    requires
        a.len() == b.len(),
        rank_le(a + x, b + y),
    ensures
        rank_le(a, b),
        a == b ==> rank_le(x, y),
    decreases a.len(),
{
    if a.len() == 0 {
        assert(a + x == x && b + y == y);
    } else {
        assert((a + x)[0] == a[0] && (b + y)[0] == b[0]);
        assert((a + x).skip(1) == a.skip(1) + x && (b + y).skip(1) == b.skip(1) + y);
        if a[0] == b[0] {
            lemma_parts(a.skip(1), x, b.skip(1), y);
        }
    }
}

proof fn lemma_one(m: i64, n: i64)
    ensures
        rank_le(seq![m], seq![n]) == (m <= n),
{
    reveal_with_fuel(rank_le, 2);
}

proof fn lemma_due(a: TaskView, b: TaskView)
    ensures
        rank_le(due_rank(a), due_rank(b)) ==> due_no_later(a.task.due, b.task.due),
        due_together(a.task.due, b.task.due) ==> due_rank(a) == due_rank(b),
{
    lemma_four(due_rank(a), due_rank(b));
}

proof fn lemma_late(a: Option<Moment>, b: Option<Moment>)
    ensures
        rank_le(late_rank(a), late_rank(b)) ==> known_no_later(a, b),
{
    lemma_three(late_rank(a), late_rank(b));
}

proof fn lemma_custom(a: TaskView, b: TaskView)
    ensures
        rank_le(custom_rank(a), custom_rank(b)) ==> by_hand(a, b),
{
    if rank_le(custom_rank(a), custom_rank(b)) {
        let (x, y) = (custom_rank(a).take(2), custom_rank(b).take(2));
        let (p, q) = (moment_rank(a.task.created), moment_rank(b.task.created));
        assert(custom_rank(a) == x + p && custom_rank(b) == y + q);
        lemma_parts(x, p, y, q);
        lemma_three(p, q);
        lemma_two(x, y);
    }
}

proof fn lemma_two(a: Seq<i64>, b: Seq<i64>)
    requires
        a.len() == 2,
        b.len() == 2,
    ensures
        rank_le(a, b) == (a[0] < b[0] || (a[0] == b[0] && a[1] <= b[1])),
        (a[0] == b[0] && a[1] == b[1]) == (a == b),
{
    lemma_first(a, b);
    lemma_one(a[1], b[1]);
    assert(a.skip(1) == seq![a[1]] && b.skip(1) == seq![b[1]]);
    if a[0] == b[0] && a[1] == b[1] {
        assert(a =~= b);
    }
}

proof fn lemma_three(a: Seq<i64>, b: Seq<i64>)
    requires
        a.len() == 3,
        b.len() == 3,
    ensures
        rank_le(a, b) == (a[0] < b[0] || (a[0] == b[0] && (a[1] < b[1] || (a[1] == b[1] && a[2]
            <= b[2])))),
{
    lemma_first(a, b);
    lemma_two(a.skip(1), b.skip(1));
}

proof fn lemma_four(a: Seq<i64>, b: Seq<i64>)
    requires
        a.len() == 4,
        b.len() == 4,
    ensures
        rank_le(a, b) == (a[0] < b[0] || (a[0] == b[0] && (a[1] < b[1] || (a[1] == b[1] && (a[2]
            < b[2] || (a[2] == b[2] && a[3] <= b[3])))))),
{
    lemma_first(a, b);
    lemma_three(a.skip(1), b.skip(1));
}

proof fn lemma_first(a: Seq<i64>, b: Seq<i64>)
    requires
        a.len() > 0,
        b.len() > 0,
    ensures
        rank_le(a, b) == (a[0] < b[0] || (a[0] == b[0] && rank_le(a.skip(1), b.skip(1)))),
{
}

} // verus!
