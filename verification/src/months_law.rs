//! Scheduled comes month by month, and Completed day by day.

use vstd::prelude::*;

use crate::arrange::{order, tasks_are_ordered};
use crate::date::months_go_on;
use crate::nav::{NavView, OptsView, Sort};
use crate::plan::{
    DataView, completed_day, completed_plan, day_part, done_key, due_after, due_number, in_month,
    lemma_month_has_tasks, lemma_months_of, lemma_ordered_contains, month_key, month_of_plan,
    months_in, months_of, ordered, overdue_part, plan_of, runs, runs_cover, scheduled_plan, shown,
};
use crate::sorting::{arranged, arranged_is_in_order, arranged_keeps_all};
use crate::task::TaskView;

verus! {

// -- month by month -----------------------------------------------------------------------------

/// After the week, Scheduled comes month by month, whatever it is sorted by:
/// a section holds what is due in one month, and no two hold the same one.
pub proof fn scheduled_comes_by_month(
    data: DataView,
    opts: OptsView,
    today: int,
    zone: Seq<char>,
    i: int,
    j: int,
    a: TaskView,
    b: TaskView,
)
    requires
        0 <= i < plan_of(NavView::Scheduled, data, opts, today, zone).len(),
        0 <= j < plan_of(NavView::Scheduled, data, opts, today, zone).len(),
        plan_of(NavView::Scheduled, data, opts, today, zone)[i].kind is Range,
        plan_of(NavView::Scheduled, data, opts, today, zone)[j].kind is Range,
        plan_of(NavView::Scheduled, data, opts, today, zone)[i].tasks.contains(a),
        plan_of(NavView::Scheduled, data, opts, today, zone)[j].tasks.contains(b),
    ensures
        (month_key()(a) == month_key()(b)) == (i == j),
{
    let sort = opts.sort_of(NavView::Scheduled);
    let open = data.open.filter(shown(opts, today, data.sunday_first));
    let later = open.filter(due_after(today + 6));
    let keys = months_in(later, opts, sort);
    let n = overdue_part(open, opts, sort, today).len() + 7;
    lemma_months_of(ordered(later, Sort::Due, opts, sort));
    lemma_range(open, opts, sort, today, i);
    lemma_range(open, opts, sort, today, j);
    lemma_in_month(later, opts, sort, today, i - n, a);
    lemma_in_month(later, opts, sort, today, j - n, b);
    if i != j {
        assert(keys[i - n] != keys[j - n]);
    }
}

/// No section of a month is empty.
pub proof fn no_month_is_empty(data: DataView, opts: OptsView, today: int, zone: Seq<char>, i: int)
    requires
        0 <= i < plan_of(NavView::Scheduled, data, opts, today, zone).len(),
        plan_of(NavView::Scheduled, data, opts, today, zone)[i].kind is Range,
    ensures
        plan_of(NavView::Scheduled, data, opts, today, zone)[i].tasks.len() > 0,
{
    let sort = opts.sort_of(NavView::Scheduled);
    let open = data.open.filter(shown(opts, today, data.sunday_first));
    let later = open.filter(due_after(today + 6));
    let n = overdue_part(open, opts, sort, today).len() + 7;
    lemma_range(open, opts, sort, today, i);
    lemma_month_has_tasks(later, opts, sort, i - n);
    let k = months_in(later, opts, sort)[i - n];
    arranged_keeps_all(later.filter(in_month(k)), order(sort));
}

/// Where the sections of months are in Scheduled.
proof fn lemma_range(open: Seq<TaskView>, opts: OptsView, sort: Sort, today: int, i: int)
    requires
        0 <= i < scheduled_plan(open, opts, sort, today).len(),
        scheduled_plan(open, opts, sort, today)[i].kind is Range,
    ensures
        ({
            let later = open.filter(due_after(today + 6));
            let keys = months_in(later, opts, sort);
            let n = overdue_part(open, opts, sort, today).len() + 7;
            &&& n <= i < n + keys.len()
            &&& scheduled_plan(open, opts, sort, today)[i] == month_of_plan(
                later,
                opts,
                sort,
                today,
            )(keys[i - n])
        }),
{
    let a = overdue_part(open, opts, sort, today);
    let p = scheduled_plan(open, opts, sort, today);
    if i < a.len() {
        assert(p[i] == a[i]);
    } else if i < a.len() + 7 {
        assert(p[i] == day_part(open, opts, sort, today, i - a.len()));
    }
}

/// The tasks of a section after the week are due in its month.
proof fn lemma_in_month(
    later: Seq<TaskView>,
    opts: OptsView,
    sort: Sort,
    today: int,
    i: int,
    t: TaskView,
)
    requires
        0 <= i < months_in(later, opts, sort).len(),
        month_of_plan(later, opts, sort, today)(months_in(later, opts, sort)[i]).tasks.contains(t),
    ensures
        month_key()(t) == months_in(later, opts, sort)[i],
{
    let k = months_in(later, opts, sort)[i];
    let mine = later.filter(in_month(k));
    lemma_ordered_contains(mine, sort, opts, sort, t);
    let m = choose|m: int| 0 <= m < mine.len() && mine[m] == t;
    lemma_all_pass(later, in_month(k));
    assert(in_month(k)(mine[m]));
}

proof fn lemma_all_pass(s: Seq<TaskView>, p: spec_fn(TaskView) -> bool)
    ensures
        forall|i: int| 0 <= i < s.filter(p).len() ==> p(#[trigger] s.filter(p)[i]),
    decreases s.len(),
{
    reveal(Seq::filter);
    if s.len() > 0 {
        lemma_all_pass(s.drop_last(), p);
    }
}

// -- in the order of the calendar ---------------------------------------------------------------

/// One month is before another.
pub open spec fn month_before(a: (int, int), b: (int, int)) -> bool {
    a.0 < b.0 || (a.0 == b.0 && a.1 < b.1)
}

/// One month follows on another, going down the calendar or up.
pub open spec fn goes_on(a: (int, int), b: (int, int), down: bool) -> bool {
    if down {
        month_before(b, a)
    } else {
        month_before(a, b)
    }
}

/// Months come in the order of the calendar, turned around only with the
/// order by date.
pub proof fn months_go_in_order(later: Seq<TaskView>, opts: OptsView, sort: Sort, i: int, j: int)
    requires
        forall|k: int|
            0 <= k < later.len() ==> (#[trigger] later[k]).task.wf() && later[k].task.due is Some,
        0 <= i < j < months_in(later, opts, sort).len(),
    ensures
        goes_on(
            months_in(later, opts, sort)[i],
            months_in(later, opts, sort)[j],
            opts.descending && sort == Sort::Due,
        ),
{
    let v = arranged(later, order(Sort::Due));
    let o = ordered(later, Sort::Due, opts, sort);
    let down = opts.descending && sort == Sort::Due;
    tasks_are_ordered(later, Sort::Due);
    arranged_is_in_order(later, order(Sort::Due));
    arranged_keeps_all(later, order(Sort::Due));
    assert forall|x: int| 0 <= x < v.len() implies (#[trigger] v[x]).task.wf()
        && v[x].task.due is Some by {
        assert(v.contains(v[x]));
        assert(later.contains(v[x]));
    }
    assert forall|x: int, y: int| 0 <= x < y < o.len() implies {
        let (a, b) = (month_key()(#[trigger] o[x]), month_key()(#[trigger] o[y]));
        a == b || goes_on(a, b, down)
    } by {
        let (p, q) = if down {
            (v.len() - 1 - y, v.len() - 1 - x)
        } else {
            (x, y)
        };
        assert(order(Sort::Due)(v[p], v[q]));
        lemma_due_rises(v[p], v[q]);
    }
    lemma_firsts_go_on(o, down, i, j);
}

/// By date, months do not go back.
proof fn lemma_due_rises(a: TaskView, b: TaskView)
    requires
        order(Sort::Due)(a, b),
        a.task.wf() && a.task.due is Some,
        b.task.wf() && b.task.due is Some,
    ensures
        month_key()(a) == month_key()(b) || month_before(month_key()(a), month_key()(b)),
{
    let (r, s) = (crate::arrange::rank(a, Sort::Due), crate::arrange::rank(b, Sort::Due));
    assert(r[0] == 0 && s[0] == 0);
    assert(r.skip(1)[0] == due_number(a) && s.skip(1)[0] == due_number(b));
    assert(crate::sorting::rank_le(r.skip(1), s.skip(1)));
    months_go_on(due_number(a), due_number(b));
}

proof fn lemma_firsts_go_on(s: Seq<TaskView>, down: bool, i: int, j: int)
    requires
        forall|x: int, y: int|
            0 <= x < y < s.len() ==> {
                let (a, b) = (month_key()(#[trigger] s[x]), month_key()(#[trigger] s[y]));
                a == b || goes_on(a, b, down)
            },
        0 <= i < j < months_of(s).len(),
    ensures
        goes_on(months_of(s)[i], months_of(s)[j], down),
    decreases s.len(),
{
    let t = s.drop_last();
    let b = months_of(t);
    assert forall|x: int, y: int| 0 <= x < y < t.len() implies {
        let (p, q) = (month_key()(#[trigger] t[x]), month_key()(#[trigger] t[y]));
        p == q || goes_on(p, q, down)
    } by {
        assert(t[x] == s[x] && t[y] == s[y]);
    }
    if j < b.len() {
        lemma_firsts_go_on(t, down, i, j);
    } else {
        lemma_months_of(t);
        let x = choose|x: int| 0 <= x < t.len() && month_key()(t[x]) == b[i];
        assert(t[x] == s[x]);
        let last = month_key()(s[s.len() - 1]);
        assert(b[i] != last) by {
            assert(!b.contains(last));
        }
    }
}

// -- day by day ---------------------------------------------------------------------------------

/// A day among others, from the newest on; without one last.
pub open spec fn newer(a: Option<int>, b: Option<int>) -> bool {
    match (a, b) {
        (Some(x), Some(y)) => x > y,
        (Some(_), None) => true,
        _ => false,
    }
}

/// Completed tasks come newest first, and then every day has one section.
pub proof fn completed_comes_by_day(
    done: Seq<TaskView>,
    today: int,
    zone: Seq<char>,
    i: int,
    j: int,
    a: TaskView,
    b: TaskView,
)
    requires
        forall|x: int, y: int|
            0 <= x < y < done.len() ==> !newer(
                done_key(zone)(#[trigger] done[y]),
                done_key(zone)(#[trigger] done[x]),
            ),
        0 <= i < completed_plan(done, today, zone).len(),
        0 <= j < completed_plan(done, today, zone).len(),
        completed_plan(done, today, zone)[i].tasks.contains(a),
        completed_plan(done, today, zone)[j].tasks.contains(b),
    ensures
        (completed_day(a.task, zone) == completed_day(b.task, zone)) == (i == j),
{
    let key = done_key(zone);
    let r = runs(done, key);
    runs_cover(done, key);
    let x = choose|x: int| 0 <= x < r[i].len() && r[i][x] == a;
    let y = choose|y: int| 0 <= y < r[j].len() && r[j][y] == b;
    assert(key(r[i][x]) == key(r[i][0]));
    assert(key(r[j][y]) == key(r[j][0]));
    if i < j {
        lemma_runs_get_older(done, zone, i, j);
    } else if j < i {
        lemma_runs_get_older(done, zone, j, i);
    }
}

proof fn lemma_runs_get_older(s: Seq<TaskView>, zone: Seq<char>, i: int, j: int)
    requires
        forall|x: int, y: int|
            0 <= x < y < s.len() ==> !newer(
                done_key(zone)(#[trigger] s[y]),
                done_key(zone)(#[trigger] s[x]),
            ),
        0 <= i < j < runs(s, done_key(zone)).len(),
    ensures
        newer(
            done_key(zone)(runs(s, done_key(zone))[i][0]),
            done_key(zone)(runs(s, done_key(zone))[j][0]),
        ),
    decreases s.len(),
{
    let key = done_key(zone);
    let t = s.drop_last();
    let before = runs(t, key);
    let r = runs(s, key);
    assert forall|x: int, y: int| 0 <= x < y < t.len() implies !newer(
        key(#[trigger] t[y]),
        key(#[trigger] t[x]),
    ) by {
        assert(t[x] == s[x] && t[y] == s[y]);
    }
    runs_cover(t, key);
    runs_cover(s, key);
    if j < before.len() {
        lemma_runs_get_older(t, zone, i, j);
        assert(r[i][0] == before[i][0] && r[j][0] == before[j][0]);
    } else {
        assert(r[j][0] == s.last());
        assert(r[i][0] == before[i][0]);
        let m = before.len() - 1;
        assert(before[m][before[m].len() - 1] == t.last());
        assert(key(before[m][before[m].len() - 1]) == key(before[m][0]));
        assert(t.last() == s[s.len() - 2]);
        assert(!newer(key(s[s.len() - 1]), key(s[s.len() - 2])));
        if i < m {
            lemma_runs_get_older(t, zone, i, m);
        }
    }
}

} // verus!
