//! Every view shows the tasks that belong to it, each once.

use vstd::prelude::*;

use crate::arrange::order;
use crate::nav::{NavView, OptsView, Sort};
use crate::plan::{
    DataView, SectionView, by_list_plan, chained, completed_on_day, day_part, done_key, done_part,
    due_after, due_before, due_on, finished_part, in_list, in_month, inbox_of, lemma_months_of,
    lemma_ordered_contains, list_plan, month_key, month_of_plan, months_in, ordered, overdue_part,
    plan_of, repeats, runs, runs_cover, scheduled_plan, shown, today_plan, undated,
};
use crate::sorting::arranged_keeps_all;
use crate::task::{ListView, TaskView};

verus! {

/// How often a task is among tasks.
pub open spec fn often(s: Seq<TaskView>, t: TaskView) -> nat {
    s.to_multiset().count(t)
}

/// How often a task is shown in sections.
pub open spec fn times(s: Seq<SectionView>, t: TaskView) -> nat
    decreases s.len(),
{
    if s.len() == 0 {
        0
    } else {
        times(s.drop_last(), t) + often(s.last().tasks, t)
    }
}

/// A task is in one of some lists.
pub open spec fn in_some(lists: Seq<ListView>, t: TaskView) -> bool {
    exists|i: int| 0 <= i < lists.len() && (#[trigger] lists[i]).href@ == t.list@
}

/// No two lists have one address.
pub open spec fn own_addresses(lists: Seq<ListView>) -> bool {
    forall|i: int, j: int|
        0 <= i < j < lists.len() ==> (#[trigger] lists[i]).href@ != (#[trigger] lists[j]).href@
}

/// A count where something holds.
pub open spec fn where_so(b: bool, n: nat) -> nat {
    if b {
        n
    } else {
        0
    }
}

/// How often a task belongs to a view: as often as it is among the open tasks
/// (or the completed ones, where the view shows them), if the options let it
/// through and the view is for its date, its list or its kind.
pub open spec fn belongs(
    nav: NavView,
    data: DataView,
    opts: OptsView,
    today: int,
    zone: Seq<char>,
    t: TaskView,
) -> nat {
    let s = shown(opts, today, data.sunday_first)(t);
    let open = often(data.open, t);
    let done = often(data.done, t);
    let finished = s && opts.show_completed;
    match nav {
        NavView::Today => where_so(s && (due_before(today)(t) || due_on(today)(t)), open)
            + where_so(finished && completed_on_day(today, zone)(t), done),
        NavView::Scheduled => where_so(s && t.task.due is Some, open),
        NavView::Inbox => match inbox_of(data.lists) {
            Some(l) => where_so(s && t.list@ == l.href@, open) + where_so(
                finished && t.list@ == l.href@,
                done,
            ),
            None => 0,
        },
        NavView::List(href) => where_so(s && t.list@ == href, open) + where_so(
            finished && t.list@ == href,
            done,
        ),
        NavView::Tomorrow => where_so(s && due_on(today + 1)(t), open),
        NavView::Anytime => where_so(s && t.task.due is None && in_some(data.lists, t), open),
        NavView::Repeating => where_so(s && t.task.rrule is Some, open),
        NavView::All => where_so(s && in_some(data.lists, t), open),
        NavView::Completed => where_so(s, done),
    }
}

/// A view shows every task as often as it belongs to it: none is missing, and
/// none is shown twice that is there once. In the views by list, every list
/// has an address of its own.
pub proof fn views_show_what_belongs(
    nav: NavView,
    data: DataView,
    opts: OptsView,
    today: int,
    zone: Seq<char>,
    t: TaskView,
)
    requires
        nav is All || nav is Anytime ==> own_addresses(data.lists),
    ensures
        times(plan_of(nav, data, opts, today, zone), t) == belongs(
            nav,
            data,
            opts,
            today,
            zone,
            t,
        ),
{
    let p = shown(opts, today, data.sunday_first);
    let sort = opts.sort_of(nav);
    let open = data.open.filter(p);
    let done = data.done.filter(p);
    lemma_filter_often(data.open, p, t);
    lemma_filter_often(data.done, p, t);
    match nav {
        NavView::Today => lemma_today(open, done, opts, sort, today, zone, t),
        NavView::Scheduled => lemma_scheduled(open, opts, sort, today, t),
        NavView::Inbox => {
            if let Some(l) = inbox_of(data.lists) {
                lemma_list(open, done, opts, sort, l.href@, t);
            }
        },
        NavView::List(href) => lemma_list(open, done, opts, sort, href, t),
        NavView::Tomorrow => {
            lemma_filter_often(open, due_on(today + 1), t);
            lemma_ordered_often(open.filter(due_on(today + 1)), sort, opts, sort, t);
            lemma_times_one(plan_of(nav, data, opts, today, zone), t);
        },
        NavView::Anytime => {
            lemma_filter_often(open, undated(), t);
            lemma_by_list(data.lists, open.filter(undated()), opts, sort, t);
        },
        NavView::Repeating => {
            lemma_filter_often(open, repeats(), t);
            lemma_ordered_often(open.filter(repeats()), sort, opts, sort, t);
            lemma_times_one(plan_of(nav, data, opts, today, zone), t);
        },
        NavView::All => lemma_by_list(data.lists, open, opts, sort, t),
        NavView::Completed => {
            runs_cover(done, done_key(zone));
            lemma_done_parts(runs(done, done_key(zone)), today, zone, t);
        },
    }
}

/// What a view shows, its options let through.
pub proof fn views_heed_options(
    nav: NavView,
    data: DataView,
    opts: OptsView,
    today: int,
    zone: Seq<char>,
    t: TaskView,
)
    requires
        times(plan_of(nav, data, opts, today, zone), t) > 0,
    ensures
        shown(opts, today, data.sunday_first)(t),
        data.open.contains(t) || data.done.contains(t),
{
    broadcast use vstd::seq_lib::group_to_multiset_ensures;

    if nav is All || nav is Anytime {
        let p = shown(opts, today, data.sunday_first);
        let open = data.open.filter(p);
        let tasks = if nav is All {
            open
        } else {
            open.filter(undated())
        };
        lemma_filter_often(data.open, p, t);
        lemma_filter_often(open, undated(), t);
        lemma_by_list_within(data.lists, tasks, opts, opts.sort_of(nav), t);
    } else {
        views_show_what_belongs(nav, data, opts, today, zone, t);
    }
    assert(often(data.open, t) > 0 || often(data.done, t) > 0);
}

// -- counting -----------------------------------------------------------------------------------

proof fn lemma_filter_often(s: Seq<TaskView>, p: spec_fn(TaskView) -> bool, t: TaskView)
    ensures
        often(s.filter(p), t) == where_so(p(t), often(s, t)),
    decreases s.len(),
{
    broadcast use vstd::seq_lib::group_to_multiset_ensures;

    reveal(Seq::filter);
    if s.len() > 0 {
        let u = s.drop_last();
        lemma_filter_often(u, p, t);
        assert(s == u.push(s.last()));
        assert(s.to_multiset() =~= u.to_multiset().insert(s.last()));
        if p(s.last()) {
            assert(s.filter(p) == u.filter(p).push(s.last()));
            assert(s.filter(p).to_multiset() =~= u.filter(p).to_multiset().insert(s.last()));
        }
    } else {
        assert(s.filter(p) =~= s);
    }
}

proof fn lemma_empty_often(t: TaskView)
    ensures
        often(Seq::<TaskView>::empty(), t) == 0,
{
    broadcast use vstd::seq_lib::group_to_multiset_ensures;

    assert(!Seq::<TaskView>::empty().contains(t));
}

proof fn lemma_ordered_often(
    s: Seq<TaskView>,
    sort: Sort,
    opts: OptsView,
    view_sort: Sort,
    t: TaskView,
)
    ensures
        often(ordered(s, sort, opts, view_sort), t) == often(s, t),
        ordered(s, sort, opts, view_sort).len() == s.len(),
{
    arranged_keeps_all(s, order(sort));
    crate::sorting::arranged(s, order(sort)).lemma_reverse_to_multiset();
}

proof fn lemma_concat_often(a: Seq<TaskView>, b: Seq<TaskView>, t: TaskView)
    ensures
        often(a + b, t) == often(a, t) + often(b, t),
    decreases b.len(),
{
    broadcast use vstd::seq_lib::group_to_multiset_ensures;

    if b.len() == 0 {
        assert(a + b =~= a);
        assert(b =~= Seq::<TaskView>::empty());
        lemma_empty_often(t);
    } else {
        let c = b.drop_last();
        lemma_concat_often(a, c, t);
        assert(a + b =~= (a + c).push(b.last()));
        assert(b =~= c.push(b.last()));
        assert((a + b).to_multiset() =~= (a + c).to_multiset().insert(b.last()));
        assert(b.to_multiset() =~= c.to_multiset().insert(b.last()));
    }
}

proof fn lemma_times_concat(a: Seq<SectionView>, b: Seq<SectionView>, t: TaskView)
    ensures
        times(a + b, t) == times(a, t) + times(b, t),
    decreases b.len(),
{
    if b.len() == 0 {
        assert(a + b =~= a);
    } else {
        lemma_times_concat(a, b.drop_last(), t);
        assert((a + b).drop_last() =~= a + b.drop_last());
        assert((a + b).last() == b.last());
    }
}

proof fn lemma_times_one(s: Seq<SectionView>, t: TaskView)
    requires
        s.len() == 1,
    ensures
        times(s, t) == often(s[0].tasks, t),
{
    assert(s.drop_last().len() == 0);
    assert(times(s.drop_last(), t) == 0);
}

// -- the views ----------------------------------------------------------------------------------

proof fn lemma_overdue(open: Seq<TaskView>, opts: OptsView, sort: Sort, today: int, t: TaskView)
    ensures
        times(overdue_part(open, opts, sort, today), t) == where_so(
            due_before(today)(t),
            often(open, t),
        ),
{
    let s = open.filter(due_before(today));
    lemma_filter_often(open, due_before(today), t);
    lemma_ordered_often(s, Sort::Due, opts, sort, t);
    let part = overdue_part(open, opts, sort, today);
    if part.len() > 0 {
        lemma_times_one(part, t);
    } else {
        assert(s =~= Seq::<TaskView>::empty());
        lemma_empty_often(t);
    }
}

proof fn lemma_finished(s: Seq<TaskView>, opts: OptsView, t: TaskView)
    ensures
        times(finished_part(s, opts), t) == where_so(opts.show_completed, often(s, t)),
{
    let part = finished_part(s, opts);
    if part.len() > 0 {
        lemma_times_one(part, t);
    } else if opts.show_completed {
        assert(s =~= Seq::<TaskView>::empty());
        lemma_empty_often(t);
    }
}

proof fn lemma_today(
    open: Seq<TaskView>,
    done: Seq<TaskView>,
    opts: OptsView,
    sort: Sort,
    today: int,
    zone: Seq<char>,
    t: TaskView,
)
    ensures
        times(today_plan(open, done, opts, sort, today, zone), t) == where_so(
            due_before(today)(t) || due_on(today)(t),
            often(open, t),
        ) + where_so(
            opts.show_completed && completed_on_day(today, zone)(t),
            often(done, t),
        ),
{
    let a = overdue_part(open, opts, sort, today);
    let p = today_plan(open, done, opts, sort, today, zone);
    let f = finished_part(done.filter(completed_on_day(today, zone)), opts);
    let d = p.subrange(a.len() as int, a.len() as int + 1);
    lemma_overdue(open, opts, sort, today, t);
    lemma_filter_often(open, due_on(today), t);
    lemma_ordered_often(open.filter(due_on(today)), sort, opts, sort, t);
    lemma_filter_often(done, completed_on_day(today, zone), t);
    lemma_finished(done.filter(completed_on_day(today, zone)), opts, t);
    assert(p =~= a + d + f);
    lemma_times_concat(a, d, t);
    lemma_times_concat(a + d, f, t);
    lemma_times_one(d, t);
}

proof fn lemma_days(
    open: Seq<TaskView>,
    opts: OptsView,
    sort: Sort,
    today: int,
    n: nat,
    t: TaskView,
)
    ensures
        times(Seq::new(n, |i: int| day_part(open, opts, sort, today, i)), t) == where_so(
            t.task.due_day() matches Some(d) && today <= d.ce < today + n,
            often(open, t),
        ),
    decreases n,
{
    let s = Seq::new(n, |i: int| day_part(open, opts, sort, today, i));
    if n > 0 {
        let m = (n - 1) as nat;
        lemma_days(open, opts, sort, today, m, t);
        assert(s.drop_last() =~= Seq::new(m, |i: int| day_part(open, opts, sort, today, i)));
        assert(s.last() == day_part(open, opts, sort, today, m as int));
        lemma_filter_often(open, due_on(today + m as int), t);
        lemma_ordered_often(open.filter(due_on(today + m as int)), sort, opts, sort, t);
    } else {
        assert(s.len() == 0);
    }
}

proof fn lemma_months(
    later: Seq<TaskView>,
    opts: OptsView,
    sort: Sort,
    today: int,
    keys: Seq<(int, int)>,
    t: TaskView,
)
    requires
        keys.no_duplicates(),
    ensures
        times(keys.map_values(month_of_plan(later, opts, sort, today)), t) == where_so(
            keys.contains(month_key()(t)),
            often(later, t),
        ),
    decreases keys.len(),
{
    let part = month_of_plan(later, opts, sort, today);
    let s = keys.map_values(part);
    if keys.len() > 0 {
        let (u, k) = (keys.drop_last(), keys.last());
        assert(u.no_duplicates()) by {
            assert forall|a: int, b: int| 0 <= a < u.len() && 0 <= b < u.len() && a != b implies u[a]
                != u[b] by {
                assert(keys[a] != keys[b]);
            }
        }
        lemma_months(later, opts, sort, today, u, t);
        assert(s.drop_last() =~= u.map_values(part));
        assert(s.last() == part(k));
        lemma_filter_often(later, in_month(k), t);
        lemma_ordered_often(later.filter(in_month(k)), sort, opts, sort, t);
        let mine = month_key()(t);
        if u.contains(mine) {
            let a = choose|a: int| 0 <= a < u.len() && u[a] == mine;
            assert(keys[a] == mine && keys[a] != keys[keys.len() - 1]);
        }
        if keys.contains(mine) && mine != k {
            let a = choose|a: int| 0 <= a < keys.len() && keys[a] == mine;
            assert(u[a] == mine);
        }
        if mine == k {
            assert(keys[keys.len() - 1] == mine);
        }
    }
}

proof fn lemma_done_parts(r: Seq<Seq<TaskView>>, today: int, zone: Seq<char>, t: TaskView)
    ensures
        times(r.map_values(|x: Seq<TaskView>| done_part(x, today, zone)), t) == often(
            chained(r),
            t,
        ),
    decreases r.len(),
{
    let s = r.map_values(|x: Seq<TaskView>| done_part(x, today, zone));
    if r.len() == 0 {
        lemma_empty_often(t);
    } else {
        lemma_done_parts(r.drop_last(), today, zone, t);
        assert(s.drop_last() =~= r.drop_last().map_values(
            |x: Seq<TaskView>| done_part(x, today, zone),
        ));
        assert(s.last() == done_part(r.last(), today, zone));
        lemma_concat_often(chained(r.drop_last()), r.last(), t);
    }
}

proof fn lemma_scheduled(open: Seq<TaskView>, opts: OptsView, sort: Sort, today: int, t: TaskView)
    ensures
        times(scheduled_plan(open, opts, sort, today), t) == where_so(
            t.task.due is Some,
            often(open, t),
        ),
{
    let a = overdue_part(open, opts, sort, today);
    let d = Seq::new(7, |i: int| day_part(open, opts, sort, today, i));
    let later = open.filter(due_after(today + 6));
    let keys = months_in(later, opts, sort);
    let m = keys.map_values(month_of_plan(later, opts, sort, today));
    lemma_overdue(open, opts, sort, today, t);
    lemma_days(open, opts, sort, today, 7, t);
    lemma_filter_often(open, due_after(today + 6), t);
    let o = ordered(later, Sort::Due, opts, sort);
    lemma_months_of(o);
    lemma_months(later, opts, sort, today, keys, t);
    if often(later, t) > 0 {
        broadcast use vstd::seq_lib::group_to_multiset_ensures;

        assert(later.contains(t));
        lemma_ordered_contains(later, Sort::Due, opts, sort, t);
        let n = choose|n: int| 0 <= n < o.len() && o[n] == t;
        assert(keys.contains(month_key()(o[n])));
    }
    lemma_times_concat(a, d, t);
    lemma_times_concat(a + d, m, t);
    assert(scheduled_plan(open, opts, sort, today) =~= a + d + m);
}

proof fn lemma_list(
    open: Seq<TaskView>,
    done: Seq<TaskView>,
    opts: OptsView,
    sort: Sort,
    href: Seq<char>,
    t: TaskView,
)
    ensures
        times(list_plan(open, done, opts, sort, href), t) == where_so(
            t.list@ == href,
            often(open, t),
        ) + where_so(opts.show_completed && t.list@ == href, often(done, t)),
{
    let p = list_plan(open, done, opts, sort, href);
    let f = finished_part(done.filter(in_list(href)), opts);
    let d = p.subrange(0, 1);
    lemma_filter_often(open, in_list(href), t);
    lemma_ordered_often(open.filter(in_list(href)), sort, opts, sort, t);
    lemma_filter_often(done, in_list(href), t);
    lemma_finished(done.filter(in_list(href)), opts, t);
    assert(p =~= d + f);
    lemma_times_concat(d, f, t);
    lemma_times_one(d, t);
}

proof fn lemma_by_list_within(
    lists: Seq<ListView>,
    tasks: Seq<TaskView>,
    opts: OptsView,
    sort: Sort,
    t: TaskView,
)
    ensures
        times(by_list_plan(lists, tasks, opts, sort), t) > 0 ==> often(tasks, t) > 0,
    decreases lists.len(),
{
    if lists.len() > 0 {
        let before = lists.drop_last();
        let l = lists.last();
        lemma_by_list_within(before, tasks, opts, sort, t);
        let mine = tasks.filter(in_list(l.href@));
        lemma_filter_often(tasks, in_list(l.href@), t);
        lemma_ordered_often(mine, sort, opts, sort, t);
        let p = by_list_plan(lists, tasks, opts, sort);
        let q = by_list_plan(before, tasks, opts, sort);
        if mine.len() > 0 {
            assert(p.drop_last() =~= q);
        }
    }
}

proof fn lemma_by_list(
    lists: Seq<ListView>,
    tasks: Seq<TaskView>,
    opts: OptsView,
    sort: Sort,
    t: TaskView,
)
    requires
        own_addresses(lists),
    ensures
        times(by_list_plan(lists, tasks, opts, sort), t) == where_so(
            in_some(lists, t),
            often(tasks, t),
        ),
    decreases lists.len(),
{
    if lists.len() > 0 {
        let before = lists.drop_last();
        let l = lists.last();
        assert(own_addresses(before)) by {
            assert forall|i: int, j: int| 0 <= i < j < before.len() implies (
            #[trigger] before[i]).href@ != (#[trigger] before[j]).href@ by {
                assert(lists[i].href@ != lists[j].href@);
            }
        }
        lemma_by_list(before, tasks, opts, sort, t);
        let mine = tasks.filter(in_list(l.href@));
        lemma_filter_often(tasks, in_list(l.href@), t);
        lemma_ordered_often(mine, sort, opts, sort, t);
        let p = by_list_plan(lists, tasks, opts, sort);
        let q = by_list_plan(before, tasks, opts, sort);
        if mine.len() == 0 {
            assert(mine =~= Seq::<TaskView>::empty());
            lemma_empty_often(t);
            assert(p == q);
        } else {
            assert(p.drop_last() =~= q);
        }
        if in_some(before, t) {
            let i = choose|i: int| 0 <= i < before.len() && (#[trigger] before[i]).href@ == t.list@;
            assert(lists[i].href@ == t.list@);
            assert(lists[i].href@ != lists[lists.len() - 1].href@);
        }
        if in_some(lists, t) {
            let i = choose|i: int| 0 <= i < lists.len() && (#[trigger] lists[i]).href@ == t.list@;
            if i < before.len() {
                assert(before[i].href@ == t.list@);
            }
        }
        if l.href@ == t.list@ {
            assert(lists[lists.len() - 1].href@ == t.list@);
        }
    }
}

} // verus!
