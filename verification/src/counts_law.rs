//! The counts of the sidebar, and what the views of many lists and days show.

use vstd::prelude::*;

use crate::arrange::order;
use crate::counts::{
    Counts, count, counted, each_once, lemma_all_shown, none_empty, tally, total,
};
use crate::nav::{NavView, OptsView, Sort, plain_opts};
use crate::plan::{
    DataView, SectionView, by_list_plan, day_part, due_after, due_before, due_on, in_list, in_month,
    inbox_of, lemma_months_of, lemma_ordered_contains, month_key, month_of_plan, months_in, ordered,
    overdue_part, plan_of, scheduled_plan, undated,
};
use crate::plan_law::{in_some, own_addresses};
use crate::sorting::arranged_keeps_all;
use crate::task::{ListView, TaskView};

verus! {

/// All Tasks shows as many tasks as the sidebar counts for it, and so does
/// Anytime, where every task is in a list that there is, and every list has an
/// address of its own.
pub proof fn counts_match_lists(c: Counts, data: DataView, nav: NavView, today: int, zone: Seq<char>)
    requires
        data.wf(),
        counted(c, data, today),
        nav is All || nav is Anytime,
        own_addresses(data.lists),
        forall|i: int| 0 <= i < data.open.len() ==> in_some(data.lists, #[trigger] data.open[i]),
    ensures
        c.shows(nav) == Some(total(plan_of(nav, data, plain_opts(), today, zone))),
{
    lemma_all_shown(data, today);
    let opts = plain_opts();
    let open = data.open;
    let sort = opts.sort_of(nav);
    let known = |t: TaskView| in_some(data.lists, t);
    if nav is All {
        lemma_total_by_list(data.lists, open, opts, sort);
        lemma_filter_whole(open, known);
    } else {
        let tasks = open.filter(undated());
        lemma_total_by_list(data.lists, tasks, opts, sort);
        lemma_from_all(open, undated());
        assert forall|i: int| 0 <= i < tasks.len() implies known(#[trigger] tasks[i]) by {
            let j = choose|j: int| 0 <= j < open.len() && open[j] == tasks[i];
            assert(in_some(data.lists, open[j]));
        }
        lemma_filter_whole(tasks, known);
    }
}

/// Scheduled shows what is overdue, due today and due later, as the sidebar
/// counts them for Today and for it.
pub proof fn counts_match_scheduled(c: Counts, data: DataView, today: int, zone: Seq<char>)
    requires
        data.wf(),
        counted(c, data, today),
    ensures
        c.today + c.scheduled == total(
            plan_of(NavView::Scheduled, data, plain_opts(), today, zone),
        ),
{
    lemma_all_shown(data, today);
    let opts = plain_opts();
    let open = data.open;
    let sort = opts.sort_of(NavView::Scheduled);
    let a = overdue_part(open, opts, sort, today);
    let d = Seq::new(7, |i: int| day_part(open, opts, sort, today, i));
    let late = open.filter(due_after(today + 6));
    let keys = months_in(late, opts, sort);
    let m = keys.map_values(month_of_plan(late, opts, sort, today));
    assert(scheduled_plan(open, opts, sort, today) =~= a + d + m);
    lemma_total_concat(a, d);
    lemma_total_concat(a + d, m);
    lemma_ordered_len(open.filter(due_before(today)), Sort::Due, opts, sort);
    if a.len() > 0 {
        lemma_total_one(a);
    }
    lemma_total_days(open, opts, sort, today, 7);
    let o = ordered(late, Sort::Due, opts, sort);
    lemma_months_of(o);
    lemma_total_months(late, opts, sort, today, keys);
    let known = |t: TaskView| keys.contains(month_key()(t));
    assert forall|i: int| 0 <= i < late.len() implies known(#[trigger] late[i]) by {
        assert(late.contains(late[i]));
        lemma_ordered_contains(late, Sort::Due, opts, sort, late[i]);
        let n = choose|n: int| 0 <= n < o.len() && o[n] == late[i];
        assert(keys.contains(month_key()(o[n])));
    }
    lemma_filter_whole(late, known);
    let soon = |t: TaskView| due_from(t, today, today + 7);
    lemma_filter_sum(open, due_on(today), |t: TaskView| due_from(t, today + 1, today + 7), soon);
    lemma_filter_sum(
        open,
        |t: TaskView| due_from(t, today + 1, today + 7),
        due_after(today + 6),
        due_after(today),
    );
}

/// All that is counted by list.
pub open spec fn sum_of(v: Seq<(String, usize)>) -> nat
    decreases v.len(),
{
    if v.len() == 0 {
        0
    } else {
        sum_of(v.drop_last()) + v.last().1 as nat
    }
}

/// A list has an entry.
pub open spec fn has_entry(v: Seq<(String, usize)>, href: Seq<char>) -> bool {
    exists|i: int| 0 <= i < v.len() && (#[trigger] v[i]).0@ == href
}

/// The counts add up: every open task is counted by its date, and in its
/// list, once; what is overdue counts for today, and tomorrow for what is
/// scheduled; the inbox is a list as any other; and a list is counted just
/// when an open task is in it.
pub proof fn counts_add_up(c: Counts, data: DataView, today: int)
    requires
        counted(c, data, today),
    ensures
        c.today + c.scheduled + c.anytime == c.all,
        sum_of(c.lists@) == c.all,
        c.overdue <= c.today,
        c.tomorrow <= c.scheduled,
        c.inbox == (match inbox_of(data.lists) {
            Some(l) => tally(c.lists@, l.href@),
            None => 0,
        }),
        forall|h: Seq<char>| #[trigger]
            has_entry(c.lists@, h) == exists|i: int|
                0 <= i < data.open.len() && (#[trigger] data.open[i]).list@ == h,
{
    let open = data.open;
    let all = |t: TaskView| true;
    let now = |t: TaskView| due_before(today)(t) || due_on(today)(t);
    let dated = |t: TaskView| now(t) || due_after(today)(t);
    lemma_filter_sum(open, due_before(today), due_on(today), now);
    lemma_filter_sum(open, now, due_after(today), dated);
    lemma_filter_sum(open, dated, undated(), all);
    lemma_filter_whole(open, all);
    let rest = |t: TaskView| due_after(today)(t) && !due_on(today + 1)(t);
    lemma_filter_sum(open, due_on(today + 1), rest, due_after(today));
    let v = c.lists@;
    assert forall|h: Seq<char>| #[trigger] has_entry(v, h) == (exists|i: int|
        0 <= i < open.len() && (#[trigger] open[i]).list@ == h) by {
        assert(tally(v, h) == count(open, in_list(h)));
        lemma_entry(v, h);
        if exists|i: int| 0 <= i < open.len() && (#[trigger] open[i]).list@ == h {
            let i = choose|i: int| 0 <= i < open.len() && (#[trigger] open[i]).list@ == h;
            open.lemma_filter_contains(in_list(h), i);
        }
        if has_entry(v, h) {
            lemma_from_all(open, in_list(h));
            let f = open.filter(in_list(h));
            let j = choose|j: int| 0 <= j < open.len() && open[j] == f[0];
            lemma_passes(open, in_list(h));
            assert(in_list(h)(f[0]));
            assert(open[j].list@ == h);
        }
    }
    let known = |t: TaskView| has_entry(v, t.list@);
    lemma_sum(v, v.len() as int, open);
    assert(v.take(v.len() as int) == v);
    assert forall|i: int| 0 <= i < open.len() implies known(#[trigger] open[i]) by {
        assert(has_entry(v, open[i].list@));
    }
    lemma_filter_whole(open, known);
}

proof fn lemma_passes(s: Seq<TaskView>, p: spec_fn(TaskView) -> bool)
    ensures
        forall|i: int| 0 <= i < s.filter(p).len() ==> p(#[trigger] s.filter(p)[i]),
    decreases s.len(),
{
    reveal(Seq::filter);
    if s.len() > 0 {
        lemma_passes(s.drop_last(), p);
    }
}

/// A list has an entry just when something is counted of it.
proof fn lemma_entry(v: Seq<(String, usize)>, h: Seq<char>)
    requires
        none_empty(v),
    ensures
        has_entry(v, h) == (tally(v, h) > 0),
    decreases v.len(),
{
    if v.len() > 0 {
        let w = v.skip(1);
        assert forall|i: int| 0 <= i < w.len() implies (#[trigger] w[i]).1 > 0 by {
            assert(w[i] == v[i + 1]);
        }
        lemma_entry(w, h);
        assert(v[0].1 > 0);
        if has_entry(v, h) {
            let i = choose|i: int| 0 <= i < v.len() && (#[trigger] v[i]).0@ == h;
            if i > 0 {
                assert(w[i - 1].0@ == h);
            }
        }
        if has_entry(w, h) {
            let i = choose|i: int| 0 <= i < w.len() && (#[trigger] w[i]).0@ == h;
            assert(v[i + 1].0@ == h);
        }
    }
}

/// What is counted of a list is what its entry says.
proof fn lemma_tally_at(v: Seq<(String, usize)>, i: int)
    requires
        each_once(v),
        0 <= i < v.len(),
    ensures
        tally(v, v[i].0@) == v[i].1,
    decreases v.len(),
{
    if i > 0 {
        let w = v.skip(1);
        assert forall|a: int, b: int| 0 <= a < b < w.len() implies #[trigger] w[a].0@
            != #[trigger] w[b].0@ by {
            assert(v[a + 1].0@ != v[b + 1].0@);
        }
        lemma_tally_at(w, i - 1);
        assert(v[0].0@ != v[i].0@);
        assert(w[i - 1] == v[i]);
    }
}

/// The first entries count the tasks of their lists.
proof fn lemma_sum(v: Seq<(String, usize)>, n: int, open: Seq<TaskView>)
    requires
        each_once(v),
        0 <= n <= v.len(),
        forall|h: Seq<char>| #[trigger] tally(v, h) == count(open, in_list(h)),
    ensures
        sum_of(v.take(n)) == count(open, |t: TaskView| has_entry(v.take(n), t.list@)),
    decreases n,
{
    let known = |t: TaskView| has_entry(v.take(n), t.list@);
    if n == 0 {
        lemma_none_pass(open, known);
    } else {
        let (w, u) = (v.take(n), v.take(n - 1));
        let h = v[n - 1].0@;
        let earlier = |t: TaskView| has_entry(u, t.list@);
        lemma_sum(v, n - 1, open);
        assert(w.drop_last() == u);
        assert(w.last() == v[n - 1]);
        lemma_tally_at(v, n - 1);
        assert(tally(v, h) == count(open, in_list(h)));
        assert forall|t: TaskView| #[trigger] known(t) == (earlier(t) || in_list(h)(t)) by {
            if has_entry(w, t.list@) {
                let i = choose|i: int| 0 <= i < w.len() && (#[trigger] w[i]).0@ == t.list@;
                if i < u.len() {
                    assert(u[i].0@ == t.list@);
                }
            }
            if has_entry(u, t.list@) {
                let i = choose|i: int| 0 <= i < u.len() && (#[trigger] u[i]).0@ == t.list@;
                assert(w[i].0@ == t.list@);
            }
            assert(w[n - 1].0@ == h);
        }
        assert forall|t: TaskView| #[trigger] earlier(t) implies !in_list(h)(t) by {
            let i = choose|i: int| 0 <= i < u.len() && (#[trigger] u[i]).0@ == t.list@;
            assert(v[i].0@ != v[n - 1].0@);
        }
        lemma_filter_sum(open, earlier, in_list(h), known);
    }
}

// -- lengths ------------------------------------------------------------------------------------

/// Due on one of some days.
pub open spec fn due_from(t: TaskView, from: int, to: int) -> bool {
    t.task.due_day() matches Some(d) && from <= d.ce < to
}

proof fn lemma_filter_sum(
    s: Seq<TaskView>,
    p: spec_fn(TaskView) -> bool,
    q: spec_fn(TaskView) -> bool,
    r: spec_fn(TaskView) -> bool,
)
    requires
        forall|t: TaskView| #[trigger] r(t) == (p(t) || q(t)),
        forall|t: TaskView| #[trigger] p(t) ==> !q(t),
    ensures
        s.filter(r).len() == s.filter(p).len() + s.filter(q).len(),
    decreases s.len(),
{
    reveal(Seq::filter);
    if s.len() > 0 {
        lemma_filter_sum(s.drop_last(), p, q, r);
        assert(r(s.last()) == (p(s.last()) || q(s.last())));
    }
}

proof fn lemma_filter_whole(s: Seq<TaskView>, p: spec_fn(TaskView) -> bool)
    requires
        forall|i: int| 0 <= i < s.len() ==> p(#[trigger] s[i]),
    ensures
        s.filter(p) == s,
    decreases s.len(),
{
    reveal(Seq::filter);
    if s.len() > 0 {
        let t = s.drop_last();
        assert forall|i: int| 0 <= i < t.len() implies p(#[trigger] t[i]) by {
            assert(t[i] == s[i]);
        }
        lemma_filter_whole(t, p);
        assert(p(s[s.len() - 1]));
        assert(t.push(s.last()) =~= s);
    }
}

proof fn lemma_from_all(s: Seq<TaskView>, p: spec_fn(TaskView) -> bool)
    ensures
        forall|i: int|
            0 <= i < s.filter(p).len() ==> exists|j: int|
                0 <= j < s.len() && s[j] == #[trigger] s.filter(p)[i],
    decreases s.len(),
{
    reveal(Seq::filter);
    if s.len() > 0 {
        let t = s.drop_last();
        lemma_from_all(t, p);
        let f = s.filter(p);
        let g = t.filter(p);
        assert forall|i: int| 0 <= i < f.len() implies exists|j: int|
            0 <= j < s.len() && s[j] == #[trigger] f[i] by {
            if i < g.len() {
                assert(f[i] == g[i]);
                let j = choose|j: int| 0 <= j < t.len() && t[j] == g[i];
                assert(s[j] == f[i]);
            } else {
                assert(s[s.len() - 1] == f[i]);
            }
        }
    }
}

proof fn lemma_ordered_len(s: Seq<TaskView>, sort: Sort, opts: OptsView, view_sort: Sort)
    ensures
        ordered(s, sort, opts, view_sort).len() == s.len(),
{
    arranged_keeps_all(s, order(sort));
}

proof fn lemma_total_concat(a: Seq<SectionView>, b: Seq<SectionView>)
    ensures
        total(a + b) == total(a) + total(b),
    decreases b.len(),
{
    if b.len() == 0 {
        assert(a + b =~= a);
    } else {
        lemma_total_concat(a, b.drop_last());
        assert((a + b).drop_last() =~= a + b.drop_last());
        assert((a + b).last() == b.last());
    }
}

proof fn lemma_total_one(s: Seq<SectionView>)
    requires
        s.len() == 1,
    ensures
        total(s) == s[0].tasks.len(),
{
    assert(s.drop_last().len() == 0);
    assert(total(s.drop_last()) == 0);
}

proof fn lemma_total_days(open: Seq<TaskView>, opts: OptsView, sort: Sort, today: int, n: nat)
    ensures
        total(Seq::new(n, |i: int| day_part(open, opts, sort, today, i))) == open.filter(
            |t: TaskView| due_from(t, today, today + n),
        ).len(),
    decreases n,
{
    let s = Seq::new(n, |i: int| day_part(open, opts, sort, today, i));
    let p = |t: TaskView| due_from(t, today, today + n);
    if n > 0 {
        let m = (n - 1) as nat;
        lemma_total_days(open, opts, sort, today, m);
        assert(s.drop_last() =~= Seq::new(m, |i: int| day_part(open, opts, sort, today, i)));
        assert(s.last() == day_part(open, opts, sort, today, m as int));
        lemma_ordered_len(open.filter(due_on(today + m as int)), sort, opts, sort);
        lemma_filter_sum(
            open,
            |t: TaskView| due_from(t, today, today + m),
            due_on(today + m as int),
            p,
        );
    } else {
        assert(s.len() == 0);
        lemma_none_pass(open, p);
    }
}

proof fn lemma_none_pass(s: Seq<TaskView>, p: spec_fn(TaskView) -> bool)
    requires
        forall|t: TaskView| !#[trigger] p(t),
    ensures
        s.filter(p).len() == 0,
    decreases s.len(),
{
    reveal(Seq::filter);
    if s.len() > 0 {
        lemma_none_pass(s.drop_last(), p);
        assert(!p(s.last()));
    }
}

proof fn lemma_total_months(
    later: Seq<TaskView>,
    opts: OptsView,
    sort: Sort,
    today: int,
    keys: Seq<(int, int)>,
)
    requires
        keys.no_duplicates(),
    ensures
        total(keys.map_values(month_of_plan(later, opts, sort, today))) == later.filter(
            |t: TaskView| keys.contains(month_key()(t)),
        ).len(),
    decreases keys.len(),
{
    let part = month_of_plan(later, opts, sort, today);
    let s = keys.map_values(part);
    let all = |t: TaskView| keys.contains(month_key()(t));
    if keys.len() == 0 {
        lemma_none_pass(later, all);
    } else {
        let (u, k) = (keys.drop_last(), keys.last());
        let some = |t: TaskView| u.contains(month_key()(t));
        assert forall|a: int, b: int| 0 <= a < u.len() && 0 <= b < u.len() && a != b implies u[a]
            != u[b] by {
            assert(keys[a] != keys[b]);
        }
        lemma_total_months(later, opts, sort, today, u);
        assert(s.drop_last() =~= u.map_values(part));
        assert(s.last() == part(k));
        lemma_ordered_len(later.filter(in_month(k)), sort, opts, sort);
        assert forall|t: TaskView| #[trigger] all(t) == (some(t) || in_month(k)(t)) by {
            let m = month_key()(t);
            if keys.contains(m) && m != k {
                let a = choose|a: int| 0 <= a < keys.len() && keys[a] == m;
                assert(u[a] == m);
            }
            if u.contains(m) {
                let a = choose|a: int| 0 <= a < u.len() && u[a] == m;
                assert(keys[a] == m);
            }
            assert(keys[keys.len() - 1] == k);
        }
        assert forall|t: TaskView| #[trigger] some(t) implies !in_month(k)(t) by {
            let m = month_key()(t);
            let a = choose|a: int| 0 <= a < u.len() && u[a] == m;
            assert(keys[a] != keys[keys.len() - 1]);
        }
        lemma_filter_sum(later, some, in_month(k), all);
    }
}

proof fn lemma_total_by_list(lists: Seq<ListView>, tasks: Seq<TaskView>, opts: OptsView, sort: Sort)
    requires
        own_addresses(lists),
    ensures
        total(by_list_plan(lists, tasks, opts, sort)) == tasks.filter(
            |t: TaskView| in_some(lists, t),
        ).len(),
    decreases lists.len(),
{
    let known = |t: TaskView| in_some(lists, t);
    if lists.len() == 0 {
        lemma_none_pass(tasks, known);
    } else {
        let before = lists.drop_last();
        let l = lists.last();
        let earlier = |t: TaskView| in_some(before, t);
        assert(own_addresses(before)) by {
            assert forall|i: int, j: int| 0 <= i < j < before.len() implies (
            #[trigger] before[i]).href@ != (#[trigger] before[j]).href@ by {
                assert(lists[i].href@ != lists[j].href@);
            }
        }
        lemma_total_by_list(before, tasks, opts, sort);
        let mine = tasks.filter(in_list(l.href@));
        lemma_ordered_len(mine, sort, opts, sort);
        assert forall|t: TaskView| #[trigger] known(t) == (earlier(t) || in_list(l.href@)(t)) by {
            if in_some(lists, t) {
                let i = choose|i: int|
                    0 <= i < lists.len() && (#[trigger] lists[i]).href@ == t.list@;
                if i < before.len() {
                    assert(before[i].href@ == t.list@);
                }
            }
            if in_some(before, t) {
                let i = choose|i: int|
                    0 <= i < before.len() && (#[trigger] before[i]).href@ == t.list@;
                assert(lists[i].href@ == t.list@);
            }
            if l.href@ == t.list@ {
                assert(lists[lists.len() - 1].href@ == t.list@);
            }
        }
        assert forall|t: TaskView| #[trigger] earlier(t) implies !in_list(l.href@)(t) by {
            let i = choose|i: int| 0 <= i < before.len() && (#[trigger] before[i]).href@ == t.list@;
            assert(lists[i].href@ != lists[lists.len() - 1].href@);
        }
        lemma_filter_sum(tasks, earlier, in_list(l.href@), known);
        let p = by_list_plan(lists, tasks, opts, sort);
        let q = by_list_plan(before, tasks, opts, sort);
        if mine.len() == 0 {
            assert(p == q);
        } else {
            assert(p.drop_last() =~= q);
        }
    }
}

} // verus!
