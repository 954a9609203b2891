//! Which tasks a view shows and where, by what they hold: their dates, their
//! lists, and whether they repeat or are done.

use vstd::prelude::*;

use crate::date::{
    Date, FIRST_DAY, LAST_DAY, month_end, month_end_is_in_month, month_of, months_go_on, year_of,
};
use crate::nav::{DueFilter, Nav, NavView, OptsView, Sort, ViewOpts};
use crate::number::decimal;
use crate::plan::{
    Data, DataView, KindView, Section, SectionView, by_list_plan, completed_on_day, day_part,
    day_title, done_key, done_part, due_after, due_before, due_on, has_room, in_list, in_month,
    inbox_of, lemma_ordered_contains, list_plan, month_of_plan, month_part, months_in, ordered,
    overdue_part, plan, plan_of, repeats, runs, runs_cover, sections, shown, undated,
};
use crate::plan_law::{often, own_addresses, times, views_show_what_belongs};
use crate::sort_law::{may_precede, sorted_tasks_are_in_order};
use crate::task::{ListView, TaskView};
use crate::zone::{Now, day_at};

verus! {

// -- what the options let through ---------------------------------------------------------------

/// The last day of a week from today on: Sunday, or Saturday where weeks
/// start on Sunday.
pub open spec fn ends_week(e: int, today: int, sunday_first: bool) -> bool {
    today <= e < today + 7 && (e - 1) % 7 == (if sunday_first {
        5int
    } else {
        6
    })
}

/// A task that the options let through: of a priority that is shown, from a
/// list that is not left out, and due by the end of the span that is chosen.
pub open spec fn let_in(t: TaskView, opts: OptsView, today: int, sunday_first: bool) -> bool {
    &&& opts.priorities[t.task.level - 1]
    &&& forall|i: int| 0 <= i < opts.hide_lists.len() ==> #[trigger] opts.hide_lists[i] != t.list@
    &&& match opts.due {
        DueFilter::Any => true,
        DueFilter::NoDate => t.task.due is None,
        DueFilter::Today => t.task.due matches Some(w) && w.date.ce <= today,
        DueFilter::Seven => t.task.due matches Some(w) && w.date.ce < today + 7,
        DueFilter::Week => t.task.due matches Some(w) && exists|e: int| #[trigger]
            ends_week(e, today, sunday_first) && w.date.ce <= e,
        DueFilter::Month => t.task.due matches Some(w) && (year_of(w.date.ce as int) < year_of(
            today,
        ) || (year_of(w.date.ce as int) == year_of(today) && month_of(w.date.ce as int) <= month_of(
            today,
        ))),
    }
}

proof fn lemma_let_in(t: TaskView, opts: OptsView, today: int, sunday_first: bool)
    requires
        t.task.wf(),
        has_room(today),
    ensures
        shown(opts, today, sunday_first)(t) == let_in(t, opts, today, sunday_first),
{
    if let Some(w) = t.task.due {
        let d = w.date.ce as int;
        if opts.due == DueFilter::Month {
            lemma_month(d, today);
        }
        if opts.due == DueFilter::Week {
            let e = crate::nav::week_end(today, sunday_first);
            assert(ends_week(e, today, sunday_first));
            assert forall|f: int| #[trigger] ends_week(f, today, sunday_first) implies f == e by {}
        }
    }
    assert(opts.hide_lists.contains(t.list@) == !(forall|i: int|
        0 <= i < opts.hide_lists.len() ==> #[trigger] opts.hide_lists[i] != t.list@));
}

proof fn lemma_month(d: int, today: int)
    requires
        FIRST_DAY <= d <= LAST_DAY,
        has_room(today),
    ensures
        (d <= month_end(today)) == (year_of(d) < year_of(today) || (year_of(d) == year_of(today)
            && month_of(d) <= month_of(today))),
{
    let e = month_end(today);
    month_end_is_in_month(today);
    if d <= e {
        months_go_on(d, e);
    } else {
        months_go_on(e, d);
        month_end_is_in_month(d);
    }
}

// -- which tasks --------------------------------------------------------------------------------

/// A task is in one of the sections.
pub open spec fn is_in(s: Seq<SectionView>, t: TaskView) -> bool {
    exists|i: int| 0 <= i < s.len() && (#[trigger] s[i]).tasks.contains(t)
}

/// A task was done on a day, or last changed then where it is not known when
/// it was done.
pub open spec fn done_on(t: TaskView, day: int, zone: Seq<char>) -> bool {
    match (t.task.completed, t.task.modified) {
        (Some(at), _) => day_at(at, zone) == day,
        (None, Some(at)) => day_at(at, zone) == day,
        (None, None) => false,
    }
}

/// The list that tasks go to: the first that says it is the inbox, or else
/// the first that can be written to.
pub open spec fn goes_to_inbox(lists: Seq<ListView>, href: Seq<char>) -> bool {
    exists|i: int|
        0 <= i < lists.len() && (#[trigger] lists[i]).href@ == href && (lists[i].inbox || (
        lists[i].writable && forall|j: int| 0 <= j < lists.len() ==> !(#[trigger] lists[j]).inbox))
            && forall|j: int|
            0 <= j < i ==> !(#[trigger] lists[j]).inbox && (lists[i].inbox || !lists[j].writable)
}

/// A task is for a view: Today what is due by today, Tomorrow what is due on
/// the next day, Scheduled what has a date, Anytime what has none, Repeating
/// what repeats, the inbox and a list what is in them, All Tasks what is in
/// any list. Completed tasks are in Completed, and where they are to be shown
/// in their lists and, done today, in Today.
pub open spec fn is_for(
    nav: NavView,
    data: DataView,
    opts: OptsView,
    today: int,
    zone: Seq<char>,
    t: TaskView,
) -> bool {
    let open = data.open.contains(t);
    let done = data.done.contains(t);
    let listed = exists|i: int|
        0 <= i < data.lists.len() && (#[trigger] data.lists[i]).href@ == t.list@;
    match nav {
        NavView::Today => (open && (t.task.due matches Some(w) && w.date.ce <= today)) || (done
            && opts.show_completed && done_on(t, today, zone)),
        NavView::Tomorrow => open && (t.task.due matches Some(w) && w.date.ce == today + 1),
        NavView::Scheduled => open && t.task.due is Some,
        NavView::Anytime => open && t.task.due is None && listed,
        NavView::Repeating => open && t.task.rrule is Some,
        NavView::All => open && listed,
        NavView::List(href) => t.list@ == href && (open || (done && opts.show_completed)),
        NavView::Inbox => goes_to_inbox(data.lists, t.list@) && (open || (done
            && opts.show_completed)),
        NavView::Completed => done,
    }
}

/// A view shows the tasks that are for it and that its options let in, and no
/// others.
pub proof fn views_show_their_tasks(
    nav: &Nav,
    data: &Data,
    opts: &ViewOpts,
    now: &Now,
    r: Vec<Section>,
    t: TaskView,
)
    requires
        data@.wf(),
        now.wf(),
        has_room(now.day()),
        t.task.wf(),
        nav@ is All || nav@ is Anytime ==> own_addresses(data@.lists),
        call_ensures(plan, (nav, data, opts, now), r),
    ensures
        is_in(sections(r@), t) == (let_in(t, opts@, now.day(), data@.sunday_first) && is_for(
            nav@,
            data@,
            opts@,
            now.day(),
            now.zone@,
            t,
        )),
{
    let (n, d, o, today, zone) = (nav@, data@, opts@, now.day(), now.zone@);
    lemma_let_in(t, o, today, d.sunday_first);
    views_show_what_belongs(n, d, o, today, zone, t);
    lemma_times(sections(r@), t);
    lemma_often(d.open, t);
    lemma_often(d.done, t);
    if n is Inbox {
        lemma_inbox_is(d.lists, t.list@);
    }
}

proof fn lemma_often(s: Seq<TaskView>, t: TaskView)
    ensures
        (often(s, t) > 0) == s.contains(t),
{
    broadcast use vstd::seq_lib::group_to_multiset_ensures;

}

proof fn lemma_times(s: Seq<SectionView>, t: TaskView)
    ensures
        (times(s, t) > 0) == is_in(s, t),
    decreases s.len(),
{
    if s.len() > 0 {
        let u = s.drop_last();
        lemma_times(u, t);
        lemma_often(s.last().tasks, t);
        if is_in(u, t) {
            let i = choose|i: int| 0 <= i < u.len() && (#[trigger] u[i]).tasks.contains(t);
            assert(s[i].tasks.contains(t));
        }
        if s.last().tasks.contains(t) {
            assert(s[s.len() - 1].tasks.contains(t));
        }
        if is_in(s, t) {
            let i = choose|i: int| 0 <= i < s.len() && (#[trigger] s[i]).tasks.contains(t);
            if i < u.len() {
                assert(u[i].tasks.contains(t));
            }
        }
    }
}

pub(crate) proof fn lemma_inbox_is(lists: Seq<ListView>, href: Seq<char>)
    ensures
        (match inbox_of(lists) {
            Some(l) => l.href@ == href,
            None => false,
        }) == goes_to_inbox(lists, href),
{
    let (a, b) = (|l: ListView| l.inbox, |l: ListView| l.writable);
    crate::adding_law::lemma_first_list(lists, a);
    crate::adding_law::lemma_first_list(lists, b);
    match crate::plan::first_list(lists, a) {
        Some(l) => {
            let i = choose|i: int|
                0 <= i < lists.len() && #[trigger] lists[i] == l && a(l) && forall|j: int|
                    0 <= j < i ==> !a(#[trigger] lists[j]);
            assert(!(forall|j: int| 0 <= j < lists.len() ==> !(#[trigger] lists[j]).inbox));
            assert forall|j: int| 0 <= j < i implies !(#[trigger] lists[j]).inbox by {
                assert(!a(lists[j]));
            }
            if l.href@ == href {
                assert(lists[i].href@ == href);
            }
            if goes_to_inbox(lists, href) {
                let k = choose|k: int|
                    0 <= k < lists.len() && (#[trigger] lists[k]).href@ == href && (lists[k].inbox
                        || (lists[k].writable && forall|j: int|
                        0 <= j < lists.len() ==> !(#[trigger] lists[j]).inbox)) && forall|j: int|
                        0 <= j < k ==> !(#[trigger] lists[j]).inbox && (lists[k].inbox
                            || !lists[j].writable);
                if k < i {
                    assert(!lists[k].inbox);
                }
                if i < k {
                    assert(!lists[i].inbox);
                }
            }
        },
        None => {
            assert forall|j: int| 0 <= j < lists.len() implies !(#[trigger] lists[j]).inbox by {
                assert(!a(lists[j]));
            }
            match crate::plan::first_list(lists, b) {
                Some(l) => {
                    let i = choose|i: int|
                        0 <= i < lists.len() && #[trigger] lists[i] == l && b(l) && forall|j: int|
                            0 <= j < i ==> !b(#[trigger] lists[j]);
                    assert forall|j: int| 0 <= j < i implies !(#[trigger] lists[j]).inbox && (
                    lists[i].inbox || !lists[j].writable) by {
                        assert(!b(lists[j]));
                    }
                    if l.href@ == href {
                        assert(lists[i].href@ == href);
                    }
                    if goes_to_inbox(lists, href) {
                        let k = choose|k: int|
                            0 <= k < lists.len() && (#[trigger] lists[k]).href@ == href && (
                            lists[k].inbox || (lists[k].writable && forall|j: int|
                                0 <= j < lists.len() ==> !(#[trigger] lists[j]).inbox))
                                && forall|j: int|
                                0 <= j < k ==> !(#[trigger] lists[j]).inbox && (lists[k].inbox
                                    || !lists[j].writable);
                        if k < i {
                            assert(!b(lists[k]));
                        }
                        if i < k {
                            assert(!lists[i].inbox && !lists[i].writable);
                        }
                    }
                },
                None => {
                    if goes_to_inbox(lists, href) {
                        let k = choose|k: int|
                            0 <= k < lists.len() && (#[trigger] lists[k]).href@ == href && (
                            lists[k].inbox || (lists[k].writable && forall|j: int|
                                0 <= j < lists.len() ==> !(#[trigger] lists[j]).inbox));
                        assert(!b(lists[k]));
                    }
                },
            }
        },
    }
}

// -- sections -----------------------------------------------------------------------------------

/// A task is for a section: overdue what was due before today, a day's what is
/// due on it, a month's what comes after the week, a list's what is in it.
pub open spec fn fits_section(kind: KindView, t: TaskView, today: int) -> bool {
    match kind {
        KindView::Overdue => t.task.due matches Some(w) && w.date.ce < today,
        KindView::Day(d) => t.task.due matches Some(w) && w.date.ce == d.ce,
        KindView::Range => t.task.due matches Some(w) && w.date.ce >= today + 7,
        KindView::List(href) => t.list@ == href,
        KindView::Completed | KindView::Plain => true,
    }
}

/// Every task is in a section for its date or its list; open ones are apart
/// from completed ones.
pub proof fn tasks_are_in_their_sections(
    nav: NavView,
    data: DataView,
    opts: OptsView,
    today: int,
    zone: Seq<char>,
    i: int,
    t: TaskView,
)
    requires
        has_room(today),
        0 <= i < plan_of(nav, data, opts, today, zone).len(),
        plan_of(nav, data, opts, today, zone)[i].tasks.contains(t),
    ensures
        ({
            let kind = plan_of(nav, data, opts, today, zone)[i].kind;
            &&& fits_section(kind, t, today)
            &&& kind is Completed ==> data.done.contains(t)
            &&& !(kind is Completed) ==> data.open.contains(t)
        }),
{
    let s = plan_of(nav, data, opts, today, zone)[i];
    let x = lemma_shape(nav, data, opts, today, zone, i);
    if !(s.kind is Completed) {
        let sort = opts.sort_of(nav);
        let by = if s.kind is Overdue {
            Sort::Due
        } else {
            sort
        };
        lemma_ordered_contains(x, by, opts, sort, t);
    }
}

/// The tasks of a section are in the order of the view, last first where that
/// is asked for; those that are overdue always by their dates.
pub proof fn sections_are_sorted(
    nav: NavView,
    data: DataView,
    opts: OptsView,
    today: int,
    zone: Seq<char>,
    i: int,
    j: int,
    k: int,
)
    requires
        has_room(today),
        0 <= i < plan_of(nav, data, opts, today, zone).len(),
        0 <= j < k < plan_of(nav, data, opts, today, zone)[i].tasks.len(),
    ensures
        ({
            let s = plan_of(nav, data, opts, today, zone)[i];
            let chosen = match opts.sort {
                Some(x) => x,
                None => if nav is List || nav is Inbox {
                    Sort::Custom
                } else {
                    Sort::Due
                },
            };
            let sort = if s.kind is Overdue {
                Sort::Due
            } else {
                chosen
            };
            let (a, b) = (s.tasks[j], s.tasks[k]);
            s.kind is Completed || (if opts.descending && sort == chosen && sort != Sort::Custom {
                may_precede(b, a, sort)
            } else {
                may_precede(a, b, sort)
            })
        }),
{
    let s = plan_of(nav, data, opts, today, zone)[i];
    let x = lemma_shape(nav, data, opts, today, zone, i);
    if !(s.kind is Completed) {
        let sort = opts.sort_of(nav);
        let by = if s.kind is Overdue {
            Sort::Due
        } else {
            sort
        };
        crate::sorting::arranged_keeps_all(x, crate::arrange::order(by));
        sorted_tasks_are_in_order(x, by, opts, sort, j, k);
    }
}

/// What a section's tasks are: some open ones in order, all of which are for
/// it; or completed ones.
proof fn lemma_shape(
    nav: NavView,
    data: DataView,
    opts: OptsView,
    today: int,
    zone: Seq<char>,
    i: int,
) -> (x: Seq<TaskView>)
    requires
        has_room(today),
        0 <= i < plan_of(nav, data, opts, today, zone).len(),
    ensures
        ({
            let s = plan_of(nav, data, opts, today, zone)[i];
            let sort = opts.sort_of(nav);
            let by = if s.kind is Overdue {
                Sort::Due
            } else {
                sort
            };
            &&& s.kind is Completed ==> forall|t: TaskView| #[trigger]
                s.tasks.contains(t) ==> data.done.contains(t)
            &&& !(s.kind is Completed) ==> s.tasks == ordered(x, by, opts, sort) && forall|
                t: TaskView,
            | #[trigger]
                x.contains(t) ==> data.open.contains(t) && fits_section(s.kind, t, today)
        }),
{
    let p = shown(opts, today, data.sunday_first);
    let sort = opts.sort_of(nav);
    let open = data.open.filter(p);
    let done = data.done.filter(p);
    let all = plan_of(nav, data, opts, today, zone);
    let s = all[i];
    lemma_of(data.open, p);
    lemma_of(data.done, p);
    match nav {
        NavView::Today => {
            let a = overdue_part(open, opts, sort, today);
            lemma_of(open, due_before(today));
            lemma_of(open, due_on(today));
            lemma_of(done, completed_on_day(today, zone));
            if i < a.len() {
                open.filter(due_before(today))
            } else if i == a.len() {
                open.filter(due_on(today))
            } else {
                Seq::empty()
            }
        },
        NavView::Scheduled => {
            let a = overdue_part(open, opts, sort, today);
            let later = open.filter(due_after(today + 6));
            lemma_of(open, due_before(today));
            lemma_of(open, due_after(today + 6));
            if i < a.len() {
                open.filter(due_before(today))
            } else if i < a.len() + 7 {
                let d = i - a.len();
                lemma_of(open, due_on(today + d));
                assert(s == day_part(open, opts, sort, today, d));
                open.filter(due_on(today + d))
            } else {
                let k = months_in(later, opts, sort)[i - a.len() - 7];
                lemma_of(later, in_month(k));
                assert(s == month_of_plan(later, opts, sort, today)(k));
                later.filter(in_month(k))
            }
        },
        NavView::Inbox => lemma_shape_list(
            open,
            done,
            opts,
            sort,
            inbox_of(data.lists)->0.href@,
            i,
        ),
        NavView::List(href) => lemma_shape_list(open, done, opts, sort, href, i),
        NavView::Tomorrow => {
            lemma_of(open, due_on(today + 1));
            open.filter(due_on(today + 1))
        },
        NavView::Repeating => {
            lemma_of(open, repeats());
            open.filter(repeats())
        },
        NavView::Anytime => {
            lemma_of(open, undated());
            lemma_shape_by_list(data.lists, open.filter(undated()), opts, sort, i)
        },
        NavView::All => lemma_shape_by_list(data.lists, open, opts, sort, i),
        NavView::Completed => {
            let key = done_key(zone);
            let r = runs(done, key);
            runs_cover(done, key);
            assert(s == done_part(r[i], today, zone));
            assert forall|t: TaskView| #[trigger] s.tasks.contains(t) implies data.done.contains(
                t,
            ) by {
                lemma_in_chain(r, i, t);
            }
            Seq::empty()
        },
    }
}

proof fn lemma_in_chain(r: Seq<Seq<TaskView>>, i: int, t: TaskView)
    requires
        0 <= i < r.len(),
        r[i].contains(t),
    ensures
        crate::plan::chained(r).contains(t),
    decreases r.len(),
{
    let a = crate::plan::chained(r.drop_last());
    if i < r.len() - 1 {
        assert(r.drop_last()[i] == r[i]);
        lemma_in_chain(r.drop_last(), i, t);
        let k = choose|k: int| 0 <= k < a.len() && a[k] == t;
        assert((a + r.last())[k] == t);
    } else {
        let k = choose|k: int| 0 <= k < r[i].len() && r[i][k] == t;
        assert((a + r.last())[a.len() + k] == t);
    }
}

/// What passes is among what there is, and passes.
proof fn lemma_of(s: Seq<TaskView>, p: spec_fn(TaskView) -> bool)
    ensures
        forall|t: TaskView| #[trigger] s.filter(p).contains(t) ==> s.contains(t) && p(t),
{
    assert forall|t: TaskView| #[trigger] s.filter(p).contains(t) implies s.contains(t) && p(
        t,
    ) by {
        let k = choose|k: int| 0 <= k < s.filter(p).len() && s.filter(p)[k] == t;
        s.lemma_filter_pred(p, k);
        s.lemma_filter_contains_rev(p, t);
    }
}

proof fn lemma_shape_list(
    open: Seq<TaskView>,
    done: Seq<TaskView>,
    opts: OptsView,
    sort: Sort,
    href: Seq<char>,
    i: int,
) -> (x: Seq<TaskView>)
    requires
        0 <= i < list_plan(open, done, opts, sort, href).len(),
    ensures
        ({
            let s = list_plan(open, done, opts, sort, href)[i];
            &&& s.kind is Completed || s.kind == KindView::List(href)
            &&& s.kind is Completed ==> forall|t: TaskView| #[trigger]
                s.tasks.contains(t) ==> done.contains(t)
            &&& !(s.kind is Completed) ==> s.tasks == ordered(x, sort, opts, sort) && forall|
                t: TaskView,
            | #[trigger] x.contains(t) ==> open.contains(t) && t.list@ == href
        }),
{
    lemma_of(open, in_list(href));
    lemma_of(done, in_list(href));
    open.filter(in_list(href))
}

proof fn lemma_shape_by_list(
    lists: Seq<ListView>,
    tasks: Seq<TaskView>,
    opts: OptsView,
    sort: Sort,
    i: int,
) -> (x: Seq<TaskView>)
    requires
        0 <= i < by_list_plan(lists, tasks, opts, sort).len(),
    ensures
        ({
            let s = by_list_plan(lists, tasks, opts, sort)[i];
            &&& s.tasks == ordered(x, sort, opts, sort)
            &&& s.kind matches KindView::List(href) && forall|t: TaskView| #[trigger]
                x.contains(t) ==> tasks.contains(t) && t.list@ == href
            // The list's name, and how many tasks it shows.
            &&& s.title is Some && s.note == Some(decimal(x.len()))
            &&& exists|k: int|
                0 <= k < lists.len() && KindView::List((#[trigger] lists[k]).href@) == s.kind
                    && s.title == Some(lists[k].name@)
            &&& x.len() > 0
        }),
    decreases lists.len(),
{
    let before = lists.drop_last();
    let l = lists.last();
    let mine = tasks.filter(in_list(l.href@));
    let b = by_list_plan(before, tasks, opts, sort);
    lemma_of(tasks, in_list(l.href@));
    if mine.len() > 0 && i == b.len() {
        assert(lists[lists.len() - 1] == l);
        mine
    } else {
        let x = lemma_shape_by_list(before, tasks, opts, sort, i);
        let s = b[i];
        let k = choose|k: int|
            0 <= k < before.len() && KindView::List((#[trigger] before[k]).href@) == s.kind
                && s.title == Some(before[k].name@);
        assert(lists[k] == before[k]);
        x
    }
}

/// Where tasks are shown by their list, each section has the list's name and
/// how many of its tasks there are; a list without any has none.
pub proof fn lists_have_their_names(
    nav: NavView,
    data: DataView,
    opts: OptsView,
    today: int,
    zone: Seq<char>,
    i: int,
)
    requires
        nav is All || nav is Anytime,
        0 <= i < plan_of(nav, data, opts, today, zone).len(),
    ensures
        ({
            let s = plan_of(nav, data, opts, today, zone)[i];
            &&& exists|k: int|
                0 <= k < data.lists.len() && KindView::List((#[trigger] data.lists[k]).href@)
                    == s.kind && s.title == Some(data.lists[k].name@)
            &&& s.note == Some(decimal(s.tasks.len()))
            &&& s.tasks.len() > 0
        }),
{
    let open = data.open.filter(shown(opts, today, data.sunday_first));
    let tasks = if nav is All {
        open
    } else {
        open.filter(undated())
    };
    let sort = opts.sort_of(nav);
    let x = lemma_shape_by_list(data.lists, tasks, opts, sort, i);
    crate::sorting::arranged_keeps_all(x, crate::arrange::order(sort));
}

/// Today starts with what is overdue, under that heading, when anything is;
/// then comes today, which has a heading only then; and then what was done
/// today, where that is to be shown.
pub proof fn today_goes_from_overdue_to_done(
    data: DataView,
    opts: OptsView,
    today: int,
    zone: Seq<char>,
    t: TaskView,
)
    requires
        has_room(today),
        t.task.wf(),
        data.open.contains(t),
        let_in(t, opts, today, data.sunday_first),
    ensures
        ({
            let p = plan_of(NavView::Today, data, opts, today, zone);
            let late = t.task.due matches Some(w) && w.date.ce < today;
            &&& late ==> p.len() >= 2 && p[0].kind is Overdue && p[0].title == Some("Overdue"@)
                && p[0].tasks.contains(t) && p[1].kind == KindView::Day(Date { ce: today as i32 })
                && p[1].title == Some("Today"@)
            &&& p.len() > 0
            &&& p[0].kind is Overdue || (p[0].kind == KindView::Day(Date { ce: today as i32 })
                && p[0].title is None && p[0].keep)
            &&& forall|i: int|
                0 <= i < p.len() && (#[trigger] p[i]).kind is Completed ==> opts.show_completed
                    && p[i].title == Some("Completed"@) && p[i].note == Some(
                    decimal(p[i].tasks.len()),
                ) && i == p.len() - 1
        }),
{
    let f = shown(opts, today, data.sunday_first);
    let open = data.open.filter(f);
    let sort = opts.sort_of(NavView::Today);
    lemma_let_in(t, opts, today, data.sunday_first);
    let i = choose|i: int| 0 <= i < data.open.len() && data.open[i] == t;
    data.open.lemma_filter_contains(f, i);
    let x = open.filter(due_before(today));
    if t.task.due matches Some(w) && w.date.ce < today {
        let k = choose|k: int| 0 <= k < open.len() && open[k] == t;
        open.lemma_filter_contains(due_before(today), k);
        lemma_ordered_contains(x, Sort::Due, opts, sort, t);
        crate::sorting::arranged_keeps_all(x, crate::arrange::order(Sort::Due));
    }
}

/// Scheduled goes day by day from today for a week, each under the number of
/// its day with its weekday, today and tomorrow by those names; before it what
/// is overdue, and after it month by month.
pub proof fn the_week_goes_day_by_day(
    data: DataView,
    opts: OptsView,
    today: int,
    zone: Seq<char>,
    k: int,
)
    requires
        has_room(today),
        0 <= k < 7,
    ensures
        ({
            let p = plan_of(NavView::Scheduled, data, opts, today, zone);
            let a: int = if p[0].kind is Overdue {
                1
            } else {
                0
            };
            let s = p[a + k];
            &&& p.len() >= a + 7
            &&& s.kind == KindView::Day(Date { ce: (today + k) as i32 })
            &&& s.title == Some(decimal(crate::date::day_of(today + k) as nat))
            &&& s.note == Some(
                if k == 0 {
                    "Today"@
                } else if k == 1 {
                    "Tomorrow"@
                } else {
                    crate::date::written(today + k, "%A"@)
                },
            )
            &&& s.keep
            &&& forall|i: int| a + 7 <= i < p.len() ==> (#[trigger] p[i]).kind is Range
        }),
{
    let open = data.open.filter(shown(opts, today, data.sunday_first));
    let sort = opts.sort_of(NavView::Scheduled);
    let a = overdue_part(open, opts, sort, today);
    let p = plan_of(NavView::Scheduled, data, opts, today, zone);
    assert(p[a.len() as int] == day_part(open, opts, sort, today, 0));
    assert(p[a.len() + k] == day_part(open, opts, sort, today, k));
}

/// A month has its name over it, with the year when it is not this one.
pub proof fn months_have_their_names(tasks: Seq<TaskView>, today: int)
    requires
        tasks.len() > 0,
        tasks[0].task.due is Some,
    ensures
        ({
            let d = tasks[0].task.due->0.date.ce as int;
            let name = crate::date::month_name(month_of(d));
            &&& year_of(d) == year_of(today) ==> month_part(tasks, today).title == Some(name)
            &&& year_of(d) != year_of(today) ==> month_part(tasks, today).title == Some(
                name + " "@ + crate::number::signed(year_of(d)),
            )
        }),
{
}

/// Days of completed tasks are called by their names: today, yesterday, or
/// the weekday and the date.
pub proof fn days_have_their_titles(d: Date, today: Date, r: String)
    requires
        d.wf(),
        today.wf(),
        call_ensures(day_title, (d, today), r),
    ensures
        d.ce == today.ce ==> r@ == "Today"@,
        d.ce == today.ce - 1 ==> r@ == "Yesterday"@,
        d.ce == today.ce + 1 ==> r@ == "Tomorrow"@,
        (d.ce > today.ce + 1 || d.ce < today.ce - 1) && d.year() == today.year() ==> r@
            == crate::date::written(d.ce as int, "%A, %b %-d"@),
        (d.ce > today.ce + 1 || d.ce < today.ce - 1) && d.year() != today.year() ==> r@
            == crate::date::written(d.ce as int, "%A, %b %-d %Y"@),
{
}

} // verus!
