//! The counts that the sidebar shows.

use vstd::prelude::*;

use crate::nav::{Nav, NavView, plain_opts};
use crate::plan::{
    Data, DataView, Picked, SectionView, due_after, due_before, due_on, in_list, inbox_in, inbox_of,
    ordered, plan_of, repeats, shown, undated,
};
use crate::task::{TaskView, tasks_wf};
use crate::text::same;
use crate::zone::Now;

verus! {

#[derive(Debug, PartialEq, Eq)]
pub struct Counts {
    pub inbox: usize,
    /// Overdue ones with them.
    pub today: usize,
    pub overdue: usize,
    pub scheduled: usize,
    pub tomorrow: usize,
    pub anytime: usize,
    pub repeating: usize,
    pub all: usize,
    /// By list, each list once.
    pub lists: Vec<(String, usize)>,
}

impl Default for Counts {
    fn default() -> (r: Counts)
        ensures
            r.inbox == 0 && r.today == 0 && r.overdue == 0 && r.scheduled == 0 && r.tomorrow == 0
                && r.anytime == 0 && r.repeating == 0 && r.all == 0,
            r.lists@.len() == 0,
    {
        Counts {
            inbox: 0,
            today: 0,
            overdue: 0,
            scheduled: 0,
            tomorrow: 0,
            anytime: 0,
            repeating: 0,
            all: 0,
            lists: Vec::new(),
        }
    }
}

/// What is counted of a list; nothing when it is not there.
pub open spec fn tally(v: Seq<(String, usize)>, href: Seq<char>) -> nat
    decreases v.len(),
{
    if v.len() == 0 {
        0
    } else if v[0].0@ == href {
        v[0].1 as nat
    } else {
        tally(v.skip(1), href)
    }
}

/// No list is there twice.
pub open spec fn each_once(v: Seq<(String, usize)>) -> bool {
    forall|i: int, j: int| 0 <= i < j < v.len() ==> #[trigger] v[i].0@ != #[trigger] v[j].0@
}

/// No list is there with nothing counted of it.
pub open spec fn none_empty(v: Seq<(String, usize)>) -> bool {
    forall|i: int| 0 <= i < v.len() ==> (#[trigger] v[i]).1 > 0
}

/// How many of the tasks pass.
pub open spec fn count(s: Seq<TaskView>, p: spec_fn(TaskView) -> bool) -> nat {
    s.filter(p).len()
}

/// The counts of open tasks.
pub open spec fn counted(c: Counts, data: DataView, today: int) -> bool {
    &&& c.all == data.open.len()
    &&& c.inbox == match inbox_of(data.lists) {
        Some(l) => count(data.open, in_list(l.href@)),
        None => 0,
    }
    &&& c.repeating == count(data.open, repeats())
    &&& c.anytime == count(data.open, undated())
    &&& c.overdue == count(data.open, due_before(today))
    &&& c.today == count(data.open, due_before(today)) + count(data.open, due_on(today))
    &&& c.scheduled == count(data.open, due_after(today))
    &&& c.tomorrow == count(data.open, due_on(today + 1))
    &&& each_once(c.lists@)
    &&& none_empty(c.lists@)
    &&& forall|href: Seq<char>|
        #![trigger tally(c.lists@, href)]
        tally(c.lists@, href) == count(data.open, in_list(href))
}

/// Where a list is counted.
fn place_of(v: &Vec<(String, usize)>, href: &str) -> (r: Option<usize>)
    ensures
        match r {
            Some(i) => i < v@.len() && v@[i as int].0@ == href@ && tally(v@, href@) == v@[i as int].1
                && forall|j: int| 0 <= j < i ==> #[trigger] v@[j].0@ != href@,
            None => tally(v@, href@) == 0 && forall|j: int|
                0 <= j < v@.len() ==> #[trigger] v@[j].0@ != href@,
        },
{
    assert(v@.skip(0) == v@);
    for i in 0..v.len()
        invariant
            tally(v@.skip(i as int), href@) == tally(v@, href@),
            forall|j: int| 0 <= j < i ==> #[trigger] v@[j].0@ != href@,
    {
        let ghost t = v@.skip(i as int);
        assert(t[0] == v@[i as int]);
        if same(v[i].0.as_str(), href) {
            return Some(i);
        }
        assert(t.skip(1) == v@.skip(i + 1));
    }
    assert(v@.skip(v@.len() as int).len() == 0);
    None
}

/// The tally of a list after one is counted.
proof fn lemma_tally_set(v: Seq<(String, usize)>, i: int, e: (String, usize), href: Seq<char>)
    requires
        0 <= i < v.len(),
        e.0@ == v[i].0@,
        forall|j: int| 0 <= j < i ==> #[trigger] v[j].0@ != v[i].0@,
    ensures
        tally(v.update(i, e), href) == if href == v[i].0@ {
            e.1 as nat
        } else {
            tally(v, href)
        },
    decreases v.len(),
{
    let w = v.update(i, e);
    if i == 0 {
        assert(w.skip(1) == v.skip(1));
    } else {
        assert(w[0] == v[0]);
        assert(w.skip(1) == v.skip(1).update(i - 1, e));
        assert forall|j: int| 0 <= j < i - 1 implies #[trigger] v.skip(1)[j].0@ != v.skip(1)[i
            - 1].0@ by {
            assert(v.skip(1)[j] == v[j + 1]);
        }
        lemma_tally_set(v.skip(1), i - 1, e, href);
    }
}

proof fn lemma_tally_push(v: Seq<(String, usize)>, e: (String, usize), href: Seq<char>)
    requires
        forall|j: int| 0 <= j < v.len() ==> #[trigger] v[j].0@ != e.0@,
    ensures
        tally(v.push(e), href) == if href == e.0@ {
            e.1 as nat
        } else {
            tally(v, href)
        },
    decreases v.len(),
{
    let w = v.push(e);
    if v.len() == 0 {
        assert(w.skip(1).len() == 0);
        assert(tally(w.skip(1), href) == 0);
    } else {
        assert(w[0] == v[0]);
        assert(w.skip(1) == v.skip(1).push(e));
        assert forall|j: int| 0 <= j < v.skip(1).len() implies #[trigger] v.skip(1)[j].0@
            != e.0@ by {
            assert(v.skip(1)[j] == v[j + 1]);
        }
        lemma_tally_push(v.skip(1), e, href);
    }
}

/// Counts one more task of a list.
fn tick(v: &mut Vec<(String, usize)>, href: &String)
    requires
        each_once(old(v)@),
        none_empty(old(v)@),
        tally(old(v)@, href@) < usize::MAX,
    ensures
        each_once(final(v)@),
        none_empty(final(v)@),
        forall|h: Seq<char>|
            #![trigger tally(final(v)@, h)]
            tally(final(v)@, h) == tally(old(v)@, h) + (if h == href@ {
                1nat
            } else {
                0
            }),
{
    let ghost before = v@;
    match place_of(v, href.as_str()) {
        Some(i) => {
            let n: usize = v[i].1;
            let name = v[i].0.clone();
            v.set(i, (name, n + 1));
            proof {
                let e = v@[i as int];
                assert(v@ == before.update(i as int, e));
                assert forall|h: Seq<char>| #![trigger tally(v@, h)]
                    tally(v@, h) == tally(before, h) + (if h == href@ {
                    1nat
                } else {
                    0
                }) by {
                    lemma_tally_set(before, i as int, e, h);
                }
                assert forall|a: int, b: int| 0 <= a < b < v@.len() implies #[trigger] v@[a].0@
                    != #[trigger] v@[b].0@ by {
                    assert(before[a].0@ != before[b].0@);
                }
            }
        },
        None => {
            v.push((href.clone(), 1));
            proof {
                let e = v@.last();
                assert(v@ == before.push(e));
                assert forall|h: Seq<char>| #![trigger tally(v@, h)]
                    tally(v@, h) == tally(before, h) + (if h == href@ {
                    1nat
                } else {
                    0
                }) by {
                    lemma_tally_push(before, e, h);
                }
            }
        },
    }
}

proof fn lemma_count_step(s: Seq<TaskView>, p: spec_fn(TaskView) -> bool, i: int)
    requires
        0 <= i < s.len(),
    ensures
        count(s.take(i + 1), p) == count(s.take(i), p) + (if p(s[i]) {
            1nat
        } else {
            0
        }),
        count(s.take(i), p) <= i,
{
    reveal(Seq::filter);
    assert(s.take(i + 1).drop_last() == s.take(i));
    assert(s.take(i + 1).last() == s[i]);
    s.take(i).lemma_filter_len(p);
}

impl Counts {
    pub fn new(data: &Data, now: &Now) -> (r: Counts)
        requires
            tasks_wf(data@.open),
            now.wf(),
        ensures
            counted(r, data@, now.day()),
    {
        Counts::picked(&data.picked(), now)
    }

    /// The counts of what was picked.
    pub fn picked(data: &Picked, now: &Now) -> (r: Counts)
        requires
            tasks_wf(data@.open),
            now.wf(),
        ensures
            counted(r, data@, now.day()),
    {
        let today = now.today();
        let mut c = Counts::default();
        let inbox = inbox_in(&data.lists);
        let ghost open = data@.open;
        let ghost day = now.day();
        proof {
            reveal(Seq::filter);
        }
        assert(open.take(0).len() == 0);
        for i in 0..data.open.len()
            invariant
                open == data@.open,
                tasks_wf(open),
                today.ce == day,
                today.wf(),
                inbox == (match inbox_of(data@.lists) {
                    Some(l) => Some(&l),
                    None => None,
                }),
                c.all == i,
                c.inbox == (match inbox_of(data@.lists) {
                    Some(l) => count(open.take(i as int), in_list(l.href@)),
                    None => 0,
                }),
                c.repeating == count(open.take(i as int), repeats()),
                c.anytime == count(open.take(i as int), undated()),
                c.overdue == count(open.take(i as int), due_before(day)),
                c.today == count(open.take(i as int), due_before(day)) + count(
                    open.take(i as int),
                    due_on(day),
                ),
                c.today <= i,
                c.scheduled == count(open.take(i as int), due_after(day)),
                c.tomorrow == count(open.take(i as int), due_on(day + 1)),
                each_once(c.lists@),
                none_empty(c.lists@),
                forall|href: Seq<char>|
                    #![trigger tally(c.lists@, href)]
                    tally(c.lists@, href) == count(open.take(i as int), in_list(href)),
        {
            let t: &TaskView = data.open[i];
            assert(open[i as int] == *t);
            assert(open[i as int].task.wf());
            proof {
                lemma_count_step(open, repeats(), i as int);
                lemma_count_step(open, undated(), i as int);
                lemma_count_step(open, due_before(day), i as int);
                lemma_count_step(open, due_on(day), i as int);
                lemma_count_step(open, due_after(day), i as int);
                lemma_count_step(open, due_on(day + 1), i as int);
                lemma_count_step(open, in_list(t.list@), i as int);
                if let Some(l) = inbox_of(data@.lists) {
                    lemma_count_step(open, in_list(l.href@), i as int);
                }
                assert(tally(c.lists@, t.list@) == count(open.take(i as int), in_list(t.list@)));
            }
            let ghost before = c.lists@;
            c.all += 1;
            tick(&mut c.lists, &t.list);
            proof {
                assert forall|href: Seq<char>| #![trigger tally(c.lists@, href)]
                    tally(c.lists@, href) == count(open.take(i + 1), in_list(href)) by {
                    lemma_count_step(open, in_list(href), i as int);
                    assert(tally(before, href) == count(open.take(i as int), in_list(href)));
                }
            }
            if let Some(l) = inbox {
                if t.list == l.href {
                    c.inbox += 1;
                }
            }
            if t.task.rrule.is_some() {
                c.repeating += 1;
            }
            match t.task.due_date() {
                None => {
                    c.anytime += 1;
                },
                Some(d) => {
                    if d.ce < today.ce {
                        c.overdue += 1;
                        c.today += 1;
                    } else if d.ce == today.ce {
                        c.today += 1;
                    } else {
                        c.scheduled += 1;
                        if d.ce == today.ce + 1 {
                            c.tomorrow += 1;
                        }
                    }
                },
            }
        }
        assert(open.take(open.len() as int) == open);
        c
    }

    /// What a sidebar entry shows; nothing for Completed.
    pub open spec fn shows(&self, n: NavView) -> Option<nat> {
        match n {
            NavView::Inbox => Some(self.inbox as nat),
            NavView::Today => Some(self.today as nat),
            NavView::Scheduled => Some(self.scheduled as nat),
            NavView::Completed => None,
            NavView::Tomorrow => Some(self.tomorrow as nat),
            NavView::Anytime => Some(self.anytime as nat),
            NavView::Repeating => Some(self.repeating as nat),
            NavView::All => Some(self.all as nat),
            NavView::List(href) => Some(tally(self.lists@, href)),
        }
    }

    /// What a sidebar entry shows; nothing for Completed.
    pub fn of(&self, nav: &Nav) -> (r: Option<usize>)
        ensures
            match r {
                Some(n) => self.shows(nav@) == Some(n as nat),
                None => self.shows(nav@) is None,
            },
    {
        match nav {
            Nav::Inbox => Some(self.inbox),
            Nav::Today => Some(self.today),
            Nav::Scheduled => Some(self.scheduled),
            Nav::Completed => None,
            Nav::Tomorrow => Some(self.tomorrow),
            Nav::Anytime => Some(self.anytime),
            Nav::Repeating => Some(self.repeating),
            Nav::All => Some(self.all),
            Nav::List(href) => match place_of(&self.lists, href.as_str()) {
                Some(i) => Some(self.lists[i].1),
                None => Some(0),
            },
        }
    }
}

/// How many tasks there are in sections.
pub open spec fn total(s: Seq<SectionView>) -> nat
    decreases s.len(),
{
    if s.len() == 0 {
        0
    } else {
        total(s.drop_last()) + s.last().tasks.len()
    }
}

pub(crate) proof fn lemma_all_shown(data: DataView, today: int)
    requires
        tasks_wf(data.open),
    ensures
        data.open.filter(shown(plain_opts(), today, data.sunday_first)) == data.open,
{
    lemma_filter_all(data.open, shown(plain_opts(), today, data.sunday_first));
}

proof fn lemma_filter_all(s: Seq<TaskView>, p: spec_fn(TaskView) -> bool)
    requires
        forall|i: int| 0 <= i < s.len() ==> p(#[trigger] s[i]) || !s[i].task.wf(),
        tasks_wf(s),
    ensures
        s.filter(p) == s,
    decreases s.len(),
{
    reveal(Seq::filter);
    if s.len() > 0 {
        let t = s.drop_last();
        assert forall|i: int| 0 <= i < t.len() implies (#[trigger] t[i]).task.wf() && p(t[i]) by {
            assert(t[i] == s[i]);
            assert(s[i].task.wf());
        }
        lemma_filter_all(t, p);
        assert(s[s.len() - 1].task.wf());
        assert(t.push(s.last()) == s);
    }
}

/// A view of everything shows as many tasks as the sidebar counts for it:
/// Today with what is overdue, Tomorrow, Repeating, the inbox and a list.
pub proof fn counts_match_views(c: Counts, data: DataView, nav: NavView, today: int, zone: Seq<
    char,
>)
    requires
        data.wf(),
        counted(c, data, today),
        nav is Today || nav is Tomorrow || nav is Repeating || nav is Inbox || nav is List,
    ensures
        c.shows(nav) == Some(total(plan_of(nav, data, plain_opts(), today, zone))),
{
    lemma_all_shown(data, today);
    let opts = plain_opts();
    let open = data.open;
    let sort = opts.sort_of(nav);
    let p = plan_of(nav, data, opts, today, zone);
    let before = open.filter(due_before(today));
    reveal_with_fuel(total, 3);
    crate::sorting::arranged_keeps_all(before, crate::arrange::order(crate::nav::Sort::Due));
    crate::sorting::arranged_keeps_all(
        open.filter(due_on(today)),
        crate::arrange::order(sort),
    );
    crate::sorting::arranged_keeps_all(
        open.filter(due_on(today + 1)),
        crate::arrange::order(sort),
    );
    crate::sorting::arranged_keeps_all(open.filter(repeats()), crate::arrange::order(sort));
    match nav {
        NavView::Today => {
            let late = ordered(before, crate::nav::Sort::Due, opts, sort);
            if late.len() > 0 {
                assert(p.len() == 2);
                assert(p.drop_last().last() == p[0]);
                assert(p.drop_last().drop_last().len() == 0);
            } else {
                assert(p.len() == 1);
                assert(p.drop_last().len() == 0);
            }
        },
        NavView::Inbox => {
            if let Some(l) = inbox_of(data.lists) {
                crate::sorting::arranged_keeps_all(
                    open.filter(in_list(l.href@)),
                    crate::arrange::order(sort),
                );
                assert(p.len() == 1 && p.drop_last().len() == 0);
            }
        },
        NavView::List(href) => {
            assert(tally(c.lists@, href) == count(open, in_list(href)));
            crate::sorting::arranged_keeps_all(
                open.filter(in_list(href)),
                crate::arrange::order(sort),
            );
            assert(p.len() == 1 && p.drop_last().len() == 0);
        },
        _ => {
            assert(p.len() == 1 && p.drop_last().len() == 0);
        },
    }
}

} // verus!
