//! What preferences and settings change, and what they offer.

use vstd::prelude::*;

use crate::nav::{DueFilter, Nav, NavView, ViewOpts, key_of, navs};
use crate::order::reading;
use crate::prefs::{Prefs, by_name, by_place, kept, opts_at, place_in, plain_lists};
use crate::settings::{
    Settings, SettingsChange, ViewRow, account_row, can_pick, can_write, choose_interval,
    choose_reminder, inbox_choices, inbox_place, interval_choice, login_row, login_switchable,
    notes_row, other_than, picked_lengths, priority_choice, reminder_times, shorter, sidebar_rows,
    snooze_lengths, snooze_toggled, visible_views,
};
use crate::sorting::{arranged, orders};
use crate::task::{ListView, StatusView};
use crate::text::texts;

verus! {

pub(crate) proof fn lemma_kept<T>(s: Seq<T>, p: spec_fn(T) -> bool, x: T)
    ensures
        s.filter(p).contains(x) == (s.contains(x) && p(x)),
    decreases s.len(),
{
    reveal(Seq::filter);
    if s.len() > 0 {
        let t = s.drop_last();
        lemma_kept(t, p, x);
        assert(t.push(s.last()) == s);
        let f = t.filter(p);
        if s.contains(x) && x != s.last() {
            let i = choose|i: int| 0 <= i < s.len() && s[i] == x;
            assert(t[i] == x);
        }
        if t.contains(x) {
            let i = choose|i: int| 0 <= i < t.len() && t[i] == x;
            assert(s[i] == x);
        }
        assert(s[s.len() - 1] == s.last());
        if p(s.last()) {
            let g = f.push(s.last());
            if f.contains(x) {
                let i = choose|i: int| 0 <= i < f.len() && f[i] == x;
                assert(g[i] == x);
            }
            assert(g[f.len() as int] == s.last());
            if g.contains(x) && x != s.last() {
                let i = choose|i: int| 0 <= i < g.len() && g[i] == x;
                assert(f[i] == x);
            }
        }
    }
}

// -- what there is at first ---------------------------------------------------------------------

/// Preferences that were never changed.
pub proof fn preferences_start_as_they_do(p: Prefs)
    requires
        call_ensures(Prefs::default, (), p),
    ensures
        p.view@ == "today"@,
        p.width == 1080 && p.height == 720 && !p.maximized,
        p.show_counts && p.complete_later && p.background && p.read_dates,
        !p.sunday_first && !p.lists_by_name && !p.remember_list,
        p.default_priority == 4,
        p.list_order@.len() == 0 && p.archived@.len() == 0 && p.views@.len() == 0,
        p.sidebar is None,
{
}

// -- lists --------------------------------------------------------------------------------------

/// A list that is put away is put away until it is brought back, and no other
/// with it.
pub proof fn one_list_is_put_away(p: &mut Prefs, href: &str, on: bool)
    requires
        call_ensures(Prefs::set_archived, (p, href, on), ()),
    ensures
        forall|h: Seq<char>| #[trigger]
            texts(final(p).archived@).contains(h) == (if h == href@ {
                on
            } else {
                texts(old(p).archived@).contains(h)
            }),
        final(p).list_order == old(p).list_order,
        final(p).sidebar == old(p).sidebar,
        final(p).views == old(p).views,
        final(p).view == old(p).view,
{
    let before = texts(old(p).archived@);
    let after = texts(final(p).archived@);
    let other = |y: Seq<char>| y != href@;
    assert forall|h: Seq<char>| #[trigger] after.contains(h) == (if h == href@ {
        on
    } else {
        before.contains(h)
    }) by {
        lemma_kept(before, other, h);
        let w = before.filter(other);
        if on {
            assert(after[w.len() as int] == href@);
            if w.contains(h) {
                let i = choose|i: int| 0 <= i < w.len() && w[i] == h;
                assert(after[i] == h);
            }
            if after.contains(h) && h != href@ {
                let i = choose|i: int| 0 <= i < after.len() && after[i] == h;
                assert(w[i] == h);
            }
        }
    }
}

proof fn lemma_place(order: Seq<Seq<char>>, href: Seq<char>)
    ensures
        0 <= place_in(order, href) <= order.len(),
        place_in(order, href) < order.len() ==> order[place_in(order, href)] == href,
        forall|q: int| 0 <= q < order.len() && #[trigger] order[q] == href ==> place_in(order, href)
            <= q,
    decreases order.len(),
{
    if order.len() > 0 && order[0] != href {
        let t = order.skip(1);
        lemma_place(t, href);
        let k = place_in(t, href);
        if k < t.len() {
            assert(t[k] == order[k + 1]);
        }
        assert forall|q: int| 0 <= q < order.len() && #[trigger] order[q] == href implies place_in(
            order,
            href,
        ) <= q by {
            assert(t[q - 1] == order[q]);
        }
    }
}

/// The sidebar has the lists that are not put away. By name, they go as names
/// are read; else a list that was dragged has before it only lists that were
/// dragged at least as far up.
pub proof fn lists_are_arranged<'a>(p: &Prefs, lists: &'a [ListView], r: Vec<&'a ListView>)
    requires
        call_ensures(Prefs::arrange, (p, lists), r),
    ensures
        forall|l: ListView| #[trigger]
            plain_lists(r@).contains(l) == (lists@.contains(l) && !texts(p.archived@).contains(
                l.href@,
            )),
        p.lists_by_name ==> forall|i: int, j: int|
            0 <= i < j < r@.len() ==> reading(
                (#[trigger] r@[i]).name@,
                (#[trigger] r@[j]).name@,
            ) <= 0,
        !p.lists_by_name ==> forall|i: int, j: int, q: int|
            0 <= i < j < r@.len() && 0 <= q < p.list_order@.len() && (
            #[trigger] p.list_order@[q])@ == (#[trigger] r@[j]).href@ ==> exists|o: int|
                0 <= o <= q && (#[trigger] p.list_order@[o])@ == (#[trigger] r@[i]).href@,
{
    let left = lists@.filter(kept(texts(p.archived@)));
    let v = plain_lists(r@);
    crate::prefs::arrangement_keeps_lists(*p, lists@);
    assert(v.len() == r@.len());
    assert forall|i: int| 0 <= i < r@.len() implies #[trigger] v[i] == *r@[i] by {}
    if p.lists_by_name {
        assert(orders(by_name(), left)) by {
            assert forall|a: ListView, b: ListView| #[trigger] by_name()(a, b) || by_name()(
                b,
                a,
            ) by {
                crate::order::reading_flips(a.name@, b.name@);
            }
            assert forall|a: ListView, b: ListView, c: ListView| #[trigger]
                by_name()(a, b) && #[trigger] by_name()(b, c) implies by_name()(a, c) by {
                crate::order::reading_carries(a.name@, b.name@, c.name@);
            }
        }
        crate::sorting::arranged_is_in_order(left, by_name());
        assert forall|i: int, j: int| 0 <= i < j < r@.len() implies reading(
            (#[trigger] r@[i]).name@,
            (#[trigger] r@[j]).name@,
        ) <= 0 by {
            assert(by_name()(v[i], v[j]));
        }
    } else {
        let order = texts(p.list_order@);
        let le = by_place(order);
        assert(orders(le, left));
        crate::sorting::arranged_is_in_order(left, le);
        assert forall|i: int, j: int, q: int|
            0 <= i < j < r@.len() && 0 <= q < p.list_order@.len() && (
            #[trigger] p.list_order@[q])@ == (#[trigger] r@[j]).href@ implies exists|o: int|
            0 <= o <= q && (#[trigger] p.list_order@[o])@ == (#[trigger] r@[i]).href@ by {
            assert(le(v[i], v[j]));
            lemma_place(order, v[i].href@);
            lemma_place(order, v[j].href@);
            assert(order[q] == v[j].href@);
            let o = place_in(order, v[i].href@);
            assert(order[o] == p.list_order@[o]@);
        }
    }
}

// -- views --------------------------------------------------------------------------------------

/// A sidebar that was never changed has the inbox, Today, Scheduled and
/// Completed.
pub proof fn sidebars_start_with_four(p: &Prefs, r: Vec<Nav>)
    requires
        call_ensures(Prefs::sidebar_views, (p,), r),
        p.sidebar is None,
    ensures
        r@.len() == 4,
        r@[0] is Inbox && r@[1] is Today && r@[2] is Scheduled && r@[3] is Completed,
{
    let v = navs(r@);
    assert(v.len() == r@.len());
    assert(v[0] == r@[0]@ && v[1] == r@[1]@ && v[2] == r@[2]@ && v[3] == r@[3]@);
}

/// A view that was never changed shows every priority and any date of every
/// list, and nothing that is done.
pub proof fn views_start_plain(p: &Prefs, nav: &Nav, r: ViewOpts)
    requires
        call_ensures(Prefs::view_opts, (p, nav), r),
        forall|i: int| 0 <= i < p.views@.len() ==> (#[trigger] p.views@[i]).0@ != key_of(nav@),
    ensures
        r.sort is None,
        !r.descending,
        !r.show_completed,
        forall|i: int| 0 <= i < 4 ==> #[trigger] r.priorities@[i],
        r.due == DueFilter::Any,
        r.hide_lists@.len() == 0,
{
    lemma_plain(p.views@, key_of(nav@));
    assert(r@.hide_lists.len() == r.hide_lists@.len());
    assert(r@.priorities =~= r.priorities@);
}

proof fn lemma_plain(v: Seq<(String, ViewOpts)>, key: Seq<char>)
    requires
        forall|i: int| 0 <= i < v.len() ==> (#[trigger] v[i]).0@ != key,
    ensures
        opts_at(v, key) == crate::nav::plain_opts(),
    decreases v.len(),
{
    if v.len() > 0 {
        let t = v.skip(1);
        assert(v[0].0@ != key);
        assert forall|i: int| 0 <= i < t.len() implies (#[trigger] t[i]).0@ != key by {
            assert(t[i] == v[i + 1]);
        }
        lemma_plain(t, key);
    }
}

/// Preferences have a row for each view: those of the sidebar in its order and
/// switched on, then the others, switched off. The views that are switched on
/// are the sidebar's.
pub proof fn rows_are_the_sidebars(p: &Prefs, rows: Vec<ViewRow>, side: Vec<Nav>, on: Vec<Nav>)
    requires
        call_ensures(sidebar_rows, (p,), rows),
        call_ensures(Prefs::sidebar_views, (p,), side),
        call_ensures(visible_views, (&rows,), on),
    ensures
        rows@.len() >= side@.len(),
        forall|i: int|
            0 <= i < side@.len() ==> (#[trigger] rows@[i]).on && rows@[i].nav@ == side@[i]@,
        forall|i: int|
            side@.len() <= i < rows@.len() ==> !(#[trigger] rows@[i]).on && !(rows@[i].nav is List),
        navs(on@) == navs(side@),
{
    let shown = navs(side@);
    let v = crate::settings::view_rows(rows@);
    let f = |n: NavView| !shown.contains(n);
    let smart = crate::nav::smart_views();
    let rest = smart.filter(f);
    let a = shown.map_values(|n: NavView| (n, true));
    let b = rest.map_values(|n: NavView| (n, false));
    assert(v == a + b);
    assert(v.len() == rows@.len());
    assert forall|i: int| 0 <= i < side@.len() implies (#[trigger] rows@[i]).on && rows@[i].nav@
        == side@[i]@ by {
        assert(v[i] == a[i]);
        assert(shown[i] == side@[i]@);
    }
    assert forall|i: int| side@.len() <= i < rows@.len() implies !(#[trigger] rows@[i]).on && !(
    rows@[i].nav is List) by {
        let k = i - side@.len();
        assert(v[i] == b[k]);
        assert(rest[k] == rows@[i].nav@);
        lemma_kept(smart, f, rest[k]);
        assert(rest.contains(rest[k]));
    }
    let q = |x: (NavView, bool)| x.1;
    lemma_first_pass(a, b, q);
    assert(crate::settings::row_navs(a) =~= shown);
}

proof fn lemma_first_pass(
    a: Seq<(NavView, bool)>,
    b: Seq<(NavView, bool)>,
    q: spec_fn((NavView, bool)) -> bool,
)
    requires
        forall|i: int| 0 <= i < a.len() ==> q(#[trigger] a[i]),
        forall|i: int| 0 <= i < b.len() ==> !q(#[trigger] b[i]),
    ensures
        (a + b).filter(q) == a,
    decreases a.len() + b.len(),
{
    reveal(Seq::filter);
    let s = a + b;
    if b.len() > 0 {
        assert(s.drop_last() =~= a + b.drop_last());
        lemma_first_pass(a, b.drop_last(), q);
        assert(s.last() == b.last());
    } else if a.len() > 0 {
        assert(s.drop_last() =~= a.drop_last() + b);
        lemma_first_pass(a.drop_last(), b, q);
        assert(s.last() == a.last());
        assert(a.drop_last().push(a.last()) =~= a);
    } else {
        assert(s =~= a);
    }
}

// -- settings -----------------------------------------------------------------------------------

/// The inbox can be any list that can be written to, and is the one that says
/// so.
pub proof fn inboxes_can_be_written<'a>(lists: &'a [ListView], r: (Vec<&'a ListView>, usize))
    requires
        call_ensures(inbox_choices, (lists,), r),
    ensures
        forall|l: ListView| #[trigger]
            plain_lists(r.0@).contains(l) == (lists@.contains(l) && l.writable),
        (exists|i: int| 0 <= i < r.0@.len() && (#[trigger] r.0@[i]).inbox) ==> r.1 < r.0@.len()
            && r.0@[r.1 as int].inbox,
        forall|i: int| 0 <= i < r.1 ==> !(#[trigger] r.0@[i]).inbox,
{
    let v = plain_lists(r.0@);
    assert forall|l: ListView| #[trigger] v.contains(l) == (lists@.contains(l) && l.writable) by {
        lemma_kept(lists@, can_write(), l);
    }
    assert(v.len() == r.0@.len());
    assert forall|i: int| 0 <= i < v.len() implies #[trigger] v[i] == *r.0@[i] by {}
    lemma_inbox_place(v);
    if exists|i: int| 0 <= i < r.0@.len() && (#[trigger] r.0@[i]).inbox {
        let i = choose|i: int| 0 <= i < r.0@.len() && (#[trigger] r.0@[i]).inbox;
        assert(v[i].inbox);
        assert(v[r.1 as int] == *r.0@[r.1 as int]);
    }
    assert forall|i: int| 0 <= i < r.1 implies !(#[trigger] r.0@[i]).inbox by {
        assert(v[i] == *r.0@[i]);
    }
}

proof fn lemma_inbox_place(s: Seq<ListView>)
    ensures
        0 <= inbox_place(s) <= s.len(),
        forall|i: int| 0 <= i < inbox_place(s) ==> !(#[trigger] s[i]).inbox,
        forall|k: int| 0 <= k < s.len() && (#[trigger] s[k]).inbox ==> inbox_place(s) <= k
            && s[inbox_place(s)].inbox,
        inbox_place(s) > 0 ==> inbox_place(s) < s.len() && s[inbox_place(s)].inbox,
    decreases s.len(),
{
    if s.len() > 0 && !s[0].inbox && exists|i: int| 0 <= i < s.len() && (#[trigger] s[i]).inbox {
        let t = s.skip(1);
        lemma_inbox_place(t);
        let i = choose|i: int| 0 <= i < s.len() && (#[trigger] s[i]).inbox;
        assert(t[i - 1] == s[i]);
        let p = inbox_place(t);
        assert(t[p] == s[p + 1]);
        assert forall|k: int| 0 <= k < inbox_place(s) implies !(#[trigger] s[k]).inbox by {
            if k > 0 {
                assert(t[k - 1] == s[k]);
            }
        }
        assert forall|k: int| 0 <= k < s.len() && (#[trigger] s[k]).inbox implies inbox_place(s)
            <= k by {
            assert(t[k - 1] == s[k]);
        }
    }
}

/// How often to check: half a minute, one, two, five or fifteen, and every
/// minute where it is set to something else.
pub proof fn intervals_are_as_chosen(secs: u64, at: usize, i: usize, r: Option<SettingsChange>)
    requires
        call_ensures(interval_choice, (secs,), i),
        call_ensures(choose_interval, (at,), r),
    ensures
        secs == 30 ==> i == 0,
        secs == 60 ==> i == 1,
        secs == 120 ==> i == 2,
        secs == 300 ==> i == 3,
        secs == 900 ==> i == 4,
        !(secs == 30 || secs == 120 || secs == 300 || secs == 900) ==> i == 1,
        r is Some <==> at < 5,
        r matches Some(c) ==> c.interval == Some(
            if at == 0 {
                30u64
            } else if at == 1 {
                60
            } else if at == 2 {
                120
            } else if at == 3 {
                300
            } else {
                900
            },
        ),
        r matches Some(c) ==> c.inbox is None && c.snooze is None && c.alarm_at_due is None
            && c.alarm_before is None && c.notes is None,
        // What was chosen shows as chosen.
        r matches Some(c) ==> c.interval == Some(secs) ==> i == at,
{
    let v = crate::settings::INTERVALS@;
    assert(v[0].0 == 30 && v[1].0 == 60 && v[2].0 == 120 && v[3].0 == 300 && v[4].0 == 900);
    assert(i == 0 || i == 1 || i == 2 || i == 3 || i == 4);
}

/// A task rings by default as it is set, and never where that is off; choosing
/// a time sets it.
pub proof fn reminders_ring_as_set(
    s: &Settings,
    words: &str,
    r: (Vec<(Option<u32>, String)>, usize),
    m: Option<u32>,
    c: SettingsChange,
)
    requires
        call_ensures(reminder_times, (s, words), r),
        call_ensures(choose_reminder, (m,), c),
    ensures
        r.1 < r.0@.len(),
        !s.alarm_at_due ==> r.0@[r.1 as int].0 is None,
        s.alarm_at_due ==> r.0@[r.1 as int].0 == Some(s.alarm_before),
        r.0@.len() >= 9,
        r.0@[0].0 is None && r.0@[0].1@ == "None"@,
        r.0@[1].0 == Some(0u32) && r.0@[1].1@ == "At due time"@,
        r.0@[2].0 == Some(5u32) && r.0@[2].1@ == "5 min before"@,
        r.0@[3].0 == Some(10u32) && r.0@[3].1@ == "10 min before"@,
        r.0@[4].0 == Some(15u32) && r.0@[4].1@ == "15 min before"@,
        r.0@[5].0 == Some(30u32) && r.0@[5].1@ == "30 min before"@,
        r.0@[6].0 == Some(60u32) && r.0@[6].1@ == "1 h before"@,
        r.0@[7].0 == Some(120u32) && r.0@[7].1@ == "2 h before"@,
        r.0@[8].0 == Some(1440u32) && r.0@[8].1@ == "1 day before"@,
        r.0@.len() > 9 ==> r.0@.len() == 10 && r.1 == 9 && r.0@[9].1@ == words@ + " before"@,
        c.alarm_at_due == Some(m is Some),
        c.alarm_before == m,
        c.inbox is None && c.interval is None && c.snooze is None && c.notes is None,
{
    let v = crate::settings::time_views(r.0@);
    assert(v.len() == r.0@.len());
    assert forall|i: int| 0 <= i < v.len() implies #[trigger] v[i] == (r.0@[i].0, r.0@[i].1@) by {}
    assert(v[0].0 is None && v[1].0 == Some(0u32) && v[2].0 == Some(5u32) && v[3].0 == Some(10u32));
    assert(v[4].0 == Some(15u32) && v[5].0 == Some(30u32) && v[6].0 == Some(60u32));
    assert(v[7].0 == Some(120u32) && v[8].0 == Some(1440u32));
    if r.0@.len() > 9 {
        assert(v[9] == (r.0@[9].0, r.0@[9].1@));
    }
    if r.0@.len() > 9 && r.1 < 9 {
        let k = r.1 as int;
        assert(k == 0 || k == 1 || k == 2 || k == 3 || k == 4 || k == 5 || k == 6 || k == 7 || k
            == 8);
        assert(crate::settings::is_usual(v[k].0));
    }
}

/// Snooze has the usual lengths to pick from and those that are picked, from
/// the shortest. One is picked or let go at a time, the last one never.
pub proof fn snooze_lengths_are_picked(
    s: &Settings,
    all: Vec<u64>,
    chosen: &Vec<u64>,
    m: u64,
    can: bool,
    on: bool,
    r: Option<Vec<u64>>,
)
    requires
        call_ensures(snooze_lengths, (s,), all),
        call_ensures(can_pick, (chosen, m), can),
        call_ensures(snooze_toggled, (chosen, m, on), r),
    ensures
        forall|x: u64| #[trigger]
            all@.contains(x) <==> s.snooze@.contains(x) || x == 5 || x == 10 || x == 15 || x == 30
                || x == 60 || x == 120 || x == 1440,
        forall|i: int, j: int| 0 <= i < j < all@.len() ==> #[trigger] all@[i] < #[trigger] all@[j],
        can <==> chosen@.contains(m) || chosen@.len() <= 2,
        r is None <==> !on && forall|x: u64| #[trigger] chosen@.contains(x) ==> x == m,
        r matches Some(v) ==> forall|x: u64| #[trigger]
            v@.contains(x) <==> (if x == m {
                on
            } else {
                chosen@.contains(x)
            }),
        r matches Some(v) ==> forall|i: int, j: int|
            0 <= i < j < v@.len() ==> #[trigger] v@[i] <= #[trigger] v@[j],
{
    let p = picked_lengths(chosen@, m, on);
    let f = other_than(m);
    assert forall|x: u64| #[trigger] p.contains(x) <==> (if x == m {
        on
    } else {
        chosen@.contains(x)
    }) by {
        lemma_kept(chosen@, f, x);
        if on && !chosen@.contains(m) {
            assert(p[chosen@.len() as int] == m);
            if chosen@.contains(x) {
                let i = choose|i: int| 0 <= i < chosen@.len() && chosen@[i] == x;
                assert(p[i] == x);
            }
            if p.contains(x) && x != m {
                let i = choose|i: int| 0 <= i < p.len() && p[i] == x;
                assert(chosen@[i] == x);
            }
        }
    }
    if p.len() > 0 {
        assert(p.contains(p[0]));
    }
    if !on && forall|x: u64| #[trigger] chosen@.contains(x) ==> x == m {
        assert(p.len() == 0);
    }
    if r is None {
        assert forall|x: u64| #[trigger] chosen@.contains(x) implies x == m by {
            assert(!p.contains(x));
        }
        assert(!p.contains(m));
    }
    crate::sorting::arranged_keeps_all(p, shorter());
    assert(orders(shorter(), p));
    crate::sorting::arranged_is_in_order(p, shorter());
    if let Some(v) = r {
        assert(v@ == arranged(p, shorter()));
        assert forall|x: u64| #[trigger] v@.contains(x) <==> (if x == m {
            on
        } else {
            chosen@.contains(x)
        }) by {
            assert(arranged(p, shorter()).contains(x) == p.contains(x));
        }
        assert forall|i: int, j: int| 0 <= i < j < v@.len() implies #[trigger] v@[i]
            <= #[trigger] v@[j] by {
            assert(shorter()(v@[i], v@[j]));
        }
    }
}

/// What rows of Preferences say.
pub proof fn rows_say_how_it_is(
    status: Option<&StatusView>,
    account: Option<(String, String)>,
    dir: &str,
    there: bool,
    notes: String,
    config: Option<&str>,
    reads: bool,
    login: String,
    background: bool,
    by_compositor: bool,
    switchable: bool,
)
    requires
        call_ensures(account_row, (status,), account),
        call_ensures(notes_row, (dir, there), notes),
        call_ensures(login_row, (config, reads), login),
        call_ensures(login_switchable, (background, by_compositor), switchable),
    ensures
        account is Some <==> (status matches Some(s) && !(s.state is NoAccount)),
        account matches Some(a) ==> (status->0.server matches Some(h) ==> a.0@ == h@),
        account matches Some(a) ==> status->0.server is None ==> a.0@ == "Nextcloud"@,
        account matches Some(a) ==> (status->0.username matches Some(u) ==> a.1@ == u@),
        there ==> notes@ == dir@,
        !there ==> notes@ == dir@ + " doesn't exist"@,
        config matches Some(path) ==> login@ == "Started by "@ + path@,
        config is None && reads ==> login@ == "Open in the tray when you log in"@,
        config is None && !reads ==> login@
            == "This desktop doesn't run autostart entries: start <tt>"@
            + "asst-gtk --background"@ + "</tt> from its config"@,
        switchable <==> background && !by_compositor,
{
}

/// The default priority's choice stands at its level.
pub proof fn priorities_are_chosen(level: u8, r: u8)
    requires
        call_ensures(priority_choice, (level,), r),
    ensures
        r < 4,
        1 <= level <= 4 ==> r + 1 == level,
        level == 0 ==> r == 0,
        level > 4 ==> r == 3,
{
}

} // verus!
