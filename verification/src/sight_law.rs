//! What is on view in the window, and what is held back from it.

use vstd::prelude::*;

use crate::nav::{Nav, NavView, Sort, ViewOpts, navs};
use crate::plan::Picked;
use crate::prefs_law::lemma_kept;
use crate::task::{ListView, TaskView, unref};
use crate::text::texts;
use crate::window::Window;

verus! {

/// A task is held back: it is about to be deleted, or its list is put away and
/// is not the one on view.
pub open spec fn held_back(w: Window, t: TaskView) -> bool {
    texts(w.hidden@).contains(t.href@) || (texts(w.prefs.archived@).contains(t.list@) && !(
    w.nav matches Nav::List(h) && h@ == t.list@))
}

/// The view has the tasks that are not held back, open ones and completed
/// ones, and every list.
pub proof fn views_have_what_is_not_held_back(w: &Window, r: Picked, t: TaskView, l: ListView)
    requires
        call_ensures(Window::view_data, (w,), r),
    ensures
        r@.open.contains(t) <==> w.open@.contains(t) && !held_back(*w, t),
        r@.done.contains(t) <==> w.done().contains(t) && !held_back(*w, t),
        r@.sunday_first == w.prefs.sunday_first,
        r@.lists.contains(l) <==> w.lists@.contains(l),
{
    lemma_kept(w.open@, w.shows(), t);
    lemma_kept(w.done(), w.shows(), t);
    let a = w.prefs.arrangement(w.lists@);
    let p = crate::window::put_away(texts(w.prefs.archived@));
    let b = w.lists@.filter(p);
    crate::prefs::arrangement_keeps_lists(w.prefs, w.lists@);
    lemma_kept(w.lists@, p, l);
    let z = a + b;
    if a.contains(l) {
        let i = choose|i: int| 0 <= i < a.len() && a[i] == l;
        assert(z[i] == l);
    }
    if b.contains(l) {
        let i = choose|i: int| 0 <= i < b.len() && b[i] == l;
        assert(z[a.len() + i] == l);
    }
    if z.contains(l) {
        let i = choose|i: int| 0 <= i < z.len() && z[i] == l;
        if i < a.len() {
            assert(a[i] == l);
        } else {
            assert(b[i - a.len()] == l);
        }
    }
}

/// What is open and not about to be deleted can be found.
pub proof fn deleted_tasks_are_not_found(w: &Window, r: Vec<&TaskView>, t: TaskView)
    requires
        call_ensures(Window::visible_open, (w,), r),
    ensures
        unref(r@).contains(t) <==> w.open@.contains(t) && !texts(w.hidden@).contains(t.href@),
{
    lemma_kept(w.open@, crate::window::not_hidden(texts(w.hidden@)), t);
}

/// Completed tasks are needed in Completed, and where a view is to show them.
pub proof fn completed_tasks_are_needed(w: &Window, r: bool, o: ViewOpts)
    requires
        call_ensures(Window::needs_completed, (w,), r),
        call_ensures(crate::prefs::Prefs::view_opts, (&w.prefs, &w.nav), o),
    ensures
        r <==> w.nav is Completed || o.show_completed,
{
}

/// Views go as in the sidebar: first the views, then the lists.
pub proof fn views_go_as_in_the_sidebar<'a>(
    w: &'a Window,
    r: Vec<Nav>,
    side: Vec<Nav>,
    lists: Vec<&'a ListView>,
    all: &'a [ListView],
)
    requires
        call_ensures(Window::nav_order, (w,), r),
        call_ensures(crate::prefs::Prefs::sidebar_views, (&w.prefs,), side),
        all@ == w.lists@,
        call_ensures(crate::prefs::Prefs::arrange, (&w.prefs, all), lists),
    ensures
        r@.len() == side@.len() + lists@.len(),
        forall|i: int| 0 <= i < side@.len() ==> (#[trigger] r@[i])@ == side@[i]@,
        forall|i: int|
            0 <= i < lists@.len() ==> (#[trigger] r@[side@.len() + i])@ == NavView::List(
                lists@[i].href@,
            ),
{
    let v = navs(r@);
    let s = navs(side@);
    let p = crate::prefs::plain_lists(lists@);
    assert(v.len() == r@.len() && s.len() == side@.len() && p.len() == lists@.len());
    assert forall|i: int| 0 <= i < side@.len() implies (#[trigger] r@[i])@ == side@[i]@ by {
        assert(v[i] == r@[i]@);
        assert(s[i] == side@[i]@);
    }
    assert forall|i: int| 0 <= i < lists@.len() implies (#[trigger] r@[side@.len() + i])@
        == NavView::List(lists@[i].href@) by {
        assert(v[side@.len() + i] == r@[side@.len() + i]@);
        assert(p[i] == *lists@[i]);
    }
}

/// The list on view is the one with the address, and a list that was put away
/// says so.
pub proof fn lists_on_view<'a>(w: &'a Window, r: Option<&'a ListView>, away: bool, i: int)
    requires
        call_ensures(Window::shown_list, (w,), r),
        call_ensures(Window::nav_archived, (w,), away),
    ensures
        w.nav matches Nav::List(h) ==> crate::name_law::first_with(w.lists@, i, h@) ==> r == Some(
            &w.lists@[i],
        ),
        !(w.nav is List || w.nav is Inbox) ==> r is None,
        away <==> (w.nav matches Nav::List(h) && texts(w.prefs.archived@).contains(h@)),
{
    if let Nav::List(h) = w.nav {
        if crate::name_law::first_with(w.lists@, i, h@) {
            crate::name_law::lemma_list_at(w.lists@, i, h@);
        }
    }
}

/// A view says when something keeps tasks out of it: a priority or a list that
/// is not shown, or a span of dates; and it has the order that was chosen, or
/// its own.
pub proof fn filters_are_said(o: &ViewOpts, r: bool, nav: &Nav, sort: Sort)
    requires
        call_ensures(ViewOpts::filtered, (o,), r),
        call_ensures(ViewOpts::sort_for, (o, nav), sort),
    ensures
        r <==> !o.priorities@[0] || !o.priorities@[1] || !o.priorities@[2] || !o.priorities@[3]
            || !(o.due is Any) || o.hide_lists@.len() > 0,
        o.sort matches Some(s) ==> sort == s,
        o.sort is None ==> sort == (if *nav is Inbox || *nav is List {
            Sort::Custom
        } else {
            Sort::Due
        }),
{
    let p = o@.priorities;
    assert(p =~= o.priorities@);
    assert(p.len() == 4);
    if p.contains(false) {
        let i = choose|i: int| 0 <= i < p.len() && p[i] == false;
        assert(i == 0 || i == 1 || i == 2 || i == 3);
    }
    if !p[0] || !p[1] || !p[2] || !p[3] {
        let i: int = if !p[0] {
            0
        } else if !p[1] {
            1
        } else if !p[2] {
            2
        } else {
            3
        };
        assert(p[i] == false);
    }
    assert(o@.hide_lists.len() == o.hide_lists@.len());
}

} // verus!
