//! What holds of the window over several messages.

use vstd::prelude::*;

use crate::handle::{
    archived_with, archives, deletes, handles, hides_view, navigates, sets_sidebar, undeletes,
};
use crate::keyed::{with_keeps_others, with_text, without, without_leaves_others};
use crate::nav::{Nav, NavView, navs};
use crate::prefs::{sidebar_keys, sidebar_of, sidebar_round_trip, smart_view};
use crate::steps::asks;
use crate::task::TaskView;
use crate::text::texts;
use crate::update::{Msg, Seen, Step};
use crate::window::Window;

verus! {

proof fn lemma_passes(s: Seq<TaskView>, p: spec_fn(TaskView) -> bool)
    ensures
        forall|i: int| 0 <= i < s.filter(p).len() ==> p(#[trigger] s.filter(p)[i]),
    decreases s.len(),
{
    reveal(Seq::filter);
    if s.len() > 0 {
        lemma_passes(s.drop_last(), p);
    }
}

/// What is hidden, or in an archived list that is not on view, is in no view.
pub proof fn hidden_is_in_no_view(w: Window, i: int)
    ensures
        0 <= i < w.data().open.len() ==> {
            let t = w.data().open[i];
            !texts(w.hidden@).contains(t.href@) && (texts(w.prefs.archived@).contains(t.list@)
                ==> w.nav@ == NavView::List(t.list@))
        },
        0 <= i < w.data().done.len() ==> {
            let t = w.data().done[i];
            !texts(w.hidden@).contains(t.href@) && (texts(w.prefs.archived@).contains(t.list@)
                ==> w.nav@ == NavView::List(t.list@))
        },
{
    lemma_passes(w.open@, w.shows());
    lemma_passes(w.done(), w.shows());
}

/// A deleted task is gone from every view at once.
pub proof fn deleted_is_off_screen(
    old: Window,
    href: String,
    seen: Seen,
    new: Window,
    r: Step,
    i: int,
)
    requires
        deletes(old, href, seen, new, r),
        old.task(href@) is Some,
    ensures
        0 <= i < new.data().open.len() ==> new.data().open[i].href@ != href@,
        0 <= i < new.data().done.len() ==> new.data().done[i].href@ != href@,
{
    with_keeps_others(texts(old.hidden@), href@);
    hidden_is_in_no_view(new, i);
}

/// Undoing a deletion takes it back: what is hidden is what was, and the toast
/// that goes after deletes nothing.
pub proof fn undeleting_undoes(
    a: Window,
    b: Window,
    c: Window,
    href: String,
    seen: Seen,
    r: Step,
    s: Step,
    d: Window,
    t: Step,
)
    requires
        !texts(a.hidden@).contains(href@),
        a.task(href@) is Some,
        deletes(a, href, seen, b, r),
        undeletes(b, href@, c, s),
        handles(c, Msg::DeleteNow(href), seen, d, t),
    ensures
        texts(c.hidden@) == texts(a.hidden@),
        d == c,
        asks(t, Seq::empty()),
{
    let h = texts(a.hidden@);
    assert(texts(b.hidden@) == h.push(href@));
    lemma_pushed_out(h, href@);
    assert(texts(c.hidden@) == h);
}

proof fn lemma_pushed_out(h: Seq<Seq<char>>, x: Seq<char>)
    requires
        !h.contains(x),
    ensures
        without(h.push(x), x) == h,
{
    reveal(Seq::filter);
    without_leaves_others(h, x);
    assert(h.push(x).drop_last() =~= h);
    assert(h.push(x).last() == x);
}

/// Undoing the archiving of a list, or its coming back, takes it back: the
/// same lists are put away.
pub proof fn archiving_undoes(
    a: Window,
    b: Window,
    c: Window,
    href: String,
    on: bool,
    r: Step,
    s: Step,
    list: Seq<char>,
)
    requires
        archives(a, href, on, b, r),
        archives(b, href, !on, c, s),
        texts(a.prefs.archived@).contains(href@) == !on,
        crate::nav::list_at(a.lists@, href@) is Some,
    ensures
        texts(c.prefs.archived@).contains(list) == texts(a.prefs.archived@).contains(list),
{
    let x = texts(a.prefs.archived@);
    lemma_archived(x, href@, on, list);
    lemma_archived(texts(b.prefs.archived@), href@, !on, list);
}

proof fn lemma_archived(s: Seq<Seq<char>>, href: Seq<char>, on: bool, list: Seq<char>)
    ensures
        archived_with(s, href, on).contains(list) == (if list == href {
            on
        } else {
            s.contains(list)
        }),
{
    without_leaves_others(s, href);
    let w = without(s, href);
    with_keeps_others(w, href);
    assert(archived_with(s, href, on) == (if on {
        with_text(w, href)
    } else {
        w
    }));
    if on {
        assert(with_text(w, href).contains(list) <==> w.contains(list) || list == href);
    }
    if list != href {
        assert(w.contains(list) <==> s.contains(list));
    }
}

/// Undoing the hiding of a view puts the sidebar back as it was.
pub proof fn hiding_a_view_undoes(
    a: Window,
    b: Window,
    c: Window,
    nav: Nav,
    before: Seq<Nav>,
    r: Step,
    s: Step,
)
    requires
        hides_view(a, nav, b, r),
        navs(before) == sidebar_of(sidebar_keys(a.prefs.sidebar)),
        sets_sidebar(b, before, c, s),
    ensures
        sidebar_of(sidebar_keys(c.prefs.sidebar)) == sidebar_of(sidebar_keys(a.prefs.sidebar)),
{
    lemma_sidebar_smart(sidebar_keys(a.prefs.sidebar));
    sidebar_round_trip(navs(before));
}

proof fn lemma_sidebar_smart(k: Option<Seq<Seq<char>>>)
    ensures
        forall|i: int| 0 <= i < sidebar_of(k).len() ==> !(#[trigger] sidebar_of(k)[i] is List),
{
    match k {
        Some(keys) => {
            lemma_smart(keys);
        },
        None => {},
    }
}

proof fn lemma_smart(keys: Seq<Seq<char>>)
    ensures
        ({
            let s = keys.filter_map(|k: Seq<char>| smart_view(k));
            forall|i: int| 0 <= i < s.len() ==> !(#[trigger] s[i] is List)
        }),
    decreases keys.len(),
{
    let f = |k: Seq<char>| smart_view(k);
    if keys.len() > 0 {
        lemma_smart(keys.drop_last());
        let t = keys.drop_last().filter_map(f);
        let s = keys.filter_map(f);
        assert(s == t + (match f(keys.last()) {
            Some(x) => seq![x],
            None => seq![],
        }));
        assert forall|i: int| 0 <= i < s.len() implies !(#[trigger] s[i] is List) by {
            if i < t.len() {
                assert(s[i] == t[i]);
            }
        }
    }
}

/// On another view nothing is open, selected or being added, and the view is
/// the one remembered.
pub proof fn another_view_starts_clean(old: Window, nav: Nav, seen: Seen, new: Window, r: Step)
    requires
        old.wf(),
        nav@ != old.nav@,
        navigates(old, nav, seen, new, r),
    ensures
        new.nav@ == nav@,
        new.editing is None,
        new.folding is None,
        new.adding is None,
        new.selected@.len() == 0,
        new.prefs.view@ == crate::nav::key_of(nav@),
{
}

} // verus!
