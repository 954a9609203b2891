//! What opens and closes in the window: tasks in place, the card, views in the
//! sidebar.

use vstd::prelude::*;

use crate::message_law::{asks_nothing, asks_only, came_of};
use crate::nav::{NavView, navs};
use crate::prefs_law::lemma_kept;
use crate::text::texts;
use crate::update::{Do, Msg, Seen, Step};
use crate::window::Window;

verus! {

// -- tasks --------------------------------------------------------------------------------------

/// A row that is clicked opens its task in place, with the keyboard in its
/// title; where tasks are selected it is selected instead.
pub proof fn rows_open_their_task(w: &mut Window, href: String, seen: &Seen, r: Step)
    requires
        came_of(w, Msg::Activate(href), seen, r),
        old(w).known(href@),
        old(w).editing is None,
    ensures
        !old(w).select_mode ==> {
            &&& final(w).editing == Some(href) && final(w).cursor == Some(href)
            &&& final(w).expand && final(w).refocus is Editor
            &&& asks_only(r, Do::ShowTask(href))
            &&& final(w).selected == old(w).selected
        },
        old(w).select_mode ==> {
            &&& final(w).editing is None && asks_nothing(r)
            &&& texts(final(w).selected@).contains(href@) <==> !texts(old(w).selected@).contains(
                href@,
            )
        },
{
    let s = texts(old(w).selected@);
    crate::keyed::without_leaves_others(s, href@);
    if !s.contains(href@) {
        assert(s.push(href@)[s.len() as int] == href@);
    }
}

/// Opening a task opens that one, and no other is open then.
pub proof fn tasks_are_opened(w: &mut Window, href: String, seen: &Seen, r: Step)
    requires
        came_of(w, Msg::Open(href), seen, r),
        old(w).task(href@) is Some,
        old(w).editing is None,
    ensures
        final(w).editing == Some(href),
        final(w).cursor == Some(href),
        final(w).editor.open matches Some(o) && o.href == old(w).task(href@)->0.href && o.summary
            == old(w).task(href@)->0.task.summary && o.description == old(w).task(
            href@,
        )->0.task.description,
        asks_only(r, Do::ShowTask(href)),
        final(w).nav == old(w).nav && final(w).prefs == old(w).prefs,
{
}

/// A task that is asked for from elsewhere shows the window, and is gone to in
/// its list and opened there; where it is completed, its list shows what is.
/// One that is not known is asked for first.
pub proof fn tasks_are_gone_to(w: &mut Window, msg: Msg, seen: &Seen, r: Step)
    requires
        came_of(w, msg, seen, r),
    ensures
        msg matches Msg::OpenTask(h) ==> *final(w) == *old(w) && r.acts@ == seq![
            Do::Present,
            Do::Send(Msg::Reveal(h)),
        ],
        msg matches Msg::Reveal(h) ==> old(w).task(h@) is None ==> *final(w) == *old(w)
            && asks_only(r, Do::Get(h)),
        msg matches Msg::Reveal(h) ==> (old(w).task(h@) matches Some(t) ==> {
            &&& final(w).nav@ == NavView::List(t.list@)
            &&& final(w).editing == Some(h) && final(w).cursor == Some(h)
            &&& final(w).adding is None
            &&& r.acts@ == seq![Do::Save, Do::ShowTask(h)]
            &&& !t.task.open ==> final(w).opts(NavView::List(t.list@)).show_completed
            &&& t.task.open ==> final(w).prefs.views == old(w).prefs.views
        }),
{
}

/// Closing the task that is open folds its card first, and takes it away once
/// it has folded.
pub proof fn tasks_are_closed(w: &mut Window, msg: Msg, seen: &Seen, r: Step, h: String)
    requires
        came_of(w, msg, seen, r),
        old(w).editing == Some(h),
        old(w).folding is None,
    ensures
        msg is CloseEditor ==> r.acts@.len() > 0 && r.acts@[0] is CollapseEditor,
        msg is CloseEditor && seen.fold_ms > 0 ==> r.acts@.len() == 2 && r.acts@[1] == Do::Later(
            seen.fold_ms,
            Msg::Folded(h),
        ),
{
}

// -- the card and the selection -----------------------------------------------------------------

/// The card is opened with text that was pasted, and closed: it folds where
/// things move, and goes once it has.
pub proof fn the_card_is_filled_and_closed(w: &mut Window, msg: Msg, seen: &Seen, r: Step)
    requires
        came_of(w, msg, seen, r),
    ensures
        msg matches Msg::AddText(t) ==> final(w).adding is Some && r.after@ == seq![
            Do::FocusCard,
            Do::FillCard(t),
        ],
        msg is HideAdd && !(seen.card_mapped && old(w).adding is Some && seen.row_ms > 0)
            ==> final(w).adding is None && asks_only(r, Do::FocusColumn),
        msg is HideAdd && seen.card_mapped && old(w).adding is Some && seen.row_ms > 0
            ==> final(w).add_folding && final(w).adding == old(w).adding && r.acts@.last()
            == Do::Later(seen.row_ms, Msg::AddFolded),
        msg is AddFolded && old(w).add_folding ==> final(w).adding is None
            && !final(w).add_folding,
        msg is AddFolded && !old(w).add_folding ==> *final(w) == *old(w),
{
}

/// Selecting starts with nothing taken from what is selected, and ends with
/// nothing selected.
pub proof fn selecting_starts_and_ends(w: &mut Window, on: bool, seen: &Seen, r: Step)
    requires
        came_of(w, Msg::SelectMode(on), seen, r),
    ensures
        final(w).select_mode == on,
        !on ==> final(w).selected@.len() == 0 && asks_nothing(r),
        on ==> final(w).selected == old(w).selected && final(w).editing is None,
{
}

// -- the window ---------------------------------------------------------------------------------

/// The window loads anew when it is told to, and asks for a sync when it gets
/// the keyboard, at most every half minute.
pub proof fn the_window_keeps_up(w: &mut Window, msg: Msg, seen: &Seen, r: Step)
    requires
        came_of(w, msg, seen, r),
    ensures
        msg is Refresh ==> r.acts@.len() > 0 && r.acts@[0] == Do::Load(final(w).load_generation)
            && final(w).load_generation == old(w).load_generation + 1,
        msg is Tick ==> *final(w) == *old(w) && asks_nothing(r),
        msg is Focused && !old(w).loaded ==> *final(w) == *old(w) && asks_nothing(r),
        msg is Focused && old(w).loaded && old(w).last_focus_sync is None ==> asks_only(
            r,
            Do::Sync(false),
        ) && final(w).last_focus_sync == Some(seen.at),
        msg is Focused && old(w).loaded ==> (old(w).last_focus_sync matches Some(t) ==> (if seen.at
            > t + 30000 {
            asks_only(r, Do::Sync(false)) && final(w).last_focus_sync == Some(seen.at)
        } else {
            asks_nothing(r) && *final(w) == *old(w)
        })),
        msg is ShowWindow ==> asks_only(r, Do::Present),
        msg matches Msg::Preferences(p) ==> asks_only(r, Do::Preferences(p)),
        msg is Resume ==> *final(w) == *old(w) && asks_nothing(r) && r.draws == old(w).dirty,
        msg is ThemeChanged && old(w).editing is None ==> asks_only(r, Do::NewEditor)
            && final(w).shown is None,
        msg is ThemeChanged && old(w).editing is Some ==> *final(w) == *old(w) && asks_nothing(r),
{
}

/// A list is edited where there is one, and copied with its name over its
/// tasks.
pub proof fn lists_are_edited_and_copied(w: &mut Window, msg: Msg, seen: &Seen, r: Step, i: int)
    requires
        came_of(w, msg, seen, r),
    ensures
        msg matches Msg::EditList(h) ==> crate::name_law::first_with(old(w).lists@, i, h@)
            ==> asks_only(r, Do::EditListDialog(h)),
        msg matches Msg::EditList(h) ==> (forall|j: int|
            0 <= j < old(w).lists@.len() ==> (#[trigger] old(w).lists@[j]).href@ != h@)
            ==> asks_nothing(r),
        msg matches Msg::CopyList(h) ==> crate::name_law::first_with(old(w).lists@, i, h@)
            ==> r.acts@.len() == 1 && (r.acts@[0] matches Do::CopyTasks(head, hrefs, said) && head@
            == "## "@ + old(w).lists@[i].name@ + "\n\n"@),
{
    let h = match msg {
        Msg::EditList(h) => h@,
        Msg::CopyList(h) => h@,
        _ => Seq::empty(),
    };
    if crate::name_law::first_with(old(w).lists@, i, h) {
        crate::name_law::lemma_list_at(old(w).lists@, i, h);
    }
    if forall|j: int| 0 <= j < old(w).lists@.len() ==> (#[trigger] old(w).lists@[j]).href@ != h {
        crate::name_law::lemma_no_list(old(w).lists@, h);
    }
}

/// A view that is taken out of the sidebar is out of it, and the others stay
/// as they were; it can be put back from what is said. A sidebar that is set
/// has the views it was set to.
pub proof fn views_leave_the_sidebar(w: &mut Window, msg: Msg, seen: &Seen, r: Step, n: NavView)
    requires
        came_of(w, msg, seen, r),
        !(n is List),
    ensures
        msg matches Msg::HideView(v) ==> (side(*final(w)).contains(n) <==> side(*old(w)).contains(n)
            && n != v@),
        msg matches Msg::HideView(v) ==> r.acts@.len() == 2 && r.acts@[0] is Save && (
        r.acts@[1] matches Do::UndoToast(t, secs, undo, gone) && undo@.len() == 1 && (
        undo@[0] matches Msg::SetSidebar(back) && navs(back@) == side(*old(w)))),
        msg matches Msg::SetSidebar(v) ==> (forall|i: int|
            0 <= i < v@.len() ==> !(#[trigger] v@[i] is List)) ==> side(*final(w)) == navs(v@)
            && asks_only(r, Do::Save),
{
    let before = side(*old(w));
    lemma_no_lists(crate::prefs::sidebar_keys(old(w).prefs.sidebar));
    if let Msg::HideView(v) = msg {
        let f = |m: NavView| m != v@;
        let left = before.filter(f);
        assert forall|i: int| 0 <= i < left.len() implies !(#[trigger] left[i] is List) by {
            lemma_kept(before, f, left[i]);
            assert(left.contains(left[i]));
            let k = choose|k: int| 0 <= k < before.len() && before[k] == left[i];
            assert(!(before[k] is List));
        }
        crate::prefs::sidebar_round_trip(left);
        lemma_kept(before, f, n);
    }
    if let Msg::SetSidebar(v) = msg {
        if forall|i: int| 0 <= i < v@.len() ==> !(#[trigger] v@[i] is List) {
            let s = navs(v@);
            assert forall|i: int| 0 <= i < s.len() implies !(#[trigger] s[i] is List) by {
                assert(s[i] == v@[i]@);
                assert(!(v@[i] is List));
            }
            crate::prefs::sidebar_round_trip(s);
        }
    }
}

/// The views in a window's sidebar.
pub open spec fn side(w: Window) -> Seq<NavView> {
    crate::prefs::sidebar_of(crate::prefs::sidebar_keys(w.prefs.sidebar))
}

proof fn lemma_no_lists(s: Option<Seq<Seq<char>>>)
    ensures
        forall|i: int|
            0 <= i < crate::prefs::sidebar_of(s).len() ==> !(#[trigger] crate::prefs::sidebar_of(
                s,
            )[i] is List),
{
    if let Some(k) = s {
        lemma_smart(k);
    }
}

proof fn lemma_smart(k: Seq<Seq<char>>)
    ensures
        forall|i: int|
            0 <= i < crate::prefs::sidebar_of(Some(k)).len() ==> !(
            #[trigger] crate::prefs::sidebar_of(Some(k))[i] is List),
    decreases k.len(),
{
    if k.len() > 0 {
        lemma_smart(k.drop_last());
        let f = |x: Seq<char>| crate::prefs::smart_view(x);
        let a = k.drop_last().filter_map(f);
        assert(crate::prefs::sidebar_of(Some(k.drop_last())) == a);
        let b = k.filter_map(f);
        assert(crate::prefs::sidebar_of(Some(k)) == b);
        assert forall|i: int| 0 <= i < b.len() implies !(#[trigger] b[i] is List) by {
            if i < a.len() {
                assert(b[i] == a[i]);
                assert(!(crate::prefs::sidebar_of(Some(k.drop_last()))[i] is List));
            }
        }
    }
}

} // verus!
