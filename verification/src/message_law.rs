//! What the window does when something happens in it: to which task, to which
//! list, and what is asked of the daemon.

use vstd::prelude::*;

use crate::change::{Change, SetDue};
use crate::due::Moved;
use crate::nav::{Nav, NavView, key_of};
use crate::prefs::opts_at;
use crate::steps::on_its_way;
use crate::text::texts;
use crate::update::{Batch, Do, Msg, Seen, Step};
use crate::window::{Completing, Window};

verus! {

/// A message that came, and what came of it.
pub open spec fn came_of(w: &mut Window, msg: Msg, seen: &Seen, r: Step) -> bool {
    &&& w.wf() && w.counts_on() && seen.wf()
    &&& call_ensures(Window::update, (w, msg, seen), r)
}

/// Nothing is asked for.
pub open spec fn asks_nothing(r: Step) -> bool {
    r.acts@.len() == 0 && r.edits@.len() == 0 && r.after@.len() == 0
}

/// One thing is asked for, and no other.
pub open spec fn asks_only(r: Step, d: Do) -> bool {
    r.acts@ == seq![d] && r.edits@.len() == 0 && r.after@.len() == 0
}

// -- one task -----------------------------------------------------------------------------------

/// What is asked for a task is asked of that task: to open it again, to copy
/// it, to write it to a file, to make a note for it.
pub proof fn tasks_are_asked_for_by_address(w: &mut Window, msg: Msg, seen: &Seen, r: Step)
    requires
        came_of(w, msg, seen, r),
    ensures
        msg matches Msg::Reopen(h) ==> asks_only(r, Do::Reopen(h)),
        msg matches Msg::Duplicate(h) ==> asks_only(r, Do::Duplicate(h)),
        msg matches Msg::SaveIcs(h) ==> asks_only(r, Do::Ics(h)),
        msg matches Msg::NewNote(h, t) ==> asks_only(r, Do::NewNote(h, t)),
        msg matches Msg::Add(s) ==> asks_only(r, Do::Add(s)),
        msg is Paste ==> asks_only(r, Do::ReadClipboard),
        msg matches Msg::PlaceSearch(q) ==> asks_only(r, Do::Places(q)),
{
}

/// A change is sent as it was made, for the task it was made to; its words
/// show at once, and nothing else of any task is changed here.
pub proof fn changes_are_sent(w: &mut Window, href: String, c: Change, seen: &Seen, r: Step, i: int)
    requires
        came_of(w, Msg::Edit(href, c), seen, r),
    ensures
        r.acts@.len() == 1 && (r.acts@[0] matches Do::Edit(h, d, said) && h == href && d == c
            && said@.len() == 0),
        final(w).open@.len() == old(w).open@.len(),
        0 <= i < old(w).open@.len() ==> {
            let (a, b) = (old(w).open@[i], final(w).open@[i]);
            &&& a.href@ != href@ ==> b == a
            &&& a.href@ == href@ && (forall|j: int|
                0 <= j < i ==> (#[trigger] old(w).open@[j]).href@ != href@) ==> {
                &&& b.task.summary == (match c.summary {
                    Some(s) => s,
                    None => a.task.summary,
                })
                &&& b.task.description == (match c.description {
                    Some(d) => d,
                    None => a.task.description,
                })
            }
            &&& b.href == a.href && b.list == a.list && b.task.due == a.task.due && b.task.level
                == a.task.level && b.task.open == a.task.open
        },
{
    crate::window::lemma_place(old(w).open@, href@);
    if 0 <= i < old(w).open@.len() && old(w).open@[i].href@ == href@ {
        let p = crate::reorder::place(old(w).open@, href@);
        assert(p is Some);
    }
}

/// A task that is checked is completed: at once, or a moment later, when it
/// can still be unchecked; one that is on its way is left alone.
pub proof fn checked_tasks_are_completed(w: &mut Window, href: String, seen: &Seen, r: Step)
    requires
        came_of(w, Msg::Check(href, true), seen, r),
        old(w).is_open(href@),
        on_its_way(*old(w), href@) is None,
    ensures
        r.acts@.len() > 0,
        !old(w).prefs.complete_later ==> r.acts@.last() == Do::Complete(href) && (on_its_way(
            *final(w),
            href@,
        ) matches Some(Completing::Sent(_))),
        old(w).prefs.complete_later ==> r.acts@.last() == Do::Later(
            1200,
            Msg::CompleteNow(href, (old(w).serial + 1) as u64),
        ) && on_its_way(*final(w), href@) == Some(Completing::Waiting((old(w).serial + 1) as u64)),
{
    let (serial, p) = ((old(w).serial + 1) as u64, crate::keyed::pairs(old(w).completing@));
    crate::keyed::states_are_kept(p, href@, Completing::Waiting(serial));
    crate::update::lemma_written_known((old(w).open@, old(w).done()), r.edits@, href@);
    let mid = Window { completing: old(w).completing, serial: old(w).serial, ..*final(w) };
    let due = crate::steps::due_of(mid, href@);
    crate::keyed::states_are_kept(p, href@, Completing::Sent(due));
    assert(mid.is_open(href@));
}

/// A task whose moment is over is completed, if it still waits since then.
pub proof fn waiting_tasks_are_completed(
    w: &mut Window,
    href: String,
    serial: u64,
    seen: &Seen,
    r: Step,
)
    requires
        came_of(w, Msg::CompleteNow(href, serial), seen, r),
    ensures
        on_its_way(*old(w), href@) == Some(Completing::Waiting(serial)) ==> asks_only(
            r,
            Do::Complete(href),
        ),
        on_its_way(*old(w), href@) != Some(Completing::Waiting(serial)) ==> asks_nothing(r)
            && *final(w) == *old(w),
{
}

/// A task that is unchecked while it waits stays; one that was done is opened
/// again.
pub proof fn unchecked_tasks_stay(w: &mut Window, href: String, seen: &Seen, r: Step)
    requires
        came_of(w, Msg::Check(href, false), seen, r),
    ensures
        on_its_way(*old(w), href@) matches Some(Completing::Waiting(_)) ==> asks_nothing(r)
            && on_its_way(*final(w), href@) is None,
        on_its_way(*old(w), href@) is None && !old(w).is_open(href@) ==> asks_only(
            r,
            Do::Send(Msg::Reopen(href)),
        ),
        on_its_way(*old(w), href@) is None && old(w).is_open(href@) ==> asks_nothing(r),
{
    let p = crate::keyed::pairs(old(w).completing@);
    crate::keyed::states_are_kept(p, href@, Completing::Waiting(0));
    assert(r.acts@ =~= Seq::<Do>::empty() + crate::steps::check_acts(*old(w), href, false));
}

/// A task that is deleted is hidden and held: it goes for good only when that
/// was not undone by then.
pub proof fn deleted_tasks_are_held(
    w: &mut Window,
    href: String,
    seen: &Seen,
    r: Step,
    h: Seq<char>,
)
    requires
        came_of(w, Msg::Delete(href), seen, r),
    ensures
        !old(w).known(href@) ==> *final(w) == *old(w) && asks_nothing(r),
        old(w).known(href@) ==> {
            &&& texts(final(w).hidden@).contains(href@)
            &&& h != href@ ==> texts(final(w).hidden@).contains(h) == texts(
                old(w).hidden@,
            ).contains(h)
            &&& r.acts@.len() == 1
            &&& r.acts@[0] matches Do::UndoToast(text, secs, undo, gone) && undo@ == seq![
                Msg::Undelete(href),
            ] && gone@ == seq![Msg::DeleteNow(href)]
        },
{
    crate::keyed::with_keeps_others(texts(old(w).hidden@), href@);
}

/// A delete that was undone shows the task again; one that was not goes
/// through.
pub proof fn deletes_are_undone_or_done(
    w: &mut Window,
    v: &mut Window,
    href: String,
    seen: &Seen,
    a: Step,
    b: Step,
    h: Seq<char>,
)
    requires
        came_of(w, Msg::Undelete(href), seen, a),
        came_of(v, Msg::DeleteNow(href), seen, b),
    ensures
        !texts(final(w).hidden@).contains(href@) && asks_nothing(a),
        h != href@ ==> texts(final(w).hidden@).contains(h) == texts(old(w).hidden@).contains(h),
        texts(old(v).hidden@).contains(href@) && old(v).known(href@) ==> asks_only(
            b,
            Do::Delete(href),
        ),
        !(texts(old(v).hidden@).contains(href@) && old(v).known(href@)) ==> asks_nothing(b),
{
    crate::keyed::without_leaves_others(texts(old(w).hidden@), href@);
}

/// A task is moved to another list, and not to the one it is in; dropped on a
/// view it goes into that list, on that day, or is completed.
pub proof fn dropped_tasks_go_there(
    w: &mut Window,
    v: &mut Window,
    href: String,
    list: String,
    nav: Nav,
    seen: &Seen,
    a: Step,
    b: Step,
)
    requires
        came_of(w, Msg::Move(href, list), seen, a),
        came_of(v, Msg::DropTask(href, nav), seen, b),
    ensures
        old(w).task(href@) is None ==> asks_nothing(a),
        old(w).task(href@) matches Some(t) ==> (t.list@ == list@ ==> asks_nothing(a)) && (t.list@
            != list@ ==> a.acts@.len() == 1 && (a.acts@[0] matches Do::Edit(h, c, said) && h == href
            && c.list == Some(list) && c.summary is None && c.due is None && c.priority is None
            && c.rrule is None && c.sort_order is None)),
        *final(w) == *old(w) && *final(v) == *old(v),
        old(v).task(href@) is Some ==> {
            &&& nav matches Nav::List(l) ==> asks_only(b, Do::Send(Msg::Move(href, l)))
            &&& nav is Completed ==> asks_only(b, Do::Send(Msg::Complete(href)))
            &&& nav is Today ==> moves_to_day(b, href, seen.now.day())
            &&& nav is Tomorrow ==> moves_to_day(b, href, seen.now.day() + 1)
            &&& nav is Anytime || nav is All || nav is Repeating || nav is Scheduled
                ==> asks_nothing(b)
        },
        old(v).task(href@) is None ==> asks_nothing(b),
{
}

/// A task is asked to move to a day, and nothing else of it to change.
pub open spec fn moves_to_day(r: Step, href: String, day: int) -> bool {
    &&& r.acts@.len() == 1 && r.edits@.len() == 0
    &&& r.acts@[0] matches Do::Send(Msg::Edit(h, c)) && h == href && changes_day(c, day)
}

/// A change of the date alone, to a day.
pub open spec fn changes_day(c: Change, day: int) -> bool {
    &&& c.due matches Some(SetDue::Move(m)) && (match m {
        Moved::Day(d) => d.ce == day,
        Moved::At { date, .. } => date.ce == day,
    })
    &&& c.summary is None && c.description is None && c.due_text is None && c.rrule is None
    &&& c.repeat_text is None && c.priority is None && c.list is None && c.url is None
    &&& c.alarms is None && c.linked_notes is None && c.sort_order is None
}

/// A task is copied as its title, with its notes under it.
pub proof fn copied_tasks_are_text(w: &mut Window, href: String, seen: &Seen, r: Step)
    requires
        came_of(w, Msg::Copy(href), seen, r),
    ensures
        old(w).task(href@) matches Some(t) ==> r.acts@.len() == 2 && (r.acts@[0] matches Do::Clipboard(
            s,
        ) && s@ == (match t.task.description {
            Some(d) => t.task.summary@ + "\n\n"@ + d@,
            None => t.task.summary@,
        })),
        old(w).task(href@) is None ==> asks_nothing(r),
{
}

/// New numbers are shown at once and sent, each for its task.
pub proof fn numbers_are_sent(w: &mut Window, v: Vec<(String, i64)>, seen: &Seen, r: Step, i: int)
    requires
        came_of(w, Msg::Reorder(v), seen, r),
        0 <= i < v@.len(),
    ensures
        r.acts@.len() == 1 && (r.acts@[0] matches Do::EditAll(e, said) && e@.len() == v@.len()
            && e@[i].href == v@[i].0 && e@[i].change.sort_order == Some(v@[i].1)
            && e@[i].change.summary is None && e@[i].change.due is None && e@[i].change.list
            is None),
{
}

// -- many tasks ---------------------------------------------------------------------------------

/// What is done with the selected tasks is done to all of them and to no
/// others; then nothing is selected.
pub proof fn all_selected_are_done(w: &mut Window, b: Batch, seen: &Seen, r: Step, i: int)
    requires
        came_of(w, Msg::Batch(b), seen, r),
        old(w).selected@.len() > 0,
        forall|k: int|
            0 <= k < old(w).selected@.len() ==> old(w).known((#[trigger] old(w).selected@[k])@),
        0 <= i < old(w).selected@.len(),
    ensures
        final(w).selected@.len() == 0 && !final(w).select_mode,
        r.acts@.len() == 1,
        b is Complete ==> (r.acts@[0] matches Do::CompleteAll(v, said) && v@ == old(w).selected@),
        b is Delete ==> texts(final(w).hidden@).contains(old(w).selected@[i]@),
        !(b is Delete) ==> final(w).hidden == old(w).hidden,
        b matches Batch::Priority(n) ==> (r.acts@[0] matches Do::EditAll(e, said) && e@.len()
            == old(w).selected@.len() && e@[i].href@ == old(w).selected@[i]@
            && e@[i].change.priority == Some(n) && e@[i].change.due is None && e@[i].change.list
            is None),
        b matches Batch::Move(l) ==> (r.acts@[0] matches Do::EditAll(e, said) && e@.len()
            == old(w).selected@.len() && e@[i].href@ == old(w).selected@[i]@ && e@[i].change.list
            == Some(l) && e@[i].change.due is None && e@[i].change.priority is None),
        b matches Batch::Date(d) ==> (r.acts@[0] matches Do::Send(Msg::EditMany(e)) && e@.len()
            == old(w).selected@.len() && e@[i].href@ == old(w).selected@[i]@ && changes_day(
            e@[i].change,
            d.ce as int,
        )),
{
    let s = old(w).selected@;
    let p = |h: String| old(w).known(h@);
    lemma_all_pass(s, p);
    assert(crate::batch::picked(*old(w)) == s);
    crate::batch::with_all_keeps(texts(old(w).hidden@), texts(s));
    assert(texts(s)[i] == s[i]@);
    assert(texts(s).contains(s[i]@));
}

proof fn lemma_all_pass(s: Seq<String>, p: spec_fn(String) -> bool)
    requires
        forall|i: int| 0 <= i < s.len() ==> p(#[trigger] s[i]),
    ensures
        s.filter(p) == s,
    decreases s.len(),
{
    reveal(Seq::filter);
    if s.len() > 0 {
        let t = s.drop_last();
        assert forall|i: int| 0 <= i < t.len() implies p(#[trigger] t[i]) by {
            assert(t[i] == s[i]);
        }
        lemma_all_pass(t, p);
        assert(p(s[s.len() - 1]));
        assert(t.push(s.last()) =~= s);
    } else {
        assert(s.filter(p) =~= s);
    }
}

/// Nothing selected, nothing is done.
pub proof fn none_selected_none_done(w: &mut Window, b: Batch, seen: &Seen, r: Step)
    requires
        came_of(w, Msg::Batch(b), seen, r),
        old(w).selected@.len() == 0,
    ensures
        *final(w) == *old(w) && asks_nothing(r),
{
}

/// A task is put in the selection or taken out of it; the others stay.
pub proof fn selecting_leaves_the_others(
    w: &mut Window,
    href: String,
    seen: &Seen,
    r: Step,
    h: Seq<char>,
)
    requires
        came_of(w, Msg::SelectToggle(href), seen, r),
    ensures
        final(w).select_mode,
        texts(final(w).selected@).contains(href@) == !texts(old(w).selected@).contains(href@),
        h != href@ ==> texts(final(w).selected@).contains(h) == texts(old(w).selected@).contains(h),
{
    let s = texts(old(w).selected@);
    crate::keyed::without_leaves_others(s, href@);
    if !s.contains(href@) {
        let t = s.push(href@);
        assert(t[s.len() as int] == href@);
        if s.contains(h) {
            let k = choose|k: int| 0 <= k < s.len() && s[k] == h;
            assert(t[k] == h);
        }
        if t.contains(h) && h != href@ {
            let k = choose|k: int| 0 <= k < t.len() && t[k] == h;
            assert(s[k] == h);
        }
    }
}

// -- views and lists ----------------------------------------------------------------------------

/// Going to a view shows that view, and it is remembered; nothing is being
/// added or selected there yet.
pub proof fn going_shows_the_view(w: &mut Window, nav: Nav, seen: &Seen, r: Step)
    requires
        came_of(w, Msg::Navigate(nav), seen, r),
    ensures
        final(w).nav@ == nav@,
        old(w).nav@ != nav@ ==> {
            &&& final(w).prefs.view@ == key_of(nav@)
            &&& final(w).adding is None && !final(w).select_mode && final(w).selected@.len() == 0
            &&& final(w).editing is None
            &&& r.acts@.len() > 0 && r.acts@[0] is Save
        },
        old(w).nav@ == nav@ ==> *final(w) == *old(w),
{
}

/// How a view is shown is set for that view alone, and kept.
pub proof fn options_are_the_views_own(
    w: &mut Window,
    o: crate::nav::ViewOpts,
    seen: &Seen,
    r: Step,
    n: NavView,
)
    requires
        came_of(w, Msg::SetViewOpts(o), seen, r),
    ensures
        opts_at(final(w).prefs.views@, key_of(old(w).nav@)) == o@,
        n != old(w).nav@ ==> opts_at(final(w).prefs.views@, key_of(n)) == opts_at(
            old(w).prefs.views@,
            key_of(n),
        ),
        r.acts@.len() > 0 && r.acts@[0] is Save,
        final(w).nav == old(w).nav,
{
    assert(opts_at(final(w).prefs.views@, key_of(old(w).nav@)) == o@);
}

/// A list is saved, deleted or asked about by its address; one that was shown
/// and is deleted gives way to Today.
pub proof fn lists_are_asked_for_by_address(w: &mut Window, msg: Msg, seen: &Seen, r: Step)
    requires
        came_of(w, msg, seen, r),
    ensures
        msg is NewList ==> asks_only(r, Do::NewListDialog),
        msg matches Msg::SaveList(h, n, c) ==> asks_only(r, Do::SaveList(h, n, c)),
        msg matches Msg::DeleteCompleted(l) ==> asks_only(r, Do::DeleteCompleted(l)),
        msg matches Msg::DeleteList(h) ==> r.acts@.len() == 1 && (r.acts@[0] matches Do::DeleteList(
            x,
            said,
        ) && x == h) && (old(w).nav@ == NavView::List(h@) ==> final(w).nav@ == NavView::Today) && (
        old(w).nav@ != NavView::List(h@) ==> final(w).nav@ == old(w).nav@),
        msg matches Msg::ReorderLists(v) ==> final(w).prefs.list_order == v && asks_only(
            r,
            Do::Save,
        ),
        msg matches Msg::SetSettings(c) ==> asks_only(r, Do::SetSettings(c)),
        msg matches Msg::SignIn(s) ==> asks_only(r, Do::Login(s)) && final(w).signing_in is Some,
        msg is CancelSignIn ==> asks_nothing(r) && final(w).signing_in is None,
        msg is SignOut ==> asks_only(r, Do::Logout),
        msg is SyncNow ==> asks_only(r, Do::Sync(true)),
        msg is QuickFind ==> asks_only(r, Do::QuickFind),
        msg is Shortcuts ==> asks_only(r, Do::Shortcuts),
        msg is About ==> asks_only(r, Do::About),
        msg is ToggleSidebar ==> asks_only(r, Do::ShowSidebar(!seen.sidebar)),
        msg matches Msg::SetPrefs(p) ==> final(w).prefs == p && r.acts@.len() >= 2 && r.acts@[0]
            is Save,
{
}

/// Nothing is deleted without a question that says how much: of a list how
/// many tasks are open in it, of completed tasks how many there are.
pub proof fn deleting_is_asked_about(
    w: &mut Window,
    v: &mut Window,
    href: String,
    list: Option<String>,
    seen: &Seen,
    a: Step,
    b: Step,
)
    requires
        came_of(w, Msg::AskDeleteList(href), seen, a),
        came_of(v, Msg::AskDeleteCompleted(list), seen, b),
    ensures
        a.acts@.len() <= 1 && b.acts@.len() <= 1,
        a.acts@.len() == 1 ==> (a.acts@[0] matches Do::DeleteListDialog(h, n) && h == href),
        b.acts@.len() == 1 ==> (b.acts@[0] is Toast || (b.acts@[0] matches Do::DeleteCompletedDialog(
            n,
            from,
            l,
        ) && l == list && n > 0)),
        *final(w) == *old(w) && *final(v) == *old(v),
{
}

/// An archived list is among those put away, and one brought back is not; the
/// others stay as they are, and it can be undone.
pub proof fn lists_are_put_away(
    w: &mut Window,
    href: String,
    on: bool,
    seen: &Seen,
    r: Step,
    h: Seq<char>,
)
    requires
        came_of(w, Msg::Archive(href, on), seen, r),
        crate::nav::list_at(old(w).lists@, href@) is Some,
    ensures
        texts(final(w).prefs.archived@).contains(href@) == on,
        h != href@ ==> texts(final(w).prefs.archived@).contains(h) == texts(
            old(w).prefs.archived@,
        ).contains(h),
        r.acts@.len() == 2 && r.acts@[0] is Save && (r.acts@[1] matches Do::UndoToast(t, n, undo, gone)
            && undo@ == seq![Msg::Archive(href, !on)] && gone@.len() == 0),
{
    let s = texts(old(w).prefs.archived@);
    crate::keyed::without_leaves_others(s, href@);
    let t = crate::keyed::without(s, href@);
    if on {
        let u = t.push(href@);
        assert(u[t.len() as int] == href@);
        if t.contains(h) {
            let k = choose|k: int| 0 <= k < t.len() && t[k] == h;
            assert(u[k] == h);
        }
        if u.contains(h) && h != href@ {
            let k = choose|k: int| 0 <= k < u.len() && u[k] == h;
            assert(t[k] == h);
        }
    }
}

// -- the window ---------------------------------------------------------------------------------

/// Closing the window leaves it in the tray where it runs in the background
/// and something shows the tray; otherwise it quits, and then what was deleted
/// and not undone goes first.
pub proof fn closing_quits_or_hides(w: &mut Window, v: &mut Window, seen: &Seen, a: Step, b: Step)
    requires
        came_of(w, Msg::CloseWindow, seen, a),
        came_of(v, Msg::Quit, seen, b),
    ensures
        old(w).prefs.background && seen.tray && seen.tray_online ==> a.acts@.len() > 0
            && a.acts@.last() is HideWindow,
        !(old(w).prefs.background && seen.tray && seen.tray_online) ==> asks_only(
            a,
            Do::Send(Msg::Quit),
        ),
        b.acts@.len() > 0 && (b.acts@.last() matches Do::Finish(v2, wait) && v2@ == old(v).hidden@
            && wait == (old(v).hidden@.len() > 0 || old(v).editor.title_waits
            || old(v).editor.notes_wait)),
{
}

/// A click on the tray puts away a window in use, and shows any other.
pub proof fn tray_clicks_show_or_hide(w: &mut Window, seen: &Seen, r: Step)
    requires
        came_of(w, Msg::TrayClick, seen, r),
    ensures
        seen.visible && seen.active ==> r.acts@.len() > 0 && r.acts@.last() is HideWindow,
        !(seen.visible && seen.active) ==> asks_only(r, Do::Present),
{
}

/// The window's size is kept while it is on screen, and of a maximized one
/// only that it is.
pub proof fn sizes_are_kept(w: &mut Window, seen: &Seen, r: Step)
    requires
        came_of(w, Msg::Quit, seen, r),
    ensures
        seen.visible ==> final(w).prefs.maximized == seen.maximized,
        seen.visible && !seen.maximized ==> final(w).prefs.width == seen.width
            && final(w).prefs.height == seen.height,
        seen.visible && seen.maximized ==> final(w).prefs.width == old(w).prefs.width
            && final(w).prefs.height == old(w).prefs.height,
        !seen.visible ==> final(w).prefs == old(w).prefs,
{
}

/// The card is opened where it was asked for, or where the view on screen
/// adds: in its list, or on its day.
pub proof fn the_card_opens_where_it_belongs(
    w: &mut Window,
    t: Option<crate::addcard::Target>,
    seen: &Seen,
    r: Step,
)
    requires
        came_of(w, Msg::ShowAdd(t), seen, r),
    ensures
        final(w).adding matches Some(x) && (t matches Some(y) ==> x@ == y@) && (t is None
            ==> match old(w).nav@ {
            NavView::List(h) => x@ == crate::addcard::TargetView::List(h),
            NavView::Today | NavView::Scheduled => x@ matches crate::addcard::TargetView::Day(d)
                && d.ce == seen.now.day(),
            NavView::Tomorrow => x@ matches crate::addcard::TargetView::Day(d) && d.ce
                == seen.now.day() + 1,
            NavView::Inbox => !(x@ is Day),
            _ => x@ is Anywhere,
        }),
        final(w).editing is None,
{
}

} // verus!
