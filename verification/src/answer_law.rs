//! What the window makes of the daemon's answers.

use vstd::prelude::*;

use crate::answer::Answer;
use crate::message_law::{asks_nothing, asks_only};
use crate::nav::{Nav, list_at};
use crate::prefs_law::lemma_kept;
use crate::task::{ListView, TaskView};
use crate::text::texts;
use crate::update::{Do, Msg, Seen, Step};
use crate::view_law::goes_to_inbox;
use crate::window::{Completing, Window};

verus! {

/// An answer that came, and what came of it.
pub open spec fn came_back(w: &mut Window, a: Answer, seen: &Seen, r: Step) -> bool {
    &&& w.wf() && w.counts_on() && a.wf() && seen.wf()
    &&& call_ensures(Window::answer, (w, a, seen), r)
}

/// Something is said, and nothing else is asked for.
pub open spec fn only_says(r: Step, s: Seq<char>) -> bool {
    r.acts@.len() == 1 && (r.acts@[0] matches Do::Toast(t) && t@ == s) && r.edits@.len() == 0
        && r.after@.len() == 0
}

/// A title as it is said: in quotes, and cut after forty characters.
pub open spec fn as_said(s: Seq<char>) -> Seq<char> {
    "“"@ + (if s.len() <= 40 {
        s
    } else {
        s.take(40) + "…"@
    }) + "”"@
}

proof fn lemma_as_said(s: Seq<char>)
    ensures
        as_said(s) == crate::steps::in_quotes(s),
{
    reveal_strlit("…");
    reveal_strlit("”");
    reveal_strlit("…”");
    reveal_strlit("“");
    assert(as_said(s) =~= crate::steps::in_quotes(s));
}

// -- loading ------------------------------------------------------------------------------------

/// What was loaded last is what the window has. A list on view that is gone
/// makes way for Today.
pub proof fn loads_are_shown(w: &mut Window, a: Answer, seen: &Seen, r: Step)
    requires
        came_back(w, a, seen, r),
    ensures
        a matches Answer::Loaded(g, Ok(l)) ==> g == old(w).load_generation ==> {
            &&& final(w).lists == l.lists && final(w).open == l.open
            &&& final(w).status == Some(l.status)
            &&& final(w).error is None && final(w).loaded
            &&& asks_only(r, Do::CardLists)
            &&& !(old(w).nav is List) ==> final(w).nav == old(w).nav
            &&& old(w).nav matches Nav::List(h) ==> {
                let there = exists|i: int|
                    0 <= i < l.lists@.len() && (#[trigger] l.lists@[i]).href@ == h@;
                &&& there ==> final(w).nav == old(w).nav
                &&& !there ==> final(w).nav is Today
            }
        },
        a matches Answer::Loaded(g, Err(e)) ==> g == old(w).load_generation ==> {
            &&& final(w).error == Some(e) && asks_nothing(r)
            &&& final(w).lists == old(w).lists && final(w).open == old(w).open && final(w).nav
                == old(w).nav
        },
        a matches Answer::CompletedLoaded(g, Ok(c)) ==> g == old(w).completed_generation
            ==> final(w).completed == Some(c) && final(w).open == old(w).open && asks_nothing(r),
        a matches Answer::CompletedLoaded(g, Err(e)) ==> g == old(w).completed_generation
            ==> *final(w) == *old(w) && only_says(r, e@),
{
    if let Answer::Loaded(g, Ok(l)) = a {
        if let Nav::List(h) = old(w).nav {
            lemma_there(l.lists@, h@);
        }
    }
}

proof fn lemma_there(lists: Seq<ListView>, h: Seq<char>)
    ensures
        list_at(lists, h) is Some <==> exists|i: int|
            0 <= i < lists.len() && (#[trigger] lists[i]).href@ == h,
    decreases lists.len(),
{
    if lists.len() > 0 {
        let t = lists.skip(1);
        lemma_there(t, h);
        if lists[0].href@ != h {
            if exists|i: int| 0 <= i < lists.len() && (#[trigger] lists[i]).href@ == h {
                let i = choose|i: int| 0 <= i < lists.len() && (#[trigger] lists[i]).href@ == h;
                assert(t[i - 1] == lists[i]);
            }
            if exists|i: int| 0 <= i < t.len() && (#[trigger] t[i]).href@ == h {
                let i = choose|i: int| 0 <= i < t.len() && (#[trigger] t[i]).href@ == h;
                assert(lists[i + 1] == t[i]);
            }
        }
    }
}

/// What changed on the server is loaded, under a number of its own, and so is
/// what is completed where that is shown.
pub proof fn changes_are_loaded(w: &mut Window, a: Answer, seen: &Seen, r: Step)
    requires
        came_back(w, a, seen, r),
    ensures
        a is Changed ==> r.acts@.len() > 0 && r.acts@[0] == Do::Load(final(w).load_generation)
            && final(w).load_generation == old(w).load_generation + 1,
        a is Changed && old(w).completed is Some ==> r.acts@.len() == 2 && r.acts@[1]
            == Do::LoadCompleted(final(w).completed_generation) && final(w).completed_generation
            == old(w).completed_generation + 1,
        a is Changed ==> final(w).open == old(w).open && final(w).lists == old(w).lists
            && final(w).nav == old(w).nav,
{
}

// -- the account --------------------------------------------------------------------------------

/// The status is what the daemon says it is; signed in elsewhere, everything
/// is loaded.
pub proof fn statuses_are_learned(w: &mut Window, a: Answer, seen: &Seen, r: Step)
    requires
        came_back(w, a, seen, r),
    ensures
        a matches Answer::Status(s) ==> {
            let came = (old(w).status matches Some(x) && x.state is NoAccount) && !(s.state
                is NoAccount);
            &&& final(w).status == Some(s)
            &&& !came ==> asks_nothing(r) && final(w).load_generation == old(w).load_generation
            &&& came ==> r.acts@.len() > 0 && r.acts@[0] == Do::Load(final(w).load_generation)
                && final(w).load_generation == old(w).load_generation + 1
        },
{
}

/// Signing in goes through the browser. Once it is done, that is said, and
/// everything is loaded; a failure is kept to be shown.
pub proof fn signing_in_ends(w: &mut Window, a: Answer, seen: &Seen, r: Step)
    requires
        came_back(w, a, seen, r),
    ensures
        a matches Answer::LoginUrl(Ok(u)) ==> final(w).signing_in == Some(u) && asks_only(
            r,
            Do::Launch(u),
        ),
        a matches Answer::LoginUrl(Err(e)) ==> final(w).signing_in is None
            && final(w).sign_in_error == Some(e) && asks_nothing(r),
        a matches Answer::LoginDone(ok, m) ==> final(w).signing_in is None,
        a matches Answer::LoginDone(true, m) ==> final(w).sign_in_error is None && r.acts@.len() > 2
            && (r.acts@[0] matches Do::Toast(t) && t@ == "Signed in"@) && r.acts@[1] == Do::Load(
            final(w).load_generation,
        ) && r.acts@.last() is LoadSettings,
        a matches Answer::LoginDone(false, m) ==> final(w).sign_in_error == Some(m)
            && asks_nothing(r),
{
    if let Answer::LoginDone(ok, m) = a {
        if ok {
            assert(r.acts@.subrange(1, r.acts@.len() - 1)[0] == r.acts@[1]);
        }
    }
}

// -- what was done ------------------------------------------------------------------------------

/// What was done is said where there is something to say. What failed is said
/// too, and then everything is loaded again.
pub proof fn what_was_done_is_said(w: &mut Window, a: Answer, seen: &Seen, r: Step)
    requires
        came_back(w, a, seen, r),
    ensures
        a matches Answer::Toast(Ok(s)) ==> *final(w) == *old(w) && (if s@.len() > 0 {
            only_says(r, s@)
        } else {
            asks_nothing(r)
        }),
        a matches Answer::Toast(Err(e)) ==> r.acts@.len() > 1 && r.acts@[0] == Do::Toast(e)
            && r.acts@[1] == Do::Load(final(w).load_generation) && final(w).load_generation
            == old(w).load_generation + 1,
        a matches Answer::Settings(Ok(s)) ==> final(w).settings == Some(s) && asks_nothing(r),
        a matches Answer::Settings(Err(e)) ==> *final(w) == *old(w) && (if old(
            w,
        ).settings is Some {
            only_says(r, e@)
        } else {
            asks_nothing(r)
        }),
        a matches Answer::Places(Ok(p)) ==> asks_only(r, Do::ShowPlaces(p)),
        a matches Answer::Places(Err(e)) ==> only_says(r, e@),
        a is Closed ==> asks_only(r, Do::Close) && final(w).hidden@.len() == 0,
{
}

/// A task that was completed can be opened again from what is said; one that
/// repeats is open still, and its next date is said. One that was not
/// completed is no longer on its way.
pub proof fn completed_tasks_are_said(w: &mut Window, a: Answer, seen: &Seen, r: Step)
    requires
        came_back(w, a, seen, r),
    ensures
        a matches Answer::Completed(h, Ok(p)) ==> {
            let said = "Completed "@ + as_said(p.0.task.summary@);
            &&& *final(w) == *old(w)
            &&& p.0.task.open && p.0.task.due is Some ==> only_says(r, said + " · next "@ + p.1@)
            &&& !p.0.task.open ==> r.acts@.len() == 1 && (r.acts@[0] matches Do::UndoToast(
                s,
                secs,
                undo,
                gone,
            ) && s@ == said && secs == 4 && undo@ == seq![Msg::Reopen(p.0.href)] && gone@.len()
                == 0)
        },
        a matches Answer::Completed(h, Err(e)) ==> only_says(r, e@) && crate::steps::on_its_way(
            *final(w),
            h@,
        ) is None,
        a matches Answer::Completed(h, Err(e)) ==> forall|g: Seq<char>|
            g != h@ ==> #[trigger] crate::steps::on_its_way(*final(w), g)
                == crate::steps::on_its_way(*old(w), g),
{
    if let Answer::Completed(h, res) = a {
        if let Ok(p) = res {
            lemma_as_said(p.0.task.summary@);
        }
        crate::keyed::states_are_kept(
            crate::keyed::pairs(old(w).completing@),
            h@,
            Completing::Waiting(0),
        );
    }
}

/// A task is on the view: in the list or the inbox on view, or due by today.
pub open spec fn on_view(w: Window, t: TaskView, today: int) -> bool {
    match w.nav {
        Nav::List(h) => t.list@ == h@,
        Nav::Inbox => goes_to_inbox(w.lists@, t.list@),
        Nav::Today => t.task.due matches Some(d) && d.date.ce <= today,
        _ => true,
    }
}

/// A task that was added is said where it went, unless it is on the view; one
/// that was there already is said to be.
pub proof fn added_tasks_are_said(w: &mut Window, a: Answer, seen: &Seen, r: Step)
    requires
        came_back(w, a, seen, r),
    ensures
        a matches Answer::Added(x) ==> *final(w) == *old(w),
        a matches Answer::Added(Err(e)) ==> only_says(r, e@),
        a matches Answer::Added(Ok(x)) ==> x.existed ==> only_says(
            r,
            "Already there: "@ + as_said(x.task.task.summary@),
        ),
        a matches Answer::Added(Ok(x)) ==> !x.existed ==> on_view(
            *old(w),
            x.task,
            seen.now.day(),
        ) ==> asks_nothing(r),
        a matches Answer::Added(Ok(x)) ==> !x.existed ==> !on_view(*old(w), x.task, seen.now.day())
            ==> x.task.task.due is Some ==> only_says(
            r,
            "Added to "@ + x.task.list_name@ + (", "@ + x.label@),
        ),
        a matches Answer::Added(Ok(x)) ==> !x.existed ==> !on_view(*old(w), x.task, seen.now.day())
            ==> x.task.task.due is None ==> only_says(r, "Added to "@ + x.task.list_name@),
{
    if let Answer::Added(Ok(x)) = a {
        lemma_as_said(x.task.task.summary@);
        crate::view_law::lemma_inbox_is(old(w).lists@, x.task.list@);
        let s = "Added to "@ + x.task.list_name@;
        assert(s + Seq::<char>::empty() =~= s);
    }
}

/// A list that was saved is gone to when it is new; else it is loaded.
pub proof fn new_lists_are_gone_to(w: &mut Window, a: Answer, seen: &Seen, r: Step)
    requires
        came_back(w, a, seen, r),
    ensures
        a matches Answer::ListSaved(Err(e)) ==> only_says(r, e@) && *final(w) == *old(w),
        a matches Answer::ListSaved(Ok(l)) ==> r.acts@.len() > 0 && r.acts@[0] == Do::Load(
            final(w).load_generation,
        ),
        a matches Answer::ListSaved(Ok(l)) ==> {
            let known = exists|i: int|
                0 <= i < old(w).lists@.len() && (#[trigger] old(w).lists@[i]).href@ == l.href@;
            &&& known ==> final(w).nav == old(w).nav && final(w).lists == old(w).lists
            &&& !known ==> final(w).nav == Nav::List(l.href) && final(w).lists@ == old(
                w,
            ).lists@.push(l)
        },
{
    if let Answer::ListSaved(Ok(l)) = a {
        lemma_there(old(w).lists@, l.href@);
    }
}

/// A task's file is saved as it came, under a name that ends in `.ics`.
pub proof fn files_are_saved(w: &mut Window, a: Answer, seen: &Seen, r: Step)
    requires
        came_back(w, a, seen, r),
    ensures
        a matches Answer::Ics(h, Err(e)) ==> only_says(r, e@),
        a matches Answer::Ics(h, Ok(ics)) ==> r.acts@.len() == 1 && (
        r.acts@[0] matches Do::SaveFile(name, s) && s == ics && name@.len() > 4 && name@.skip(
            name@.len() - 4,
        ) == ".ics"@),
{
    reveal_strlit(".ics");
    reveal_strlit("task");
    if let Answer::Ics(h, Ok(ics)) = a {
        if let Do::SaveFile(name, s) = r.acts@[0] {
            assert(name@.skip(name@.len() - 4) =~= ".ics"@);
        }
    }
}

// -- what is moot -------------------------------------------------------------------------------

/// New data drops what it has made moot: what is selected or held back stays
/// just where there is a task for it.
pub proof fn gone_tasks_are_let_go(w: &mut Window)
    requires
        call_ensures(Window::settle, (w,), ()),
    ensures
        forall|h: Seq<char>| #[trigger]
            texts(final(w).selected@).contains(h) <==> texts(old(w).selected@).contains(h) && old(
                w,
            ).known(h),
        forall|h: Seq<char>| #[trigger]
            texts(final(w).hidden@).contains(h) <==> texts(old(w).hidden@).contains(h) && old(
                w,
            ).known(h),
        final(w).open == old(w).open && final(w).lists == old(w).lists && final(w).completed == old(
            w,
        ).completed,
        final(w).nav == old(w).nav && final(w).prefs == old(w).prefs && final(w).editing == old(
            w,
        ).editing,
{
    let p = crate::steps::is_known(*old(w));
    assert forall|h: Seq<char>| #[trigger] texts(final(w).selected@).contains(h) <==> texts(
        old(w).selected@,
    ).contains(h) && old(w).known(h) by {
        lemma_kept(texts(old(w).selected@), p, h);
    }
    assert forall|h: Seq<char>| #[trigger] texts(final(w).hidden@).contains(h) <==> texts(
        old(w).hidden@,
    ).contains(h) && old(w).known(h) by {
        lemma_kept(texts(old(w).hidden@), p, h);
    }
}

} // verus!
