//! The window takes care: nothing is deleted but what was asked for, and what
//! it goes by is written down whenever it changes.

use vstd::prelude::*;

use crate::answer::{Answer, answers, opened};
use crate::handle::{
    adding_handled, around_handled, handles, is_adding, is_around, is_lists, is_task,
    lists_handled, task_handled, window_handled,
};
use crate::text::texts;
use crate::update::{Do, Msg, Seen, Step};
use crate::window::Window;

verus! {

// -- deleting -----------------------------------------------------------------------------------

/// It deletes something for good.
pub open spec fn is_deletion(d: Do) -> bool {
    d is Delete || d is DeleteList || d is DeleteCompleted || d is Finish
}

/// Nothing among these deletes anything for good.
pub open spec fn spares(acts: Seq<Do>) -> bool {
    forall|i: int| 0 <= i < acts.len() ==> !is_deletion(#[trigger] acts[i])
}

/// A message that may delete something: an undo that ran out, a dialog that
/// was confirmed, or quitting.
pub open spec fn may_delete(msg: Msg) -> bool {
    msg is DeleteNow || msg is DeleteList || msg is DeleteCompleted || msg is Quit
}

proof fn lemma_around_spares(old: Window, msg: Msg, seen: Seen, new: Window, r: Step)
    requires
        is_around(msg),
        around_handled(old, msg, seen, new, r),
    ensures
        spares(r.acts@) && spares(r.after@),
{
}

proof fn lemma_task_spares(old: Window, msg: Msg, seen: Seen, new: Window, r: Step)
    requires
        is_task(msg) && !(msg is DeleteNow),
        task_handled(old, msg, seen, new, r),
    ensures
        spares(r.acts@) && spares(r.after@),
{
}

proof fn lemma_adding_spares(old: Window, msg: Msg, seen: Seen, new: Window, r: Step)
    requires
        is_adding(msg),
        adding_handled(old, msg, seen, new, r),
    ensures
        spares(r.acts@) && spares(r.after@),
{
}

proof fn lemma_lists_spares(old: Window, msg: Msg, seen: Seen, new: Window, r: Step)
    requires
        is_lists(msg) && !(msg is DeleteList) && !(msg is DeleteCompleted),
        lists_handled(old, msg, seen, new, r),
    ensures
        spares(r.acts@) && spares(r.after@),
{
}

proof fn lemma_window_spares(old: Window, msg: Msg, seen: Seen, new: Window, r: Step)
    requires
        !(msg is Quit),
        window_handled(old, msg, seen, new, r),
    ensures
        spares(r.acts@) && spares(r.after@),
{
}

/// Nothing is deleted for good but by what asks for just that.
pub proof fn only_what_may_deletes(old: Window, msg: Msg, seen: Seen, new: Window, r: Step)
    requires
        handles(old, msg, seen, new, r),
        !may_delete(msg),
    ensures
        spares(r.acts@) && spares(r.after@),
{
    if is_around(msg) {
        lemma_around_spares(old, msg, seen, new, r);
    } else if is_task(msg) {
        lemma_task_spares(old, msg, seen, new, r);
    } else if is_adding(msg) {
        lemma_adding_spares(old, msg, seen, new, r);
    } else if is_lists(msg) {
        lemma_lists_spares(old, msg, seen, new, r);
    } else {
        lemma_window_spares(old, msg, seen, new, r);
    }
}

/// A task is deleted for good only once it is off the screen: when the time to
/// undo is over and nobody did, or on quitting.
pub proof fn only_hidden_tasks_are_deleted(
    old: Window,
    msg: Msg,
    seen: Seen,
    new: Window,
    r: Step,
    i: int,
)
    requires
        handles(old, msg, seen, new, r),
        0 <= i < r.acts@.len(),
    ensures
        r.acts@[i] matches Do::Delete(h) ==> msg == Msg::DeleteNow(h) && texts(
            old.hidden@,
        ).contains(h@),
        r.acts@[i] matches Do::Finish(v, _) ==> msg is Quit && v@ == old.hidden@,
{
    if !may_delete(msg) {
        only_what_may_deletes(old, msg, seen, new, r);
    }
}

/// No answer of the daemon's deletes anything.
pub proof fn answers_delete_nothing(old: Window, a: Answer, seen: Seen, new: Window, r: Step)
    requires
        answers(old, a, seen, new, r),
    ensures
        spares(r.acts@) && spares(r.after@),
{
    match a {
        Answer::LoginDone(..) => {
            let acts = r.acts@;
            assert forall|i: int| 0 <= i < acts.len() implies !is_deletion(#[trigger] acts[i]) by {
                if 0 < i < acts.len() - 1 {
                    assert(acts[i] == acts.subrange(1, acts.len() - 1)[i - 1]);
                }
            }
        },
        Answer::Opened(Ok(t)) => {
            let (mid, there) = choose|mid: Window, there: Window| #[trigger]
                opened(old, t, seen, mid, there, new, r);
            assert(opened(old, t, seen, mid, there, new, r));
        },
        _ => {},
    }
}

// -- preferences --------------------------------------------------------------------------------

/// Where the preferences are not as they were, they are written down.
pub open spec fn prefs_kept(old: Window, new: Window, r: Step) -> bool {
    new.prefs != old.prefs ==> exists|i: int| 0 <= i < r.acts@.len() && #[trigger] r.acts@[i] is Save
}

proof fn lemma_around_prefs(old: Window, msg: Msg, seen: Seen, new: Window, r: Step)
    requires
        is_around(msg),
        around_handled(old, msg, seen, new, r),
    ensures
        prefs_kept(old, new, r),
{
    assert(new.prefs != old.prefs ==> r.acts@[0] is Save);
}

proof fn lemma_task_prefs(old: Window, msg: Msg, seen: Seen, new: Window, r: Step)
    requires
        is_task(msg),
        task_handled(old, msg, seen, new, r),
    ensures
        prefs_kept(old, new, r),
{
}

proof fn lemma_adding_prefs(old: Window, msg: Msg, seen: Seen, new: Window, r: Step)
    requires
        is_adding(msg),
        adding_handled(old, msg, seen, new, r),
    ensures
        prefs_kept(old, new, r),
{
}

proof fn lemma_lists_prefs(old: Window, msg: Msg, seen: Seen, new: Window, r: Step)
    requires
        is_lists(msg),
        lists_handled(old, msg, seen, new, r),
    ensures
        prefs_kept(old, new, r),
{
}

proof fn lemma_window_prefs(old: Window, msg: Msg, seen: Seen, new: Window, r: Step)
    requires
        window_handled(old, msg, seen, new, r),
    ensures
        prefs_kept(old, new, r),
{
}

/// Preferences that a message changes are written down.
pub proof fn changed_preferences_are_saved(old: Window, msg: Msg, seen: Seen, new: Window, r: Step)
    requires
        handles(old, msg, seen, new, r),
    ensures
        prefs_kept(old, new, r),
{
    if is_around(msg) {
        lemma_around_prefs(old, msg, seen, new, r);
    } else if is_task(msg) {
        lemma_task_prefs(old, msg, seen, new, r);
    } else if is_adding(msg) {
        lemma_adding_prefs(old, msg, seen, new, r);
    } else if is_lists(msg) {
        lemma_lists_prefs(old, msg, seen, new, r);
    } else {
        lemma_window_prefs(old, msg, seen, new, r);
    }
}

} // verus!
