//! Nothing typed is lost: whatever makes the window let go of the task open in
//! place sends what was typed in it.

use vstd::prelude::*;

use crate::answer::{Answer, answers, opened};
use crate::editor::saves_waiting;
use crate::handle::{
    adding_handled, around_handled, handles, is_adding, is_around, is_lists, is_task,
    lists_handled, task_handled, window_handled,
};
use crate::render::{Prepared, prepares, refreshed};
use crate::update::{Msg, Seen, Step};
use crate::window::Window;

verus! {

/// Where the editor is not as it was, what was typed in it is sent.
pub open spec fn typing_kept(old: Window, seen: Seen, new: Window, r: Step) -> bool {
    old.editing is Some && new.editor != old.editor ==> saves_waiting(
        old.editor,
        seen.title.text@,
        seen.notes.text@,
        r.edits@,
    )
}

proof fn lemma_around(old: Window, msg: Msg, seen: Seen, new: Window, r: Step)
    requires
        is_around(msg),
        around_handled(old, msg, seen, new, r),
    ensures
        typing_kept(old, seen, new, r),
{
}

proof fn lemma_task(old: Window, msg: Msg, seen: Seen, new: Window, r: Step)
    requires
        is_task(msg),
        task_handled(old, msg, seen, new, r),
    ensures
        typing_kept(old, seen, new, r),
{
}

proof fn lemma_adding(old: Window, msg: Msg, seen: Seen, new: Window, r: Step)
    requires
        is_adding(msg),
        adding_handled(old, msg, seen, new, r),
    ensures
        typing_kept(old, seen, new, r),
{
}

proof fn lemma_lists(old: Window, msg: Msg, seen: Seen, new: Window, r: Step)
    requires
        is_lists(msg),
        lists_handled(old, msg, seen, new, r),
    ensures
        typing_kept(old, seen, new, r),
{
}

proof fn lemma_window(old: Window, msg: Msg, seen: Seen, new: Window, r: Step)
    requires
        window_handled(old, msg, seen, new, r),
    ensures
        typing_kept(old, seen, new, r),
{
}

/// No message loses what was typed: where the open task closes, or another
/// one opens in its place, what was waiting to be saved is sent.
pub proof fn messages_keep_typing(old: Window, msg: Msg, seen: Seen, new: Window, r: Step)
    requires
        handles(old, msg, seen, new, r),
    ensures
        typing_kept(old, seen, new, r),
{
    if is_around(msg) {
        lemma_around(old, msg, seen, new, r);
    } else if is_task(msg) {
        lemma_task(old, msg, seen, new, r);
    } else if is_adding(msg) {
        lemma_adding(old, msg, seen, new, r);
    } else if is_lists(msg) {
        lemma_lists(old, msg, seen, new, r);
    } else {
        lemma_window(old, msg, seen, new, r);
    }
}

/// No answer of the daemon's loses what was typed.
pub proof fn answers_keep_typing(old: Window, a: Answer, seen: Seen, new: Window, r: Step)
    requires
        answers(old, a, seen, new, r),
    ensures
        typing_kept(old, seen, new, r),
{
    if let Answer::Opened(Ok(t)) = a {
        let (mid, there) = choose|mid: Window, there: Window| #[trigger]
            opened(old, t, seen, mid, there, new, r);
        assert(opened(old, t, seen, mid, there, new, r));
    }
}

/// Drawing the view loses nothing that was typed: a field that is typed in, or
/// waits to be saved, is not filled over, and what waits in a task that left
/// the view is sent.
pub proof fn drawing_keeps_typing(old: Window, seen: Seen, popover: bool, new: Window, p: Prepared)
    requires
        prepares(old, seen, popover, new, p),
    ensures
        p.shown matches Some(s) ==> {
            &&& old.editor.title_waits || seen.title.focused ==> !s.set_title
            &&& old.editor.notes_wait || seen.notes.focused ==> !s.set_notes
        },
        old.editing matches Some(href) ==> match new.editing {
            Some(_) => new.editor.title_waits == old.editor.title_waits && new.editor.notes_wait
                == old.editor.notes_wait,
            None => saves_waiting(
                refreshed(old.editor, old.task(href@)),
                seen.title.text@,
                seen.notes.text@,
                p.edits@,
            ),
        },
{
}

} // verus!
