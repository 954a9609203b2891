//! When the view is drawn, what is new in it, and the notes there are to link.

use vstd::prelude::*;

use crate::linked::{find_notes, first_found, new_label, no_notes, note_about, pretty_with};
use crate::render::{Drawn, Popovers, Prepared, Screen};
use crate::text::{contains, lowercase_text, texts, trim};
use crate::update::Seen;
use crate::window::Window;
use crate::words::ago;
use crate::zone::{Moment, Now};

verus! {

// -- drawing ------------------------------------------------------------------------------------

/// A view that would take a field from under the keyboard, or cut short a card
/// that folds or rows that move, waits.
pub open spec fn in_the_way(w: Window, seen: Seen, passive: bool) -> bool {
    ||| w.editing is Some && seen.typing
    ||| w.folding is Some
    ||| passive && (w.settle_until matches Some(u) && seen.at < u)
}

/// Under an open menu, while a field is typed in or while something moves,
/// nothing is built; what waits is drawn later.
pub proof fn drawing_waits(
    w: &mut Window,
    seen: &Seen,
    passive: bool,
    screen: Screen,
    r: Drawn,
)
    requires
        call_ensures(Window::draw, (w, seen, passive, screen), r),
    ensures
        r is Same ==> *final(w) == *old(w),
        r is Waits ==> in_the_way(*old(w), *seen, passive) && final(w).dirty && *final(w)
            == (Window { dirty: true, ..*old(w) }),
        r is Built ==> !in_the_way(*old(w), *seen, passive),
        old(w).shown is None ==> !(r is Same),
{
}

/// Once the view is built, what it was built with is remembered, and what
/// opened or asked for the keyboard does so once.
pub proof fn builds_are_remembered(
    w: &mut Window,
    seen: &Seen,
    passive: bool,
    screen: Screen,
    r: Drawn,
)
    requires
        call_ensures(Window::draw, (w, seen, passive, screen), r),
        r is Built,
    ensures
        final(w).shown is Some,
        final(w).built.adding <==> old(w).adding is Some,
        final(w).built.selecting <==> old(w).select_mode,
        final(w).built.editing <==> old(w).editing is Some,
        !final(w).expand && final(w).refocus is Keep && final(w).rolled@.len() == 0,
        final(w).cursor is None || final(w).cursor == old(w).cursor,
        final(w).open == old(w).open && final(w).lists == old(w).lists && final(w).nav == old(
            w,
        ).nav,
        final(w).prefs == old(w).prefs && final(w).editing == old(w).editing && final(w).selected
            == old(w).selected && final(w).hidden == old(w).hidden,
{
}

/// What moves as the view is built: where things do not move, nothing; what
/// the last build had already, does not either; and the keyboard goes to the
/// editor, the row of the cursor, or back to where it was.
pub proof fn builds_bring_what_is_new(
    w: &mut Window,
    seen: &Seen,
    passive: bool,
    screen: Screen,
    r: Drawn,
)
    requires
        call_ensures(Window::draw, (w, seen, passive, screen), r),
    ensures
        r matches Drawn::Built(b) ==> {
            let f = b.fresh;
            &&& !screen.motion ==> !b.rows_move && f.rows is None && f.checked is None && f.rolled
                is None && !f.adding && !f.selecting && !f.view && !f.focus
            &&& f.adding ==> old(w).adding is Some && !old(w).built.adding
            &&& f.selecting ==> old(w).select_mode && !old(w).built.selecting
            &&& f.focus ==> (old(w).editing is Some) != old(w).built.editing
            &&& f.view ==> old(w).built.nav is Some && f.rows is None && !b.rows_move && !f.adding
            &&& f.rows is Some <==> b.rows_move
            &&& b.expand <==> old(w).expand && old(w).editing is Some
            &&& b.focus_editor <==> old(w).refocus is Editor && old(w).editing is Some
            &&& b.focus_row ==> b.cursor is Some && old(w).editing is None && old(w).adding is None
            &&& b.focus_back <==> screen.kept_focus && !b.focus_editor
            &&& old(w).cursor is None ==> b.cursor is None
        },
{
}

/// Nothing is drawn under an open menu; where a task is edited, a field that
/// is typed in keeps what is typed.
pub proof fn fields_keep_what_is_typed(w: &mut Window, seen: &Seen, popover: bool, r: Prepared)
    requires
        call_ensures(Window::prepare, (w, seen, popover), r),
    ensures
        r.waits <==> popover,
        popover ==> final(w).dirty && r.edits@.len() == 0 && r.shown is None,
        !popover && old(w).editing is None ==> !final(w).dirty && r.edits@.len() == 0 && r.shown
            is None,
        r.shown matches Some(s) ==> seen.title.focused || old(w).editor.title_waits
            ==> !s.set_title,
        r.shown matches Some(s) ==> seen.notes.focused || old(w).editor.notes_wait ==> !s.set_notes,
        old(w).editing is Some && seen.typing ==> final(w).editing == old(w).editing,
{
}

/// Menus that open and close are counted, and the last one to close says so.
pub proof fn menus_are_counted(p: &mut Popovers, last: bool)
    requires
        call_ensures(Popovers::closed, (p,), last),
    ensures
        old(p).open > 0 ==> final(p).open + 1 == old(p).open,
        last <==> old(p).open <= 1,
{
}

// -- notes to link ------------------------------------------------------------------------------

/// A note is found by any part of its path, in any case, without the space
/// around what is typed; Enter takes the first.
pub proof fn notes_are_found(
    paths: &Vec<String>,
    typed: &str,
    r: Vec<bool>,
    first: Option<usize>,
)
    requires
        call_ensures(find_notes, (paths, typed), r),
        call_ensures(first_found, (&r,), first),
    ensures
        r@.len() == paths@.len(),
        forall|i: int|
            0 <= i < r@.len() ==> #[trigger] r@[i] == contains(
                lowercase_text(paths@[i]@),
                lowercase_text(trim(typed@)),
            ),
        first matches Some(k) ==> k < r@.len() && r@[k as int] && forall|i: int|
            0 <= i < k ==> !#[trigger] r@[i],
{
    assert forall|i: int| 0 <= i < r@.len() implies #[trigger] r@[i] == contains(
        lowercase_text(paths@[i]@),
        lowercase_text(trim(typed@)),
    ) by {
        assert(texts(paths@)[i] == paths@[i]@);
    }
}

/// A note in the picker has its folder and when it was changed, where they are
/// known.
pub proof fn notes_say_where_and_when(
    folder: &str,
    modified: Option<Moment>,
    now: &Now,
    r: Option<String>,
    when: String,
)
    requires
        call_ensures(note_about, (folder, modified, now), r),
        modified matches Some(m) ==> call_ensures(ago, (m, now), when),
    ensures
        folder@.len() == 0 && modified is None ==> r is None,
        folder@.len() > 0 && modified is None ==> (r matches Some(s) && s@ == folder@),
        folder@.len() == 0 && modified is Some ==> (r matches Some(s) && s@ == when@),
        folder@.len() > 0 && modified is Some ==> (r matches Some(s) && s@ == folder@ + " · "@
            + when@),
{
    reveal_with_fuel(crate::text::join, 3);
    let about = crate::linked::about_note(folder@, modified, *now);
    if folder@.len() > 0 && modified is Some {
        assert(about =~= seq![folder@, when@]);
        assert(about.drop_last() =~= seq![folder@]);
    }
    if folder@.len() > 0 && modified is None {
        assert(about =~= seq![folder@]);
    }
    if folder@.len() == 0 && modified is Some {
        assert(about =~= seq![when@]);
    }
}

/// What the picker says of a new note, and where there is none.
pub proof fn pickers_say_what_there_is(
    typed: &str,
    new: String,
    dir: Option<&str>,
    there: bool,
    none: String,
    path: &str,
    rest: Option<String>,
    shown: String,
)
    requires
        call_ensures(new_label, (typed,), new),
        call_ensures(no_notes, (dir, there), none),
        call_ensures(pretty_with, (path, rest), shown),
    ensures
        trim(typed@).len() == 0 ==> new@ == "New note"@,
        trim(typed@).len() > 0 ==> new@ == "New note “"@ + trim(typed@) + "”"@,
        dir is None ==> none@ == "The notes folder isn't known: asstd isn't answering."@,
        dir matches Some(d) ==> there ==> none@ == "No notes in "@ + d@ + " yet."@,
        dir matches Some(d) ==> !there ==> none@ == d@
            + " doesn't exist. Choose the notes folder in Preferences."@,
        rest matches Some(t) ==> t@.len() > 0 ==> shown@ == "~/"@ + t@,
        rest is None ==> shown@ == path@,
{
}

} // verus!
