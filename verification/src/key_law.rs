//! What each key is for.

use vstd::prelude::*;

use crate::keys::{CardKey, EditorKey, Focus, Press, Spot, Taken, card_key, editor_key, key_action};
use crate::message_law::{asks_nothing, asks_only, came_of, moves_to_day};
use crate::nav::NavView;
use crate::steps::on_its_way;
use crate::update::{Do, Key, Msg, Nav0, Seen, Step};
use crate::window::Window;

verus! {

/// The keyboard is on the tasks, and nothing is held.
pub open spec fn on_tasks(k: &Press, f: Focus) -> bool {
    !k.ctrl && !k.alt && !f.elsewhere && !f.typing
}

proof fn lemma_names()
    ensures
        "j"@ == seq!['j'] && "k"@ == seq!['k'] && "g"@ == seq!['g'] && "G"@ == seq!['G'],
        "e"@ == seq!['e'] && "l"@ == seq!['l'] && "x"@ == seq!['x'] && "a"@ == seq!['a'],
        "o"@ == seq!['o'] && "d"@ == seq!['d'] && "t"@ == seq!['t'] && "m"@ == seq!['m'],
        "w"@ == seq!['w'] && "H"@ == seq!['H'] && "L"@ == seq!['L'] && "s"@ == seq!['s'],
        "v"@ == seq!['v'] && "V"@ == seq!['V'] && "p"@ == seq!['p'] && "f"@ == seq!['f'],
        "i"@ == seq!['i'] && "u"@ == seq!['u'] && "b"@ == seq!['b'] && "q"@ == seq!['q'],
        "1"@ == seq!['1'] && "2"@ == seq!['2'] && "3"@ == seq!['3'] && "4"@ == seq!['4'],
        "Home"@.len() == 4 && "End"@.len() == 3 && "space"@.len() == 5 && "slash"@.len() == 5,
        "space"@[1] == 'p' && "slash"@[1] == 'l',
        "Delete"@.len() == 6 && "Escape"@.len() == 6 && "Delete"@[0] == 'D' && "Escape"@[0] == 'E',
        "bracketleft"@.len() == 11 && "bracketright"@.len() == 12,
        "question"@.len() == 8 && "F1"@.len() == 2 && "comma"@.len() == 5 && "comma"@[0] == 'c',
        "Page_Up"@.len() == 7 && "Page_Down"@.len() == 9,
{
    reveal_strlit("j");
    reveal_strlit("k");
    reveal_strlit("g");
    reveal_strlit("G");
    reveal_strlit("e");
    reveal_strlit("l");
    reveal_strlit("x");
    reveal_strlit("a");
    reveal_strlit("o");
    reveal_strlit("d");
    reveal_strlit("t");
    reveal_strlit("m");
    reveal_strlit("w");
    reveal_strlit("H");
    reveal_strlit("L");
    reveal_strlit("s");
    reveal_strlit("v");
    reveal_strlit("V");
    reveal_strlit("p");
    reveal_strlit("f");
    reveal_strlit("i");
    reveal_strlit("u");
    reveal_strlit("b");
    reveal_strlit("q");
    reveal_strlit("1");
    reveal_strlit("2");
    reveal_strlit("3");
    reveal_strlit("4");
    reveal_strlit("Home");
    reveal_strlit("End");
    reveal_strlit("space");
    reveal_strlit("slash");
    reveal_strlit("Delete");
    reveal_strlit("Escape");
    reveal_strlit("bracketleft");
    reveal_strlit("bracketright");
    reveal_strlit("question");
    reveal_strlit("F1");
    reveal_strlit("comma");
    reveal_strlit("Page_Up");
    reveal_strlit("Page_Down");
}

/// On the tasks, `j` and `k` go down and up, `g` and `G` to the ends; `e`
/// opens, `x` checks, `a` adds, `d` deletes, the numbers set the priority, `t`,
/// `m` and `w` the date; brackets change the view, and the rest is as the
/// shortcuts say.
pub proof fn letters_do_what_they_say(k: &Press, f: Focus, r: Taken)
    requires
        on_tasks(k, f),
        call_ensures(key_action, (k, f), r),
    ensures
        k.name@ == "j"@ ==> r == Taken::Does(Key::Down),
        k.name@ == "k"@ ==> r == Taken::Does(Key::Up),
        k.name@ == "g"@ ==> r == Taken::Does(Key::First),
        k.name@ == "G"@ ==> r == Taken::Does(Key::Last),
        k.name@ == "e"@ ==> r == Taken::Does(Key::Open),
        k.name@ == "x"@ || k.name@ == "space"@ ==> r == Taken::Does(Key::Toggle),
        k.name@ == "a"@ ==> r == Taken::Does(Key::Add),
        k.name@ == "slash"@ ==> r == Taken::Does(Key::Find),
        k.name@ == "d"@ || k.name@ == "Delete"@ ==> r == Taken::Does(Key::Delete),
        k.name@ == "1"@ ==> r == Taken::Does(Key::Priority(1)),
        k.name@ == "2"@ ==> r == Taken::Does(Key::Priority(2)),
        k.name@ == "3"@ ==> r == Taken::Does(Key::Priority(3)),
        k.name@ == "4"@ ==> r == Taken::Does(Key::Priority(4)),
        k.name@ == "t"@ ==> r == Taken::Does(Key::Today),
        k.name@ == "m"@ ==> r == Taken::Does(Key::Tomorrow),
        k.name@ == "w"@ ==> r == Taken::Does(Key::NextWeek),
        k.name@ == "bracketleft"@ ==> r == Taken::Does(Key::PrevView),
        k.name@ == "bracketright"@ ==> r == Taken::Does(Key::NextView),
        k.name@ == "s"@ ==> r == Taken::Does(Key::Sync),
        k.name@ == "v"@ ==> r == Taken::Does(Key::Select),
        k.name@ == "p"@ ==> r == Taken::Does(Key::NewList),
        k.name@ == "question"@ ==> r == Taken::Does(Key::Shortcuts),
        k.name@ == "Escape"@ ==> r == Taken::Does(Key::Escape),
{
    lemma_names();
    assert(seq!['j'][0] == 'j' && seq!['k'][0] == 'k' && seq!['g'][0] == 'g' && seq!['G'][0] == 'G'
        && seq!['e'][0] == 'e' && seq!['l'][0] == 'l' && seq!['x'][0] == 'x' && seq!['a'][0] == 'a'
        && seq!['o'][0] == 'o' && seq!['d'][0] == 'd' && seq!['t'][0] == 't' && seq!['m'][0] == 'm'
        && seq!['w'][0] == 'w' && seq!['H'][0] == 'H' && seq!['L'][0] == 'L' && seq!['s'][0] == 's'
        && seq!['v'][0] == 'v' && seq!['p'][0] == 'p' && seq!['1'][0] == '1' && seq!['2'][0] == '2'
        && seq!['3'][0] == '3' && seq!['4'][0] == '4');
}

/// With Ctrl held a key does its own thing wherever the keyboard is, but in a
/// dialog.
pub proof fn ctrl_keys_do_what_they_say(k: &Press, f: Focus, r: Taken)
    requires
        k.ctrl,
        !f.elsewhere,
        call_ensures(key_action, (k, f), r),
    ensures
        k.name@ == "f"@ ==> r == Taken::Does(Key::Find),
        k.name@ == "i"@ ==> r == Taken::Does(Key::Go(Nav0::Inbox)),
        k.name@ == "t"@ ==> r == Taken::Does(Key::Go(Nav0::Today)),
        k.name@ == "u"@ ==> r == Taken::Does(Key::Go(Nav0::Scheduled)),
        k.name@ == "comma"@ ==> r == Taken::Does(Key::Preferences),
        k.name@ == "b"@ ==> r == Taken::Does(Key::Sidebar),
        k.name@ == "w"@ ==> r == Taken::Does(Key::Close),
        k.name@ == "q"@ ==> r == Taken::Does(Key::Quit),
        k.name@ == "v"@ && !f.typing && (k.types matches Some(c) ==> !('1' <= c <= '9')) ==> r
            == Taken::Does(Key::Paste),
        k.name@ == "1"@ && k.types == Some('1') ==> r == Taken::Does(Key::Go(Nav0::List(0))),
        k.name@ == "2"@ && k.types == Some('2') ==> r == Taken::Does(Key::Go(Nav0::List(1))),
        k.name@ == "3"@ && k.types == Some('3') ==> r == Taken::Does(Key::Go(Nav0::List(2))),
{
    lemma_names();
    assert(seq!['f'][0] == 'f' && seq!['i'][0] == 'i' && seq!['t'][0] == 't' && seq!['u'][0] == 'u'
        && seq!['b'][0] == 'b' && seq!['w'][0] == 'w' && seq!['q'][0] == 'q' && seq!['v'][0] == 'v'
        && seq!['1'][0] == '1' && seq!['2'][0] == '2' && seq!['3'][0] == '3' && seq!['V'][0]
        == 'V');
}

/// In a dialog every key is left alone; in a field all but those with Ctrl and
/// Esc, which leaves it.
pub proof fn fields_keep_their_keys(k: &Press, f: Focus, r: Taken)
    requires
        call_ensures(key_action, (k, f), r),
    ensures
        f.elsewhere ==> r is Passed,
        !f.elsewhere && f.typing && !k.ctrl && k.name@ != "Escape"@ ==> r is Passed,
        !f.elsewhere && f.typing && !k.ctrl && k.name@ == "Escape"@ && !f.popover ==> r
            == Taken::Leaves(Key::Escape),
        !f.elsewhere && f.typing && !k.ctrl && f.popover ==> r is Passed,
{
}

/// In the task open in place, Enter in the title saves, Tab goes to the notes
/// and back, and Ctrl with `d` or `r` picks a date or reminders.
pub proof fn keys_in_the_editor(k: &Press, shift: bool, at: Spot, can: bool, r: EditorKey)
    requires
        call_ensures(editor_key, (k, shift, at, can), r),
    ensures
        k.ctrl && can && k.name@ == "d"@ ==> r == EditorKey::PickDate,
        k.ctrl && can && k.name@ == "r"@ ==> r == EditorKey::PickReminders,
        !k.ctrl && at == Spot::Title && (k.name@ == "Return"@ || k.name@ == "KP_Enter"@) ==> r
            == EditorKey::SaveAndClose,
        !k.ctrl && at == Spot::Title && k.name@ == "Tab"@ && !shift ==> r == EditorKey::ToNotes,
        !k.ctrl && at == Spot::Notes && k.name@ == "ISO_Left_Tab"@ ==> r == EditorKey::ToTitle,
        !k.ctrl && at == Spot::Notes && k.name@ == "Return"@ ==> r == EditorKey::Passed,
{
    reveal_strlit("d");
    reveal_strlit("r");
    reveal_strlit("Return");
    reveal_strlit("KP_Enter");
    reveal_strlit("Tab");
    reveal_strlit("ISO_Left_Tab");
    assert("d"@[0] == 'd' && "r"@[0] == 'r');
    assert("Return"@.len() == 6 && "KP_Enter"@.len() == 8 && "Tab"@.len() == 3
        && "ISO_Left_Tab"@.len() == 12);
}

/// In the card, Enter in the title adds, and with Ctrl from the notes; while
/// lists are suggested, arrows move among them, and Enter and Tab take one.
pub proof fn keys_in_the_card(k: &Press, at: Spot, suggesting: bool, keep: bool, r: CardKey)
    requires
        call_ensures(card_key, (k, at, suggesting, keep), r),
    ensures
        k.ctrl && k.name@ == "d"@ ==> r == CardKey::PickDate,
        k.ctrl && k.name@ == "r"@ ==> r == CardKey::PickReminders,
        k.ctrl && k.name@ == "k"@ && keep ==> r == CardKey::ToggleKeep,
        !k.ctrl && at == Spot::Title && suggesting && k.name@ == "Down"@ ==> r
            == CardKey::NextSuggestion,
        !k.ctrl && at == Spot::Title && suggesting && k.name@ == "Up"@ ==> r
            == CardKey::PrevSuggestion,
        !k.ctrl && at == Spot::Title && suggesting && (k.name@ == "Return"@ || k.name@ == "Tab"@)
            ==> r == CardKey::TakeSuggestion,
        !k.ctrl && at == Spot::Title && suggesting && k.name@ == "Escape"@ ==> r
            == CardKey::CloseSuggestions,
        !k.ctrl && at == Spot::Title && !suggesting && k.name@ == "Return"@ ==> r
            == CardKey::Submit,
        !k.ctrl && at == Spot::Title && !suggesting && k.name@ == "Escape"@ ==> r
            == CardKey::Cancel,
        k.ctrl && at == Spot::Notes && k.name@ == "Return"@ ==> r == CardKey::Submit,
        !k.ctrl && at == Spot::Notes ==> r == CardKey::Passed,
{
    reveal_strlit("d");
    reveal_strlit("r");
    reveal_strlit("k");
    reveal_strlit("Down");
    reveal_strlit("Up");
    reveal_strlit("Return");
    reveal_strlit("KP_Enter");
    reveal_strlit("Tab");
    reveal_strlit("Escape");
    assert("d"@[0] == 'd' && "r"@[0] == 'r' && "k"@[0] == 'k' && "Return"@[0] == 'R'
        && "Escape"@[0] == 'E');
    assert("Down"@.len() == 4 && "Up"@.len() == 2 && "Return"@.len() == 6 && "KP_Enter"@.len() == 8
        && "Tab"@.len() == 3 && "Escape"@.len() == 6 && "d"@.len() == 1 && "r"@.len() == 1
        && "k"@.len() == 1);
}

// -- what they do -------------------------------------------------------------------------------

/// A key is for the task that the cursor is on: it opens it, checks or
/// unchecks it, sets its priority, or moves it to today, tomorrow or a week
/// from now.
pub proof fn keys_are_for_the_task_at_the_cursor(
    w: &mut Window,
    key: Key,
    seen: &Seen,
    r: Step,
    c: String,
)
    requires
        came_of(w, Msg::Key(key), seen, r),
        old(w).cursor == Some(c),
        old(w).task(c@) is Some,
    ensures
        ({
            let t = old(w).task(c@)->0;
            &&& t.href@ == c@
            &&& key is Open ==> asks_only(r, Do::Send(Msg::Open(t.href)))
            &&& key is Toggle && t.task.open && on_its_way(*old(w), c@) is None ==> asks_only(
                r,
                Do::Send(Msg::Check(t.href, true)),
            )
            &&& key is Toggle && !(t.task.open && on_its_way(*old(w), c@) is None) ==> asks_only(
                r,
                Do::Send(Msg::Check(t.href, false)),
            )
            &&& key matches Key::Priority(n) ==> r.acts@.len() == 1 && (r.acts@[0] matches Do::Send(
                Msg::Edit(h, ch),
            ) && h == t.href && ch.priority == Some(n) && ch.due is None && ch.summary is None
                && ch.list is None && ch.rrule is None)
            &&& key is Today ==> moves_to_day(r, t.href, seen.now.day())
            &&& key is Tomorrow ==> moves_to_day(r, t.href, seen.now.day() + 1)
            &&& key is NextWeek ==> moves_to_day(r, t.href, seen.now.day() + 7)
            &&& key is Delete ==> asks_nothing(r) || asks_only(r, Do::Send(Msg::Delete(t.href)))
        }),
{
    crate::window::lemma_place(old(w).open@, c@);
    crate::window::lemma_place(old(w).done(), c@);
}

/// A task is deleted when `d` is pressed twice within a moment; once does
/// nothing yet, and another key in between starts over.
pub proof fn two_presses_delete(w: &mut Window, key: Key, seen: &Seen, r: Step, c: String)
    requires
        came_of(w, Msg::Key(key), seen, r),
        old(w).cursor == Some(c),
        old(w).task(c@) is Some,
    ensures
        key is Delete && old(w).pending_d is None ==> asks_nothing(r) && final(w).pending_d
            == Some(seen.at),
        key is Delete && (old(w).pending_d matches Some(p) && seen.at < p + 800) ==> asks_only(
            r,
            Do::Send(Msg::Delete(old(w).task(c@)->0.href)),
        ) && final(w).pending_d is None,
        key is Delete && (old(w).pending_d matches Some(p) && seen.at >= p + 800) ==> asks_nothing(
            r,
        ) && final(w).pending_d == Some(seen.at),
        key is Open || key is Toggle || key is Priority || key is Today || key is Add ==> final(w).pending_d
            is None,
{
}

/// The keys that need no task ask for what they are called.
pub proof fn keys_ask_for_what_they_are_called(w: &mut Window, key: Key, seen: &Seen, r: Step)
    requires
        came_of(w, Msg::Key(key), seen, r),
    ensures
        key is Add ==> asks_only(r, Do::Send(Msg::ShowAdd(None))),
        key is Find ==> asks_only(r, Do::Send(Msg::QuickFind)),
        key is Sync ==> asks_only(r, Do::Send(Msg::SyncNow)),
        key is NewList ==> asks_only(r, Do::Send(Msg::NewList)),
        key is Shortcuts ==> asks_only(r, Do::Send(Msg::Shortcuts)),
        key is Preferences ==> asks_only(r, Do::Send(Msg::Preferences(None))),
        key is Sidebar ==> asks_only(r, Do::Send(Msg::ToggleSidebar)),
        key is Close ==> asks_only(r, Do::Send(Msg::CloseWindow)),
        key is Quit ==> asks_only(r, Do::Send(Msg::Quit)),
        key is Paste ==> asks_only(r, Do::Send(Msg::Paste)),
        key is Select ==> asks_only(r, Do::Send(Msg::SelectMode(!old(w).select_mode))),
        key is Escape && old(w).select_mode ==> asks_only(r, Do::Send(Msg::SelectMode(false))),
        key is Escape && !old(w).select_mode && old(w).editing is Some ==> asks_only(
            r,
            Do::Send(Msg::CloseEditor),
        ),
        key is Escape && !old(w).select_mode && old(w).editing is None && old(w).adding is Some
            ==> asks_only(r, Do::Send(Msg::HideAdd)),
        key matches Key::Go(Nav0::Inbox) ==> goes(r, NavView::Inbox),
        key matches Key::Go(Nav0::Today) ==> goes(r, NavView::Today),
        key matches Key::Go(Nav0::Scheduled) ==> goes(r, NavView::Scheduled),
{
}

/// A view is asked for, and nothing else.
pub open spec fn goes(r: Step, n: NavView) -> bool {
    r.acts@.len() == 1 && r.edits@.len() == 0 && (r.acts@[0] matches Do::Send(Msg::Navigate(v)) && v@
        == n)
}

/// Down and up go to the next row and back, and stop at the ends; without a
/// cursor both go to the first.
pub proof fn the_cursor_moves_by_rows(w: &mut Window, key: Key, seen: &Seen, r: Step, i: int)
    requires
        came_of(w, Msg::Key(key), seen, r),
        0 <= i < seen.rows@.len(),
        old(w).cursor == Some(seen.rows@[i]),
        forall|j: int| 0 <= j < i ==> (#[trigger] seen.rows@[j])@ != seen.rows@[i]@,
    ensures
        key is Down && i + 1 < seen.rows@.len() ==> final(w).cursor == Some(seen.rows@[i + 1]),
        key is Down && i + 1 == seen.rows@.len() ==> final(w).cursor == Some(seen.rows@[i]),
        key is Up && i > 0 ==> final(w).cursor == Some(seen.rows@[i - 1]),
        key is Up && i == 0 ==> final(w).cursor == Some(seen.rows@[0]),
        key is First ==> final(w).cursor == Some(seen.rows@[0]),
        key is Last ==> final(w).cursor == Some(seen.rows@[seen.rows@.len() - 1]),
{
    lemma_index(crate::text::texts(seen.rows@), i);
}

proof fn lemma_index(s: Seq<Seq<char>>, i: int)
    requires
        0 <= i < s.len(),
        forall|j: int| 0 <= j < i ==> #[trigger] s[j] != s[i],
    ensures
        crate::keys::index_of(s, s[i]) == Some(i),
    decreases s.len(),
{
    if i > 0 {
        let t = s.skip(1);
        assert(t[i - 1] == s[i]);
        assert forall|j: int| 0 <= j < i - 1 implies #[trigger] t[j] != t[i - 1] by {
            assert(t[j] == s[j + 1]);
        }
        assert(s[0] != s[i]);
        lemma_index(t, i - 1);
    }
}

} // verus!
