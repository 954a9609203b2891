//! The keyboard: what a key means, and what it does.

use vstd::prelude::*;
use vstd::string::*;

use crate::change::{Change, SetDue, moved_to, no_change};
use crate::date::Date;
use crate::editor::Edit;
use crate::keyed::find_state;
use crate::nav::{Nav, NavView, navs};
use crate::plan::has_room;
use crate::steps::{asks, makes, on_its_way};
use crate::task::TaskView;
use crate::text::{same, texts};
use crate::update::{Do, Key, Msg, Nav0, Seen, Step, closes};
use crate::window::{Refocus, Window};

verus! {

// -- what a key means ---------------------------------------------------------------------------

/// A key as it is pressed: its name, the character it types, and what is held.
#[derive(Debug)]
pub struct Press {
    pub name: String,
    pub types: Option<char>,
    pub ctrl: bool,
    pub alt: bool,
}

/// Where the keyboard is as a key is pressed.
#[derive(Debug, Clone, Copy)]
pub struct Focus {
    /// In a dialog or a popover.
    pub elsewhere: bool,
    /// In a field, or anything in the task open in place.
    pub typing: bool,
    /// A popover is open somewhere.
    pub popover: bool,
}

/// What becomes of a key.
#[derive(Debug, Clone, Copy)]
pub enum Taken {
    /// It goes where it was going.
    Passed,
    Does(Key),
    /// The same, and the keyboard leaves the field it is in.
    Leaves(Key),
}

/// What a key does with Ctrl held, wherever the keyboard is.
pub open spec fn ctrl_key(name: Seq<char>, types: Option<char>) -> Option<Key> {
    if name == "f"@ {
        Some(Key::Find)
    } else if name == "i"@ {
        Some(Key::Go(Nav0::Inbox))
    } else if name == "t"@ {
        Some(Key::Go(Nav0::Today))
    } else if name == "u"@ {
        Some(Key::Go(Nav0::Scheduled))
    } else if name == "comma"@ {
        Some(Key::Preferences)
    } else if name == "b"@ {
        Some(Key::Sidebar)
    } else if name == "w"@ {
        Some(Key::Close)
    } else if name == "q"@ {
        Some(Key::Quit)
    } else if name == "Page_Up"@ {
        Some(Key::PrevView)
    } else if name == "Page_Down"@ {
        Some(Key::NextView)
    } else {
        match types {
            Some(c) if '1' <= c && c <= '9' => Some(Key::Go(Nav0::List((c as u32 - 49) as usize))),
            _ => None,
        }
    }
}

/// What a key does on its own, outside a field.
pub open spec fn plain_key(name: Seq<char>) -> Option<Key> {
    if name == "j"@ {
        Some(Key::Down)
    } else if name == "k"@ {
        Some(Key::Up)
    } else if name == "g"@ || name == "Home"@ {
        Some(Key::First)
    } else if name == "G"@ || name == "End"@ {
        Some(Key::Last)
    } else if name == "e"@ || name == "l"@ {
        Some(Key::Open)
    } else if name == "x"@ || name == "space"@ {
        Some(Key::Toggle)
    } else if name == "a"@ || name == "o"@ {
        Some(Key::Add)
    } else if name == "slash"@ {
        Some(Key::Find)
    } else if name == "d"@ || name == "Delete"@ {
        Some(Key::Delete)
    } else if name == "1"@ {
        Some(Key::Priority(1))
    } else if name == "2"@ {
        Some(Key::Priority(2))
    } else if name == "3"@ {
        Some(Key::Priority(3))
    } else if name == "4"@ {
        Some(Key::Priority(4))
    } else if name == "t"@ {
        Some(Key::Today)
    } else if name == "m"@ {
        Some(Key::Tomorrow)
    } else if name == "w"@ {
        Some(Key::NextWeek)
    } else if name == "bracketleft"@ || name == "H"@ {
        Some(Key::PrevView)
    } else if name == "bracketright"@ || name == "L"@ {
        Some(Key::NextView)
    } else if name == "s"@ {
        Some(Key::Sync)
    } else if name == "v"@ {
        Some(Key::Select)
    } else if name == "p"@ {
        Some(Key::NewList)
    } else if name == "question"@ || name == "F1"@ {
        Some(Key::Shortcuts)
    } else if name == "Escape"@ {
        Some(Key::Escape)
    } else {
        None
    }
}

/// What becomes of a key: typing in a field is left alone.
pub open spec fn taken(k: Press, f: Focus) -> Taken {
    if f.elsewhere {
        Taken::Passed
    } else if k.ctrl && ctrl_key(k.name@, k.types) is Some {
        Taken::Does(ctrl_key(k.name@, k.types)->0)
    } else if f.typing {
        // With a popover over the field, Esc closes that first.
        if k.name@ == "Escape"@ && !f.popover {
            Taken::Leaves(Key::Escape)
        } else {
            Taken::Passed
        }
    } else if k.ctrl && (k.name@ == "v"@ || k.name@ == "V"@) {
        Taken::Does(Key::Paste)
    } else if k.ctrl || k.alt {
        Taken::Passed
    } else {
        match plain_key(k.name@) {
            Some(key) => Taken::Does(key),
            None => Taken::Passed,
        }
    }
}

fn read_ctrl(name: &str, types: Option<char>) -> (r: Option<Key>)
    ensures
        r == ctrl_key(name@, types),
{
    if same(name, "f") {
        Some(Key::Find)
    } else if same(name, "i") {
        Some(Key::Go(Nav0::Inbox))
    } else if same(name, "t") {
        Some(Key::Go(Nav0::Today))
    } else if same(name, "u") {
        Some(Key::Go(Nav0::Scheduled))
    } else if same(name, "comma") {
        Some(Key::Preferences)
    } else if same(name, "b") {
        Some(Key::Sidebar)
    } else if same(name, "w") {
        Some(Key::Close)
    } else if same(name, "q") {
        Some(Key::Quit)
    } else if same(name, "Page_Up") {
        Some(Key::PrevView)
    } else if same(name, "Page_Down") {
        Some(Key::NextView)
    } else {
        match types {
            Some(c) if '1' <= c && c <= '9' => Some(Key::Go(Nav0::List((c as u32 - 49) as usize))),
            _ => None,
        }
    }
}

fn read_plain(name: &str) -> (r: Option<Key>)
    ensures
        r == plain_key(name@),
{
    if same(name, "j") {
        Some(Key::Down)
    } else if same(name, "k") {
        Some(Key::Up)
    } else if same(name, "g") || same(name, "Home") {
        Some(Key::First)
    } else if same(name, "G") || same(name, "End") {
        Some(Key::Last)
    } else if same(name, "e") || same(name, "l") {
        Some(Key::Open)
    } else if same(name, "x") || same(name, "space") {
        Some(Key::Toggle)
    } else if same(name, "a") || same(name, "o") {
        Some(Key::Add)
    } else if same(name, "slash") {
        Some(Key::Find)
    } else if same(name, "d") || same(name, "Delete") {
        Some(Key::Delete)
    } else if same(name, "1") {
        Some(Key::Priority(1))
    } else if same(name, "2") {
        Some(Key::Priority(2))
    } else if same(name, "3") {
        Some(Key::Priority(3))
    } else if same(name, "4") {
        Some(Key::Priority(4))
    } else if same(name, "t") {
        Some(Key::Today)
    } else if same(name, "m") {
        Some(Key::Tomorrow)
    } else if same(name, "w") {
        Some(Key::NextWeek)
    } else if same(name, "bracketleft") || same(name, "H") {
        Some(Key::PrevView)
    } else if same(name, "bracketright") || same(name, "L") {
        Some(Key::NextView)
    } else if same(name, "s") {
        Some(Key::Sync)
    } else if same(name, "v") {
        Some(Key::Select)
    } else if same(name, "p") {
        Some(Key::NewList)
    } else if same(name, "question") || same(name, "F1") {
        Some(Key::Shortcuts)
    } else if same(name, "Escape") {
        Some(Key::Escape)
    } else {
        None
    }
}

/// What becomes of a key.
pub fn key_action(k: &Press, f: Focus) -> (r: Taken)
    ensures
        r == taken(*k, f),
{
    if f.elsewhere {
        return Taken::Passed;
    }
    if k.ctrl {
        match read_ctrl(k.name.as_str(), k.types) {
            Some(key) => {
                return Taken::Does(key);
            },
            None => {},
        }
    }
    if f.typing {
        if same(k.name.as_str(), "Escape") && !f.popover {
            return Taken::Leaves(Key::Escape);
        }
        return Taken::Passed;
    }
    if k.ctrl && (same(k.name.as_str(), "v") || same(k.name.as_str(), "V")) {
        return Taken::Does(Key::Paste);
    }
    if k.ctrl || k.alt {
        return Taken::Passed;
    }
    match read_plain(k.name.as_str()) {
        Some(key) => Taken::Does(key),
        None => Taken::Passed,
    }
}

/// Letters typed in a field are the field's: only Esc, and keys with Ctrl
/// held, are taken from it.
pub proof fn typing_is_left_alone(k: Press, f: Focus)
    requires
        f.typing,
        !k.ctrl,
        k.name@ != "Escape"@,
    ensures
        taken(k, f) is Passed,
{
}

/// Where the keyboard is in the task open in place, or in the add card.
#[derive(Debug, Clone, Copy, PartialEq, Eq, Structural)]
pub enum Spot {
    Title,
    Notes,
    Elsewhere,
}

/// What a key does in the task open in place.
#[derive(Debug, Clone, Copy, PartialEq, Eq, Structural)]
pub enum EditorKey {
    Passed,
    PickDate,
    PickReminders,
    SaveAndClose,
    ToNotes,
    ToTitle,
}

/// Enter.
pub open spec fn is_enter(name: Seq<char>) -> bool {
    name == "Return"@ || name == "KP_Enter"@
}

fn enters(name: &str) -> (r: bool)
    ensures
        r == is_enter(name@),
{
    same(name, "Return") || same(name, "KP_Enter")
}

/// What a key does in the task open in place: the pickers from anywhere while
/// it can be changed, Enter in the title saves and closes, and Tab goes from
/// the title to the notes and back.
pub fn editor_key(k: &Press, shift: bool, at: Spot, can_change: bool) -> (r: EditorKey)
    ensures
        r == (if k.ctrl && can_change && k.name@ == "d"@ {
            EditorKey::PickDate
        } else if k.ctrl && can_change && k.name@ == "r"@ {
            EditorKey::PickReminders
        } else if at == Spot::Title && is_enter(k.name@) {
            EditorKey::SaveAndClose
        } else if at == Spot::Title && k.name@ == "Tab"@ && !shift {
            EditorKey::ToNotes
        } else if at == Spot::Notes && k.name@ == "ISO_Left_Tab"@ {
            EditorKey::ToTitle
        } else {
            EditorKey::Passed
        }),
{
    let name = k.name.as_str();
    if k.ctrl && can_change && same(name, "d") {
        EditorKey::PickDate
    } else if k.ctrl && can_change && same(name, "r") {
        EditorKey::PickReminders
    } else if at == Spot::Title && enters(name) {
        EditorKey::SaveAndClose
    } else if at == Spot::Title && same(name, "Tab") && !shift {
        EditorKey::ToNotes
    } else if at == Spot::Notes && same(name, "ISO_Left_Tab") {
        EditorKey::ToTitle
    } else {
        EditorKey::Passed
    }
}

/// What a key does in the add card.
#[derive(Debug, Clone, Copy, PartialEq, Eq, Structural)]
pub enum CardKey {
    Passed,
    PickDate,
    PickReminders,
    /// Keep adding, or not.
    ToggleKeep,
    NextSuggestion,
    PrevSuggestion,
    TakeSuggestion,
    CloseSuggestions,
    Submit,
    Cancel,
}

/// What a key does in the add card: the suggestions under the title take
/// arrows, Enter, Tab and Esc while they are up; Ctrl+Enter adds from the
/// notes, where Enter is a new line.
pub open spec fn card_taken(k: Press, at: Spot, suggesting: bool, can_keep: bool) -> CardKey {
    if k.ctrl && k.name@ == "d"@ {
        CardKey::PickDate
    } else if k.ctrl && k.name@ == "r"@ {
        CardKey::PickReminders
    } else if k.ctrl && k.name@ == "k"@ && can_keep {
        CardKey::ToggleKeep
    } else if at == Spot::Title && suggesting && k.name@ == "Down"@ {
        CardKey::NextSuggestion
    } else if at == Spot::Title && suggesting && k.name@ == "Up"@ {
        CardKey::PrevSuggestion
    } else if at == Spot::Title && suggesting && (is_enter(k.name@) || k.name@ == "Tab"@) {
        CardKey::TakeSuggestion
    } else if at == Spot::Title && suggesting && k.name@ == "Escape"@ {
        CardKey::CloseSuggestions
    } else if at == Spot::Title && is_enter(k.name@) {
        CardKey::Submit
    } else if at == Spot::Title && k.name@ == "Escape"@ {
        CardKey::Cancel
    } else if at == Spot::Notes && is_enter(k.name@) && k.ctrl {
        CardKey::Submit
    } else {
        CardKey::Passed
    }
}

/// What a key does in the add card.
pub fn card_key(k: &Press, at: Spot, suggesting: bool, can_keep: bool) -> (r: CardKey)
    ensures
        r == card_taken(*k, at, suggesting, can_keep),
{
    let name = k.name.as_str();
    if k.ctrl && same(name, "d") {
        return CardKey::PickDate;
    }
    if k.ctrl && same(name, "r") {
        return CardKey::PickReminders;
    }
    if k.ctrl && same(name, "k") && can_keep {
        return CardKey::ToggleKeep;
    }
    if at == Spot::Title && suggesting {
        if same(name, "Down") {
            return CardKey::NextSuggestion;
        }
        if same(name, "Up") {
            return CardKey::PrevSuggestion;
        }
        if enters(name) || same(name, "Tab") {
            return CardKey::TakeSuggestion;
        }
        if same(name, "Escape") {
            return CardKey::CloseSuggestions;
        }
    }
    if at == Spot::Title && enters(name) {
        CardKey::Submit
    } else if at == Spot::Title && same(name, "Escape") {
        CardKey::Cancel
    } else if at == Spot::Notes && enters(name) && k.ctrl {
        CardKey::Submit
    } else {
        CardKey::Passed
    }
}

// -- what a key does ----------------------------------------------------------------------------

/// Where a text is among texts, first.
pub open spec fn index_of(s: Seq<Seq<char>>, x: Seq<char>) -> Option<int>
    decreases s.len(),
{
    if s.len() == 0 {
        None
    } else if s[0] == x {
        Some(0)
    } else {
        match index_of(s.skip(1), x) {
            Some(i) => Some(i + 1),
            None => None,
        }
    }
}

/// Where a text is among texts, first.
pub fn find_index(v: &Vec<String>, x: &str) -> (r: Option<usize>)
    ensures
        match r {
            Some(i) => i < v@.len() && index_of(texts(v@), x@) == Some(i as int),
            None => index_of(texts(v@), x@) is None,
        },
{
    let ghost s = texts(v@);
    assert(s.skip(0) == s);
    for i in 0..v.len()
        invariant
            s == texts(v@),
            index_of(s, x@) == (match index_of(s.skip(i as int), x@) {
                Some(j) => Some(j + i),
                None => None,
            }),
    {
        let ghost t = s.skip(i as int);
        assert(t[0] == v@[i as int]@);
        if same(v[i].as_str(), x) {
            return Some(i);
        }
        assert(t.skip(1) == s.skip(i + 1));
    }
    assert(s.skip(s.len() as int).len() == 0);
    None
}

/// The row that the cursor is on.
pub open spec fn cursor_row(w: Window, seen: Seen) -> Option<int> {
    match w.cursor {
        Some(c) => index_of(texts(seen.rows@), c@),
        None => None,
    }
}

/// The row that a key moves to.
pub open spec fn row_for(key: Key, at: Option<int>, count: int) -> Option<int> {
    if count == 0 {
        None
    } else {
        match key {
            Key::Down => Some(
                match at {
                    Some(i) => if i + 1 < count {
                        i + 1
                    } else {
                        count - 1
                    },
                    None => 0,
                },
            ),
            Key::Up => Some(
                match at {
                    Some(i) => if i > 0 {
                        i - 1
                    } else {
                        0
                    },
                    None => 0,
                },
            ),
            Key::First => Some(0),
            Key::Last => Some(count - 1),
            _ => None,
        }
    }
}

/// The cursor moves to a row. That closes the task open in place; the rebuild
/// then puts the keyboard on the row.
pub open spec fn moves(old: Window, i: int, seen: Seen, new: Window, r: Step) -> bool {
    &&& new.cursor == Some(seen.rows@[i])
    &&& if old.editing is Some {
        &&& closes(
            Window { refocus: Refocus::Row, ..old },
            seen,
            Window { cursor: old.editing, ..new },
            r.edits@,
        )
        &&& makes(r, Seq::empty(), r.edits@)
    } else {
        &&& closes(old, seen, Window { cursor: old.cursor, ..new }, r.edits@)
        &&& makes(r, seq![Do::FocusRow(i as usize)], r.edits@)
    }
}

/// The view before or after this one, around the ends; the first when this
/// one is not in the sidebar.
pub open spec fn view_beside(w: Window, next: bool) -> NavView {
    let all = w.views();
    let n = all.len() as int;
    let at = match nav_index(all, w.nav@) {
        Some(i) => i,
        None => 0,
    };
    if next {
        if at + 1 < n {
            all[at + 1]
        } else {
            all[0]
        }
    } else {
        if at > 0 {
            all[at - 1]
        } else {
            all[n - 1]
        }
    }
}

/// Where a view is among views, first.
pub open spec fn nav_index(s: Seq<NavView>, x: NavView) -> Option<int>
    decreases s.len(),
{
    if s.len() == 0 {
        None
    } else if s[0] == x {
        Some(0)
    } else {
        match nav_index(s.skip(1), x) {
            Some(i) => Some(i + 1),
            None => None,
        }
    }
}

fn find_nav(v: &Vec<Nav>, x: &Nav) -> (r: Option<usize>)
    ensures
        match r {
            Some(i) => i < v@.len() && nav_index(navs(v@), x@) == Some(i as int),
            None => nav_index(navs(v@), x@) is None,
        },
{
    let ghost s = navs(v@);
    assert(s.skip(0) == s);
    for i in 0..v.len()
        invariant
            s == navs(v@),
            nav_index(s, x@) == (match nav_index(s.skip(i as int), x@) {
                Some(j) => Some(j + i),
                None => None,
            }),
    {
        let ghost t = s.skip(i as int);
        assert(t[0] == v@[i as int]@);
        if v[i].is(x) {
            return Some(i);
        }
        assert(t.skip(1) == s.skip(i + 1));
    }
    assert(s.skip(s.len() as int).len() == 0);
    None
}

/// The view that a key goes to.
pub open spec fn view_for(w: Window, to: Nav0) -> Option<NavView> {
    match to {
        Nav0::Inbox => Some(NavView::Inbox),
        Nav0::Today => Some(NavView::Today),
        Nav0::Scheduled => Some(NavView::Scheduled),
        Nav0::List(i) => {
            let lists = w.prefs.arrangement(w.lists@);
            if i < lists.len() {
                Some(NavView::List(lists[i as int].href@))
            } else {
                None
            }
        },
    }
}

/// A step that goes to a view.
pub open spec fn goes_to(r: Step, n: NavView) -> bool {
    &&& r.acts@.len() == 1
    &&& r.acts@[0] matches Do::Send(Msg::Navigate(v)) && v@ == n
    &&& makes(r, r.acts@, Seq::empty())
}

/// What a key sends that needs nothing but the key.
pub open spec fn key_sends(w: Window, key: Key) -> Option<Msg> {
    match key {
        Key::Add => Some(Msg::ShowAdd(None)),
        Key::Find => Some(Msg::QuickFind),
        Key::Sync => Some(Msg::SyncNow),
        Key::NewList => Some(Msg::NewList),
        Key::Shortcuts => Some(Msg::Shortcuts),
        Key::Preferences => Some(Msg::Preferences(None)),
        Key::Sidebar => Some(Msg::ToggleSidebar),
        Key::Close => Some(Msg::CloseWindow),
        Key::Quit => Some(Msg::Quit),
        Key::Paste => Some(Msg::Paste),
        Key::Select => Some(Msg::SelectMode(!w.select_mode)),
        Key::Escape => if w.select_mode {
            Some(Msg::SelectMode(false))
        } else if w.editing is Some {
            Some(Msg::CloseEditor)
        } else if w.adding is Some {
            Some(Msg::HideAdd)
        } else {
            None
        },
        _ => None,
    }
}

/// A change of a task's date to some days from today.
pub open spec fn to_day_from(t: TaskView, seen: Seen, days: int) -> Change {
    Change {
        due: Some(
            SetDue::Move(
                moved_to(
                    t.task.due,
                    Date { ce: (seen.now.day() + days) as i32 },
                    seen.now.zone@,
                ),
            ),
        ),
        ..no_change()
    }
}

/// `d` was pressed a moment ago.
pub open spec fn second_d(w: Window, seen: Seen) -> bool {
    w.pending_d matches Some(p) && seen.at < p + 800
}

/// The row the cursor goes to when its own is deleted: the next, or else the
/// one before.
pub open spec fn cursor_after(rows: Seq<String>, i: int) -> Option<String> {
    if i + 1 < rows.len() {
        Some(rows[i + 1])
    } else if i > 0 {
        Some(rows[i - 1])
    } else {
        None
    }
}

/// What a key does to the task the cursor is on.
pub open spec fn task_key(old: Window, key: Key, t: TaskView, seen: Seen, new: Window, r: Step) -> bool {
    match key {
        Key::Open => new == old && asks(r, seq![Do::Send(Msg::Open(t.href))]),
        Key::Toggle => new == old && asks(
            r,
            seq![Do::Send(Msg::Check(t.href, t.task.open && on_its_way(old, t.href@) is None))],
        ),
        Key::Priority(level) => new == old && asks(
            r,
            seq![
                Do::Send(Msg::Edit(t.href, Change { priority: Some(level), ..no_change() })),
            ],
        ),
        Key::Today => new == old && asks(
            r,
            seq![Do::Send(Msg::Edit(t.href, to_day_from(t, seen, 0)))],
        ),
        Key::Tomorrow => new == old && asks(
            r,
            seq![Do::Send(Msg::Edit(t.href, to_day_from(t, seen, 1)))],
        ),
        Key::NextWeek => new == old && asks(
            r,
            seq![Do::Send(Msg::Edit(t.href, to_day_from(t, seen, 7)))],
        ),
        Key::Delete => if second_d(old, seen) {
            &&& new == (Window {
                pending_d: None,
                cursor: match cursor_row(old, seen) {
                    Some(i) => cursor_after(seen.rows@, i),
                    None => old.cursor,
                },
                ..old
            })
            &&& asks(r, seq![Do::Send(Msg::Delete(t.href))])
        } else {
            &&& new == (Window { pending_d: Some(seen.at), ..old })
            &&& asks(r, Seq::empty())
        },
        _ => true,
    }
}

/// A key that does something to the task the cursor is on.
pub open spec fn is_task_key(key: Key) -> bool {
    key is Open || key is Toggle || key is Delete || key is Priority || key is Today
        || key is Tomorrow || key is NextWeek
}

/// What a key does.
pub open spec fn presses(before: Window, key: Key, seen: Seen, new: Window, r: Step) -> bool {
    let old = if key is Delete {
        before
    } else {
        Window { pending_d: None, ..before }
    };
    if is_task_key(key) {
        match old.cursor {
            Some(c) => match old.task(c@) {
                Some(t) => task_key(old, key, t, seen, new, r),
                None => new == old && asks(r, Seq::empty()),
            },
            None => new == old && asks(r, Seq::empty()),
        }
    } else if key is Down || key is Up || key is First || key is Last {
        match row_for(key, cursor_row(old, seen), seen.rows@.len() as int) {
            Some(i) => moves(old, i, seen, new, r),
            None => new == old && asks(r, Seq::empty()),
        }
    } else if key is PrevView || key is NextView {
        &&& new == old
        &&& if old.views().len() == 0 {
            asks(r, Seq::empty())
        } else {
            goes_to(r, view_beside(old, key is NextView))
        }
    } else if key is Go {
        &&& new == old
        &&& match view_for(old, key->Go_0) {
            Some(n) => goes_to(r, n),
            None => asks(r, Seq::empty()),
        }
    } else {
        &&& new == old
        &&& match key_sends(old, key) {
            Some(m) => asks(r, seq![Do::Send(m)]),
            None => asks(r, Seq::empty()),
        }
    }
}

impl Seen {
    /// Whether what is seen can be worked with.
    pub fn in_range(&self) -> (r: bool)
        ensures
            r == self.wf(),
    {
        if !self.now.at.in_range() {
            return false;
        }
        crate::plan::in_calendar(self.now.today()) && self.at <= u64::MAX - 800 && self.row_ms
            <= u64::MAX - self.at
    }

    /// The present is known, and the days of the views fit the calendar.
    pub open spec fn wf(&self) -> bool {
        self.now.wf() && has_room(self.now.day()) && self.at + self.row_ms <= u64::MAX && self.at
            + 800 <= u64::MAX
    }
}

impl Window {
    fn row_of_cursor(&self, seen: &Seen) -> (r: Option<usize>)
        ensures
            match r {
                Some(i) => i < seen.rows@.len() && cursor_row(*self, *seen) == Some(i as int),
                None => cursor_row(*self, *seen) is None,
            },
    {
        match &self.cursor {
            Some(c) => find_index(&seen.rows, c.as_str()),
            None => None,
        }
    }

    fn move_to(&mut self, i: usize, seen: &Seen) -> (r: Step)
        requires
            old(self).wf(),
            i < seen.rows@.len(),
        ensures
            moves(*old(self), i as int, *seen, *final(self), r),
            final(self).wf(),
    {
        let mut acts: Vec<Do> = Vec::new();
        if self.editing.is_some() {
            self.refocus = Refocus::Row;
        }
        let (was, edits) = self.close_editor(seen);
        if !was {
            acts.push(Do::FocusRow(i));
            assert(acts@ =~= seq![Do::FocusRow(i)]);
        } else {
            assert(acts@ =~= Seq::<Do>::empty());
        }
        let ghost mid = *self;
        self.cursor = Some(seen.rows[i].clone());
        proof {
            if old(self).editing is Some {
                assert(Window { cursor: old(self).editing, ..*self } == mid);
            } else {
                assert(Window { cursor: old(self).cursor, ..*self } == mid);
            }
        }
        Step::with(acts, edits)
    }

    fn press_task(&mut self, key: Key, seen: &Seen) -> (r: Step)
        requires
            old(self).wf(),
            seen.wf(),
            is_task_key(key),
        ensures
            match old(self).cursor {
                Some(c) => match old(self).task(c@) {
                    Some(t) => task_key(*old(self), key, t, *seen, *final(self), r),
                    None => *final(self) == *old(self) && asks(r, Seq::empty()),
                },
                None => *final(self) == *old(self) && asks(r, Seq::empty()),
            },
            final(self).wf(),
    {
        let at = self.row_of_cursor(seen);
        let today = seen.now.today();
        let (href, msg): (String, Option<Msg>) = match self.cursor_task() {
            None => {
                return Step::draw();
            },
            Some(t) => {
                let href = t.href.clone();
                let h = href.clone();
                let msg: Option<Msg> = match key {
                    Key::Open => Some(Msg::Open(h)),
                    Key::Toggle => {
                        let going = find_state(&self.completing, h.as_str());
                        Some(Msg::Check(h, t.task.open && going.is_none()))
                    },
                    Key::Priority(level) => Some(Msg::Edit(h, Change::to_level(level))),
                    Key::Today => Some(Msg::Edit(h, Change::to_day(t, today, &seen.now.zone))),
                    Key::Tomorrow => Some(
                        Msg::Edit(h, Change::to_day(t, today.plus(1), &seen.now.zone)),
                    ),
                    Key::NextWeek => Some(
                        Msg::Edit(h, Change::to_day(t, today.plus(7), &seen.now.zone)),
                    ),
                    _ => None,
                };
                (href, msg)
            },
        };
        match msg {
            Some(m) => Step::one(Do::Send(m)),
            None => {
                let soon: bool = match self.pending_d {
                    Some(p) => seen.at < p || seen.at - p < 800,
                    None => false,
                };
                if !soon {
                    self.pending_d = Some(seen.at);
                    return Step::draw();
                }
                self.pending_d = None;
                let count = seen.rows.len();
                if let Some(i) = at {
                    self.cursor = if i + 1 < count {
                        Some(seen.rows[i + 1].clone())
                    } else if i > 0 {
                        Some(seen.rows[i - 1].clone())
                    } else {
                        None
                    };
                }
                Step::one(Do::Send(Msg::Delete(href)))
            },
        }
    }

    fn press_view(&self, next: bool) -> (r: Step)
        ensures
            if self.views().len() == 0 {
                asks(r, Seq::empty())
            } else {
                goes_to(r, view_beside(*self, next))
            },
    {
        let order = self.nav_order();
        let n = order.len();
        assert(navs(order@).len() == n);
        if n == 0 {
            return Step::draw();
        }
        let at: usize = match find_nav(&order, &self.nav) {
            Some(i) => i,
            None => 0,
        };
        let to: usize = if next {
            if at + 1 < n {
                at + 1
            } else {
                0
            }
        } else {
            if at > 0 {
                at - 1
            } else {
                n - 1
            }
        };
        assert(navs(order@)[to as int] == order@[to as int]@);
        let r = Step::one(Do::Send(Msg::Navigate(order[to].clone())));
        assert(r.edits@ =~= Seq::<Edit>::empty());
        r
    }

    fn press_go(&self, to: Nav0) -> (r: Step)
        ensures
            match view_for(*self, to) {
                Some(n) => goes_to(r, n),
                None => asks(r, Seq::empty()),
            },
    {
        let nav: Nav = match to {
            Nav0::Inbox => Nav::Inbox,
            Nav0::Today => Nav::Today,
            Nav0::Scheduled => Nav::Scheduled,
            Nav0::List(i) => {
                let lists = self.prefs.arrange(&self.lists);
                assert(crate::prefs::plain_lists(lists@).len() == lists@.len());
                if i < lists.len() {
                    assert(crate::prefs::plain_lists(lists@)[i as int] == *lists@[i as int]);
                    Nav::List(lists[i].href.clone())
                } else {
                    return Step::draw();
                }
            },
        };
        let r = Step::one(Do::Send(Msg::Navigate(nav)));
        assert(r.edits@ =~= Seq::<Edit>::empty());
        r
    }

    /// What a key does.
    pub fn key(&mut self, key: Key, seen: &Seen) -> (r: Step)
        requires
            old(self).wf(),
            seen.wf(),
        ensures
            presses(*old(self), key, *seen, *final(self), r),
            final(self).wf(),
    {
        match key {
            Key::Delete => {
                return self.press_task(key, seen);
            },
            _ => {
                self.pending_d = None;
            },
        }
        let at = self.row_of_cursor(seen);
        let count = seen.rows.len();
        let msg: Msg = match key {
            Key::Open | Key::Toggle | Key::Delete | Key::Priority(_) | Key::Today | Key::Tomorrow
            | Key::NextWeek => {
                return self.press_task(key, seen);
            },
            Key::Down | Key::Up | Key::First | Key::Last => {
                if count == 0 {
                    return Step::draw();
                }
                let to: usize = match key {
                    Key::Down => match at {
                        Some(i) => if i + 1 < count {
                            i + 1
                        } else {
                            count - 1
                        },
                        None => 0,
                    },
                    Key::Up => match at {
                        Some(i) => if i > 0 {
                            i - 1
                        } else {
                            0
                        },
                        None => 0,
                    },
                    Key::First => 0,
                    _ => count - 1,
                };
                return self.move_to(to, seen);
            },
            Key::PrevView => {
                return self.press_view(false);
            },
            Key::NextView => {
                return self.press_view(true);
            },
            Key::Go(to) => {
                return self.press_go(to);
            },
            Key::Add => Msg::ShowAdd(None),
            Key::Find => Msg::QuickFind,
            Key::Sync => Msg::SyncNow,
            Key::NewList => Msg::NewList,
            Key::Shortcuts => Msg::Shortcuts,
            Key::Preferences => Msg::Preferences(None),
            Key::Sidebar => Msg::ToggleSidebar,
            Key::Close => Msg::CloseWindow,
            Key::Quit => Msg::Quit,
            Key::Paste => Msg::Paste,
            Key::Select => Msg::SelectMode(!self.select_mode),
            Key::Escape => {
                if self.select_mode {
                    Msg::SelectMode(false)
                } else if self.editing.is_some() {
                    Msg::CloseEditor
                } else if self.adding.is_some() {
                    Msg::HideAdd
                } else {
                    return Step::draw();
                }
            },
        };
        Step::one(Do::Send(msg))
    }
}

/// Going to the next view and then to the one before comes back, and so the
/// other way around, where every view is in the sidebar once.
pub proof fn next_and_back(a: Window, b: Window, next: bool)
    requires
        a.views().no_duplicates(),
        a.views().contains(a.nav@),
        b.views() == a.views(),
        b.nav@ == view_beside(a, next),
    ensures
        view_beside(b, !next) == a.nav@,
{
    let all = a.views();
    let n = all.len() as int;
    let i = choose|i: int| 0 <= i < n && all[i] == a.nav@;
    lemma_nav_index(all, i);
    let j = if next {
        if i + 1 < n {
            i + 1
        } else {
            0
        }
    } else {
        if i > 0 {
            i - 1
        } else {
            n - 1
        }
    };
    assert(b.nav@ == all[j]);
    lemma_nav_index(all, j);
}

proof fn lemma_nav_index(s: Seq<NavView>, i: int)
    requires
        s.no_duplicates(),
        0 <= i < s.len(),
    ensures
        nav_index(s, s[i]) == Some(i),
    decreases s.len(),
{
    if i > 0 {
        assert(s[0] != s[i]);
        let t = s.skip(1);
        assert(t.no_duplicates()) by {
            assert forall|j: int, k: int| 0 <= j < t.len() && 0 <= k < t.len() && j
                != k implies t[j] != t[k] by {
                assert(s[j + 1] != s[k + 1]);
            }
        }
        assert(t[i - 1] == s[i]);
        lemma_nav_index(t, i - 1);
    }
}

} // verus!
