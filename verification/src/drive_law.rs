//! What the commands of a script ask for.

use vstd::prelude::*;

use crate::cli::alike;
use crate::drive::{Drive, command_parts, first_task, meant_list, meant_task, titled};
use crate::nav::Nav;
use crate::task::{ListView, TaskView};
use crate::text::{contains, lowercase_text, trim};
use crate::update::{Key, Msg};
use crate::window::Window;

verus! {

/// The verbs, letter by letter.
proof fn lemma_verbs()
    ensures
        "clear"@.len() == 5 && "clear"@[0] == 'c' && "clear"@[1] == 'l' && "clear"@[2] == 'e' && "clear"@[3] == 'a' && "clear"@[4] == 'r',
        "clear!"@.len() == 6 && "clear!"@[0] == 'c' && "clear!"@[1] == 'l' && "clear!"@[2] == 'e' && "clear!"@[3] == 'a' && "clear!"@[4] == 'r' && "clear!"@[5] == '!',
        "archive"@.len() == 7 && "archive"@[0] == 'a' && "archive"@[1] == 'r' && "archive"@[2] == 'c' && "archive"@[3] == 'h' && "archive"@[4] == 'i' && "archive"@[5] == 'v' && "archive"@[6] == 'e',
        "unarchive"@.len() == 9 && "unarchive"@[0] == 'u' && "unarchive"@[1] == 'n' && "unarchive"@[2] == 'a' && "unarchive"@[3] == 'r' && "unarchive"@[4] == 'c' && "unarchive"@[5] == 'h' && "unarchive"@[6] == 'i' && "unarchive"@[7] == 'v' && "unarchive"@[8] == 'e',
        "order"@.len() == 5 && "order"@[0] == 'o' && "order"@[1] == 'r' && "order"@[2] == 'd' && "order"@[3] == 'e' && "order"@[4] == 'r',
        "opts"@.len() == 4 && "opts"@[0] == 'o' && "opts"@[1] == 'p' && "opts"@[2] == 't' && "opts"@[3] == 's',
        "nav"@.len() == 3 && "nav"@[0] == 'n' && "nav"@[1] == 'a' && "nav"@[2] == 'v',
        "open-task"@.len() == 9 && "open-task"@[0] == 'o' && "open-task"@[1] == 'p' && "open-task"@[2] == 'e' && "open-task"@[3] == 'n' && "open-task"@[4] == '-' && "open-task"@[5] == 't' && "open-task"@[6] == 'a' && "open-task"@[7] == 's' && "open-task"@[8] == 'k',
        "open"@.len() == 4 && "open"@[0] == 'o' && "open"@[1] == 'p' && "open"@[2] == 'e' && "open"@[3] == 'n',
        "reveal"@.len() == 6 && "reveal"@[0] == 'r' && "reveal"@[1] == 'e' && "reveal"@[2] == 'v' && "reveal"@[3] == 'e' && "reveal"@[4] == 'a' && "reveal"@[5] == 'l',
        "check"@.len() == 5 && "check"@[0] == 'c' && "check"@[1] == 'h' && "check"@[2] == 'e' && "check"@[3] == 'c' && "check"@[4] == 'k',
        "select"@.len() == 6 && "select"@[0] == 's' && "select"@[1] == 'e' && "select"@[2] == 'l' && "select"@[3] == 'e' && "select"@[4] == 'c' && "select"@[5] == 't',
        "menu"@.len() == 4 && "menu"@[0] == 'm' && "menu"@[1] == 'e' && "menu"@[2] == 'n' && "menu"@[3] == 'u',
        "hide"@.len() == 4 && "hide"@[0] == 'h' && "hide"@[1] == 'i' && "hide"@[2] == 'd' && "hide"@[3] == 'e',
        "drop"@.len() == 4 && "drop"@[0] == 'd' && "drop"@[1] == 'r' && "drop"@[2] == 'o' && "drop"@[3] == 'p',
        "cursor"@.len() == 6 && "cursor"@[0] == 'c' && "cursor"@[1] == 'u' && "cursor"@[2] == 'r' && "cursor"@[3] == 's' && "cursor"@[4] == 'o' && "cursor"@[5] == 'r',
        "addtext"@.len() == 7 && "addtext"@[0] == 'a' && "addtext"@[1] == 'd' && "addtext"@[2] == 'd' && "addtext"@[3] == 't' && "addtext"@[4] == 'e' && "addtext"@[5] == 'x' && "addtext"@[6] == 't',
        "newline"@.len() == 7 && "newline"@[0] == 'n' && "newline"@[1] == 'e' && "newline"@[2] == 'w' && "newline"@[3] == 'l' && "newline"@[4] == 'i' && "newline"@[5] == 'n' && "newline"@[6] == 'e',
        "key"@.len() == 3 && "key"@[0] == 'k' && "key"@[1] == 'e' && "key"@[2] == 'y',
        "popup"@.len() == 5 && "popup"@[0] == 'p' && "popup"@[1] == 'o' && "popup"@[2] == 'p' && "popup"@[3] == 'u' && "popup"@[4] == 'p',
        "popdown"@.len() == 7 && "popdown"@[0] == 'p' && "popdown"@[1] == 'o' && "popdown"@[2] == 'p' && "popdown"@[3] == 'd' && "popdown"@[4] == 'o' && "popdown"@[5] == 'w' && "popdown"@[6] == 'n',
        "add"@.len() == 3 && "add"@[0] == 'a' && "add"@[1] == 'd' && "add"@[2] == 'd',
        "pick"@.len() == 4 && "pick"@[0] == 'p' && "pick"@[1] == 'i' && "pick"@[2] == 'c' && "pick"@[3] == 'k',
        "type"@.len() == 4 && "type"@[0] == 't' && "type"@[1] == 'y' && "type"@[2] == 'p' && "type"@[3] == 'e',
        "submit"@.len() == 6 && "submit"@[0] == 's' && "submit"@[1] == 'u' && "submit"@[2] == 'b' && "submit"@[3] == 'm' && "submit"@[4] == 'i' && "submit"@[5] == 't',
        "title"@.len() == 5 && "title"@[0] == 't' && "title"@[1] == 'i' && "title"@[2] == 't' && "title"@[3] == 'l' && "title"@[4] == 'e',
        "notes"@.len() == 5 && "notes"@[0] == 'n' && "notes"@[1] == 'o' && "notes"@[2] == 't' && "notes"@[3] == 'e' && "notes"@[4] == 's',
        "close"@.len() == 5 && "close"@[0] == 'c' && "close"@[1] == 'l' && "close"@[2] == 'o' && "close"@[3] == 's' && "close"@[4] == 'e',
        "prefs"@.len() == 5 && "prefs"@[0] == 'p' && "prefs"@[1] == 'r' && "prefs"@[2] == 'e' && "prefs"@[3] == 'f' && "prefs"@[4] == 's',
        "unfocus"@.len() == 7 && "unfocus"@[0] == 'u' && "unfocus"@[1] == 'n' && "unfocus"@[2] == 'f' && "unfocus"@[3] == 'o' && "unfocus"@[4] == 'c' && "unfocus"@[5] == 'u' && "unfocus"@[6] == 's',
        "switch"@.len() == 6 && "switch"@[0] == 's' && "switch"@[1] == 'w' && "switch"@[2] == 'i' && "switch"@[3] == 't' && "switch"@[4] == 'c' && "switch"@[5] == 'h',
        "close-window"@.len() == 12 && "close-window"@[0] == 'c' && "close-window"@[1] == 'l' && "close-window"@[2] == 'o' && "close-window"@[3] == 's' && "close-window"@[4] == 'e' && "close-window"@[5] == '-' && "close-window"@[6] == 'w' && "close-window"@[7] == 'i' && "close-window"@[8] == 'n' && "close-window"@[9] == 'd' && "close-window"@[10] == 'o' && "close-window"@[11] == 'w',
        "state"@.len() == 5 && "state"@[0] == 's' && "state"@[1] == 't' && "state"@[2] == 'a' && "state"@[3] == 't' && "state"@[4] == 'e',
        "focus"@.len() == 5 && "focus"@[0] == 'f' && "focus"@[1] == 'o' && "focus"@[2] == 'c' && "focus"@[3] == 'u' && "focus"@[4] == 's',
        "click"@.len() == 5 && "click"@[0] == 'c' && "click"@[1] == 'l' && "click"@[2] == 'i' && "click"@[3] == 'c' && "click"@[4] == 'k',
        "find"@.len() == 4 && "find"@[0] == 'f' && "find"@[1] == 'i' && "find"@[2] == 'n' && "find"@[3] == 'd',
        "shortcuts"@.len() == 9 && "shortcuts"@[0] == 's' && "shortcuts"@[1] == 'h' && "shortcuts"@[2] == 'o' && "shortcuts"@[3] == 'r' && "shortcuts"@[4] == 't' && "shortcuts"@[5] == 'c' && "shortcuts"@[6] == 'u' && "shortcuts"@[7] == 't' && "shortcuts"@[8] == 's',
        "about"@.len() == 5 && "about"@[0] == 'a' && "about"@[1] == 'b' && "about"@[2] == 'o' && "about"@[3] == 'u' && "about"@[4] == 't',
        "newlist"@.len() == 7 && "newlist"@[0] == 'n' && "newlist"@[1] == 'e' && "newlist"@[2] == 'w' && "newlist"@[3] == 'l' && "newlist"@[4] == 'i' && "newlist"@[5] == 's' && "newlist"@[6] == 't',
        "scheme"@.len() == 6 && "scheme"@[0] == 's' && "scheme"@[1] == 'c' && "scheme"@[2] == 'h' && "scheme"@[3] == 'e' && "scheme"@[4] == 'm' && "scheme"@[5] == 'e',
        "size"@.len() == 4 && "size"@[0] == 's' && "size"@[1] == 'i' && "size"@[2] == 'z' && "size"@[3] == 'e',
        "scroll"@.len() == 6 && "scroll"@[0] == 's' && "scroll"@[1] == 'c' && "scroll"@[2] == 'r' && "scroll"@[3] == 'o' && "scroll"@[4] == 'l' && "scroll"@[5] == 'l',
        "close-dialog"@.len() == 12 && "close-dialog"@[0] == 'c' && "close-dialog"@[1] == 'l' && "close-dialog"@[2] == 'o' && "close-dialog"@[3] == 's' && "close-dialog"@[4] == 'e' && "close-dialog"@[5] == '-' && "close-dialog"@[6] == 'd' && "close-dialog"@[7] == 'i' && "close-dialog"@[8] == 'a' && "close-dialog"@[9] == 'l' && "close-dialog"@[10] == 'o' && "close-dialog"@[11] == 'g',
{

    reveal_strlit("clear");
    reveal_strlit("clear!");
    reveal_strlit("archive");
    reveal_strlit("unarchive");
    reveal_strlit("order");
    reveal_strlit("opts");
    reveal_strlit("nav");
    reveal_strlit("open-task");
    reveal_strlit("open");
    reveal_strlit("reveal");
    reveal_strlit("check");
    reveal_strlit("select");
    reveal_strlit("menu");
    reveal_strlit("hide");
    reveal_strlit("drop");
    reveal_strlit("cursor");
    reveal_strlit("addtext");
    reveal_strlit("newline");
    reveal_strlit("key");
    reveal_strlit("popup");
    reveal_strlit("popdown");
    reveal_strlit("add");
    reveal_strlit("pick");
    reveal_strlit("type");
    reveal_strlit("submit");
    reveal_strlit("title");
    reveal_strlit("notes");
    reveal_strlit("close");
    reveal_strlit("prefs");
    reveal_strlit("unfocus");
    reveal_strlit("switch");
    reveal_strlit("close-window");
    reveal_strlit("state");
    reveal_strlit("focus");
    reveal_strlit("click");
    reveal_strlit("find");
    reveal_strlit("shortcuts");
    reveal_strlit("about");
    reveal_strlit("newlist");
    reveal_strlit("scheme");
    reveal_strlit("size");
    reveal_strlit("scroll");
    reveal_strlit("close-dialog");
}

/// The names of keys, letter by letter.
proof fn lemma_keys()
    ensures
        "j"@.len() == 1 && "j"@[0] == 'j',
        "k"@.len() == 1 && "k"@[0] == 'k',
        "x"@.len() == 1 && "x"@[0] == 'x',
        "e"@.len() == 1 && "e"@[0] == 'e',
        "a"@.len() == 1 && "a"@[0] == 'a',
        "d"@.len() == 1 && "d"@[0] == 'd',
        "t"@.len() == 1 && "t"@[0] == 't',
        "m"@.len() == 1 && "m"@[0] == 'm',
        "v"@.len() == 1 && "v"@[0] == 'v',
        "Escape"@.len() == 6 && "Escape"@[0] == 'E' && "Escape"@[1] == 's' && "Escape"@[2] == 'c' && "Escape"@[3] == 'a' && "Escape"@[4] == 'p' && "Escape"@[5] == 'e',
        "ctrl+w"@.len() == 6 && "ctrl+w"@[0] == 'c' && "ctrl+w"@[1] == 't' && "ctrl+w"@[2] == 'r' && "ctrl+w"@[3] == 'l' && "ctrl+w"@[4] == '+' && "ctrl+w"@[5] == 'w',
        "ctrl+q"@.len() == 6 && "ctrl+q"@[0] == 'c' && "ctrl+q"@[1] == 't' && "ctrl+q"@[2] == 'r' && "ctrl+q"@[3] == 'l' && "ctrl+q"@[4] == '+' && "ctrl+q"@[5] == 'q',
        "1"@.len() == 1 && "1"@[0] == '1',
        "2"@.len() == 1 && "2"@[0] == '2',
        "3"@.len() == 1 && "3"@[0] == '3',
        "4"@.len() == 1 && "4"@[0] == '4',
{

    reveal_strlit("j");
    reveal_strlit("k");
    reveal_strlit("x");
    reveal_strlit("e");
    reveal_strlit("a");
    reveal_strlit("d");
    reveal_strlit("t");
    reveal_strlit("m");
    reveal_strlit("v");
    reveal_strlit("Escape");
    reveal_strlit("ctrl+w");
    reveal_strlit("ctrl+q");
    reveal_strlit("1");
    reveal_strlit("2");
    reveal_strlit("3");
    reveal_strlit("4");
}

/// A command is a verb, a space, and what the verb is about.
pub open spec fn is_command(command: Seq<char>, verb: Seq<char>, arg: Seq<char>) -> bool {
    &&& forall|i: int| 0 <= i < verb.len() ==> #[trigger] verb[i] != ' '
    &&& command == verb + seq![' '] + arg
}

proof fn lemma_command(command: Seq<char>, verb: Seq<char>, arg: Seq<char>)
    requires
        is_command(command, verb, arg),
    ensures
        command_parts(command) == (verb, arg),
{
    let n = verb.len() as int;
    assert(command[n] == ' ');
    assert forall|i: int| 0 <= i < n implies command[i] != ' ' by {
        assert(command[i] == verb[i]);
    }
    crate::text::lemma_first_of(command, ' ');
    assert(command.take(n) =~= verb);
    assert(command.skip(n + 1) =~= arg);
}

/// At `i` stands the first task whose title has the words in it, in any case.
pub open spec fn first_titled(s: Seq<TaskView>, i: int, words: Seq<char>) -> bool {
    &&& 0 <= i < s.len() && contains(lowercase_text(s[i].task.summary@), lowercase_text(words))
    &&& forall|j: int|
        0 <= j < i ==> !contains(
            lowercase_text((#[trigger] s[j]).task.summary@),
            lowercase_text(words),
        )
}

proof fn lemma_titled(s: Seq<TaskView>, i: int, words: Seq<char>)
    requires
        first_titled(s, i, words),
    ensures
        first_task(s, titled(words)) == Some(s[i]),
    decreases s.len(),
{
    if i > 0 {
        let t = s.skip(1);
        assert(!titled(words)(s[0]));
        assert forall|j: int| 0 <= j < i - 1 implies !contains(
            lowercase_text((#[trigger] t[j]).task.summary@),
            lowercase_text(words),
        ) by {
            assert(t[j] == s[j + 1]);
        }
        assert(t[i - 1] == s[i]);
        lemma_titled(t, i - 1, words);
    }
}

/// A command about a task means the first open one whose title has the words
/// in it, and asks for that one what it says.
pub proof fn tasks_are_driven(
    w: &mut Window,
    command: &str,
    r: Option<Drive>,
    verb: Seq<char>,
    arg: Seq<char>,
    i: int,
)
    requires
        call_ensures(Window::drive, (w, command), r),
        is_command(command@, verb, arg),
        first_titled(old(w).open@, i, arg),
    ensures
        ({
            let h = old(w).open@[i].href;
            &&& verb == "open"@ ==> r == Some(Drive::Send(Msg::Open(h)))
            &&& verb == "open-task"@ ==> r == Some(Drive::Send(Msg::OpenTask(h)))
            &&& verb == "reveal"@ ==> r == Some(Drive::Send(Msg::Reveal(h)))
            &&& verb == "check"@ ==> r == Some(Drive::Send(Msg::Check(h, true)))
            &&& verb == "select"@ ==> r == Some(Drive::Send(Msg::SelectToggle(h)))
            &&& verb == "menu"@ ==> r == Some(Drive::Menu(h))
            &&& verb == "cursor"@ ==> r is None && final(w).cursor == Some(h)
            &&& verb != "cursor"@ ==> *final(w) == *old(w)
        }),
{
    lemma_verbs();
    lemma_command(command@, verb, arg);
    lemma_titled(old(w).open@, i, arg);
    assert(meant_task(*old(w), arg) == Some(old(w).open@[i]));
}

/// At `i` stands the first list of the name, in any case.
pub open spec fn first_named(s: Seq<ListView>, i: int, name: Seq<char>) -> bool {
    &&& 0 <= i < s.len() && alike(s[i].name@, name)
    &&& forall|j: int| 0 <= j < i ==> !alike((#[trigger] s[j]).name@, name)
}

proof fn lemma_named(s: Seq<ListView>, i: int, name: Seq<char>)
    requires
        first_named(s, i, name),
    ensures
        meant_list(s, name) == Some(s[i]),
    decreases s.len(),
{
    let p = |l: ListView| alike(l.name@, name);
    lemma_first(s, p, i);
}

proof fn lemma_first(s: Seq<ListView>, p: spec_fn(ListView) -> bool, i: int)
    requires
        0 <= i < s.len(),
        p(s[i]),
        forall|j: int| 0 <= j < i ==> !p(#[trigger] s[j]),
    ensures
        crate::plan::first_list(s, p) == Some(s[i]),
    decreases s.len(),
{
    if i > 0 {
        let t = s.skip(1);
        assert(!p(s[0]));
        assert forall|j: int| 0 <= j < i - 1 implies !p(#[trigger] t[j]) by {
            assert(t[j] == s[j + 1]);
        }
        assert(t[i - 1] == s[i]);
        lemma_first(t, p, i - 1);
    }
}

/// A command about a list means the first of that name.
pub proof fn lists_are_driven(
    w: &mut Window,
    command: &str,
    r: Option<Drive>,
    verb: Seq<char>,
    arg: Seq<char>,
    i: int,
)
    requires
        call_ensures(Window::drive, (w, command), r),
        is_command(command@, verb, arg),
        arg.len() > 0,
        first_named(old(w).lists@, i, trim(arg)),
    ensures
        ({
            let h = old(w).lists@[i].href;
            &&& verb == "archive"@ ==> r == Some(Drive::Send(Msg::Archive(h, true)))
            &&& verb == "unarchive"@ ==> r == Some(Drive::Send(Msg::Archive(h, false)))
            &&& verb == "clear"@ ==> r == Some(Drive::Send(Msg::AskDeleteCompleted(Some(h))))
            &&& verb == "clear!"@ ==> r == Some(Drive::Send(Msg::DeleteCompleted(Some(h))))
            &&& *final(w) == *old(w) || verb == "cursor"@
        }),
{
    lemma_verbs();
    lemma_command(command@, verb, arg);
    lemma_named(old(w).lists@, i, trim(arg));
}

/// A command goes to a view by the name it is kept under, and leaves one out
/// of the sidebar.
pub proof fn views_are_driven(
    w: &mut Window,
    command: &str,
    r: Option<Drive>,
    verb: Seq<char>,
    arg: Seq<char>,
    n: &Nav,
    key: String,
)
    requires
        call_ensures(Window::drive, (w, command), r),
        is_command(command@, verb, arg),
        call_ensures(Nav::key, (n,), key),
        arg == key@,
    ensures
        verb == "nav"@ ==> (r matches Some(Drive::Send(Msg::Navigate(v))) && v@ == n@),
        verb == "hide"@ ==> (r matches Some(Drive::Send(Msg::HideView(v))) && v@ == n@),
{
    lemma_verbs();
    lemma_command(command@, verb, arg);
    crate::nav::keys_round_trip(n@);
}

/// A key is pressed by its name.
pub proof fn keys_are_driven(
    w: &mut Window,
    command: &str,
    r: Option<Drive>,
    arg: Seq<char>,
    key: Key,
)
    requires
        call_ensures(Window::drive, (w, command), r),
        is_command(command@, "key"@, arg),
    ensures
        ({
            let pressed = r == Some(Drive::Send(Msg::Key(key)));
            &&& arg == "j"@ ==> (pressed <==> key == Key::Down)
            &&& arg == "k"@ ==> (pressed <==> key == Key::Up)
            &&& arg == "x"@ ==> (pressed <==> key == Key::Toggle)
            &&& arg == "e"@ ==> (pressed <==> key == Key::Open)
            &&& arg == "a"@ ==> (pressed <==> key == Key::Add)
            &&& arg == "d"@ ==> (pressed <==> key == Key::Delete)
            &&& arg == "t"@ ==> (pressed <==> key == Key::Today)
            &&& arg == "m"@ ==> (pressed <==> key == Key::Tomorrow)
            &&& arg == "v"@ ==> (pressed <==> key == Key::Select)
            &&& arg == "Escape"@ ==> (pressed <==> key == Key::Escape)
            &&& arg == "ctrl+w"@ ==> (pressed <==> key == Key::Close)
            &&& arg == "ctrl+q"@ ==> (pressed <==> key == Key::Quit)
            &&& arg == "1"@ ==> (pressed <==> key == Key::Priority(1))
            &&& arg == "2"@ ==> (pressed <==> key == Key::Priority(2))
            &&& arg == "3"@ ==> (pressed <==> key == Key::Priority(3))
            &&& arg == "4"@ ==> (pressed <==> key == Key::Priority(4))
        }),
{
    lemma_verbs();
    lemma_keys();
    lemma_command(command@, "key"@, arg);
    assert(r == (match crate::drive::driven_key(arg) {
        Some(k) => Some(Drive::Send(Msg::Key(k))),
        None => None,
    }));
}

/// Any other command asks for what it says, with the words after it.
pub proof fn widgets_are_driven(
    w: &mut Window,
    command: &str,
    r: Option<Drive>,
    verb: Seq<char>,
    arg: Seq<char>,
)
    requires
        call_ensures(Window::drive, (w, command), r),
        is_command(command@, verb, arg),
    ensures
        verb == "newline"@ ==> r == Some(Drive::Newline),
        verb == "popup"@ ==> (r matches Some(Drive::Popup(s)) && s@ == arg),
        verb == "popdown"@ ==> r == Some(Drive::Popdown),
        verb == "add"@ ==> r == Some(Drive::Send(Msg::ShowAdd(None))),
        verb == "pick"@ ==> (r matches Some(Drive::Pick(s)) && s@ == lowercase_text(arg)),
        verb == "type"@ ==> (r matches Some(Drive::Type(s)) && s@ == arg),
        verb == "submit"@ ==> r == Some(Drive::Submit),
        verb == "title"@ ==> (r matches Some(Drive::Title(s)) && s@ == arg),
        verb == "notes"@ ==> (r matches Some(Drive::Notes(s)) && s@ == arg),
        verb == "close"@ ==> r == Some(Drive::Send(Msg::CloseEditor)),
        verb == "unfocus"@ ==> r == Some(Drive::Unfocus),
        verb == "switch"@ ==> (r matches Some(Drive::Switch(s)) && s@ == arg),
        verb == "close-window"@ ==> r == Some(Drive::CloseWindow),
        verb == "state"@ ==> r == Some(Drive::State),
        verb == "focus"@ ==> r == Some(Drive::Focus),
        verb == "click"@ ==> (r matches Some(Drive::Click(s)) && s@ == arg),
        verb == "find"@ ==> (r matches Some(Drive::Find(s)) && s@ == arg),
        verb == "shortcuts"@ ==> r == Some(Drive::Send(Msg::Shortcuts)),
        verb == "about"@ ==> r == Some(Drive::Send(Msg::About)),
        verb == "newlist"@ ==> r == Some(Drive::Send(Msg::NewList)),
        verb == "scheme"@ ==> (r matches Some(Drive::Scheme(s)) && s@ == arg),
        verb == "size"@ ==> (r matches Some(Drive::Size(s)) && s@ == arg),
        verb == "scroll"@ ==> (r matches Some(Drive::Scroll(s)) && s@ == arg),
        verb == "close-dialog"@ ==> r == Some(Drive::CloseDialog),
{
    lemma_verbs();
    lemma_command(command@, verb, arg);
}

} // verus!
