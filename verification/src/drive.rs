//! Development builds are driven from a script: `nav today`, `key j`,
//! `open <words>`. What a command means.

use vstd::prelude::*;
use vstd::string::*;

use crate::arrange::{order, sorted};
use crate::cli::alike;
use crate::nav::{DueFilter, Nav, NavView, OptsView, Sort, ViewOpts, view_of};
use crate::plan::in_list;
use crate::reorder::{fits, new_numbers, numbers, reorder_in};
use crate::sorting::arranged;
use crate::task::{ListView, TaskView, unref};
use crate::text::{
    ascii_upper_text, chars, contains, find_char, first_of, has, has_prefix, is_white, join, joined,
    lower_text, lowercase_text, part, pieces, same, same_chars, split, starts_with, text, texts,
    trim, trim_text, upper_ascii, white,
};
use crate::update::{Key, Msg};
use crate::window::Window;

verus! {

/// What a command asks for.
#[derive(Debug)]
pub enum Drive {
    Send(Msg),
    /// Enter, typed in the notes.
    Newline,
    /// A task's menu.
    Menu(String),
    /// A button of the window, or of the editor.
    Popup(String),
    Popdown,
    /// A row or a button of the open popover, by its words.
    Pick(String),
    Type(String),
    Submit,
    Title(String),
    Notes(String),
    Unfocus,
    /// The switch of this number on the page showing.
    Switch(String),
    CloseWindow,
    State,
    Focus,
    Click(String),
    Find(String),
    Scheme(String),
    Size(String),
    Scroll(String),
    CloseDialog,
    /// A command that is none of these.
    Unknown(String),
}

// -- finding things by words --------------------------------------------------------------------

/// A text split in two at the first of a character; whole when there is none.
pub open spec fn split_at(s: Seq<char>, c: char) -> Option<(Seq<char>, Seq<char>)> {
    match first_of(s, c) {
        Some(i) => Some((s.take(i), s.skip(i + 1))),
        None => None,
    }
}

fn split_once(s: &str, c: char) -> (r: Option<(String, String)>)
    ensures
        match r {
            Some(p) => split_at(s@, c) == Some((p.0@, p.1@)),
            None => split_at(s@, c) is None,
        },
{
    let v = chars(s);
    assert(v@.skip(0) == v@);
    match find_char(&v, c, 0) {
        Some(i) => {
            let a = part(&v, 0, i);
            let b = part(&v, i + 1, v.len());
            assert(a@ =~= s@.take(i as int));
            assert(b@ =~= s@.skip(i + 1));
            Some((text(&a), text(&b)))
        },
        None => None,
    }
}

/// A task whose title has a text in it, in any case.
pub open spec fn titled(words: Seq<char>) -> spec_fn(TaskView) -> bool {
    |t: TaskView| contains(lowercase_text(t.task.summary@), lowercase_text(words))
}

/// The first that passes.
pub open spec fn first_task(s: Seq<TaskView>, p: spec_fn(TaskView) -> bool) -> Option<TaskView>
    decreases s.len(),
{
    if s.len() == 0 {
        None
    } else if p(s[0]) {
        Some(s[0])
    } else {
        first_task(s.skip(1), p)
    }
}

fn find_titled<'a>(s: &'a Vec<TaskView>, words: &str) -> (r: Option<&'a TaskView>)
    ensures
        r == (match first_task(s@, titled(words@)) {
            Some(t) => Some(&t),
            None => None,
        }),
{
    let q = lower_text(words);
    let ghost v = s@;
    let ghost p = titled(words@);
    assert(v.skip(0) == v);
    for i in 0..s.len()
        invariant
            v == s@,
            q@ == lowercase_text(words@),
            p == titled(words@),
            first_task(v.skip(i as int), p) == first_task(v, p),
    {
        let ghost t = v.skip(i as int);
        assert(t[0] == v[i as int]);
        if has(lower_text(s[i].task.summary.as_str()).as_str(), q.as_str()) {
            return Some(&s[i]);
        }
        assert(t.skip(1) == v.skip(i + 1));
    }
    assert(v.skip(v.len() as int).len() == 0);
    None
}

/// The task that words mean: the first open one, or else completed one.
pub open spec fn meant_task(w: Window, words: Seq<char>) -> Option<TaskView> {
    match first_task(w.open@, titled(words)) {
        Some(t) => Some(t),
        None => first_task(w.done(), titled(words)),
    }
}

/// The first list with a name, in any case.
pub open spec fn meant_list(lists: Seq<ListView>, name: Seq<char>) -> Option<ListView> {
    crate::plan::first_list(lists, |l: ListView| alike(l.name@, name))
}

fn find_named<'a>(lists: &'a Vec<ListView>, name: &str) -> (r: Option<&'a ListView>)
    ensures
        r == (match meant_list(lists@, name@) {
            Some(l) => Some(&l),
            None => None,
        }),
{
    let key = upper_ascii(&chars(name));
    let ghost v = lists@;
    let ghost p = |l: ListView| alike(l.name@, name@);
    assert(v.skip(0) == v);
    for i in 0..lists.len()
        invariant
            v == lists@,
            key@ == ascii_upper_text(name@),
            p == (|l: ListView| alike(l.name@, name@)),
            crate::plan::first_list(v.skip(i as int), p) == crate::plan::first_list(v, p),
    {
        let ghost t = v.skip(i as int);
        assert(t[0] == v[i as int]);
        if same_chars(&upper_ascii(&chars(lists[i].name.as_str())), &key) {
            return Some(&lists[i]);
        }
        assert(t.skip(1) == v.skip(i + 1));
    }
    assert(v.skip(v.len() as int).len() == 0);
    None
}

// -- commands -----------------------------------------------------------------------------------

/// A key by its name.
pub open spec fn driven_key(name: Seq<char>) -> Option<Key> {
    if name == "j"@ {
        Some(Key::Down)
    } else if name == "k"@ {
        Some(Key::Up)
    } else if name == "x"@ {
        Some(Key::Toggle)
    } else if name == "e"@ {
        Some(Key::Open)
    } else if name == "a"@ {
        Some(Key::Add)
    } else if name == "d"@ {
        Some(Key::Delete)
    } else if name == "t"@ {
        Some(Key::Today)
    } else if name == "m"@ {
        Some(Key::Tomorrow)
    } else if name == "v"@ {
        Some(Key::Select)
    } else if name == "Escape"@ {
        Some(Key::Escape)
    } else if name == "ctrl+w"@ {
        Some(Key::Close)
    } else if name == "ctrl+q"@ {
        Some(Key::Quit)
    } else if name == "1"@ {
        Some(Key::Priority(1))
    } else if name == "2"@ {
        Some(Key::Priority(2))
    } else if name == "3"@ {
        Some(Key::Priority(3))
    } else if name == "4"@ {
        Some(Key::Priority(4))
    } else {
        None
    }
}

fn read_key(name: &str) -> (r: Option<Key>)
    ensures
        r == driven_key(name@),
{
    if same(name, "j") {
        Some(Key::Down)
    } else if same(name, "k") {
        Some(Key::Up)
    } else if same(name, "x") {
        Some(Key::Toggle)
    } else if same(name, "e") {
        Some(Key::Open)
    } else if same(name, "a") {
        Some(Key::Add)
    } else if same(name, "d") {
        Some(Key::Delete)
    } else if same(name, "t") {
        Some(Key::Today)
    } else if same(name, "m") {
        Some(Key::Tomorrow)
    } else if same(name, "v") {
        Some(Key::Select)
    } else if same(name, "Escape") {
        Some(Key::Escape)
    } else if same(name, "ctrl+w") {
        Some(Key::Close)
    } else if same(name, "ctrl+q") {
        Some(Key::Quit)
    } else if same(name, "1") {
        Some(Key::Priority(1))
    } else if same(name, "2") {
        Some(Key::Priority(2))
    } else if same(name, "3") {
        Some(Key::Priority(3))
    } else if same(name, "4") {
        Some(Key::Priority(4))
    } else {
        None
    }
}

/// The first sort whose name starts with a text.
pub open spec fn sort_named(v: Seq<char>, from: int) -> Option<Sort>
    decreases 6 - from,
{
    if from < 0 || from >= 6 {
        None
    } else if starts_with(lowercase_text(Sort::ALL@[from].text()), v) {
        Some(Sort::ALL@[from])
    } else {
        sort_named(v, from + 1)
    }
}

/// The first due-date filter whose name has a text in it.
pub open spec fn due_named(v: Seq<char>, from: int) -> DueFilter
    decreases 6 - from,
{
    if from < 0 || from >= 6 {
        DueFilter::Any
    } else if contains(lowercase_text(DueFilter::ALL@[from].text()), v) {
        DueFilter::ALL@[from]
    } else {
        due_named(v, from + 1)
    }
}

fn read_sort(v: &str) -> (r: Option<Sort>)
    ensures
        r == sort_named(v@, 0),
{
    for i in 0..6usize
        invariant
            sort_named(v@, i as int) == sort_named(v@, 0),
    {
        let s = Sort::ALL[i];
        if has_prefix(lower_text(s.label()).as_str(), v) {
            return Some(s);
        }
    }
    None
}

fn read_due(v: &str) -> (r: DueFilter)
    ensures
        r == due_named(v@, 0),
{
    for i in 0..6usize
        invariant
            due_named(v@, i as int) == due_named(v@, 0),
    {
        let d = DueFilter::ALL[i];
        if has(lower_text(d.label()).as_str(), v) {
            return d;
        }
    }
    DueFilter::Any
}

/// View options with one of them set: `sort=name`; the plain ones when it is
/// none of them.
pub open spec fn opts_with(w: Window, arg: Seq<char>) -> OptsView {
    let o = w.opts(w.nav@);
    match split_at(arg, '=') {
        Some((k, v)) => if k == "sort"@ {
            OptsView { sort: sort_named(v, 0), ..o }
        } else if k == "desc"@ {
            OptsView { descending: v == "true"@, ..o }
        } else if k == "due"@ {
            OptsView { due: due_named(v, 0), ..o }
        } else if k == "hide"@ {
            match meant_list(w.lists@, trim(v)) {
                Some(l) => OptsView { hide_lists: o.hide_lists.push(l.href@), ..o },
                None => o,
            }
        } else {
            crate::nav::plain_opts()
        },
        None => crate::nav::plain_opts(),
    }
}

/// A text with new lines where it says `\n`.
pub open spec fn with_lines(s: Seq<char>) -> Seq<char>
    decreases s.len(),
{
    if s.len() == 0 {
        Seq::empty()
    } else if s.len() >= 2 && s[0] == '\\' && s[1] == 'n' {
        seq!['\n'] + with_lines(s.skip(2))
    } else {
        seq![s[0]] + with_lines(s.skip(1))
    }
}

fn put_lines(s: &str) -> (r: String)
    ensures
        r@ == with_lines(s@),
{
    let v = chars(s);
    let n = v.len();
    let mut out: Vec<char> = Vec::new();
    let mut i: usize = 0;
    assert(v@.skip(0) == v@);
    assert(out@ + with_lines(v@.skip(0)) =~= with_lines(v@));
    while i < n
        invariant
            n == v@.len(),
            i <= n,
            out@ + with_lines(v@.skip(i as int)) == with_lines(v@),
        decreases n - i,
    {
        let ghost rest = v@.skip(i as int);
        let ghost before = out@;
        assert(rest[0] == v@[i as int]);
        if n - i >= 2 && v[i] == '\\' && v[i + 1] == 'n' {
            assert(rest[1] == v@[i + 1]);
            out.push('\n');
            assert(rest.skip(2) == v@.skip(i + 2));
            assert(out@ + with_lines(rest.skip(2)) =~= before + with_lines(rest));
            i += 2;
        } else {
            proof {
                if rest.len() >= 2 {
                    assert(rest[1] == v@[i + 1]);
                }
            }
            out.push(v[i]);
            assert(rest.skip(1) == v@.skip(i + 1));
            assert(out@ + with_lines(rest.skip(1)) =~= before + with_lines(rest));
            i += 1;
        }
    }
    assert(v@.skip(n as int).len() == 0);
    assert(out@ =~= with_lines(v@));
    text(&out)
}

/// Words, as white space parts them.
pub open spec fn words_of(s: Seq<char>, word: Seq<char>) -> Seq<Seq<char>>
    decreases s.len(),
{
    let done = if word.len() > 0 {
        seq![word]
    } else {
        Seq::empty()
    };
    if s.len() == 0 {
        done
    } else if white(s[0]) {
        done + words_of(s.skip(1), Seq::empty())
    } else {
        words_of(s.skip(1), word.push(s[0]))
    }
}

fn split_words(s: &str) -> (r: Vec<String>)
    ensures
        texts(r@) == words_of(s@, Seq::empty()),
{
    let v = chars(s);
    let mut out: Vec<String> = Vec::new();
    let mut word: Vec<char> = Vec::new();
    assert(v@.skip(0) == v@);
    assert(word@ =~= Seq::<char>::empty());
    let ghost want = words_of(v@, Seq::empty());
    assert(texts(out@) + words_of(v@.skip(0), word@) =~= want);
    for i in 0..v.len()
        invariant
            texts(out@) + words_of(v@.skip(i as int), word@) == want,
    {
        let ghost rest = v@.skip(i as int);
        let ghost before = texts(out@);
        assert(rest[0] == v@[i as int]);
        assert(rest.skip(1) == v@.skip(i + 1));
        if is_white(v[i]) {
            if word.len() > 0 {
                out.push(text(&word));
                assert(texts(out@) =~= before.push(word@));
            }
            let ghost old_word = word@;
            word = Vec::new();
            assert(word@ =~= Seq::<char>::empty());
            assert(texts(out@) + words_of(rest.skip(1), word@) =~= before + words_of(
                rest,
                old_word,
            ));
        } else {
            word.push(v[i]);
        }
    }
    assert(v@.skip(v@.len() as int).len() == 0);
    let ghost before = texts(out@);
    if word.len() > 0 {
        out.push(text(&word));
        assert(texts(out@) =~= before.push(word@));
    }
    assert(texts(out@) =~= want);
    out
}

/// The lists that names mean, one after the other.
pub open spec fn lists_named(lists: Seq<ListView>, names: Seq<Seq<char>>) -> Seq<Seq<char>>
    decreases names.len(),
{
    if names.len() == 0 {
        Seq::empty()
    } else {
        let before = lists_named(lists, names.drop_last());
        match meant_list(lists, trim(names.last())) {
            Some(l) => before.push(l.href@),
            None => before,
        }
    }
}

/// Where the word that says where to drop is.
pub open spec fn drop_word(s: Seq<Seq<char>>, from: int) -> Option<int>
    decreases s.len() - from,
{
    if from < 0 || from >= s.len() {
        None
    } else if s[from] == "before"@ || s[from] == "after"@ {
        Some(from)
    } else {
        drop_word(s, from + 1)
    }
}

/// A task dropped before or after another in its list's own order.
pub open spec fn drop_command(w: Window, arg: Seq<char>, r: Option<Drive>) -> bool {
    let s = words_of(arg, Seq::empty());
    match drop_word(s, 0) {
        None => r is None,
        Some(i) => match (
            meant_task(w, join(s.take(i), " "@)),
            meant_task(w, join(s.skip(i + 1), " "@)),
        ) {
            (Some(moved), Some(target)) => {
                let list = match w.task(moved.href@) {
                    Some(t) => t.list@,
                    None => Seq::empty(),
                };
                let tasks = arranged(w.open@.filter(in_list(list)), order(Sort::Custom));
                let after = s[i] == "after"@;
                if fits(tasks, moved.href@, target.href@, after) {
                    r matches Some(Drive::Send(Msg::Reorder(v))) && numbers(v@) == new_numbers(
                        tasks,
                        moved.href@,
                        target.href@,
                        after,
                    )
                } else {
                    r is None
                }
            },
            _ => r is None,
        },
    }
}

/// A message with a task's address.
pub open spec fn with_task(w: Window, arg: Seq<char>, r: Option<Drive>, f: spec_fn(String) -> Msg) -> bool {
    match meant_task(w, arg) {
        Some(t) => r == Some(Drive::Send(f(t.href))),
        None => r is None,
    }
}

/// What a command asks for that says what to do with a list or a task.
pub open spec fn drives_tasks(w: Window, verb: Seq<char>, arg: Seq<char>, r: Option<Drive>) -> bool {
    if verb == "clear"@ || verb == "clear!"@ {
        let list = if arg.len() == 0 {
            None
        } else {
            meant_list(w.lists@, trim(arg))
        };
        let href = match list {
            Some(l) => Some(l.href),
            None => None,
        };
        r == Some(
            Drive::Send(
                if verb == "clear"@ {
                    Msg::AskDeleteCompleted(href)
                } else {
                    Msg::DeleteCompleted(href)
                },
            ),
        )
    } else if verb == "archive"@ || verb == "unarchive"@ {
        match meant_list(w.lists@, trim(arg)) {
            Some(l) => r == Some(Drive::Send(Msg::Archive(l.href, verb == "archive"@))),
            None => r is None,
        }
    } else if verb == "order"@ {
        r matches Some(Drive::Send(Msg::ReorderLists(v))) && texts(v@) == lists_named(
            w.lists@,
            pieces(arg, ','),
        )
    } else if verb == "opts"@ {
        r matches Some(Drive::Send(Msg::SetViewOpts(o))) && o@ == opts_with(w, arg)
    } else if verb == "nav"@ {
        match view_of(arg) {
            Some(n) => r matches Some(Drive::Send(Msg::Navigate(v))) && v@ == n,
            None => match meant_list(w.lists@, arg) {
                Some(l) => r matches Some(Drive::Send(Msg::Navigate(v))) && v@ == NavView::List(
                    l.href@,
                ),
                None => r is None,
            },
        }
    } else if verb == "hide"@ {
        match view_of(arg) {
            Some(n) => r matches Some(Drive::Send(Msg::HideView(v))) && v@ == n,
            None => r is None,
        }
    } else if verb == "drop"@ {
        drop_command(w, arg, r)
    } else if verb == "open-task"@ {
        with_task(w, arg, r, |h: String| Msg::OpenTask(h))
    } else if verb == "open"@ {
        with_task(w, arg, r, |h: String| Msg::Open(h))
    } else if verb == "reveal"@ {
        with_task(w, arg, r, |h: String| Msg::Reveal(h))
    } else if verb == "check"@ {
        with_task(w, arg, r, |h: String| Msg::Check(h, true))
    } else if verb == "select"@ {
        with_task(w, arg, r, |h: String| Msg::SelectToggle(h))
    } else {
        match meant_task(w, arg) {
            Some(t) => r == Some(Drive::Menu(t.href)),
            None => r is None,
        }
    }
}

/// The commands that say what to do with a list or a task.
pub open spec fn is_about_tasks(verb: Seq<char>) -> bool {
    verb == "clear"@ || verb == "clear!"@ || verb == "archive"@ || verb == "unarchive"@ || verb
        == "order"@ || verb == "opts"@ || verb == "nav"@ || verb == "open-task"@ || verb == "open"@
        || verb == "reveal"@ || verb == "check"@ || verb == "select"@ || verb == "menu"@ || verb
        == "hide"@ || verb == "drop"@
}

/// What any other command asks for.
pub open spec fn drives_widgets(command: Seq<char>, verb: Seq<char>, arg: Seq<char>, r: Option<Drive>) -> bool {
    if verb == "addtext"@ {
        r matches Some(Drive::Send(Msg::AddText(s))) && s@ == with_lines(arg)
    } else if verb == "newline"@ {
        r == Some(Drive::Newline)
    } else if verb == "key"@ {
        r == (match driven_key(arg) {
            Some(k) => Some(Drive::Send(Msg::Key(k))),
            None => None,
        })
    } else if verb == "popup"@ {
        r matches Some(Drive::Popup(s)) && s@ == arg
    } else if verb == "popdown"@ {
        r == Some(Drive::Popdown)
    } else if verb == "add"@ {
        r == Some(Drive::Send(Msg::ShowAdd(None)))
    } else if verb == "pick"@ {
        r matches Some(Drive::Pick(s)) && s@ == lowercase_text(arg)
    } else if verb == "type"@ {
        r matches Some(Drive::Type(s)) && s@ == arg
    } else if verb == "submit"@ {
        r == Some(Drive::Submit)
    } else if verb == "title"@ {
        r matches Some(Drive::Title(s)) && s@ == arg
    } else if verb == "notes"@ {
        r matches Some(Drive::Notes(s)) && s@ == arg
    } else if verb == "close"@ {
        r == Some(Drive::Send(Msg::CloseEditor))
    } else if verb == "prefs"@ {
        r matches Some(Drive::Send(Msg::Preferences(page))) && match page {
            Some(p) => arg == "sidebar"@ && p@ == "sidebar"@,
            None => arg != "sidebar"@,
        }
    } else if verb == "unfocus"@ {
        r == Some(Drive::Unfocus)
    } else if verb == "switch"@ {
        r matches Some(Drive::Switch(s)) && s@ == arg
    } else if verb == "close-window"@ {
        r == Some(Drive::CloseWindow)
    } else if verb == "state"@ {
        r == Some(Drive::State)
    } else if verb == "focus"@ {
        r == Some(Drive::Focus)
    } else if verb == "click"@ {
        r matches Some(Drive::Click(s)) && s@ == arg
    } else if verb == "find"@ {
        r matches Some(Drive::Find(s)) && s@ == arg
    } else if verb == "shortcuts"@ {
        r == Some(Drive::Send(Msg::Shortcuts))
    } else if verb == "about"@ {
        r == Some(Drive::Send(Msg::About))
    } else if verb == "newlist"@ {
        r == Some(Drive::Send(Msg::NewList))
    } else if verb == "scheme"@ {
        r matches Some(Drive::Scheme(s)) && s@ == arg
    } else if verb == "size"@ {
        r matches Some(Drive::Size(s)) && s@ == arg
    } else if verb == "scroll"@ {
        r matches Some(Drive::Scroll(s)) && s@ == arg
    } else if verb == "close-dialog"@ {
        r == Some(Drive::CloseDialog)
    } else {
        r matches Some(Drive::Unknown(s)) && s@ == command
    }
}

/// A command's verb, and what comes after it.
pub open spec fn command_parts(command: Seq<char>) -> (Seq<char>, Seq<char>) {
    match split_at(command, ' ') {
        Some(p) => p,
        None => (command, Seq::empty()),
    }
}

/// What a command asks for, and what it changes: only where the cursor is.
pub open spec fn driven(old: Window, command: Seq<char>, new: Window, r: Option<Drive>) -> bool {
    let (verb, arg) = command_parts(command);
    if verb == "cursor"@ {
        &&& r is None
        &&& new == (match meant_task(old, arg) {
            Some(t) => Window { cursor: Some(t.href), shown: None, ..old },
            None => old,
        })
    } else {
        &&& new == old
        &&& if is_about_tasks(verb) {
            drives_tasks(old, verb, arg, r)
        } else {
            drives_widgets(command, verb, arg, r)
        }
    }
}

impl Window {
    fn task_meant(&self, words: &str) -> (r: Option<String>)
        ensures
            r == (match meant_task(*self, words@) {
                Some(t) => Some(t.href),
                None => None,
            }),
    {
        match find_titled(&self.open, words) {
            Some(t) => Some(t.href.clone()),
            None => match &self.completed {
                Some(c) => match find_titled(c, words) {
                    Some(t) => Some(t.href.clone()),
                    None => None,
                },
                None => None,
            },
        }
    }

    fn list_meant(&self, name: &str) -> (r: Option<String>)
        ensures
            r == (match meant_list(self.lists@, trim(name@)) {
                Some(l) => Some(l.href),
                None => None,
            }),
    {
        match find_named(&self.lists, trim_text(name).as_str()) {
            Some(l) => Some(l.href.clone()),
            None => None,
        }
    }

    fn drive_opts(&self, arg: &str) -> (r: ViewOpts)
        ensures
            r@ == opts_with(*self, arg@),
    {
        let mut o = self.prefs.view_opts(&self.nav);
        let ghost was = o@;
        match split_once(arg, '=') {
            Some((k, v)) => {
                if same(k.as_str(), "sort") {
                    o.sort = read_sort(v.as_str());
                    assert(o@ =~= (OptsView { sort: sort_named(v@, 0), ..was }));
                    o
                } else if same(k.as_str(), "desc") {
                    o.descending = same(v.as_str(), "true");
                    assert(o@ =~= (OptsView { descending: v@ == "true"@, ..was }));
                    o
                } else if same(k.as_str(), "due") {
                    o.due = read_due(v.as_str());
                    assert(o@ =~= (OptsView { due: due_named(v@, 0), ..was }));
                    o
                } else if same(k.as_str(), "hide") {
                    match self.list_meant(v.as_str()) {
                        Some(h) => {
                            o.hide_lists.push(h);
                            assert(texts(o.hide_lists@) =~= was.hide_lists.push(h@));
                            assert(o@ =~= (OptsView {
                                hide_lists: was.hide_lists.push(h@),
                                ..was
                            }));
                        },
                        None => {},
                    }
                    o
                } else {
                    ViewOpts::default()
                }
            },
            None => ViewOpts::default(),
        }
    }

    fn drive_order(&self, arg: &str) -> (r: Vec<String>)
        ensures
            texts(r@) == lists_named(self.lists@, pieces(arg@, ',')),
    {
        let names = split(&chars(arg), ',');
        let ghost n = texts(names@);
        let mut out: Vec<String> = Vec::new();
        assert(texts(out@) =~= lists_named(self.lists@, n.take(0)));
        for i in 0..names.len()
            invariant
                n == texts(names@),
                texts(out@) == lists_named(self.lists@, n.take(i as int)),
        {
            let ghost before = texts(out@);
            proof {
                assert(n.take(i + 1).drop_last() == n.take(i as int));
                assert(n.take(i + 1).last() == names@[i as int]@);
            }
            if let Some(h) = self.list_meant(names[i].as_str()) {
                out.push(h);
                assert(texts(out@) =~= before.push(h@));
            }
        }
        assert(n.take(n.len() as int) == n);
        out
    }

    fn drive_drop(&self, arg: &str) -> (r: Option<Drive>)
        ensures
            drop_command(*self, arg@, r),
    {
        let words = split_words(arg);
        let ghost s = texts(words@);
        let n = words.len();
        let mut at: usize = 0;
        while at < n && !same(words[at].as_str(), "before") && !same(words[at].as_str(), "after")
            invariant
                s == texts(words@),
                n == words@.len(),
                at <= n,
                drop_word(s, at as int) == drop_word(s, 0),
            decreases n - at,
        {
            assert(s[at as int] == words@[at as int]@);
            at += 1;
        }
        if at == n {
            return None;
        }
        assert(s[at as int] == words@[at as int]@);
        assert(drop_word(s, 0) == Some(at as int));
        let after = same(words[at].as_str(), "after");
        let first = copy_part(&words, 0, at);
        let last = copy_part(&words, at + 1, n);
        assert(texts(first@) =~= s.take(at as int));
        assert(texts(last@) =~= s.skip(at + 1));
        let moved = match self.find_meant(joined(&first, " ").as_str()) {
            Some(t) => t,
            None => {
                return None;
            },
        };
        let target = match self.find_meant(joined(&last, " ").as_str()) {
            Some(t) => t,
            None => {
                return None;
            },
        };
        let list: &str = match self.find(moved.href.as_str()) {
            Some(t) => t.list.as_str(),
            None => "",
        };
        proof {
            reveal_strlit("");
            assert(""@ =~= Seq::<char>::empty());
        }
        let tasks = self.in_own_order(list);
        match reorder_in(&tasks, moved.href.as_str(), target.href.as_str(), after) {
            Some(v) => Some(Drive::Send(Msg::Reorder(v))),
            None => None,
        }
    }

    fn find_meant(&self, words: &str) -> (r: Option<&TaskView>)
        ensures
            r == (match meant_task(*self, words@) {
                Some(t) => Some(&t),
                None => None,
            }),
    {
        match find_titled(&self.open, words) {
            Some(t) => Some(t),
            None => match &self.completed {
                Some(c) => find_titled(c, words),
                None => None,
            },
        }
    }

    fn in_own_order(&self, list: &str) -> (r: Vec<&TaskView>)
        ensures
            unref(r@) == arranged(self.open@.filter(in_list(list@)), order(Sort::Custom)),
    {
        let mut mine: Vec<&TaskView> = Vec::new();
        let ghost s = self.open@;
        let ghost p = in_list(list@);
        proof {
            reveal(Seq::filter);
            assert(unref(mine@) =~= s.take(0).filter(p));
        }
        for i in 0..self.open.len()
            invariant
                s == self.open@,
                p == in_list(list@),
                unref(mine@) == s.take(i as int).filter(p),
        {
            let t = &self.open[i];
            let ghost before = unref(mine@);
            proof {
                reveal(Seq::filter);
                assert(s.take(i + 1).drop_last() == s.take(i as int));
                assert(s.take(i + 1).last() == *t);
            }
            if same(t.list.as_str(), list) {
                mine.push(t);
                assert(unref(mine@) =~= before.push(*t));
            }
        }
        assert(s.take(s.len() as int) == s);
        sorted(mine, Sort::Custom)
    }

    fn drive_tasks(&self, verb: &str, arg: &str) -> (r: Option<Drive>)
        requires
            is_about_tasks(verb@),
        ensures
            drives_tasks(*self, verb@, arg@, r),
    {
        if same(verb, "clear") || same(verb, "clear!") {
            let href: Option<String> = if arg.is_empty() {
                None
            } else {
                self.list_meant(arg)
            };
            if same(verb, "clear") {
                Some(Drive::Send(Msg::AskDeleteCompleted(href)))
            } else {
                Some(Drive::Send(Msg::DeleteCompleted(href)))
            }
        } else if same(verb, "archive") || same(verb, "unarchive") {
            match self.list_meant(arg) {
                Some(h) => Some(Drive::Send(Msg::Archive(h, same(verb, "archive")))),
                None => None,
            }
        } else if same(verb, "order") {
            Some(Drive::Send(Msg::ReorderLists(self.drive_order(arg))))
        } else if same(verb, "opts") {
            Some(Drive::Send(Msg::SetViewOpts(self.drive_opts(arg))))
        } else if same(verb, "nav") {
            match Nav::from_key(arg) {
                Some(n) => Some(Drive::Send(Msg::Navigate(n))),
                None => match find_named(&self.lists, arg) {
                    Some(l) => Some(Drive::Send(Msg::Navigate(Nav::List(l.href.clone())))),
                    None => None,
                },
            }
        } else if same(verb, "hide") {
            match Nav::from_key(arg) {
                Some(n) => Some(Drive::Send(Msg::HideView(n))),
                None => None,
            }
        } else if same(verb, "drop") {
            self.drive_drop(arg)
        } else {
            self.drive_task(verb, arg)
        }
    }

    fn drive_task(&self, verb: &str, arg: &str) -> (r: Option<Drive>)
        requires
            verb@ == "open-task"@ || verb@ == "open"@ || verb@ == "reveal"@ || verb@ == "check"@
                || verb@ == "select"@ || verb@ == "menu"@,
        ensures
            verb@ == "open-task"@ ==> with_task(*self, arg@, r, |h: String| Msg::OpenTask(h)),
            verb@ == "open"@ ==> with_task(*self, arg@, r, |h: String| Msg::Open(h)),
            verb@ == "reveal"@ ==> with_task(*self, arg@, r, |h: String| Msg::Reveal(h)),
            verb@ == "check"@ ==> with_task(*self, arg@, r, |h: String| Msg::Check(h, true)),
            verb@ == "select"@ ==> with_task(*self, arg@, r, |h: String| Msg::SelectToggle(h)),
            verb@ == "menu"@ ==> match meant_task(*self, arg@) {
                Some(t) => r == Some(Drive::Menu(t.href)),
                None => r is None,
            },
    {
        proof {
            lemma_verbs_differ();
        }
        match self.task_meant(arg) {
            None => None,
            Some(h) => {
                if same(verb, "menu") {
                    return Some(Drive::Menu(h));
                }
                let msg = if same(verb, "open-task") {
                    Msg::OpenTask(h)
                } else if same(verb, "open") {
                    Msg::Open(h)
                } else if same(verb, "reveal") {
                    Msg::Reveal(h)
                } else if same(verb, "check") {
                    Msg::Check(h, true)
                } else {
                    Msg::SelectToggle(h)
                };
                Some(Drive::Send(msg))
            },
        }
    }

    /// What a command asks for.
    pub fn drive(&mut self, command: &str) -> (r: Option<Drive>)
        requires
            old(self).wf(),
        ensures
            driven(*old(self), command@, *final(self), r),
            final(self).wf(),
    {
        let (verb, arg): (String, String) = match split_once(command, ' ') {
            Some(p) => p,
            None => {
                let none = String::new();
                assert(none@ =~= Seq::<char>::empty());
                (String::from_str(command), none)
            },
        };
        let v = verb.as_str();
        if same(v, "cursor") {
            if let Some(h) = self.task_meant(arg.as_str()) {
                self.cursor = Some(h);
                self.shown = None;
            }
            return None;
        }
        if about_tasks(v) {
            self.drive_tasks(v, arg.as_str())
        } else {
            drive_widgets(command, v, arg)
        }
    }
}

fn about_tasks(verb: &str) -> (r: bool)
    ensures
        r == is_about_tasks(verb@),
{
    same(verb, "clear") || same(verb, "clear!") || same(verb, "archive") || same(verb, "unarchive")
        || same(verb, "order") || same(verb, "opts") || same(verb, "nav") || same(
        verb,
        "open-task",
    ) || same(verb, "open") || same(verb, "reveal") || same(verb, "check") || same(verb, "select")
        || same(verb, "menu") || same(verb, "hide") || same(verb, "drop")
}

fn copy_part(v: &Vec<String>, from: usize, to: usize) -> (r: Vec<String>)
    requires
        from <= to <= v@.len(),
    ensures
        r@ == v@.subrange(from as int, to as int),
{
    let mut out: Vec<String> = Vec::new();
    for i in from..to
        invariant
            from <= to <= v@.len(),
            out@ == v@.subrange(from as int, i as int),
    {
        out.push(v[i].clone());
        assert(out@ =~= v@.subrange(from as int, i + 1));
    }
    out
}

fn drive_widgets(command: &str, verb: &str, arg: String) -> (r: Option<Drive>)
    ensures
        drives_widgets(command@, verb@, arg@, r),
{
    if same(verb, "addtext") {
        Some(Drive::Send(Msg::AddText(put_lines(arg.as_str()))))
    } else if same(verb, "newline") {
        Some(Drive::Newline)
    } else if same(verb, "key") {
        match read_key(arg.as_str()) {
            Some(k) => Some(Drive::Send(Msg::Key(k))),
            None => None,
        }
    } else if same(verb, "popup") {
        Some(Drive::Popup(arg))
    } else if same(verb, "popdown") {
        Some(Drive::Popdown)
    } else if same(verb, "add") {
        Some(Drive::Send(Msg::ShowAdd(None)))
    } else if same(verb, "pick") {
        Some(Drive::Pick(lower_text(arg.as_str())))
    } else if same(verb, "type") {
        Some(Drive::Type(arg))
    } else if same(verb, "submit") {
        Some(Drive::Submit)
    } else if same(verb, "title") {
        Some(Drive::Title(arg))
    } else if same(verb, "notes") {
        Some(Drive::Notes(arg))
    } else if same(verb, "close") {
        Some(Drive::Send(Msg::CloseEditor))
    } else if same(verb, "prefs") {
        if same(arg.as_str(), "sidebar") {
            Some(Drive::Send(Msg::Preferences(Some("sidebar"))))
        } else {
            Some(Drive::Send(Msg::Preferences(None)))
        }
    } else if same(verb, "unfocus") {
        Some(Drive::Unfocus)
    } else if same(verb, "switch") {
        Some(Drive::Switch(arg))
    } else if same(verb, "close-window") {
        Some(Drive::CloseWindow)
    } else if same(verb, "state") {
        Some(Drive::State)
    } else if same(verb, "focus") {
        Some(Drive::Focus)
    } else if same(verb, "click") {
        Some(Drive::Click(arg))
    } else if same(verb, "find") {
        Some(Drive::Find(arg))
    } else if same(verb, "shortcuts") {
        Some(Drive::Send(Msg::Shortcuts))
    } else if same(verb, "about") {
        Some(Drive::Send(Msg::About))
    } else if same(verb, "newlist") {
        Some(Drive::Send(Msg::NewList))
    } else if same(verb, "scheme") {
        Some(Drive::Scheme(arg))
    } else if same(verb, "size") {
        Some(Drive::Size(arg))
    } else if same(verb, "scroll") {
        Some(Drive::Scroll(arg))
    } else if same(verb, "close-dialog") {
        Some(Drive::CloseDialog)
    } else {
        Some(Drive::Unknown(String::from_str(command)))
    }
}

proof fn lemma_verbs_differ()
    ensures
        "open-task"@ != "open"@,
        "open-task"@ != "reveal"@,
        "open-task"@ != "check"@,
        "open-task"@ != "select"@,
        "open-task"@ != "menu"@,
        "open"@ != "reveal"@,
        "open"@ != "check"@,
        "open"@ != "select"@,
        "open"@ != "menu"@,
        "reveal"@ != "check"@,
        "reveal"@ != "select"@,
        "reveal"@ != "menu"@,
        "check"@ != "select"@,
        "check"@ != "menu"@,
        "select"@ != "menu"@,
{
    reveal_strlit("open-task");
    reveal_strlit("open");
    reveal_strlit("reveal");
    reveal_strlit("check");
    reveal_strlit("select");
    reveal_strlit("menu");
    assert("open-task"@.len() == 9 && "open"@.len() == 4 && "reveal"@.len() == 6 && "check"@.len()
        == 5 && "select"@.len() == 6 && "menu"@.len() == 4);
    assert("open"@[0] == 'o' && "menu"@[0] == 'm' && "reveal"@[0] == 'r' && "select"@[0] == 's');
}

} // verus!
