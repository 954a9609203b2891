//! Tasks from the terminal: what each command asks the daemon, what it does
//! with the answer, and what it says.

use vstd::prelude::*;
use vstd::string::*;

use crate::change::{AddSpec, Change, Query, Which, no_change};
use crate::number::{decimal, decimal_text};
use crate::out::{DueWords, Style, ago, fill, filled, line_of, painted, short_ago, task_line};
use crate::settings::{Settings, SettingsChange, same_settings};
use crate::task::{ListView, Note, StatusView, SyncState, TaskView};
use crate::text::{
    ascii_upper_text, chars, glue, glue3, join, joined, lines, lower_text, lowercase_text, same,
    same_chars, split_lines, text_opt, texts, trim, trim_text, upper_ascii,
};
use crate::zone::Moment;

verus! {

// -- names --------------------------------------------------------------------------------

/// A text in quotes, with what cannot be shown in it written out.
pub uninterp spec fn quoted(s: Seq<char>) -> Seq<char>;

/// How `{:?}` formats a string: in double quotes, with escapes.
#[verifier::external_body]
pub(crate) fn debug_text(s: &str) -> (r: String)
    ensures
        r@ == quoted(s@),
{
    format!("{s:?}")
}

/// The same letters, whatever their case.
pub open spec fn alike(a: Seq<char>, b: Seq<char>) -> bool {
    ascii_upper_text(a) == ascii_upper_text(b)
}

fn is_alike(a: &str, b: &str) -> (r: bool)
    ensures
        r == alike(a@, b@),
{
    same_chars(&upper_ascii(&chars(a)), &upper_ascii(&chars(b)))
}

/// A list that a key means: its address, or its name in any case.
pub open spec fn means(key: Seq<char>) -> spec_fn(ListView) -> bool {
    |l: ListView| l.href@ == key || alike(l.name@, trim(key))
}

fn is_meant(l: &ListView, key: &str, name: &str) -> (r: bool)
    requires
        name@ == trim(key@),
    ensures
        r == means(key@)(*l),
{
    same(l.href.as_str(), key) || is_alike(l.name.as_str(), name)
}

/// The places of the lists that a key means.
pub open spec fn meant(lists: Seq<ListView>, key: Seq<char>) -> Seq<ListView> {
    lists.filter(means(key))
}

fn find_meant<'a>(lists: &'a [ListView], key: &str) -> (r: Vec<&'a ListView>)
    ensures
        crate::prefs::plain_lists(r@) == meant(lists@, key@),
{
    let name = trim_text(key);
    let mut out: Vec<&'a ListView> = Vec::new();
    let ghost s = lists@;
    proof {
        reveal(Seq::filter);
        assert(crate::prefs::plain_lists(out@) =~= s.take(0).filter(means(key@)));
    }
    for i in 0..lists.len()
        invariant
            s == lists@,
            name@ == trim(key@),
            crate::prefs::plain_lists(out@) == s.take(i as int).filter(means(key@)),
    {
        let ghost before = crate::prefs::plain_lists(out@);
        proof {
            reveal(Seq::filter);
            assert(s.take(i + 1).drop_last() == s.take(i as int));
            assert(s.take(i + 1).last() == s[i as int]);
        }
        if is_meant(&lists[i], key, name.as_str()) {
            out.push(&lists[i]);
            assert(crate::prefs::plain_lists(out@) =~= before.push(s[i as int]));
        }
    }
    assert(s.take(s.len() as int) == s);
    out
}

// -- listing ------------------------------------------------------------------------------

/// A command that lists tasks.
#[derive(Debug)]
pub enum Listing {
    Today,
    Upcoming,
    Ls { list: Option<String>, attached: Option<String> },
    Completed { list: Option<String>, limit: u32 },
    Find { words: Vec<String> },
}

/// What a listing asks for, whether its lines name the list, and what it says
/// when there are none.
pub fn listing(l: Listing) -> (r: (Query, bool, &'static str))
    ensures
        match l {
            Listing::Today => r.0 == (Query {
                which: Which::Today,
                list: None,
                text: None,
                limit: None,
                linked_note: None,
            }) && r.1 && r.2@ == "Nothing due today."@,
            Listing::Upcoming => r.0 == (Query {
                which: Which::Upcoming,
                list: None,
                text: None,
                limit: None,
                linked_note: None,
            }) && r.1 && r.2@ == "Nothing scheduled."@,
            Listing::Ls { list, attached } => r.0 == (Query {
                which: Which::Open,
                list,
                text: None,
                limit: None,
                linked_note: attached,
            }) && r.1 == (list is None) && r.2@ == "No open tasks."@,
            Listing::Completed { list, limit } => r.0 == (Query {
                which: Which::Completed,
                list,
                text: None,
                limit: Some(limit),
                linked_note: None,
            }) && r.1 == (list is None) && r.2@ == "Nothing completed."@,
            Listing::Find { words } => r.0.which == Which::Open && r.0.list is None
                && r.0.limit is None && r.0.linked_note is None && text_opt(r.0.text) == Some(
                join(texts(words@), " "@),
            ) && r.1 && r.2@ == "No matches."@,
        },
{
    match l {
        Listing::Today => (Query::of(Which::Today), true, "Nothing due today."),
        Listing::Upcoming => (Query::of(Which::Upcoming), true, "Nothing scheduled."),
        Listing::Ls { list, attached } => {
            let one = list.is_some();
            (
                Query {
                    which: Which::Open,
                    list,
                    text: None,
                    limit: None,
                    linked_note: attached,
                },
                !one,
                "No open tasks.",
            )
        },
        Listing::Completed { list, limit } => {
            let one = list.is_some();
            (
                Query {
                    which: Which::Completed,
                    list,
                    text: None,
                    limit: Some(limit),
                    linked_note: None,
                },
                !one,
                "Nothing completed.",
            )
        },
        Listing::Find { words } => (
            Query {
                which: Which::Open,
                list: None,
                text: Some(joined(&words, " ")),
                limit: None,
                linked_note: None,
            },
            true,
            "No matches.",
        ),
    }
}

/// The lines that list tasks: what to say when there are none, else a line
/// for each.
pub open spec fn task_lines(
    color: bool,
    tasks: Seq<(TaskView, Option<DueWords>)>,
    show_list: bool,
    empty: Seq<char>,
) -> Seq<Seq<char>> {
    if tasks.len() == 0 {
        seq![painted(color, "2"@, empty)]
    } else {
        Seq::new(tasks.len(), |i: int| line_of(color, tasks[i].0, tasks[i].1, show_list))
    }
}

/// The lines that list tasks, each with the words for its date.
pub fn say_tasks(
    style: &Style,
    tasks: &[(TaskView, Option<DueWords>)],
    show_list: bool,
    empty: &str,
) -> (r: Vec<String>)
    ensures
        texts(r@) == task_lines(style.color, tasks@, show_list, empty@),
{
    let mut out: Vec<String> = Vec::new();
    if tasks.len() == 0 {
        out.push(style.dim(empty));
        assert(texts(out@) =~= task_lines(style.color, tasks@, show_list, empty@));
        return out;
    }
    let ghost f = |i: int| line_of(style.color, tasks@[i].0, tasks@[i].1, show_list);
    for i in 0..tasks.len()
        invariant
            f == (|i: int| line_of(style.color, tasks@[i].0, tasks@[i].1, show_list)),
            texts(out@) == Seq::new(i as nat, f),
    {
        let ghost before = texts(out@);
        out.push(task_line(style, &tasks[i].0, &tasks[i].1, show_list));
        assert(texts(out@) =~= before.push(f(i as int)));
    }
    out
}

// -- deleting -------------------------------------------------------------------------------

/// What deleting needs: nothing, a question first, or just doing it. `href`
/// is empty for every list.
#[derive(Debug)]
pub enum Deletion {
    Nothing,
    Ask { question: String, href: String },
    Go { href: String },
}

/// How many completed tasks there are in the lists that can be written.
pub open spec fn done_in(lists: Seq<ListView>) -> nat
    decreases lists.len(),
{
    if lists.len() == 0 {
        0
    } else {
        done_in(lists.drop_last()) + (if lists.last().writable {
            lists.last().done as nat
        } else {
            0
        })
    }
}

pub(crate) fn count_done(lists: &[ListView]) -> (r: usize)
    requires
        done_in(lists@) <= usize::MAX,
    ensures
        r == done_in(lists@),
{
    let mut n: usize = 0;
    for i in 0..lists.len()
        invariant
            n == done_in(lists@.take(i as int)),
            done_in(lists@) <= usize::MAX,
    {
        proof {
            assert(lists@.take(i + 1).drop_last() == lists@.take(i as int));
            assert(lists@.take(i + 1).last() == lists@[i as int]);
            lemma_done_grows(lists@, i + 1);
        }
        if lists[i].writable {
            n += lists[i].done;
        }
    }
    assert(lists@.take(lists@.len() as int) == lists@);
    n
}

/// Whether the completed tasks to be deleted can be counted, of the list that
/// is named, or of every list.
pub fn can_count(lists: &[ListView], list: Option<&str>) -> (r: bool)
    ensures
        r == (list is None ==> done_in(lists@) <= usize::MAX),
{
    if list.is_some() {
        return true;
    }
    let mut left: usize = usize::MAX;
    for i in 0..lists.len()
        invariant
            list is None,
            left + done_in(lists@.take(i as int)) == usize::MAX,
    {
        proof {
            assert(lists@.take(i + 1).drop_last() == lists@.take(i as int));
            assert(lists@.take(i + 1).last() == lists@[i as int]);
            lemma_done_grows(lists@, i + 1);
        }
        if lists[i].writable {
            if lists[i].done > left {
                return false;
            }
            left -= lists[i].done;
        }
    }
    assert(lists@.take(lists@.len() as int) == lists@);
    true
}

proof fn lemma_done_grows(s: Seq<ListView>, i: int)
    requires
        0 <= i <= s.len(),
    ensures
        done_in(s.take(i)) <= done_in(s),
    decreases s.len(),
{
    if i < s.len() {
        lemma_done_grows(s.drop_last(), i);
        assert(s.drop_last().take(i) == s.take(i));
    } else {
        assert(s.take(i) == s);
    }
}

/// The question before completed tasks are deleted.
pub open spec fn clear_question(n: nat, from: Seq<char>) -> Seq<char> {
    "Delete "@ + decimal(n) + " completed task"@ + (if n == 1 {
        Seq::empty()
    } else {
        "s"@
    }) + " from "@ + from + ", on every device?"@
}

/// What deleting `n` completed tasks from `from` needs.
pub open spec fn clearing(n: nat, from: Seq<char>, href: Seq<char>, yes: bool, d: Deletion) -> bool {
    if n == 0 {
        d is Nothing
    } else if yes {
        d matches Deletion::Go { href: h } && h@ == href
    } else {
        d matches Deletion::Ask { question, href: h } && question@ == clear_question(n, from) && h@
            == href
    }
}

fn clear(n: usize, from: &str, href: String, yes: bool) -> (r: Deletion)
    ensures
        clearing(n as nat, from@, href@, yes, r),
{
    if n == 0 {
        return Deletion::Nothing;
    }
    if yes {
        return Deletion::Go { href };
    }
    let mut q = glue3("Delete ", decimal_text(n as u64).as_str(), " completed task");
    let ghost head = q@;
    if n != 1 {
        q.append("s");
    } else {
        assert(head + Seq::<char>::empty() == head);
    }
    q.append(" from ");
    q.append(from);
    q.append(", on every device?");
    Deletion::Ask { question: q, href }
}

/// Deleting completed tasks: of the first list that is meant, or of every
/// list.
pub fn clear_completed(lists: &[ListView], list: Option<&str>, yes: bool) -> (r: Result<
    Deletion,
    String,
>)
    requires
        list is None ==> done_in(lists@) <= usize::MAX,
    ensures
        match list {
            Some(key) => if meant(lists@, key@).len() == 0 {
                r matches Err(e) && e@ == "no list is named "@ + quoted(key@)
            } else {
                let l = meant(lists@, key@)[0];
                r matches Ok(d) && clearing(
                    l.done as nat,
                    "“"@ + l.name@ + "”"@,
                    l.href@,
                    yes,
                    d,
                )
            },
            None => r matches Ok(d) && clearing(
                done_in(lists@),
                "every list"@,
                Seq::empty(),
                yes,
                d,
            ),
        },
{
    match list {
        Some(key) => {
            let found = find_meant(lists, key);
            if found.len() == 0 {
                return Err(glue("no list is named ", debug_text(key).as_str()));
            }
            let l: &ListView = found[0];
            assert(crate::prefs::plain_lists(found@)[0] == *l);
            let from = glue3("“", l.name.as_str(), "”");
            Ok(clear(l.done, from.as_str(), l.href.clone(), yes))
        },
        None => Ok(clear(count_done(lists), "every list", String::new(), yes)),
    }
}

/// The question before a list is deleted.
pub open spec fn remove_question(l: ListView) -> Seq<char> {
    "Delete “"@ + l.name@ + "” and all its tasks ("@ + decimal(l.open as nat)
        + " open)? Nextcloud keeps it in its trash bin."@
}

/// Deleting a list, which a key has to mean alone.
pub fn remove_list(lists: &[ListView], key: &str, yes: bool) -> (r: Result<Deletion, String>)
    ensures
        ({
            let m = meant(lists@, key@);
            if m.len() == 0 {
                r matches Err(e) && e@ == "no list is named "@ + quoted(key@)
                    + " (give its full name)"@
            } else if m.len() > 1 {
                r matches Err(e) && e@ == decimal(m.len()) + " lists are named "@ + quoted(key@)
                    + "; give its href (see `asst --json lists`)"@
            } else if yes {
                r matches Ok(Deletion::Go { href }) && href@ == m[0].href@
            } else {
                r matches Ok(Deletion::Ask { question, href }) && href@ == m[0].href@ && question@
                    == remove_question(m[0])
            }
        }),
{
    let found = find_meant(lists, key);
    let ghost m = meant(lists@, key@);
    assert(crate::prefs::plain_lists(found@).len() == found@.len());
    if found.len() == 0 {
        return Err(
            glue3("no list is named ", debug_text(key).as_str(), " (give its full name)"),
        );
    }
    if found.len() > 1 {
        let mut e = decimal_text(found.len() as u64);
        e.append(" lists are named ");
        e.append(debug_text(key).as_str());
        e.append("; give its href (see `asst --json lists`)");
        return Err(e);
    }
    let l: &ListView = found[0];
    assert(crate::prefs::plain_lists(found@)[0] == *l);
    if yes {
        return Ok(Deletion::Go { href: l.href.clone() });
    }
    let mut q = glue3("Delete “", l.name.as_str(), "” and all its tasks (");
    q.append(decimal_text(l.open as u64).as_str());
    q.append(" open)? Nextcloud keeps it in its trash bin.");
    Ok(Deletion::Ask { question: q, href: l.href.clone() })
}

/// What deleting comes to, once asked: the address to delete at, or what is
/// said instead.
pub fn settled(d: Deletion, yes: bool) -> (r: Result<String, &'static str>)
    ensures
        match d {
            Deletion::Nothing => r matches Err(e) && e@ == "Nothing completed."@,
            Deletion::Ask { question, href } => if yes {
                r == Ok::<String, &'static str>(href)
            } else {
                r matches Err(e) && e@ == "Kept."@
            },
            Deletion::Go { href } => r == Ok::<String, &'static str>(href),
        },
{
    match d {
        Deletion::Nothing => Err("Nothing completed."),
        Deletion::Ask { question: _, href } => if yes {
            Ok(href)
        } else {
            Err("Kept.")
        },
        Deletion::Go { href } => Ok(href),
    }
}

/// An answer that means yes, in lowercase.
pub open spec fn yes_word(s: Seq<char>) -> bool {
    s == "y"@ || s == "yes"@
}

/// Whether an answer means yes; anything else is no.
pub fn is_yes(answer: &str) -> (r: bool)
    ensures
        r == yes_word(lowercase_text(trim(answer@))),
{
    says_yes(lower_text(trim_text(answer).as_str()).as_str())
}

/// Whether an answer in lowercase means yes.
pub fn says_yes(answer: &str) -> (r: bool)
    ensures
        r == yes_word(answer@),
{
    same(answer, "y") || same(answer, "yes")
}

// -- changing -------------------------------------------------------------------------------

/// What `edit` was asked to change.
#[derive(Debug)]
pub struct EditArgs {
    pub title: Option<String>,
    pub due: Option<String>,
    pub priority: Option<u8>,
    pub note: Option<String>,
    pub list: Option<String>,
    pub repeat: Option<String>,
}

/// The change that `edit` asks for; an empty note clears the notes.
pub open spec fn edited(a: EditArgs) -> Change {
    Change {
        summary: a.title,
        description: match a.note {
            Some(n) => Some(
                if n@.len() == 0 {
                    None
                } else {
                    Some(n)
                },
            ),
            None => None,
        },
        due_text: a.due,
        priority: a.priority,
        list: a.list,
        repeat_text: a.repeat,
        ..no_change()
    }
}

/// The change that `edit` asks for. Asked for nothing, it says so.
pub fn edit_change(a: EditArgs) -> (r: Result<Change, &'static str>)
    ensures
        if edited(a) == no_change() {
            r matches Err(e) && e@ == "nothing to change; see `asst edit --help`"@
        } else {
            r == Ok::<Change, &'static str>(edited(a))
        },
{
    let mut c = Change::default();
    c.summary = a.title;
    c.description = match a.note {
        Some(n) => Some(
            if n.as_str().is_empty() {
                None
            } else {
                Some(n)
            },
        ),
        None => None,
    };
    c.due_text = a.due;
    c.priority = a.priority;
    c.list = a.list;
    c.repeat_text = a.repeat;
    if c.is_empty() {
        Err("nothing to change; see `asst edit --help`")
    } else {
        Ok(c)
    }
}

/// What `add` was given.
#[derive(Debug)]
pub struct AddArgs {
    pub words: Vec<String>,
    pub list: Option<String>,
    pub due: Option<String>,
    pub priority: Option<u8>,
    pub note: Option<String>,
    pub repeat: Option<String>,
    pub url: Option<String>,
    pub source: Option<String>,
    pub attach: Vec<String>,
    pub literal: bool,
}

/// The task that `add` asks for.
pub open spec fn adds(a: AddArgs, r: AddSpec) -> bool {
    &&& r.text@ == join(texts(a.words@), " "@)
    &&& r.parse == !a.literal
    &&& !r.keep_dates
    &&& r.list == a.list
    &&& r.due_text == a.due
    &&& r.priority == a.priority
    &&& r.description == a.note
    &&& r.repeat_text == a.repeat
    &&& r.url == a.url
    &&& r.source == a.source
    &&& r.linked_notes == a.attach
    &&& r.due is None
    &&& r.rrule is None
    &&& r.alarms is None
}

/// The task that `add` asks for.
pub fn add_spec(a: AddArgs) -> (r: AddSpec)
    ensures
        adds(a, r),
{
    AddSpec {
        text: joined(&a.words, " "),
        parse: !a.literal,
        keep_dates: false,
        list: a.list,
        due: None,
        due_text: a.due,
        rrule: None,
        repeat_text: a.repeat,
        priority: a.priority,
        description: a.note,
        url: a.url,
        source: a.source,
        alarms: None,
        linked_notes: a.attach,
    }
}

/// A note to unlink: as given, and its path in the notes folder when it is
/// there.
#[derive(Debug)]
pub struct Given {
    pub text: String,
    pub path: Option<String>,
}

/// A linked note that was given: by its path, its link or its name.
pub open spec fn is_given(n: Note, g: Given) -> bool {
    text_opt(g.path) == Some(n.link@) || n.link@ == g.text@ || alike(n.name@, trim(g.text@))
}

pub open spec fn not_given(g: Given) -> spec_fn(Note) -> bool {
    |n: Note| !is_given(n, g)
}

/// The notes left after the given ones are unlinked one by one; none when
/// one of those is not linked.
pub open spec fn detached(notes: Seq<Note>, given: Seq<Given>) -> Option<Seq<Note>>
    decreases given.len(),
{
    if given.len() == 0 {
        Some(notes)
    } else {
        match detached(notes, given.drop_last()) {
            None => None,
            Some(left) => {
                let rest = left.filter(not_given(given.last()));
                if rest.len() == left.len() {
                    None
                } else {
                    Some(rest)
                }
            },
        }
    }
}

fn given_is(n: &Note, g: &Given, name: &str) -> (r: bool)
    requires
        name@ == trim(g.text@),
    ensures
        r == is_given(*n, *g),
{
    let by_path: bool = match &g.path {
        Some(p) => *p == n.link,
        None => false,
    };
    by_path || n.link == g.text || is_alike(n.name.as_str(), name)
}

/// The notes that references point at.
pub open spec fn plain_notes(s: Seq<&Note>) -> Seq<Note> {
    s.map_values(|n: &Note| *n)
}

fn leave<'a>(notes: &Vec<&'a Note>, g: &Given) -> (r: Vec<&'a Note>)
    ensures
        plain_notes(r@) == plain_notes(notes@).filter(not_given(*g)),
{
    let name = trim_text(g.text.as_str());
    let mut out: Vec<&'a Note> = Vec::new();
    let ghost s = plain_notes(notes@);
    proof {
        reveal(Seq::filter);
        assert(plain_notes(out@) =~= s.take(0).filter(not_given(*g)));
    }
    for i in 0..notes.len()
        invariant
            s == plain_notes(notes@),
            name@ == trim(g.text@),
            plain_notes(out@) == s.take(i as int).filter(not_given(*g)),
    {
        let n: &'a Note = notes[i];
        let ghost before = plain_notes(out@);
        proof {
            reveal(Seq::filter);
            assert(s.take(i + 1).drop_last() == s.take(i as int));
            assert(s.take(i + 1).last() == *n);
        }
        if !given_is(n, g, name.as_str()) {
            out.push(n);
            assert(plain_notes(out@) =~= before.push(*n));
        }
    }
    assert(s.take(s.len() as int) == s);
    out
}

/// The first given note that is not linked when its turn comes.
pub open spec fn missing(notes: Seq<Note>, given: Seq<Given>, i: int) -> bool {
    &&& 0 <= i < given.len()
    &&& detached(notes, given.take(i)) is Some
    &&& detached(notes, given.take(i + 1)) is None
}

proof fn lemma_detached_fails(notes: Seq<Note>, given: Seq<Given>, i: int)
    requires
        0 <= i <= given.len(),
        detached(notes, given.take(i)) is None,
    ensures
        detached(notes, given) is None,
    decreases given.len(),
{
    if i < given.len() {
        assert(given.drop_last().take(i) == given.take(i));
        lemma_detached_fails(notes, given.drop_last(), i);
    } else {
        assert(given.take(i) == given);
    }
}

/// Unlinking notes from a task. One that is not linked is named, and nothing
/// changes.
pub fn detach(summary: &str, notes: &Vec<Note>, given: &Vec<Given>) -> (r: Result<
    Vec<String>,
    String,
>)
    ensures
        match detached(notes@, given@) {
            Some(left) => r matches Ok(v) && texts(v@) == crate::editor::links_of(left),
            None => r matches Err(e) && exists|i: int| #[trigger]
                missing(notes@, given@, i) && e@ == "“"@ + summary@ + "” doesn't link a note "@
                    + quoted(given@[i].text@),
        },
{
    let mut left: Vec<&Note> = Vec::new();
    for i in 0..notes.len()
        invariant
            plain_notes(left@) == notes@.take(i as int),
    {
        let ghost before = plain_notes(left@);
        left.push(&notes[i]);
        assert(plain_notes(left@) =~= before.push(notes@[i as int]));
    }
    assert(notes@.take(notes@.len() as int) == notes@);
    assert(given@.take(0).len() == 0);
    for i in 0..given.len()
        invariant
            detached(notes@, given@.take(i as int)) == Some(plain_notes(left@)),
    {
        let ghost before = plain_notes(left@);
        proof {
            assert(given@.take(i + 1).drop_last() == given@.take(i as int));
            assert(given@.take(i + 1).last() == given@[i as int]);
        }
        let n = left.len();
        let rest = leave(&left, &given[i]);
        if rest.len() == n {
            let mut e = glue3("“", summary, "” doesn't link a note ");
            e.append(debug_text(given[i].text.as_str()).as_str());
            proof {
                assert(missing(notes@, given@, i as int));
                lemma_detached_fails(notes@, given@, i + 1);
            }
            return Err(e);
        }
        left = rest;
    }
    assert(given@.take(given@.len() as int) == given@);
    let mut out: Vec<String> = Vec::new();
    let ghost l = crate::editor::links_of(plain_notes(left@));
    for i in 0..left.len()
        invariant
            l == crate::editor::links_of(plain_notes(left@)),
            texts(out@) == l.take(i as int),
    {
        let ghost before = texts(out@);
        out.push(left[i].link.clone());
        assert(texts(out@) =~= before.push(l[i as int]));
    }
    assert(l.take(l.len() as int) == l);
    Ok(out)
}

/// The change that links more notes to a task, after those it links.
pub fn attach(notes: &Vec<Note>, given: &Vec<String>) -> (r: Change)
    ensures
        r == (Change { linked_notes: r.linked_notes, ..no_change() }),
        r.linked_notes matches Some(v) && texts(v@) == crate::editor::links_of(notes@) + texts(
            given@,
        ),
{
    let mut links: Vec<String> = Vec::new();
    let ghost l = crate::editor::links_of(notes@);
    for i in 0..notes.len()
        invariant
            l == crate::editor::links_of(notes@),
            texts(links@) == l.take(i as int),
    {
        let ghost before = texts(links@);
        links.push(notes[i].link.clone());
        assert(texts(links@) =~= before.push(l[i as int]));
    }
    assert(l.take(l.len() as int) == l);
    let ghost g = texts(given@);
    assert(l + g.take(0) =~= l);
    for i in 0..given.len()
        invariant
            g == texts(given@),
            texts(links@) == l + g.take(i as int),
    {
        let ghost before = texts(links@);
        links.push(given[i].clone());
        assert(texts(links@) =~= before.push(g[i as int]));
        assert(texts(links@) =~= l + g.take(i + 1));
    }
    assert(g.take(g.len() as int) == g);
    Change::to_links(links)
}

// -- settings -------------------------------------------------------------------------------

/// A setting as given: none when it says `default`.
pub fn or_default(given: Option<String>) -> (r: Option<Option<String>>)
    ensures
        match given {
            Some(s) => r == (if alike(s@, "default"@) {
                Some(None::<String>)
            } else {
                Some(Some(s))
            }),
            None => r is None,
        },
{
    match given {
        Some(s) => if is_alike(s.as_str(), "default") {
            Some(None)
        } else {
            Some(Some(s))
        },
        None => None,
    }
}

/// The words for the snooze times and for how long before the due time.
#[derive(Debug)]
pub struct SettingsWords {
    pub snooze: Vec<String>,
    pub before: String,
}

/// Which list is the inbox, in words.
pub open spec fn inbox_words(color: bool, s: Settings, lists: Seq<ListView>) -> Seq<char> {
    match (s.inbox, crate::plan::first_list(lists, |l: ListView| l.inbox)) {
        (Some(name), _) => name@,
        (None, Some(l)) => l.name@ + " "@ + painted(color, "2"@, "(default)"@),
        (None, None) => painted(color, "2"@, "(default)"@),
    }
}

/// A setting's name and its value.
pub open spec fn setting_row(k: Seq<char>, v: Seq<char>) -> Seq<char> {
    filled(k, 13) + " "@ + v
}

pub open spec fn settings_rows(
    color: bool,
    s: Settings,
    w: SettingsWords,
    lists: Seq<ListView>,
) -> Seq<Seq<char>> {
    seq![
        setting_row("inbox"@, inbox_words(color, s, lists)),
        setting_row("interval"@, decimal(s.interval as nat) + " s"@),
        setting_row("snooze"@, join(texts(w.snooze@), ", "@)),
        setting_row(
            "alarm-at-due"@,
            if s.alarm_at_due {
                "yes"@
            } else {
                "no"@
            },
        ),
        setting_row(
            "alarm-before"@,
            if s.alarm_before == 0 {
                "at the due time"@
            } else {
                w.before@ + " before"@
            },
        ),
        setting_row("notes"@, s.notes@),
    ]
}

fn row_of(k: &str, v: &str) -> (r: String)
    ensures
        r@ == setting_row(k@, v@),
{
    glue3(fill(k, 13).as_str(), " ", v)
}

fn first_inbox<'a>(lists: &'a [ListView]) -> (r: Option<&'a ListView>)
    ensures
        r == (match crate::plan::first_list(lists@, |l: ListView| l.inbox) {
            Some(l) => Some(&l),
            None => None,
        }),
{
    let ghost p = |l: ListView| l.inbox;
    assert(lists@.skip(0) == lists@);
    for i in 0..lists.len()
        invariant
            p == (|l: ListView| l.inbox),
            crate::plan::first_list(lists@.skip(i as int), p) == crate::plan::first_list(
                lists@,
                p,
            ),
    {
        let ghost t = lists@.skip(i as int);
        assert(t[0] == lists@[i as int]);
        if lists[i].inbox {
            return Some(&lists[i]);
        }
        assert(t.skip(1) == lists@.skip(i + 1));
    }
    assert(lists@.skip(lists@.len() as int).len() == 0);
    None
}

/// The settings, a line for each.
pub fn say_settings(style: &Style, s: &Settings, w: &SettingsWords, lists: &[ListView]) -> (r: Vec<
    String,
>)
    ensures
        texts(r@) == settings_rows(style.color, *s, *w, lists@),
{
    let inbox = match (&s.inbox, first_inbox(lists)) {
        (Some(name), _) => name.clone(),
        (None, Some(l)) => glue3(l.name.as_str(), " ", style.dim("(default)").as_str()),
        (None, None) => style.dim("(default)"),
    };
    let mut out: Vec<String> = Vec::new();
    out.push(row_of("inbox", inbox.as_str()));
    out.push(row_of("interval", glue(decimal_text(s.interval).as_str(), " s").as_str()));
    out.push(row_of("snooze", joined(&w.snooze, ", ").as_str()));
    out.push(
        row_of(
            "alarm-at-due",
            if s.alarm_at_due {
                "yes"
            } else {
                "no"
            },
        ),
    );
    let before = if s.alarm_before == 0 {
        String::from_str("at the due time")
    } else {
        glue(w.before.as_str(), " before")
    };
    out.push(row_of("alarm-before", before.as_str()));
    out.push(row_of("notes", s.notes.as_str()));
    assert(texts(out@) =~= settings_rows(style.color, *s, *w, lists@));
    out
}

// -- what is said -----------------------------------------------------------------------------

/// A dim word and what follows it.
pub open spec fn labelled(color: bool, word: Seq<char>, rest: Seq<char>) -> Seq<char> {
    painted(color, "2"@, word) + " "@ + rest
}

/// A dim word and what follows it: `Deleted: Call the bank`.
pub fn label(style: &Style, word: &str, rest: &str) -> (r: String)
    ensures
        r@ == labelled(style.color, word@, rest@),
{
    glue3(style.dim(word).as_str(), " ", rest)
}

/// What is said of a task that was added, or was there already.
pub open spec fn added_words(color: bool, existed: bool, t: TaskView, due: Option<DueWords>) -> Seq<
    char,
> {
    labelled(
        color,
        if existed {
            "Already there:"@
        } else {
            "Added"@
        },
        line_of(color, t, due, true),
    )
}

/// What is said of a task that was added, or was there already.
pub fn say_added(style: &Style, existed: bool, t: &TaskView, due: &Option<DueWords>) -> (r: String)
    ensures
        r@ == added_words(style.color, existed, *t, *due),
{
    let verb = if existed {
        "Already there:"
    } else {
        "Added"
    };
    label(style, verb, task_line(style, t, due, true).as_str())
}

/// What is said of a task that was completed: a repeating one has moved on,
/// and `next` are the words for its date.
pub open spec fn done_words(color: bool, t: TaskView, next: Seq<char>) -> Seq<char> {
    labelled(color, "Done:"@, t.task.summary@) + (if t.task.rrule is Some && t.task.due is Some
        && t.task.open {
        "; next "@ + next
    } else {
        Seq::empty()
    })
}

/// What is said of a task that was completed: a repeating one has moved on,
/// and `next` are the words for its date.
pub fn say_done(style: &Style, t: &TaskView, next: &str) -> (r: String)
    ensures
        r@ == done_words(style.color, *t, next@),
{
    let mut s = label(style, "Done:", t.task.summary.as_str());
    let ghost head = s@;
    if t.task.rrule.is_some() && t.task.due.is_some() && t.task.open {
        s.append("; next ");
        s.append(next);
        assert(s@ =~= head + ("; next "@ + next@));
    } else {
        assert(head + Seq::<char>::empty() == head);
    }
    s
}

/// The words that show a task, where they are not its own.
#[derive(Debug)]
pub struct ShowWords {
    /// `NEEDS-ACTION`.
    pub status: String,
    pub due: String,
    /// When its reminders go off.
    pub reminders: Vec<String>,
    /// Its linked notes' files, and whether they are there.
    pub notes: Vec<(String, bool)>,
    /// A priority was given.
    pub has_priority: bool,
}

/// A name and its value.
pub open spec fn show_row(color: bool, k: Seq<char>, v: Seq<char>) -> Seq<char> {
    "  "@ + filled(painted(color, "2"@, k), 10) + " "@ + v
}

/// A linked note's file, and whether it is there.
pub open spec fn note_text(color: bool, file: Seq<char>, there: bool) -> Seq<char> {
    file + painted(
        color,
        "2"@,
        if there {
            Seq::empty()
        } else {
            " (missing)"@
        },
    )
}

pub open spec fn indent(l: Seq<Seq<char>>) -> Seq<Seq<char>> {
    l.map_values(|s: Seq<char>| "  "@ + s)
}

/// A row, when there is something to say.
pub open spec fn some_row(color: bool, k: Seq<char>, v: Option<Seq<char>>) -> Seq<Seq<char>> {
    match v {
        Some(v) => seq![show_row(color, k, v)],
        None => Seq::empty(),
    }
}

/// What a task is, first.
pub open spec fn show_head(color: bool, t: TaskView, w: ShowWords) -> Seq<Seq<char>> {
    seq![
        painted(color, "1"@, t.task.summary@),
        show_row(color, "id"@, t.task.uid@),
        show_row(color, "list"@, t.list_name@),
        show_row(color, "status"@, w.status@),
    ]
}

pub open spec fn reminder_rows(color: bool, w: ShowWords) -> Seq<Seq<char>> {
    texts(w.reminders@).map_values(|s: Seq<char>| show_row(color, "reminder"@, s))
}

pub open spec fn note_rows(color: bool, w: ShowWords) -> Seq<Seq<char>> {
    w.notes@.map_values(|n: (String, bool)| show_row(color, "note"@, note_text(color, n.0@, n.1)))
}

/// A task's notes, after a line between.
pub open spec fn description_lines(d: Option<Seq<char>>) -> Seq<Seq<char>> {
    match d {
        Some(d) => seq![Seq::<char>::empty()] + indent(lines(d)),
        None => Seq::empty(),
    }
}

/// The lines that show a task.
pub open spec fn show_lines(color: bool, t: TaskView, w: ShowWords) -> Seq<Seq<char>> {
    show_head(color, t, w) + some_row(
        color,
        "due"@,
        if t.task.due is Some {
            Some(w.due@)
        } else {
            None
        },
    ) + some_row(color, "repeats"@, text_opt(t.task.rrule)) + some_row(
        color,
        "priority"@,
        if w.has_priority {
            Some("p"@ + decimal(t.task.level as nat))
        } else {
            None
        },
    ) + reminder_rows(color, w) + some_row(color, "url"@, text_opt(t.task.url)) + some_row(
        color,
        "source"@,
        text_opt(t.task.source),
    ) + note_rows(color, w) + some_row(
        color,
        "sync"@,
        if t.pending {
            Some("waiting to be sent"@)
        } else {
            None
        },
    ) + description_lines(text_opt(t.task.description))
}

fn put_row(out: &mut Vec<String>, style: &Style, k: &str, v: &str)
    ensures
        texts(final(out)@) == texts(old(out)@).push(show_row(style.color, k@, v@)),
{
    let mut s = glue3("  ", fill(style.dim(k).as_str(), 10).as_str(), " ");
    s.append(v);
    out.push(s);
    assert(texts(out@) =~= texts(old(out)@).push(show_row(style.color, k@, v@)));
}

fn put_line(out: &mut Vec<String>, s: String)
    ensures
        texts(final(out)@) == texts(old(out)@).push(s@),
{
    out.push(s);
    assert(texts(out@) =~= texts(old(out)@).push(s@));
}

fn put_some(out: &mut Vec<String>, style: &Style, k: &str, v: Option<&str>)
    ensures
        texts(final(out)@) == texts(old(out)@) + some_row(
            style.color,
            k@,
            match v {
                Some(v) => Some(v@),
                None => None,
            },
        ),
{
    match v {
        Some(v) => put_row(out, style, k, v),
        None => {},
    }
    assert(texts(out@) =~= texts(old(out)@) + some_row(
        style.color,
        k@,
        match v {
            Some(v) => Some(v@),
            None => None,
        },
    ));
}

fn put_text(out: &mut Vec<String>, style: &Style, k: &str, v: &Option<String>)
    ensures
        texts(final(out)@) == texts(old(out)@) + some_row(style.color, k@, text_opt(*v)),
{
    match v {
        Some(s) => put_some(out, style, k, Some(s.as_str())),
        None => put_some(out, style, k, None),
    }
}

fn put_reminders(out: &mut Vec<String>, style: &Style, w: &ShowWords)
    ensures
        texts(final(out)@) == texts(old(out)@) + reminder_rows(style.color, *w),
{
    let ghost a = texts(out@);
    let ghost all = reminder_rows(style.color, *w);
    assert(a + all.take(0) =~= a);
    for i in 0..w.reminders.len()
        invariant
            all == reminder_rows(style.color, *w),
            texts(out@) == a + all.take(i as int),
    {
        put_row(out, style, "reminder", w.reminders[i].as_str());
        assert(texts(out@) =~= a + all.take(i + 1));
    }
    assert(all.take(all.len() as int) == all);
}

fn note_of(style: &Style, file: &str, there: bool) -> (r: String)
    ensures
        r@ == note_text(style.color, file@, there),
{
    let missing = if there {
        ""
    } else {
        " (missing)"
    };
    proof {
        reveal_strlit("");
        assert(""@ =~= Seq::<char>::empty());
    }
    glue(file, style.dim(missing).as_str())
}

fn put_notes(out: &mut Vec<String>, style: &Style, w: &ShowWords)
    ensures
        texts(final(out)@) == texts(old(out)@) + note_rows(style.color, *w),
{
    let ghost a = texts(out@);
    let ghost all = note_rows(style.color, *w);
    assert(a + all.take(0) =~= a);
    for i in 0..w.notes.len()
        invariant
            all == note_rows(style.color, *w),
            texts(out@) == a + all.take(i as int),
    {
        let v = note_of(style, w.notes[i].0.as_str(), w.notes[i].1);
        put_row(out, style, "note", v.as_str());
        assert(texts(out@) =~= a + all.take(i + 1));
    }
    assert(all.take(all.len() as int) == all);
}

fn put_description(out: &mut Vec<String>, d: &Option<String>)
    ensures
        texts(final(out)@) == texts(old(out)@) + description_lines(text_opt(*d)),
{
    let ghost a = texts(out@);
    if let Some(d) = d {
        put_line(out, String::new());
        let v = split_lines(d.as_str());
        let ghost l = texts(v@);
        let ghost b = texts(out@);
        assert(b + indent(l.take(0)) =~= b);
        for i in 0..v.len()
            invariant
                l == texts(v@),
                texts(out@) == b + indent(l.take(i as int)),
        {
            put_line(out, glue("  ", v[i].as_str()));
            assert(texts(out@) =~= b + indent(l.take(i + 1)));
        }
        assert(l.take(l.len() as int) == l);
        assert(texts(out@) =~= a + (seq![Seq::<char>::empty()] + indent(lines(d@))));
    } else {
        assert(a + Seq::<Seq<char>>::empty() =~= a);
    }
}

/// The lines that show a task.
pub fn say_show(style: &Style, t: &TaskView, w: &ShowWords) -> (r: Vec<String>)
    ensures
        texts(r@) == show_lines(style.color, *t, *w),
{
    let mut out: Vec<String> = Vec::new();
    assert(texts(out@) =~= Seq::<Seq<char>>::empty());
    put_line(&mut out, style.bold(t.task.summary.as_str()));
    put_row(&mut out, style, "id", t.task.uid.as_str());
    put_row(&mut out, style, "list", t.list_name.as_str());
    put_row(&mut out, style, "status", w.status.as_str());
    assert(texts(out@) =~= show_head(style.color, *t, *w));
    let due = if t.task.due.is_some() {
        Some(w.due.as_str())
    } else {
        None
    };
    put_some(&mut out, style, "due", due);
    put_text(&mut out, style, "repeats", &t.task.rrule);
    let p = glue("p", decimal_text(t.task.level as u64).as_str());
    let priority = if w.has_priority {
        Some(p.as_str())
    } else {
        None
    };
    put_some(&mut out, style, "priority", priority);
    put_reminders(&mut out, style, w);
    put_text(&mut out, style, "url", &t.task.url);
    put_text(&mut out, style, "source", &t.task.source);
    put_notes(&mut out, style, w);
    let sync = if t.pending {
        Some("waiting to be sent")
    } else {
        None
    };
    put_some(&mut out, style, "sync", sync);
    put_description(&mut out, &t.task.description);
    out
}

/// `s` with spaces before it, up to `w` characters.
pub open spec fn right(s: Seq<char>, w: nat) -> Seq<char> {
    Seq::new(
        if s.len() < w {
            (w - s.len()) as nat
        } else {
            0
        },
        |i: int| ' ',
    ) + s
}

fn to_right(s: &str, w: usize) -> (r: String)
    ensures
        r@ == right(s@, w as nat),
{
    let n = chars(s).len();
    let mut out = String::new();
    let mut k: usize = n;
    while k < w
        invariant
            n == s@.len(),
            n <= k,
            k <= w || k == n,
            out@ == Seq::new((k - n) as nat, |i: int| ' '),
        decreases w - k,
    {
        out.push(' ');
        k += 1;
        assert(out@ =~= Seq::new((k - n) as nat, |i: int| ' '));
    }
    out.append(s);
    out
}

/// A list in a line: how many open tasks it has, its name, and what is
/// special about it.
pub open spec fn list_words(color: bool, l: ListView) -> Seq<char> {
    right(decimal(l.open as nat), 4) + "  "@ + l.name@ + (if l.inbox {
        painted(color, "2"@, "  (inbox)"@)
    } else {
        Seq::empty()
    }) + (if !l.writable {
        painted(color, "2"@, "  (read-only)"@)
    } else {
        Seq::empty()
    })
}

/// A list in a line: how many open tasks it has, its name, and what is
/// special about it.
pub fn list_line(style: &Style, l: &ListView) -> (r: String)
    ensures
        r@ == list_words(style.color, *l),
{
    let n = decimal_text(l.open as u64);
    let mut s = to_right(n.as_str(), 4);
    s.append("  ");
    s.append(l.name.as_str());
    let ghost a = s@;
    if l.inbox {
        s.append(style.dim("  (inbox)").as_str());
    } else {
        assert(a + Seq::<char>::empty() == a);
    }
    let ghost b = s@;
    if !l.writable {
        s.append(style.dim("  (read-only)").as_str());
    } else {
        assert(b + Seq::<char>::empty() == b);
    }
    s
}

/// What a sync did.
#[derive(Debug, Clone, Copy)]
pub struct Report {
    /// Anything at all.
    pub changed: bool,
    pub pushed: usize,
    pub fetched: usize,
    pub removed: usize,
}

/// The parts of what a sync did.
pub open spec fn report_parts(r: Report) -> Seq<Seq<char>> {
    let parts = (if r.pushed > 0 {
        seq![decimal(r.pushed as nat) + " sent"@]
    } else {
        Seq::empty()
    }) + (if r.fetched > 0 {
        seq![decimal(r.fetched as nat) + " received"@]
    } else {
        Seq::empty()
    }) + (if r.removed > 0 {
        seq![decimal(r.removed as nat) + " removed"@]
    } else {
        Seq::empty()
    });
    if parts.len() == 0 {
        seq!["lists updated"@]
    } else {
        parts
    }
}

/// What a sync did, in words.
pub open spec fn report_words(r: Report) -> Seq<char> {
    if !r.changed {
        "Up to date."@
    } else {
        "Synced: "@ + join(report_parts(r), ", "@) + "."@
    }
}

/// What a sync did, in words.
pub fn say_report(r: &Report) -> (s: String)
    ensures
        s@ == report_words(*r),
{
    if !r.changed {
        return String::from_str("Up to date.");
    }
    let mut parts: Vec<String> = Vec::new();
    if r.pushed > 0 {
        parts.push(glue(decimal_text(r.pushed as u64).as_str(), " sent"));
    }
    if r.fetched > 0 {
        parts.push(glue(decimal_text(r.fetched as u64).as_str(), " received"));
    }
    if r.removed > 0 {
        parts.push(glue(decimal_text(r.removed as u64).as_str(), " removed"));
    }
    if parts.len() == 0 {
        parts.push(String::from_str("lists updated"));
    }
    assert(texts(parts@) =~= report_parts(*r));
    glue3("Synced: ", joined(&parts, ", ").as_str(), ".")
}

/// What sync is doing, in a color.
pub open spec fn state_word(color: bool, state: SyncState) -> Seq<char> {
    match state {
        SyncState::Idle => painted(color, "32"@, "up to date"@),
        SyncState::Syncing => "syncing"@,
        SyncState::Offline => painted(color, "33"@, "offline"@),
        SyncState::Error => painted(color, "31"@, "error"@),
        SyncState::NoAccount => painted(color, "2"@, "no account"@),
    }
}

pub open spec fn status_lines(color: bool, s: StatusView, now: Moment) -> Seq<Seq<char>> {
    seq![
        match (s.username, s.server) {
            (Some(u), Some(h)) => "Signed in as "@ + u@ + " on "@ + h@,
            _ => "Not signed in. Run `asst login <server>`."@,
        },
        "Sync: "@ + state_word(color, s.state) + (match s.last_sync {
            Some(t) => ", last sync "@ + short_ago(t.secs_until(now) as nat),
            None => Seq::empty(),
        }),
    ] + (match s.message {
        Some(m) => seq!["  "@ + painted(color, "2"@, m@)],
        None => Seq::empty(),
    }) + (if s.pending > 0 {
        seq![
            decimal(s.pending as nat) + " change"@ + (if s.pending == 1 {
                Seq::empty()
            } else {
                "s"@
            }) + " waiting to be sent"@,
        ]
    } else {
        Seq::empty()
    })
}

/// The account and what sync is doing, a line for each.
pub fn say_status(style: &Style, s: &StatusView, now: Moment) -> (r: Vec<String>)
    requires
        now.wf(),
        crate::task::moment_wf(s.last_sync),
    ensures
        texts(r@) == status_lines(style.color, *s, now),
{
    let mut out: Vec<String> = Vec::new();
    out.push(
        match (&s.username, &s.server) {
            (Some(u), Some(h)) => {
                let mut t = glue3("Signed in as ", u.as_str(), " on ");
                t.append(h.as_str());
                t
            },
            _ => String::from_str("Not signed in. Run `asst login <server>`."),
        },
    );
    let state = match s.state {
        SyncState::Idle => style.green("up to date"),
        SyncState::Syncing => String::from_str("syncing"),
        SyncState::Offline => style.yellow("offline"),
        SyncState::Error => style.red("error"),
        SyncState::NoAccount => style.dim("no account"),
    };
    let mut line = glue("Sync: ", state.as_str());
    let ghost head = line@;
    match s.last_sync {
        Some(t) => {
            line.append(", last sync ");
            line.append(ago(t, now).as_str());
            assert(line@ =~= head + (", last sync "@ + short_ago(t.secs_until(now) as nat)));
        },
        None => {
            assert(head + Seq::<char>::empty() == head);
        },
    }
    out.push(line);
    if let Some(m) = &s.message {
        out.push(glue("  ", style.dim(m.as_str()).as_str()));
    }
    if s.pending > 0 {
        let mut t = glue(decimal_text(s.pending as u64).as_str(), " change");
        let ghost head = t@;
        if s.pending != 1 {
            t.append("s");
        } else {
            assert(head + Seq::<char>::empty() == head);
        }
        t.append(" waiting to be sent");
        out.push(t);
    }
    assert(texts(out@) =~= status_lines(style.color, *s, now));
    out
}

/// A tie between a list and a repo.
#[derive(Debug)]
pub struct LinkView {
    pub name: String,
    pub repo: String,
}

/// A list's name, and the repo it is tied to.
pub open spec fn tie(l: LinkView) -> Seq<char> {
    l.name@ + " ⇄ "@ + l.repo@
}

fn tie_text(l: &LinkView) -> (r: String)
    ensures
        r@ == tie(*l),
{
    glue3(l.name.as_str(), " ⇄ ", l.repo.as_str())
}

/// What is said of a new tie.
pub fn say_linked(style: &Style, l: &LinkView) -> (r: String)
    ensures
        r@ == labelled(style.color, "Linked:"@, tie(*l)),
{
    label(style, "Linked:", tie_text(l).as_str())
}

/// The ties, a line for each, or how to make one.
pub open spec fn link_lines(color: bool, links: Seq<LinkView>) -> Seq<Seq<char>> {
    if links.len() == 0 {
        seq![painted(color, "2"@, "no list is linked; `asst link <list> <owner/repo>`"@)]
    } else {
        links.map_values(|l: LinkView| tie(l))
    }
}

/// The ties, a line for each, or how to make one.
pub fn say_links(style: &Style, links: &Vec<LinkView>) -> (r: Vec<String>)
    ensures
        texts(r@) == link_lines(style.color, links@),
{
    let mut out: Vec<String> = Vec::new();
    let ghost all = links@.map_values(|l: LinkView| tie(l));
    if links.len() == 0 {
        out.push(style.dim("no list is linked; `asst link <list> <owner/repo>`"));
        assert(texts(out@) =~= seq![
            painted(style.color, "2"@, "no list is linked; `asst link <list> <owner/repo>`"@),
        ]);
        return out;
    }
    for i in 0..links.len()
        invariant
            all == links@.map_values(|l: LinkView| tie(l)),
            texts(out@) == all.take(i as int),
    {
        put_line(&mut out, tie_text(&links[i]));
        assert(texts(out@) =~= all.take(i + 1));
    }
    assert(all.take(all.len() as int) == all);
    out
}

/// What is said of a tie that was dropped, if there was one.
pub fn say_unlinked(style: &Style, repo: &str, was: bool) -> (r: Result<String, String>)
    ensures
        match r {
            Ok(s) => was && s@ == labelled(style.color, "Unlinked:"@, repo@),
            Err(e) => !was && e@ == repo@ + " isn't linked"@,
        },
{
    if was {
        Ok(label(style, "Unlinked:", repo))
    } else {
        Err(glue(repo, " isn't linked"))
    }
}

/// What is said of a list's new color.
pub open spec fn recolored_words(color: bool, l: ListView) -> Seq<char> {
    labelled(color, "Recolored:"@, l.name@ + " is "@ + (match l.color {
        Some(c) => c@,
        None => Seq::empty(),
    }))
}

/// What is said of a list's new color.
pub fn say_recolored(style: &Style, l: &ListView) -> (r: String)
    ensures
        r@ == recolored_words(style.color, *l),
{
    let mut s = glue(l.name.as_str(), " is ");
    let ghost head = s@;
    match &l.color {
        Some(c) => s.append(c.as_str()),
        None => {
            assert(head + Seq::<char>::empty() == head);
        },
    }
    label(style, "Recolored:", s.as_str())
}

/// A linked note under its task.
pub open spec fn note_line(color: bool, file: Seq<char>, there: bool) -> Seq<char> {
    "  "@ + painted(color, "2"@, "note"@) + " "@ + note_text(color, file, there)
}

/// A linked note under its task.
pub fn say_note(style: &Style, file: &str, there: bool) -> (r: String)
    ensures
        r@ == note_line(style.color, file@, there),
{
    let mut s = glue3("  ", style.dim("note").as_str(), " ");
    let note = note_of(style, file, there);
    s.append(note.as_str());
    s
}

/// Where to sign in.
pub open spec fn sign_in_text(url: Seq<char>, no_browser: bool) -> Seq<char> {
    (if no_browser {
        "Open this to sign in:\n  "@
    } else {
        "Opening the sign-in page in your browser. If nothing opens, go to:\n  "@
    }) + url
}

/// Where to sign in.
pub fn sign_in_words(url: &str, no_browser: bool) -> (r: String)
    ensures
        r@ == sign_in_text(url@, no_browser),
{
    if no_browser {
        glue("Open this to sign in:\n  ", url)
    } else {
        glue(
            "Opening the sign-in page in your browser. If nothing opens, go to:\n  ",
            url,
        )
    }
}

/// How signing in ended.
pub fn signed_in(ok: bool, message: &str) -> (r: Result<(), String>)
    ensures
        match r {
            Ok(_) => ok,
            Err(e) => !ok && e@ == "sign-in failed: "@ + message@,
        },
{
    if ok {
        Ok(())
    } else {
        Err(glue("sign-in failed: ", message))
    }
}

// -- commands ---------------------------------------------------------------------------------

/// A command that does not list tasks.
#[derive(Debug)]
#[allow(inconsistent_fields)]
pub enum Cmd {
    /// Delete completed tasks.
    Clear,
    Add(AddArgs),
    /// A new note for a task, with a title of its own or not.
    NewNote { id: String, title: Option<String> },
    Attach { id: String },
    Detach { id: String },
    Link { list: Option<String>, repo: Option<String> },
    Unlink { repo: String },
    Open { id: String },
    Show { id: String, raw: bool },
    Done { id: String },
    Reopen { id: String },
    Edit { id: String, to: EditArgs },
    Rm { id: String },
    Dup { id: String },
    Lists,
    NewList { name: Vec<String>, color: Option<String> },
    RenameList { list: String, name: Vec<String> },
    ColorList { list: String, color: String },
    RemoveList,
    Settings(SettingsChange),
    Sync,
    Status,
    /// With an app password of one's own, or in the browser.
    Login { server: String, username: Option<String>, password: Option<String> },
    Logout,
}

/// What the daemon is asked first.
#[derive(Debug)]
#[allow(inconsistent_fields)]
pub enum Call {
    Lists,
    Add(AddSpec),
    Get(String),
    Ics(String),
    Complete(String),
    Reopen(String),
    Edit(String, Change),
    NewNote(String, String),
    Link(String, String),
    Links,
    /// The repo, and how it was given.
    Unlink(String, String),
    Duplicate(String),
    CreateList { name: String, color: Option<String> },
    UpdateList { list: String, name: Option<String>, color: Option<String> },
    Settings,
    SetSettings(SettingsChange),
    Sync,
    Status,
    Login(String),
    LoginPassword(String, String, String),
    Logout,
}

/// The note's title, empty for the task's own.
pub open spec fn or_empty(t: Option<String>) -> Seq<char> {
    match t {
        Some(t) => t@,
        None => Seq::empty(),
    }
}

/// The first call that a command makes.
pub open spec fn calls(cmd: Cmd, c: Call) -> bool {
    match cmd {
        Cmd::Clear | Cmd::Lists | Cmd::RemoveList => c is Lists,
        Cmd::Add(a) => c matches Call::Add(s) && adds(a, s),
        Cmd::NewNote { id, title } => c matches Call::NewNote(i, t) && i == id && t@ == or_empty(
            title,
        ),
        Cmd::Attach { id } | Cmd::Detach { id } | Cmd::Open { id } | Cmd::Rm { id } => c
            == Call::Get(id),
        Cmd::Link { list: Some(l), repo: Some(p) } => c matches Call::Link(cl, cp) && cl@ == trim(
            l@,
        ) && cp@ == trim(p@),
        Cmd::Link { .. } => c is Links,
        Cmd::Unlink { repo } => c matches Call::Unlink(p, given) && p@ == trim(repo@) && given
            == repo,
        Cmd::Show { id, raw } => c == (if raw {
            Call::Ics(id)
        } else {
            Call::Get(id)
        }),
        Cmd::Done { id } => c == Call::Complete(id),
        Cmd::Reopen { id } => c == Call::Reopen(id),
        Cmd::Edit { id, to } => edited(to) != no_change() && c == Call::Edit(id, edited(to)),
        Cmd::Dup { id } => c == Call::Duplicate(id),
        Cmd::NewList { name, color } => c matches Call::CreateList { name: n, color: k } && n@
            == join(texts(name@), " "@) && k == color,
        Cmd::RenameList { list, name } => c matches Call::UpdateList {
            list: l,
            name: Some(n),
            color: None,
        } && l == list && n@ == join(texts(name@), " "@),
        Cmd::ColorList { list, color } => c == (Call::UpdateList {
            list,
            name: None,
            color: Some(color),
        }),
        Cmd::Settings(change) => c == (if change == same_settings() {
            Call::Settings
        } else {
            Call::SetSettings(change)
        }),
        Cmd::Sync => c is Sync,
        Cmd::Status => c is Status,
        Cmd::Login { server, username: Some(u), password: Some(p) } => c matches Call::LoginPassword(
            cs,
            cu,
            cp,
        ) && cs == server && cu == u && cp@ == trim(p@),
        Cmd::Login { server, .. } => c == Call::Login(server),
        Cmd::Logout => c is Logout,
    }
}

/// The first call that a command makes; editing has to change something.
pub fn first_call(cmd: Cmd) -> (r: Result<Call, &'static str>)
    ensures
        match r {
            Ok(c) => calls(cmd, c),
            Err(e) => cmd matches Cmd::Edit { id, to } && edited(to) == no_change() && e@
                == "nothing to change; see `asst edit --help`"@,
        },
{
    let c = match cmd {
        Cmd::Clear | Cmd::Lists | Cmd::RemoveList => Call::Lists,
        Cmd::Add(a) => Call::Add(add_spec(a)),
        Cmd::NewNote { id, title } => Call::NewNote(
            id,
            match title {
                Some(t) => t,
                None => String::new(),
            },
        ),
        Cmd::Attach { id } | Cmd::Detach { id } | Cmd::Open { id } | Cmd::Rm { id } => Call::Get(
            id,
        ),
        Cmd::Link { list, repo } => match (list, repo) {
            (Some(l), Some(p)) => Call::Link(trim_text(l.as_str()), trim_text(p.as_str())),
            _ => Call::Links,
        },
        Cmd::Unlink { repo } => Call::Unlink(trim_text(repo.as_str()), repo),
        Cmd::Show { id, raw } => if raw {
            Call::Ics(id)
        } else {
            Call::Get(id)
        },
        Cmd::Done { id } => Call::Complete(id),
        Cmd::Reopen { id } => Call::Reopen(id),
        Cmd::Edit { id, to } => match edit_change(to) {
            Ok(c) => Call::Edit(id, c),
            Err(e) => {
                return Err(e);
            },
        },
        Cmd::Dup { id } => Call::Duplicate(id),
        Cmd::NewList { name, color } => Call::CreateList { name: joined(&name, " "), color },
        Cmd::RenameList { list, name } => Call::UpdateList {
            list,
            name: Some(joined(&name, " ")),
            color: None,
        },
        Cmd::ColorList { list, color } => Call::UpdateList { list, name: None, color: Some(color) },
        Cmd::Settings(change) => if change.is_empty() {
            Call::Settings
        } else {
            Call::SetSettings(change)
        },
        Cmd::Sync => Call::Sync,
        Cmd::Status => Call::Status,
        Cmd::Login { server, username, password } => match (username, password) {
            (Some(u), Some(p)) => Call::LoginPassword(server, u, trim_text(p.as_str())),
            _ => Call::Login(server),
        },
        Cmd::Logout => Call::Logout,
    };
    Ok(c)
}

// -- errors -----------------------------------------------------------------------------------

/// The bus's own error when nobody has the name that was called.
pub const SERVICE_UNKNOWN: &'static str = "org.freedesktop.DBus.Error.ServiceUnknown";

/// An error from the bus, or another.
#[derive(Debug)]
pub enum Cause {
    /// What a method answered: the error's name, and what it says.
    Method { name: String, text: Option<String> },
    /// The bus library's own word for a name that nobody has.
    Unknown,
    /// The bus library's own word for what was said.
    Said(String),
    Other,
}

/// An error: its cause, and how it reads whole.
#[derive(Debug)]
pub struct Failure {
    pub cause: Cause,
    pub shown: String,
}

/// What is said of an error.
pub open spec fn said(f: Failure) -> Seq<char> {
    match f.cause {
        Cause::Method { name, text: Some(text) } => if name@ == SERVICE_UNKNOWN@ {
            "asstd is not running (systemctl --user start asstd)"@
        } else {
            text@
        },
        Cause::Unknown => "asstd is not running (systemctl --user start asstd)"@,
        Cause::Said(m) => m@,
        _ => f.shown@,
    }
}

/// What is said of an error: what the daemon said, without the name of the
/// bus's error before it.
pub fn message(f: &Failure) -> (r: String)
    ensures
        r@ == said(*f),
{
    match &f.cause {
        Cause::Method { name, text } => match text {
            Some(text) => if same(name.as_str(), SERVICE_UNKNOWN) {
                String::from_str("asstd is not running (systemctl --user start asstd)")
            } else {
                text.clone()
            },
            None => f.shown.clone(),
        },
        Cause::Unknown => String::from_str("asstd is not running (systemctl --user start asstd)"),
        Cause::Said(m) => m.clone(),
        Cause::Other => f.shown.clone(),
    }
}

/// What the window says of an error: what the daemon said when it said
/// something.
pub fn describe(f: &Failure) -> (r: String)
    ensures
        r@ == (match f.cause {
            Cause::Method { name, text } => if name@ == SERVICE_UNKNOWN@ {
                "asstd is not running (systemctl --user start asstd)"@
            } else {
                match text {
                    Some(t) => t@,
                    None => f.shown@,
                }
            },
            Cause::Unknown => "asstd is not running (systemctl --user start asstd)"@,
            Cause::Said(m) => m@,
            Cause::Other => f.shown@,
        }),
{
    match &f.cause {
        Cause::Method { name, text } => if same(name.as_str(), SERVICE_UNKNOWN) {
            String::from_str("asstd is not running (systemctl --user start asstd)")
        } else {
            match text {
                Some(t) => t.clone(),
                None => f.shown.clone(),
            }
        },
        Cause::Unknown => String::from_str("asstd is not running (systemctl --user start asstd)"),
        Cause::Said(m) => m.clone(),
        Cause::Other => f.shown.clone(),
    }
}

/// What is said of an answer that cannot be read.
pub fn unexpected(e: &str) -> (r: String)
    ensures
        r@ == "unexpected answer from asstd: "@ + e@,
{
    glue("unexpected answer from asstd: ", e)
}

/// What is said when the window did not open: an unknown name here is the
/// window's, not the daemon's.
pub fn open_failed(f: &Failure) -> (r: String)
    ensures
        r@ == "the window didn't open: "@ + (match f.cause {
            Cause::Method { name, text } => if name@ == SERVICE_UNKNOWN@ {
                "nothing on the bus starts it"@
            } else {
                match text {
                    Some(t) => t@,
                    None => f.shown@,
                }
            },
            _ => f.shown@,
        }) + " (is asst-gtk installed, with its D-Bus service file?)"@,
{
    let why = match &f.cause {
        Cause::Method { name, text } => if same(name.as_str(), SERVICE_UNKNOWN) {
            String::from_str("nothing on the bus starts it")
        } else {
            match text {
                Some(t) => t.clone(),
                None => f.shown.clone(),
            }
        },
        _ => f.shown.clone(),
    };
    glue3(
        "the window didn't open: ",
        why.as_str(),
        " (is asst-gtk installed, with its D-Bus service file?)",
    )
}

} // verus!
