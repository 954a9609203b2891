//! What a command prints: words, or JSON where that was asked for.

use vstd::prelude::*;
use vstd::string::*;

use crate::cli::{
    LinkView, Report, SettingsWords, ShowWords, added_words, done_words, label, labelled,
    link_lines, list_line, list_words, note_line, recolored_words, report_words, say_added,
    say_done, say_linked, say_links, say_note, say_recolored, say_report, say_settings, say_show,
    say_status, say_tasks, settings_rows, show_lines, sign_in_text, sign_in_words, status_lines,
    task_lines, tie,
};
use crate::number::{decimal, decimal_text};
use crate::out::{DueWords, Style, line_of, task_line};
use crate::settings::Settings;
use crate::task::{ListView, StatusView, TaskView, moment_wf};
use crate::text::texts;
use crate::zone::Moment;

verus! {

/// What a command did. A task comes with the words for its date.
#[derive(Debug)]
pub enum Done {
    /// The answer was not read: JSON was asked for.
    Unread,
    /// Tasks, whether to say their lists, and what to say when there are none.
    Tasks(Vec<(TaskView, Option<DueWords>)>, bool, &'static str),
    /// Whether it was there already.
    Added(bool, (TaskView, Option<DueWords>)),
    Changed((TaskView, Option<DueWords>)),
    Copied((TaskView, Option<DueWords>)),
    /// A task, and the files of the notes it links, and whether they are there.
    Linked((TaskView, Option<DueWords>), Vec<(String, bool)>),
    /// A task, and the words for its date.
    Completed(TaskView, String),
    Reopened(String),
    Deleted(String),
    Shown(TaskView, ShowWords),
    /// An iCalendar object.
    Calendar(String),
    /// A note's file.
    Noted(String),
    Tied(LinkView),
    Ties(Vec<LinkView>),
    Untied(String),
    Lists(Vec<ListView>),
    Created(ListView),
    Renamed(ListView),
    Recolored(ListView),
    Settings(Settings, SettingsWords, Vec<ListView>),
    Synced(Report),
    /// The account, now.
    Status(StatusView, Moment),
    /// So many completed tasks were deleted.
    Cleared(u32),
    /// None were, and what is said of it.
    NotCleared(&'static str),
    /// A list was not deleted, and what is said of it.
    Kept(&'static str),
    /// The page to sign in on, and whether no browser opens it.
    SigningIn(String, bool),
    SignedOut,
}

impl Done {
    /// The moments in it are on the calendar.
    pub open spec fn wf(&self) -> bool {
        match *self {
            Done::Status(s, now) => now.wf() && moment_wf(s.last_sync),
            _ => true,
        }
    }
}

/// The daemon's answer, as it came.
#[derive(Debug)]
pub enum Raw {
    Nothing,
    Whole(String),
    /// One of several, each on a line of its own.
    Line(String),
}

/// What is printed.
#[derive(Debug)]
pub enum Output {
    Nothing,
    Lines(Vec<String>),
    /// As it is, with no line's end after it.
    Text(String),
    /// JSON, and whether to lay it out for reading.
    Json(String, bool),
    /// A text, to be written as JSON.
    Quoted(String),
    /// Lines beside the output, where errors go.
    Aside(Vec<String>),
}

/// Notes under a task.
pub open spec fn notes_under(color: bool, notes: Seq<(String, bool)>) -> Seq<Seq<char>> {
    notes.map_values(|n: (String, bool)| note_line(color, n.0@, n.1))
}

pub open spec fn lists_under(color: bool, lists: Seq<ListView>) -> Seq<Seq<char>> {
    lists.map_values(|l: ListView| list_words(color, l))
}

/// What a command did, in words.
pub open spec fn words_of(color: bool, d: Done) -> Seq<Seq<char>> {
    match d {
        Done::Unread => Seq::empty(),
        Done::Tasks(v, show_list, empty) => task_lines(color, v@, show_list, empty@),
        Done::Added(existed, (t, due)) => seq![added_words(color, existed, t, due)],
        Done::Changed((t, due)) => seq![line_of(color, t, due, true)],
        Done::Copied((t, due)) => seq![labelled(color, "Copied:"@, line_of(color, t, due, true))],
        Done::Linked((t, due), notes) => seq![line_of(color, t, due, true)] + notes_under(
            color,
            notes@,
        ),
        Done::Completed(t, next) => seq![done_words(color, t, next@)],
        Done::Reopened(title) => seq![labelled(color, "Reopened:"@, title@)],
        Done::Deleted(name) => seq![labelled(color, "Deleted:"@, name@)],
        Done::Shown(t, w) => show_lines(color, t, w),
        Done::Calendar(text) => seq![text@],
        Done::Noted(file) => seq![file@],
        Done::Tied(l) => seq![labelled(color, "Linked:"@, tie(l))],
        Done::Ties(v) => link_lines(color, v@),
        Done::Untied(repo) => seq![labelled(color, "Unlinked:"@, repo@)],
        Done::Lists(v) => lists_under(color, v@),
        Done::Created(l) => seq![labelled(color, "Created:"@, l.name@)],
        Done::Renamed(l) => seq![labelled(color, "Renamed:"@, l.name@)],
        Done::Recolored(l) => seq![recolored_words(color, l)],
        Done::Settings(s, w, lists) => settings_rows(color, s, w, lists@),
        Done::Synced(r) => seq![report_words(r)],
        Done::Status(s, now) => status_lines(color, s, now),
        Done::Cleared(n) => seq![labelled(color, "Deleted:"@, decimal(n as nat))],
        Done::NotCleared(said) => seq![said@],
        Done::Kept(said) => seq![said@],
        Done::SigningIn(url, no_browser) => seq![sign_in_text(url@, no_browser)],
        Done::SignedOut => seq![SIGNED_OUT@],
    }
}

pub const SIGNED_OUT: &'static str = "Signed out; the app password is gone from the keyring. Revoke it on the server under Settings → Security.";

/// What is printed of what a command did. Asked for JSON, it is the daemon's
/// answer, laid out on a terminal unless it is one of several; how many
/// completed tasks were deleted; or an iCalendar object as a text.
pub open spec fn prints(color: bool, json: bool, raw: Raw, d: Done, r: Output) -> bool {
    if !json {
        match d {
            Done::Calendar(text) => r == Output::Text(text),
            _ => r matches Output::Lines(v) && texts(v@) == words_of(color, d),
        }
    } else {
        match d {
            Done::Calendar(text) => r == Output::Quoted(text),
            Done::Cleared(n) => r matches Output::Json(s, false) && s@ == decimal(n as nat),
            Done::NotCleared(_) => r matches Output::Json(s, false) && s@ == decimal(0),
            Done::SigningIn(..) => r matches Output::Aside(v) && texts(v@) == words_of(color, d),
            _ => match raw {
                Raw::Nothing => r is Nothing,
                Raw::Whole(s) => r == Output::Json(s, color),
                Raw::Line(s) => r == Output::Json(s, false),
            },
        }
    }
}

fn one(s: String) -> (r: Vec<String>)
    ensures
        texts(r@) == seq![s@],
{
    let mut v: Vec<String> = Vec::new();
    v.push(s);
    assert(texts(v@) =~= seq![s@]);
    v
}

fn say_linked_notes(style: &Style, line: String, notes: &Vec<(String, bool)>) -> (r: Vec<String>)
    ensures
        texts(r@) == seq![line@] + notes_under(style.color, notes@),
{
    let ghost all = notes_under(style.color, notes@);
    let ghost head = seq![line@];
    let mut v = one(line);
    assert(head + all.take(0) =~= head);
    for i in 0..notes.len()
        invariant
            all == notes_under(style.color, notes@),
            texts(v@) == head + all.take(i as int),
    {
        let ghost before = texts(v@);
        v.push(say_note(style, notes[i].0.as_str(), notes[i].1));
        assert(texts(v@) =~= before.push(all[i as int]));
        assert(texts(v@) =~= head + all.take(i + 1));
    }
    assert(all.take(all.len() as int) == all);
    v
}

fn say_lists(style: &Style, lists: &Vec<ListView>) -> (r: Vec<String>)
    ensures
        texts(r@) == lists_under(style.color, lists@),
{
    let ghost all = lists_under(style.color, lists@);
    let mut v: Vec<String> = Vec::new();
    assert(texts(v@) =~= all.take(0));
    for i in 0..lists.len()
        invariant
            all == lists_under(style.color, lists@),
            texts(v@) == all.take(i as int),
    {
        let ghost before = texts(v@);
        v.push(list_line(style, &lists[i]));
        assert(texts(v@) =~= before.push(all[i as int]));
        assert(texts(v@) =~= all.take(i + 1));
    }
    assert(all.take(all.len() as int) == all);
    v
}

fn say(style: &Style, d: &Done) -> (r: Vec<String>)
    requires
        d.wf(),
    ensures
        texts(r@) == words_of(style.color, *d),
{
    match d {
        Done::Unread => {
            let v: Vec<String> = Vec::new();
            assert(texts(v@) =~= Seq::<Seq<char>>::empty());
            v
        },
        Done::Tasks(v, show_list, empty) => say_tasks(style, v.as_slice(), *show_list, empty),
        Done::Added(existed, (t, due)) => one(say_added(style, *existed, t, due)),
        Done::Changed((t, due)) => one(task_line(style, t, due, true)),
        Done::Copied((t, due)) => one(
            label(style, "Copied:", task_line(style, t, due, true).as_str()),
        ),
        Done::Linked((t, due), notes) => say_linked_notes(
            style,
            task_line(style, t, due, true),
            notes,
        ),
        Done::Completed(t, next) => one(say_done(style, t, next.as_str())),
        Done::Reopened(title) => one(label(style, "Reopened:", title.as_str())),
        Done::Deleted(name) => one(label(style, "Deleted:", name.as_str())),
        Done::Shown(t, w) => say_show(style, t, w),
        Done::Calendar(text) => one(text.clone()),
        Done::Noted(file) => one(file.clone()),
        Done::Tied(l) => one(say_linked(style, l)),
        Done::Ties(v) => say_links(style, v),
        Done::Untied(repo) => one(label(style, "Unlinked:", repo.as_str())),
        Done::Lists(v) => say_lists(style, v),
        Done::Created(l) => one(label(style, "Created:", l.name.as_str())),
        Done::Renamed(l) => one(label(style, "Renamed:", l.name.as_str())),
        Done::Recolored(l) => one(say_recolored(style, l)),
        Done::Settings(s, w, lists) => say_settings(style, s, w, lists.as_slice()),
        Done::Synced(r) => one(say_report(r)),
        Done::Status(s, now) => say_status(style, s, *now),
        Done::Cleared(n) => one(label(style, "Deleted:", decimal_text(*n as u64).as_str())),
        Done::NotCleared(said) => one(String::from_str(said)),
        Done::Kept(said) => one(String::from_str(said)),
        Done::SigningIn(url, no_browser) => one(sign_in_words(url.as_str(), *no_browser)),
        Done::SignedOut => one(String::from_str(SIGNED_OUT)),
    }
}

/// What is printed of what a command did.
pub fn output(style: &Style, json: bool, raw: Raw, d: Done) -> (r: Output)
    requires
        d.wf(),
    ensures
        prints(style.color, json, raw, d, r),
{
    if !json {
        return match d {
            Done::Calendar(text) => Output::Text(text),
            d => Output::Lines(say(style, &d)),
        };
    }
    match d {
        Done::Calendar(text) => Output::Quoted(text),
        Done::Cleared(n) => Output::Json(decimal_text(n as u64), false),
        Done::NotCleared(_) => Output::Json(decimal_text(0), false),
        Done::SigningIn(..) => Output::Aside(say(style, &d)),
        _ => match raw {
            Raw::Nothing => Output::Nothing,
            Raw::Whole(s) => Output::Json(s, style.color),
            Raw::Line(s) => Output::Json(s, false),
        },
    }
}

/// Asked for JSON, a command prints no plain text, whatever it did; not asked
/// for it, it prints plain text and no JSON.
pub proof fn json_stands_alone(color: bool, json: bool, raw: Raw, d: Done, r: Output)
    requires
        prints(color, json, raw, d, r),
    ensures
        json ==> !(r is Lines) && !(r is Text),
        !json ==> r is Lines || r is Text,
{
}

/// Asked for JSON, what a command prints does not hang on what was read of
/// the answer: it need not be read.
pub proof fn json_needs_no_reading(color: bool, raw: Raw, d: Done, r: Output, s: Output)
    requires
        prints(color, true, raw, d, r),
        prints(color, true, raw, Done::Unread, s),
        !(d is Calendar || d is Cleared || d is NotCleared || d is SigningIn),
    ensures
        r == s,
{
}

} // verus!
