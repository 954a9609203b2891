//! Notes linked to a task, in the window: their names, what a click on one
//! says, and the picker that links a note from the notes folder or makes a
//! new one.

use vstd::prelude::*;
use vstd::string::*;

use crate::autostart::{join_path, path_below, strip_dir, under};
use crate::text::{
    contains, glue, glue3, has, has_prefix, has_text, join, joined, lower_text, lowercase_text,
    starts_with, texts, trim, trim_text,
};
use crate::words::{ago, ago_text};
use crate::zone::{Moment, Now};

verus! {

/// What was chosen in the picker.
#[derive(Debug)]
pub enum Pick {
    /// A new note, titled after the task, or this.
    New(Option<String>),
    Attach(String),
    Detach(String),
}

/// The file a link names: a path in the notes folder, or already a full path.
pub open spec fn file_at(dir: Option<Seq<char>>, link: Seq<char>) -> Option<Seq<char>> {
    if starts_with(link, "/"@) {
        Some(link)
    } else {
        match dir {
            Some(d) => Some(under(d, link)),
            None => None,
        }
    }
}

/// The file a link names; none when the notes folder is not known.
pub fn file_of(dir: Option<&str>, link: &str) -> (r: Option<String>)
    ensures
        match r {
            Some(f) => file_at(
                match dir {
                    Some(d) => Some(d@),
                    None => None,
                },
                link@,
            ) == Some(f@),
            None => dir is None && !starts_with(link@, "/"@),
        },
{
    if has_prefix(link, "/") {
        return Some(String::from_str(link));
    }
    match dir {
        Some(d) => Some(join_path(d, link)),
        None => None,
    }
}

/// What a linked note's name says: it opens, unless it is gone.
pub fn note_tip(link: &str, missing: bool) -> (r: String)
    ensures
        r@ == (if missing {
            "Not in the notes folder any more: "@ + link@
        } else {
            "Open "@ + link@
        }),
{
    if missing {
        glue("Not in the notes folder any more: ", link)
    } else {
        glue("Open ", link)
    }
}

/// A note's folder and age, in words.
pub open spec fn about_note(folder: Seq<char>, modified: Option<Moment>, now: Now) -> Seq<Seq<char>> {
    (if folder.len() > 0 {
        seq![folder]
    } else {
        Seq::empty()
    }) + (match modified {
        Some(m) => seq![ago_text(m, now.at, now.zone@)],
        None => Seq::empty(),
    })
}

/// A note's folder and age, in a line; none when neither is known.
pub fn note_about(folder: &str, modified: Option<Moment>, now: &Now) -> (r: Option<String>)
    requires
        now.wf(),
        crate::task::moment_wf(modified),
    ensures
        ({
            let about = about_note(folder@, modified, *now);
            match r {
                Some(s) => about.len() > 0 && s@ == join(about, " · "@),
                None => about.len() == 0,
            }
        }),
{
    let mut about: Vec<String> = Vec::new();
    if !folder.is_empty() {
        about.push(String::from_str(folder));
    }
    if let Some(m) = modified {
        about.push(ago(m, now));
    }
    assert(texts(about@) =~= about_note(folder@, modified, *now));
    if about.len() == 0 {
        None
    } else {
        Some(joined(&about, " · "))
    }
}

/// A folder as a person reads it, given what is left of it without the home
/// folder.
pub open spec fn pretty_of(dir: Seq<char>, rest: Option<Seq<char>>) -> Seq<char> {
    match rest {
        Some(r) if r.len() > 0 => "~/"@ + r,
        _ => dir,
    }
}

/// A folder as a person reads it, given what is left of it without the home
/// folder.
pub fn pretty_with(dir: &str, rest: Option<String>) -> (r: String)
    ensures
        r@ == pretty_of(
            dir@,
            match rest {
                Some(s) => Some(s@),
                None => None,
            },
        ),
{
    match rest {
        Some(s) => if s.as_str().is_empty() {
            String::from_str(dir)
        } else {
            glue("~/", s.as_str())
        },
        None => String::from_str(dir),
    }
}

/// A folder as a person reads it: `~/Nextcloud/Notes`.
pub fn pretty(dir: &str, home: Option<&str>) -> (r: String)
    ensures
        r@ == (match home {
            Some(h) => pretty_of(dir@, path_below(dir@, h@)),
            None => dir@,
        }),
{
    match home {
        Some(h) => pretty_with(dir, strip_dir(dir, h)),
        None => String::from_str(dir),
    }
}

/// What is said when there is no note to pick: `dir` as it is shown.
pub fn no_notes(dir: Option<&str>, exists: bool) -> (r: String)
    ensures
        r@ == (match dir {
            Some(d) => if exists {
                "No notes in "@ + d@ + " yet."@
            } else {
                d@ + " doesn't exist. Choose the notes folder in Preferences."@
            },
            None => "The notes folder isn't known: asstd isn't answering."@,
        }),
{
    match dir {
        Some(d) => if exists {
            glue3("No notes in ", d, " yet.")
        } else {
            glue(d, " doesn't exist. Choose the notes folder in Preferences.")
        },
        None => String::from_str("The notes folder isn't known: asstd isn't answering."),
    }
}

/// What the button for a new note says.
pub fn new_label(typed: &str) -> (r: String)
    ensures
        r@ == (if trim(typed@).len() == 0 {
            "New note"@
        } else {
            "New note “"@ + trim(typed@) + "”"@
        }),
{
    let t = trim_text(typed);
    if t.as_str().is_empty() {
        String::from_str("New note")
    } else {
        glue3("New note “", t.as_str(), "”")
    }
}

/// A new note, named as typed when something was.
pub fn pick_new(typed: &str) -> (r: Pick)
    ensures
        r matches Pick::New(t) && match t {
            Some(s) => s@ == trim(typed@) && s@.len() > 0,
            None => trim(typed@).len() == 0,
        },
{
    let t = trim_text(typed);
    if t.as_str().is_empty() {
        Pick::New(None)
    } else {
        Pick::New(Some(t))
    }
}

/// A note chosen: one that is linked already is unlinked.
pub fn pick(path: String, linked: &Vec<String>) -> (r: Pick)
    ensures
        r == (if texts(linked@).contains(path@) {
            Pick::Detach(path)
        } else {
            Pick::Attach(path)
        }),
{
    if has_text(linked, path.as_str()) {
        Pick::Detach(path)
    } else {
        Pick::Attach(path)
    }
}

/// Whether a note is found by what is typed, both in lowercase.
pub fn is_found(path: &str, typed: &str) -> (r: bool)
    ensures
        r == contains(path@, typed@),
{
    has(path, typed)
}

/// The notes found by what is typed, by their places.
pub open spec fn found(paths: Seq<Seq<char>>, typed: Seq<char>) -> spec_fn(int) -> bool {
    |i: int| contains(lowercase_text(paths[i]), lowercase_text(trim(typed)))
}

/// Which notes are found by what is typed.
pub fn find_notes(paths: &Vec<String>, typed: &str) -> (r: Vec<bool>)
    ensures
        r@.len() == paths@.len(),
        forall|i: int| 0 <= i < r@.len() ==> #[trigger] r@[i] == found(texts(paths@), typed@)(i),
{
    let q = lower_text(trim_text(typed).as_str());
    let mut out: Vec<bool> = Vec::new();
    for i in 0..paths.len()
        invariant
            q@ == lowercase_text(trim(typed@)),
            out@.len() == i,
            forall|j: int| 0 <= j < i ==> #[trigger] out@[j] == found(texts(paths@), typed@)(j),
    {
        assert(texts(paths@)[i as int] == paths@[i as int]@);
        out.push(is_found(lower_text(paths[i].as_str()).as_str(), q.as_str()));
    }
    out
}

/// What Enter picks: the first note found; none makes a new one.
pub fn first_found(found: &Vec<bool>) -> (r: Option<usize>)
    ensures
        match r {
            Some(i) => i < found@.len() && found@[i as int] && forall|j: int|
                0 <= j < i ==> !(#[trigger] found@[j]),
            None => forall|j: int| 0 <= j < found@.len() ==> !(#[trigger] found@[j]),
        },
{
    for i in 0..found.len()
        invariant
            forall|j: int| 0 <= j < i ==> !(#[trigger] found@[j]),
    {
        if found[i] {
            return Some(i);
        }
    }
    None
}

} // verus!
