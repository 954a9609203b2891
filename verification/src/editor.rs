//! The task open in place: what typing in it changes, and what it says of
//! the task.

use vstd::prelude::*;
use vstd::string::*;

use crate::change::{Change, no_change};
use crate::date::Date;
use crate::linked::Pick;
use crate::number::{decimal, decimal_text};
use crate::row::{names, note_names};
use crate::task::{Note, Task, TaskView, Trigger};
use crate::text::{
    blank, chars, copy_opt, glue, is_blank, join, joined, same, text, text_opt, texts, trim,
    trim_back, trim_end, trim_text,
};
use crate::update::Msg;
use crate::words::{ago, ago_text, capital, capitalize};
use crate::zone::{Moment, Now};

verus! {

// -- typing -------------------------------------------------------------------------------

/// The task open in place, as it was last shown or saved.
#[derive(Debug)]
pub struct Open {
    pub href: String,
    pub summary: String,
    pub description: Option<String>,
}

/// The editor: the task it holds, and whether typing in it waits to be saved.
#[derive(Debug)]
pub struct Editor {
    pub open: Option<Open>,
    pub title_waits: bool,
    pub notes_wait: bool,
}

/// A change to one task.
#[derive(Debug, Clone)]
pub struct Edit {
    pub href: String,
    pub change: Change,
}

/// A title as it is saved: on one line, without space around it.
pub open spec fn title_of(typed: Seq<char>) -> Seq<char> {
    trim(on_one_line(typed))
}

pub open spec fn on_one_line(s: Seq<char>) -> Seq<char> {
    s.map_values(
        |c: char|
            if c == '\n' {
                ' '
            } else {
                c
            },
    )
}

/// Notes as they are saved: without space after them, and none when blank.
pub open spec fn notes_of(typed: Seq<char>) -> Option<Seq<char>> {
    if blank(trim_end(typed)) {
        None
    } else {
        Some(trim_end(typed))
    }
}

fn one_line(s: &str) -> (r: String)
    ensures
        r@ == on_one_line(s@),
{
    let v = chars(s);
    let mut out: Vec<char> = Vec::new();
    for i in 0..v.len()
        invariant
            out@ == on_one_line(v@).take(i as int),
    {
        let c = v[i];
        out.push(
            if c == '\n' {
                ' '
            } else {
                c
            },
        );
        assert(out@ =~= on_one_line(v@).take(i + 1));
    }
    assert(on_one_line(v@).take(v@.len() as int) == on_one_line(v@));
    text(&out)
}

/// A title that is to be saved: there is one, and it is another.
pub open spec fn saves_title(e: Editor, typed: Seq<char>) -> bool {
    e.open matches Some(o) && title_of(typed).len() > 0 && title_of(typed) != o.summary@
}

/// Notes that are to be saved.
pub open spec fn saves_notes(e: Editor, typed: Seq<char>) -> bool {
    e.open matches Some(o) && notes_of(typed) != text_opt(o.description)
}

/// An edit that saves a title.
pub open spec fn title_saved(e: Edit, o: Open, typed: Seq<char>) -> bool {
    &&& e.href == o.href
    &&& e.change == (Change { summary: e.change.summary, ..no_change() })
    &&& e.change.summary matches Some(s) && s@ == title_of(typed)
}

/// An edit that saves notes.
pub open spec fn notes_saved(e: Edit, o: Open, typed: Seq<char>) -> bool {
    &&& e.href == o.href
    &&& e.change == (Change { description: e.change.description, ..no_change() })
    &&& e.change.description matches Some(d) && text_opt(d) == notes_of(typed)
}

/// The edits that save what waits: the title's first, then the notes'.
pub open spec fn saves_waiting(e: Editor, title: Seq<char>, notes: Seq<char>, v: Seq<Edit>) -> bool {
    let first = e.title_waits && saves_title(e, title);
    let then = e.notes_wait && saves_notes(e, notes);
    &&& v.len() == (if first {
        1int
    } else {
        0
    }) + (if then {
        1int
    } else {
        0
    })
    &&& first ==> title_saved(v[0], e.open->0, title)
    &&& then ==> notes_saved(v.last(), e.open->0, notes)
}

impl Editor {
    pub fn new() -> (r: Editor)
        ensures
            r == (Editor { open: None, title_waits: false, notes_wait: false }),
    {
        Editor { open: None, title_waits: false, notes_wait: false }
    }

    /// Something was typed in the title: it is saved a moment later.
    pub fn typed_title(&mut self)
        ensures
            *final(self) == (Editor { title_waits: true, ..*old(self) }),
    {
        self.title_waits = true;
    }

    /// Something was typed in the notes.
    pub fn typed_notes(&mut self)
        ensures
            *final(self) == (Editor { notes_wait: true, ..*old(self) }),
    {
        self.notes_wait = true;
    }

    /// The title as typed, when it differs from the task's. It is remembered,
    /// so a second save doesn't repeat it before the daemon's answer arrives.
    pub fn title_edit(&mut self, typed: &str) -> (r: Option<Edit>)
        ensures
            r is Some == saves_title(*old(self), typed@),
            r matches Some(e) ==> {
                &&& title_saved(e, old(self).open->0, typed@)
                &&& final(self).open matches Some(o) && o.summary@ == title_of(typed@) && o.href
                    == old(self).open->0.href && o.description == old(self).open->0.description
            },
            r is None ==> final(self).open == old(self).open,
            !final(self).title_waits,
            final(self).notes_wait == old(self).notes_wait,
    {
        self.title_waits = false;
        let typed_title = trim_text(one_line(typed).as_str());
        let open = self.open.take();
        match open {
            None => None,
            Some(o) => {
                if typed_title.as_str().is_empty() || typed_title == o.summary {
                    self.open = Some(o);
                    return None;
                }
                let mut change = Change::default();
                change.summary = Some(typed_title.clone());
                let e = Edit { href: o.href.clone(), change };
                self.open = Some(
                    Open { href: o.href, summary: typed_title, description: o.description },
                );
                Some(e)
            },
        }
    }

    /// The notes as typed, when they differ from the task's.
    pub fn notes_edit(&mut self, typed: &str) -> (r: Option<Edit>)
        ensures
            r is Some == saves_notes(*old(self), typed@),
            r matches Some(e) ==> {
                &&& notes_saved(e, old(self).open->0, typed@)
                &&& final(self).open matches Some(o) && text_opt(o.description) == notes_of(typed@)
                    && o.href == old(self).open->0.href && o.summary == old(self).open->0.summary
            },
            r is None ==> final(self).open == old(self).open,
            !final(self).notes_wait,
            final(self).title_waits == old(self).title_waits,
    {
        self.notes_wait = false;
        let t = trim_back(typed);
        let new: Option<String> = if is_blank(t.as_str()) {
            None
        } else {
            Some(t)
        };
        let open = self.open.take();
        match open {
            None => None,
            Some(o) => {
                let unchanged: bool = match (&new, &o.description) {
                    (Some(a), Some(b)) => *a == *b,
                    (None, None) => true,
                    _ => false,
                };
                if unchanged {
                    self.open = Some(o);
                    return None;
                }
                let mut change = Change::default();
                change.description = Some(copy_opt(&new));
                let e = Edit { href: o.href.clone(), change };
                self.open = Some(Open { href: o.href, summary: o.summary, description: new });
                Some(e)
            },
        }
    }

    /// What is still waiting on a pause in typing, as edits to send. Only
    /// typed text: a field that was merely focused doesn't undo a change that
    /// came from another device meanwhile.
    pub fn pending_edits(&mut self, title: &str, notes: &str) -> (r: Vec<Edit>)
        ensures
            saves_waiting(*old(self), title@, notes@, r@),
            !final(self).title_waits && !final(self).notes_wait,
            final(self).open is Some == old(self).open is Some,
            final(self).open matches Some(o) ==> o.href == old(self).open->0.href && o.summary@ == (
            if old(self).title_waits && saves_title(*old(self), title@) {
                title_of(title@)
            } else {
                old(self).open->0.summary@
            }) && text_opt(o.description) == (if old(self).notes_wait {
                notes_of(notes@)
            } else {
                text_opt(old(self).open->0.description)
            }),
    {
        let mut edits: Vec<Edit> = Vec::new();
        if self.title_waits {
            match self.title_edit(title) {
                Some(e) => {
                    edits.push(e);
                },
                None => {},
            }
        }
        if self.notes_wait {
            match self.notes_edit(notes) {
                Some(e) => {
                    edits.push(e);
                },
                None => {},
            }
        }
        edits
    }

    /// The address of the task it holds.
    pub fn href(&self) -> (r: Option<&str>)
        ensures
            match r {
                Some(h) => self.open matches Some(o) && h@ == o.href@,
                None => self.open is None,
            },
    {
        match &self.open {
            Some(o) => Some(o.href.as_str()),
            None => None,
        }
    }

    /// Whether typing waits to be saved.
    pub fn has_pending(&self) -> (r: bool)
        ensures
            r == (self.title_waits || self.notes_wait),
    {
        self.title_waits || self.notes_wait
    }

    /// Lets go of the task, handing back the typing not saved yet.
    pub fn close(&mut self, title: &str, notes: &str) -> (r: Vec<Edit>)
        ensures
            *final(self) == (Editor { open: None, title_waits: false, notes_wait: false }),
            saves_waiting(*old(self), title@, notes@, r@),
    {
        let edits = self.pending_edits(title, notes);
        self.open = None;
        edits
    }

    /// Shows a task. Another one than before hands back the typing not saved
    /// yet; a field is filled unless it is being typed in.
    pub fn show(&mut self, t: &TaskView, title: &Field, notes: &Field) -> (r: Shown)
        ensures
            final(self).open matches Some(o) && o.href == t.href && o.summary == t.task.summary
                && o.description == t.task.description,
            ({
                let same = old(self).open matches Some(o) && o.href@ == t.href@;
                let notes_text = match t.task.description {
                    Some(d) => d@,
                    None => Seq::empty(),
                };
                &&& r.set_title == (!(same && (title.focused || old(self).title_waits))
                    && title.text@ != t.task.summary@)
                &&& r.set_notes == (!(same && (notes.focused || old(self).notes_wait))
                    && notes.text@ != notes_text)
                &&& same ==> r.edits@.len() == 0 && final(self).title_waits
                    == old(self).title_waits && final(self).notes_wait == old(self).notes_wait
                &&& !same ==> saves_waiting(*old(self), title.text@, notes.text@, r.edits@)
                    && !final(self).title_waits && !final(self).notes_wait
            }),
    {
        let same_task: bool = match &self.open {
            Some(o) => o.href == t.href,
            None => false,
        };
        let edits: Vec<Edit> = if same_task {
            Vec::new()
        } else {
            self.pending_edits(title.text.as_str(), notes.text.as_str())
        };
        let set_title: bool = !(same_task && (title.focused || self.title_waits)) && title.text
            != t.task.summary;
        let notes_differ: bool = match &t.task.description {
            Some(d) => notes.text != *d,
            None => !notes.text.as_str().is_empty(),
        };
        assert(notes.text@.len() == 0 ==> notes.text@ =~= Seq::<char>::empty());
        let set_notes: bool = !(same_task && (notes.focused || self.notes_wait)) && notes_differ;
        self.open = Some(
            Open {
                href: t.href.clone(),
                summary: t.task.summary.clone(),
                description: copy_opt(&t.task.description),
            },
        );
        Shown { edits, set_title, set_notes }
    }
}

/// A text field: what is in it, and whether the keyboard is.
#[derive(Debug)]
pub struct Field {
    pub text: String,
    pub focused: bool,
}

/// What showing a task does: edits to send first, and which fields to fill.
#[derive(Debug)]
pub struct Shown {
    pub edits: Vec<Edit>,
    pub set_title: bool,
    pub set_notes: bool,
}

/// What was not typed in is not saved, whatever the fields say: a change from
/// another device is not undone.
pub proof fn untouched_is_not_saved(e: Editor, title: Seq<char>, notes: Seq<char>, v: Seq<Edit>)
    requires
        saves_waiting(e, title, notes, v),
        !e.title_waits,
        !e.notes_wait,
    ensures
        v.len() == 0,
{
}

/// A title that was saved is not saved again.
pub proof fn saved_once(e: Editor, f: Editor, typed: Seq<char>)
    requires
        saves_title(e, typed),
        f.open matches Some(o) && o.summary@ == title_of(typed),
    ensures
        !saves_title(f, typed),
{
}

// -- linked notes -------------------------------------------------------------------------

/// The links of a task's notes.
pub open spec fn links_of(notes: Seq<Note>) -> Seq<Seq<char>> {
    notes.map_values(|n: Note| n.link@)
}

/// The notes with one more.
pub fn attach(notes: &Vec<Note>, link: String) -> (r: Vec<String>)
    ensures
        texts(r@) == links_of(notes@).push(link@),
{
    let mut out: Vec<String> = Vec::new();
    for i in 0..notes.len()
        invariant
            texts(out@) == links_of(notes@).take(i as int),
    {
        let ghost before = texts(out@);
        out.push(notes[i].link.clone());
        assert(texts(out@) =~= before.push(notes@[i as int].link@));
    }
    assert(links_of(notes@).take(notes@.len() as int) == links_of(notes@));
    let ghost before = texts(out@);
    out.push(link);
    assert(texts(out@) =~= before.push(link@));
    out
}

pub open spec fn other_link(link: Seq<char>) -> spec_fn(Seq<char>) -> bool {
    |l: Seq<char>| l != link
}

/// The notes without one of them.
pub fn detach(notes: &Vec<Note>, link: &str) -> (r: Vec<String>)
    ensures
        texts(r@) == links_of(notes@).filter(other_link(link@)),
{
    let mut out: Vec<String> = Vec::new();
    let ghost s = links_of(notes@);
    proof {
        reveal(Seq::filter);
        assert(texts(out@) =~= s.take(0).filter(other_link(link@)));
    }
    for i in 0..notes.len()
        invariant
            s == links_of(notes@),
            texts(out@) == s.take(i as int).filter(other_link(link@)),
    {
        let ghost before = texts(out@);
        proof {
            reveal(Seq::filter);
            assert(s.take(i + 1).drop_last() == s.take(i as int));
            assert(s.take(i + 1).last() == notes@[i as int].link@);
        }
        if !same(notes[i].link.as_str(), link) {
            out.push(notes[i].link.clone());
            assert(texts(out@) =~= before.push(notes@[i as int].link@));
        }
    }
    assert(s.take(s.len() as int) == s);
    out
}

// -- what the buttons say -----------------------------------------------------------------

/// What comes of choosing a note for a task: a new one, or other links.
pub fn pick_note(t: &TaskView, pick: Pick) -> (r: Msg)
    ensures
        match pick {
            Pick::New(title) => r matches Msg::NewNote(h, s) && h == t.href && s@ == (match title {
                Some(x) => x@,
                None => Seq::empty(),
            }),
            Pick::Attach(path) => r matches Msg::Edit(h, c) && h == t.href && c == (Change {
                linked_notes: c.linked_notes,
                ..no_change()
            }) && (c.linked_notes matches Some(v) && texts(v@) == links_of(
                t.task.linked_notes@,
            ).push(path@)),
            Pick::Detach(path) => r matches Msg::Edit(h, c) && h == t.href && c == (Change {
                linked_notes: c.linked_notes,
                ..no_change()
            }) && (c.linked_notes matches Some(v) && texts(v@) == links_of(
                t.task.linked_notes@,
            ).filter(|l: Seq<char>| l != path@)),
        },
{
    let href = t.href.clone();
    match pick {
        Pick::New(title) => Msg::NewNote(
            href,
            match title {
                Some(s) => s,
                None => String::new(),
            },
        ),
        Pick::Attach(path) => Msg::Edit(
            href,
            Change::to_links(attach(&t.task.linked_notes, path)),
        ),
        Pick::Detach(path) => Msg::Edit(
            href,
            Change::to_links(detach(&t.task.linked_notes, path.as_str())),
        ),
    }
}

/// The tooltip of the linked notes.
pub fn linked_tip(notes: &Vec<Note>) -> (r: String)
    ensures
        r@ == (if notes@.len() == 0 {
            "Linked notes"@
        } else {
            join(names(notes@), ", "@)
        }),
{
    if notes.len() == 0 {
        String::from_str("Linked notes")
    } else {
        note_names(notes, ", ")
    }
}

/// The tooltip of the reminders; `label` is what the only one is called.
pub fn reminders_tip(alarms: &Vec<Trigger>, label: &str) -> (r: String)
    ensures
        r@ == (if alarms@.len() == 0 {
            "Reminders"@
        } else if alarms@.len() == 1 {
            label@
        } else {
            decimal(alarms@.len()) + " reminders"@
        }),
{
    if alarms.len() == 0 {
        String::from_str("Reminders")
    } else if alarms.len() == 1 {
        String::from_str(label)
    } else {
        glue(decimal_text(alarms.len() as u64).as_str(), " reminders")
    }
}

/// The date button: its words, its icon and its tooltip.
#[derive(Debug)]
pub struct DateButton {
    pub label: String,
    pub icon: &'static str,
    pub tip: String,
}

/// The icon of a task's date.
pub open spec fn date_icon_of(repeats: bool, day: int, today: int) -> Seq<char> {
    if repeats {
        "playlist-repeat-symbolic"@
    } else if day == today {
        "star-outline-thick-symbolic"@
    } else if day == today + 1 {
        "today-calendar-symbolic"@
    } else {
        "month-symbolic"@
    }
}

/// The date button, given the words for the date and for the repeat.
pub fn date_button(t: &Task, due: &str, repeat: &str, today: Date) -> (r: DateButton)
    requires
        today.wf(),
    ensures
        match t.due {
            Some(w) => r.label@ == capital(due@) && r.icon@ == date_icon_of(
                t.rrule is Some,
                w.date.ce as int,
                today.ce as int,
            ) && r.tip@ == (if t.rrule is Some {
                capital(repeat@)
            } else {
                "Date"@
            }),
            None => r.label@ == "Date"@ && r.icon@ == "month-symbolic"@ && r.tip@ == "Date"@,
        },
{
    match &t.due {
        None => DateButton {
            label: String::from_str("Date"),
            icon: "month-symbolic",
            tip: String::from_str("Date"),
        },
        Some(w) => {
            let icon = if t.rrule.is_some() {
                "playlist-repeat-symbolic"
            } else if w.date.ce == today.ce {
                "star-outline-thick-symbolic"
            } else if w.date.ce == today.ce + 1 {
                "today-calendar-symbolic"
            } else {
                "month-symbolic"
            };
            let tip = if t.rrule.is_some() {
                capitalize(repeat)
            } else {
                String::from_str("Date")
            };
            DateButton { label: capitalize(due), icon, tip }
        },
    }
}

// -- history ------------------------------------------------------------------------------

/// When a task was made and changed, as parts of a line.
pub open spec fn made_of(t: Task, now: Moment, zone: Seq<char>) -> Seq<Seq<char>> {
    (match t.created {
        Some(c) => seq!["Created "@ + ago_text(c, now, zone)],
        None => Seq::empty(),
    }) + (match t.modified {
        Some(m) if t.created != Some(m) => seq!["updated "@ + ago_text(m, now, zone)],
        _ => Seq::empty(),
    })
}

/// When the task was made, changed and done, and where it came from, a line
/// for each.
pub open spec fn history_of(t: TaskView, now: Moment, zone: Seq<char>) -> Seq<Seq<char>> {
    let made = made_of(t.task, now, zone);
    (if made.len() > 0 {
        seq![capital(join(made, ", "@))]
    } else {
        Seq::empty()
    }) + (match t.task.completed {
        Some(c) if !t.task.open => seq!["Completed "@ + ago_text(c, now, zone)],
        _ => Seq::empty(),
    }) + (if t.pending {
        seq!["Not on the server yet"@]
    } else {
        Seq::empty()
    }) + (match t.task.source {
        Some(s) => seq!["From "@ + s@],
        None => Seq::empty(),
    })
}

fn made(t: &Task, now: &Now) -> (r: Vec<String>)
    requires
        t.wf(),
        now.wf(),
    ensures
        texts(r@) == made_of(*t, now.at, now.zone@),
{
    let mut out: Vec<String> = Vec::new();
    if let Some(c) = t.created {
        out.push(glue("Created ", ago(c, now).as_str()));
    }
    if let Some(m) = t.modified {
        let same_time: bool = match t.created {
            Some(c) => c == m,
            None => false,
        };
        if !same_time {
            out.push(glue("updated ", ago(m, now).as_str()));
        }
    }
    assert(texts(out@) =~= made_of(*t, now.at, now.zone@));
    out
}

/// When the task was made, changed and done, and where it came from.
pub fn history(t: &TaskView, now: &Now) -> (r: String)
    requires
        t.task.wf(),
        now.wf(),
    ensures
        r@ == join(history_of(*t, now.at, now.zone@), "\n"@),
{
    let mut lines: Vec<String> = Vec::new();
    let parts = made(&t.task, now);
    if parts.len() > 0 {
        lines.push(capitalize(joined(&parts, ", ").as_str()));
    }
    if !t.task.open {
        if let Some(c) = t.task.completed {
            lines.push(glue("Completed ", ago(c, now).as_str()));
        }
    }
    if t.pending {
        lines.push(String::from_str("Not on the server yet"));
    }
    if let Some(s) = &t.task.source {
        lines.push(glue("From ", s.as_str()));
    }
    assert(texts(lines@) =~= history_of(*t, now.at, now.zone@));
    joined(&lines, "\n")
}

} // verus!
