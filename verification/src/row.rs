//! A task's row: what it shows, what its menu offers, and what dropping
//! something on it means.

use vstd::prelude::*;
use vstd::string::*;

use crate::change::{Change, SetDue, moved_to, no_change};
use crate::date::{Date, LAST_DAY, written};
use crate::number::{decimal, decimal_text};
use crate::schedule::Schedule;
use crate::task::{Note, TaskView, when_wf};
use crate::text::{
    after_prefix, blank, chars, copy_opt, glue, is_blank, join, joined, lines, split_lines,
    starts_with, text_of, text_opt, texts,
};
use crate::update::Msg;
use crate::words::{capital, capitalize, due_chip, due_class};
use crate::zone::Zone;

verus! {

/// What a drag of a task carries.
pub const DRAG_PREFIX: &'static str = "asst-task:";

/// What a dragged list carries.
pub const LIST_PREFIX: &'static str = "asst-list:";

/// The change a schedule picker's answer makes, or none.
pub fn schedule_change(before: &TaskView, s: &Schedule) -> (r: Option<Change>)
    ensures
        r is Some == (s.due != before.task.due || text_opt(s.rrule) != text_opt(
            before.task.rrule,
        )),
        r matches Some(c) ==> c == (Change {
            due: if s.due != before.task.due {
                Some(
                    match s.due {
                        Some(w) => SetDue::To(w),
                        None => SetDue::Clear,
                    },
                )
            } else {
                None
            },
            rrule: if text_opt(s.rrule) != text_opt(before.task.rrule) {
                Some(s.rrule)
            } else {
                None
            },
            ..no_change()
        }),
{
    let mut c = Change::default();
    let same_due: bool = match (s.due, before.task.due) {
        (Some(a), Some(b)) => a == b,
        (None, None) => true,
        _ => false,
    };
    if !same_due {
        c.due = Some(
            match s.due {
                Some(w) => SetDue::To(w),
                None => SetDue::Clear,
            },
        );
    }
    let same_rule: bool = match (&s.rrule, &before.task.rrule) {
        (Some(a), Some(b)) => *a == *b,
        (None, None) => true,
        _ => false,
    };
    if !same_rule {
        c.rrule = Some(copy_opt(&s.rrule));
    }
    if same_due && same_rule {
        None
    } else {
        Some(c)
    }
}

// -- what a row shows -------------------------------------------------------------------

/// A chip before the title: its words, the class that colors it, and whether
/// it has the sign of a repeat.
#[derive(Debug)]
pub struct Chip {
    pub text: String,
    pub class: &'static str,
    pub repeats: bool,
}

/// The chip of a task: the day it was done, or when it is due. `label` are
/// the words for that.
pub open spec fn chip_of(t: TaskView, label: Seq<char>, today: int) -> Option<
    (Seq<char>, Seq<char>, bool),
> {
    if !t.task.open {
        if t.task.completed is Some {
            Some((capital(label), "done"@, false))
        } else {
            None
        }
    } else {
        match t.task.due {
            Some(w) => Some(
                (capital(label), due_class(w.date.ce as int, today), t.task.rrule is Some),
            ),
            None => None,
        }
    }
}

pub open spec fn chip_view(c: Option<Chip>) -> Option<(Seq<char>, Seq<char>, bool)> {
    match c {
        Some(c) => Some((c.text@, c.class@, c.repeats)),
        None => None,
    }
}

/// The chip of a task: the day it was done, or when it is due. `label` are
/// the words for that.
pub fn chip(t: &TaskView, label: &str, today: Date) -> (r: Option<Chip>)
    ensures
        chip_view(r) == chip_of(*t, label@, today.ce as int),
{
    if !t.task.open {
        if t.task.completed.is_some() {
            Some(Chip { text: capitalize(label), class: "done", repeats: false })
        } else {
            None
        }
    } else {
        match &t.task.due {
            Some(w) => {
                let (text, class) = due_chip(w, label, today);
                Some(Chip { text, class, repeats: t.task.rrule.is_some() })
            },
            None => None,
        }
    }
}

/// The first line of notes, up to `n` characters.
pub open spec fn first_line(notes: Seq<char>, n: int) -> Seq<char> {
    let l = lines(notes);
    if l.len() == 0 {
        Seq::empty()
    } else if l[0].len() <= n {
        l[0]
    } else {
        l[0].take(n)
    }
}

/// The tooltip of the notes sign, where there are notes.
pub open spec fn notes_tip(notes: Option<Seq<char>>) -> Option<Seq<char>> {
    match notes {
        Some(d) => if blank(d) {
            None
        } else {
            Some(first_line(d, 120))
        },
        None => None,
    }
}

/// The tooltip of the notes sign, where there are notes.
pub fn notes_tooltip(notes: &Option<String>) -> (r: Option<String>)
    ensures
        text_opt(r) == notes_tip(text_opt(*notes)),
{
    match notes {
        None => None,
        Some(d) => {
            if is_blank(d.as_str()) {
                return None;
            }
            let v = split_lines(d.as_str());
            let ghost l = texts(v@);
            if v.len() == 0 {
                return Some(String::new());
            }
            assert(l[0] == v@[0]@);
            let s = chars(v[0].as_str());
            if s.len() <= 120 {
                Some(v[0].clone())
            } else {
                let t = text_of(&s, 0, 120);
                assert(t@ == s@.take(120));
                Some(t)
            }
        },
    }
}

/// The names of linked notes.
pub open spec fn names(notes: Seq<Note>) -> Seq<Seq<char>> {
    notes.map_values(|n: Note| n.name@)
}

/// The names of linked notes, with `sep` between them.
pub fn note_names(notes: &Vec<Note>, sep: &str) -> (r: String)
    ensures
        r@ == join(names(notes@), sep@),
{
    let mut out: Vec<String> = Vec::new();
    for i in 0..notes.len()
        invariant
            texts(out@) == names(notes@).take(i as int),
    {
        let ghost before = texts(out@);
        out.push(notes[i].name.clone());
        assert(texts(out@) =~= before.push(notes@[i as int].name@));
    }
    assert(names(notes@).take(notes@.len() as int) == names(notes@));
    joined(&out, sep)
}

/// What a row shows besides its title.
#[derive(Debug)]
pub struct Look {
    /// Struck through.
    pub done: bool,
    /// The class of its box: `priority-2`.
    pub priority: String,
    pub check_tip: &'static str,
    pub notes: Option<String>,
    /// How many reminders there are.
    pub alarms: Option<String>,
    /// Linked notes, one to a line.
    pub linked: Option<String>,
    pub list: Option<String>,
    /// What a drag of it carries; a finished task does not drag.
    pub drag: Option<String>,
}

/// What a row shows besides its title.
pub fn look(t: &TaskView, completing: bool, show_list: bool) -> (r: Look)
    ensures
        r.done == (!t.task.open || completing),
        r.priority@ == "priority-"@ + decimal(t.task.level as nat),
        r.check_tip@ == (if t.task.open {
            "Complete"@
        } else {
            "Reopen"@
        }),
        text_opt(r.notes) == notes_tip(text_opt(t.task.description)),
        text_opt(r.alarms) == (if t.task.alarms@.len() > 0 {
            Some(decimal(t.task.alarms@.len()))
        } else {
            None
        }),
        text_opt(r.linked) == (if t.task.linked_notes@.len() > 0 {
            Some(join(names(t.task.linked_notes@), "\n"@))
        } else {
            None
        }),
        text_opt(r.list) == (if show_list {
            Some(t.list_name@)
        } else {
            None
        }),
        text_opt(r.drag) == (if t.task.open {
            Some(DRAG_PREFIX@ + t.href@)
        } else {
            None
        }),
{
    let alarms: Option<String> = if t.task.alarms.len() > 0 {
        Some(decimal_text(t.task.alarms.len() as u64))
    } else {
        None
    };
    let linked: Option<String> = if t.task.linked_notes.len() > 0 {
        Some(note_names(&t.task.linked_notes, "\n"))
    } else {
        None
    };
    let list: Option<String> = if show_list {
        Some(t.list_name.clone())
    } else {
        None
    };
    let drag: Option<String> = if t.task.open {
        Some(glue(DRAG_PREFIX, t.href.as_str()))
    } else {
        None
    };
    Look {
        done: !t.task.open || completing,
        priority: glue("priority-", decimal_text(t.task.level as u64).as_str()),
        check_tip: if t.task.open {
            "Complete"
        } else {
            "Reopen"
        },
        notes: notes_tooltip(&t.task.description),
        alarms,
        linked,
        list,
        drag,
    }
}

// -- what a drop carries ----------------------------------------------------------------

/// What was dropped: a task, a list, or something else.
#[derive(Debug)]
pub enum Dropped {
    Task(String),
    List(String),
    Other,
}

pub open spec fn dropped_of(payload: Seq<char>, d: Dropped) -> bool {
    if starts_with(payload, LIST_PREFIX@) {
        d matches Dropped::List(h) && h@ == payload.skip(LIST_PREFIX@.len() as int)
    } else if starts_with(payload, DRAG_PREFIX@) {
        d matches Dropped::Task(h) && h@ == payload.skip(DRAG_PREFIX@.len() as int)
    } else {
        d is Other
    }
}

/// What was dropped, from what it carries.
pub fn dropped(payload: &str) -> (r: Dropped)
    ensures
        dropped_of(payload@, r),
{
    match after_prefix(payload, LIST_PREFIX) {
        Some(h) => Dropped::List(h),
        None => match after_prefix(payload, DRAG_PREFIX) {
            Some(h) => Dropped::Task(h),
            None => Dropped::Other,
        },
    }
}

/// A task that is dragged is the task that is dropped.
pub proof fn drags_round_trip(href: Seq<char>, d: Dropped)
    requires
        dropped_of(DRAG_PREFIX@ + href, d),
    ensures
        d matches Dropped::Task(h) && h@ == href,
{
    reveal_strlit("asst-task:");
    reveal_strlit("asst-list:");
    let p = DRAG_PREFIX@ + href;
    assert(p.subrange(0, 10) =~= DRAG_PREFIX@);
    assert(p.skip(10) =~= href);
    if starts_with(p, LIST_PREFIX@) {
        assert(p.subrange(0, 10)[5] == LIST_PREFIX@[5]);
        assert(p[5] == 't');
    }
}

// -- its menu ---------------------------------------------------------------------------

/// A day in the menu: its icon, its name, the day, and how it is written.
#[derive(Debug)]
pub struct DayItem {
    pub icon: &'static str,
    pub title: &'static str,
    pub day: Date,
    pub secondary: String,
}

/// Today, tomorrow and a week from now, in a task's menu.
pub fn day_items(today: Date) -> (r: (DayItem, DayItem, DayItem))
    requires
        today.wf(),
        today.ce + 7 <= LAST_DAY,
    ensures
        r.0.title@ == "Today"@ && r.0.icon@ == "star-outline-thick-symbolic"@ && r.0.day == today,
        r.0.secondary@ == written(today.ce as int, "%a"@),
        r.1.title@ == "Tomorrow"@ && r.1.icon@ == "today-calendar-symbolic"@ && r.1.day.ce
            == today.ce + 1,
        r.1.secondary@ == written(today.ce + 1, "%a"@),
        r.2.title@ == "Next week"@ && r.2.icon@ == "month-symbolic"@ && r.2.day.ce == today.ce + 7,
        r.2.secondary@ == written(today.ce + 7, "%a %b %-d"@),
{
    let (tomorrow, next) = (today.plus(1), today.plus(7));
    (
        DayItem {
            icon: "star-outline-thick-symbolic",
            title: "Today",
            day: today,
            secondary: today.format("%a"),
        },
        DayItem {
            icon: "today-calendar-symbolic",
            title: "Tomorrow",
            day: tomorrow,
            secondary: tomorrow.format("%a"),
        },
        DayItem {
            icon: "month-symbolic",
            title: "Next week",
            day: next,
            secondary: next.format("%a %b %-d"),
        },
    )
}

/// What a task's menu does.
#[derive(Debug, Clone, Copy, PartialEq, Eq, Structural)]
pub enum Entry {
    Complete,
    Reopen,
    Edit,
    Day(Date),
    PickDate,
    NoDate,
    /// The four priorities, and the one it has.
    Priorities(u8),
    MoveTo,
    Duplicate,
    Copy,
    Delete,
    Separator,
}

/// A task's menu: complete, dates, priority, move, duplicate, delete.
pub open spec fn entries_of(t: TaskView, today: int) -> Seq<Entry> {
    seq![
        if t.task.open {
            Entry::Complete
        } else {
            Entry::Reopen
        },
        Entry::Edit,
        Entry::Separator,
        Entry::Day(Date { ce: today as i32 }),
        Entry::Day(Date { ce: (today + 1) as i32 }),
        Entry::Day(Date { ce: (today + 7) as i32 }),
        Entry::PickDate,
    ] + (if t.task.due is Some {
        seq![Entry::NoDate]
    } else {
        Seq::empty()
    }) + seq![
        Entry::Separator,
        Entry::Priorities(t.task.level),
        Entry::Separator,
        Entry::MoveTo,
        Entry::Duplicate,
        Entry::Copy,
        Entry::Separator,
        Entry::Delete,
    ]
}

/// A task's menu: complete, dates, priority, move, duplicate, delete.
pub fn task_menu(t: &TaskView, today: Date) -> (r: Vec<Entry>)
    requires
        today.wf(),
        today.ce + 7 <= LAST_DAY,
    ensures
        r@ == entries_of(*t, today.ce as int),
{
    let mut v: Vec<Entry> = Vec::new();
    v.push(
        if t.task.open {
            Entry::Complete
        } else {
            Entry::Reopen
        },
    );
    v.push(Entry::Edit);
    v.push(Entry::Separator);
    v.push(Entry::Day(today));
    v.push(Entry::Day(today.plus(1)));
    v.push(Entry::Day(today.plus(7)));
    v.push(Entry::PickDate);
    if t.task.due.is_some() {
        v.push(Entry::NoDate);
    }
    v.push(Entry::Separator);
    v.push(Entry::Priorities(t.task.level));
    v.push(Entry::Separator);
    v.push(Entry::MoveTo);
    v.push(Entry::Duplicate);
    v.push(Entry::Copy);
    v.push(Entry::Separator);
    v.push(Entry::Delete);
    v
}

/// An entry's icon, its words, and the key that does the same. Days have
/// words of their own.
pub open spec fn entry_words(e: Entry) -> (Seq<char>, Seq<char>, Seq<char>) {
    match e {
        Entry::Complete => ("check-round-outline-symbolic"@, "Complete"@, "x"@),
        Entry::Reopen => ("check-round-outline-symbolic"@, "Reopen"@, "x"@),
        Entry::Edit => ("edit-symbolic"@, "Edit"@, "e"@),
        Entry::PickDate => ("month-symbolic"@, "Pick a date…"@, ""@),
        Entry::NoDate => ("cross-large-circle-filled-symbolic"@, "No date"@, ""@),
        Entry::MoveTo => ("arrow3-right-symbolic"@, "Move to…"@, ""@),
        Entry::Duplicate => ("tabs-stack-symbolic"@, "Duplicate"@, ""@),
        Entry::Copy => ("clipboard-symbolic"@, "Copy to clipboard"@, ""@),
        Entry::Delete => ("user-trash-symbolic"@, "Delete task"@, "dd"@),
        Entry::Day(_) | Entry::Priorities(_) | Entry::Separator => (""@, ""@, ""@),
    }
}

impl Entry {
    /// Its icon, its words, and the key that does the same.
    pub fn words(self) -> (r: (&'static str, &'static str, &'static str))
        ensures
            (r.0@, r.1@, r.2@) == entry_words(self),
    {
        match self {
            Entry::Complete => ("check-round-outline-symbolic", "Complete", "x"),
            Entry::Reopen => ("check-round-outline-symbolic", "Reopen", "x"),
            Entry::Edit => ("edit-symbolic", "Edit", "e"),
            Entry::PickDate => ("month-symbolic", "Pick a date…", ""),
            Entry::NoDate => ("cross-large-circle-filled-symbolic", "No date", ""),
            Entry::MoveTo => ("arrow3-right-symbolic", "Move to…", ""),
            Entry::Duplicate => ("tabs-stack-symbolic", "Duplicate", ""),
            Entry::Copy => ("clipboard-symbolic", "Copy to clipboard", ""),
            Entry::Delete => ("user-trash-symbolic", "Delete task", "dd"),
            Entry::Day(_) | Entry::Priorities(_) | Entry::Separator => ("", "", ""),
        }
    }
}

/// What choosing an entry asks for; nothing yet where something is picked
/// first.
pub open spec fn entry_asks(t: TaskView, e: Entry, zone: Seq<char>) -> Option<Msg> {
    match e {
        Entry::Complete => Some(Msg::Complete(t.href)),
        Entry::Reopen => Some(Msg::Reopen(t.href)),
        Entry::Edit => Some(Msg::Open(t.href)),
        Entry::Day(d) => Some(
            Msg::Edit(
                t.href,
                Change { due: Some(SetDue::Move(moved_to(t.task.due, d, zone))), ..no_change() },
            ),
        ),
        Entry::NoDate => Some(
            Msg::Edit(
                t.href,
                Change { due: Some(SetDue::Clear), rrule: Some(None), ..no_change() },
            ),
        ),
        Entry::Duplicate => Some(Msg::Duplicate(t.href)),
        Entry::Copy => Some(Msg::Copy(t.href)),
        Entry::Delete => Some(Msg::Delete(t.href)),
        Entry::PickDate | Entry::Priorities(_) | Entry::MoveTo | Entry::Separator => None,
    }
}

/// What choosing an entry asks for; nothing yet where something is picked
/// first.
pub fn choose_entry(t: &TaskView, e: Entry, zone: &Zone) -> (r: Option<Msg>)
    requires
        when_wf(t.task.due),
    ensures
        r == entry_asks(*t, e, zone@),
{
    match e {
        Entry::Complete => Some(Msg::Complete(t.href.clone())),
        Entry::Reopen => Some(Msg::Reopen(t.href.clone())),
        Entry::Edit => Some(Msg::Open(t.href.clone())),
        Entry::Day(d) => Some(Msg::Edit(t.href.clone(), Change::to_day(t, d, zone))),
        Entry::NoDate => Some(Msg::Edit(t.href.clone(), Change::no_date())),
        Entry::Duplicate => Some(Msg::Duplicate(t.href.clone())),
        Entry::Copy => Some(Msg::Copy(t.href.clone())),
        Entry::Delete => Some(Msg::Delete(t.href.clone())),
        Entry::PickDate | Entry::Priorities(_) | Entry::MoveTo | Entry::Separator => None,
    }
}

} // verus!
