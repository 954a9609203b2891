//! What is asked of the daemon: changes to a task, new tasks, and queries.

use vstd::prelude::*;
use vstd::string::*;

use crate::date::Date;
use crate::due::{Moved, on_date};
use crate::task::{TaskView, Trigger, When, when_wf};
use crate::zone::{Zone, time_at};

verus! {

/// A due date to be set: none, one that is there already, or one moved.
#[derive(Debug, Clone, Copy, PartialEq, Eq, Structural)]
pub enum SetDue {
    Clear,
    To(When),
    Move(Moved),
}

/// What to change of a task; what is not set stays.
#[derive(Debug, Clone)]
pub struct Change {
    pub summary: Option<String>,
    pub description: Option<Option<String>>,
    pub due: Option<SetDue>,
    /// A date in words, or `none`.
    pub due_text: Option<String>,
    pub rrule: Option<Option<String>>,
    /// A repeat in words, or `none`.
    pub repeat_text: Option<String>,
    /// 1 (high) to 4 (none).
    pub priority: Option<u8>,
    pub list: Option<String>,
    pub url: Option<Option<String>>,
    pub alarms: Option<Vec<Trigger>>,
    pub linked_notes: Option<Vec<String>>,
    pub sort_order: Option<i64>,
}

/// A change of nothing.
pub open spec fn no_change() -> Change {
    Change {
        summary: None,
        description: None,
        due: None,
        due_text: None,
        rrule: None,
        repeat_text: None,
        priority: None,
        list: None,
        url: None,
        alarms: None,
        linked_notes: None,
        sort_order: None,
    }
}

impl Default for Change {
    fn default() -> (r: Change)
        ensures
            r == no_change(),
    {
        Change {
            summary: None,
            description: None,
            due: None,
            due_text: None,
            rrule: None,
            repeat_text: None,
            priority: None,
            list: None,
            url: None,
            alarms: None,
            linked_notes: None,
            sort_order: None,
        }
    }
}

impl Change {
    /// Whether it changes nothing.
    pub fn is_empty(&self) -> (r: bool)
        ensures
            r == (*self == no_change()),
    {
        self.summary.is_none() && self.description.is_none() && self.due.is_none()
            && self.due_text.is_none() && self.rrule.is_none() && self.repeat_text.is_none()
            && self.priority.is_none() && self.list.is_none() && self.url.is_none()
            && self.alarms.is_none() && self.linked_notes.is_none() && self.sort_order.is_none()
    }

    /// A task moved to a day, with its time kept.
    pub fn to_day(t: &TaskView, day: Date, zone: &Zone) -> (r: Change)
        requires
            when_wf(t.task.due),
        ensures
            r == (Change { due: Some(SetDue::Move(moved_to(t.task.due, day, zone@))), ..no_change() }),
    {
        let moved = match &t.task.due {
            Some(w) => on_date(Some(w), day, zone),
            None => on_date(None, day, zone),
        };
        let mut c = Change::default();
        c.due = Some(SetDue::Move(moved));
        c
    }

    /// No date, and so no repeat either.
    pub fn no_date() -> (r: Change)
        ensures
            r == (Change { due: Some(SetDue::Clear), rrule: Some(None), ..no_change() }),
    {
        let mut c = Change::default();
        c.due = Some(SetDue::Clear);
        c.rrule = Some(None);
        c
    }

    /// Another priority.
    pub fn to_level(level: u8) -> (r: Change)
        ensures
            r == (Change { priority: Some(level), ..no_change() }),
    {
        let mut c = Change::default();
        c.priority = Some(level);
        c
    }

    /// Another place in its list.
    pub fn to_place(n: i64) -> (r: Change)
        ensures
            r == (Change { sort_order: Some(n), ..no_change() }),
    {
        let mut c = Change::default();
        c.sort_order = Some(n);
        c
    }

    /// Another list.
    pub fn to_list(list: String) -> (r: Change)
        ensures
            r == (Change { list: Some(list), ..no_change() }),
    {
        let mut c = Change::default();
        c.list = Some(list);
        c
    }

    /// Other linked notes.
    pub fn to_links(links: Vec<String>) -> (r: Change)
        ensures
            r == (Change { linked_notes: Some(links), ..no_change() }),
    {
        let mut c = Change::default();
        c.linked_notes = Some(links);
        c
    }

    /// Another link, or none.
    pub fn to_url(url: Option<String>) -> (r: Change)
        ensures
            r == (Change { url: Some(url), ..no_change() }),
    {
        let mut c = Change::default();
        c.url = Some(url);
        c
    }

    /// Other reminders.
    pub fn to_alarms(alarms: Vec<Trigger>) -> (r: Change)
        ensures
            r == (Change { alarms: Some(alarms), ..no_change() }),
    {
        let mut c = Change::default();
        c.alarms = Some(alarms);
        c
    }
}

/// A due date moved to a day, with its time of day in the zone kept.
pub open spec fn moved_to(due: Option<When>, day: Date, zone: Seq<char>) -> Moved {
    match due {
        Some(w) if w.timed => Moved::At {
            date: day,
            time: crate::date::Time { secs: time_at(w.at, zone) as u32 },
            same_form: true,
        },
        _ => Moved::Day(day),
    }
}

/// The date of a new task: one that is there already, or a day.
#[derive(Debug, Clone, Copy, PartialEq, Eq, Structural)]
pub enum NewDue {
    At(When),
    Day(Date),
}

/// A task to add.
#[derive(Debug, Clone)]
pub struct AddSpec {
    pub text: String,
    /// Read dates, `#list` and `p1` in the text.
    pub parse: bool,
    /// Leave dates in the title.
    pub keep_dates: bool,
    pub list: Option<String>,
    pub due: Option<NewDue>,
    pub due_text: Option<String>,
    pub rrule: Option<String>,
    pub repeat_text: Option<String>,
    pub priority: Option<u8>,
    pub description: Option<String>,
    pub url: Option<String>,
    pub source: Option<String>,
    pub alarms: Option<Vec<Trigger>>,
    pub linked_notes: Vec<String>,
}

/// Which tasks to ask for.
#[derive(Debug, Clone, Copy, PartialEq, Eq, Structural)]
pub enum Which {
    Today,
    Upcoming,
    Open,
    Completed,
}

#[derive(Debug, Clone)]
pub struct Query {
    pub which: Which,
    pub list: Option<String>,
    pub text: Option<String>,
    pub limit: Option<u32>,
    pub linked_note: Option<String>,
}

impl Query {
    /// All tasks of a kind.
    pub fn of(which: Which) -> (r: Query)
        ensures
            r == (Query { which, list: None, text: None, limit: None, linked_note: None }),
    {
        Query { which, list: None, text: None, limit: None, linked_note: None }
    }
}

} // verus!
