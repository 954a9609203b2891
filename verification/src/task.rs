//! Tasks and lists, as the daemon hands them out.

use vstd::prelude::*;

use crate::date::Date;
use crate::zone::Moment;

verus! {

/// A list of tasks.
#[derive(Debug, Clone)]
pub struct ListView {
    pub href: String,
    pub name: String,
    pub color: Option<String>,
    pub writable: bool,
    pub inbox: bool,
    pub open: usize,
    pub done: usize,
}

/// When a task is due or starts, as read in the user's zone: a day, and on
/// it a time or none. Without one, `at` is where the day stands among times.
/// Two at one time are still apart when one has it in UTC, say, and the other
/// in a zone: `form` is a number for how it is put.
#[derive(Debug, Clone, Copy, PartialEq, Eq, Structural)]
pub struct When {
    pub date: Date,
    pub at: Moment,
    pub timed: bool,
    pub form: u64,
}

impl When {
    pub open spec fn wf(self) -> bool {
        self.date.wf() && self.at.wf()
    }
}

/// When a reminder goes off: at a moment, or so many seconds after the task
/// is due (or starts); before it when negative.
#[derive(Debug, Clone, Copy, PartialEq, Eq, Structural)]
pub enum Trigger {
    Absolute { at: Moment },
    Relative { offset: i64, from_due: bool },
}

/// A note linked to a task: where it is, and what it is called.
#[derive(Debug, Clone)]
pub struct Note {
    pub link: String,
    pub name: String,
}

#[derive(Debug, Clone)]
pub struct Task {
    pub uid: String,
    pub summary: String,
    pub description: Option<String>,
    /// Not completed, and not cancelled.
    pub open: bool,
    pub completed: Option<Moment>,
    /// Priority 1 (high) to 4 (none).
    pub level: u8,
    pub due: Option<When>,
    pub start: Option<When>,
    pub rrule: Option<String>,
    pub alarms: Vec<Trigger>,
    pub url: Option<String>,
    pub source: Option<String>,
    pub linked_notes: Vec<Note>,
    pub sort_order: Option<i64>,
    pub created: Option<Moment>,
    pub modified: Option<Moment>,
}

pub open spec fn moment_wf(at: Option<Moment>) -> bool {
    at matches Some(m) ==> m.wf()
}

pub open spec fn when_wf(w: Option<When>) -> bool {
    w matches Some(x) ==> x.wf()
}

impl Task {
    pub open spec fn wf(&self) -> bool {
        &&& 1 <= self.level <= 4
        &&& when_wf(self.due)
        &&& when_wf(self.start)
        &&& moment_wf(self.completed)
        &&& moment_wf(self.created)
        &&& moment_wf(self.modified)
    }

    /// The day it is due.
    pub open spec fn due_day(&self) -> Option<Date> {
        match self.due {
            Some(w) => Some(w.date),
            None => None,
        }
    }

    /// The day it is due.
    pub fn due_date(&self) -> (r: Option<Date>)
        ensures
            r == self.due_day(),
            self.wf() ==> (r matches Some(d) ==> d.wf()),
    {
        match self.due {
            Some(w) => Some(w.date),
            None => None,
        }
    }

    /// Whether it is well formed.
    pub fn in_range(&self) -> (r: bool)
        ensures
            r == self.wf(),
    {
        1 <= self.level && self.level <= 4 && when_in_range(&self.due) && when_in_range(&self.start)
            && moment_in_range(&self.completed) && moment_in_range(&self.created)
            && moment_in_range(&self.modified)
    }

    pub fn is_open(&self) -> (r: bool)
        ensures
            r == self.open,
    {
        self.open
    }
}

/// A task with where it is kept.
#[derive(Debug, Clone)]
pub struct TaskView {
    pub id: String,
    pub href: String,
    pub list: String,
    pub list_name: String,
    /// Changed here, and not sent yet.
    pub pending: bool,
    pub task: Task,
}

fn when_in_range(w: &Option<When>) -> (r: bool)
    ensures
        r == when_wf(*w),
{
    match w {
        Some(x) => x.date.in_range() && x.at.in_range(),
        None => true,
    }
}

fn moment_in_range(at: &Option<Moment>) -> (r: bool)
    ensures
        r == moment_wf(*at),
{
    match at {
        Some(m) => m.in_range(),
        None => true,
    }
}

/// Whether tasks are all well formed.
pub fn all_in_range(s: &Vec<TaskView>) -> (r: bool)
    ensures
        r == tasks_wf(s@),
{
    for i in 0..s.len()
        invariant
            forall|j: int| 0 <= j < i ==> (#[trigger] s@[j]).task.wf(),
    {
        if !s[i].task.in_range() {
            return false;
        }
    }
    true
}

/// Tasks that are all well formed.
pub open spec fn tasks_wf(s: Seq<TaskView>) -> bool {
    forall|i: int| 0 <= i < s.len() ==> (#[trigger] s[i]).task.wf()
}

/// The tasks that references point at.
pub open spec fn unref(s: Seq<&TaskView>) -> Seq<TaskView> {
    s.map_values(|t: &TaskView| *t)
}

/// What the daemon's sync is doing.
#[derive(Debug, Clone, Copy, PartialEq, Eq, Structural)]
pub enum SyncState {
    Idle,
    Syncing,
    Offline,
    Error,
    NoAccount,
}

#[derive(Debug, Clone)]
pub struct StatusView {
    pub state: SyncState,
    pub message: Option<String>,
    pub last_sync: Option<Moment>,
    /// Changes waiting to be sent.
    pub pending: usize,
    pub server: Option<String>,
    pub username: Option<String>,
}

} // verus!
