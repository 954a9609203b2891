//! What the tray icon says.

use vstd::prelude::*;
use vstd::string::*;

use crate::counts::Counts;
use crate::number::{decimal, decimal_text};
use crate::text::{chars, ends_with, glue, is_at, text_of};

verus! {

/// What the icon says: a dot for overdue tasks, and counts in the tooltip.
#[derive(Debug, Clone, Copy, PartialEq, Eq, Structural)]
pub struct State {
    pub overdue: usize,
    /// Due today, not counting the overdue ones.
    pub today: usize,
}

impl Default for State {
    fn default() -> (r: State)
        ensures
            r == (State { overdue: 0, today: 0 }),
    {
        State { overdue: 0, today: 0 }
    }
}

/// How many tasks are overdue, and how many due today.
pub open spec fn summary_text(overdue: nat, today: nat) -> Seq<char> {
    if overdue == 0 && today == 0 {
        "Nothing due today"@
    } else if overdue == 0 && today == 1 {
        "1 task due today"@
    } else if overdue == 0 {
        decimal(today) + " tasks due today"@
    } else if today == 0 {
        decimal(overdue) + " overdue"@
    } else {
        decimal(overdue) + " overdue · "@ + decimal(today) + " due today"@
    }
}

impl State {
    /// What the icon says of the counts.
    pub fn of(c: &Counts) -> (r: State)
        requires
            c.overdue <= c.today,
        ensures
            r.overdue == c.overdue,
            r.today == c.today - c.overdue,
    {
        State { overdue: c.overdue, today: c.today - c.overdue }
    }

    pub fn summary(&self) -> (r: String)
        ensures
            r@ == summary_text(self.overdue as nat, self.today as nat),
    {
        if self.overdue == 0 && self.today == 0 {
            String::from_str("Nothing due today")
        } else if self.overdue == 0 && self.today == 1 {
            String::from_str("1 task due today")
        } else if self.overdue == 0 {
            glue(decimal_text(self.today as u64).as_str(), " tasks due today")
        } else if self.today == 0 {
            glue(decimal_text(self.overdue as u64).as_str(), " overdue")
        } else {
            let mut s = glue(decimal_text(self.overdue as u64).as_str(), " overdue · ");
            s.append(decimal_text(self.today as u64).as_str());
            s.append(" due today");
            s
        }
    }

    /// The icon: one with a dot when something is overdue.
    pub fn icon(&self) -> (r: &'static str)
        ensures
            r@ == (if self.overdue > 0 {
                "asst-tray-overdue"@
            } else {
                "asst-tray"@
            }),
    {
        if self.overdue > 0 {
            "asst-tray-overdue"
        } else {
            "asst-tray"
        }
    }
}

/// A path without what marks a file as replaced.
pub open spec fn current(exe: Seq<char>) -> Seq<char>
    decreases exe.len(),
{
    if ends_with(exe, " (deleted)"@) && " (deleted)"@.len() > 0 {
        current(exe.take(exe.len() - " (deleted)"@.len()))
    } else {
        exe
    }
}

/// The program that is running, by its path: when it was replaced meanwhile,
/// the new one is at the same path.
pub fn program(exe: &str) -> (r: String)
    ensures
        r@ == current(exe@),
{
    let v = chars(exe);
    let mark = chars(" (deleted)");
    proof {
        reveal_strlit(" (deleted)");
    }
    let n = mark.len();
    let mut len: usize = v.len();
    assert(v@.take(len as int) =~= exe@);
    while len >= n && is_at(&v, &mark, len - n)
        invariant
            v@ == exe@,
            mark@ == " (deleted)"@,
            n == mark@.len(),
            n > 0,
            len <= v@.len(),
            current(v@.take(len as int)) == current(exe@),
        decreases len,
    {
        let ghost s = v@.take(len as int);
        proof {
            assert(s.subrange(s.len() - n, s.len() as int) =~= v@.subrange(len - n, len as int));
            assert(s.take(s.len() - n) =~= v@.take(len - n));
        }
        len -= n;
    }
    proof {
        let s = v@.take(len as int);
        if ends_with(s, mark@) {
            assert(s.subrange(s.len() - n, s.len() as int) =~= v@.subrange(len - n, len as int));
        }
    }
    text_of(&v, 0, len)
}

} // verus!
