//! What the window says: how long ago, what sync is doing, what a priority
//! is called.

use vstd::prelude::*;
use vstd::string::*;

use crate::date::{Date, written, year_of};
use crate::number::{decimal, decimal_text, plural, plural_text};
use crate::task::{StatusView, SyncState, When};
use crate::text::{chars, glue, text, text_of, to_uppercase, uppercase};
use crate::zone::{Moment, Now, day_at, local_day};

verus! {

// -- how long ago -----------------------------------------------------------------

/// `just now`, `12 seconds ago`, `5 minutes ago`, `3 hours ago`, then the
/// day, with its year when it isn't this one.
pub open spec fn ago_text(then: Moment, now: Moment, zone: Seq<char>) -> Seq<char> {
    let secs = then.secs_until(now);
    let day = day_at(then, zone);
    if secs < 5 {
        "just now"@
    } else if secs < 60 {
        decimal(secs as nat) + " seconds ago"@
    } else if secs < 3600 {
        plural_text(secs / 60, "minute"@) + " ago"@
    } else if secs < 86400 {
        plural_text(secs / 3600, "hour"@) + " ago"@
    } else if year_of(day) == year_of(day_at(now, zone)) {
        written(day, "on %b %-d"@)
    } else {
        written(day, "on %b %-d, %Y"@)
    }
}

/// `just now`, `12 seconds ago`, `5 minutes ago`, `3 hours ago`, then the
/// day. Seconds, because the daemon checks every minute: "Synced just now"
/// would be all it ever said.
pub fn ago(then: Moment, now: &Now) -> (r: String)
    requires
        then.wf(),
        now.wf(),
    ensures
        r@ == ago_text(then, now.at, now.zone@),
{
    let secs: i64 = then.elapsed(now.at);
    if secs < 5 {
        String::from_str("just now")
    } else if secs < 60 {
        glue(decimal_text(secs as u64).as_str(), " seconds ago")
    } else if secs < 3600 {
        glue(plural(secs / 60, "minute").as_str(), " ago")
    } else if secs < 86400 {
        glue(plural(secs / 3600, "hour").as_str(), " ago")
    } else {
        let day = local_day(then, &now.zone);
        let (y, _, _) = day.ymd();
        let (this_year, _, _) = now.today().ymd();
        if y == this_year {
            day.format("on %b %-d")
        } else {
            day.format("on %b %-d, %Y")
        }
    }
}

// -- sync -----------------------------------------------------------------------------

/// What sync is doing, without what waits to be sent.
pub open spec fn state_text(s: StatusView, now: Moment, zone: Seq<char>) -> Seq<char> {
    match s.state {
        SyncState::Idle => match s.last_sync {
            None => "Not synced yet"@,
            Some(t) => "Synced "@ + ago_text(t, now, zone),
        },
        SyncState::Syncing => "Syncing…"@,
        SyncState::Offline => "Offline; changes wait until the server is back"@,
        SyncState::Error | SyncState::NoAccount => match s.message {
            Some(m) => m@,
            None => "Sync failed"@,
        },
    }
}

/// What waits to be sent.
pub open spec fn waiting_text(n: nat) -> Seq<char> {
    if n == 0 {
        Seq::empty()
    } else if n == 1 {
        " · 1 change waiting to be sent"@
    } else {
        " · "@ + decimal(n) + " changes waiting to be sent"@
    }
}

/// What sync is doing, as Preferences and the sync button's tooltip say it.
pub fn sync_state(s: &StatusView, now: &Now) -> (r: String)
    requires
        now.wf(),
        crate::task::moment_wf(s.last_sync),
    ensures
        r@ == state_text(*s, now.at, now.zone@) + waiting_text(s.pending as nat),
{
    let mut state = match s.state {
        SyncState::Idle => match s.last_sync {
            None => String::from_str("Not synced yet"),
            Some(t) => glue("Synced ", ago(t, now).as_str()),
        },
        SyncState::Syncing => String::from_str("Syncing…"),
        SyncState::Offline => String::from_str("Offline; changes wait until the server is back"),
        SyncState::Error | SyncState::NoAccount => match &s.message {
            Some(m) => m.clone(),
            None => String::from_str("Sync failed"),
        },
    };
    let ghost before = state@;
    if s.pending == 1 {
        state.append(" · 1 change waiting to be sent");
    } else if s.pending > 1 {
        state.append(" · ");
        state.append(decimal_text(s.pending as u64).as_str());
        state.append(" changes waiting to be sent");
        assert(state@ == before + waiting_text(s.pending as nat));
    } else {
        assert(before + Seq::<char>::empty() == before);
    }
    state
}

// -- words --------------------------------------------------------------------------

/// The first character in uppercase, the rest as it is.
pub open spec fn capital(s: Seq<char>) -> Seq<char> {
    if s.len() == 0 {
        s
    } else {
        uppercase(s[0]) + s.skip(1)
    }
}

pub fn capitalize(s: &str) -> (r: String)
    ensures
        r@ == capital(s@),
{
    let v = chars(s);
    if v.len() == 0 {
        return String::new();
    }
    let mut out = text(&to_uppercase(v[0]));
    out.append(text_of(&v, 1, v.len()).as_str());
    assert(v@.subrange(1, v@.len() as int) == s@.skip(1));
    out
}

/// The class that colors a due date.
pub open spec fn due_class(day: int, today: int) -> Seq<char> {
    if day < today {
        "overdue"@
    } else if day == today {
        "today"@
    } else {
        "upcoming"@
    }
}

/// A due date as a row shows it, given its words, and the class that colors
/// it.
pub fn due_chip(due: &When, label: &str, today: Date) -> (r: (String, &'static str))
    ensures
        r.0@ == capital(label@),
        r.1@ == due_class(due.date.ce as int, today.ce as int),
{
    let class = if due.date.ce < today.ce {
        "overdue"
    } else if due.date.ce == today.ce {
        "today"
    } else {
        "upcoming"
    };
    (capitalize(label), class)
}

pub open spec fn priority_text(level: u8) -> Seq<char> {
    if level == 1 {
        "Priority 1: High"@
    } else if level == 2 {
        "Priority 2: Medium"@
    } else if level == 3 {
        "Priority 3: Low"@
    } else {
        "Priority 4: None"@
    }
}

pub fn priority_name(level: u8) -> (r: &'static str)
    ensures
        r@ == priority_text(level),
{
    match level {
        1 => "Priority 1: High",
        2 => "Priority 2: Medium",
        3 => "Priority 3: Low",
        _ => "Priority 4: None",
    }
}

} // verus!
