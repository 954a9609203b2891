//! Moving a due date: to another day with its time kept, to another time
//! with its day kept, and times as people type them.

use vstd::prelude::*;
use vstd::string::*;

use crate::date::{Date, Time};
use crate::number::{parse_u32, reads_as};
use crate::task::When;
use crate::text::{
    chars, ends_with, lower_text, lowercase_text, part, trim, trim_text,
};
use crate::zone::{Zone, local, time_at};

verus! {

/// A due date to be set: a day, or a time by the clocks of the user's zone.
#[derive(Debug, Clone, Copy, PartialEq, Eq, Structural)]
pub enum Moved {
    Day(Date),
    /// In the form that the date has now (its zone, or UTC) when `same_form`;
    /// otherwise as a time in the user's zone.
    At { date: Date, time: Time, same_form: bool },
}

/// `due` moved to `date`, keeping its time of day and form.
pub fn on_date(due: Option<&When>, date: Date, zone: &Zone) -> (r: Moved)
    requires
        due matches Some(w) ==> w.wf(),
    ensures
        r == (match due {
            Some(w) if w.timed => Moved::At {
                date,
                time: Time { secs: time_at(w.at, zone@) as u32 },
                same_form: true,
            },
            _ => Moved::Day(date),
        }),
{
    match due {
        Some(w) if w.timed => {
            let (_, time) = local(w.at, zone);
            Moved::At { date, time, same_form: true }
        },
        _ => Moved::Day(date),
    }
}

/// `due` at `time` on its own day, or today when there is none.
pub fn at_time(due: Option<&When>, time: Time, today: Date) -> (r: Moved)
    ensures
        r == (match due {
            Some(w) => Moved::At { date: w.date, time, same_form: w.timed },
            None => Moved::At { date: today, time, same_form: false },
        }),
{
    match due {
        Some(w) => Moved::At { date: w.date, time, same_form: w.timed },
        None => Moved::At { date: today, time, same_form: false },
    }
}

// -- times as typed ---------------------------------------------------------------

/// `s` without its spaces.
pub open spec fn packed(s: Seq<char>) -> Seq<char> {
    s.filter(not_space())
}

pub open spec fn not_space() -> spec_fn(char) -> bool {
    |c: char| c != ' '
}

/// What is left of a time without `am` or `pm`, and which of them it had.
pub open spec fn halved(t: Seq<char>) -> (Seq<char>, Option<bool>) {
    if ends_with(t, "pm"@) {
        (t.take(t.len() - 2), Some(true))
    } else if ends_with(t, "p"@) {
        (t.take(t.len() - 1), Some(true))
    } else if ends_with(t, "am"@) {
        (t.take(t.len() - 2), Some(false))
    } else if ends_with(t, "a"@) {
        (t.take(t.len() - 1), Some(false))
    } else {
        (t, None)
    }
}

/// Where the first colon or period is.
pub open spec fn mark(s: Seq<char>) -> Option<int>
    decreases s.len(),
{
    if s.len() == 0 {
        None
    } else if s[0] == ':' || s[0] == '.' {
        Some(0)
    } else {
        match mark(s.skip(1)) {
            Some(i) => Some(i + 1),
            None => None,
        }
    }
}

/// The hour and the minute as written: `17:30`, `930`, `9`.
pub open spec fn hour_minute(b: Seq<char>) -> (Seq<char>, Option<Seq<char>>) {
    match mark(b) {
        Some(i) => (b.take(i), Some(b.skip(i + 1))),
        None => if b.len() >= 3 {
            (b.take(b.len() - 2), Some(b.skip(b.len() - 2)))
        } else {
            (b, None)
        },
    }
}

/// The hour of the day, given whether it is after noon.
pub open spec fn hour_of(h: nat, pm: Option<bool>) -> Option<nat> {
    match pm {
        None => Some(h),
        Some(after) => if after && h < 12 {
            Some(h + 12)
        } else if !after && h == 12 {
            Some(0)
        } else if h > 12 {
            None
        } else {
            Some(h)
        },
    }
}

/// The time that a text in lowercase says.
pub open spec fn clock(t: Seq<char>) -> Option<Time> {
    let (b, pm) = halved(packed(t));
    let (h, m) = hour_minute(b);
    let minute = match m {
        Some(d) => reads_as(d, u32::MAX as nat),
        None => Some(0nat),
    };
    match (reads_as(h, u32::MAX as nat), minute) {
        (Some(h), Some(m)) => match hour_of(h, pm) {
            Some(h) => if h < 24 && m < 60 {
                Some(Time { secs: (h * 3600 + m * 60) as u32 })
            } else {
                None
            },
            None => None,
        },
        _ => None,
    }
}

fn pack(s: &Vec<char>) -> (r: Vec<char>)
    ensures
        r@ == packed(s@),
{
    let mut out: Vec<char> = Vec::new();
    proof {
        reveal(Seq::filter);
        assert(out@ == packed(s@.take(0)));
    }
    for i in 0..s.len()
        invariant
            out@ == packed(s@.take(i as int)),
    {
        proof {
            reveal(Seq::filter);
            assert(s@.take(i + 1).drop_last() == s@.take(i as int));
            assert(s@.take(i + 1).last() == s@[i as int]);
        }
        if s[i] != ' ' {
            out.push(s[i]);
        }
    }
    assert(s@.take(s@.len() as int) == s@);
    out
}

fn ends(s: &Vec<char>, p: &str) -> (r: bool)
    ensures
        r == ends_with(s@, p@),
{
    let w = chars(p);
    if w.len() > s.len() {
        return false;
    }
    crate::text::is_at(s, &w, s.len() - w.len())
}

fn find_mark(s: &Vec<char>) -> (r: Option<usize>)
    ensures
        match r {
            Some(i) => i < s.len() && mark(s@) == Some(i as int),
            None => mark(s@) is None,
        },
{
    assert(s@.skip(0) == s@);
    for i in 0..s.len()
        invariant
            mark(s@) == (match mark(s@.skip(i as int)) {
                Some(k) => Some(k + i),
                None => None,
            }),
    {
        let ghost t = s@.skip(i as int);
        assert(t[0] == s@[i as int]);
        if s[i] == ':' || s[i] == '.' {
            return Some(i);
        }
        assert(t.skip(1) == s@.skip(i + 1));
    }
    assert(s@.skip(s@.len() as int).len() == 0);
    None
}

fn halve(t: Vec<char>) -> (r: (Vec<char>, Option<bool>))
    ensures
        (r.0@, r.1) == halved(t@),
{
    proof {
        reveal_strlit("pm");
        reveal_strlit("p");
        reveal_strlit("am");
        reveal_strlit("a");
    }
    let n = t.len();
    if ends(&t, "pm") {
        (part(&t, 0, n - 2), Some(true))
    } else if ends(&t, "p") {
        (part(&t, 0, n - 1), Some(true))
    } else if ends(&t, "am") {
        (part(&t, 0, n - 2), Some(false))
    } else if ends(&t, "a") {
        (part(&t, 0, n - 1), Some(false))
    } else {
        (t, None)
    }
}

/// The time that a text in lowercase says; none when it says no time of day.
pub fn read_time(t: &str) -> (r: Option<Time>)
    ensures
        r == clock(t@),
{
    let (b, pm) = halve(pack(&chars(t)));
    let n = b.len();
    let (h, m): (Option<u32>, Option<u32>) = match find_mark(&b) {
        Some(i) => {
            let (x, y) = (part(&b, 0, i), part(&b, i + 1, n));
            assert(x@ == b@.take(i as int));
            assert(y@ == b@.skip(i + 1));
            (parse_u32(&x), parse_u32(&y))
        },
        None => if n >= 3 {
            let (x, y) = (part(&b, 0, n - 2), part(&b, n - 2, n));
            assert(x@ == b@.take(n - 2));
            assert(y@ == b@.skip(n - 2));
            (parse_u32(&x), parse_u32(&y))
        } else {
            (parse_u32(&b), Some(0))
        },
    };
    match (h, m) {
        (Some(h), Some(m)) => {
            let hour: u32 = match pm {
                None => h,
                Some(after) => if after && h < 12 {
                    h + 12
                } else if !after && h == 12 {
                    0
                } else if h > 12 {
                    return None;
                } else {
                    h
                },
            };
            Time::from_hm(hour, m)
        },
        _ => None,
    }
}

/// `5pm`, `17:30`, `9`, `930`, `12:15 am`.
pub fn parse_time(text: &str) -> (r: Option<Time>)
    ensures
        r == clock(lowercase_text(trim(text@))),
{
    read_time(lower_text(trim_text(text).as_str()).as_str())
}

} // verus!
