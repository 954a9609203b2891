//! The calendar, as anyone knows it, and what is said of when.

use vstd::prelude::*;

use crate::date::{Date, day_of, last_day, month_of, year_of};
use crate::editor::history;
use crate::number::decimal;
use crate::out::ago;
use crate::row::{DayItem, day_items, notes_tooltip};
use crate::task::TaskView;
use crate::text::{lines, white};
use crate::zone::{Moment, Now};

verus! {

// -- days ---------------------------------------------------------------------------------------

/// A leap year: every fourth, but of the hundredth ones only every fourth.
pub open spec fn has_leap_day(y: int) -> bool {
    if y % 100 == 0 {
        y % 400 == 0
    } else {
        y % 4 == 0
    }
}

proof fn lemma_leap(y: int)
    ensures
        has_leap_day(y) == crate::date::leap(y),
{
    crate::date::lemma_centuries(y);
}

/// There is a day for each day of each month: thirty have April, June,
/// September and November, February has twenty-eight, in a leap year one more,
/// and the others have thirty-one.
pub proof fn months_have_their_days(y: i32, m: u32, d: u32, r: Option<Date>)
    requires
        call_ensures(Date::from_ymd, (y, m, d), r),
        -262143 <= y <= 262142,
    ensures
        r is Some <==> 1 <= m <= 12 && 1 <= d <= (if m == 4 || m == 6 || m == 9 || m == 11 {
            30int
        } else if m != 2 {
            31
        } else if has_leap_day(y as int) {
            29
        } else {
            28
        }),
{
    lemma_leap(y as int);
}

/// A day is the day that its year, month and day of the month say.
pub proof fn days_are_read_back(y: i32, m: u32, d: u32, day: Date, r: (i32, u32, u32))
    requires
        call_ensures(Date::from_ymd, (y, m, d), Some(day)),
        call_ensures(Date::ymd, (day,), r),
    ensures
        r == (y, m, d),
{
}

/// The day after a day is the next of its month, or the first of the next
/// month, or of the next year.
pub proof fn days_follow_each_other(a: Date, b: Date, x: (i32, u32, u32), y: (i32, u32, u32))
    requires
        call_ensures(Date::ymd, (a,), x),
        call_ensures(Date::ymd, (b,), y),
        a.wf() && b.wf(),
        b.ce == a.ce + 1,
    ensures
        y == (x.0, x.1, (x.2 + 1) as u32) || (y == (x.0, (x.1 + 1) as u32, 1u32) && x.2 >= 28) || (y
            == ((x.0 + 1) as i32, 1u32, 1u32) && x.1 == 12 && x.2 == 31),
{
    let (p, m, d) = (x.0 as int, x.1 as int, x.2 as int);
    crate::date::lemma_one_year(p);
    crate::date::lemma_months(p, m);
    let n = b.ce as int;
    assert(crate::date::days_before_month(p, m + 1) == crate::date::days_before_month(p, m)
        + crate::date::month_days(p, m));
    if d < crate::date::month_days(p, m) {
        crate::date::civil_is_unique(n, p, m, d + 1);
    } else if m < 12 {
        crate::date::civil_is_unique(n, p, m + 1, 1);
    } else {
        if p == 262142 {
            assert(crate::date::days_before_year(262143) == crate::date::LAST_DAY);
        }
        crate::date::civil_is_unique(n, p + 1, 1, 1);
    }
}

/// The days of the week go on from one day to the next, and the first of
/// January of the year 1 is a Monday.
pub proof fn weekdays_follow_each_other(a: Date, b: Date, x: u32, y: u32)
    requires
        call_ensures(Date::weekday, (a,), x),
        call_ensures(Date::weekday, (b,), y),
        b.ce == a.ce + 1,
    ensures
        x < 7,
        y == (if x == 6 {
            0u32
        } else {
            (x + 1) as u32
        }),
        a.ce == 1 ==> x == 0,
{
}

/// The last day of a month is in it, and the day after is not.
pub proof fn months_end(d: Date, r: Date)
    requires
        call_ensures(last_day, (d,), r),
        d.wf(),
        r.ce < crate::date::LAST_DAY,
    ensures
        d.ce <= r.ce,
        year_of(r.ce as int) == year_of(d.ce as int) && month_of(r.ce as int) == month_of(
            d.ce as int,
        ),
        month_of(r.ce + 1) != month_of(d.ce as int),
        day_of(r.ce + 1) == 1,
{
    let n = r.ce as int;
    crate::date::every_day_is_civil(d.ce as int);
    let (y, m) = (year_of(d.ce as int), month_of(d.ce as int));
    crate::date::month_end_is_in_month(d.ce as int);
    crate::date::lemma_one_year(y);
    crate::date::lemma_months(y, m);
    assert(crate::date::days_before_month(y, m + 1) == crate::date::days_before_month(y, m)
        + crate::date::month_days(y, m));
    if m < 12 {
        crate::date::civil_is_unique(n + 1, y, m + 1, 1);
    } else {
        if y == 262142 {
            assert(crate::date::days_before_year(262143) == crate::date::LAST_DAY);
        }
        crate::date::civil_is_unique(n + 1, y + 1, 1, 1);
    }
}

/// A day is written with the name of its weekday and of its month.
pub proof fn days_are_written(d: Date, f: &str, r: String)
    requires
        call_ensures(Date::format, (d, f), r),
    ensures
        ({
            let w = crate::date::weekday_of(d.ce as int);
            f@ == "%A"@ ==> {
                &&& w == 0 ==> r@ == "Monday"@
                &&& w == 1 ==> r@ == "Tuesday"@
                &&& w == 2 ==> r@ == "Wednesday"@
                &&& w == 3 ==> r@ == "Thursday"@
                &&& w == 4 ==> r@ == "Friday"@
                &&& w == 5 ==> r@ == "Saturday"@
                &&& w == 6 ==> r@ == "Sunday"@
            }
        }),
        ({
            let m = month_of(d.ce as int);
            f@ == "%B"@ ==> {
                &&& m == 1 ==> r@ == "January"@
                &&& m == 2 ==> r@ == "February"@
                &&& m == 3 ==> r@ == "March"@
                &&& m == 4 ==> r@ == "April"@
                &&& m == 5 ==> r@ == "May"@
                &&& m == 6 ==> r@ == "June"@
                &&& m == 7 ==> r@ == "July"@
                &&& m == 8 ==> r@ == "August"@
                &&& m == 9 ==> r@ == "September"@
                &&& m == 10 ==> r@ == "October"@
                &&& m == 11 ==> r@ == "November"@
                &&& m == 12 ==> r@ == "December"@
            }
        }),
{
    reveal_strlit("%A");
    reveal_strlit("%a");
    reveal_strlit("%B");
    assert("%A"@[1] == 'A' && "%a"@[1] == 'a' && "%B"@[1] == 'B');
}

/// The short names are the first three letters, and the longer ways to write a
/// day are made of the names, the day of the month and the year.
pub proof fn days_are_written_in_parts(
    d: Date,
    f: &str,
    r: String,
    names: (&str, &str),
    n: (String, String),
    ymd: (i32, u32, u32),
)
    requires
        call_ensures(Date::format, (d, f), r),
        names.0@ == "%A"@ && names.1@ == "%B"@,
        call_ensures(Date::format, (d, names.0), n.0),
        call_ensures(Date::format, (d, names.1), n.1),
        call_ensures(Date::ymd, (d,), ymd),
    ensures
        ({
            let (weekday, month, day) = (n.0@, n.1@, decimal(ymd.2 as nat));
            &&& f@ == "%a"@ ==> r@ == weekday.take(3)
            &&& f@ == "%b"@ ==> r@ == month.take(3)
            &&& f@ == "%A, %b %-d"@ ==> r@ == weekday + ", "@ + month.take(3) + " "@ + day
            &&& f@ == "%A, %B %-d"@ ==> r@ == weekday + ", "@ + month + " "@ + day
            &&& f@ == "%a %b %-d"@ ==> r@ == weekday.take(3) + " "@ + month.take(3) + " "@ + day
            &&& f@ == "on %b %-d"@ ==> r@ == "on "@ + month.take(3) + " "@ + day
        }),
{
    reveal_strlit("%A");
    reveal_strlit("%a");
    reveal_strlit("%B");
    reveal_strlit("%b");
    reveal_strlit("%A, %b %-d");
    reveal_strlit("%A, %b %-d %Y");
    reveal_strlit("%A, %B %-d");
    reveal_strlit("%a %b %-d");
    reveal_strlit("on %b %-d");
    reveal_strlit("on %b %-d, %Y");
    assert("%A"@[1] == 'A' && "%a"@[1] == 'a' && "%B"@[1] == 'B' && "%b"@[1] == 'b');
    assert("%A"@.len() == 2 && "%a"@.len() == 2 && "%B"@.len() == 2 && "%b"@.len() == 2);
    assert("%A, %b %-d"@.len() == 10 && "%A, %B %-d"@.len() == 10 && "%a %b %-d"@.len() == 9
        && "on %b %-d"@.len() == 9 && "%A, %b %-d %Y"@.len() == 13 && "on %b %-d, %Y"@.len() == 13);
    assert("%A, %b %-d"@[5] == 'b' && "%A, %B %-d"@[5] == 'B' && "%a %b %-d"@[0] == '%'
        && "on %b %-d"@[0] == 'o');
}

/// A task's menu offers today, tomorrow and a week from today.
pub proof fn days_are_offered(today: Date, r: (DayItem, DayItem, DayItem))
    requires
        call_ensures(day_items, (today,), r),
    ensures
        r.0.title@ == "Today"@ && r.0.day == today,
        r.1.title@ == "Tomorrow"@ && r.1.day.ce == today.ce + 1,
        r.2.title@ == "Next week"@ && r.2.day.ce == today.ce + 7,
{
}

// -- when ---------------------------------------------------------------------------------------

/// On the command line, how long ago something was is said in seconds under a
/// minute, in minutes under an hour, in hours under a day, and in days.
pub proof fn moments_say_how_long_ago(at: Moment, now: Moment, r: String)
    requires
        call_ensures(ago, (at, now), r),
        at.secs_until(now) >= 0,
    ensures
        ({
            let secs = at.secs_until(now);
            &&& secs < 60 ==> r@ == decimal(secs as nat) + "s ago"@
            &&& 60 <= secs < 3600 ==> r@ == decimal((secs / 60) as nat) + " min ago"@
            &&& 3600 <= secs < 86400 ==> r@ == decimal((secs / 3600) as nat) + " h ago"@
            &&& secs >= 86400 ==> r@ == decimal((secs / 86400) as nat) + " days ago"@
        }),
{
}

/// The notes of a task show by their first line, cut where it is long, unless
/// there is nothing in them.
pub proof fn notes_show_their_first_line(notes: &Option<String>, r: Option<String>)
    requires
        call_ensures(notes_tooltip, (notes,), r),
    ensures
        *notes is None ==> r is None,
        *notes matches Some(d) ==> (r is None <==> forall|i: int|
            0 <= i < d@.len() ==> white(#[trigger] d@[i])),
        *notes matches Some(d) ==> (r matches Some(s) ==> lines(d@).len() > 0 ==> (if lines(
            d@,
        )[0].len() <= 120 {
            s@ == lines(d@)[0]
        } else {
            s@ == lines(d@)[0].take(120)
        })),
{
}

/// What is said of a task's past: that it is done and when, that it is not
/// sent yet, and where it is from.
pub proof fn histories_say_what_was(t: &TaskView, now: &Now, r: String, when: String)
    requires
        call_ensures(history, (t, now), r),
        t.task.created is None,
        t.task.modified is None,
        t.task.completed matches Some(c) ==> call_ensures(crate::words::ago, (c, now), when),
    ensures
        t.task.source is None && !t.pending && !t.task.open && t.task.completed is Some ==> r@
            == "Completed "@ + when@,
        t.task.source is None && t.pending && t.task.open ==> r@ == "Not on the server yet"@,
        t.task.source matches Some(s) ==> !t.pending ==> t.task.open ==> r@ == "From "@ + s@,
{
    reveal_with_fuel(crate::text::join, 2);
    let h = crate::editor::history_of(*t, now.at, now.zone@);
    if t.task.source is None && !t.pending && !t.task.open && t.task.completed is Some {
        assert(h =~= seq!["Completed "@ + when@]);
    }
    if t.task.source is None && t.pending && t.task.open {
        assert(h =~= seq!["Not on the server yet"@]);
    }
    if let Some(s) = t.task.source {
        if !t.pending && t.task.open {
            assert(h =~= seq!["From "@ + s@]);
        }
    }
}

} // verus!
