//! What choosing a date, a time, a repeat or a reminder comes to.

use vstd::prelude::*;

use crate::date::{Date, Time, Weekday};
use crate::due::{Moved, at_time, on_date, parse_time, read_time};
use crate::number::{decimal, decimal_reads_back, decimal_round_trip};
use crate::remind::{
    Alarm, Offer, Rings, Typed, in_order_of_ringing, is_offered, offers, quick_reminders, remind_at,
    reminder_label, span, trigger_at, with_reminder, without_reminder,
};
use crate::repeat::{End, Freq, Repeat};
use crate::schedule::{
    Choice, Chip, DateOpts, EndChoice, Schedule, chip_views, chosen_end, clear_time, end_fields,
    editor_start, link_address, link_change, pick_day, set_rule, suggestions, typed, unit_words,
    week_order,
};
use crate::sort_law::no_later;
use crate::sorting::{arranged_is_in_order, arranged_keeps_all};
use crate::task::{Task, Trigger, When};
use crate::text::{ends_with, lowercase_text, trim};
use crate::zone::{Moment, Now, Zone, utc_offset};

verus! {

// -- moving a date ------------------------------------------------------------------------------

/// A date that is moved to another day has that day, and the time of day it
/// had, if it had one.
pub proof fn moving_keeps_the_time(due: Option<&When>, d: Date, zone: &Zone, r: Moved)
    requires
        due matches Some(w) ==> w.wf(),
        call_ensures(on_date, (due, d, zone), r),
    ensures
        due is None ==> r == Moved::Day(d),
        due matches Some(w) ==> (!w.timed ==> r == Moved::Day(d)) && (w.timed ==> (
        r matches Moved::At { date, time, same_form } && date == d && same_form && time.secs == (
        w.at.secs + utc_offset(zone@, w.at.secs as int)) % 86400)),
{
}

/// A date that gets a time keeps its day; without one it is today.
pub proof fn setting_a_time_keeps_the_day(due: Option<&When>, t: Time, today: Date, r: Moved)
    requires
        call_ensures(at_time, (due, t, today), r),
    ensures
        r matches Moved::At { date, time, same_form } && time == t && (due matches Some(w) ==> date
            == w.date && same_form == w.timed) && (due is None ==> date == today && !same_form),
{
}

/// Picking a day keeps the repeat; taking the time away keeps the day and the
/// repeat; setting a repeat keeps the date, and starts it today where there is
/// none.
pub proof fn choices_keep_the_rest(
    s: &Schedule,
    d: Date,
    zone: &Zone,
    rule: Option<String>,
    today: Date,
    a: Choice,
    b: Choice,
    c: Choice,
)
    requires
        crate::task::when_wf(s.due),
        call_ensures(pick_day, (s, d, zone), a),
        call_ensures(clear_time, (s,), b),
        call_ensures(set_rule, (s, rule, today), c),
    ensures
        a.rrule == s.rrule && b.rrule == s.rrule && c.rrule == rule,
        match a.due {
            Some(Moved::Day(x)) => x == d && !(s.due matches Some(w) && w.timed),
            Some(Moved::At { date, .. }) => date == d && (s.due matches Some(w) && w.timed),
            None => false,
        },
        s.due matches Some(w) ==> b.due == Some(Moved::Day(w.date)),
        s.due is None ==> b.due is None,
        s.due is Some || rule is None ==> c.due is None,
        s.due is None && rule is Some ==> c.due == Some(Moved::Day(today)),
{
}

/// Typed words set the date that was read in them, and the repeat when they
/// say one; without a date they set nothing.
pub proof fn typed_dates_are_set(
    due: Option<When>,
    rule: Option<String>,
    s: &Schedule,
    r: Option<Schedule>,
)
    requires
        call_ensures(typed, (due, rule, s), r),
    ensures
        due is None ==> r is None,
        due is Some ==> (r matches Some(x) && x.due == due && (rule is Some ==> x.rrule == rule) && (
        rule is None ==> x.rrule == s.rrule)),
{
}

/// The days on offer are today, tomorrow and a week from now; and no date,
/// where there is one to take away.
pub proof fn days_on_offer(opts: DateOpts, has_due: bool, today: Date, r: Vec<Chip>)
    requires
        today.wf(),
        today.ce + 7 <= crate::date::LAST_DAY,
        call_ensures(suggestions, (opts, has_due, today), r),
    ensures
        r@.len() == (if opts.clear || (opts.full && has_due) {
            4int
        } else {
            3
        }),
        r@[0].text@ == "Today"@ && r@[0].day == Some(today),
        r@[1].text@ == "Tomorrow"@ && r@[1].day == Some(Date { ce: (today.ce + 1) as i32 }),
        r@[2].text@ == "Next week"@ && r@[2].day == Some(Date { ce: (today.ce + 7) as i32 }),
        opts.clear || (opts.full && has_due) ==> r@[3].text@ == "No date"@ && r@[3].day is None,
{
    let v = chip_views(r@);
    assert(v.len() == r@.len());
    assert(v[0] == r@[0]@ && v[1] == r@[1]@ && v[2] == r@[2]@);
    if v.len() > 3 {
        assert(v[3] == r@[3]@);
    }
}

/// Weeks start on Monday, or on Sunday.
pub proof fn weeks_start_where_they_do(sunday_first: bool, r: Vec<Weekday>)
    requires
        call_ensures(week_order, (sunday_first,), r),
    ensures
        !sunday_first ==> r@ == seq![
            Weekday::Mon,
            Weekday::Tue,
            Weekday::Wed,
            Weekday::Thu,
            Weekday::Fri,
            Weekday::Sat,
            Weekday::Sun,
        ],
        sunday_first ==> r@ == seq![
            Weekday::Sun,
            Weekday::Mon,
            Weekday::Tue,
            Weekday::Wed,
            Weekday::Thu,
            Weekday::Fri,
            Weekday::Sat,
        ],
{
}

// -- times as typed -----------------------------------------------------------------------------

/// An hour with `am` or `pm` is that hour before or after noon; twelve is
/// midnight and noon.
pub proof fn hours_before_and_after_noon(t: &str, h: nat, r: Option<Time>)
    requires
        1 <= h <= 12,
        call_ensures(read_time, (t,), r),
    ensures
        t@ == decimal(h) + "am"@ || t@ == decimal(h) + "a"@ ==> r == Some(
            Time { secs: ((h % 12) * 3600) as u32 },
        ),
        t@ == decimal(h) + "pm"@ || t@ == decimal(h) + "p"@ ==> r == Some(
            Time { secs: ((h % 12 + 12) * 3600) as u32 },
        ),
{
    lemma_halves(h);
    let n = decimal(h);
    if t@ == n + "am"@ || t@ == n + "a"@ {
        lemma_clock_hour(t@, n, Some(false), h);
    } else if t@ == n + "pm"@ || t@ == n + "p"@ {
        lemma_clock_hour(t@, n, Some(true), h);
    }
}

proof fn lemma_halves(h: nat)
    requires
        h < 100,
    ensures
        ({
            let n = decimal(h);
            &&& crate::due::halved(crate::due::packed(n + "am"@)) == (n, Some(false))
            &&& crate::due::halved(crate::due::packed(n + "a"@)) == (n, Some(false))
            &&& crate::due::halved(crate::due::packed(n + "pm"@)) == (n, Some(true))
            &&& crate::due::halved(crate::due::packed(n + "p"@)) == (n, Some(true))
        }),
{
    lemma_hour(h);
    let n = decimal(h);
    lemma_am(n);
    lemma_a(n);
    lemma_pm(n);
    lemma_p(n);
}

spec fn no_space(s: Seq<char>) -> bool {
    forall|i: int| 0 <= i < s.len() ==> #[trigger] s[i] != ' '
}

proof fn lemma_no_space(a: Seq<char>, b: Seq<char>)
    requires
        no_space(a),
        no_space(b),
    ensures
        no_space(a + b),
{
    let s = a + b;
    assert forall|i: int| 0 <= i < s.len() implies #[trigger] s[i] != ' ' by {
        if i < a.len() {
            assert(s[i] == a[i]);
        } else {
            assert(s[i] == b[i - a.len()]);
        }
    }
}

proof fn lemma_am(n: Seq<char>)
    requires
        no_space(n),
    ensures
        crate::due::halved(crate::due::packed(n + "am"@)) == (n, Some(false)),
{
    reveal_strlit("am");
    reveal_strlit("pm");
    reveal_strlit("p");
    let s = n + "am"@;
    lemma_no_space(n, "am"@);
    lemma_packed(s);
    lemma_end(n, "am"@);
    lemma_not_end(s, "pm"@, 0, 'p');
    lemma_not_end(s, "p"@, 0, 'p');
}

proof fn lemma_a(n: Seq<char>)
    requires
        no_space(n),
        n.len() > 0,
    ensures
        crate::due::halved(crate::due::packed(n + "a"@)) == (n, Some(false)),
{
    reveal_strlit("am");
    reveal_strlit("pm");
    reveal_strlit("a");
    reveal_strlit("p");
    let s = n + "a"@;
    lemma_no_space(n, "a"@);
    lemma_packed(s);
    lemma_end(n, "a"@);
    lemma_not_end(s, "pm"@, 1, 'm');
    lemma_not_end(s, "p"@, 0, 'p');
    lemma_not_end(s, "am"@, 1, 'm');
}

proof fn lemma_pm(n: Seq<char>)
    requires
        no_space(n),
    ensures
        crate::due::halved(crate::due::packed(n + "pm"@)) == (n, Some(true)),
{
    reveal_strlit("pm");
    lemma_no_space(n, "pm"@);
    lemma_packed(n + "pm"@);
    lemma_end(n, "pm"@);
}

proof fn lemma_p(n: Seq<char>)
    requires
        no_space(n),
        n.len() > 0,
    ensures
        crate::due::halved(crate::due::packed(n + "p"@)) == (n, Some(true)),
{
    reveal_strlit("pm");
    reveal_strlit("p");
    let s = n + "p"@;
    lemma_no_space(n, "p"@);
    lemma_packed(s);
    lemma_end(n, "p"@);
    lemma_not_end(s, "pm"@, 1, 'm');
}

/// An hour alone is that hour.
proof fn lemma_clock_hour(s: Seq<char>, b: Seq<char>, pm: Option<bool>, h: nat)
    requires
        h < 100,
        b == decimal(h),
        crate::due::halved(crate::due::packed(s)) == (b, pm),
    ensures
        crate::due::clock(s) == (match crate::due::hour_of(h, pm) {
            Some(x) => if x < 24 {
                Some(Time { secs: (x * 3600) as u32 })
            } else {
                None
            },
            None => None,
        }),
{
    lemma_hour(h);
}

/// An hour and a minute are that time of the day, where the day has it; an
/// hour alone is on the hour.
pub proof fn hours_and_minutes(t: &str, h: nat, m: nat, r: Option<Time>)
    requires
        h < 100,
        m <= u32::MAX,
        call_ensures(read_time, (t,), r),
    ensures
        t@ == decimal(h) + ":"@ + decimal(m) || t@ == decimal(h) + "."@ + decimal(m) ==> r == (if h
            < 24 && m < 60 {
            Some(Time { secs: (h * 3600 + m * 60) as u32 })
        } else {
            None
        }),
        t@ == decimal(h) ==> r == (if h < 24 {
            Some(Time { secs: (h * 3600) as u32 })
        } else {
            None
        }),
{
    reveal_strlit(":");
    reveal_strlit(".");
    assert(":"@ =~= seq![':'] && "."@ =~= seq!['.']);
    if t@ == decimal(h) + ":"@ + decimal(m) {
        lemma_clock_marked(t@, h, m, ':');
    } else if t@ == decimal(h) + "."@ + decimal(m) {
        lemma_clock_marked(t@, h, m, '.');
    }
    if t@ == decimal(h) {
        lemma_hour(h);
        let n = decimal(h);
        assert(crate::text::digit(n[n.len() - 1]));
        lemma_packed(n);
        lemma_no_half(n);
        lemma_clock_hour(t@, n, None, h);
    }
}

proof fn lemma_clock_marked(s: Seq<char>, h: nat, m: nat, c: char)
    requires
        h < 100,
        m <= u32::MAX,
        c == ':' || c == '.',
        s == decimal(h) + seq![c] + decimal(m),
    ensures
        crate::due::clock(s) == (if h < 24 && m < 60 {
            Some(Time { secs: (h * 3600 + m * 60) as u32 })
        } else {
            None
        }),
{
    lemma_hour(h);
    decimal_reads_back(m);
    decimal_round_trip(m, u32::MAX as nat);
    lemma_split(decimal(h), c, decimal(m));
}

proof fn lemma_split(n: Seq<char>, c: char, k: Seq<char>)
    requires
        crate::number::all_digits(n),
        crate::number::all_digits(k),
        k.len() > 0,
        c == ':' || c == '.',
    ensures
        ({
            let s = n + seq![c] + k;
            &&& crate::due::halved(crate::due::packed(s)) == (s, None::<bool>)
            &&& crate::due::hour_minute(s) == (n, Some(k))
        }),
{
    let s = n + seq![c] + k;
    assert(crate::due::halved(crate::due::packed(s)) == (s, None::<bool>)) by {
        lemma_digits(n);
        lemma_digits(k);
        lemma_no_space(n, seq![c]);
        lemma_no_space(n + seq![c], k);
        lemma_packed(s);
        assert(s.last() == k[k.len() - 1]);
        lemma_no_half(s);
    }
    lemma_minutes(n, c, k);
}

proof fn lemma_minutes(n: Seq<char>, c: char, k: Seq<char>)
    requires
        crate::number::all_digits(n),
        c == ':' || c == '.',
    ensures
        crate::due::hour_minute(n + seq![c] + k) == (n, Some(k)),
{
    let s = n + seq![c] + k;
    assert(crate::due::mark(s) == Some(n.len() as int)) by {
        assert forall|i: int| 0 <= i < n.len() implies crate::text::digit(#[trigger] s[i]) by {
            assert(crate::text::digit(n[i]));
            assert(s[i] == n[i]);
        }
        assert(s[n.len() as int] == c);
        lemma_mark(n, s);
    }
    assert(s.take(n.len() as int) =~= n);
    assert(s.skip(n.len() as int + 1) =~= k);
}

proof fn lemma_digits(n: Seq<char>)
    requires
        crate::number::all_digits(n),
    ensures
        no_space(n),
        n.len() > 0 ==> crate::text::digit(n[n.len() - 1]),
{
    assert forall|i: int| 0 <= i < n.len() implies #[trigger] n[i] != ' ' by {
        assert(crate::text::digit(n[i]));
    }
}

/// Times are read without the space around them, and in any case.
pub proof fn times_are_read_in_any_case(text: &str, t: &str, a: Option<Time>, b: Option<Time>)
    requires
        t@ == lowercase_text(trim(text@)),
        call_ensures(parse_time, (text,), a),
        call_ensures(read_time, (t,), b),
    ensures
        a == b,
{
}

/// The digits of an hour: no mark, no space, one or two of them.
proof fn lemma_hour(h: nat)
    requires
        h < 100,
    ensures
        1 <= decimal(h).len() <= 2,
        crate::number::all_digits(decimal(h)),
        no_space(decimal(h)),
        crate::due::mark(decimal(h)) is None,
        crate::number::reads_as(decimal(h), u32::MAX as nat) == Some(h),
{
    reveal_with_fuel(decimal, 3);
    decimal_reads_back(h);
    decimal_round_trip(h, u32::MAX as nat);
    lemma_no_mark(decimal(h));
    lemma_digits(decimal(h));
}

proof fn lemma_no_mark(s: Seq<char>)
    requires
        forall|i: int| 0 <= i < s.len() ==> crate::text::digit(#[trigger] s[i]),
    ensures
        crate::due::mark(s) is None,
    decreases s.len(),
{
    if s.len() > 0 {
        let t = s.skip(1);
        assert forall|i: int| 0 <= i < t.len() implies crate::text::digit(#[trigger] t[i]) by {
            assert(t[i] == s[i + 1]);
        }
        lemma_no_mark(t);
        assert(crate::text::digit(s[0]));
    }
}

proof fn lemma_mark(n: Seq<char>, s: Seq<char>)
    requires
        n.len() < s.len(),
        forall|i: int| 0 <= i < n.len() ==> crate::text::digit(#[trigger] s[i]),
        s[n.len() as int] == ':' || s[n.len() as int] == '.',
    ensures
        crate::due::mark(s) == Some(n.len() as int),
    decreases n.len(),
{
    if n.len() > 0 {
        let (m, t) = (n.skip(1), s.skip(1));
        assert forall|i: int| 0 <= i < m.len() implies crate::text::digit(#[trigger] t[i]) by {
            assert(t[i] == s[i + 1]);
        }
        lemma_mark(m, t);
        assert(crate::text::digit(s[0]));
    }
}

proof fn lemma_packed(s: Seq<char>)
    requires
        no_space(s),
    ensures
        crate::due::packed(s) == s,
    decreases s.len(),
{
    reveal(Seq::filter);
    if s.len() > 0 {
        lemma_packed(s.drop_last());
        assert(s.drop_last().push(s.last()) =~= s);
    } else {
        assert(crate::due::packed(s) =~= s);
    }
}

proof fn lemma_end(n: Seq<char>, e: Seq<char>)
    ensures
        ends_with(n + e, e),
        (n + e).take((n + e).len() - e.len()) == n,
{
    let s = n + e;
    assert(s.subrange(s.len() - e.len(), s.len() - e.len() + e.len()) =~= e);
    assert(s.take(s.len() - e.len()) =~= n);
}

proof fn lemma_not_end(s: Seq<char>, e: Seq<char>, k: int, c: char)
    requires
        0 <= k < e.len() <= s.len(),
        e[k] == c,
        s[s.len() - e.len() + k] != c,
    ensures
        !ends_with(s, e),
{
    if ends_with(s, e) {
        let i = s.len() - e.len();
        assert(s.subrange(i, i + e.len())[k] == s[i + k]);
    }
}

/// A text that ends with a digit is neither before nor after noon.
proof fn lemma_no_half(s: Seq<char>)
    requires
        s.len() > 0,
        crate::text::digit(s.last()),
    ensures
        crate::due::halved(s) == (s, None::<bool>),
{
    reveal_strlit("am");
    reveal_strlit("pm");
    reveal_strlit("a");
    reveal_strlit("p");
    if s.len() >= 2 {
        lemma_not_end(s, "pm"@, 1, 'm');
        lemma_not_end(s, "am"@, 1, 'm');
    }
    lemma_not_end(s, "p"@, 0, 'p');
    lemma_not_end(s, "a"@, 0, 'a');
}

// -- reminders ----------------------------------------------------------------------------------

/// How long something is, is said in the largest unit that goes into it: in
/// weeks, days or hours when it is a whole number of them, else in minutes or
/// in hours and minutes.
pub proof fn lengths_are_said_in_units(secs: i64, r: String)
    requires
        call_ensures(span, (secs,), r),
    ensures
        ({
            let m = (if secs < 0 {
                -secs
            } else {
                secs as int
            }) / 60;
            &&& m == 10080 ==> r@ == "1 week"@
            &&& m > 10080 && m % 10080 == 0 ==> r@ == decimal((m / 10080) as nat) + " weeks"@
            &&& m == 1440 ==> r@ == "1 day"@
            &&& m > 1440 && m % 1440 == 0 && m % 10080 != 0 ==> r@ == decimal((m / 1440) as nat)
                + " days"@
            &&& m >= 60 && m % 60 == 0 && m % 1440 != 0 ==> r@ == decimal((m / 60) as nat) + " h"@
            &&& m > 60 && m % 60 != 0 ==> r@ == decimal((m / 60) as nat) + " h "@ + decimal(
                (m % 60) as nat,
            ) + " min"@
            &&& m < 60 ==> r@ == decimal(m as nat) + " min"@
        }),
{
    reveal_strlit("1 ");
    reveal_strlit("week");
    reveal_strlit("day");
    reveal_strlit("1 week");
    reveal_strlit("1 day");
    reveal_strlit(" ");
    reveal_strlit("s");
    reveal_strlit(" weeks");
    reveal_strlit(" days");
    let m = (if secs < 0 {
        -secs
    } else {
        secs as int
    }) / 60;
    assert("1 "@ + "week"@ =~= "1 week"@);
    assert("1 "@ + "day"@ =~= "1 day"@);
    if m > 10080 && m % 10080 == 0 {
        let n = decimal((m / 10080) as nat);
        assert(n + " "@ + "week"@ + "s"@ =~= n + " weeks"@);
    }
    if m > 1440 && m % 1440 == 0 && m % 10080 != 0 {
        let n = decimal((m / 1440) as nat);
        assert(n + " "@ + "day"@ + "s"@ =~= n + " days"@);
    }
}

/// A reminder is called by how long before or after the date it goes off, or
/// by its moment; at the due time it is called that.
pub proof fn reminders_have_their_names(g: &Trigger, task: &Task, label: &str, r: String)
    requires
        call_ensures(reminder_label, (g, task, label), r),
    ensures
        *g matches Trigger::Relative { offset, from_due } ==> {
            &&& offset == 0 && from_due ==> r@ == "At due time"@
            &&& offset == 0 && !from_due ==> r@ == "At start"@
            &&& offset < 0 ==> r@ == crate::remind::span_text(offset as int) + " before"@
            &&& offset > 0 ==> r@ == crate::remind::span_text(offset as int) + " after"@
        },
        *g matches Trigger::Absolute { at } ==> r@ == (if task.due matches Some(w) && w.timed && w.at
            == at {
            "At due time"@
        } else {
            crate::words::capital(label@)
        }),
{
    reveal_strlit("At ");
    reveal_strlit("due time");
    reveal_strlit("start");
    reveal_strlit("At due time");
    reveal_strlit("At start");
    assert("At due time"@ =~= "At "@ + "due time"@);
    assert("At start"@ =~= "At "@ + "start"@);
}

/// A reminder at a moment goes off then; one that counts from the date goes
/// off so long after its time, or after nine in the morning of a day without
/// one; and never without a date.
pub proof fn reminders_go_off(g: &Trigger, task: &Task, r: Option<Rings>)
    requires
        crate::remind::offset_fits(*g, *task),
        call_ensures(trigger_at, (g, task), r),
    ensures
        *g matches Trigger::Absolute { at } ==> r == Some(Rings::At(at)),
        *g matches Trigger::Relative { offset, from_due } ==> ({
            let from = if from_due || task.start is None {
                task.due
            } else {
                task.start
            };
            match from {
                None => r is None,
                Some(w) => if w.timed {
                    r matches Some(Rings::At(m)) && m.secs == w.at.secs + offset && m.nanos
                        == w.at.nanos
                } else {
                    r matches Some(Rings::After { date, time, offset: o }) && date == w.date
                        && time.secs == 9 * 3600 && o == offset
                },
            }
        }),
{
}

/// The reminders on offer say when they go off: so many minutes before a
/// time, at nine on the day or the day before, and two that need no date.
pub proof fn offers_say_when(task: &Task, now: &Now, nine: Moment, r: Vec<Offer>, i: int)
    requires
        now.at.nanos < 1000000000,
        now.wf(),
        (Moment { secs: (now.at.secs + 3600) as i64, nanos: now.at.nanos }).wf(),
        call_ensures(quick_reminders, (task, now, nine), r),
        0 <= i < r@.len(),
    ensures
        r@.len() == (match task.due {
            None => 2int,
            Some(w) => if w.timed {
                8
            } else {
                4
            },
        }),
        ({
            let (x, g) = (r@[i].text@, r@[i].trigger);
            let mins = |m: int| Trigger::Relative { offset: (-60 * m) as i64, from_due: true };
            let timed = task.due matches Some(w) && w.timed;
            let dated = task.due matches Some(w) && !w.timed;
            &&& timed && i == 0 ==> x == "At due time"@ && g == mins(0)
            &&& timed && i == 1 ==> x == "5 min before"@ && g == mins(5)
            &&& timed && i == 2 ==> x == "15 min before"@ && g == mins(15)
            &&& timed && i == 3 ==> x == "30 min before"@ && g == mins(30)
            &&& timed && i == 4 ==> x == "1 h before"@ && g == mins(60)
            &&& timed && i == 5 ==> x == "1 day before"@ && g == mins(1440)
            &&& dated && i == 0 ==> x == "On the day, 9am"@ && g == mins(0)
            &&& dated && i == 1 ==> x == "The day before, 9am"@ && g == mins(1440)
            &&& i == r@.len() - 2 ==> x == "In 1 hour"@ && g is Absolute
            &&& i == r@.len() - 1 ==> x == "Tomorrow, 9am"@ && g == (Trigger::Absolute { at: nine })
        }),
{
    let v = offers(r@);
    assert(v.len() == r@.len());
    assert(v[i] == r@[i]@);
}

/// A reminder is added once, after those there are; taking one away leaves
/// the others.
pub proof fn reminders_are_added_and_taken(
    v: &Vec<Trigger>,
    g: Trigger,
    a: Option<Vec<Trigger>>,
    b: Vec<Trigger>,
    x: Trigger,
)
    requires
        call_ensures(with_reminder, (v, g), a),
        call_ensures(without_reminder, (v, g), b),
    ensures
        a is None == v@.contains(g),
        a matches Some(w) ==> w@ == v@.push(g),
        b@.contains(x) == (v@.contains(x) && x != g),
{
    let p = crate::remind::other_than(g);
    if v@.contains(x) && x != g {
        let i = choose|i: int| 0 <= i < v@.len() && v@[i] == x;
        v@.lemma_filter_contains(p, i);
    }
    if b@.contains(x) {
        let k = choose|k: int| 0 <= k < b@.len() && b@[k] == x;
        v@.lemma_filter_pred(p, k);
        v@.lemma_filter_contains_rev(p, x);
    }
}

/// Reminders are listed as they go off, the earlier first.
pub proof fn reminders_are_in_order(v: Vec<Alarm>, r: Vec<Alarm>, i: int, j: int)
    requires
        call_ensures(in_order_of_ringing, (v,), r),
        0 <= i < j < r@.len(),
    ensures
        r@.to_multiset() == v@.to_multiset(),
        match (r@[i].at, r@[j].at) {
            (Some(a), Some(b)) => no_later(a, b),
            (Some(_), None) => false,
            _ => true,
        },
{
    let le = crate::remind::alarm_order();
    let s = v@;
    arranged_keeps_all(s, le);
    assert forall|a: Alarm, b: Alarm| s.contains(a) && s.contains(b) implies #[trigger] le(a, b)
        || le(b, a) by {
        crate::sorting::rank_orders(
            crate::remind::alarm_rank(a),
            crate::remind::alarm_rank(b),
            crate::remind::alarm_rank(a),
        );
    }
    assert forall|a: Alarm, b: Alarm, c: Alarm|
        s.contains(a) && s.contains(b) && s.contains(c) && #[trigger] le(a, b) && #[trigger] le(
            b,
            c,
        ) implies le(a, c) by {
        crate::sorting::rank_orders(
            crate::remind::alarm_rank(a),
            crate::remind::alarm_rank(b),
            crate::remind::alarm_rank(c),
        );
    }
    arranged_is_in_order(s, le);
    let (a, b) = (r@[i], r@[j]);
    assert(le(a, b));
    let (x, y) = (crate::remind::alarm_rank(a), crate::remind::alarm_rank(b));
    reveal_with_fuel(crate::sorting::rank_le, 4);
    assert(x.skip(1)[0] == x[1] && y.skip(1)[0] == y[1]);
    assert(x.skip(1).skip(1)[0] == x[2] && y.skip(1).skip(1)[0] == y[2]);
}

/// A reminder is offered unless one goes off at that moment already.
pub proof fn taken_moments_are_not_offered(at: Option<Moment>, v: &Vec<Alarm>, r: bool, i: int)
    requires
        call_ensures(is_offered, (at, v), r),
    ensures
        at is None ==> r,
        at is Some && 0 <= i < v@.len() && v@[i].at == at ==> !r,
        at is Some && (forall|k: int| 0 <= k < v@.len() ==> (#[trigger] v@[k]).at != at) ==> r,
{
}

/// A reminder is set for a time to come, and no other.
pub proof fn reminders_are_set_for_later(at: Option<Moment>, now: Moment, r: Typed)
    requires
        call_ensures(remind_at, (at, now), r),
    ensures
        at is None ==> r is NoTime,
        at matches Some(m) ==> (no_later(m, now) ==> r is Past) && (!no_later(m, now) ==> r
            == Typed::Remind(Trigger::Absolute { at: m })),
{
}

// -- the repeat editor --------------------------------------------------------------------------

/// A weekday that is switched on is among the days, and one that is switched
/// off is not; the others stay as they are.
pub proof fn days_are_switched(x: &mut Repeat, w: Weekday, on: bool, d: Weekday)
    requires
        call_ensures(Repeat::toggle_day, (x, w, on), ()),
    ensures
        final(x).days@.contains(w) == on,
        d != w ==> final(x).days@.contains(d) == old(x).days@.contains(d),
        final(x).freq == old(x).freq && final(x).interval == old(x).interval,
        final(x).end == old(x).end,
{
    let p = crate::schedule::not_day(w);
    let s = old(x).days@;
    let f = s.filter(p);
    if f.contains(w) {
        let k = choose|k: int| 0 <= k < f.len() && f[k] == w;
        s.lemma_filter_pred(p, k);
    }
    if on {
        assert(final(x).days@[f.len() as int] == w);
    }
    if d != w {
        if s.contains(d) {
            let i = choose|i: int| 0 <= i < s.len() && s[i] == d;
            s.lemma_filter_contains(p, i);
            let k = choose|k: int| 0 <= k < f.len() && f[k] == d;
            assert(final(x).days@[k] == d);
        }
        if final(x).days@.contains(d) {
            let k = choose|k: int| 0 <= k < final(x).days@.len() && final(x).days@[k] == d;
            assert(k < f.len());
            assert(f.contains(d));
            s.lemma_filter_contains_rev(p, d);
        }
    }
}

/// The unit chosen is the one the menu names at that place: days, weeks,
/// months and years; and an interval is at least one.
pub proof fn units_are_as_named(
    x: &mut Repeat,
    at: usize,
    y: &mut Repeat,
    n: i32,
    k: u32,
    w: [&'static str; 4],
)
    requires
        at < 4,
        call_ensures(Repeat::set_unit, (x, at), ()),
        call_ensures(Repeat::set_interval, (y, n), ()),
        call_ensures(unit_words, (k,), w),
    ensures
        w@[at as int]@ == "day"@ || w@[at as int]@ == "days"@ ==> final(x).freq == Freq::Daily,
        w@[at as int]@ == "week"@ || w@[at as int]@ == "weeks"@ ==> final(x).freq == Freq::Weekly,
        w@[at as int]@ == "month"@ || w@[at as int]@ == "months"@ ==> final(x).freq
            == Freq::Monthly,
        w@[at as int]@ == "year"@ || w@[at as int]@ == "years"@ ==> final(x).freq == Freq::Yearly,
        k == 1 ==> w@[at as int]@ == "day"@ || w@[at as int]@ == "week"@ || w@[at as int]@
            == "month"@ || w@[at as int]@ == "year"@,
        k != 1 ==> w@[at as int]@ == "days"@ || w@[at as int]@ == "weeks"@ || w@[at as int]@
            == "months"@ || w@[at as int]@ == "years"@,
        final(x).interval == old(x).interval && final(x).days == old(x).days,
        final(x).end == old(x).end,
        n >= 1 ==> final(y).interval == n,
        n < 1 ==> final(y).interval == 1,
        final(y).freq == old(y).freq && final(y).days == old(y).days && final(y).end == old(y).end,
{
    reveal_strlit("day");
    reveal_strlit("days");
    reveal_strlit("week");
    reveal_strlit("weeks");
    reveal_strlit("month");
    reveal_strlit("months");
    reveal_strlit("year");
    reveal_strlit("years");
    assert("day"@[0] == 'd' && "days"@[0] == 'd' && "week"@[0] == 'w' && "weeks"@[0] == 'w'
        && "month"@[0] == 'm' && "months"@[0] == 'm' && "year"@[0] == 'y' && "years"@[0] == 'y');
    assert(at == 0 || at == 1 || at == 2 || at == 3);
}

/// The end that is chosen is none, the date, or so many times, at least once;
/// and the fields start from the end that is set.
pub proof fn ends_are_as_chosen(
    until: Date,
    n: i32,
    a: End,
    b: End,
    c: End,
    end: End,
    today: Date,
    f: (EndChoice, Date, u32),
)
    requires
        today.wf(),
        today.ce + 30 <= crate::date::LAST_DAY,
        call_ensures(chosen_end, (EndChoice::Never, until, n), a),
        call_ensures(chosen_end, (EndChoice::On, until, n), b),
        call_ensures(chosen_end, (EndChoice::After, until, n), c),
        call_ensures(end_fields, (end, today), f),
    ensures
        a == End::Never && b == End::Until(until),
        n >= 1 ==> c == End::Count(n as u32),
        n < 1 ==> c == End::Count(1),
        end is Never ==> f.0 == EndChoice::Never,
        end matches End::Until(d) ==> f.0 == EndChoice::On && f.1.ce == d.ce,
        end matches End::Count(k) ==> f.0 == EndChoice::After && f.2 == k,
        !(end is Until) ==> f.1.ce == today.ce + 30,
        !(end is Count) ==> f.2 == 5,
{
}

/// Without a rule the editor starts from every week, on the weekday of the
/// date, or of today.
pub proof fn editing_starts_weekly(s: &Schedule, today: Date, r: Repeat)
    requires
        today.wf(),
        crate::task::when_wf(s.due),
        s.rrule is None,
        call_ensures(editor_start, (s, today), r),
    ensures
        r.freq == Freq::Weekly && r.interval == 1 && r.end == End::Never && r.days@.len() == 1,
        ({
            let n = match s.due {
                Some(w) => w.date.ce,
                None => today.ce,
            };
            r.days@[0].index() == (n - 1) % 7
        }),
{
}

// -- links --------------------------------------------------------------------------------------

/// A link that says how to open it is opened as it is; another is one to the
/// web. It is changed when it is another, and taken away when it is blank.
pub proof fn links_are_opened(
    t: &str,
    current: &Option<String>,
    a: String,
    c: Option<Option<String>>,
)
    requires
        call_ensures(link_address, (t,), a),
        call_ensures(link_change, (current, t), c),
    ensures
        a@ == trim(t@) || a@ == "https://"@ + trim(t@),
        crate::text::contains(trim(t@), "://"@) ==> a@ == trim(t@),
        crate::text::starts_with(trim(t@), "mailto:"@) ==> a@ == trim(t@),
        !crate::text::contains(trim(t@), "://"@) && !crate::text::starts_with(
            trim(t@),
            "mailto:"@,
        ) ==> a@ == "https://"@ + trim(t@),
        trim(t@).len() == 0 && current is None ==> c is None,
        trim(t@).len() == 0 && current is Some ==> c == Some(None::<String>),
        trim(t@).len() > 0 && (current matches Some(x) && x@ == trim(t@)) ==> c is None,
        trim(t@).len() > 0 && !(current matches Some(x) && x@ == trim(t@)) ==> (c matches Some(
            Some(x),
        ) && x@ == trim(t@)),
{
}

} // verus!
