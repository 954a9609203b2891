//! Reminders: what they are called, when they go off, and which ones a task
//! is offered.

use vstd::prelude::*;
use vstd::string::*;

use chrono::Timelike;

use crate::date::{Date, FIRST_DAY, LAST_DAY, Time};
use crate::number::{decimal, decimal_text, plural, plural_text};
use crate::sorting::{arrange_by, arranged, rank_le, ranks};
use crate::task::{Task, Trigger};
use crate::text::glue;
use crate::words::{capital, capitalize};
use crate::zone::{EPOCH_DAY, Moment, Now};

verus! {

// -- words --------------------------------------------------------------------------

pub open spec fn abs(n: int) -> nat {
    if n < 0 {
        (-n) as nat
    } else {
        n as nat
    }
}

/// `5 min`, `1 h`, `1 h 30 min`, `2 days`, `1 week`: whole minutes.
pub open spec fn span_text(secs: int) -> Seq<char> {
    let m = abs(secs) as int / 60;
    if m >= 10080 && m % 10080 == 0 {
        plural_text(m / 10080, "week"@)
    } else if m >= 1440 && m % 1440 == 0 {
        plural_text(m / 1440, "day"@)
    } else if m >= 60 && m % 60 == 0 {
        decimal((m / 60) as nat) + " h"@
    } else if m > 60 {
        decimal((m / 60) as nat) + " h "@ + decimal((m % 60) as nat) + " min"@
    } else {
        decimal(m as nat) + " min"@
    }
}

/// `5 min`, `1 h`, `1 h 30 min`, `2 days`, `1 week`: how long `secs` are,
/// either way.
pub fn span(secs: i64) -> (r: String)
    ensures
        r@ == span_text(secs as int),
{
    let size: u64 = if secs < 0 {
        (-(secs as i128)) as u64
    } else {
        secs as u64
    };
    let m: u64 = size / 60;
    if m >= 10080 && m % 10080 == 0 {
        plural((m / 10080) as i64, "week")
    } else if m >= 1440 && m % 1440 == 0 {
        plural((m / 1440) as i64, "day")
    } else if m >= 60 && m % 60 == 0 {
        glue(decimal_text(m / 60).as_str(), " h")
    } else if m > 60 {
        let mut s = glue(decimal_text(m / 60).as_str(), " h ");
        s.append(decimal_text(m % 60).as_str());
        s.append(" min");
        s
    } else {
        glue(decimal_text(m).as_str(), " min")
    }
}

/// What a reminder is called; `label` are the words for its moment, when it
/// has one.
pub open spec fn reminder_text(trigger: Trigger, task: Task, label: Seq<char>) -> Seq<char> {
    match trigger {
        Trigger::Absolute { at } => if task.due matches Some(d) && d.timed && d.at == at {
            "At due time"@
        } else {
            capital(label)
        },
        Trigger::Relative { offset, from_due } => if offset == 0 {
            "At "@ + (if from_due {
                "due time"@
            } else {
                "start"@
            })
        } else if offset < 0 {
            span_text(offset as int) + " before"@
        } else {
            span_text(offset as int) + " after"@
        },
    }
}

/// What a reminder is called; `label` are the words for its moment, when it
/// has one.
pub fn reminder_label(trigger: &Trigger, task: &Task, label: &str) -> (r: String)
    ensures
        r@ == reminder_text(*trigger, *task, label@),
{
    match *trigger {
        Trigger::Absolute { at } => {
            // What iOS and asst write for "when it's due".
            let is_due: bool = match task.due {
                Some(d) => d.timed && d.at == at,
                None => false,
            };
            if is_due {
                String::from_str("At due time")
            } else {
                capitalize(label)
            }
        },
        Trigger::Relative { offset, from_due } => {
            let what = if from_due {
                "due time"
            } else {
                "start"
            };
            if offset == 0 {
                glue("At ", what)
            } else if offset < 0 {
                glue(span(offset).as_str(), " before")
            } else {
                glue(span(offset).as_str(), " after")
            }
        },
    }
}

// -- when they go off -----------------------------------------------------------------

/// When a reminder goes off: at a moment, or so many seconds after a time by
/// the clocks of the user's zone.
#[derive(Debug, Clone, Copy, PartialEq, Eq, Structural)]
pub enum Rings {
    At(Moment),
    After { date: Date, time: Time, offset: i64 },
}

/// Nine in the morning, in seconds after midnight.
pub const NINE: u32 = 32400;

/// When a trigger goes off; never when it counts from a date that is not set.
pub open spec fn rings(trigger: Trigger, task: Task) -> Option<Rings> {
    match trigger {
        Trigger::Absolute { at } => Some(Rings::At(at)),
        Trigger::Relative { offset, from_due } => {
            let base = if from_due || task.start is None {
                task.due
            } else {
                task.start
            };
            match base {
                None => None,
                Some(w) => if w.timed {
                    Some(Rings::At(Moment { secs: (w.at.secs + offset) as i64, nanos: w.at.nanos }))
                } else {
                    Some(Rings::After { date: w.date, time: Time { secs: NINE }, offset })
                },
            }
        },
    }
}

/// The offset does not lead out of what a moment can hold.
pub open spec fn offset_fits(trigger: Trigger, task: Task) -> bool {
    trigger matches Trigger::Relative { offset, from_due } ==> {
        &&& task.due matches Some(w) ==> i64::MIN <= w.at.secs + offset <= i64::MAX
        &&& task.start matches Some(w) ==> i64::MIN <= w.at.secs + offset <= i64::MAX
    }
}

/// When a trigger goes off, for ordering and for "already past".
pub fn trigger_at(trigger: &Trigger, task: &Task) -> (r: Option<Rings>)
    requires
        offset_fits(*trigger, *task),
    ensures
        r == rings(*trigger, *task),
{
    match *trigger {
        Trigger::Absolute { at } => Some(Rings::At(at)),
        Trigger::Relative { offset, from_due } => {
            let base = if from_due || task.start.is_none() {
                task.due
            } else {
                task.start
            };
            match base {
                None => None,
                Some(w) => if w.timed {
                    Some(Rings::At(Moment { secs: w.at.secs + offset, nanos: w.at.nanos }))
                } else {
                    // iOS rings an all-day reminder's relative alarms from 9:00.
                    Some(Rings::After { date: w.date, time: Time { secs: NINE }, offset })
                },
            }
        },
    }
}

// -- the reminders of a task ------------------------------------------------------------

/// A reminder with the moment it goes off.
#[derive(Debug, Clone, Copy, PartialEq, Eq, Structural)]
pub struct Alarm {
    pub trigger: Trigger,
    pub at: Option<Moment>,
}

pub open spec fn alarm_rank(a: Alarm) -> Seq<i64> {
    crate::arrange::moment_rank(a.at)
}

/// Alarms that never go off first, then by when they do.
pub open spec fn alarm_order() -> spec_fn(Alarm, Alarm) -> bool {
    |a: Alarm, b: Alarm| rank_le(alarm_rank(a), alarm_rank(b))
}

fn rank_of(a: &Alarm) -> (r: Vec<i64>)
    ensures
        r@ == alarm_rank(*a),
{
    match a.at {
        None => vec![0, 0, 0],
        Some(m) => vec![1, m.secs, m.nanos as i64],
    }
}

/// Reminders in the order they go off.
pub fn in_order_of_ringing(alarms: Vec<Alarm>) -> (r: Vec<Alarm>)
    ensures
        r@ == arranged(alarms@, alarm_order()),
{
    let f = |a: &Alarm, b: &Alarm| -> (r: bool)
        ensures
            r == alarm_order()(*a, *b),
        { ranks(&rank_of(a), &rank_of(b)) };
    arrange_by(alarms, &f, Ghost(alarm_order()))
}

/// The reminders with one more, unless it is among them.
pub fn with_reminder(triggers: &Vec<Trigger>, t: Trigger) -> (r: Option<Vec<Trigger>>)
    ensures
        match r {
            Some(v) => !triggers@.contains(t) && v@ == triggers@.push(t),
            None => triggers@.contains(t),
        },
{
    let mut v: Vec<Trigger> = Vec::new();
    for i in 0..triggers.len()
        invariant
            v@ == triggers@.take(i as int),
            forall|j: int| 0 <= j < i ==> triggers@[j] != t,
    {
        if triggers[i] == t {
            return None;
        }
        v.push(triggers[i]);
    }
    assert(triggers@.take(triggers@.len() as int) == triggers@);
    v.push(t);
    Some(v)
}

pub open spec fn other_than(t: Trigger) -> spec_fn(Trigger) -> bool {
    |x: Trigger| x != t
}

/// The reminders without one of them.
pub fn without_reminder(triggers: &Vec<Trigger>, t: Trigger) -> (r: Vec<Trigger>)
    ensures
        r@ == triggers@.filter(other_than(t)),
{
    let mut v: Vec<Trigger> = Vec::new();
    proof {
        reveal(Seq::filter);
        assert(v@ == triggers@.take(0).filter(other_than(t)));
    }
    for i in 0..triggers.len()
        invariant
            v@ == triggers@.take(i as int).filter(other_than(t)),
    {
        proof {
            reveal(Seq::filter);
            assert(triggers@.take(i + 1).drop_last() == triggers@.take(i as int));
            assert(triggers@.take(i + 1).last() == triggers@[i as int]);
        }
        if triggers[i] != t {
            v.push(triggers[i]);
        }
    }
    assert(triggers@.take(triggers@.len() as int) == triggers@);
    v
}

/// Taking away a reminder that was just added leaves the others.
pub proof fn remove_undoes_add(triggers: Seq<Trigger>, t: Trigger)
    requires
        !triggers.contains(t),
    ensures
        triggers.push(t).filter(other_than(t)) == triggers,
{
    reveal(Seq::filter);
    assert(triggers.push(t).drop_last() == triggers);
    lemma_filter_keeps(triggers, t);
}

proof fn lemma_filter_keeps(s: Seq<Trigger>, t: Trigger)
    requires
        !s.contains(t),
    ensures
        s.filter(other_than(t)) == s,
    decreases s.len(),
{
    reveal(Seq::filter);
    if s.len() > 0 {
        let u = s.drop_last();
        assert forall|i: int| 0 <= i < u.len() implies u[i] != t by {
            assert(u[i] == s[i]);
        }
        lemma_filter_keeps(u, t);
        assert(s.last() == s[s.len() - 1]);
        assert(u.push(s.last()) == s);
    }
}

// -- the ones on offer --------------------------------------------------------------------

/// A moment on a day that the calendar has.
pub open spec fn on_calendar(at: Moment) -> bool {
    FIRST_DAY - EPOCH_DAY <= at.secs as int / 86400 <= LAST_DAY - EPOCH_DAY
}

/// A moment with the seconds that a zone's clocks show set to a number, as
/// seconds since 1970 and nanoseconds past them.
pub uninterp spec fn second_set(zone: Seq<char>, secs: int, nanos: int, second: int) -> Option<
    (int, int),
>;

/// `DateTime::with_second` on the moment in the zone. It gives none for a
/// number that is no second, and when the zone's clocks show the time twice
/// or not at all. The nanoseconds stay, and what it gives is on a day that
/// the calendar has.
#[verifier::external_body]
fn chrono_with_second(zone: &str, at: Moment, second: u32) -> (r: Option<Moment>)
    requires
        crate::zone::zone_known(zone@),
        on_calendar(at),
        at.nanos < 1000000000,
    ensures
        match r {
            Some(m) => {
                &&& second_set(zone@, at.secs as int, at.nanos as int, second as int) == Some(
                    (m.secs as int, m.nanos as int),
                )
                &&& m.nanos == at.nanos
                &&& on_calendar(m)
            },
            None => second_set(zone@, at.secs as int, at.nanos as int, second as int) is None,
        },
{
    let tz: chrono_tz::Tz = zone.parse().expect("a known zone");
    let utc = chrono::DateTime::from_timestamp(at.secs, at.nanos).expect("a moment in range");
    let set = utc.with_timezone(&tz).with_second(second);
    set.map(|t| Moment { secs: t.timestamp(), nanos: t.timestamp_subsec_nanos() })
}

/// A moment with its nanoseconds set to a number, by a zone's clocks, as
/// seconds since 1970 and nanoseconds past them.
pub uninterp spec fn nanos_set(zone: Seq<char>, secs: int, nanos: int, nano: int) -> Option<
    (int, int),
>;

/// `DateTime::with_nanosecond` on the moment in the zone. It gives none for
/// a number of two seconds or more, and when the zone's clocks show the time
/// twice or not at all.
#[verifier::external_body]
fn chrono_with_nanosecond(zone: &str, at: Moment, nano: u32) -> (r: Option<Moment>)
    requires
        crate::zone::zone_known(zone@),
        on_calendar(at),
        at.nanos < 1000000000,
    ensures
        match r {
            Some(m) => {
                &&& nanos_set(zone@, at.secs as int, at.nanos as int, nano as int) == Some(
                    (m.secs as int, m.nanos as int),
                )
                &&& m.nanos == nano
            },
            None => nanos_set(zone@, at.secs as int, at.nanos as int, nano as int) is None,
        },
{
    let tz: chrono_tz::Tz = zone.parse().expect("a known zone");
    let utc = chrono::DateTime::from_timestamp(at.secs, at.nanos).expect("a moment in range");
    let set = utc.with_timezone(&tz).with_nanosecond(nano);
    set.map(|t| Moment { secs: t.timestamp(), nanos: t.timestamp_subsec_nanos() })
}

/// The start of the minute that a moment is in by a zone's clocks: its
/// seconds set to nothing, then what is past them. The moment itself where
/// one of the two has no result.
pub open spec fn on_the_minute(at: Moment, zone: Seq<char>) -> Moment {
    match second_set(zone, at.secs as int, at.nanos as int, 0) {
        Some((s, n)) => match nanos_set(zone, s, n, 0) {
            Some((secs, nanos)) => Moment { secs: secs as i64, nanos: nanos as u32 },
            None => at,
        },
        None => at,
    }
}

/// An hour from `at`, on the minute where the clocks have it once.
pub open spec fn hour_later(at: Moment, zone: Seq<char>) -> Moment {
    on_the_minute(Moment { secs: (at.secs + 3600) as i64, nanos: at.nanos }, zone)
}

/// An hour from now, on the minute.
fn in_an_hour(now: &Now) -> (r: Moment)
    requires
        now.at.nanos < 1000000000,
        now.wf(),
        (Moment { secs: (now.at.secs + 3600) as i64, nanos: now.at.nanos }).wf(),
    ensures
        r == hour_later(now.at, now.zone@),
{
    let at = Moment { secs: now.at.secs + 3600, nanos: now.at.nanos };
    let zone = now.zone.name();
    match chrono_with_second(zone, at, 0) {
        Some(minute) => match chrono_with_nanosecond(zone, minute, 0) {
            Some(m) => m,
            None => at,
        },
        None => at,
    }
}

/// A reminder on offer, with the words for it.
#[derive(Debug, Clone, Copy)]
pub struct Offer {
    pub text: &'static str,
    pub trigger: Trigger,
}

pub struct OfferView {
    pub text: Seq<char>,
    pub trigger: Trigger,
}

impl View for Offer {
    type V = OfferView;

    open spec fn view(&self) -> OfferView {
        OfferView { text: self.text@, trigger: self.trigger }
    }
}

pub open spec fn offers(v: Seq<Offer>) -> Seq<OfferView> {
    v.map_values(|o: Offer| o@)
}

pub open spec fn before_due(text: Seq<char>, mins: int) -> OfferView {
    OfferView {
        text,
        trigger: Trigger::Relative { offset: (-mins * 60) as i64, from_due: true },
    }
}

/// The reminders a task is offered: by its due time, by its day, and two that
/// need neither. `nine` is nine o'clock tomorrow.
pub open spec fn on_offer(task: Task, now: Moment, zone: Seq<char>, nine: Moment) -> Seq<
    OfferView,
> {
    (match task.due {
        Some(w) => if w.timed {
            seq![
                before_due("At due time"@, 0),
                before_due("5 min before"@, 5),
                before_due("15 min before"@, 15),
                before_due("30 min before"@, 30),
                before_due("1 h before"@, 60),
                before_due("1 day before"@, 1440),
            ]
        } else {
            seq![before_due("On the day, 9am"@, 0), before_due("The day before, 9am"@, 1440)]
        },
        None => Seq::empty(),
    }) + seq![
        OfferView {
            text: "In 1 hour"@,
            trigger: Trigger::Absolute { at: hour_later(now, zone) },
        },
        OfferView { text: "Tomorrow, 9am"@, trigger: Trigger::Absolute { at: nine } },
    ]
}

fn due_offer(text: &'static str, mins: i64) -> (r: Offer)
    requires
        0 <= mins <= 10000,
    ensures
        r@ == before_due(text@, mins as int),
{
    Offer { text, trigger: Trigger::Relative { offset: -mins * 60, from_due: true } }
}

/// The reminders a task is offered. `nine` is nine o'clock tomorrow.
pub fn quick_reminders(task: &Task, now: &Now, nine: Moment) -> (r: Vec<Offer>)
    requires
        now.at.nanos < 1000000000,
        now.wf(),
        (Moment { secs: (now.at.secs + 3600) as i64, nanos: now.at.nanos }).wf(),
    ensures
        offers(r@) == on_offer(*task, now.at, now.zone@, nine),
{
    let mut quick: Vec<Offer> = Vec::new();
    match task.due {
        Some(w) => if w.timed {
            quick.push(due_offer("At due time", 0));
            quick.push(due_offer("5 min before", 5));
            quick.push(due_offer("15 min before", 15));
            quick.push(due_offer("30 min before", 30));
            quick.push(due_offer("1 h before", 60));
            quick.push(due_offer("1 day before", 1440));
        } else {
            quick.push(due_offer("On the day, 9am", 0));
            quick.push(due_offer("The day before, 9am", 1440));
        },
        None => {},
    }
    let at = in_an_hour(now);
    quick.push(Offer { text: "In 1 hour", trigger: Trigger::Absolute { at } });
    quick.push(Offer { text: "Tomorrow, 9am", trigger: Trigger::Absolute { at: nine } });
    assert(offers(quick@) =~= on_offer(*task, now.at, now.zone@, nine));
    quick
}

/// A moment that an alarm already has.
pub open spec fn taken(alarms: Seq<Alarm>, at: Option<Moment>) -> bool {
    at is Some && exists|i: int| 0 <= i < alarms.len() && (#[trigger] alarms[i]).at == at
}

/// Whether a reminder is shown among those on offer: not when one already
/// goes off then.
pub fn is_offered(at: Option<Moment>, alarms: &Vec<Alarm>) -> (r: bool)
    ensures
        r == !taken(alarms@, at),
{
    if at.is_none() {
        return true;
    }
    for i in 0..alarms.len()
        invariant
            at is Some,
            forall|j: int| 0 <= j < i ==> (#[trigger] alarms@[j]).at != at,
    {
        let same: bool = match (alarms[i].at, at) {
            (Some(a), Some(b)) => a == b,
            _ => false,
        };
        if same {
            return false;
        }
    }
    true
}

// -- a reminder at a chosen time ------------------------------------------------------------

/// What a time typed for a reminder comes to.
#[derive(Debug, Clone, Copy, PartialEq, Eq, Structural)]
pub enum Typed {
    /// Not a time.
    NoTime,
    /// A time that has passed.
    Past,
    Remind(Trigger),
}

impl Typed {
    pub open spec fn complaint(self) -> Option<Seq<char>> {
        match self {
            Typed::NoTime => Some("Try 9am or 17:30"@),
            Typed::Past => Some("Choose a time in the future"@),
            Typed::Remind(_) => None,
        }
    }

    /// What is said when it cannot be set.
    pub fn error(self) -> (r: Option<&'static str>)
        ensures
            match r {
                Some(t) => self.complaint() == Some(t@),
                None => self.complaint() is None,
            },
    {
        match self {
            Typed::NoTime => Some("Try 9am or 17:30"),
            Typed::Past => Some("Choose a time in the future"),
            Typed::Remind(_) => None,
        }
    }
}

/// The reminder for a moment that was typed and found; it has to be in the
/// future.
pub fn remind_at(at: Option<Moment>, now: Moment) -> (r: Typed)
    ensures
        r == (match at {
            None => Typed::NoTime,
            Some(m) => if m.up_to(now) {
                Typed::Past
            } else {
                Typed::Remind(Trigger::Absolute { at: m })
            },
        }),
{
    match at {
        None => Typed::NoTime,
        Some(m) => if m.is_up_to(now) {
            Typed::Past
        } else {
            Typed::Remind(Trigger::Absolute { at: m })
        },
    }
}

} // verus!
