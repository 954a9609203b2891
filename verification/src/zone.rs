//! Moments, and the day and the time they are in a time zone.

use vstd::prelude::*;
use vstd::string::*;

use chrono::Offset;

use crate::date::{Date, FIRST_DAY, LAST_DAY, Time};

verus! {

/// The number of January 1, 1970, where moments are counted from.
pub const EPOCH_DAY: i64 = 719163;

// -- what chrono-tz does ----------------------------------------------------------

/// A name that the time zone database has.
pub uninterp spec fn zone_known(name: Seq<char>) -> bool;

/// `Tz::from_str` finds the zone.
#[verifier::external_body]
fn chrono_knows(name: &str) -> (r: bool)
    ensures
        r == zone_known(name@),
{
    name.parse::<chrono_tz::Tz>().is_ok()
}

/// How many seconds a zone's clocks are ahead of UTC at a moment, given in
/// seconds since 1970.
pub uninterp spec fn utc_offset(zone: Seq<char>, secs: int) -> int;

/// `DateTime::with_timezone`, and the offset it then has: less than a day
/// either way.
#[verifier::external_body]
fn chrono_offset(zone: &str, secs: i64) -> (r: i32)
    requires
        zone_known(zone@),
        FIRST_DAY - EPOCH_DAY < secs / 86400 < LAST_DAY - EPOCH_DAY,
    ensures
        r == utc_offset(zone@, secs as int),
        -86400 < r < 86400,
{
    let tz: chrono_tz::Tz = zone.parse().expect("a known zone");
    let at = chrono::DateTime::from_timestamp(secs, 0).expect("a moment in range");
    at.with_timezone(&tz).offset().fix().local_minus_utc()
}

// -- moments ------------------------------------------------------------------------

/// A point in time: seconds since 1970 in UTC, and nanoseconds past them.
#[derive(Debug, Clone, Copy, PartialEq, Eq, PartialOrd, Ord, Hash, Structural)]
pub struct Moment {
    pub secs: i64,
    pub nanos: u32,
}

impl Moment {
    /// A moment on a day that the calendar has, in every zone.
    pub open spec fn wf(self) -> bool {
        FIRST_DAY - EPOCH_DAY < self.secs as int / 86400 < LAST_DAY - EPOCH_DAY
    }

    /// Whether it is one.
    pub fn in_range(self) -> (r: bool)
        ensures
            r == self.wf(),
    {
        (FIRST_DAY as i64 + 1 - EPOCH_DAY) * 86400 <= self.secs && self.secs < (LAST_DAY as i64
            - EPOCH_DAY) * 86400
    }

    /// `self` is no later than `other`.
    pub open spec fn up_to(self, other: Moment) -> bool {
        self.secs < other.secs || (self.secs == other.secs && self.nanos <= other.nanos)
    }

    /// Whether it is no later than `other`.
    pub fn is_up_to(self, other: Moment) -> (r: bool)
        ensures
            r == self.up_to(other),
    {
        self.secs < other.secs || (self.secs == other.secs && self.nanos <= other.nanos)
    }

    /// Whole seconds from `self` to `now`, and none when `now` comes first.
    pub open spec fn secs_until(self, now: Moment) -> int {
        let d = now.secs - self.secs - (if now.nanos < self.nanos {
            1int
        } else {
            0
        });
        if d < 0 {
            0
        } else {
            d
        }
    }

    /// Whole seconds from `self` to `now`, and none when `now` comes first.
    pub fn elapsed(self, now: Moment) -> (r: i64)
        requires
            self.wf(),
            now.wf(),
        ensures
            r == self.secs_until(now),
            0 <= r,
    {
        let d: i64 = now.secs - self.secs;
        let whole: i64 = if now.nanos < self.nanos {
            d - 1
        } else {
            d
        };
        if whole < 0 {
            0
        } else {
            whole
        }
    }
}

// -- zones --------------------------------------------------------------------------

/// A time zone of the database, by its name.
#[derive(Debug)]
pub struct Zone {
    name: String,
}

impl View for Zone {
    type V = Seq<char>;

    closed spec fn view(&self) -> Seq<char> {
        self.name@
    }
}

impl Zone {
    #[verifier::type_invariant]
    closed spec fn known(&self) -> bool {
        zone_known(self.name@)
    }

    /// The zone of that name, where the database has one.
    pub fn named(name: &str) -> (r: Option<Zone>)
        ensures
            r is Some == zone_known(name@),
            r matches Some(z) ==> z@ == name@,
    {
        if chrono_knows(name) {
            Some(Zone { name: String::from_str(name) })
        } else {
            None
        }
    }

    /// Its name, which the database has.
    pub fn name(&self) -> (r: &str)
        ensures
            r@ == self@,
            zone_known(r@),
    {
        proof {
            use_type_invariant(self);
        }
        self.name.as_str()
    }

    pub fn copy(&self) -> (r: Zone)
        ensures
            r@ == self@,
    {
        proof {
            use_type_invariant(self);
        }
        Zone { name: self.name.clone() }
    }
}

/// Seconds since 1970 as the clocks of a zone have them.
pub open spec fn local_secs(secs: int, zone: Seq<char>) -> int {
    secs + utc_offset(zone, secs)
}

/// The number of the day that a moment is on in a zone.
pub open spec fn day_at(at: Moment, zone: Seq<char>) -> int {
    local_secs(at.secs as int, zone) / 86400 + EPOCH_DAY
}

/// The time of day of a moment in a zone, in seconds after midnight.
pub open spec fn time_at(at: Moment, zone: Seq<char>) -> int {
    local_secs(at.secs as int, zone) % 86400
}

/// The day and the time of day of a moment in a zone.
pub fn local(at: Moment, zone: &Zone) -> (r: (Date, Time))
    requires
        at.wf(),
    ensures
        r.0.ce == day_at(at, zone@),
        r.1.secs == time_at(at, zone@),
        r.0.wf(),
        r.1.wf(),
{
    proof {
        use_type_invariant(zone);
    }
    let o: i64 = chrono_offset(zone.name.as_str(), at.secs) as i64;
    let n: i64 = at.secs + o;
    // Counted from a day long before the first, so that it is never negative.
    let m: i64 = n + 86400 * 100000000;
    assert(m / 86400 == n as int / 86400 + 100000000);
    assert(m % 86400 == n as int % 86400);
    let day: i64 = m / 86400 - 100000000 + EPOCH_DAY;
    (Date { ce: day as i32 }, Time { secs: (m % 86400) as u32 })
}

pub fn local_day(at: Moment, zone: &Zone) -> (r: Date)
    requires
        at.wf(),
    ensures
        r.ce == day_at(at, zone@),
        r.wf(),
{
    local(at, zone).0
}

/// The present: a moment, and the zone it is lived in.
#[derive(Debug)]
pub struct Now {
    pub at: Moment,
    pub zone: Zone,
}

impl Now {
    pub open spec fn wf(&self) -> bool {
        self.at.wf()
    }

    /// The number of today.
    pub open spec fn day(&self) -> int {
        day_at(self.at, self.zone@)
    }

    pub fn today(&self) -> (r: Date)
        requires
            self.wf(),
        ensures
            r.ce == self.day(),
            r.wf(),
    {
        local_day(self.at, &self.zone)
    }
}

} // verus!
