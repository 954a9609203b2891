//! Days of the proleptic Gregorian calendar, numbered from January 1 of the
//! year 1, times of day, and the words for them.

use vstd::prelude::*;
use vstd::string::*;

use chrono::Datelike;

use crate::number::decimal;

verus! {

/// The first day there is: January 1, 262144 BCE.
pub const FIRST_DAY: i32 = -95746129;

/// The last day there is: December 31, 262142.
pub const LAST_DAY: i32 = 95745399;

// -- the calendar -------------------------------------------------------------

pub open spec fn leap(y: int) -> bool {
    y % 4 == 0 && (y % 100 != 0 || y % 400 == 0)
}

/// The days before January 1 of a year, from the year 1 on.
pub open spec fn days_before_year(y: int) -> int {
    365 * (y - 1) + (y - 1) / 4 - (y - 1) / 100 + (y - 1) / 400
}

pub open spec fn month_days(y: int, m: int) -> int {
    if m == 2 {
        if leap(y) {
            29
        } else {
            28
        }
    } else if m == 4 || m == 6 || m == 9 || m == 11 {
        30
    } else {
        31
    }
}

/// The days of a year before a month of it.
pub open spec fn days_before_month(y: int, m: int) -> int
    decreases m,
{
    if m <= 1 {
        0
    } else {
        days_before_month(y, m - 1) + month_days(y, m - 1)
    }
}

pub open spec fn valid_ymd(y: int, m: int, d: int) -> bool {
    -262143 <= y <= 262142 && 1 <= m <= 12 && 1 <= d <= month_days(y, m)
}

/// The number of a day: January 1 of the year 1 is day 1.
pub open spec fn day_number(y: int, m: int, d: int) -> int {
    days_before_year(y) + days_before_month(y, m) + d
}

/// Day `n` is the `d`th of month `m` of year `y`.
pub open spec fn is_civil(n: int, y: int, m: int, d: int) -> bool {
    valid_ymd(y, m, d) && day_number(y, m, d) == n
}

/// Year, month and day of the month of day `n`.
pub open spec fn civil(n: int) -> (int, int, int) {
    choose|c: (int, int, int)| is_civil(n, c.0, c.1, c.2)
}

pub open spec fn year_of(n: int) -> int {
    civil(n).0
}

pub open spec fn month_of(n: int) -> int {
    civil(n).1
}

pub open spec fn day_of(n: int) -> int {
    civil(n).2
}

/// Days from Monday: 0 for Monday to 6 for Sunday.
pub open spec fn weekday_of(n: int) -> int {
    (n - 1) % 7
}

pub(crate) proof fn lemma_months(y: int, m: int)
    requires
        1 <= m <= 12,
    ensures
        0 <= days_before_month(y, m),
        days_before_month(y, m) + month_days(y, m) <= if leap(y) {
            366int
        } else {
            365
        },
        m == 12 ==> days_before_month(y, m) + 31 == if leap(y) {
            366int
        } else {
            365
        },
{
    reveal_with_fuel(days_before_month, 13);
}

proof fn lemma_month_step(y: int, m: int, n: int)
    requires
        1 <= m < n <= 12,
    ensures
        days_before_month(y, m) + month_days(y, m) <= days_before_month(y, n),
{
    reveal_with_fuel(days_before_month, 13);
}

proof fn lemma_year_step(y: int, z: int)
    requires
        y < z,
    ensures
        days_before_year(y) + (if leap(y) {
            366int
        } else {
            365
        }) <= days_before_year(z),
    decreases z - y,
{
    if y + 1 < z {
        lemma_year_step(y, z - 1);
        lemma_one_year(z - 1);
    } else {
        lemma_one_year(y);
    }
}

proof fn lemma_fours(p: int)
    ensures
        (p + 1) / 4 == p / 4 + (if (p + 1) % 4 == 0 {
            1int
        } else {
            0
        }),
{
}

proof fn lemma_hundreds(p: int)
    ensures
        (p + 1) / 100 == p / 100 + (if (p + 1) % 100 == 0 {
            1int
        } else {
            0
        }),
{
}

proof fn lemma_four_hundreds(p: int)
    ensures
        (p + 1) / 400 == p / 400 + (if (p + 1) % 400 == 0 {
            1int
        } else {
            0
        }),
{
}

pub(crate) proof fn lemma_centuries(y: int)
    ensures
        y % 100 == 0 ==> y % 4 == 0,
        y % 400 == 0 ==> y % 100 == 0,
{
}

pub(crate) proof fn lemma_one_year(y: int)
    ensures
        days_before_year(y + 1) == days_before_year(y) + (if leap(y) {
            366int
        } else {
            365
        }),
{
    lemma_fours(y - 1);
    lemma_hundreds(y - 1);
    lemma_four_hundreds(y - 1);
    lemma_centuries(y);
}

/// A day has one year, month and day of the month.
pub proof fn civil_is_unique(n: int, y: int, m: int, d: int)
    requires
        is_civil(n, y, m, d),
    ensures
        civil(n) == (y, m, d),
{
    let c = civil(n);
    let w: (int, int, int) = (y, m, d);
    assert(is_civil(n, w.0, w.1, w.2));
    assert(is_civil(n, c.0, c.1, c.2));
    lemma_months(y, m);
    lemma_months(c.0, c.1);
    if c.0 < y {
        lemma_year_step(c.0, y);
    } else if y < c.0 {
        lemma_year_step(y, c.0);
    } else if c.1 < m {
        lemma_month_step(y, c.1, m);
    } else if m < c.1 {
        lemma_month_step(y, m, c.1);
    }
}

/// Every day has a year, a month and a day of the month.
pub proof fn every_day_is_civil(n: int)
    requires
        FIRST_DAY <= n <= LAST_DAY,
    ensures
        is_civil(n, year_of(n), month_of(n), day_of(n)),
    decreases n - FIRST_DAY,
{
    if n == FIRST_DAY {
        let w: (int, int, int) = (-262143, 1, 1);
        assert(is_civil(n, w.0, w.1, w.2));
    } else {
        every_day_is_civil(n - 1);
        let (y, m, d) = civil(n - 1);
        lemma_one_year(y);
        lemma_months(y, m);
        assert(days_before_month(y, m + 1) == days_before_month(y, m) + month_days(y, m));
        let w: (int, int, int) = if d < month_days(y, m) {
            (y, m, d + 1)
        } else if m < 12 {
            (y, m + 1, 1)
        } else {
            if y == 262142 {
                assert(days_before_year(262143) == LAST_DAY);
            }
            (y + 1, 1, 1)
        };
        assert(is_civil(n, w.0, w.1, w.2));
    }
}

/// Later years hold later days.
pub proof fn years_go_on(a: int, b: int)
    requires
        FIRST_DAY <= a <= b <= LAST_DAY,
    ensures
        year_of(a) <= year_of(b),
{
    every_day_is_civil(a);
    every_day_is_civil(b);
    lemma_months(year_of(a), month_of(a));
    lemma_months(year_of(b), month_of(b));
    if year_of(b) < year_of(a) {
        lemma_year_step(year_of(b), year_of(a));
    }
}

/// Later months hold later days.
pub proof fn months_go_on(a: int, b: int)
    requires
        FIRST_DAY <= a <= b <= LAST_DAY,
    ensures
        year_of(a) < year_of(b) || (year_of(a) == year_of(b) && month_of(a) <= month_of(b)),
{
    years_go_on(a, b);
    every_day_is_civil(a);
    every_day_is_civil(b);
    let (y, m, n) = (year_of(a), month_of(a), month_of(b));
    if year_of(b) == y && n < m {
        lemma_month_step(y, n, m);
    }
}

/// The number of the last day of the month that day `n` is in.
pub open spec fn month_end(n: int) -> int {
    day_number(year_of(n), month_of(n), month_days(year_of(n), month_of(n)))
}

// -- words ----------------------------------------------------------------------

pub open spec fn weekday_name(w: int) -> Seq<char> {
    if w == 0 {
        "Monday"@
    } else if w == 1 {
        "Tuesday"@
    } else if w == 2 {
        "Wednesday"@
    } else if w == 3 {
        "Thursday"@
    } else if w == 4 {
        "Friday"@
    } else if w == 5 {
        "Saturday"@
    } else {
        "Sunday"@
    }
}

pub open spec fn month_name(m: int) -> Seq<char> {
    if m == 1 {
        "January"@
    } else if m == 2 {
        "February"@
    } else if m == 3 {
        "March"@
    } else if m == 4 {
        "April"@
    } else if m == 5 {
        "May"@
    } else if m == 6 {
        "June"@
    } else if m == 7 {
        "July"@
    } else if m == 8 {
        "August"@
    } else if m == 9 {
        "September"@
    } else if m == 10 {
        "October"@
    } else if m == 11 {
        "November"@
    } else {
        "December"@
    }
}

/// The short name of a month or a weekday: the first three letters.
pub open spec fn short(name: Seq<char>) -> Seq<char> {
    name.take(3)
}

/// At least `w` digits.
pub open spec fn padded(n: nat, w: nat) -> Seq<char> {
    Seq::new(
        if decimal(n).len() < w {
            (w - decimal(n).len()) as nat
        } else {
            0
        },
        |i: int| '0',
    ) + decimal(n)
}

/// A year in four digits or more, signed where four are not enough.
pub open spec fn year_text(y: int) -> Seq<char> {
    if y < 0 {
        seq!['-'] + padded((-y) as nat, 4)
    } else if y > 9999 {
        seq!['+'] + padded(y as nat, 4)
    } else {
        padded(y as nat, 4)
    }
}

/// The ways a day is written.
pub open spec fn is_date_format(f: Seq<char>) -> bool {
    f == "%A"@ || f == "%a"@ || f == "%B"@ || f == "%b"@ || f == "%A, %b %-d"@ || f
        == "%A, %b %-d %Y"@ || f == "%A, %B %-d"@ || f == "%a %b %-d"@ || f == "on %b %-d"@ || f
        == "on %b %-d, %Y"@ || f == "%Y%m%d"@
}

/// Day `n` as a format writes it.
pub open spec fn written(n: int, f: Seq<char>) -> Seq<char> {
    let weekday = weekday_name(weekday_of(n));
    let month = month_name(month_of(n));
    let day = decimal(day_of(n) as nat);
    let year = year_text(year_of(n));
    if f == "%A"@ {
        weekday
    } else if f == "%a"@ {
        short(weekday)
    } else if f == "%B"@ {
        month
    } else if f == "%b"@ {
        short(month)
    } else if f == "%A, %b %-d"@ {
        weekday + ", "@ + short(month) + " "@ + day
    } else if f == "%A, %b %-d %Y"@ {
        weekday + ", "@ + short(month) + " "@ + day + " "@ + year
    } else if f == "%A, %B %-d"@ {
        weekday + ", "@ + month + " "@ + day
    } else if f == "%a %b %-d"@ {
        short(weekday) + " "@ + short(month) + " "@ + day
    } else if f == "on %b %-d"@ {
        "on "@ + short(month) + " "@ + day
    } else if f == "on %b %-d, %Y"@ {
        "on "@ + short(month) + " "@ + day + ", "@ + year
    } else {
        year + padded(month_of(n) as nat, 2) + padded(day_of(n) as nat, 2)
    }
}

// -- what chrono does -----------------------------------------------------------

/// `NaiveDate::from_num_days_from_ce_opt`, read with `Datelike::year`,
/// `month` and `day`: the year, month and day of the month of day `n`.
#[verifier::external_body]
fn chrono_civil(n: i32) -> (r: (i32, u32, u32))
    requires
        FIRST_DAY <= n <= LAST_DAY,
    ensures
        is_civil(n as int, r.0 as int, r.1 as int, r.2 as int),
{
    let d = chrono::NaiveDate::from_num_days_from_ce_opt(n).expect("a day in range");
    (d.year(), d.month(), d.day())
}

/// `NaiveDate::from_ymd_opt`, read with `Datelike::num_days_from_ce`: the
/// number of a day, where there is such a day.
#[verifier::external_body]
fn chrono_day(y: i32, m: u32, d: u32) -> (r: Option<i32>)
    ensures
        r is Some == valid_ymd(y as int, m as int, d as int),
        r matches Some(n) ==> FIRST_DAY <= n <= LAST_DAY && n == day_number(
            y as int,
            m as int,
            d as int,
        ),
{
    chrono::NaiveDate::from_ymd_opt(y, m, d).map(|d| d.num_days_from_ce())
}

/// `Datelike::weekday`, as days from Monday.
#[verifier::external_body]
fn chrono_weekday(n: i32) -> (r: u32)
    requires
        FIRST_DAY <= n <= LAST_DAY,
    ensures
        r == weekday_of(n as int),
{
    let d = chrono::NaiveDate::from_num_days_from_ce_opt(n).expect("a day in range");
    d.weekday().num_days_from_monday()
}

/// `NaiveDate::format`: names in English, `%-d` without a leading zero, `%m`
/// and `%d` in two digits, and `%Y` in four with a sign outside 0 to 9999.
#[verifier::external_body]
fn chrono_format(n: i32, f: &str) -> (r: String)
    requires
        FIRST_DAY <= n <= LAST_DAY,
        is_date_format(f@),
    ensures
        r@ == written(n as int, f@),
{
    let d = chrono::NaiveDate::from_num_days_from_ce_opt(n).expect("a day in range");
    d.format(f).to_string()
}

// -- days -----------------------------------------------------------------------

/// A day, by its number: January 1 of the year 1 is day 1.
#[derive(Debug, Clone, Copy, PartialEq, Eq, PartialOrd, Ord, Hash, Structural)]
pub struct Date {
    pub ce: i32,
}

#[derive(Debug, Clone, Copy, PartialEq, Eq, Hash, Structural)]
pub enum Weekday {
    Mon,
    Tue,
    Wed,
    Thu,
    Fri,
    Sat,
    Sun,
}

/// The days of the week, from Monday.
pub const WEEK: [Weekday; 7] = [
    Weekday::Mon,
    Weekday::Tue,
    Weekday::Wed,
    Weekday::Thu,
    Weekday::Fri,
    Weekday::Sat,
    Weekday::Sun,
];

impl Weekday {
    /// Days from Monday.
    pub open spec fn index(self) -> int {
        match self {
            Weekday::Mon => 0,
            Weekday::Tue => 1,
            Weekday::Wed => 2,
            Weekday::Thu => 3,
            Weekday::Fri => 4,
            Weekday::Sat => 5,
            Weekday::Sun => 6,
        }
    }

    /// Days from Monday.
    pub fn num_days_from_monday(self) -> (r: u32)
        ensures
            r == self.index(),
            r < 7,
    {
        match self {
            Weekday::Mon => 0,
            Weekday::Tue => 1,
            Weekday::Wed => 2,
            Weekday::Thu => 3,
            Weekday::Fri => 4,
            Weekday::Sat => 5,
            Weekday::Sun => 6,
        }
    }

    /// The two letters of the day in a repeat rule.
    pub open spec fn letters(self) -> Seq<char> {
        match self {
            Weekday::Mon => "MO"@,
            Weekday::Tue => "TU"@,
            Weekday::Wed => "WE"@,
            Weekday::Thu => "TH"@,
            Weekday::Fri => "FR"@,
            Weekday::Sat => "SA"@,
            Weekday::Sun => "SU"@,
        }
    }

    /// The two letters of the day in a repeat rule.
    pub fn code(self) -> (r: &'static str)
        ensures
            r@ == self.letters(),
    {
        match self {
            Weekday::Mon => "MO",
            Weekday::Tue => "TU",
            Weekday::Wed => "WE",
            Weekday::Thu => "TH",
            Weekday::Fri => "FR",
            Weekday::Sat => "SA",
            Weekday::Sun => "SU",
        }
    }
}

impl Date {
    /// A day that the calendar has.
    pub open spec fn wf(self) -> bool {
        FIRST_DAY <= self.ce <= LAST_DAY
    }

    /// Whether the calendar has it.
    pub fn in_range(self) -> (r: bool)
        ensures
            r == self.wf(),
    {
        FIRST_DAY <= self.ce && self.ce <= LAST_DAY
    }

    pub open spec fn year(self) -> int {
        year_of(self.ce as int)
    }

    pub open spec fn month(self) -> int {
        month_of(self.ce as int)
    }

    pub open spec fn day(self) -> int {
        day_of(self.ce as int)
    }

    /// The day of a year, month and day of the month, where there is one.
    pub fn from_ymd(y: i32, m: u32, d: u32) -> (r: Option<Date>)
        ensures
            r is Some == valid_ymd(y as int, m as int, d as int),
            r matches Some(n) ==> n.wf() && n.ce == day_number(y as int, m as int, d as int),
            r matches Some(n) ==> n.year() == y && n.month() == m && n.day() == d,
    {
        match chrono_day(y, m, d) {
            Some(n) => {
                proof {
                    civil_is_unique(n as int, y as int, m as int, d as int);
                }
                Some(Date { ce: n })
            },
            None => None,
        }
    }

    /// Its year, month and day of the month.
    pub fn ymd(self) -> (r: (i32, u32, u32))
        requires
            self.wf(),
        ensures
            r.0 == self.year() && r.1 == self.month() && r.2 == self.day(),
            is_civil(self.ce as int, r.0 as int, r.1 as int, r.2 as int),
    {
        let r = chrono_civil(self.ce);
        proof {
            civil_is_unique(self.ce as int, r.0 as int, r.1 as int, r.2 as int);
        }
        r
    }

    /// Days from Monday.
    pub fn weekday(self) -> (r: u32)
        requires
            self.wf(),
        ensures
            r == weekday_of(self.ce as int),
            r < 7,
    {
        chrono_weekday(self.ce)
    }

    /// The day as `f` writes it.
    pub fn format(self, f: &str) -> (r: String)
        requires
            self.wf(),
            is_date_format(f@),
        ensures
            r@ == written(self.ce as int, f@),
    {
        chrono_format(self.ce, f)
    }

    /// The day `days` later.
    pub fn plus(self, days: i32) -> (r: Date)
        requires
            FIRST_DAY <= self.ce + days <= LAST_DAY,
        ensures
            r.ce == self.ce + days,
            r.wf(),
    {
        Date { ce: self.ce + days }
    }
}

/// The last day of the month that `d` is in.
pub fn last_day(d: Date) -> (r: Date)
    requires
        d.wf(),
        month_end(d.ce as int) < LAST_DAY,
    ensures
        r.ce == month_end(d.ce as int),
        r.wf(),
        d.ce <= r.ce,
        r.year() == d.year() && r.month() == d.month(),
{
    let (y, m, day) = d.ymd();
    proof {
        lemma_one_year(y as int);
        lemma_months(y as int, m as int);
        lemma_months(262142, 12);
        if y == 262142 && m == 12 {
            assert(days_before_year(262143) == LAST_DAY);
        }
        assert(days_before_month(y as int, m + 1) == days_before_month(y as int, m as int)
            + month_days(y as int, m as int));
    }
    let next = if m == 12 {
        Date::from_ymd(y + 1, 1, 1)
    } else {
        Date::from_ymd(y, m + 1, 1)
    };
    match next {
        Some(n) => {
            let r = Date { ce: n.ce - 1 };
            proof {
                civil_is_unique(
                    r.ce as int,
                    y as int,
                    m as int,
                    month_days(y as int, m as int),
                );
            }
            r
        },
        None => {
            assert(false);
            d
        },
    }
}

/// Whether there is a month after the one that `d` is in.
pub fn has_next_month(d: Date) -> (r: bool)
    requires
        d.wf(),
    ensures
        r == (month_end(d.ce as int) < LAST_DAY),
{
    let (y, m, _) = d.ymd();
    proof {
        lemma_months(y as int, m as int);
        lemma_months(262142, 12);
        lemma_one_year(y as int);
        lemma_one_year(262142);
        assert(days_before_year(262143) == LAST_DAY);
        if y < 262142 {
            lemma_year_step(y as int, 262142);
        } else if m < 12 {
            lemma_month_step(y as int, m as int, 12);
        }
    }
    y != 262142 || m != 12
}

/// The end of its month comes no earlier than the day, and is in its month.
pub proof fn month_end_is_in_month(n: int)
    requires
        FIRST_DAY <= n <= LAST_DAY,
    ensures
        n <= month_end(n),
        year_of(month_end(n)) == year_of(n),
        month_of(month_end(n)) == month_of(n),
        month_end(month_end(n)) == month_end(n),
{
    every_day_is_civil(n);
    let (y, m, _) = civil(n);
    civil_is_unique(month_end(n), y, m, month_days(y, m));
}

// -- times of day -----------------------------------------------------------------

/// A time of day, in seconds after midnight.
#[derive(Debug, Clone, Copy, PartialEq, Eq, PartialOrd, Ord, Hash, Structural)]
pub struct Time {
    pub secs: u32,
}

impl Time {
    pub open spec fn wf(self) -> bool {
        self.secs < 86400
    }

    /// The time at an hour and a minute, where the day has it.
    pub fn from_hm(h: u32, m: u32) -> (r: Option<Time>)
        ensures
            r == (if h < 24 && m < 60 {
                Some(Time { secs: (h * 3600 + m * 60) as u32 })
            } else {
                None
            }),
    {
        if h < 24 && m < 60 {
            Some(Time { secs: h * 3600 + m * 60 })
        } else {
            None
        }
    }
}

} // verus!
