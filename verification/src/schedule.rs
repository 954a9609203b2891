//! Choosing a date and a repeat: the days on offer, the grid of the coming
//! weeks, and what a choice does to the date and the repeat a task has.

use vstd::prelude::*;
use vstd::string::*;

use crate::date::{Date, LAST_DAY, WEEK, Weekday, day_of, weekday_of, written};
use crate::due::{Moved, on_date};
use crate::number::{decimal, decimal_text};
use crate::repeat::{End, Freq, Repeat, RepeatView, every_day, rule_of, week};
use crate::task::{ListView, Task, When, when_wf};
use crate::text::{
    ascii_upper_text, chars, contains, copy_opt, glue, has, has_prefix, lower_text, lowercase_text,
    same_chars, starts_with, text_opt, trim, trim_text, upper_ascii,
};
use crate::words::{capital, capitalize};
use crate::zone::Zone;

verus! {

// -- the date and the repeat of a task ------------------------------------------------

#[derive(Debug, Clone, PartialEq, Eq)]
pub struct Schedule {
    pub due: Option<When>,
    pub rrule: Option<String>,
}

impl Schedule {
    pub fn of(task: &Task) -> (r: Schedule)
        ensures
            r.due == task.due,
            r.rrule == task.rrule,
    {
        Schedule { due: task.due, rrule: copy_opt(&task.rrule) }
    }
}

impl Default for Schedule {
    fn default() -> (r: Schedule)
        ensures
            r.due is None && r.rrule is None,
    {
        Schedule { due: None, rrule: None }
    }
}

/// A date and a repeat to be set. Without `due` the date stays.
#[derive(Debug, Clone)]
pub struct Choice {
    pub due: Option<Moved>,
    pub rrule: Option<String>,
}

/// Picking a day keeps the time the task had, and its repeat.
pub fn pick_day(s: &Schedule, d: Date, zone: &Zone) -> (r: Choice)
    requires
        when_wf(s.due),
    ensures
        r.rrule == s.rrule,
        r.due == Some(
            (match s.due {
                Some(w) if w.timed => Moved::At {
                    date: d,
                    time: crate::date::Time { secs: crate::zone::time_at(w.at, zone@) as u32 },
                    same_form: true,
                },
                _ => Moved::Day(d),
            }),
        ),
{
    let due = match &s.due {
        Some(w) => on_date(Some(w), d, zone),
        None => on_date(None, d, zone),
    };
    Choice { due: Some(due), rrule: copy_opt(&s.rrule) }
}

/// Without its time a date is its day.
pub fn clear_time(s: &Schedule) -> (r: Choice)
    ensures
        r.rrule == s.rrule,
        r.due == (match s.due {
            Some(w) => Some(Moved::Day(w.date)),
            None => None,
        }),
{
    let due = match s.due {
        Some(w) => Some(Moved::Day(w.date)),
        None => None,
    };
    Choice { due, rrule: copy_opt(&s.rrule) }
}

/// Setting a repeat. A repeat needs a date to count from: today, when there
/// is none.
pub fn set_rule(s: &Schedule, rule: Option<String>, today: Date) -> (r: Choice)
    ensures
        r.rrule == rule,
        r.due == (if rule is Some && s.due is None {
            Some(Moved::Day(today))
        } else {
            None
        }),
{
    let due = if rule.is_some() && s.due.is_none() {
        Some(Moved::Day(today))
    } else {
        None
    };
    Choice { due, rrule: rule }
}

/// What typed words come to, given the date and the repeat that were read in
/// them: nothing without a date, and the repeat stays when they say none.
pub fn typed(due: Option<When>, rule: Option<String>, s: &Schedule) -> (r: Option<Schedule>)
    ensures
        r is Some == due is Some,
        r matches Some(t) ==> t.due == due && t.rrule == (if rule is Some {
            rule
        } else {
            s.rrule
        }),
{
    match due {
        None => None,
        Some(w) => {
            let rrule = if rule.is_some() {
                rule
            } else {
                copy_opt(&s.rrule)
            };
            Some(Schedule { due: Some(w), rrule })
        },
    }
}

// -- days on offer ------------------------------------------------------------------------

#[derive(Debug, Clone, Copy)]
pub struct DateOpts {
    pub sunday_first: bool,
    /// Time and repeat rows, and "No date" when there is a date.
    pub full: bool,
    /// "No date" whatever the start: for a date given to several tasks.
    pub clear: bool,
}

pub open spec fn day_icon_of(d: int, today: int) -> Seq<char> {
    if d == today {
        "star-outline-thick-symbolic"@
    } else if d == today + 1 {
        "today-calendar-symbolic"@
    } else {
        "month-symbolic"@
    }
}

/// A day's icon, as Planify picks it.
pub fn day_icon(d: Date, today: Date) -> (r: &'static str)
    requires
        today.wf(),
    ensures
        r@ == day_icon_of(d.ce as int, today.ce as int),
{
    if d.ce == today.ce {
        "star-outline-thick-symbolic"
    } else if d.ce == today.ce + 1 {
        "today-calendar-symbolic"
    } else {
        "month-symbolic"
    }
}

/// A chip under the search field: a day, or no date.
#[derive(Debug, Clone, Copy)]
pub struct Chip {
    pub icon: &'static str,
    pub text: &'static str,
    pub day: Option<Date>,
}

pub struct ChipView {
    pub icon: Seq<char>,
    pub text: Seq<char>,
    pub day: Option<Date>,
}

impl View for Chip {
    type V = ChipView;

    open spec fn view(&self) -> ChipView {
        ChipView { icon: self.icon@, text: self.text@, day: self.day }
    }
}

pub open spec fn chip_views(v: Seq<Chip>) -> Seq<ChipView> {
    v.map_values(|c: Chip| c@)
}

pub open spec fn day_chip(text: Seq<char>, d: int, today: int) -> ChipView {
    ChipView { icon: day_icon_of(d, today), text, day: Some(Date { ce: d as i32 }) }
}

/// Today, tomorrow and a week from now, and "No date" where it makes sense.
pub open spec fn default_chips(opts: DateOpts, has_due: bool, today: int) -> Seq<ChipView> {
    seq![
        day_chip("Today"@, today, today),
        day_chip("Tomorrow"@, today + 1, today),
        day_chip("Next week"@, today + 7, today),
    ] + (if opts.clear || (opts.full && has_due) {
        seq![
            ChipView {
                icon: "cross-large-circle-filled-symbolic"@,
                text: "No date"@,
                day: None,
            },
        ]
    } else {
        Seq::empty()
    })
}

pub fn suggestions(opts: DateOpts, has_due: bool, today: Date) -> (r: Vec<Chip>)
    requires
        today.wf(),
        today.ce + 7 <= LAST_DAY,
    ensures
        chip_views(r@) == default_chips(opts, has_due, today.ce as int),
{
    let mut out: Vec<Chip> = Vec::new();
    let (tomorrow, next) = (today.plus(1), today.plus(7));
    out.push(Chip { icon: day_icon(today, today), text: "Today", day: Some(today) });
    out.push(Chip { icon: day_icon(tomorrow, today), text: "Tomorrow", day: Some(tomorrow) });
    out.push(Chip { icon: day_icon(next, today), text: "Next week", day: Some(next) });
    if opts.clear || (opts.full && has_due) {
        out.push(
            Chip { icon: "cross-large-circle-filled-symbolic", text: "No date", day: None },
        );
    }
    assert(chip_views(out@) =~= default_chips(opts, has_due, today.ce as int));
    out
}

/// The times on offer, by their hours.
pub const TIME_HOURS: [u32; 5] = [9, 12, 15, 18, 20];

/// What they are called.
pub const TIME_NAMES: [&'static str; 5] = ["9am", "12pm", "3pm", "6pm", "8pm"];

/// What a chip says of a date that was typed: its words, and the repeat's
/// small after them, as markup.
pub fn typed_words(label: &str, repeat: Option<&str>) -> (r: String)
    ensures
        r@ == (match repeat {
            Some(s) => capital(label@) + ", <small>"@ + s@ + "</small>"@,
            None => capital(label@),
        }),
{
    let mut r = capitalize(label);
    if let Some(s) = repeat {
        r.append(", <small>");
        r.append(s);
        r.append("</small>");
    }
    r
}

// -- the grid -----------------------------------------------------------------------------

/// The days of the week in the order they are shown.
pub open spec fn week_from(sunday_first: bool) -> Seq<Weekday> {
    if sunday_first {
        seq![Weekday::Sun] + week().take(6)
    } else {
        week()
    }
}

/// The days of the week in the order they are shown.
pub fn week_order(sunday_first: bool) -> (r: Vec<Weekday>)
    ensures
        r@ == week_from(sunday_first),
{
    if sunday_first {
        vec![
            Weekday::Sun,
            Weekday::Mon,
            Weekday::Tue,
            Weekday::Wed,
            Weekday::Thu,
            Weekday::Fri,
            Weekday::Sat,
        ]
    } else {
        vec![
            Weekday::Mon,
            Weekday::Tue,
            Weekday::Wed,
            Weekday::Thu,
            Weekday::Fri,
            Weekday::Sat,
            Weekday::Sun,
        ]
    }
}

/// The column of a weekday.
pub open spec fn column(weekday: int, sunday_first: bool) -> int {
    if sunday_first {
        (weekday + 1) % 7
    } else {
        weekday
    }
}

/// A day in the grid.
#[derive(Debug)]
pub struct Cell {
    pub date: Date,
    pub row: usize,
    pub col: usize,
    /// The month, over the first of one.
    pub month: Option<String>,
    pub day: String,
    pub tooltip: String,
    pub today: bool,
}

#[verifier::ext_equal]
pub struct CellView {
    pub date: Date,
    pub row: int,
    pub col: int,
    pub month: Option<Seq<char>>,
    pub day: Seq<char>,
    pub tooltip: Seq<char>,
    pub today: bool,
}

impl View for Cell {
    type V = CellView;

    open spec fn view(&self) -> CellView {
        CellView {
            date: self.date,
            row: self.row as int,
            col: self.col as int,
            month: text_opt(self.month),
            day: self.day@,
            tooltip: self.tooltip@,
            today: self.today,
        }
    }
}

/// The `i`th day from today: under its weekday, a row for every week.
pub open spec fn cell(today: int, sunday_first: bool, i: int) -> CellView {
    let n = today + i;
    let slot = column(weekday_of(today), sunday_first) + i;
    CellView {
        date: Date { ce: n as i32 },
        row: slot / 7 + 1,
        col: slot % 7,
        month: if day_of(n) == 1 {
            Some(written(n, "%b"@))
        } else {
            None
        },
        day: decimal(day_of(n) as nat),
        tooltip: written(n, "%A, %B %-d"@),
        today: i == 0,
    }
}

pub open spec fn cells(v: Seq<Cell>) -> Seq<CellView> {
    v.map_values(|c: Cell| c@)
}

/// Three weeks from today, laid out under weekday initials.
pub fn week_grid(today: Date, sunday_first: bool) -> (r: Vec<Cell>)
    requires
        today.wf(),
        today.ce + 20 <= LAST_DAY,
    ensures
        cells(r@) == Seq::new(21, |i: int| cell(today.ce as int, sunday_first, i)),
{
    let w: u32 = today.weekday();
    let start: usize = (if sunday_first {
        (w + 1) % 7
    } else {
        w
    }) as usize;
    let mut out: Vec<Cell> = Vec::new();
    for i in 0..21usize
        invariant
            today.wf(),
            today.ce + 20 <= LAST_DAY,
            start == column(weekday_of(today.ce as int), sunday_first),
            start < 7,
            cells(out@) == Seq::new(i as nat, |i: int| cell(today.ce as int, sunday_first, i)),
    {
        let d = today.plus(i as i32);
        let slot: usize = start + i;
        let (_, _, day) = d.ymd();
        let month = if day == 1 {
            Some(d.format("%b"))
        } else {
            None
        };
        let ghost before = cells(out@);
        let c = Cell {
            date: d,
            row: slot / 7 + 1,
            col: slot % 7,
            month,
            day: decimal_text(day as u64),
            tooltip: d.format("%A, %B %-d"),
            today: i == 0,
        };
        assert(c@ =~= cell(today.ce as int, sunday_first, i as int));
        out.push(c);
        assert(cells(out@) =~= before.push(c@));
    }
    out
}

/// Every day of the grid stands under its own weekday, and no two days stand
/// in one place.
pub proof fn grid_is_by_weekday(today: int, sunday_first: bool, i: int, j: int)
    requires
        0 <= i < j < 21,
    ensures
        cell(today, sunday_first, i).col == column(weekday_of(today + i), sunday_first),
        cell(today, sunday_first, i).row < cell(today, sunday_first, j).row || (cell(
            today,
            sunday_first,
            i,
        ).row == cell(today, sunday_first, j).row && cell(today, sunday_first, i).col < cell(
            today,
            sunday_first,
            j,
        ).col),
{
    let a = weekday_of(today);
    let n = today - 1;
    lemma_week_shift(n, i);
    let w = weekday_of(today + i);
    assert(w == (a + i) % 7);
    let c = column(a, sunday_first);
    if sunday_first {
        lemma_week_shift(a + i, 1);
        lemma_week_shift(a + 1, i);
    }
    lemma_slots(c + i, c + j);
}

/// Days on are weekdays on.
proof fn lemma_week_shift(n: int, i: int)
    ensures
        (n + i) % 7 == (n % 7 + i) % 7,
{
    vstd::arithmetic::div_mod::lemma_add_mod_noop_right(i, n, 7);
    assert(i + n == n + i && i + n % 7 == n % 7 + i);
}

proof fn lemma_slots(x: int, y: int)
    requires
        0 <= x < y,
    ensures
        x / 7 < y / 7 || (x / 7 == y / 7 && x % 7 < y % 7),
{
    vstd::arithmetic::div_mod::lemma_fundamental_div_mod(x, 7);
    vstd::arithmetic::div_mod::lemma_fundamental_div_mod(y, 7);
}

// -- the repeat editor --------------------------------------------------------------------

/// Whether a rule is the one that is set, whatever its case.
pub fn is_set(current: &Option<String>, rule: &str) -> (r: bool)
    ensures
        r == (current matches Some(c) && ascii_upper_text(c@) == ascii_upper_text(rule@)),
{
    match current {
        Some(c) => same_chars(&upper_ascii(&chars(c.as_str())), &upper_ascii(&chars(rule))),
        None => false,
    }
}

/// Whether the editor may open on a rule: one it can't show (BYMONTHDAY
/// lists, nth weekdays) opens as weekly and Apply would overwrite it.
pub fn can_edit(current: &Option<String>) -> (r: bool)
    ensures
        r == (current matches Some(c) ==> rule_of(c@) is Some),
{
    match current {
        Some(c) => Repeat::parse(c.as_str()).is_some(),
        None => true,
    }
}

/// Every week on the weekday of a day.
pub open spec fn weekly_on(n: int) -> RepeatView {
    RepeatView { freq: Freq::Weekly, days: seq![week()[weekday_of(n)]], ..every_day() }
}

/// What the editor starts from: the rule that is set, or else every week on
/// the weekday of the date.
pub fn editor_start(s: &Schedule, today: Date) -> (r: Repeat)
    requires
        today.wf(),
        when_wf(s.due),
    ensures
        r@ == (match s.rrule {
            Some(c) if rule_of(c@) is Some => rule_of(c@)->0,
            _ => weekly_on(
                (match s.due {
                    Some(w) => w.date,
                    None => today,
                }).ce as int,
            ),
        }),
{
    let set: Option<Repeat> = match &s.rrule {
        Some(c) => Repeat::parse(c.as_str()),
        None => None,
    };
    match set {
        Some(r) => r,
        None => {
            let d = match s.due {
                Some(w) => w.date,
                None => today,
            };
            let all = WEEK;
            assert(all@ == week());
            let day = all[d.weekday() as usize];
            let r = Repeat {
                freq: Freq::Weekly,
                interval: 1,
                days: vec![day],
                end: End::Never,
            };
            assert(r@ =~= weekly_on(d.ce as int));
            r
        },
    }
}

pub open spec fn not_day(w: Weekday) -> spec_fn(Weekday) -> bool {
    |d: Weekday| d != w
}

impl Repeat {
    /// A weekday switched on or off.
    pub fn toggle_day(&mut self, w: Weekday, on: bool)
        ensures
            final(self).days@ == (if on {
                old(self).days@.filter(not_day(w)).push(w)
            } else {
                old(self).days@.filter(not_day(w))
            }),
            final(self).freq == old(self).freq,
            final(self).interval == old(self).interval,
            final(self).end == old(self).end,
    {
        let mut days: Vec<Weekday> = Vec::new();
        let ghost s = self.days@;
        proof {
            reveal(Seq::filter);
            assert(days@ == s.take(0).filter(not_day(w)));
        }
        for i in 0..self.days.len()
            invariant
                s == self.days@,
                days@ == s.take(i as int).filter(not_day(w)),
        {
            proof {
                reveal(Seq::filter);
                assert(s.take(i + 1).drop_last() == s.take(i as int));
                assert(s.take(i + 1).last() == s[i as int]);
            }
            if self.days[i] != w {
                days.push(self.days[i]);
            }
        }
        assert(s.take(s.len() as int) == s);
        if on {
            days.push(w);
        }
        self.days = days;
    }

    /// Every so many days, weeks, months or years: at least one.
    pub fn set_interval(&mut self, n: i32)
        ensures
            final(self).interval == (if n < 1 {
                1
            } else {
                n as int
            }),
            final(self).freq == old(self).freq,
            final(self).days == old(self).days,
            final(self).end == old(self).end,
    {
        self.interval = if n < 1 {
            1
        } else {
            n as u32
        };
    }

    /// The unit chosen from a menu of four.
    pub fn set_unit(&mut self, selected: usize)
        ensures
            final(self).freq == (if selected == 0 {
                Freq::Daily
            } else if selected == 1 {
                Freq::Weekly
            } else if selected == 2 {
                Freq::Monthly
            } else {
                Freq::Yearly
            }),
            final(self).interval == old(self).interval,
            final(self).days == old(self).days,
            final(self).end == old(self).end,
    {
        let all = Freq::ALL;
        let i: usize = if selected > 3 {
            3
        } else {
            selected
        };
        self.freq = all[i];
    }
}

/// The words for the units, after a count.
pub fn unit_words(n: u32) -> (r: [&'static str; 4])
    ensures
        n == 1 ==> r@[0]@ == "day"@ && r@[1]@ == "week"@ && r@[2]@ == "month"@ && r@[3]@
            == "year"@,
        n != 1 ==> r@[0]@ == "days"@ && r@[1]@ == "weeks"@ && r@[2]@ == "months"@ && r@[3]@
            == "years"@,
{
    if n == 1 {
        ["day", "week", "month", "year"]
    } else {
        ["days", "weeks", "months", "years"]
    }
}

/// How the editor's end is chosen.
#[derive(Debug, Clone, Copy, PartialEq, Eq, Structural)]
pub enum EndChoice {
    Never,
    On,
    After,
}

/// The end that is chosen: a date, or a number of times, at least one.
pub fn chosen_end(choice: EndChoice, until: Date, count: i32) -> (r: End)
    ensures
        r == (match choice {
            EndChoice::Never => End::Never,
            EndChoice::On => End::Until(until),
            EndChoice::After => End::Count(
                if count < 1 {
                    1
                } else {
                    count as u32
                },
            ),
        }),
{
    match choice {
        EndChoice::Never => End::Never,
        EndChoice::On => End::Until(until),
        EndChoice::After => End::Count(
            if count < 1 {
                1
            } else {
                count as u32
            },
        ),
    }
}

/// What the fields for an end start from: the end that is set, a month from
/// today, and five times.
pub fn end_fields(end: End, today: Date) -> (r: (EndChoice, Date, u32))
    requires
        today.wf(),
        today.ce + 30 <= LAST_DAY,
    ensures
        r.0 == (match end {
            End::Never => EndChoice::Never,
            End::Until(_) => EndChoice::On,
            End::Count(_) => EndChoice::After,
        }),
        r.1.ce == (match end {
            End::Until(d) => d.ce as int,
            _ => today.ce + 30,
        }),
        r.2 == (match end {
            End::Count(n) => n,
            _ => 5,
        }),
{
    match end {
        End::Never => (EndChoice::Never, today.plus(30), 5),
        End::Until(d) => (EndChoice::On, d, 5),
        End::Count(n) => (EndChoice::After, today.plus(30), n),
    }
}

// -- lists and links ----------------------------------------------------------------------

pub open spec fn writable() -> spec_fn(ListView) -> bool {
    |l: ListView| l.writable
}

/// The lists that a task can move to.
pub fn targets<'a>(lists: &'a [ListView]) -> (r: Vec<&'a ListView>)
    ensures
        r@.map_values(|l: &ListView| *l) == lists@.filter(writable()),
{
    let mut out: Vec<&'a ListView> = Vec::new();
    let ghost s = lists@;
    proof {
        reveal(Seq::filter);
        assert(out@.map_values(|l: &ListView| *l) == s.take(0).filter(writable()));
    }
    for i in 0..lists.len()
        invariant
            s == lists@,
            out@.map_values(|l: &ListView| *l) == s.take(i as int).filter(writable()),
    {
        let ghost before = out@.map_values(|l: &ListView| *l);
        proof {
            reveal(Seq::filter);
            assert(s.take(i + 1).drop_last() == s.take(i as int));
            assert(s.take(i + 1).last() == s[i as int]);
        }
        if lists[i].writable {
            out.push(&lists[i]);
            assert(out@.map_values(|l: &ListView| *l) =~= before.push(s[i as int]));
        }
    }
    assert(s.take(s.len() as int) == s);
    out
}

/// Whether a name stays in the list while `typed` is typed.
pub fn name_matches(name: &str, typed: &str) -> (r: bool)
    ensures
        r == contains(lowercase_text(name@), lowercase_text(typed@)),
{
    has(lower_text(name).as_str(), lower_text(typed).as_str())
}

/// An address to open for a link as typed.
pub open spec fn address(typed: Seq<char>) -> Seq<char> {
    let t = trim(typed);
    if contains(t, "://"@) || starts_with(t, "mailto:"@) {
        t
    } else {
        "https://"@ + t
    }
}

/// What to open for a link as typed.
pub fn link_address(typed: &str) -> (r: String)
    ensures
        r@ == address(typed@),
{
    let t = trim_text(typed);
    if has(t.as_str(), "://") || has_prefix(t.as_str(), "mailto:") {
        t
    } else {
        glue("https://", t.as_str())
    }
}

/// The link that a field holds: none when it is blank.
pub open spec fn link_of(typed: Seq<char>) -> Option<Seq<char>> {
    if trim(typed).len() == 0 {
        None
    } else {
        Some(trim(typed))
    }
}

/// The link to set when the field is closed; nothing when it is the one that
/// is set.
pub fn link_change(current: &Option<String>, typed: &str) -> (r: Option<Option<String>>)
    ensures
        r is Some == (link_of(typed@) != text_opt(*current)),
        r matches Some(new) ==> text_opt(new) == link_of(typed@),
{
    let t = trim_text(typed);
    let blank: bool = t.as_str().is_empty();
    match current {
        Some(c) => if blank {
            Some(None)
        } else if *c == t {
            None
        } else {
            Some(Some(t))
        },
        None => if blank {
            None
        } else {
            Some(Some(t))
        },
    }
}

} // verus!
