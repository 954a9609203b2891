//! Repeat rules: the part of RRULE that the repeat editor can show, read and
//! written.

use vstd::prelude::*;
use vstd::string::*;

use crate::date::{Date, WEEK, Weekday, day_number, valid_ymd, written};
use crate::number::{all_digits, decimal, decimal_text, parse_u32, reads_as, value};
use crate::text::{
    ascii_upper_text, chars, digit, find_char, first_of, glue, join, joined, part, pieces,
    same_chars, split, texts, trim, trimmed, upper_ascii,
};

verus! {

#[derive(Debug, Clone, Copy, PartialEq, Eq, Structural)]
pub enum Freq {
    Daily,
    Weekly,
    Monthly,
    Yearly,
}

impl Freq {
    pub const ALL: [Freq; 4] = [Freq::Daily, Freq::Weekly, Freq::Monthly, Freq::Yearly];

    pub open spec fn word(self) -> Seq<char> {
        match self {
            Freq::Daily => "DAILY"@,
            Freq::Weekly => "WEEKLY"@,
            Freq::Monthly => "MONTHLY"@,
            Freq::Yearly => "YEARLY"@,
        }
    }

    pub fn code(self) -> (r: &'static str)
        ensures
            r@ == self.word(),
    {
        match self {
            Freq::Daily => "DAILY",
            Freq::Weekly => "WEEKLY",
            Freq::Monthly => "MONTHLY",
            Freq::Yearly => "YEARLY",
        }
    }
}

#[derive(Debug, Clone, Copy, PartialEq, Eq, Structural)]
pub enum End {
    Never,
    Count(u32),
    Until(Date),
}

/// The part of RRULE the repeat editor can show.
#[derive(Debug, Clone, PartialEq, Eq)]
pub struct Repeat {
    pub freq: Freq,
    pub interval: u32,
    pub days: Vec<Weekday>,
    pub end: End,
}

#[verifier::ext_equal]
pub struct RepeatView {
    pub freq: Freq,
    pub interval: nat,
    pub days: Seq<Weekday>,
    pub end: End,
}

impl View for Repeat {
    type V = RepeatView;

    open spec fn view(&self) -> RepeatView {
        RepeatView {
            freq: self.freq,
            interval: self.interval as nat,
            days: self.days@,
            end: self.end,
        }
    }
}

/// The rules that have a name.
pub const REPEAT_PRESETS: [(&'static str, &'static str); 6] = [
    ("Daily", "FREQ=DAILY"),
    ("Weekdays", "FREQ=WEEKLY;BYDAY=MO,TU,WE,TH,FR"),
    ("Weekends", "FREQ=WEEKLY;BYDAY=SA,SU"),
    ("Weekly", "FREQ=WEEKLY"),
    ("Monthly", "FREQ=MONTHLY"),
    ("Yearly", "FREQ=YEARLY"),
];

impl Default for Repeat {
    fn default() -> (r: Repeat)
        ensures
            r@ == every_day(),
    {
        let r = Repeat { freq: Freq::Daily, interval: 1, days: Vec::new(), end: End::Never };
        assert(r@ =~= every_day());
        r
    }
}

/// Every day, without an end.
pub open spec fn every_day() -> RepeatView {
    RepeatView { freq: Freq::Daily, interval: 1, days: Seq::empty(), end: End::Never }
}

// -- reading ------------------------------------------------------------------------

/// A rule as far as it is read: its frequency may still be to come.
#[verifier::ext_equal]
pub struct Draft {
    pub freq: Option<Freq>,
    pub interval: nat,
    pub days: Seq<Weekday>,
    pub end: End,
}

pub open spec fn no_draft() -> Draft {
    Draft { freq: None, interval: 1, days: Seq::empty(), end: End::Never }
}

pub open spec fn freq_of(word: Seq<char>) -> Option<Freq> {
    if word == "DAILY"@ {
        Some(Freq::Daily)
    } else if word == "WEEKLY"@ {
        Some(Freq::Weekly)
    } else if word == "MONTHLY"@ {
        Some(Freq::Monthly)
    } else if word == "YEARLY"@ {
        Some(Freq::Yearly)
    } else {
        None
    }
}

/// The day that two letters stand for, whatever their case.
pub open spec fn weekday_of_code(code: Seq<char>) -> Option<Weekday> {
    let c = ascii_upper_text(trim(code));
    if c == "MO"@ {
        Some(Weekday::Mon)
    } else if c == "TU"@ {
        Some(Weekday::Tue)
    } else if c == "WE"@ {
        Some(Weekday::Wed)
    } else if c == "TH"@ {
        Some(Weekday::Thu)
    } else if c == "FR"@ {
        Some(Weekday::Fri)
    } else if c == "SA"@ {
        Some(Weekday::Sat)
    } else if c == "SU"@ {
        Some(Weekday::Sun)
    } else {
        None
    }
}

/// The days that codes stand for; none when one stands for no day.
pub open spec fn days_of(codes: Seq<Seq<char>>) -> Option<Seq<Weekday>>
    decreases codes.len(),
{
    if codes.len() == 0 {
        Some(Seq::empty())
    } else {
        match (days_of(codes.drop_last()), weekday_of_code(codes.last())) {
            (Some(d), Some(w)) => Some(d.push(w)),
            _ => None,
        }
    }
}

/// The day that eight digits say, as year, month and day.
pub open spec fn date_of(s: Seq<char>) -> Option<Date> {
    if s.len() < 8 || !all_digits(s.take(8)) {
        None
    } else {
        let (y, m, d) = (
            value(s.subrange(0, 4)) as int,
            value(s.subrange(4, 6)) as int,
            value(s.subrange(6, 8)) as int,
        );
        if valid_ymd(y, m, d) {
            Some(Date { ce: day_number(y, m, d) as i32 })
        } else {
            None
        }
    }
}

/// A draft with one more part of the rule read; none when the part says more
/// than the editor shows.
pub open spec fn with_part(d: Draft, p: Seq<char>) -> Option<Draft> {
    match first_of(p, '=') {
        None => None,
        Some(i) => {
            let k = ascii_upper_text(p.take(i));
            let v = p.skip(i + 1);
            if k == "FREQ"@ {
                match freq_of(ascii_upper_text(v)) {
                    Some(f) => Some(Draft { freq: Some(f), ..d }),
                    None => None,
                }
            } else if k == "INTERVAL"@ {
                match reads_as(v, u32::MAX as nat) {
                    Some(n) if n > 0 => Some(Draft { interval: n, ..d }),
                    _ => None,
                }
            } else if k == "BYDAY"@ {
                match days_of(pieces(v, ',')) {
                    Some(w) => Some(Draft { days: d.days + w, ..d }),
                    None => None,
                }
            } else if k == "COUNT"@ {
                match reads_as(v, u32::MAX as nat) {
                    Some(n) => Some(Draft { end: End::Count(n as u32), ..d }),
                    None => None,
                }
            } else if k == "UNTIL"@ {
                match date_of(v) {
                    Some(u) => Some(Draft { end: End::Until(u), ..d }),
                    None => None,
                }
            } else if k == "WKST"@ {
                Some(d)
            } else {
                None
            }
        },
    }
}

/// The parts of a rule read one after another; empty ones are passed over.
pub open spec fn with_parts(p: Seq<Seq<char>>) -> Option<Draft>
    decreases p.len(),
{
    if p.len() == 0 {
        Some(no_draft())
    } else {
        match with_parts(p.drop_last()) {
            None => None,
            Some(d) => if p.last().len() == 0 {
                Some(d)
            } else {
                with_part(d, p.last())
            },
        }
    }
}

/// What a rule says, when the editor can show it.
pub open spec fn rule_of(rule: Seq<char>) -> Option<RepeatView> {
    match with_parts(pieces(trim(rule), ';')) {
        None => None,
        Some(d) => match d.freq {
            None => None,
            Some(f) => if f != Freq::Weekly && d.days.len() > 0 {
                None
            } else {
                Some(RepeatView { freq: f, interval: d.interval, days: d.days, end: d.end })
            },
        },
    }
}

fn is_word(v: &Vec<char>, w: &str) -> (r: bool)
    ensures
        r == (v@ == w@),
{
    same_chars(v, &chars(w))
}

fn read_freq(v: &Vec<char>) -> (r: Option<Freq>)
    ensures
        r == freq_of(ascii_upper_text(v@)),
{
    let w = upper_ascii(v);
    if is_word(&w, "DAILY") {
        Some(Freq::Daily)
    } else if is_word(&w, "WEEKLY") {
        Some(Freq::Weekly)
    } else if is_word(&w, "MONTHLY") {
        Some(Freq::Monthly)
    } else if is_word(&w, "YEARLY") {
        Some(Freq::Yearly)
    } else {
        None
    }
}

fn read_weekday(v: &Vec<char>) -> (r: Option<Weekday>)
    ensures
        r == weekday_of_code(v@),
{
    let w = upper_ascii(&trimmed(v));
    if is_word(&w, "MO") {
        Some(Weekday::Mon)
    } else if is_word(&w, "TU") {
        Some(Weekday::Tue)
    } else if is_word(&w, "WE") {
        Some(Weekday::Wed)
    } else if is_word(&w, "TH") {
        Some(Weekday::Thu)
    } else if is_word(&w, "FR") {
        Some(Weekday::Fri)
    } else if is_word(&w, "SA") {
        Some(Weekday::Sat)
    } else if is_word(&w, "SU") {
        Some(Weekday::Sun)
    } else {
        None
    }
}

/// A code that stands for no day leaves no days.
proof fn lemma_days_fail(codes: Seq<Seq<char>>, i: int)
    requires
        0 <= i < codes.len(),
        weekday_of_code(codes[i]) is None,
    ensures
        days_of(codes) is None,
    decreases codes.len(),
{
    if i < codes.len() - 1 {
        lemma_days_fail(codes.drop_last(), i);
    }
}

fn read_days(v: &Vec<char>, days: &mut Vec<Weekday>) -> (r: bool)
    ensures
        match days_of(pieces(v@, ',')) {
            Some(w) => r && final(days)@ == old(days)@ + w,
            None => !r,
        },
{
    let codes = split(v, ',');
    let ghost c = texts(codes@);
    let ghost start = days@;
    assert(start + Seq::<Weekday>::empty() == start);
    for i in 0..codes.len()
        invariant
            c == texts(codes@),
            c == pieces(v@, ','),
            days_of(c.take(i as int)) is Some,
            days@ == start + days_of(c.take(i as int))->0,
    {
        proof {
            assert(c.take(i + 1).drop_last() == c.take(i as int));
            assert(c.take(i + 1).last() == codes@[i as int]@);
        }
        match read_weekday(&chars(codes[i].as_str())) {
            Some(w) => {
                days.push(w);
                assert(days@ == start + days_of(c.take(i + 1))->0);
            },
            None => {
                proof {
                    lemma_days_fail(c, i as int);
                }
                return false;
            },
        }
    }
    assert(c.take(c.len() as int) == c);
    true
}

proof fn lemma_small_value(s: Seq<char>)
    requires
        all_digits(s),
        s.len() <= 4,
    ensures
        value(s) <= 9999,
        s.len() <= 2 ==> value(s) <= 99,
{
    reveal_with_fuel(value, 5);
    if s.len() > 0 {
        assert(digit(s.last()));
        let t = s.drop_last();
        if t.len() > 0 {
            assert(t.last() == s[s.len() - 2] && digit(t.last()));
            let u = t.drop_last();
            if u.len() > 0 {
                assert(u.last() == s[s.len() - 3] && digit(u.last()));
                let w = u.drop_last();
                if w.len() > 0 {
                    assert(w.last() == s[s.len() - 4] && digit(w.last()));
                }
            }
        }
    }
}

/// The value of the digits `v[from..to]`, where they are digits.
fn digits(v: &Vec<char>, from: usize, to: usize) -> (r: Option<u32>)
    requires
        from < to <= v@.len(),
        to - from <= 4,
    ensures
        r is Some == all_digits(v@.subrange(from as int, to as int)),
        r matches Some(n) ==> n == value(v@.subrange(from as int, to as int)),
{
    let ghost s = v@.subrange(from as int, to as int);
    let mut n: u32 = 0;
    let mut i: usize = from;
    assert(s.take(0) == Seq::<char>::empty());
    while i < to
        invariant
            from <= i <= to <= v@.len(),
            to - from <= 4,
            s == v@.subrange(from as int, to as int),
            all_digits(s.take(i - from)),
            n == value(s.take(i - from)),
        decreases to - i,
    {
        let c = v[i];
        assert(s[i - from] == c);
        if !crate::text::is_digit(c) {
            return None;
        }
        let ghost t = s.take(i - from + 1);
        proof {
            lemma_small_value(s.take(i - from));
            assert(t.drop_last() == s.take(i - from));
            assert forall|j: int| 0 <= j < t.len() implies digit(#[trigger] t[j]) by {
                if j < t.len() - 1 {
                    assert(t.drop_last()[j] == t[j]);
                }
            }
        }
        n = n * 10 + (c as u32 - 48);
        i += 1;
    }
    assert(s.take(to - from) == s);
    Some(n)
}

fn read_date(v: &Vec<char>) -> (r: Option<Date>)
    ensures
        r == date_of(v@),
{
    if v.len() < 8 {
        return None;
    }
    let ghost s = v@;
    proof {
        if all_digits(s.take(8)) {
            assert forall|k: int| 0 <= k < 4 implies digit(#[trigger] s.subrange(0, 4)[k]) by {
                assert(s.subrange(0, 4)[k] == s.take(8)[k]);
            }
            assert forall|k: int| 0 <= k < 2 implies digit(#[trigger] s.subrange(4, 6)[k]) by {
                assert(s.subrange(4, 6)[k] == s.take(8)[k + 4]);
            }
            assert forall|k: int| 0 <= k < 2 implies digit(#[trigger] s.subrange(6, 8)[k]) by {
                assert(s.subrange(6, 8)[k] == s.take(8)[k + 6]);
            }
        }
    }
    match (digits(v, 0, 4), digits(v, 4, 6), digits(v, 6, 8)) {
        (Some(y), Some(m), Some(d)) => {
            proof {
                assert forall|k: int| 0 <= k < 8 implies digit(#[trigger] s.take(8)[k]) by {
                    if k < 4 {
                        assert(s.subrange(0, 4)[k] == s[k]);
                    } else if k < 6 {
                        assert(s.subrange(4, 6)[k - 4] == s[k]);
                    } else {
                        assert(s.subrange(6, 8)[k - 6] == s[k]);
                    }
                }
                lemma_small_value(s.subrange(0, 4));
            }
            Date::from_ymd(y as i32, m, d)
        },
        _ => None,
    }
}

/// A rule as far as it is read.
struct Reading {
    freq: Option<Freq>,
    interval: u32,
    days: Vec<Weekday>,
    end: End,
}

impl Reading {
    spec fn draft(self) -> Draft {
        Draft {
            freq: self.freq,
            interval: self.interval as nat,
            days: self.days@,
            end: self.end,
        }
    }

    /// Reads one more part; false when the editor cannot show it.
    fn read(&mut self, p: &Vec<char>) -> (r: bool)
        ensures
            match with_part(old(self).draft(), p@) {
                Some(d) => r && final(self).draft() == d,
                None => !r,
            },
    {
        assert(p@.skip(0) == p@);
        let at = match find_char(p, '=', 0) {
            Some(i) => i,
            None => {
                return false;
            },
        };
        let key = part(p, 0, at);
        let v = part(p, at + 1, p.len());
        assert(key@ == p@.take(at as int));
        assert(v@ == p@.skip(at + 1));
        let k = upper_ascii(&key);
        let ghost before = self.draft();
        if is_word(&k, "FREQ") {
            match read_freq(&v) {
                Some(f) => {
                    self.freq = Some(f);
                    assert(self.draft() =~= (Draft { freq: Some(f), ..before }));
                    true
                },
                None => false,
            }
        } else if is_word(&k, "INTERVAL") {
            match parse_u32(&v) {
                Some(n) => {
                    if n == 0 {
                        return false;
                    }
                    self.interval = n;
                    assert(self.draft() =~= (Draft { interval: n as nat, ..before }));
                    true
                },
                None => false,
            }
        } else if is_word(&k, "BYDAY") {
            let ok = read_days(&v, &mut self.days);
            proof {
                if ok {
                    let w = days_of(pieces(v@, ','))->0;
                    assert(self.draft() =~= (Draft { days: before.days + w, ..before }));
                }
            }
            ok
        } else if is_word(&k, "COUNT") {
            match parse_u32(&v) {
                Some(n) => {
                    self.end = End::Count(n);
                    assert(self.draft() =~= (Draft { end: End::Count(n), ..before }));
                    true
                },
                None => false,
            }
        } else if is_word(&k, "UNTIL") {
            match read_date(&v) {
                Some(d) => {
                    self.end = End::Until(d);
                    assert(self.draft() =~= (Draft { end: End::Until(d), ..before }));
                    true
                },
                None => false,
            }
        } else {
            is_word(&k, "WKST")
        }
    }
}

/// A part that cannot be shown leaves nothing to show.
proof fn lemma_parts_fail(p: Seq<Seq<char>>, i: int)
    requires
        0 <= i < p.len(),
        with_parts(p.take(i + 1)) is None,
    ensures
        with_parts(p) is None,
    decreases p.len(),
{
    if i < p.len() - 1 {
        assert(p.drop_last().take(i + 1) == p.take(i + 1));
        lemma_parts_fail(p.drop_last(), i);
    } else {
        assert(p.take(i + 1) == p);
    }
}

// -- writing ------------------------------------------------------------------------

pub open spec fn week() -> Seq<Weekday> {
    seq![
        Weekday::Mon,
        Weekday::Tue,
        Weekday::Wed,
        Weekday::Thu,
        Weekday::Fri,
        Weekday::Sat,
        Weekday::Sun,
    ]
}

/// The days of the week that are among `days`, from Monday, each once.
pub open spec fn in_week_order(days: Seq<Weekday>) -> Seq<Weekday> {
    week().filter(|w: Weekday| days.contains(w))
}

pub open spec fn codes(days: Seq<Weekday>) -> Seq<Seq<char>> {
    days.map_values(|w: Weekday| w.letters())
}

/// The parts of the rule that says a repeat.
pub open spec fn parts_of(r: RepeatView, timed: bool) -> Seq<Seq<char>> {
    seq!["FREQ="@ + r.freq.word()] + (if r.interval > 1 {
        seq!["INTERVAL="@ + decimal(r.interval)]
    } else {
        Seq::empty()
    }) + (if r.freq == Freq::Weekly && r.days.len() > 0 {
        seq!["BYDAY="@ + join(codes(in_week_order(r.days)), ","@)]
    } else {
        Seq::empty()
    }) + (match r.end {
        End::Never => Seq::empty(),
        End::Count(n) => seq!["COUNT="@ + decimal(n as nat)],
        End::Until(d) => if timed {
            seq!["UNTIL="@ + written(d.ce as int, "%Y%m%d"@) + "T235959Z"@]
        } else {
            seq!["UNTIL="@ + written(d.ce as int, "%Y%m%d"@)]
        },
    })
}

pub open spec fn text_of_rule(r: RepeatView, timed: bool) -> Seq<char> {
    join(parts_of(r, timed), ";"@)
}

fn has_day(days: &Vec<Weekday>, w: Weekday) -> (r: bool)
    ensures
        r == days@.contains(w),
{
    for i in 0..days.len()
        invariant
            forall|j: int| 0 <= j < i ==> days@[j] != w,
    {
        if days[i] == w {
            return true;
        }
    }
    false
}

fn day_codes(days: &Vec<Weekday>) -> (r: Vec<String>)
    ensures
        texts(r@) == codes(in_week_order(days@)),
{
    let week_days = WEEK;
    assert(week_days@ == week());
    let mut out: Vec<String> = Vec::new();
    let ghost p = |w: Weekday| days@.contains(w);
    proof {
        reveal(Seq::filter);
        assert(texts(out@) == codes(week().take(0).filter(p)));
    }
    for i in 0..7usize
        invariant
            week_days@ == week(),
            p == (|w: Weekday| days@.contains(w)),
            texts(out@) == codes(week().take(i as int).filter(p)),
    {
        let w = week_days[i];
        let ghost before = texts(out@);
        let ghost kept = week().take(i as int).filter(p);
        proof {
            reveal(Seq::filter);
            assert(week().take(i + 1).drop_last() == week().take(i as int));
            assert(week().take(i + 1).last() == w);
        }
        if has_day(days, w) {
            out.push(String::from_str(w.code()));
            assert(texts(out@) =~= before.push(w.letters()));
            assert(codes(kept.push(w)) =~= codes(kept).push(w.letters()));
        }
    }
    assert(week().take(7) == week());
    out
}

impl Repeat {
    /// None when the rule says more than the editor shows (BYSETPOS, hours).
    pub fn parse(rule: &str) -> (r: Option<Repeat>)
        ensures
            match r {
                Some(x) => rule_of(rule@) == Some(x@),
                None => rule_of(rule@) is None,
            },
    {
        let parts = split(&trimmed(&chars(rule)), ';');
        let ghost p = texts(parts@);
        let mut d = Reading { freq: None, interval: 1, days: Vec::new(), end: End::Never };
        assert(d.draft() =~= no_draft());
        assert(p.take(0).len() == 0);
        for i in 0..parts.len()
            invariant
                p == texts(parts@),
                p == pieces(trim(rule@), ';'),
                with_parts(p.take(i as int)) == Some(d.draft()),
        {
            proof {
                assert(p.take(i + 1).drop_last() == p.take(i as int));
                assert(p.take(i + 1).last() == parts@[i as int]@);
            }
            let piece = chars(parts[i].as_str());
            if piece.len() > 0 {
                if !d.read(&piece) {
                    proof {
                        lemma_parts_fail(p, i as int);
                    }
                    return None;
                }
            }
        }
        assert(p.take(p.len() as int) == p);
        match d.freq {
            None => None,
            Some(freq) => {
                if freq != Freq::Weekly && d.days.len() > 0 {
                    return None;
                }
                let r = Repeat { freq, interval: d.interval, days: d.days, end: d.end };
                Some(r)
            },
        }
    }

    /// The RRULE; `timed` says whether the task has a time, which UNTIL must match.
    pub fn to_rule(&self, timed: bool) -> (r: String)
        requires
            self.end matches End::Until(d) ==> d.wf(),
        ensures
            r@ == text_of_rule(self@, timed),
    {
        let mut parts: Vec<String> = Vec::new();
        parts.push(glue("FREQ=", self.freq.code()));
        let ghost p0 = seq!["FREQ="@ + self.freq.word()];
        assert(texts(parts@) =~= p0);
        if self.interval > 1 {
            parts.push(glue("INTERVAL=", decimal_text(self.interval as u64).as_str()));
        }
        let ghost p1 = p0 + (if self.interval > 1 {
            seq!["INTERVAL="@ + decimal(self.interval as nat)]
        } else {
            Seq::empty()
        });
        assert(texts(parts@) =~= p1);
        if self.freq == Freq::Weekly && self.days.len() > 0 {
            parts.push(glue("BYDAY=", joined(&day_codes(&self.days), ",").as_str()));
        }
        let ghost p2 = p1 + (if self.freq == Freq::Weekly && self.days@.len() > 0 {
            seq!["BYDAY="@ + join(codes(in_week_order(self.days@)), ","@)]
        } else {
            Seq::empty()
        });
        assert(texts(parts@) =~= p2);
        match self.end {
            End::Never => {},
            End::Count(n) => {
                parts.push(glue("COUNT=", decimal_text(n as u64).as_str()));
            },
            End::Until(d) => {
                let day = d.format("%Y%m%d");
                let mut s = glue("UNTIL=", day.as_str());
                if timed {
                    s.append("T235959Z");
                }
                parts.push(s);
            },
        }
        assert(texts(parts@) =~= parts_of(self@, timed));
        joined(&parts, ";")
    }
}

} // verus!
