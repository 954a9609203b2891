//! Preferences: what the daemon does (inbox, reminders, how often it checks,
//! where linked notes are), and which views the sidebar shows in what order.

use vstd::prelude::*;
use vstd::string::*;

use crate::nav::{Nav, NavView, key_of, navs, smart_views};
use crate::prefs::{Prefs, sidebar_keys, sidebar_of};
use crate::sorting::{arrange_by, arranged, arranged_is_in_order, arranged_keeps_all};
use crate::task::{ListView, StatusView, SyncState};
use crate::text::{after_prefix, glue, glue3, same, starts_with};

verus! {

// -- the daemon's settings ------------------------------------------------------------------

/// The daemon's settings.
#[derive(Debug, Clone)]
pub struct Settings {
    pub inbox: Option<String>,
    /// Seconds between checks for changes.
    pub interval: u64,
    /// Minutes, for a reminder's Snooze buttons.
    pub snooze: Vec<u64>,
    pub alarm_at_due: bool,
    pub alarm_before: u32,
    pub notes: String,
}

/// Settings to change; what is not set stays. An inner none is the default.
#[derive(Debug, Clone)]
pub struct SettingsChange {
    pub inbox: Option<Option<String>>,
    pub interval: Option<u64>,
    pub snooze: Option<Vec<u64>>,
    pub alarm_at_due: Option<bool>,
    pub alarm_before: Option<u32>,
    pub notes: Option<Option<String>>,
}

/// A change of nothing.
pub open spec fn same_settings() -> SettingsChange {
    SettingsChange {
        inbox: None,
        interval: None,
        snooze: None,
        alarm_at_due: None,
        alarm_before: None,
        notes: None,
    }
}

impl Default for SettingsChange {
    fn default() -> (r: SettingsChange)
        ensures
            r == same_settings(),
    {
        SettingsChange {
            inbox: None,
            interval: None,
            snooze: None,
            alarm_at_due: None,
            alarm_before: None,
            notes: None,
        }
    }
}

impl SettingsChange {
    /// Whether there is nothing to change.
    pub fn is_empty(&self) -> (r: bool)
        ensures
            r == (*self == same_settings()),
    {
        self.inbox.is_none() && self.interval.is_none() && self.snooze.is_none()
            && self.alarm_at_due.is_none() && self.alarm_before.is_none() && self.notes.is_none()
    }

    /// Another inbox, by its name.
    pub fn to_inbox(name: String) -> (r: SettingsChange)
        ensures
            r == (SettingsChange { inbox: Some(Some(name)), ..same_settings() }),
    {
        let mut c = SettingsChange::default();
        c.inbox = Some(Some(name));
        c
    }

    /// Other Snooze buttons.
    pub fn to_snooze(snooze: Vec<u64>) -> (r: SettingsChange)
        ensures
            r == (SettingsChange { snooze: Some(snooze), ..same_settings() }),
    {
        let mut c = SettingsChange::default();
        c.snooze = Some(snooze);
        c
    }

    /// Another notes folder.
    pub fn to_notes(dir: String) -> (r: SettingsChange)
        ensures
            r == (SettingsChange { notes: Some(Some(dir)), ..same_settings() }),
    {
        let mut c = SettingsChange::default();
        c.notes = Some(Some(dir));
        c
    }
}

/// The lists that can be the inbox.
pub open spec fn can_write() -> spec_fn(ListView) -> bool {
    |l: ListView| l.writable
}

/// Where the inbox is among lists; the first when it is not there.
pub open spec fn inbox_place(s: Seq<ListView>) -> int
    decreases s.len(),
{
    if s.len() == 0 || s[0].inbox {
        0
    } else if exists|i: int| 0 <= i < s.len() && (#[trigger] s[i]).inbox {
        1 + inbox_place(s.skip(1))
    } else {
        0
    }
}

/// The lists that can be the inbox, and which of them is.
pub fn inbox_choices<'a>(lists: &'a [ListView]) -> (r: (Vec<&'a ListView>, usize))
    ensures
        crate::prefs::plain_lists(r.0@) == lists@.filter(can_write()),
        r.1 == inbox_place(lists@.filter(can_write())),
{
    let mut out: Vec<&'a ListView> = Vec::new();
    let ghost s = lists@;
    proof {
        reveal(Seq::filter);
        assert(crate::prefs::plain_lists(out@) =~= s.take(0).filter(can_write()));
    }
    for i in 0..lists.len()
        invariant
            s == lists@,
            crate::prefs::plain_lists(out@) == s.take(i as int).filter(can_write()),
    {
        let ghost before = crate::prefs::plain_lists(out@);
        proof {
            reveal(Seq::filter);
            assert(s.take(i + 1).drop_last() == s.take(i as int));
            assert(s.take(i + 1).last() == s[i as int]);
        }
        if lists[i].writable {
            out.push(&lists[i]);
            assert(crate::prefs::plain_lists(out@) =~= before.push(s[i as int]));
        }
    }
    assert(s.take(s.len() as int) == s);
    let ghost w = crate::prefs::plain_lists(out@);
    let mut at: usize = 0;
    while at < out.len() && !out[at].inbox
        invariant
            w == crate::prefs::plain_lists(out@),
            at <= out.len(),
            forall|j: int| 0 <= j < at ==> !(#[trigger] w[j]).inbox,
        decreases out.len() - at,
    {
        assert(w[at as int] == *out@[at as int]);
        at += 1;
    }
    if at == out.len() {
        at = 0;
        proof {
            if w.len() > 0 {
                assert(!w[0].inbox);
            }
        }
    } else {
        proof {
            assert(w[at as int] == *out@[at as int]);
            lemma_inbox_place(w, at as int);
        }
    }
    (out, at)
}

proof fn lemma_inbox_place(s: Seq<ListView>, at: int)
    requires
        0 <= at < s.len(),
        s[at].inbox,
        forall|j: int| 0 <= j < at ==> !(#[trigger] s[j]).inbox,
    ensures
        inbox_place(s) == at,
    decreases at,
{
    if at > 0 {
        assert(!s[0].inbox);
        let t = s.skip(1);
        assert forall|j: int| 0 <= j < at - 1 implies !(#[trigger] t[j]).inbox by {
            assert(t[j] == s[j + 1]);
        }
        assert(t[at - 1] == s[at]);
        lemma_inbox_place(t, at - 1);
    }
}

// -- how often -----------------------------------------------------------------------------

/// The choices of how often to check, in seconds, and their names.
pub const INTERVALS: [(u64, &'static str); 5] = [
    (30, "Every 30 seconds"),
    (60, "Every minute"),
    (120, "Every 2 minutes"),
    (300, "Every 5 minutes"),
    (900, "Every 15 minutes"),
];

/// Which choice an interval is; every minute when it is none of them.
pub fn interval_choice(secs: u64) -> (r: usize)
    ensures
        r < 5,
        (exists|i: int| 0 <= i < 5 && INTERVALS@[i].0 == secs) ==> INTERVALS@[r as int].0 == secs,
        !(exists|i: int| 0 <= i < 5 && INTERVALS@[i].0 == secs) ==> r == 1,
{
    for i in 0..5usize
        invariant
            forall|j: int| 0 <= j < i ==> INTERVALS@[j].0 != secs,
    {
        if INTERVALS[i].0 == secs {
            return i;
        }
    }
    1
}

/// The change that a choice of interval makes.
pub fn choose_interval(at: usize) -> (r: Option<SettingsChange>)
    ensures
        r == (if at < 5 {
            Some(SettingsChange { interval: Some(INTERVALS@[at as int].0), ..same_settings() })
        } else {
            None
        }),
{
    if at < 5 {
        let mut c = SettingsChange::default();
        c.interval = Some(INTERVALS[at].0);
        Some(c)
    } else {
        None
    }
}

// -- reminders -----------------------------------------------------------------------------

/// When a task with a time rings by default, as minutes before it.
pub open spec fn usual_times() -> Seq<(Option<u32>, Seq<char>)> {
    seq![
        (None, "None"@),
        (Some(0u32), "At due time"@),
        (Some(5u32), "5 min before"@),
        (Some(10u32), "10 min before"@),
        (Some(15u32), "15 min before"@),
        (Some(30u32), "30 min before"@),
        (Some(60u32), "1 h before"@),
        (Some(120u32), "2 h before"@),
        (Some(1440u32), "1 day before"@),
    ]
}

/// When a task rings by default, as it is set.
pub open spec fn rings(s: Settings) -> Option<u32> {
    if s.alarm_at_due {
        Some(s.alarm_before)
    } else {
        None
    }
}

/// One of the usual times.
pub open spec fn is_usual(m: Option<u32>) -> bool {
    m matches Some(n) ==> n == 0 || n == 5 || n == 10 || n == 15 || n == 30 || n == 60 || n == 120
        || n == 1440
}

/// The times to choose from: one set some other way is among them, as `words`
/// say it.
pub open spec fn times_of(s: Settings, words: Seq<char>) -> Seq<(Option<u32>, Seq<char>)> {
    if is_usual(rings(s)) {
        usual_times()
    } else {
        usual_times().push((rings(s), words + " before"@))
    }
}

pub open spec fn time_views(v: Seq<(Option<u32>, String)>) -> Seq<(Option<u32>, Seq<char>)> {
    v.map_values(|p: (Option<u32>, String)| (p.0, p.1@))
}

fn put_time(v: &mut Vec<(Option<u32>, String)>, m: Option<u32>, words: &str)
    ensures
        time_views(final(v)@) == time_views(old(v)@).push((m, words@)),
{
    v.push((m, String::from_str(words)));
    assert(time_views(v@) =~= time_views(old(v)@).push((m, words@)));
}

/// The times to choose from, and which is chosen. `words` are the minutes set
/// now, as a length.
pub fn reminder_times(s: &Settings, words: &str) -> (r: (Vec<(Option<u32>, String)>, usize))
    ensures
        time_views(r.0@) == times_of(*s, words@),
        r.1 < r.0@.len(),
        r.0@[r.1 as int].0 == rings(*s),
{
    let mut v: Vec<(Option<u32>, String)> = Vec::new();
    put_time(&mut v, None, "None");
    put_time(&mut v, Some(0), "At due time");
    put_time(&mut v, Some(5), "5 min before");
    put_time(&mut v, Some(10), "10 min before");
    put_time(&mut v, Some(15), "15 min before");
    put_time(&mut v, Some(30), "30 min before");
    put_time(&mut v, Some(60), "1 h before");
    put_time(&mut v, Some(120), "2 h before");
    put_time(&mut v, Some(1440), "1 day before");
    assert(time_views(v@) =~= usual_times());
    let now: Option<u32> = if s.alarm_at_due {
        Some(s.alarm_before)
    } else {
        None
    };
    let at: usize = match now {
        None => 0,
        Some(n) => if n == 0 {
            1
        } else if n == 5 {
            2
        } else if n == 10 {
            3
        } else if n == 15 {
            4
        } else if n == 30 {
            5
        } else if n == 60 {
            6
        } else if n == 120 {
            7
        } else if n == 1440 {
            8
        } else {
            put_time(&mut v, now, glue(words, " before").as_str());
            9
        },
    };
    assert(time_views(v@) == times_of(*s, words@));
    assert(v@.len() == times_of(*s, words@).len());
    assert(v@[at as int].0 == time_views(v@)[at as int].0);
    (v, at)
}

/// The change that a choice of time makes.
pub fn choose_reminder(m: Option<u32>) -> (r: SettingsChange)
    ensures
        r == (SettingsChange {
            alarm_at_due: Some(m is Some),
            alarm_before: m,
            ..same_settings()
        }),
{
    let mut c = SettingsChange::default();
    c.alarm_at_due = Some(m.is_some());
    c.alarm_before = m;
    c
}

// -- snooze -----------------------------------------------------------------------------------

/// The most Snooze buttons a reminder has.
pub const MAX_SNOOZE: usize = 3;

/// Numbers from the least up, each once.
pub open spec fn rising(s: Seq<u64>) -> bool {
    forall|i: int, j: int| 0 <= i < j < s.len() ==> s[i] < s[j]
}

/// Puts a number among others that rise, once.
fn put_number(v: &Vec<u64>, m: u64) -> (r: Vec<u64>)
    requires
        rising(v@),
    ensures
        rising(r@),
        forall|x: u64| #[trigger] r@.contains(x) <==> v@.contains(x) || x == m,
{
    let mut out: Vec<u64> = Vec::new();
    let mut put: bool = false;
    for i in 0..v.len()
        invariant
            rising(v@),
            rising(out@),
            forall|x: u64| #[trigger]
                out@.contains(x) <==> v@.take(i as int).contains(x) || (put && x == m),
            put ==> i > 0 && m <= v@[i - 1],
            !put ==> forall|j: int| 0 <= j < i ==> v@[j] < m,
            forall|k: int|
                0 <= k < out@.len() ==> (#[trigger] out@[k]) <= m || (put && i > 0 && out@[k]
                    <= v@[i - 1]),
    {
        let n = v[i];
        let ghost before = out@;
        let ghost was = put;
        if !put && m <= n {
            put = true;
            if m < n {
                proof {
                    assert forall|k: int| 0 <= k < out@.len() implies (#[trigger] out@[k]) < m by {
                        assert(out@.contains(out@[k]));
                        let t = v@.take(i as int);
                        let j = choose|j: int| 0 <= j < t.len() && t[j] == out@[k];
                        assert(v@[j] < m);
                    }
                }
                out.push(m);
            }
        }
        let ghost mid = out@;
        proof {
            assert forall|k: int| 0 <= k < out@.len() implies (#[trigger] out@[k]) < n by {
                if k < before.len() {
                    assert(before.contains(before[k]));
                    let t = v@.take(i as int);
                    if t.contains(before[k]) {
                        let j = choose|j: int| 0 <= j < t.len() && t[j] == before[k];
                        assert(v@[j] < v@[i as int]);
                    }
                }
            }
        }
        out.push(n);
        proof {
            let t = v@.take(i as int);
            let u = v@.take(i + 1);
            assert(u == t.push(n));
            assert forall|x: u64| #[trigger]
                out@.contains(x) <==> u.contains(x) || (put && x == m) by {
                lemma_contains_pushed(mid, n, x);
                lemma_contains_pushed(t, n, x);
                lemma_contains_pushed(before, m, x);
                assert(before.contains(x) <==> t.contains(x) || (was && x == m));
            }
        }
    }
    assert(v@.take(v@.len() as int) == v@);
    if !put {
        proof {
            assert forall|k: int| 0 <= k < out@.len() implies (#[trigger] out@[k]) < m by {
                assert(out@.contains(out@[k]));
                let j = choose|j: int| 0 <= j < v@.len() && v@[j] == out@[k];
                assert(v@[j] < m);
            }
            assert forall|x: u64| #[trigger] out@.push(m).contains(x) <==> v@.contains(x) || x
                == m by {
                lemma_contains_pushed(out@, m, x);
            }
        }
        out.push(m);
    }
    out
}

proof fn lemma_contains_pushed(s: Seq<u64>, n: u64, x: u64)
    ensures
        s.push(n).contains(x) <==> s.contains(x) || x == n,
{
    let u = s.push(n);
    if s.contains(x) {
        let i = choose|i: int| 0 <= i < s.len() && s[i] == x;
        assert(u[i] == x);
    }
    if x == n {
        assert(u[s.len() as int] == x);
    }
    if u.contains(x) {
        let i = choose|i: int| 0 <= i < u.len() && u[i] == x;
        if i < s.len() {
            assert(s[i] == x);
        }
    }
}

/// The numbers, from the least up, each once.
fn put_in_order(v: &Vec<u64>) -> (r: Vec<u64>)
    ensures
        rising(r@),
        forall|x: u64| #[trigger] r@.contains(x) <==> v@.contains(x),
{
    let mut out: Vec<u64> = Vec::new();
    for i in 0..v.len()
        invariant
            rising(out@),
            forall|x: u64| #[trigger] out@.contains(x) <==> v@.take(i as int).contains(x),
    {
        let ghost before = out@;
        out = put_number(&out, v[i]);
        proof {
            let t = v@.take(i as int);
            assert(v@.take(i + 1) == t.push(v@[i as int]));
            assert forall|x: u64| #[trigger]
                out@.contains(x) <==> v@.take(i + 1).contains(x) by {
                lemma_contains_pushed(t, v@[i as int], x);
                assert(before.contains(x) <==> t.contains(x));
            }
        }
    }
    assert(v@.take(v@.len() as int) == v@);
    out
}

/// One of the usual lengths, in minutes.
pub open spec fn usual_length(m: u64) -> bool {
    m == 5 || m == 10 || m == 15 || m == 30 || m == 60 || m == 120 || m == 1440
}

/// The lengths to pick from: the usual ones, and those picked some other way.
pub fn snooze_lengths(s: &Settings) -> (r: Vec<u64>)
    ensures
        rising(r@),
        forall|m: u64| #[trigger]
            r@.contains(m) <==> usual_length(m) || s.snooze@.contains(m),
{
    let v = put_in_order(&s.snooze);
    let a = put_number(&v, 5);
    let b = put_number(&a, 10);
    let c = put_number(&b, 15);
    let d = put_number(&c, 30);
    let e = put_number(&d, 60);
    let f = put_number(&e, 120);
    let g = put_number(&f, 1440);
    assert forall|m: u64| #[trigger]
        g@.contains(m) <==> usual_length(m) || s.snooze@.contains(m) by {
        assert(f@.contains(m) <==> e@.contains(m) || m == 120);
        assert(e@.contains(m) <==> d@.contains(m) || m == 60);
        assert(d@.contains(m) <==> c@.contains(m) || m == 30);
        assert(c@.contains(m) <==> b@.contains(m) || m == 15);
        assert(b@.contains(m) <==> a@.contains(m) || m == 10);
        assert(a@.contains(m) <==> v@.contains(m) || m == 5);
        assert(v@.contains(m) <==> s.snooze@.contains(m));
    }
    g
}

fn has_number(v: &Vec<u64>, m: u64) -> (r: bool)
    ensures
        r == v@.contains(m),
{
    for i in 0..v.len()
        invariant
            forall|j: int| 0 <= j < i ==> v@[j] != m,
    {
        if v[i] == m {
            return true;
        }
    }
    false
}

/// Whether a length can be picked or let go: past the limit, the rest wait
/// until one is let go.
pub fn can_pick(chosen: &Vec<u64>, m: u64) -> (r: bool)
    ensures
        r == (chosen@.len() < MAX_SNOOZE || chosen@.contains(m)),
{
    chosen.len() < MAX_SNOOZE || has_number(chosen, m)
}

/// Any length but this one.
pub open spec fn other_than(m: u64) -> spec_fn(u64) -> bool {
    |x: u64| x != m
}

/// Lengths with one picked, unless it was, or let go.
pub open spec fn picked_lengths(chosen: Seq<u64>, m: u64, on: bool) -> Seq<u64> {
    if !on {
        chosen.filter(other_than(m))
    } else if chosen.contains(m) {
        chosen
    } else {
        chosen.push(m)
    }
}

/// From the shortest.
pub open spec fn shorter() -> spec_fn(u64, u64) -> bool {
    |a: u64, b: u64| a <= b
}

fn without_length(v: &Vec<u64>, m: u64) -> (r: Vec<u64>)
    ensures
        r@ == v@.filter(other_than(m)),
{
    let ghost p = other_than(m);
    let mut out: Vec<u64> = Vec::new();
    proof {
        reveal(Seq::filter);
        assert(out@ =~= v@.take(0).filter(p));
    }
    for i in 0..v.len()
        invariant
            p == other_than(m),
            out@ == v@.take(i as int).filter(p),
    {
        proof {
            reveal(Seq::filter);
            assert(v@.take(i + 1).drop_last() == v@.take(i as int));
            assert(v@.take(i + 1).last() == v@[i as int]);
        }
        if v[i] != m {
            out.push(v[i]);
        }
    }
    assert(v@.take(v@.len() as int) == v@);
    out
}

/// The lengths after one was picked or let go, from the shortest; none when
/// that would leave no button, which is the least a reminder has.
pub fn snooze_toggled(chosen: &Vec<u64>, m: u64, on: bool) -> (r: Option<Vec<u64>>)
    ensures
        match r {
            Some(v) => picked_lengths(chosen@, m, on).len() > 0 && v@ == arranged(
                picked_lengths(chosen@, m, on),
                shorter(),
            ),
            None => picked_lengths(chosen@, m, on).len() == 0,
        },
{
    let mut v: Vec<u64> = if on {
        copy_numbers(chosen)
    } else {
        without_length(chosen, m)
    };
    if on && !has_number(chosen, m) {
        v.push(m);
    }
    if v.len() == 0 {
        return None;
    }
    let f = |a: &u64, b: &u64| -> (r: bool)
        ensures
            r == (*a <= *b),
        { *a <= *b };
    Some(arrange_by(v, &f, Ghost(shorter())))
}

fn copy_numbers(v: &Vec<u64>) -> (r: Vec<u64>)
    ensures
        r@ == v@,
{
    let mut out: Vec<u64> = Vec::new();
    for i in 0..v.len()
        invariant
            out@ == v@.take(i as int),
    {
        out.push(v[i]);
    }
    assert(v@.take(v@.len() as int) == v@);
    out
}

/// A reminder keeps at least one Snooze button, and never gets more than it
/// can have, as long as only lengths that can be picked are.
pub proof fn snooze_stays_within(chosen: Seq<u64>, m: u64, on: bool, v: Seq<u64>)
    requires
        chosen.len() <= MAX_SNOOZE,
        chosen.len() < MAX_SNOOZE || chosen.contains(m),
        picked_lengths(chosen, m, on).len() > 0,
        v == arranged(picked_lengths(chosen, m, on), shorter()),
    ensures
        1 <= v.len() <= MAX_SNOOZE,
        forall|i: int, j: int| 0 <= i < j < v.len() ==> v[i] <= v[j],
        forall|x: u64| #[trigger]
            v.contains(x) <==> (if x == m {
                on
            } else {
                chosen.contains(x)
            }),
{
    let p = picked_lengths(chosen, m, on);
    let keep = other_than(m);
    arranged_keeps_all(p, shorter());
    arranged_is_in_order(p, shorter());
    chosen.lemma_filter_len(keep);
    assert forall|i: int, j: int| 0 <= i < j < v.len() implies v[i] <= v[j] by {
        assert(shorter()(v[i], v[j]));
    }
    assert forall|x: u64| #[trigger] v.contains(x) <==> (if x == m {
        on
    } else {
        chosen.contains(x)
    }) by {
        assert(v.contains(x) == p.contains(x));
        if on {
            lemma_contains_pushed(chosen, m, x);
        } else {
            if p.contains(x) {
                chosen.lemma_filter_contains_rev(keep, x);
                lemma_kept(chosen, keep);
                let i = choose|i: int| 0 <= i < p.len() && p[i] == x;
                assert(keep(p[i]));
            }
            if chosen.contains(x) && x != m {
                let i = choose|i: int| 0 <= i < chosen.len() && chosen[i] == x;
                chosen.lemma_filter_contains(keep, i);
            }
        }
    }
}

proof fn lemma_kept(s: Seq<u64>, p: spec_fn(u64) -> bool)
    ensures
        forall|i: int| 0 <= i < s.filter(p).len() ==> p(#[trigger] s.filter(p)[i]),
    decreases s.len(),
{
    reveal(Seq::filter);
    if s.len() > 0 {
        lemma_kept(s.drop_last(), p);
    }
}

// -- what rows say -----------------------------------------------------------------------------

/// The groups of Preferences: what each is called, and what is said of it.
pub const ACCOUNT: (&'static str, &'static str) = (
    "Account",
    "Tasks live on Nextcloud, which Apple Reminders on the iPhone syncs with too.",
);

pub const TASKS: (&'static str, &'static str) = ("Tasks", "");

pub const NO_SETTINGS: (&'static str, &'static str) = (
    "Tasks",
    "asstd isn't answering, so its settings can't be shown.",
);

pub const SNOOZE: (&'static str, &'static str) = (
    "Snooze",
    "The buttons on a reminder, up to 3",
);

pub const NOTES: (&'static str, &'static str) = (
    "Notes",
    "A task can link to notes in the folder Nextcloud Notes keeps, as the Nextcloud client puts it on this computer.",
);

pub const NEW_TASKS: (&'static str, &'static str) = ("New Tasks", "");

pub const WINDOW: (&'static str, &'static str) = ("Window", "");

pub const BACKGROUND: (&'static str, &'static str) = (
    "Background",
    "Sync and reminders don't need the window: asstd runs on its own.",
);

pub const ARCHIVED: (&'static str, &'static str) = (
    "Archived Lists",
    "Out of the sidebar, the views and the counts. They still sync, and their reminders still ring.",
);

pub const VIEWS: (&'static str, &'static str) = (
    "Views",
    "Shown above your lists. Drag a view to move it.",
);

/// The rows with a choice in them.
pub const INBOX_ROW: (&'static str, &'static str) = (
    "Inbox",
    "Where a task goes when no list is named",
);

pub const REMINDER_ROW: (&'static str, &'static str) = (
    "Reminder",
    "For a task with a time, as on the iPhone",
);

pub const CHECK_ROW: (&'static str, &'static str) = (
    "Check for changes",
    "How often to look for edits made on other devices",
);

pub const PRIORITY_ROW: (&'static str, &'static str) = (
    "Priority",
    "When a task is added without one",
);

pub const LISTS_ROW: (&'static str, &'static str) = (
    "Lists",
    "Drag a list in the sidebar to move it",
);

/// The switches, for the preferences that are on or off.
pub const DATES_SWITCH: (&'static str, &'static str) = (
    "Read dates in titles",
    "Words like “tomorrow 5pm” or “every monday” set the date; off, they stay in the title",
);

pub const REMEMBER_SWITCH: (&'static str, &'static str) = (
    "Quick add remembers the list",
    "Start in the list the last task went to, instead of the inbox",
);

pub const LATER_SWITCH: (&'static str, &'static str) = (
    "Complete after a moment",
    "A checked task is struck through first, so a slip can be unchecked",
);

pub const SUNDAY_SWITCH: (&'static str, &'static str) = (
    "Week starts on Sunday",
    "In the date picker",
);

pub const TRAY_SWITCH: (&'static str, &'static str) = (
    "Run in background",
    "Keep asst in the tray when the window closes",
);

pub const COUNTS_SWITCH: (&'static str, &'static str) = (
    "Show task counts",
    "Beside views and lists",
);

/// What signing out means.
pub const SIGN_OUT: (&'static str, &'static str) = (
    "Sign out?",
    "asst forgets its app password and its copy of your tasks. They stay on Nextcloud and your other devices.",
);

/// Whose account it is: the server and the name; none when signed out.
pub fn account_row(status: Option<&StatusView>) -> (r: Option<(String, String)>)
    ensures
        match status {
            Some(s) => if s.state == SyncState::NoAccount {
                r is None
            } else {
                r matches Some(p) && p.0@ == (match s.server {
                    Some(h) => h@,
                    None => "Nextcloud"@,
                }) && p.1@ == (match s.username {
                    Some(u) => u@,
                    None => ""@,
                })
            },
            None => r is None,
        },
{
    match status {
        Some(s) => {
            if s.state == SyncState::NoAccount {
                return None;
            }
            let server = match &s.server {
                Some(h) => h.clone(),
                None => String::from_str("Nextcloud"),
            };
            let name = match &s.username {
                Some(u) => u.clone(),
                None => String::from_str(""),
            };
            Some((server, name))
        },
        None => None,
    }
}

/// The notes folder, and whether it is there.
pub fn notes_row(dir: &str, exists: bool) -> (r: String)
    ensures
        r@ == (if exists {
            dir@
        } else {
            dir@ + " doesn't exist"@
        }),
{
    if exists {
        String::from_str(dir)
    } else {
        glue(dir, " doesn't exist")
    }
}

/// What starts asst at login, in words: the compositor's config where it
/// does, with the path to be shown.
pub fn login_row(config: Option<&str>, reads_autostart: bool) -> (r: String)
    ensures
        r@ == (match config {
            Some(path) => "Started by "@ + path@,
            None => if reads_autostart {
                "Open in the tray when you log in"@
            } else {
                "This desktop doesn't run autostart entries: start <tt>"@
                    + crate::autostart::COMMAND@ + "</tt> from its config"@
            },
        }),
{
    match config {
        Some(path) => glue("Started by ", path),
        None => if reads_autostart {
            String::from_str("Open in the tray when you log in")
        } else {
            glue3(
                "This desktop doesn't run autostart entries: start <tt>",
                crate::autostart::COMMAND,
                "</tt> from its config",
            )
        },
    }
}

/// Whether the switch for starting at login can be turned: a line in the
/// compositor's config is the user's.
pub fn login_switchable(background: bool, by_compositor: bool) -> (r: bool)
    ensures
        r == (background && !by_compositor),
{
    background && !by_compositor
}

/// Which choice a default priority is.
pub fn priority_choice(level: u8) -> (r: u8)
    ensures
        r == (if level < 1 {
            0
        } else if level > 4 {
            3
        } else {
            level - 1
        }),
{
    if level < 1 {
        0
    } else if level > 4 {
        3
    } else {
        level - 1
    }
}

// -- the sidebar's views ------------------------------------------------------------------------

/// A view's row: the view, and whether it is switched on.
#[derive(Debug, Clone)]
pub struct ViewRow {
    pub nav: Nav,
    pub on: bool,
}

pub open spec fn view_rows(v: Seq<ViewRow>) -> Seq<(NavView, bool)> {
    v.map_values(|r: ViewRow| (r.nav@, r.on))
}

/// The views of rows.
pub open spec fn row_navs(s: Seq<(NavView, bool)>) -> Seq<NavView> {
    s.map_values(|p: (NavView, bool)| p.0)
}

/// The rows for the views shown, then for the others.
pub open spec fn rows_of(shown: Seq<NavView>) -> Seq<(NavView, bool)> {
    shown.map_values(|n: NavView| (n, true)) + smart_views().filter(
        |n: NavView| !shown.contains(n),
    ).map_values(|n: NavView| (n, false))
}

fn has_nav(v: &Vec<Nav>, n: &Nav) -> (r: bool)
    ensures
        r == navs(v@).contains(n@),
{
    for i in 0..v.len()
        invariant
            forall|j: int| 0 <= j < i ==> navs(v@)[j] != n@,
    {
        if v[i].is(n) {
            assert(navs(v@)[i as int] == n@);
            return true;
        }
    }
    false
}

/// The rows for the sidebar's views, in order, then for those not in it.
pub fn sidebar_rows(p: &Prefs) -> (r: Vec<ViewRow>)
    ensures
        view_rows(r@) == rows_of(sidebar_of(sidebar_keys(p.sidebar))),
{
    let views = p.sidebar_views();
    let ghost shown = navs(views@);
    let mut out: Vec<ViewRow> = Vec::new();
    let ghost on = shown.map_values(|n: NavView| (n, true));
    for i in 0..views.len()
        invariant
            shown == navs(views@),
            on == shown.map_values(|n: NavView| (n, true)),
            view_rows(out@) == on.take(i as int),
    {
        let ghost before = view_rows(out@);
        out.push(ViewRow { nav: views[i].clone(), on: true });
        assert(view_rows(out@) =~= before.push(on[i as int]));
    }
    assert(on.take(on.len() as int) == on);
    let all = Nav::filters();
    let ghost s = smart_views();
    let ghost q = |n: NavView| !shown.contains(n);
    let ghost off = |n: NavView| (n, false);
    proof {
        reveal(Seq::filter);
        assert(on + s.take(0).filter(q).map_values(off) =~= on);
    }
    for i in 0..8usize
        invariant
            shown == navs(views@),
            s == smart_views(),
            navs(all@) == s,
            q == (|n: NavView| !shown.contains(n)),
            off == (|n: NavView| (n, false)),
            view_rows(out@) == on + s.take(i as int).filter(q).map_values(off),
    {
        let ghost before = view_rows(out@);
        proof {
            reveal(Seq::filter);
            assert(s.take(i + 1).drop_last() == s.take(i as int));
            assert(s.take(i + 1).last() == s[i as int]);
            assert(navs(all@)[i as int] == all@[i as int]@);
        }
        if !has_nav(&views, &all[i]) {
            out.push(ViewRow { nav: all[i].clone(), on: false });
            assert(view_rows(out@) =~= before.push((s[i as int], false)));
            assert(view_rows(out@) =~= on + s.take(i + 1).filter(q).map_values(off));
        }
    }
    assert(s.take(8) == s);
    out
}

/// The views that are switched on, in the order of their rows.
pub open spec fn switched_on(s: Seq<(NavView, bool)>) -> Seq<NavView> {
    row_navs(s.filter(|p: (NavView, bool)| p.1))
}

/// The views that are switched on, in the order of their rows.
pub fn visible_views(rows: &Vec<ViewRow>) -> (r: Vec<Nav>)
    ensures
        navs(r@) == switched_on(view_rows(rows@)),
{
    let mut out: Vec<Nav> = Vec::new();
    let ghost s = view_rows(rows@);
    let ghost p = |p: (NavView, bool)| p.1;
    proof {
        reveal(Seq::filter);
        assert(navs(out@) =~= row_navs(s.take(0).filter(p)));
    }
    for i in 0..rows.len()
        invariant
            s == view_rows(rows@),
            p == (|p: (NavView, bool)| p.1),
            navs(out@) == row_navs(s.take(i as int).filter(p)),
    {
        let ghost before = navs(out@);
        proof {
            reveal(Seq::filter);
            assert(s.take(i + 1).drop_last() == s.take(i as int));
            assert(s.take(i + 1).last() == s[i as int]);
        }
        if rows[i].on {
            out.push(rows[i].nav.clone());
            assert(navs(out@) =~= before.push(s[i as int].0));
            assert(navs(out@) =~= row_navs(s.take(i + 1).filter(p)));
        }
    }
    assert(s.take(s.len() as int) == s);
    out
}

/// What a dragged view row carries.
pub const VIEW_PREFIX: &'static str = "asst-view:";

/// Where the row of a view is, by its name.
pub open spec fn row_at(s: Seq<(NavView, bool)>, key: Seq<char>) -> Option<int>
    decreases s.len(),
{
    if s.len() == 0 {
        None
    } else if key_of(s[0].0) == key {
        Some(0)
    } else {
        match row_at(s.skip(1), key) {
            Some(i) => Some(i + 1),
            None => None,
        }
    }
}

/// The rows after one was dropped on another's upper or lower half.
pub open spec fn view_dropped(
    s: Seq<(NavView, bool)>,
    payload: Seq<char>,
    on: int,
    below: bool,
) -> Option<Seq<(NavView, bool)>> {
    if !starts_with(payload, VIEW_PREFIX@) {
        None
    } else {
        match row_at(s, payload.skip(VIEW_PREFIX@.len() as int)) {
            None => None,
            Some(from) => if from == on {
                None
            } else {
                let left = s.remove(from);
                let at = (if from < on {
                    on - 1
                } else {
                    on
                }) + (if below {
                    1int
                } else {
                    0
                });
                Some(left.insert(at, s[from]))
            },
        }
    }
}

/// Drops a dragged view row on another. Whether there was one to drop.
pub fn drop_view(rows: &mut Vec<ViewRow>, payload: &str, on: usize, below: bool) -> (r: bool)
    requires
        on < old(rows)@.len(),
    ensures
        match view_dropped(view_rows(old(rows)@), payload@, on as int, below) {
            Some(s) => r && view_rows(final(rows)@) == s,
            None => !r && final(rows)@ == old(rows)@,
        },
{
    let ghost s = view_rows(rows@);
    match after_prefix(payload, VIEW_PREFIX) {
        None => false,
        Some(key) => {
            let n = rows.len();
            let mut from: usize = 0;
            assert(s.skip(0) == s);
            while from < n && !same(rows[from].nav.key().as_str(), key.as_str())
                invariant
                    s == view_rows(rows@),
                    n == rows@.len(),
                    from <= n,
                    row_at(s, key@) == (match row_at(s.skip(from as int), key@) {
                        Some(i) => Some(i + from),
                        None => None,
                    }),
                decreases n - from,
            {
                let ghost t = s.skip(from as int);
                assert(t[0] == s[from as int]);
                assert(t.skip(1) == s.skip(from + 1));
                from += 1;
            }
            if from == n {
                assert(s.skip(n as int).len() == 0);
                return false;
            }
            assert(s.skip(from as int)[0] == s[from as int]);
            if from == on {
                return false;
            }
            let at: usize = (if from < on {
                on - 1
            } else {
                on
            }) + (if below {
                1
            } else {
                0
            });
            let row = rows.remove(from);
            assert(view_rows(rows@) =~= s.remove(from as int));
            rows.insert(at, row);
            assert(view_rows(rows@) =~= s.remove(from as int).insert(at as int, s[from as int]));
            true
        },
    }
}

/// A row dropped on another stands right above or below it.
pub proof fn dropped_view_is_next(
    s: Seq<(NavView, bool)>,
    payload: Seq<char>,
    on: int,
    below: bool,
)
    requires
        0 <= on < s.len(),
        view_dropped(s, payload, on, below) is Some,
    ensures
        ({
            let from = row_at(s, payload.skip(VIEW_PREFIX@.len() as int))->0;
            let r = view_dropped(s, payload, on, below)->0;
            let at = (if from < on {
                on - 1
            } else {
                on
            }) + (if below {
                1int
            } else {
                0
            });
            &&& r.len() == s.len()
            &&& r[at] == s[from]
            &&& r[if below {
                at - 1
            } else {
                at + 1
            }] == s[on]
        }),
{
    let key = payload.skip(VIEW_PREFIX@.len() as int);
    lemma_row_at(s, key);
}

proof fn lemma_row_at(s: Seq<(NavView, bool)>, key: Seq<char>)
    ensures
        row_at(s, key) matches Some(i) ==> 0 <= i < s.len() && key_of(s[i].0) == key,
    decreases s.len(),
{
    if s.len() > 0 {
        lemma_row_at(s.skip(1), key);
    }
}

} // verus!
