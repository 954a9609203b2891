//! A repeat rule that was written reads back as what was written.

use vstd::prelude::*;

use crate::date::{Date, every_day_is_civil, padded, written, year_text};
use crate::number::{all_digits, decimal, decimal_reads_back, decimal_round_trip, value};
use crate::repeat::{
    Draft, End, Freq, RepeatView, codes, date_of, days_of, in_week_order, no_draft, parts_of,
    rule_of, text_of_rule, week, weekday_of_code, with_part, with_parts,
};
use crate::text::{
    ascii_upper_text, digit, first_of, join, lemma_first_is, lemma_first_of, pieces, trim, white,
};
use crate::date::Weekday;

verus! {

/// No `c` in `s`.
spec fn free_of(s: Seq<char>, c: char) -> bool {
    forall|i: int| 0 <= i < s.len() ==> s[i] != c
}

/// Cutting after one more piece gives one more piece.
proof fn lemma_pieces_push(a: Seq<char>, c: char, b: Seq<char>)
    requires
        free_of(b, c),
    ensures
        pieces(a.push(c) + b, c) == pieces(a, c).push(b),
    decreases a.len(),
{
    let s = a.push(c) + b;
    lemma_first_of(a, c);
    lemma_first_of(b, c);
    match first_of(a, c) {
        None => {
            assert(s[a.len() as int] == c);
            assert forall|j: int| 0 <= j < a.len() implies s[j] != c by {
                assert(s[j] == a[j]);
            }
            lemma_first_is(s, c, a.len() as int);
            assert(s.take(a.len() as int) == a);
            assert(s.skip(a.len() as int + 1) == b);
            assert(pieces(b, c) == seq![b]);
            assert(seq![a] + seq![b] == seq![a].push(b));
        },
        Some(i) => {
            assert(s[i] == c);
            assert forall|j: int| 0 <= j < i implies s[j] != c by {
                assert(s[j] == a[j]);
            }
            lemma_first_is(s, c, i);
            assert(s.take(i) == a.take(i));
            assert(s.skip(i + 1) == a.skip(i + 1).push(c) + b);
            lemma_pieces_push(a.skip(i + 1), c, b);
            assert(seq![a.take(i)] + pieces(a.skip(i + 1), c).push(b) == (seq![a.take(i)] + pieces(
                a.skip(i + 1),
                c,
            )).push(b));
        },
    }
}

/// Texts joined by a character that none of them has come apart at it.
proof fn lemma_pieces_join(v: Seq<Seq<char>>, sep: Seq<char>, c: char)
    requires
        sep == seq![c],
        v.len() > 0,
        forall|i: int| 0 <= i < v.len() ==> free_of(#[trigger] v[i], c),
    ensures
        pieces(join(v, sep), c) == v,
    decreases v.len(),
{
    assert(free_of(v[v.len() - 1], c));
    if v.len() == 1 {
        lemma_first_of(v[0], c);
        assert(v == seq![v[0]]);
    } else {
        let t = v.drop_last();
        assert forall|i: int| 0 <= i < t.len() implies free_of(#[trigger] t[i], c) by {
            assert(t[i] == v[i]);
        }
        lemma_pieces_join(t, sep, c);
        assert(join(v, sep) == join(t, sep).push(c) + v.last());
        lemma_pieces_push(join(t, sep), c, v.last());
        assert(t.push(v.last()) == v);
    }
}

/// The ends of joined texts are the ends of the first and the last.
proof fn lemma_join_ends(v: Seq<Seq<char>>, sep: Seq<char>)
    requires
        v.len() > 0,
        v[0].len() > 0,
        v.last().len() > 0,
    ensures
        join(v, sep).len() > 0,
        join(v, sep)[0] == v[0][0],
        join(v, sep).last() == v.last().last(),
    decreases v.len(),
{
    if v.len() > 1 {
        let t = v.drop_last();
        assert(t[0] == v[0]);
        lemma_join_starts(t, sep);
    }
}

proof fn lemma_join_starts(v: Seq<Seq<char>>, sep: Seq<char>)
    requires
        v.len() > 0,
        v[0].len() > 0,
    ensures
        join(v, sep).len() > 0,
        join(v, sep)[0] == v[0][0],
    decreases v.len(),
{
    if v.len() > 1 {
        let t = v.drop_last();
        assert(t[0] == v[0]);
        lemma_join_starts(t, sep);
    }
}

/// Text with no white space at its ends stays as it is.
proof fn lemma_trim_none(s: Seq<char>)
    requires
        s.len() > 0,
        !white(s[0]),
        !white(s.last()),
    ensures
        trim(s) == s,
{
}

/// A part of a rule: it can stand between semicolons.
spec fn is_part(p: Seq<char>) -> bool {
    free_of(p, ';') && p.len() > 0 && !white(p[0]) && !white(p.last())
}

proof fn lemma_freq(d: Draft, f: Freq)
    ensures
        is_part("FREQ="@ + f.word()),
        with_part(d, "FREQ="@ + f.word()) == Some(Draft { freq: Some(f), ..d }),
{
    let p = "FREQ="@ + f.word();
    reveal_strlit("FREQ=");
    reveal_strlit("FREQ");
    reveal_strlit("DAILY");
    reveal_strlit("WEEKLY");
    reveal_strlit("MONTHLY");
    reveal_strlit("YEARLY");
    assert(p[0] == 'F' && p[1] == 'R' && p[2] == 'E' && p[3] == 'Q' && p[4] == '=');
    lemma_first_is(p, '=', 4);
    assert(p.take(4) == "FREQ"@);
    assert(ascii_upper_text("FREQ"@) == "FREQ"@);
    assert(p.skip(5) == f.word());
    assert(ascii_upper_text(f.word()) == f.word());
    assert("DAILY"@[0] == 'D' && "WEEKLY"@[0] == 'W' && "MONTHLY"@[0] == 'M' && "YEARLY"@[0]
        == 'Y');
}

proof fn lemma_decimal_part(n: nat)
    ensures
        free_of(decimal(n), ';'),
        decimal(n).len() > 0,
        !white(decimal(n).last()),
{
    decimal_reads_back(n);
    let s = decimal(n);
    assert(digit(s[s.len() - 1]));
}

proof fn lemma_interval(d: Draft, n: nat)
    requires
        0 < n <= u32::MAX,
    ensures
        is_part("INTERVAL="@ + decimal(n)),
        with_part(d, "INTERVAL="@ + decimal(n)) == Some(Draft { interval: n, ..d }),
{
    let p = "INTERVAL="@ + decimal(n);
    reveal_strlit("INTERVAL=");
    reveal_strlit("INTERVAL");
    reveal_strlit("FREQ");
    lemma_decimal_part(n);
    decimal_round_trip(n, u32::MAX as nat);
    assert("INTERVAL="@[8] == '=');
    assert(p[0] == 'I' && p[1] == 'N' && p[2] == 'T' && p[3] == 'E' && p[4] == 'R' && p[5] == 'V'
        && p[6] == 'A' && p[7] == 'L' && p[8] == '=');
    lemma_first_is(p, '=', 8);
    assert(p.take(8) == "INTERVAL"@);
    assert(ascii_upper_text("INTERVAL"@) == "INTERVAL"@);
    assert(p.skip(9) == decimal(n));
    assert(p.last() == decimal(n).last());
    assert("INTERVAL"@[0] == 'I' && "FREQ"@[0] == 'F');
}

proof fn lemma_count(d: Draft, n: u32)
    ensures
        is_part("COUNT="@ + decimal(n as nat)),
        with_part(d, "COUNT="@ + decimal(n as nat)) == Some(Draft { end: End::Count(n), ..d }),
{
    let v = decimal(n as nat);
    let p = "COUNT="@ + v;
    reveal_strlit("COUNT=");
    reveal_strlit("COUNT");
    reveal_strlit("INTERVAL");
    reveal_strlit("FREQ");
    reveal_strlit("BYDAY");
    lemma_decimal_part(n as nat);
    decimal_round_trip(n as nat, u32::MAX as nat);
    assert(p[0] == 'C' && p[1] == 'O' && p[2] == 'U' && p[3] == 'N' && p[4] == 'T' && p[5] == '=');
    lemma_first_is(p, '=', 5);
    assert(p.take(5) == "COUNT"@);
    assert(ascii_upper_text("COUNT"@) == "COUNT"@);
    assert(p.skip(6) == v);
    assert(p.last() == v.last());
    assert("INTERVAL"@[0] == 'I' && "FREQ"@[0] == 'F' && "BYDAY"@[0] == 'B' && "COUNT"@[0] == 'C');
}

/// Leading zeros up to a width leave the value and the digits.
proof fn lemma_padded(n: nat, w: nat)
    requires
        decimal(n).len() <= w,
    ensures
        padded(n, w).len() == w,
        all_digits(padded(n, w)),
        value(padded(n, w)) == n,
{
    decimal_reads_back(n);
    let k = (w - decimal(n).len()) as nat;
    let zeros = Seq::new(k, |i: int| '0');
    assert(padded(n, w) == zeros + decimal(n));
    assert forall|i: int| 0 <= i < padded(n, w).len() implies digit(#[trigger] padded(n, w)[i]) by {
        if i >= k {
            assert(padded(n, w)[i] == decimal(n)[i - k]);
        }
    }
    lemma_zeros(k, decimal(n));
}

proof fn lemma_zeros(k: nat, s: Seq<char>)
    ensures
        value(Seq::new(k, |i: int| '0') + s) == value(s),
    decreases k + s.len(),
{
    let z = Seq::new(k, |i: int| '0');
    let t = z + s;
    if s.len() > 0 {
        assert(t.drop_last() == z + s.drop_last());
        lemma_zeros(k, s.drop_last());
    } else if k > 0 {
        let y = Seq::new((k - 1) as nat, |i: int| '0');
        assert(t.drop_last() == y + s);
        lemma_zeros((k - 1) as nat, s);
        assert(t.last() == '0');
    } else {
        assert(t == s);
    }
}

/// Numbers of one, two and four digits at most.
proof fn lemma_lengths(n: nat)
    ensures
        n < 100 ==> decimal(n).len() <= 2,
        n < 10000 ==> decimal(n).len() <= 4,
{
    reveal_with_fuel(decimal, 5);
}

proof fn lemma_until(d: Draft, u: Date, timed: bool)
    requires
        u.wf(),
        0 <= u.year() <= 9999,
    ensures
        ({
            let p = if timed {
                "UNTIL="@ + written(u.ce as int, "%Y%m%d"@) + "T235959Z"@
            } else {
                "UNTIL="@ + written(u.ce as int, "%Y%m%d"@)
            };
            is_part(p) && with_part(d, p) == Some(Draft { end: End::Until(u), ..d })
        }),
{
    let n = u.ce as int;
    every_day_is_civil(n);
    let (y, m, dd) = (u.year(), u.month(), u.day());
    let day = written(n, "%Y%m%d"@);
    lemma_format_is_last(n);
    let (a, b, c) = (padded(y as nat, 4), padded(m as nat, 2), padded(dd as nat, 2));
    lemma_lengths(y as nat);
    lemma_lengths(m as nat);
    lemma_lengths(dd as nat);
    lemma_padded(y as nat, 4);
    lemma_padded(m as nat, 2);
    lemma_padded(dd as nat, 2);
    assert(day == a + b + c);
    let p = if timed {
        "UNTIL="@ + day + "T235959Z"@
    } else {
        "UNTIL="@ + day
    };
    reveal_strlit("UNTIL=");
    reveal_strlit("UNTIL");
    reveal_strlit("T235959Z");
    reveal_strlit("COUNT");
    reveal_strlit("INTERVAL");
    reveal_strlit("FREQ");
    reveal_strlit("BYDAY");
    assert(p[0] == 'U' && p[1] == 'N' && p[2] == 'T' && p[3] == 'I' && p[4] == 'L' && p[5] == '=');
    lemma_first_is(p, '=', 5);
    assert(p.take(5) == "UNTIL"@);
    assert(ascii_upper_text("UNTIL"@) == "UNTIL"@);
    let v = p.skip(6);
    assert(v.subrange(0, 4) == a);
    assert(v.subrange(4, 6) == b);
    assert(v.subrange(6, 8) == c);
    assert forall|i: int| 0 <= i < 8 implies digit(#[trigger] day[i]) by {
        if i < 4 {
            assert(day[i] == a[i]);
        } else if i < 6 {
            assert(day[i] == b[i - 4]);
        } else {
            assert(day[i] == c[i - 6]);
        }
    }
    assert forall|i: int| 0 <= i < 8 implies digit(#[trigger] v.take(8)[i]) by {
        assert(v.take(8)[i] == day[i]);
    }
    assert forall|i: int| 0 <= i < p.len() implies p[i] != ';' by {
        if 6 <= i < 14 {
            assert(p[i] == day[i - 6]);
        } else if i >= 14 {
            assert(p[i] == "T235959Z"@[i - 14]);
        }
    }
    if timed {
        assert(p.last() == "T235959Z"@[7]);
    } else {
        assert(p.last() == day[7]);
    }
    assert("INTERVAL"@[0] == 'I' && "FREQ"@[0] == 'F' && "BYDAY"@[0] == 'B' && "COUNT"@[0] == 'C'
        && "UNTIL"@[0] == 'U');
    assert(date_of(v) == Some(u));
}

/// The format of eight digits is none of the others.
proof fn lemma_format_is_last(n: int)
    ensures
        written(n, "%Y%m%d"@) == year_text(crate::date::year_of(n)) + padded(
            crate::date::month_of(n) as nat,
            2,
        ) + padded(crate::date::day_of(n) as nat, 2),
{
    reveal_strlit("%Y%m%d");
    reveal_strlit("%A");
    reveal_strlit("%a");
    reveal_strlit("%B");
    reveal_strlit("%b");
    reveal_strlit("%A, %b %-d");
    reveal_strlit("%A, %b %-d %Y");
    reveal_strlit("%A, %B %-d");
    reveal_strlit("%a %b %-d");
    reveal_strlit("on %b %-d");
    reveal_strlit("on %b %-d, %Y");
    let f = "%Y%m%d"@;
    assert(f.len() == 6);
    assert("%A, %b %-d"@.len() == 10 && "%A, %b %-d %Y"@.len() == 13 && "%A, %B %-d"@.len() == 10
        && "%a %b %-d"@.len() == 9 && "on %b %-d"@.len() == 9 && "on %b %-d, %Y"@.len() == 13);
}

/// A day's letters stand for it.
proof fn lemma_code(w: Weekday)
    ensures
        weekday_of_code(w.letters()) == Some(w),
        free_of(w.letters(), ','),
        free_of(w.letters(), ';'),
        w.letters().len() == 2,
        !white(w.letters()[1]),
{
    reveal_strlit("MO");
    reveal_strlit("TU");
    reveal_strlit("WE");
    reveal_strlit("TH");
    reveal_strlit("FR");
    reveal_strlit("SA");
    reveal_strlit("SU");
    let s = w.letters();
    lemma_trim_none(s);
    assert(ascii_upper_text(s) == s);
    assert("MO"@[0] == 'M' && "TU"@[0] == 'T' && "TU"@[1] == 'U' && "WE"@[0] == 'W' && "TH"@[0]
        == 'T' && "TH"@[1] == 'H' && "FR"@[0] == 'F' && "SA"@[0] == 'S' && "SA"@[1] == 'A'
        && "SU"@[0] == 'S' && "SU"@[1] == 'U');
}

/// The letters of days stand for those days.
proof fn lemma_codes(days: Seq<Weekday>)
    ensures
        days_of(codes(days)) == Some(days),
    decreases days.len(),
{
    if days.len() > 0 {
        let t = days.drop_last();
        lemma_codes(t);
        lemma_code(days.last());
        assert(codes(days).drop_last() == codes(t));
        assert(t.push(days.last()) == days);
    } else {
        assert(codes(days).len() == 0);
        assert(days == Seq::<Weekday>::empty());
    }
}

proof fn lemma_join_free(v: Seq<Seq<char>>, sep: Seq<char>, c: char)
    requires
        free_of(sep, c),
        forall|i: int| 0 <= i < v.len() ==> free_of(#[trigger] v[i], c),
    ensures
        free_of(join(v, sep), c),
    decreases v.len(),
{
    if v.len() > 0 {
        assert(free_of(v[v.len() - 1], c));
        let t = v.drop_last();
        assert forall|i: int| 0 <= i < t.len() implies free_of(#[trigger] t[i], c) by {
            assert(t[i] == v[i]);
        }
        lemma_join_free(t, sep, c);
        if v.len() > 1 {
            let s = join(v, sep);
            let a = join(t, sep);
            assert forall|i: int| 0 <= i < s.len() implies s[i] != c by {
                if i < a.len() {
                    assert(s[i] == a[i]);
                } else if i < a.len() + sep.len() {
                    assert(s[i] == sep[i - a.len()]);
                } else {
                    assert(s[i] == v.last()[i - a.len() - sep.len()]);
                }
            }
        }
    }
}

proof fn lemma_byday(d: Draft, days: Seq<Weekday>)
    requires
        days.len() > 0,
    ensures
        is_part("BYDAY="@ + join(codes(days), ","@)),
        with_part(d, "BYDAY="@ + join(codes(days), ","@)) == Some(
            Draft { days: d.days + days, ..d },
        ),
{
    let c = codes(days);
    let v = join(c, ","@);
    let p = "BYDAY="@ + v;
    reveal_strlit("BYDAY=");
    reveal_strlit("BYDAY");
    reveal_strlit("INTERVAL");
    reveal_strlit("FREQ");
    reveal_strlit(",");
    assert(","@ == seq![',']);
    assert forall|i: int| 0 <= i < c.len() implies free_of(#[trigger] c[i], ',') && free_of(
        c[i],
        ';',
    ) && c[i].len() == 2 && !white(c[i].last()) by {
        lemma_code(days[i]);
    }
    assert forall|i: int| 0 <= i < c.len() implies free_of(#[trigger] c[i], ';') by {
        lemma_code(days[i]);
    }
    lemma_pieces_join(c, ","@, ',');
    lemma_join_free(c, ","@, ';');
    assert(c[0].len() == 2 && c[c.len() - 1].len() == 2);
    assert(!white(c[c.len() - 1].last()));
    lemma_join_ends(c, ","@);
    lemma_codes(days);
    assert(p[0] == 'B' && p[1] == 'Y' && p[2] == 'D' && p[3] == 'A' && p[4] == 'Y' && p[5] == '=');
    lemma_first_is(p, '=', 5);
    assert(p.take(5) == "BYDAY"@);
    assert(ascii_upper_text("BYDAY"@) == "BYDAY"@);
    assert(p.skip(6) == v);
    assert(p.last() == v.last());
    assert forall|i: int| 0 <= i < p.len() implies p[i] != ';' by {
        if i >= 6 {
            assert(p[i] == v[i - 6]);
        }
    }
    assert("INTERVAL"@[0] == 'I' && "FREQ"@[0] == 'F' && "BYDAY"@[0] == 'B');
}

/// A repeat as a rule can say it: days in the order of the week, each once,
/// and only for weeks.
pub open spec fn sayable(r: RepeatView) -> RepeatView {
    RepeatView {
        days: if r.freq == Freq::Weekly {
            in_week_order(r.days)
        } else {
            Seq::empty()
        },
        ..r
    }
}

proof fn lemma_week_has(w: Weekday)
    ensures
        week().contains(w),
{
    let i = w.index();
    assert(week()[i] == w);
}

proof fn lemma_some_day(days: Seq<Weekday>)
    requires
        days.len() > 0,
    ensures
        in_week_order(days).len() > 0,
{
    let w = days[0];
    assert(days.contains(w));
    lemma_week_has(w);
    let p = |w: Weekday| days.contains(w);
    let i = choose|i: int| 0 <= i < week().len() && week()[i] == w;
    lemma_filter_some(week(), p, i);
}

proof fn lemma_filter_some(s: Seq<Weekday>, p: spec_fn(Weekday) -> bool, i: int)
    requires
        0 <= i < s.len(),
        p(s[i]),
    ensures
        s.filter(p).len() > 0,
    decreases s.len(),
{
    reveal(Seq::filter);
    if i < s.len() - 1 {
        lemma_filter_some(s.drop_last(), p, i);
    }
}

proof fn lemma_one_more(p: Seq<Seq<char>>, d: Draft, x: Seq<char>)
    requires
        with_parts(p) == Some(d),
        x.len() > 0,
    ensures
        with_parts(p.push(x)) == with_part(d, x),
{
    assert(p.push(x).drop_last() == p);
    assert(p.push(x).last() == x);
}

/// A repeat that is written as a rule and read again is the same repeat, with
/// its days in the order of the week.
pub proof fn rules_round_trip(r: RepeatView, timed: bool)
    requires
        0 < r.interval <= u32::MAX,
        r.end matches End::Until(d) ==> d.wf() && 0 <= d.year() <= 9999,
    ensures
        rule_of(text_of_rule(r, timed)) == Some(sayable(r)),
{
    let parts = parts_of(r, timed);
    let d0 = no_draft();
    assert(with_parts(Seq::<Seq<char>>::empty()) == Some(d0));
    // FREQ.
    let p1 = seq!["FREQ="@ + r.freq.word()];
    let d1 = Draft { freq: Some(r.freq), ..d0 };
    lemma_freq(d0, r.freq);
    lemma_one_more(Seq::empty(), d0, "FREQ="@ + r.freq.word());
    assert(Seq::<Seq<char>>::empty().push("FREQ="@ + r.freq.word()) == p1);
    // INTERVAL.
    let p2 = p1 + (if r.interval > 1 {
        seq!["INTERVAL="@ + decimal(r.interval)]
    } else {
        Seq::empty()
    });
    let d2 = Draft { interval: r.interval, ..d1 };
    if r.interval > 1 {
        lemma_interval(d1, r.interval);
        lemma_one_more(p1, d1, "INTERVAL="@ + decimal(r.interval));
        assert(p2 == p1.push("INTERVAL="@ + decimal(r.interval)));
    } else {
        assert(p2 == p1);
        assert(d2 == d1);
    }
    // BYDAY.
    let days = in_week_order(r.days);
    let p3 = p2 + (if r.freq == Freq::Weekly && r.days.len() > 0 {
        seq!["BYDAY="@ + join(codes(days), ","@)]
    } else {
        Seq::empty()
    });
    let d3 = Draft { days: sayable(r).days, ..d2 };
    if r.freq == Freq::Weekly && r.days.len() > 0 {
        lemma_some_day(r.days);
        lemma_byday(d2, days);
        lemma_one_more(p2, d2, "BYDAY="@ + join(codes(days), ","@));
        assert(p3 == p2.push("BYDAY="@ + join(codes(days), ","@)));
        assert(d2.days + days == days);
    } else {
        assert(p3 == p2);
        if r.freq == Freq::Weekly {
            lemma_no_days(r.days);
        }
        assert(d3.days == d2.days);
        assert(d3 == d2);
    }
    // COUNT or UNTIL.
    let d4 = Draft { end: r.end, ..d3 };
    match r.end {
        End::Never => {
            assert(parts == p3);
            assert(d4 == d3);
        },
        End::Count(n) => {
            lemma_count(d3, n);
            lemma_one_more(p3, d3, "COUNT="@ + decimal(n as nat));
            assert(parts == p3.push("COUNT="@ + decimal(n as nat)));
        },
        End::Until(u) => {
            let x = if timed {
                "UNTIL="@ + written(u.ce as int, "%Y%m%d"@) + "T235959Z"@
            } else {
                "UNTIL="@ + written(u.ce as int, "%Y%m%d"@)
            };
            lemma_until(d3, u, timed);
            lemma_one_more(p3, d3, x);
            assert(parts == p3.push(x));
        },
    }
    assert(with_parts(parts) == Some(d4));
    // The parts come apart where they were joined.
    assert forall|i: int| 0 <= i < parts.len() implies is_part(#[trigger] parts[i]) by {
        if i < p3.len() {
            assert(parts[i] == p3[i]);
            if i < p2.len() {
                assert(p3[i] == p2[i]);
                if i < p1.len() {
                    assert(p2[i] == p1[i]);
                }
            }
        }
    }
    assert forall|i: int| 0 <= i < parts.len() implies free_of(#[trigger] parts[i], ';') by {
        assert(is_part(parts[i]));
    }
    reveal_strlit(";");
    assert(";"@ == seq![';']);
    lemma_pieces_join(parts, ";"@, ';');
    assert(is_part(parts[0]) && is_part(parts[parts.len() - 1]));
    lemma_join_ends(parts, ";"@);
    lemma_trim_none(text_of_rule(r, timed));
    assert(sayable(r) =~= RepeatView {
        freq: r.freq,
        interval: d4.interval,
        days: d4.days,
        end: d4.end,
    });
}

proof fn lemma_no_days(days: Seq<Weekday>)
    requires
        days.len() == 0,
    ensures
        in_week_order(days) == Seq::<Weekday>::empty(),
{
    reveal_with_fuel(Seq::filter, 8);
    let p = |w: Weekday| days.contains(w);
    let s = week();
    assert(s.filter(p).len() == 0) by {
        lemma_filter_none(s, p);
    }
}

proof fn lemma_filter_none(s: Seq<Weekday>, p: spec_fn(Weekday) -> bool)
    requires
        forall|w: Weekday| !(#[trigger] p(w)),
    ensures
        s.filter(p).len() == 0,
    decreases s.len(),
{
    reveal(Seq::filter);
    if s.len() > 0 {
        lemma_filter_none(s.drop_last(), p);
    }
}

} // verus!
