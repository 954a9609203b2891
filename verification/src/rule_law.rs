//! What a repeat rule says, in the words of RFC 5545, and what is read in one.

use vstd::prelude::*;

use crate::date::{Weekday, written};
use crate::number::decimal;
use crate::repeat::{
    End, Freq, REPEAT_PRESETS, Repeat, RepeatView, codes, in_week_order, parts_of, text_of_rule,
    week, with_parts,
};
use crate::repeat_law::{rules_round_trip, sayable};
use crate::text::{ascii_upper_text, join, lemma_first_of, pieces, trim};

verus! {

/// Every day, week, month and year, as rules have them.
pub open spec fn rfc_word(f: Freq) -> Seq<char> {
    match f {
        Freq::Daily => "DAILY"@,
        Freq::Weekly => "WEEKLY"@,
        Freq::Monthly => "MONTHLY"@,
        Freq::Yearly => "YEARLY"@,
    }
}

pub open spec fn one_if(b: bool, s: Seq<char>) -> Seq<Seq<char>> {
    if b {
        seq![s]
    } else {
        Seq::empty()
    }
}

/// The days that are among `d`, as rules have them, from Monday on.
pub open spec fn rfc_days(d: Seq<Weekday>) -> Seq<Seq<char>> {
    one_if(d.contains(Weekday::Mon), "MO"@) + one_if(d.contains(Weekday::Tue), "TU"@) + one_if(
        d.contains(Weekday::Wed),
        "WE"@,
    ) + one_if(d.contains(Weekday::Thu), "TH"@) + one_if(d.contains(Weekday::Fri), "FR"@)
        + one_if(d.contains(Weekday::Sat), "SA"@) + one_if(d.contains(Weekday::Sun), "SU"@)
}

// -- writing ------------------------------------------------------------------------------------

/// The rule for a repeat starts with its frequency, says its interval when
/// that is more than one, its days when it is by the week, and its end: after
/// so many times, or on a day, to the end of it where the task has a time.
pub proof fn rules_are_written(x: Repeat, timed: bool, r: String)
    requires
        x.end matches End::Until(d) ==> d.wf(),
        call_ensures(Repeat::to_rule, (&x, timed), r),
    ensures
        r@ == "FREQ="@ + rfc_word(x.freq) + (if x.interval > 1 {
            ";INTERVAL="@ + decimal(x.interval as nat)
        } else {
            ""@
        }) + (if x.freq == Freq::Weekly && x.days@.len() > 0 {
            ";BYDAY="@ + join(rfc_days(x.days@), ","@)
        } else {
            ""@
        }) + (match x.end {
            End::Never => ""@,
            End::Count(n) => ";COUNT="@ + decimal(n as nat),
            End::Until(d) => ";UNTIL="@ + written(d.ce as int, "%Y%m%d"@) + (if timed {
                "T235959Z"@
            } else {
                ""@
            }),
        }),
{
    lemma_text(x@, timed);
}

/// The rule for a repeat starts with the word for its frequency, and nothing
/// more of a word.
pub proof fn rules_start_with_frequency(x: Repeat, timed: bool, r: String)
    requires
        x.end matches End::Until(d) ==> d.wf(),
        call_ensures(Repeat::to_rule, (&x, timed), r),
    ensures
        x.freq == Freq::Daily ==> starts_rule(r@, "FREQ=DAILY"@),
        x.freq == Freq::Weekly ==> starts_rule(r@, "FREQ=WEEKLY"@),
        x.freq == Freq::Monthly ==> starts_rule(r@, "FREQ=MONTHLY"@),
        x.freq == Freq::Yearly ==> starts_rule(r@, "FREQ=YEARLY"@),
{
    rules_are_written(x, timed, r);
    lemma_literals();
    let w = "FREQ="@ + rfc_word(x.freq);
    assert(r@.take(w.len() as int) =~= w);
    assert("FREQ=DAILY"@ =~= "FREQ="@ + "DAILY"@);
    assert("FREQ=WEEKLY"@ =~= "FREQ="@ + "WEEKLY"@);
    assert("FREQ=MONTHLY"@ =~= "FREQ="@ + "MONTHLY"@);
    assert("FREQ=YEARLY"@ =~= "FREQ="@ + "YEARLY"@);
}

/// A rule that starts with a part, which ends there or at a semicolon.
pub open spec fn starts_rule(s: Seq<char>, w: Seq<char>) -> bool {
    w.len() <= s.len() && s.take(w.len() as int) == w && (s.len() > w.len() ==> s[w.len() as int]
        == ';')
}

// -- reading ------------------------------------------------------------------------------------

/// A rule for every so many days, weeks, months or years reads as that, and
/// so does one with an end.
pub proof fn rules_are_read(f: Freq, n: u32, end: End, rule: &str, r: Option<Repeat>)
    requires
        n > 1,
        !(end is Until),
        rule@ == "FREQ="@ + rfc_word(f) + ";INTERVAL="@ + decimal(n as nat) + (match end {
            End::Count(k) => ";COUNT="@ + decimal(k as nat),
            _ => ""@,
        }),
        call_ensures(Repeat::parse, (rule,), r),
    ensures
        r matches Some(x) && x.freq == f && x.interval == n && x.days@.len() == 0 && x.end == end,
{
    let v = RepeatView { freq: f, interval: n as nat, days: Seq::empty(), end };
    lemma_text(v, false);
    lemma_literals();
    assert(rule@ =~= text_of_rule(v, false));
    rules_round_trip(v, false);
    assert(sayable(v).days =~= Seq::<Weekday>::empty()) by {
        lemma_days(Seq::empty());
        assert(rfc_days(Seq::empty()) =~= Seq::<Seq<char>>::empty());
        assert(codes(in_week_order(Seq::empty())).len() == in_week_order(Seq::empty()).len());
    }
}

/// A rule of a frequency alone reads as every day, week, month or year.
pub proof fn frequencies_are_read(f: Freq, rule: &str, r: Option<Repeat>)
    requires
        rule@ == (match f {
            Freq::Daily => "FREQ=DAILY"@,
            Freq::Weekly => "FREQ=WEEKLY"@,
            Freq::Monthly => "FREQ=MONTHLY"@,
            Freq::Yearly => "FREQ=YEARLY"@,
        }),
        call_ensures(Repeat::parse, (rule,), r),
    ensures
        r matches Some(x) && x.freq == f && x.interval == 1 && x.days@.len() == 0 && x.end
            == End::Never,
{
    let v = RepeatView { freq: f, interval: 1, days: Seq::empty(), end: End::Never };
    lemma_text(v, false);
    lemma_literals();
    assert(rule@ =~= text_of_rule(v, false));
    rules_round_trip(v, false);
    assert(sayable(v).days =~= Seq::<Weekday>::empty()) by {
        lemma_days(Seq::empty());
        assert(rfc_days(Seq::empty()) =~= Seq::<Seq<char>>::empty());
        assert(codes(in_week_order(Seq::empty())).len() == in_week_order(Seq::empty()).len());
    }
}

/// What was written reads back: the frequency, the interval, the end, and by
/// the week the days.
pub proof fn written_rules_read_back(
    x: Repeat,
    timed: bool,
    r: String,
    rule: &str,
    y: Option<Repeat>,
)
    requires
        x.interval > 0,
        x.end matches End::Until(d) ==> d.wf() && 0 <= d.year() <= 9999,
        call_ensures(Repeat::to_rule, (&x, timed), r),
        rule@ == r@,
        call_ensures(Repeat::parse, (rule,), y),
    ensures
        y matches Some(y) && y.freq == x.freq && y.interval == x.interval && y.end == x.end && (
        x.freq == Freq::Weekly ==> forall|w: Weekday| #[trigger]
            y.days@.contains(w) == x.days@.contains(w)) && (x.freq != Freq::Weekly
            ==> y.days@.len() == 0),
{
    rules_round_trip(x@, timed);
    if x.freq == Freq::Weekly {
        assert forall|w: Weekday| #[trigger]
            in_week_order(x.days@).contains(w) == x.days@.contains(w) by {
            let p = |w: Weekday| x.days@.contains(w);
            let i = w.index();
            assert(week()[i] == w);
            if p(w) {
                week().lemma_filter_contains(p, i);
            }
            if in_week_order(x.days@).contains(w) {
                let k = choose|k: int|
                    0 <= k < in_week_order(x.days@).len() && in_week_order(x.days@)[k] == w;
                week().lemma_filter_pred(p, k);
            }
        }
    }
}

/// A rule is read only when it says no more than the editor shows: a
/// frequency, an interval, days by the week, a count, an end, or how weeks
/// start.
pub proof fn other_rules_are_left_alone(rule: &str, r: Option<Repeat>, i: int)
    requires
        0 <= i < pieces(trim(rule@), ';').len(),
        call_ensures(Repeat::parse, (rule,), r),
    ensures
        r matches Some(x) ==> x.interval > 0 && (x.days@.len() > 0 ==> x.freq == Freq::Weekly) && ({
            let p = pieces(trim(rule@), ';')[i];
            p.len() > 0 ==> exists|k: int|
                0 <= k < p.len() && #[trigger] p[k] == '=' && {
                    let key = ascii_upper_text(p.take(k));
                    key == "FREQ"@ || key == "INTERVAL"@ || key == "BYDAY"@ || key == "COUNT"@
                        || key == "UNTIL"@ || key == "WKST"@
                }
        }),
{
    let v = pieces(trim(rule@), ';');
    if r is Some {
        lemma_interval_is_more(v);
        lemma_prefix(v, i + 1);
        assert(v.take(i + 1).drop_last() =~= v.take(i));
        let p = v[i];
        assert(v.take(i + 1).last() == p);
        lemma_first_of(p, '=');
    }
}

proof fn lemma_prefix(v: Seq<Seq<char>>, n: int)
    requires
        0 <= n <= v.len(),
        with_parts(v) is Some,
    ensures
        with_parts(v.take(n)) is Some,
    decreases v.len(),
{
    if n < v.len() {
        lemma_prefix(v.drop_last(), n);
        assert(v.drop_last().take(n) =~= v.take(n));
    } else {
        assert(v.take(n) =~= v);
    }
}

proof fn lemma_interval_is_more(v: Seq<Seq<char>>)
    requires
        with_parts(v) is Some,
    ensures
        with_parts(v)->0.interval > 0,
    decreases v.len(),
{
    if v.len() > 0 {
        lemma_interval_is_more(v.drop_last());
    }
}

// -- presets ------------------------------------------------------------------------------------

/// Every preset's rule is the one for what its name says.
pub proof fn presets_say_their_names(i: int)
    requires
        0 <= i < 6,
    ensures
        ({
            let (name, rule) = REPEAT_PRESETS[i];
            let days = if name@ == "Weekdays"@ {
                seq![Weekday::Mon, Weekday::Tue, Weekday::Wed, Weekday::Thu, Weekday::Fri]
            } else if name@ == "Weekends"@ {
                seq![Weekday::Sat, Weekday::Sun]
            } else {
                Seq::empty()
            };
            let freq = if name@ == "Daily"@ {
                Freq::Daily
            } else if name@ == "Monthly"@ {
                Freq::Monthly
            } else if name@ == "Yearly"@ {
                Freq::Yearly
            } else {
                Freq::Weekly
            };
            rule@ == text_of_rule(RepeatView { freq, interval: 1, days, end: End::Never }, false)
        }),
        REPEAT_PRESETS[0].0@ == "Daily"@ && REPEAT_PRESETS[1].0@ == "Weekdays"@
            && REPEAT_PRESETS[2].0@ == "Weekends"@ && REPEAT_PRESETS[3].0@ == "Weekly"@
            && REPEAT_PRESETS[4].0@ == "Monthly"@ && REPEAT_PRESETS[5].0@ == "Yearly"@,
{
    lemma_literals();
    reveal_strlit("FREQ=WEEKLY;BYDAY=MO,TU,WE,TH,FR");
    reveal_strlit("FREQ=WEEKLY;BYDAY=SA,SU");
    reveal_strlit("Daily");
    reveal_strlit("Weekdays");
    reveal_strlit("Weekends");
    reveal_strlit("Weekly");
    reveal_strlit("Monthly");
    reveal_strlit("Yearly");
    reveal_strlit("MO");
    reveal_strlit("TU");
    reveal_strlit("WE");
    reveal_strlit("TH");
    reveal_strlit("FR");
    reveal_strlit("SA");
    reveal_strlit("SU");
    reveal_strlit(",");
    assert("Daily"@[0] == 'D' && "Weekdays"@[4] == 'd' && "Weekends"@[4] == 'e' && "Weekly"@[4]
        == 'l' && "Monthly"@[0] == 'M' && "Yearly"@[0] == 'Y');
    let plain = |f: Freq| RepeatView { freq: f, interval: 1, days: Seq::empty(), end: End::Never };
    lemma_text(plain(Freq::Daily), false);
    lemma_text(plain(Freq::Weekly), false);
    lemma_text(plain(Freq::Monthly), false);
    lemma_text(plain(Freq::Yearly), false);
    assert("FREQ=DAILY"@ =~= text_of_rule(plain(Freq::Daily), false));
    assert("FREQ=WEEKLY"@ =~= text_of_rule(plain(Freq::Weekly), false));
    assert("FREQ=MONTHLY"@ =~= text_of_rule(plain(Freq::Monthly), false));
    assert("FREQ=YEARLY"@ =~= text_of_rule(plain(Freq::Yearly), false));
    let five = seq![Weekday::Mon, Weekday::Tue, Weekday::Wed, Weekday::Thu, Weekday::Fri];
    let two = seq![Weekday::Sat, Weekday::Sun];
    assert(five[0] == Weekday::Mon && five[1] == Weekday::Tue && five[2] == Weekday::Wed && five[3]
        == Weekday::Thu && five[4] == Weekday::Fri);
    assert(two[0] == Weekday::Sat && two[1] == Weekday::Sun);
    assert(rfc_days(five) =~= seq!["MO"@, "TU"@, "WE"@, "TH"@, "FR"@]);
    assert(rfc_days(two) =~= seq!["SA"@, "SU"@]);
    let w = RepeatView { freq: Freq::Weekly, interval: 1, days: five, end: End::Never };
    let e = RepeatView { freq: Freq::Weekly, interval: 1, days: two, end: End::Never };
    lemma_text(w, false);
    lemma_text(e, false);
    let s1 = seq!["MO"@];
    let s2 = s1.push("TU"@);
    let s3 = s2.push("WE"@);
    let s4 = s3.push("TH"@);
    let s5 = s4.push("FR"@);
    lemma_join_push(s1, "TU"@, ","@);
    lemma_join_push(s2, "WE"@, ","@);
    lemma_join_push(s3, "TH"@, ","@);
    lemma_join_push(s4, "FR"@, ","@);
    assert(s5 =~= seq!["MO"@, "TU"@, "WE"@, "TH"@, "FR"@]);
    lemma_join_push(seq!["SA"@], "SU"@, ","@);
    assert(seq!["SA"@].push("SU"@) =~= seq!["SA"@, "SU"@]);
    assert("FREQ=WEEKLY;BYDAY=MO,TU,WE,TH,FR"@ =~= text_of_rule(w, false));
    assert("FREQ=WEEKLY;BYDAY=SA,SU"@ =~= text_of_rule(e, false));
}

// -- the words ----------------------------------------------------------------------------------

proof fn lemma_literals()
    ensures
        ""@ == Seq::<char>::empty(),
        "FREQ="@ == seq!['F', 'R', 'E', 'Q', '='],
        "DAILY"@ == seq!['D', 'A', 'I', 'L', 'Y'],
        "WEEKLY"@ == seq!['W', 'E', 'E', 'K', 'L', 'Y'],
        "MONTHLY"@ == seq!['M', 'O', 'N', 'T', 'H', 'L', 'Y'],
        "YEARLY"@ == seq!['Y', 'E', 'A', 'R', 'L', 'Y'],
        "FREQ=DAILY"@ == "FREQ="@ + "DAILY"@,
        "FREQ=WEEKLY"@ == "FREQ="@ + "WEEKLY"@,
        "FREQ=MONTHLY"@ == "FREQ="@ + "MONTHLY"@,
        "FREQ=YEARLY"@ == "FREQ="@ + "YEARLY"@,
        ";"@ == seq![';'],
        ";INTERVAL="@ == ";"@ + "INTERVAL="@,
        ";BYDAY="@ == ";"@ + "BYDAY="@,
        ";COUNT="@ == ";"@ + "COUNT="@,
        ";UNTIL="@ == ";"@ + "UNTIL="@,
        ";BYDAY="@ == seq![';', 'B', 'Y', 'D', 'A', 'Y', '='],
{
    reveal_strlit("");
    reveal_strlit("FREQ=");
    reveal_strlit("DAILY");
    reveal_strlit("WEEKLY");
    reveal_strlit("MONTHLY");
    reveal_strlit("YEARLY");
    reveal_strlit("FREQ=DAILY");
    reveal_strlit("FREQ=WEEKLY");
    reveal_strlit("FREQ=MONTHLY");
    reveal_strlit("FREQ=YEARLY");
    reveal_strlit(";");
    reveal_strlit(";INTERVAL=");
    reveal_strlit("INTERVAL=");
    reveal_strlit(";BYDAY=");
    reveal_strlit("BYDAY=");
    reveal_strlit(";COUNT=");
    reveal_strlit("COUNT=");
    reveal_strlit(";UNTIL=");
    reveal_strlit("UNTIL=");
}

proof fn lemma_separators()
    ensures
        ""@ == Seq::<char>::empty(),
        ";INTERVAL="@ == ";"@ + "INTERVAL="@,
        ";BYDAY="@ == ";"@ + "BYDAY="@,
        ";COUNT="@ == ";"@ + "COUNT="@,
        ";UNTIL="@ == ";"@ + "UNTIL="@,
{
    lemma_literals();
}

proof fn lemma_join_push(v: Seq<Seq<char>>, x: Seq<char>, sep: Seq<char>)
    requires
        v.len() > 0,
    ensures
        join(v.push(x), sep) == join(v, sep) + sep + x,
{
    assert(v.push(x).drop_last() =~= v);
}

/// A rule with one more part.
proof fn lemma_more(p: Seq<Seq<char>>, t: Seq<char>, x: Seq<char>, y: Seq<char>)
    requires
        p.len() > 0,
        join(p, ";"@) == t,
        y == ";"@ + x,
    ensures
        join(p.push(x), ";"@) == t + y,
{
    lemma_join_push(p, x, ";"@);
    assert(t + ";"@ + x =~= t + y);
}

proof fn lemma_text(v: RepeatView, timed: bool)
    ensures
        text_of_rule(v, timed) == "FREQ="@ + rfc_word(v.freq) + (if v.interval > 1 {
            ";INTERVAL="@ + decimal(v.interval)
        } else {
            ""@
        }) + (if v.freq == Freq::Weekly && v.days.len() > 0 {
            ";BYDAY="@ + join(rfc_days(v.days), ","@)
        } else {
            ""@
        }) + (match v.end {
            End::Never => ""@,
            End::Count(n) => ";COUNT="@ + decimal(n as nat),
            End::Until(d) => ";UNTIL="@ + written(d.ce as int, "%Y%m%d"@) + (if timed {
                "T235959Z"@
            } else {
                ""@
            }),
        }),
{
    lemma_days(v.days);
    lemma_text_with(v, timed, rfc_days(v.days), v.freq.word());
}

proof fn lemma_text_with(v: RepeatView, timed: bool, days: Seq<Seq<char>>, word: Seq<char>)
    requires
        days == codes(in_week_order(v.days)),
        word == v.freq.word(),
    ensures
        text_of_rule(v, timed) == "FREQ="@ + word + (if v.interval > 1 {
            ";INTERVAL="@ + decimal(v.interval)
        } else {
            ""@
        }) + (if v.freq == Freq::Weekly && v.days.len() > 0 {
            ";BYDAY="@ + join(days, ","@)
        } else {
            ""@
        }) + (match v.end {
            End::Never => ""@,
            End::Count(n) => ";COUNT="@ + decimal(n as nat),
            End::Until(d) => ";UNTIL="@ + written(d.ce as int, "%Y%m%d"@) + (if timed {
                "T235959Z"@
            } else {
                ""@
            }),
        }),
{
    lemma_separators();
    let t0 = "FREQ="@ + word;
    let p0 = seq![t0];
    let i = "INTERVAL="@ + decimal(v.interval);
    let si = ";INTERVAL="@ + decimal(v.interval);
    assert(si =~= ";"@ + i);
    let (p1, t1) = if v.interval > 1 {
        (p0.push(i), t0 + si)
    } else {
        (p0, t0 + ""@)
    };
    lemma_more(p0, t0, i, si);
    assert(t0 + ""@ =~= t0);
    let b = "BYDAY="@ + join(days, ","@);
    let sb = ";BYDAY="@ + join(days, ","@);
    assert(sb =~= ";"@ + b);
    let by_week = v.freq == Freq::Weekly && v.days.len() > 0;
    let (p2, t2) = if by_week {
        (p1.push(b), t1 + sb)
    } else {
        (p1, t1 + ""@)
    };
    lemma_more(p1, t1, b, sb);
    assert(t1 + ""@ =~= t1);
    assert(t2 + ""@ =~= t2);
    let start = p0 + (if v.interval > 1 {
        seq![i]
    } else {
        Seq::empty()
    });
    assert(start =~= p1);
    let middle = start + (if by_week {
        seq![b]
    } else {
        Seq::empty()
    });
    assert(middle =~= p2);
    match v.end {
        End::Never => {
            assert(parts_of(v, timed) =~= p2);
        },
        End::Count(n) => {
            let e = "COUNT="@ + decimal(n as nat);
            let se = ";COUNT="@ + decimal(n as nat);
            assert(se =~= ";"@ + e);
            lemma_more(p2, t2, e, se);
            assert(parts_of(v, timed) =~= p2.push(e));
        },
        End::Until(d) => {
            let day = written(d.ce as int, "%Y%m%d"@);
            let tail = if timed {
                "T235959Z"@
            } else {
                ""@
            };
            let e = if timed {
                "UNTIL="@ + day + "T235959Z"@
            } else {
                "UNTIL="@ + day
            };
            let se = ";UNTIL="@ + day + tail;
            assert(se =~= ";"@ + e);
            lemma_more(p2, t2, e, se);
            assert(parts_of(v, timed) =~= p2.push(e));
        },
    }
}

proof fn lemma_filter_push(s: Seq<Weekday>, w: Weekday, p: spec_fn(Weekday) -> bool)
    ensures
        s.push(w).filter(p) == (if p(w) {
            s.filter(p).push(w)
        } else {
            s.filter(p)
        }),
{
    reveal(Seq::filter);
    assert(s.push(w).drop_last() =~= s);
}

proof fn lemma_days(d: Seq<Weekday>)
    ensures
        codes(in_week_order(d)) == rfc_days(d),
{
    let p = |w: Weekday| d.contains(w);
    let s0 = Seq::<Weekday>::empty();
    let s1 = s0.push(Weekday::Mon);
    let s2 = s1.push(Weekday::Tue);
    let s3 = s2.push(Weekday::Wed);
    let s4 = s3.push(Weekday::Thu);
    let s5 = s4.push(Weekday::Fri);
    let s6 = s5.push(Weekday::Sat);
    let s7 = s6.push(Weekday::Sun);
    assert(s7 =~= week());
    reveal(Seq::filter);
    assert(s0.filter(p) =~= s0);
    lemma_filter_push(s0, Weekday::Mon, p);
    lemma_filter_push(s1, Weekday::Tue, p);
    lemma_filter_push(s2, Weekday::Wed, p);
    lemma_filter_push(s3, Weekday::Thu, p);
    lemma_filter_push(s4, Weekday::Fri, p);
    lemma_filter_push(s5, Weekday::Sat, p);
    lemma_filter_push(s6, Weekday::Sun, p);
    let r1 = one_if(p(Weekday::Mon), "MO"@);
    let r2 = r1 + one_if(p(Weekday::Tue), "TU"@);
    let r3 = r2 + one_if(p(Weekday::Wed), "WE"@);
    let r4 = r3 + one_if(p(Weekday::Thu), "TH"@);
    let r5 = r4 + one_if(p(Weekday::Fri), "FR"@);
    let r6 = r5 + one_if(p(Weekday::Sat), "SA"@);
    let r7 = r6 + one_if(p(Weekday::Sun), "SU"@);
    assert(codes(s1.filter(p)) =~= r1);
    assert(codes(s2.filter(p)) =~= r2);
    assert(codes(s3.filter(p)) =~= r3);
    assert(codes(s4.filter(p)) =~= r4);
    assert(codes(s5.filter(p)) =~= r5);
    assert(codes(s6.filter(p)) =~= r6);
    assert(codes(s7.filter(p)) =~= r7);
}

} // verus!
