//! The notes field's bit of Markdown. Enter carries a list on: `- `, `* `,
//! `• `, `- [ ] ` and `1. ` (numbered on), and on an item left empty it ends
//! the list instead. Links look like links and open with Ctrl+click. The text
//! itself stays plain, since the iPhone shows notes as they are.

use std::ops::Range;

use vstd::prelude::*;
use vstd::string::*;

use crate::number::{all_digits, decimal, decimal_text, value};
use crate::order::run;
use crate::text::{
    alphanumeric, ascii_lower, blank, chars, digit, glue, has_prefix, is_alphanumeric, is_at, is_digit,
    is_white, lemma_trim_blank, occurs_at, part, starts_with, text, text_of, trimmed, white,
};
use crate::utf8::{byte_len, bytes, lemma_bytes_grow, lemma_bytes_push, len_utf8};

verus! {

// -- lists ----------------------------------------------------------------------------

/// What a newline typed after a line (the text before it on its line) does.
#[derive(Debug, PartialEq, Eq)]
pub enum Enter {
    /// Start the next item with this.
    Continue(String),
    /// The item was left empty: take its marker away, and the newline.
    End,
}

pub enum EnterView {
    Continue(Seq<char>),
    End,
}

impl View for Enter {
    type V = EnterView;

    open spec fn view(&self) -> EnterView {
        match self {
            Enter::Continue(s) => EnterView::Continue(s@),
            Enter::End => EnterView::End,
        }
    }
}

/// How many spaces and tabs a line starts with.
pub open spec fn indent(s: Seq<char>) -> nat
    decreases s.len(),
{
    if s.len() > 0 && (s[0] == ' ' || s[0] == '\t') {
        1 + indent(s.skip(1))
    } else {
        0
    }
}

/// The first bullet that text starts with, boxes first.
pub open spec fn bullet(s: Seq<char>) -> Option<Seq<char>> {
    if starts_with(s, "- [ ] "@) {
        Some("- [ ] "@)
    } else if starts_with(s, "- [x] "@) {
        Some("- [x] "@)
    } else if starts_with(s, "- [X] "@) {
        Some("- [X] "@)
    } else if starts_with(s, "- "@) {
        Some("- "@)
    } else if starts_with(s, "* "@) {
        Some("* "@)
    } else if starts_with(s, "• "@) {
        Some("• "@)
    } else {
        None
    }
}

/// What starts an item, what starts the next, and what the item says: a
/// checked item's next one starts unchecked, and numbers count on.
pub open spec fn item(s: Seq<char>) -> Option<(Seq<char>, Seq<char>)> {
    match bullet(s) {
        Some(m) => Some(
            (
                if starts_with(m, "- ["@) {
                    "- [ ] "@
                } else {
                    m
                },
                s.skip(m.len() as int),
            ),
        ),
        None => {
            let n = run(s) as int;
            if 1 <= n <= 3 && (occurs_at(s, ". "@, n) || occurs_at(s, ") "@, n)) {
                Some((decimal(value(s.take(n)) + 1) + s.subrange(n, n + 2), s.skip(n + 2)))
            } else {
                None
            }
        },
    }
}

/// What a newline typed after `line` does.
pub open spec fn enter_of(line: Seq<char>) -> Option<EnterView> {
    let n = indent(line) as int;
    match item(line.skip(n)) {
        None => None,
        Some((next, body)) => Some(
            if blank(body) {
                EnterView::End
            } else {
                EnterView::Continue(line.take(n) + next)
            },
        ),
    }
}

fn find_bullet(s: &Vec<char>) -> (r: Option<&'static str>)
    ensures
        match r {
            Some(m) => bullet(s@) == Some(m@),
            None => bullet(s@) is None,
        },
{
    if is_at(s, &chars("- [ ] "), 0) {
        Some("- [ ] ")
    } else if is_at(s, &chars("- [x] "), 0) {
        Some("- [x] ")
    } else if is_at(s, &chars("- [X] "), 0) {
        Some("- [X] ")
    } else if is_at(s, &chars("- "), 0) {
        Some("- ")
    } else if is_at(s, &chars("* "), 0) {
        Some("* ")
    } else if is_at(s, &chars("• "), 0) {
        Some("• ")
    } else {
        None
    }
}

/// The digits that `s` starts with, up to the fourth, and their value.
fn leading_number(s: &Vec<char>) -> (r: (usize, u32))
    ensures
        r.0 <= 4,
        r.0 <= s@.len(),
        r.0 < 4 ==> r.0 == run(s@),
        r.0 == 4 ==> run(s@) >= 4,
        r.0 < 4 ==> r.1 == value(s@.take(r.0 as int)),
        r.1 <= 9999,
{
    let mut n: u32 = 0;
    let mut i: usize = 0;
    assert(s@.skip(0) == s@);
    assert(s@.take(0) == Seq::<char>::empty());
    while i < 4 && i < s.len() && is_digit(s[i])
        invariant
            i <= 4,
            i <= s@.len(),
            run(s@) == i + run(s@.skip(i as int)),
            n == value(s@.take(i as int)),
            i == 0 ==> n == 0,
            i == 1 ==> n <= 9,
            i == 2 ==> n <= 99,
            i == 3 ==> n <= 999,
            i == 4 ==> n <= 9999,
        decreases 4 - i,
    {
        assert(s@.skip(i as int).skip(1) == s@.skip(i + 1));
        assert(s@.take(i + 1).drop_last() == s@.take(i as int));
        n = n * 10 + (s[i] as u32 - 48);
        i += 1;
    }
    (i, n)
}

/// What a newline typed after `line` (the text before it on its line) does.
pub fn on_enter(line: &str) -> (r: Option<Enter>)
    ensures
        match r {
            Some(e) => enter_of(line@) == Some(e@),
            None => enter_of(line@) is None,
        },
{
    let l = chars(line);
    let mut at: usize = 0;
    assert(l@.skip(0) == l@);
    while at < l.len() && (l[at] == ' ' || l[at] == '\t')
        invariant
            at <= l@.len(),
            indent(l@) == at + indent(l@.skip(at as int)),
        decreases l@.len() - at,
    {
        assert(l@.skip(at as int).skip(1) == l@.skip(at + 1));
        at += 1;
    }
    let rest = part(&l, at, l.len());
    assert(rest@ == l@.skip(at as int));
    let (next, body): (String, Vec<char>) = match find_bullet(&rest) {
        Some(m) => {
            let w = chars(m);
            let body = part(&rest, w.len(), rest.len());
            assert(body@ == rest@.skip(m@.len() as int));
            if has_prefix(m, "- [") {
                (String::from_str("- [ ] "), body)
            } else {
                (String::from_str(m), body)
            }
        },
        None => {
            let (n, v) = leading_number(&rest);
            if n < 1 || n > 3 {
                return None;
            }
            proof {
                reveal_strlit(". ");
                reveal_strlit(") ");
            }
            if !is_at(&rest, &chars(". "), n) && !is_at(&rest, &chars(") "), n) {
                return None;
            }
            let sep = text_of(&rest, n, n + 2);
            let body = part(&rest, n + 2, rest.len());
            assert(body@ == rest@.skip(n + 2));
            (glue(decimal_text((v + 1) as u64).as_str(), sep.as_str()), body)
        },
    };
    proof {
        lemma_trim_blank(body@);
    }
    if trimmed(&body).len() == 0 {
        Some(Enter::End)
    } else {
        let head = text_of(&l, 0, at);
        assert(head@ == l@.take(at as int));
        Some(Enter::Continue(glue(head.as_str(), next.as_str())))
    }
}

/// What to do to the text after a newline was typed at `at`, as offsets in
/// characters.
#[derive(Debug, PartialEq, Eq)]
pub enum Edit {
    Insert { at: usize, text: String },
    Delete { from: usize, to: usize },
    Nothing,
}

/// A newline typed at `at`, after `line`: the marker of the next item goes
/// after it, and an empty item goes away with it.
pub fn carry_on(line: &str, at: usize) -> (r: Edit)
    requires
        line@.len() <= at < usize::MAX,
    ensures
        match enter_of(line@) {
            Some(EnterView::Continue(marker)) => r matches Edit::Insert { at: i, text } && i == at
                + 1 && text@ == marker,
            Some(EnterView::End) => r == (Edit::Delete {
                from: (at - line@.len()) as usize,
                to: (at + 1) as usize,
            }),
            None => r == Edit::Nothing,
        },
{
    match on_enter(line) {
        Some(Enter::Continue(marker)) => Edit::Insert { at: at + 1, text: marker },
        Some(Enter::End) => {
            let n = chars(line).len();
            Edit::Delete { from: at - n, to: at + 1 }
        },
        None => Edit::Nothing,
    }
}

/// An item numbered 999: the next number is too long to be one's.
pub open spec fn is_last_number(line: Seq<char>) -> bool {
    let s = line.skip(indent(line) as int);
    bullet(s) is None && value(s.take(run(s) as int)) == 999
}

/// Enter on the item just started, left empty, ends the list; and it was
/// started as far in as the one before it.
pub proof fn started_items_end(line: Seq<char>, m: Seq<char>)
    requires
        enter_of(line) == Some(EnterView::Continue(m)),
        !is_last_number(line),
    ensures
        enter_of(m) == Some(EnterView::End),
        indent(m) == indent(line),
        starts_with(m, line.take(indent(line) as int)),
{
    let n = indent(line) as int;
    let s = line.skip(n);
    lemma_indent(line);
    match item(s) {
        Some((next, _)) => {
            if bullet(s) is None {
                lemma_short_value(s, run(s));
            }
            lemma_item_again(s);
            lemma_indented(line.take(n), next);
            assert(m == line.take(n) + next);
            assert(m.skip(n) =~= next);
            assert(m.subrange(0, n) =~= line.take(n));
        },
        None => {},
    }
}

proof fn lemma_indent(s: Seq<char>)
    ensures
        indent(s) <= s.len(),
        forall|i: int| 0 <= i < indent(s) ==> #[trigger] s[i] == ' ' || s[i] == '\t',
    decreases s.len(),
{
    if s.len() > 0 && (s[0] == ' ' || s[0] == '\t') {
        lemma_indent(s.skip(1));
        assert forall|i: int| 0 <= i < indent(s) implies #[trigger] s[i] == ' ' || s[i] == '\t' by {
            if i > 0 {
                assert(s.skip(1)[i - 1] == s[i]);
            }
        }
    }
}

/// What does not start with a space is as far in as what stands before it.
pub(crate) proof fn lemma_indented(a: Seq<char>, b: Seq<char>)
    requires
        forall|i: int| 0 <= i < a.len() ==> #[trigger] a[i] == ' ' || a[i] == '\t',
        b.len() > 0,
        b[0] != ' ' && b[0] != '\t',
    ensures
        indent(a + b) == a.len(),
    decreases a.len(),
{
    if a.len() == 0 {
        assert(a + b =~= b);
    } else {
        let t = a.skip(1);
        assert forall|i: int| 0 <= i < t.len() implies #[trigger] t[i] == ' ' || t[i] == '\t' by {
            assert(t[i] == a[i + 1]);
        }
        lemma_indented(t, b);
        assert((a + b)[0] == a[0]);
        assert((a + b).skip(1) =~= t + b);
    }
}

/// What starts the next item starts an item, and is all of it.
proof fn lemma_item_again(s: Seq<char>)
    requires
        item(s) is Some,
        bullet(s) is Some || value(s.take(run(s) as int)) < 999,
    ensures
        item(s) matches Some(p) && ({
            let next = p.0;
            &&& next.len() > 0
            &&& next[0] != ' ' && next[0] != '\t'
            &&& item(next) matches Some((_, body)) && body.len() == 0
        }),
{
    let (next, _) = item(s).unwrap();
    reveal_strlit("- [ ] ");
    reveal_strlit("- [x] ");
    reveal_strlit("- [X] ");
    reveal_strlit("- [");
    reveal_strlit("- ");
    reveal_strlit("* ");
    reveal_strlit("• ");
    match bullet(s) {
        Some(m) => {
            assert(next.subrange(0, next.len() as int) =~= next);
            assert(starts_with(next, next));
            if m.len() > 2 {
                assert(m.subrange(0, 3) =~= "- ["@);
                assert(next == "- [ ] "@);
            } else {
                assert(next == m);
            }
            assert(bullet(next) == Some(next)) by {
                if next == "* "@ {
                    assert(!starts_with(next, "- "@)) by {
                        assert(next.subrange(0, 2)[0] == '*');
                    }
                } else if next == "• "@ {
                    assert(!starts_with(next, "- "@) && !starts_with(next, "* "@)) by {
                        assert(next.subrange(0, 2)[0] == '•');
                    }
                }
            }
        },
        None => {
            let n = run(s) as int;
            let v = value(s.take(n)) + 1;
            let d = decimal(v);
            let sep = s.subrange(n, n + 2);
            reveal_strlit(". ");
            reveal_strlit(") ");
            crate::number::decimal_reads_back(v);
            lemma_short_decimal(v);
            assert(next == d + sep);
            assert(digit(d[0]));
            assert(next[0] == d[0]);
            assert(!digit('-') && !digit('*') && !digit('•'));
            assert(bullet(next) is None) by {
                assert forall|p: Seq<char>|
                    p.len() > 0 && p.len() <= next.len() && !digit(p[0]) implies !(
                #[trigger] starts_with(next, p)) by {
                    assert(next.subrange(0, p.len() as int)[0] == next[0]);
                }
            }
            lemma_run_of(d, sep);
            assert(next.subrange(d.len() as int, d.len() as int + 2) =~= sep);
            assert(occurs_at(next, ". "@, d.len() as int) || occurs_at(next, ") "@, d.len() as int));
        },
    }
}

/// Up to three digits are worth less than a thousand.
proof fn lemma_short_value(s: Seq<char>, n: nat)
    requires
        n == run(s),
        n <= 3,
    ensures
        value(s.take(n as int)) <= 999,
{
    let d = s.take(n as int);
    crate::order::lemma_run(s);
    assert forall|i: int| 0 <= i < d.len() implies digit(d[i]) by {
        assert(d[i] == s[i]);
    }
    reveal_with_fuel(value, 4);
    if n > 0 {
        assert(digit(d.last()));
        if n > 1 {
            assert(digit(d.drop_last().last()));
            if n > 2 {
                assert(digit(d.drop_last().drop_last().last()));
            }
        }
    }
}

/// A number below a thousand has up to three digits.
proof fn lemma_short_decimal(n: nat)
    requires
        n < 1000,
    ensures
        1 <= decimal(n).len() <= 3,
{
    reveal_with_fuel(decimal, 3);
}

/// Digits that no digit follows are the run that text starts with.
pub(crate) proof fn lemma_run_of(d: Seq<char>, rest: Seq<char>)
    requires
        all_digits(d),
        rest.len() > 0 && !digit(rest[0]),
    ensures
        run(d + rest) == d.len(),
    decreases d.len(),
{
    if d.len() == 0 {
        assert(d + rest =~= rest);
    } else {
        let t = d.skip(1);
        assert forall|i: int| 0 <= i < t.len() implies digit(t[i]) by {
            assert(t[i] == d[i + 1]);
        }
        lemma_run_of(t, rest);
        assert(digit(d[0]));
        assert((d + rest)[0] == d[0]);
        assert((d + rest).skip(1) =~= t + rest);
    }
}

// -- links ----------------------------------------------------------------------------

/// `s` starts with `p`, which is lowercase, whatever the case of its letters.
pub open spec fn starts_like(s: Seq<char>, p: Seq<char>) -> bool {
    p.len() <= s.len() && forall|i: int| 0 <= i < p.len() ==> ascii_lower(#[trigger] s[i]) == p[i]
}

/// How long the start of a link is, where text starts with one.
pub open spec fn link_start(s: Seq<char>) -> Option<int> {
    if starts_like(s, "https://"@) {
        Some(8)
    } else if starts_like(s, "http://"@) {
        Some(7)
    } else if starts_like(s, "mailto:"@) {
        Some(7)
    } else if starts_like(s, "www."@) {
        Some(4)
    } else {
        None
    }
}

/// What a link cannot hold.
pub open spec fn ends_link(c: char) -> bool {
    white(c) || c == '<' || c == '>' || c == '"'
}

/// How far a link goes.
pub open spec fn reach(s: Seq<char>) -> nat
    decreases s.len(),
{
    if s.len() == 0 || ends_link(s[0]) {
        0
    } else {
        1 + reach(s.skip(1))
    }
}

/// Punctuation that a sentence puts after a link.
pub open spec fn trailing(c: char) -> bool {
    c == '.' || c == ',' || c == ';' || c == ':' || c == '!' || c == '?' || c == '\'' || c == '*'
        || c == '_'
}

pub open spec fn without_trailing(s: Seq<char>) -> Seq<char>
    decreases s.len(),
{
    if s.len() > 0 && trailing(s.last()) {
        without_trailing(s.drop_last())
    } else {
        s
    }
}

/// How often `c` is in `s`.
pub open spec fn times(s: Seq<char>, c: char) -> nat
    decreases s.len(),
{
    if s.len() == 0 {
        0
    } else {
        times(s.drop_last(), c) + (if s.last() == c {
            1nat
        } else {
            0
        })
    }
}

/// `s` without a bracket at its end that closes what it didn't open.
pub open spec fn without_close(s: Seq<char>, open: char, close: char) -> Seq<char> {
    if s.len() > 0 && s.last() == close && times(s, open) < times(s, close) {
        s.drop_last()
    } else {
        s
    }
}

/// `s` with the punctuation and a bracket of each kind off its end.
pub open spec fn peel(s: Seq<char>) -> Seq<char> {
    without_close(without_close(without_trailing(s), '(', ')'), '[', ']')
}

proof fn lemma_without_trailing(s: Seq<char>)
    ensures
        without_trailing(s).len() <= s.len(),
        without_trailing(s) == s.take(without_trailing(s).len() as int),
    decreases s.len(),
{
    if s.len() > 0 && trailing(s.last()) {
        lemma_without_trailing(s.drop_last());
        let t = without_trailing(s);
        assert(s.drop_last().take(t.len() as int) == s.take(t.len() as int));
    } else {
        assert(s.take(s.len() as int) == s);
    }
}

proof fn lemma_peel(s: Seq<char>)
    ensures
        peel(s).len() <= s.len(),
        peel(s) == s.take(peel(s).len() as int),
{
    lemma_without_trailing(s);
    let a = without_trailing(s);
    let b = without_close(a, '(', ')');
    let c = without_close(b, '[', ']');
    assert(b == s.take(b.len() as int));
    assert(c == s.take(c.len() as int));
}

/// A link without the punctuation a sentence puts after it.
pub open spec fn peeled(s: Seq<char>) -> Seq<char>
    decreases s.len(),
    via peeled_decreases
{
    if peel(s).len() == s.len() {
        s
    } else {
        peeled(peel(s))
    }
}

#[via_fn]
proof fn peeled_decreases(s: Seq<char>) {
    lemma_peel(s);
}

proof fn lemma_peeled(s: Seq<char>)
    ensures
        peeled(s).len() <= s.len(),
        peeled(s) == s.take(peeled(s).len() as int),
    decreases s.len(),
{
    lemma_peel(s);
    if peel(s).len() == s.len() {
        assert(s.take(s.len() as int) == s);
    } else {
        lemma_peeled(peel(s));
        let p = peeled(s);
        assert(peel(s).take(p.len() as int) == s.take(p.len() as int));
    }
}

/// A link can start at `i`: not inside a word.
pub open spec fn link_at_start(s: Seq<char>, i: int) -> Option<int> {
    if i > 0 && alphanumeric(s[i - 1]) {
        None
    } else {
        link_start(s.skip(i))
    }
}

/// The links in `s` from `i` on, by where they start and end.
pub open spec fn spans(s: Seq<char>, i: int) -> Seq<(int, int)>
    decreases s.len() - i,
    via spans_decreases
{
    if i < 0 || i >= s.len() {
        Seq::empty()
    } else {
        match link_at_start(s, i) {
            None => spans(s, i + 1),
            Some(n) => {
                let far = reach(s.skip(i)) as int;
                let len = peeled(s.subrange(i, i + far)).len() as int;
                (if len > n {
                    seq![(i, i + len)]
                } else {
                    Seq::empty()
                }) + spans(
                    s,
                    i + (if far > 1 {
                        far
                    } else {
                        1
                    }),
                )
            },
        }
    }
}

#[via_fn]
proof fn spans_decreases(s: Seq<char>, i: int) {
    if 0 <= i < s.len() {
        lemma_reach(s.skip(i));
    }
}

proof fn lemma_reach(s: Seq<char>)
    ensures
        reach(s) <= s.len(),
        forall|i: int| 0 <= i < reach(s) ==> !ends_link(s[i]),
    decreases s.len(),
{
    if s.len() > 0 && !ends_link(s[0]) {
        lemma_reach(s.skip(1));
        assert forall|i: int| 0 <= i < reach(s) implies !ends_link(s[i]) by {
            if i > 0 {
                assert(s.skip(1)[i - 1] == s[i]);
            }
        }
    }
}

/// Links are in the text, one after another without overlapping; each starts
/// as a link does, says more than that, and holds no white space.
pub proof fn links_are_apart(s: Seq<char>, i: int, k: int)
    requires
        0 <= i,
        0 <= k < spans(s, i).len(),
    ensures
        i <= spans(s, i)[k].0 < spans(s, i)[k].1 <= s.len(),
        k + 1 < spans(s, i).len() ==> spans(s, i)[k].1 <= spans(s, i)[k + 1].0,
        link_at_start(s, spans(s, i)[k].0) matches Some(n) && spans(s, i)[k].0 + n < spans(s, i)[k].1,
        forall|j: int| spans(s, i)[k].0 <= j < spans(s, i)[k].1 ==> !white(#[trigger] s[j]),
    decreases s.len() - i,
{
    if i < s.len() {
        match link_at_start(s, i) {
            None => {
                links_are_apart(s, i + 1, k);
            },
            Some(n) => {
                let u = s.skip(i);
                lemma_reach(u);
                let far = reach(u) as int;
                let len = peeled(s.subrange(i, i + far)).len() as int;
                lemma_peeled(s.subrange(i, i + far));
                let next = i + (if far > 1 {
                    far
                } else {
                    1
                });
                lemma_start_size(u);
                if len > n {
                    if k == 0 {
                        assert(spans(s, i)[0] == (i, i + len));
                        assert forall|j: int| i <= j < i + len implies !white(#[trigger] s[j]) by {
                            assert(u[j - i] == s[j]);
                        }
                        if 1 < spans(s, i).len() {
                            assert(spans(s, i)[1] == spans(s, next)[0]);
                            links_are_apart(s, next, 0);
                        }
                    } else {
                        assert(spans(s, i)[k] == spans(s, next)[k - 1]);
                        links_are_apart(s, next, k - 1);
                        if k + 1 < spans(s, i).len() {
                            assert(spans(s, i)[k + 1] == spans(s, next)[k]);
                        }
                    }
                } else {
                    assert(spans(s, i) == spans(s, next));
                    links_are_apart(s, next, k);
                }
            },
        }
    }
}

proof fn lemma_start_size(s: Seq<char>)
    ensures
        link_start(s) matches Some(n) ==> 4 <= n <= 8,
{
}

fn matches_start(s: &Vec<char>, at: usize, p: &Vec<char>) -> (r: bool)
    requires
        at <= s@.len(),
    ensures
        r == starts_like(s@.skip(at as int), p@),
{
    if p.len() > s.len() - at {
        return false;
    }
    for i in 0..p.len()
        invariant
            at + p.len() <= s.len(),
            forall|j: int| 0 <= j < i ==> ascii_lower(#[trigger] s@.skip(at as int)[j]) == p@[j],
    {
        let c = s[at + i];
        assert(s@.skip(at as int)[i as int] == c);
        let l: char = if 'A' <= c && c <= 'Z' {
            let n: u8 = (c as u32 + 32) as u8;
            n as char
        } else {
            c
        };
        if l != p[i] {
            return false;
        }
    }
    true
}

fn find_start(s: &Vec<char>, at: usize) -> (r: Option<usize>)
    requires
        at <= s@.len(),
    ensures
        match r {
            Some(n) => link_start(s@.skip(at as int)) == Some(n as int),
            None => link_start(s@.skip(at as int)) is None,
        },
{
    if matches_start(s, at, &chars("https://")) {
        Some(8)
    } else if matches_start(s, at, &chars("http://")) {
        Some(7)
    } else if matches_start(s, at, &chars("mailto:")) {
        Some(7)
    } else if matches_start(s, at, &chars("www.")) {
        Some(4)
    } else {
        None
    }
}

fn count_of(s: &Vec<char>, from: usize, to: usize, c: char) -> (r: usize)
    requires
        from <= to <= s@.len(),
    ensures
        r == times(s@.subrange(from as int, to as int), c),
{
    let ghost t = s@.subrange(from as int, to as int);
    let mut n: usize = 0;
    let mut i: usize = from;
    assert(t.take(0) == Seq::<char>::empty());
    while i < to
        invariant
            from <= i <= to <= s@.len(),
            t == s@.subrange(from as int, to as int),
            n == times(t.take(i - from), c),
            n <= i - from,
        decreases to - i,
    {
        assert(t.take(i - from + 1).drop_last() == t.take(i - from));
        assert(t.take(i - from + 1).last() == s@[i as int]);
        if s[i] == c {
            n += 1;
        }
        i += 1;
    }
    assert(t.take(to - from) == t);
    n
}

/// Where `s[from..to]` ends without its trailing punctuation.
fn trailing_end(s: &Vec<char>, from: usize, to: usize) -> (r: usize)
    requires
        from <= to <= s@.len(),
    ensures
        from <= r <= to,
        s@.subrange(from as int, r as int) == without_trailing(
            s@.subrange(from as int, to as int),
        ),
{
    let mut end: usize = to;
    while end > from && is_trailing(s[end - 1])
        invariant
            from <= end <= to <= s@.len(),
            without_trailing(s@.subrange(from as int, end as int)) == without_trailing(
                s@.subrange(from as int, to as int),
            ),
        decreases end,
    {
        let ghost t = s@.subrange(from as int, end as int);
        assert(t.last() == s@[end - 1]);
        assert(t.drop_last() == s@.subrange(from as int, end - 1));
        end -= 1;
    }
    proof {
        let t = s@.subrange(from as int, end as int);
        if end > from {
            assert(t.last() == s@[end - 1]);
        }
    }
    end
}

fn is_trailing(c: char) -> (r: bool)
    ensures
        r == trailing(c),
{
    c == '.' || c == ',' || c == ';' || c == ':' || c == '!' || c == '?' || c == '\'' || c == '*'
        || c == '_'
}

/// Where `s[from..to]` ends without a bracket that it didn't open.
fn close_end(s: &Vec<char>, from: usize, to: usize, open: char, close: char) -> (r: usize)
    requires
        from <= to <= s@.len(),
    ensures
        from <= r <= to,
        s@.subrange(from as int, r as int) == without_close(
            s@.subrange(from as int, to as int),
            open,
            close,
        ),
{
    let ghost t = s@.subrange(from as int, to as int);
    if to > from && s[to - 1] == close {
        assert(t.last() == close);
        if count_of(s, from, to, open) < count_of(s, from, to, close) {
            assert(t.drop_last() == s@.subrange(from as int, to - 1));
            return to - 1;
        }
    }
    proof {
        if to > from {
            assert(t.last() == s@[to - 1]);
        }
    }
    to
}

/// Where the link `s[from..to]` ends without the punctuation after it.
fn peeled_end(s: &Vec<char>, from: usize, to: usize) -> (r: usize)
    requires
        from <= to <= s@.len(),
    ensures
        from <= r <= to,
        r - from == peeled(s@.subrange(from as int, to as int)).len(),
{
    let mut end: usize = to;
    let ghost all = s@.subrange(from as int, to as int);
    loop
        invariant
            from <= end <= to <= s@.len(),
            all == s@.subrange(from as int, to as int),
            peeled(s@.subrange(from as int, end as int)) == peeled(all),
        decreases end,
    {
        let ghost t = s@.subrange(from as int, end as int);
        let a = trailing_end(s, from, end);
        let b = close_end(s, from, a, '(', ')');
        let c = close_end(s, from, b, '[', ']');
        assert(s@.subrange(from as int, c as int) == peel(t));
        if c == end {
            return end;
        }
        end = c;
    }
}

/// The links in `s`, by the characters they start and end at.
pub fn link_spans(s: &Vec<char>) -> (r: Vec<(usize, usize)>)
    ensures
        r@.map_values(|e: (usize, usize)| (e.0 as int, e.1 as int)) == spans(s@, 0),
{
    let mut out: Vec<(usize, usize)> = Vec::new();
    let ghost view = |e: (usize, usize)| (e.0 as int, e.1 as int);
    let mut i: usize = 0;
    assert(out@.map_values(view) + spans(s@, 0) == spans(s@, 0));
    while i < s.len()
        invariant
            i <= s@.len(),
            view == (|e: (usize, usize)| (e.0 as int, e.1 as int)),
            out@.map_values(view) + spans(s@, i as int) == spans(s@, 0),
        decreases s@.len() - i,
    {
        let ghost before = out@.map_values(view);
        let inside: bool = i > 0 && is_alphanumeric(s[i - 1]);
        let start: Option<usize> = if inside {
            None
        } else {
            find_start(s, i)
        };
        match start {
            None => {
                i += 1;
            },
            Some(n) => {
                let mut end: usize = i;
                while end < s.len() && !stops(s[end])
                    invariant
                        i <= end <= s@.len(),
                        reach(s@.skip(i as int)) == end - i + reach(s@.skip(end as int)),
                    decreases s@.len() - end,
                {
                    assert(s@.skip(end as int).skip(1) == s@.skip(end + 1));
                    end += 1;
                }
                assert(reach(s@.skip(i as int)) == end - i) by {
                    if end < s@.len() {
                        assert(s@.skip(end as int)[0] == s@[end as int]);
                    }
                }
                let to = peeled_end(s, i, end);
                if to - i > n {
                    out.push((i, to));
                    assert(out@.map_values(view) == before.push((i as int, to as int)));
                }
                let next: usize = if end - i > 1 {
                    end
                } else {
                    i + 1
                };
                assert(out@.map_values(view) + spans(s@, next as int) == before + spans(
                    s@,
                    i as int,
                ));
                i = next;
            },
        }
    }
    assert(spans(s@, i as int) == Seq::<(int, int)>::empty());
    assert(out@.map_values(view) + Seq::<(int, int)>::empty() == out@.map_values(view));
    out
}

fn stops(c: char) -> (r: bool)
    ensures
        r == ends_link(c),
{
    is_white(c) || c == '<' || c == '>' || c == '"'
}

/// The byte that the character at `i` starts at.
pub open spec fn byte_at(s: Seq<char>, i: int) -> int {
    bytes(s.take(i)) as int
}

/// The bytes from character `from` to character `to`.
fn bytes_between(s: &Vec<char>, from: usize, to: usize, start: usize, limit: usize) -> (r: usize)
    requires
        from <= to <= s@.len(),
        start == byte_at(s@, from as int),
        byte_at(s@, s@.len() as int) == limit,
    ensures
        r == byte_at(s@, to as int),
{
    let mut n: usize = start;
    let mut i: usize = from;
    while i < to
        invariant
            from <= i <= to <= s@.len(),
            n == byte_at(s@, i as int),
            byte_at(s@, s@.len() as int) == limit,
        decreases to - i,
    {
        proof {
            assert(s@.take(i + 1) == s@.take(i as int).push(s@[i as int]));
            lemma_bytes_push(s@.take(i as int), s@[i as int]);
            lemma_bytes_grow(s@, i + 1, s@.len() as int);
        }
        n += len_utf8(s[i]);
        i += 1;
    }
    n
}

/// Where the links in `text` are, as byte ranges: runs starting `https://`,
/// `http://`, `mailto:` or `www.`, without the punctuation a sentence puts
/// after one.
pub fn links(text: &str) -> (r: Vec<Range<usize>>)
    ensures
        r@.map_values(|e: Range<usize>| (e.start as int, e.end as int)) == spans(
            text@,
            0,
        ).map_values(|e: (int, int)| (byte_at(text@, e.0), byte_at(text@, e.1))),
{
    let s = chars(text);
    let limit = byte_len(text);
    assert(s@.take(s@.len() as int) == s@);
    let found = link_spans(&s);
    let ghost all = spans(s@, 0);
    let ghost view = |e: (usize, usize)| (e.0 as int, e.1 as int);
    let ghost place = |e: (int, int)| (byte_at(s@, e.0), byte_at(s@, e.1));
    let ghost range = |e: Range<usize>| (e.start as int, e.end as int);
    let mut out: Vec<Range<usize>> = Vec::new();
    let mut at: usize = 0;
    let mut byte: usize = 0;
    assert(s@.take(0) == Seq::<char>::empty());
    assert(out@.map_values(range) == all.take(0).map_values(place));
    for k in 0..found.len()
        invariant
            found@.map_values(view) == all,
            view == (|e: (usize, usize)| (e.0 as int, e.1 as int)),
            place == (|e: (int, int)| (byte_at(s@, e.0), byte_at(s@, e.1))),
            range == (|e: Range<usize>| (e.start as int, e.end as int)),
            all == spans(s@, 0),
            byte_at(s@, s@.len() as int) == limit,
            at <= s@.len(),
            byte == byte_at(s@, at as int),
            k < all.len() ==> at <= all[k as int].0,
            out@.map_values(range) == all.take(k as int).map_values(place),
    {
        let (from, to) = found[k];
        assert(all[k as int] == (from as int, to as int));
        proof {
            links_are_apart(s@, 0, k as int);
        }
        let start = bytes_between(&s, at, from, byte, limit);
        let end = bytes_between(&s, from, to, start, limit);
        let ghost before = out@.map_values(range);
        out.push(start..end);
        assert(out@.map_values(range) =~= before.push((start as int, end as int)));
        assert(all.take(k + 1).map_values(place) =~= all.take(k as int).map_values(place).push(
            place(all[k as int]),
        ));
        at = to;
        byte = end;
    }
    assert(all.take(all.len() as int) == all);
    out
}

/// The link that character `at` is in.
pub fn link_at(text: &str, at: usize) -> (r: Option<String>)
    ensures
        match r {
            Some(l) => exists|k: int|
                0 <= k < spans(text@, 0).len() && (#[trigger] spans(text@, 0)[k]).0 <= at < spans(
                    text@,
                    0,
                )[k].1 && l@ == text@.subrange(spans(text@, 0)[k].0, spans(text@, 0)[k].1),
            None => forall|k: int|
                0 <= k < spans(text@, 0).len() ==> !((#[trigger] spans(text@, 0)[k]).0 <= at
                    < spans(text@, 0)[k].1),
        },
{
    let s = chars(text);
    let found = link_spans(&s);
    let ghost all = spans(s@, 0);
    let ghost view = |e: (usize, usize)| (e.0 as int, e.1 as int);
    for k in 0..found.len()
        invariant
            s@ == text@,
            found@.map_values(view) == all,
            view == (|e: (usize, usize)| (e.0 as int, e.1 as int)),
            all == spans(s@, 0),
            forall|j: int| 0 <= j < k ==> !((#[trigger] all[j]).0 <= at < all[j].1),
    {
        let (from, to) = found[k];
        assert(all[k as int] == (from as int, to as int));
        proof {
            links_are_apart(s@, 0, k as int);
        }
        if from <= at && at < to {
            return Some(text_of(&s, from, to));
        }
    }
    None
}

/// What to open for a link as written.
pub open spec fn target_of(link: Seq<char>) -> Seq<char> {
    if starts_like(link, "www."@) {
        "https://"@ + link
    } else {
        link
    }
}

/// What to open for a link as written.
pub fn target(link: &str) -> (r: String)
    ensures
        r@ == target_of(link@),
{
    let s = chars(link);
    assert(s@.skip(0) == s@);
    if matches_start(&s, 0, &chars("www.")) {
        glue("https://", link)
    } else {
        String::from_str(link)
    }
}

} // verus!
