//! Quick Find: jump to a view or a list, or find a task by its words,
//! completed ones included. Views answer to other words too (`upcoming`,
//! `no date`), `p1` to `p4` list tasks by priority, and what matched shows
//! in bold, with the line of notes it was found in.

use vstd::prelude::*;
use vstd::string::*;

use crate::arrange::{order, sorted};
use crate::change::{Query, Which};
use crate::nav::{Nav, NavView, Sort, keywords_of, navs, smart_views, title_of, words};
use crate::sorting::arranged;
use crate::task::{ListView, Note, Task, TaskView, unref};
use crate::text::{
    chars, contains, find_from, glue, glue3, has, has_prefix, has_text, lines, lower_text, lowercase_text,
    occurs_at, same, split_lines, starts_with, text, text_of, texts, trim, trim_text,
};
use crate::update::Msg;
use crate::utf8::{bytes, lemma_bytes_grow, lemma_bytes_push, len_utf8, width};
use crate::words::{capital, capitalize, priority_name};

verus! {

// -- what matched ---------------------------------------------------------------------

/// A stretch of text, in bold or not.
#[derive(Debug, PartialEq, Eq)]
pub struct Stretch {
    pub text: String,
    pub bold: bool,
}

pub struct StretchView {
    pub text: Seq<char>,
    pub bold: bool,
}

impl View for Stretch {
    type V = StretchView;

    open spec fn view(&self) -> StretchView {
        StretchView { text: self.text@, bold: self.bold }
    }
}

pub open spec fn stretches(v: Seq<Stretch>) -> Seq<StretchView> {
    v.map_values(|s: Stretch| s@)
}

pub open spec fn plain(s: Seq<char>) -> StretchView {
    StretchView { text: s, bold: false }
}

/// Lowercasing left every character where it was.
pub open spec fn in_place(s: Seq<char>, lower: Seq<char>) -> bool {
    s.len() == lower.len() && forall|i: int|
        0 <= i < s.len() ==> width(#[trigger] s[i]) == width(lower[i])
}

/// Where `q` first is in `s` from `i` on.
pub open spec fn first_at(s: Seq<char>, q: Seq<char>, i: int) -> Option<int>
    decreases s.len() + 1 - i,
{
    if i + q.len() > s.len() {
        None
    } else if occurs_at(s, q, i) {
        Some(i)
    } else {
        first_at(s, q, i + 1)
    }
}

/// `s` from `at` on, with each place where `q` is in `lower` in bold.
pub open spec fn marked(s: Seq<char>, lower: Seq<char>, q: Seq<char>, at: int) -> Seq<StretchView>
    decreases s.len() - at,
    via marked_decreases
{
    if q.len() == 0 || lower.len() != s.len() {
        seq![plain(s.skip(at))]
    } else {
        match first_at(lower, q, at) {
            None => seq![plain(s.skip(at))],
            Some(i) => seq![
                plain(s.subrange(at, i)),
                StretchView { text: s.subrange(i, i + q.len()), bold: true },
            ] + marked(s, lower, q, i + q.len()),
        }
    }
}

#[via_fn]
proof fn marked_decreases(s: Seq<char>, lower: Seq<char>, q: Seq<char>, at: int) {
    lemma_first_at(lower, q, at);
}

proof fn lemma_first_at(s: Seq<char>, q: Seq<char>, i: int)
    ensures
        match first_at(s, q, i) {
            Some(k) => i <= k && k + q.len() <= s.len() && occurs_at(s, q, k) && forall|j: int|
                i <= j < k ==> !occurs_at(s, q, j),
            None => forall|j: int| i <= j ==> !occurs_at(s, q, j),
        },
    decreases s.len() + 1 - i,
{
    if i + q.len() <= s.len() && !occurs_at(s, q, i) {
        lemma_first_at(s, q, i + 1);
    }
}

/// The text of stretches in a row.
pub open spec fn all_text(v: Seq<StretchView>) -> Seq<char>
    decreases v.len(),
{
    if v.len() == 0 {
        Seq::empty()
    } else {
        v[0].text + all_text(v.skip(1))
    }
}

/// Putting words in bold changes none of them, and what is in bold is what
/// was looked for.
pub proof fn marked_keeps_text(s: Seq<char>, lower: Seq<char>, q: Seq<char>, at: int)
    requires
        0 <= at <= s.len(),
    ensures
        all_text(marked(s, lower, q, at)) == s.skip(at),
        forall|k: int|
            0 <= k < marked(s, lower, q, at).len() && marked(s, lower, q, at)[k].bold ==> exists|
                i: int,
            |
                #[trigger] occurs_at(lower, q, i) && s.subrange(i, i + q.len()) == (
                #[trigger] marked(s, lower, q, at)[k]).text,
    decreases s.len() - at,
{
    let m = marked(s, lower, q, at);
    if q.len() == 0 || lower.len() != s.len() || first_at(lower, q, at) is None {
        assert(m.skip(1).len() == 0);
        assert(all_text(m.skip(1)) == Seq::<char>::empty());
        assert(m[0].text + Seq::<char>::empty() == m[0].text);
    } else {
        lemma_first_at(lower, q, at);
        let i = first_at(lower, q, at)->0;
        let n = i + q.len();
        marked_keeps_text(s, lower, q, n);
        let t = marked(s, lower, q, n);
        assert(m.skip(1).skip(1) == t);
        assert(m.skip(1)[0] == m[1]);
        assert(all_text(m.skip(1)) == m[1].text + all_text(t));
        assert(all_text(m) == m[0].text + (m[1].text + all_text(t)));
        assert(all_text(m) == s.skip(at));
        assert forall|k: int| 0 <= k < m.len() && m[k].bold implies exists|i: int|
            #[trigger] occurs_at(lower, q, i) && s.subrange(i, i + q.len()) == (
            #[trigger] m[k]).text by {
            if k == 1 {
                assert(occurs_at(lower, q, i));
            } else if k > 1 {
                assert(m[k] == t[k - 2]);
            }
        }
    }
}

fn stays(s: &Vec<char>, lower: &Vec<char>) -> (r: bool)
    ensures
        r == in_place(s@, lower@),
{
    if s.len() != lower.len() {
        return false;
    }
    for i in 0..s.len()
        invariant
            s@.len() == lower@.len(),
            forall|j: int| 0 <= j < i ==> width(#[trigger] s@[j]) == width(lower@[j]),
    {
        if len_utf8(s[i]) != len_utf8(lower[i]) {
            return false;
        }
    }
    true
}

fn push_stretch(out: &mut Vec<Stretch>, text: String, bold: bool)
    ensures
        stretches(final(out)@) == stretches(old(out)@).push(StretchView { text: text@, bold }),
{
    let s = Stretch { text, bold };
    let ghost v = s@;
    out.push(s);
    assert(stretches(out@) =~= stretches(old(out)@).push(v));
}

/// What `text` looks like with `q` in bold, given it in lowercase: where
/// lowercasing moved characters, no bold rather than wrong bold.
pub open spec fn bold_of(s: Seq<char>, lower: Seq<char>, q: Seq<char>) -> Seq<StretchView> {
    if q.len() == 0 || !in_place(s, lower) {
        seq![plain(s)]
    } else {
        marked(s, lower, q, 0)
    }
}

/// `text` with each place where `q` is in `lower` in bold.
pub fn bold_with(text: &str, lower: &str, q: &str) -> (r: Vec<Stretch>)
    ensures
        stretches(r@) == bold_of(text@, lower@, q@),
{
    let s = chars(text);
    let l = chars(lower);
    let p = chars(q);
    let mut out: Vec<Stretch> = Vec::new();
    assert(stretches(out@) == Seq::<StretchView>::empty());
    if p.len() == 0 || !stays(&s, &l) {
        push_stretch(&mut out, String::from_str(text), false);
        return out;
    }
    let mut at: usize = 0;
    let ghost whole = marked(s@, l@, p@, 0);
    assert(Seq::<StretchView>::empty() + whole == whole);
    loop
        invariant_except_break
            stretches(out@) + marked(s@, l@, p@, at as int) == whole,
        invariant
            s@.len() == l@.len(),
            p@.len() > 0,
            at <= s@.len(),
            whole == marked(s@, l@, p@, 0),
        ensures
            stretches(out@) == whole,
        decreases s@.len() - at,
    {
        let ghost before = stretches(out@);
        proof {
            lemma_first_at(l@, p@, at as int);
        }
        match find_from(&l, &p, at) {
            None => {
                let rest = text_of(&s, at, s.len());
                assert(rest@ == s@.skip(at as int));
                push_stretch(&mut out, rest, false);
                assert(stretches(out@) =~= before + seq![plain(s@.skip(at as int))]);
                break;
            },
            Some(i) => {
                assert(i + p.len() <= l.len());
                let end: usize = i + p.len();
                let a = text_of(&s, at, i);
                let b = text_of(&s, i, end);
                let ghost two = seq![
                    plain(a@),
                    StretchView { text: b@, bold: true },
                ];
                push_stretch(&mut out, a, false);
                push_stretch(&mut out, b, true);
                assert(stretches(out@) =~= before + two);
                assert(first_at(l@, p@, at as int) == Some(i as int));
                assert((before + two) + marked(s@, l@, p@, end as int) =~= before + (two + marked(
                    s@,
                    l@,
                    p@,
                    end as int,
                )));
                at = end;
            },
        }
    }
    out
}

/// `text`, with each place `q` (lowercase) occurs in bold.
pub fn bold(text: &str, q: &str) -> (r: Vec<Stretch>)
    ensures
        stretches(r@) == bold_of(text@, lowercase_text(text@), q@),
{
    bold_with(text, lower_text(text).as_str(), q)
}

// -- a line of notes --------------------------------------------------------------------

/// The first line in which `q` occurs, whatever its case.
pub open spec fn line_with(l: Seq<Seq<char>>, q: Seq<char>) -> Option<Seq<char>>
    decreases l.len(),
{
    if l.len() == 0 {
        None
    } else if contains(lowercase_text(l[0]), q) {
        Some(l[0])
    } else {
        line_with(l.skip(1), q)
    }
}

/// How many characters of `s` are before byte `b`; none where a character
/// is cut there.
pub open spec fn chars_before(s: Seq<char>, b: int, i: int) -> Option<int>
    decreases s.len() + 1 - i,
{
    if i > s.len() {
        None
    } else if bytes(s.take(i)) == b {
        Some(i)
    } else {
        chars_before(s, b, i + 1)
    }
}

/// Where in `s` the hit is that is in `lower`, in characters.
pub open spec fn hit_in(s: Seq<char>, lower: Seq<char>, q: Seq<char>) -> int {
    match first_at(lower, q, 0) {
        None => 0,
        Some(i) => match chars_before(s, bytes(lower.take(i)) as int, 0) {
            Some(n) => n,
            None => 0,
        },
    }
}

/// A long line cut to a few words either side of `hit`.
pub open spec fn cut_around(s: Seq<char>, hit: int) -> Seq<char> {
    if s.len() <= 70 {
        s
    } else {
        let start = if hit < 25 {
            0
        } else {
            hit - 25
        };
        let end = if start + 70 < s.len() {
            start + 70
        } else {
            s.len() as int
        };
        (if start > 0 {
            seq!['…']
        } else {
            Seq::empty()
        }) + s.subrange(start, end) + (if end < s.len() {
            seq!['…']
        } else {
            Seq::empty()
        })
    }
}

/// A long line cut to a few words either side of `hit`.
pub fn cut_line(line: &str, hit: usize) -> (r: String)
    requires
        hit <= line@.len(),
    ensures
        r@ == cut_around(line@, hit as int),
{
    let s = chars(line);
    if s.len() <= 70 {
        return String::from_str(line);
    }
    let start: usize = if hit < 25 {
        0
    } else {
        hit - 25
    };
    let end: usize = if s.len() - start > 70 {
        start + 70
    } else {
        s.len()
    };
    let mut out = String::new();
    if start > 0 {
        out.push('…');
    }
    let ghost head = out@;
    out.append(text_of(&s, start, end).as_str());
    let ghost body = out@;
    if end < s.len() {
        out.push('…');
        assert(out@ =~= body + seq!['…']);
    } else {
        assert(body + Seq::<char>::empty() == body);
    }
    assert(head == (if start > 0 {
        seq!['…']
    } else {
        Seq::empty()
    }));
    out
}

/// A cut line is no longer than seventy characters and the two marks.
pub proof fn cut_is_short(s: Seq<char>, hit: int)
    requires
        0 <= hit <= s.len(),
    ensures
        cut_around(s, hit).len() <= 72,
{
}

proof fn lemma_chars_before(s: Seq<char>, b: int, i: int, k: int)
    requires
        0 <= i <= k <= s.len(),
        bytes(s.take(k)) == b,
    ensures
        chars_before(s, b, i) == Some(k),
    decreases k - i,
{
    if i < k {
        lemma_bytes_grow(s, i, k);
        lemma_chars_before(s, b, i + 1, k);
    }
}

proof fn lemma_no_chars_before(s: Seq<char>, b: int, i: int)
    requires
        0 <= i,
        forall|k: int| i <= k <= s.len() ==> bytes(#[trigger] s.take(k)) != b,
    ensures
        chars_before(s, b, i) is None,
    decreases s.len() + 1 - i,
{
    if i <= s.len() {
        assert(bytes(s.take(i)) != b);
        lemma_no_chars_before(s, b, i + 1);
    }
}

/// How many bytes the first `n` characters take.
fn bytes_of(s: &Vec<char>, n: usize, limit: usize) -> (r: usize)
    requires
        n <= s@.len(),
        bytes(s@) == limit,
    ensures
        r == bytes(s@.take(n as int)),
{
    let mut b: usize = 0;
    let mut i: usize = 0;
    assert(s@.take(0) == Seq::<char>::empty());
    assert(s@.take(s@.len() as int) == s@);
    while i < n
        invariant
            i <= n <= s@.len(),
            b == bytes(s@.take(i as int)),
            bytes(s@.take(s@.len() as int)) == limit,
        decreases n - i,
    {
        proof {
            assert(s@.take(i + 1) == s@.take(i as int).push(s@[i as int]));
            lemma_bytes_push(s@.take(i as int), s@[i as int]);
            lemma_bytes_grow(s@, i + 1, s@.len() as int);
        }
        b += len_utf8(s[i]);
        i += 1;
    }
    b
}

/// How many characters of `s` are before byte `b`.
fn count_before(s: &Vec<char>, b: usize, limit: usize) -> (r: Option<usize>)
    requires
        bytes(s@) == limit,
    ensures
        match r {
            Some(n) => n <= s@.len() && chars_before(s@, b as int, 0) == Some(n as int),
            None => chars_before(s@, b as int, 0) is None,
        },
{
    let mut at: usize = 0;
    let mut i: usize = 0;
    assert(s@.take(0) == Seq::<char>::empty());
    assert(s@.take(s@.len() as int) == s@);
    while i < s.len() && at < b
        invariant
            i <= s@.len(),
            at == bytes(s@.take(i as int)),
            bytes(s@.take(s@.len() as int)) == limit,
            forall|k: int| 0 <= k < i ==> bytes(#[trigger] s@.take(k)) < b,
        decreases s@.len() - i,
    {
        proof {
            assert(s@.take(i + 1) == s@.take(i as int).push(s@[i as int]));
            lemma_bytes_push(s@.take(i as int), s@[i as int]);
            lemma_bytes_grow(s@, i + 1, s@.len() as int);
        }
        at += len_utf8(s[i]);
        i += 1;
    }
    if at == b {
        proof {
            lemma_chars_before(s@, b as int, 0, i as int);
        }
        Some(i)
    } else {
        proof {
            assert forall|k: int| 0 <= k <= s@.len() implies bytes(#[trigger] s@.take(k)) != b by {
                if k >= i {
                    lemma_bytes_grow(s@, i as int, k);
                }
            }
            lemma_no_chars_before(s@, b as int, 0);
        }
        None
    }
}

/// Where in `line` the hit is that is in `lower`, in characters.
pub fn hit_at(line: &str, lower: &str, q: &str) -> (r: usize)
    ensures
        r == hit_in(line@, lower@, q@),
        r <= line@.len(),
{
    let s = chars(line);
    let l = chars(lower);
    let p = chars(q);
    proof {
        lemma_first_at(l@, p@, 0);
    }
    match find_from(&l, &p, 0) {
        None => 0,
        Some(i) => {
            let b = bytes_of(&l, i, crate::utf8::byte_len(lower));
            match count_before(&s, b, crate::utf8::byte_len(line)) {
                Some(n) => n,
                None => 0,
            }
        },
    }
}

/// The line of notes where `q` first occurs, cut to a few words either side
/// of it.
pub open spec fn excerpt_of(notes: Seq<char>, q: Seq<char>) -> Option<Seq<char>> {
    match line_with(lines(notes), q) {
        None => None,
        Some(l) => {
            let t = trim(l);
            Some(cut_around(t, hit_in(t, lowercase_text(t), q)))
        },
    }
}

/// The line of `notes` where `q` first occurs, cut to a few words either
/// side of it.
pub fn excerpt(notes: &str, q: &str) -> (r: Option<String>)
    ensures
        match r {
            Some(s) => excerpt_of(notes@, q@) == Some(s@),
            None => excerpt_of(notes@, q@) is None,
        },
{
    let v = split_lines(notes);
    let ghost l = texts(v@);
    assert(l.skip(0) == l);
    for i in 0..v.len()
        invariant
            l == texts(v@),
            l == lines(notes@),
            line_with(l.skip(i as int), q@) == line_with(l, q@),
    {
        let ghost t = l.skip(i as int);
        assert(t[0] == v@[i as int]@);
        if has(lower_text(v[i].as_str()).as_str(), q) {
            let line = trim_text(v[i].as_str());
            let hit = hit_at(line.as_str(), lower_text(line.as_str()).as_str(), q);
            return Some(cut_line(line.as_str(), hit));
        }
        assert(t.skip(1) == l.skip(i + 1));
    }
    assert(l.skip(l.len() as int).len() == 0);
    None
}

// -- queries ------------------------------------------------------------------------------

pub open spec fn level_of(q: Seq<char>) -> Option<u8> {
    if q == "p1"@ || q == "high"@ {
        Some(1)
    } else if q == "p2"@ || q == "medium"@ {
        Some(2)
    } else if q == "p3"@ || q == "low"@ {
        Some(3)
    } else if q == "p4"@ {
        Some(4)
    } else {
        None
    }
}

/// `p1` … `p4`, or a priority's name.
pub fn priority_query(q: &str) -> (r: Option<u8>)
    ensures
        r == level_of(q@),
{
    if same(q, "p1") || same(q, "high") {
        Some(1)
    } else if same(q, "p2") || same(q, "medium") {
        Some(2)
    } else if same(q, "p3") || same(q, "low") {
        Some(3)
    } else if same(q, "p4") {
        Some(4)
    } else {
        None
    }
}

/// What is typed, as it is looked for.
pub open spec fn query_of(typed: Seq<char>) -> Seq<char> {
    lowercase_text(trim(typed))
}

/// What is typed, as it is looked for.
pub fn query(typed: &str) -> (r: String)
    ensures
        r@ == query_of(typed@),
{
    lower_text(trim_text(typed).as_str())
}

/// Some text answers to a query; all does to none.
pub open spec fn answers(s: Seq<char>, q: Seq<char>) -> bool {
    q.len() == 0 || contains(lowercase_text(s), q)
}

fn is_answer(s: &str, q: &str) -> (r: bool)
    ensures
        r == answers(s@, q@),
{
    q.is_empty() || has(lower_text(s).as_str(), q)
}

// -- views ----------------------------------------------------------------------------------

/// The first of a view's other words that starts with `q`.
pub open spec fn keyword_at(w: Seq<Seq<char>>, q: Seq<char>) -> Option<Seq<char>>
    decreases w.len(),
{
    if w.len() == 0 {
        None
    } else if starts_with(w[0], q) {
        Some(w[0])
    } else {
        keyword_at(w.skip(1), q)
    }
}

/// A view that is found: by its title, or from two letters on by another
/// word; with nothing typed, one that the sidebar shows.
pub open spec fn finds_view(n: NavView, q: Seq<char>, shown: Seq<NavView>) -> bool {
    (answers(title_of(n, Seq::empty()), q) || (q.len() >= 2 && keyword_at(
        keywords_of(n),
        q,
    ) is Some)) && (q.len() > 0 || shown.contains(n))
}

/// The word that a view was found by, when its title does not have it.
pub open spec fn found_by(n: NavView, q: Seq<char>) -> Option<Seq<char>> {
    if contains(lowercase_text(title_of(n, Seq::empty())), q) {
        None
    } else {
        match keyword_at(keywords_of(n), q) {
            Some(k) => Some("“"@ + k + "”"@),
            None => None,
        }
    }
}

fn find_keyword(n: &Nav, q: &str) -> (r: Option<&'static str>)
    ensures
        match r {
            Some(k) => keyword_at(keywords_of(n@), q@) == Some(k@),
            None => keyword_at(keywords_of(n@), q@) is None,
        },
{
    let v = n.keywords();
    let ghost w = words(v@);
    assert(w.skip(0) == w);
    for i in 0..v.len()
        invariant
            w == words(v@),
            w == keywords_of(n@),
            keyword_at(w.skip(i as int), q@) == keyword_at(w, q@),
    {
        let ghost t = w.skip(i as int);
        assert(t[0] == v@[i as int]@);
        if has_prefix(v[i], q) {
            return Some(v[i]);
        }
        assert(t.skip(1) == w.skip(i + 1));
    }
    assert(w.skip(w.len() as int).len() == 0);
    None
}

fn has_nav(v: &[Nav], n: &Nav) -> (r: bool)
    ensures
        r == navs(v@).contains(n@),
{
    for i in 0..v.len()
        invariant
            forall|j: int| 0 <= j < i ==> (#[trigger] v@[j])@ != n@,
    {
        if v[i].is(n) {
            assert(navs(v@)[i as int] == n@);
            return true;
        }
    }
    assert forall|j: int| 0 <= j < navs(v@).len() implies navs(v@)[j] != n@ by {
        assert(navs(v@)[j] == v@[j]@);
    }
    false
}

pub open spec fn not_in(shown: Seq<NavView>) -> spec_fn(NavView) -> bool {
    |n: NavView| !shown.contains(n)
}

/// The views to look in: the sidebar's first; typing finds the hidden ones
/// too.
pub fn all_views(shown: &[Nav]) -> (r: Vec<Nav>)
    ensures
        navs(r@) == navs(shown@) + smart_views().filter(not_in(navs(shown@))),
{
    let mut out: Vec<Nav> = Vec::new();
    for i in 0..shown.len()
        invariant
            navs(out@) == navs(shown@).take(i as int),
    {
        let ghost before = navs(out@);
        out.push(shown[i].clone());
        assert(navs(out@) =~= before.push(shown@[i as int]@));
    }
    let ghost base = navs(shown@);
    assert(base.take(base.len() as int) == base);
    let all = Nav::filters();
    let ghost f = smart_views();
    proof {
        reveal(Seq::filter);
        assert(base + f.take(0).filter(not_in(base)) =~= base);
    }
    for i in 0..8usize
        invariant
            base == navs(shown@),
            f == smart_views(),
            navs(all@) == f,
            navs(out@) == base + f.take(i as int).filter(not_in(base)),
    {
        let ghost before = navs(out@);
        let ghost part = f.take(i as int).filter(not_in(base));
        proof {
            reveal(Seq::filter);
            assert(f.take(i + 1).drop_last() == f.take(i as int));
            assert(navs(all@)[i as int] == all@[i as int]@);
            assert(f.take(i + 1).last() == all@[i as int]@);
        }
        if !has_nav(shown, &all[i]) {
            out.push(all[i].clone());
            assert(navs(out@) =~= before.push(all@[i as int]@));
            assert(base + part.push(all@[i as int]@) =~= (base + part).push(all@[i as int]@));
        }
    }
    assert(f.take(8) == f);
    out
}

/// A view that was found, and the other word it was found by.
#[derive(Debug, Clone)]
pub struct FoundView {
    pub nav: Nav,
    pub also: Option<String>,
}

pub open spec fn found(v: Seq<FoundView>) -> Seq<(NavView, Option<Seq<char>>)> {
    v.map_values(
        |f: FoundView|
            (
                f.nav@,
                match f.also {
                    Some(s) => Some(s@),
                    None => None,
                },
            ),
    )
}

pub open spec fn views_for(v: Seq<NavView>, q: Seq<char>, shown: Seq<NavView>) -> Seq<
    (NavView, Option<Seq<char>>),
> {
    v.filter(|n: NavView| finds_view(n, q, shown)).map_values(
        |n: NavView| (n, found_by(n, q)),
    )
}

/// The views that a query finds.
pub fn find_views(all: &[Nav], shown: &[Nav], q: &str) -> (r: Vec<FoundView>)
    ensures
        found(r@) == views_for(navs(all@), q@, navs(shown@)),
{
    let mut out: Vec<FoundView> = Vec::new();
    let ghost s = navs(all@);
    let ghost p = |n: NavView| finds_view(n, q@, navs(shown@));
    let ghost m = |n: NavView| (n, found_by(n, q@));
    let long: bool = chars(q).len() >= 2;
    proof {
        reveal(Seq::filter);
        assert(found(out@) =~= s.take(0).filter(p).map_values(m));
    }
    for i in 0..all.len()
        invariant
            s == navs(all@),
            long == (q@.len() >= 2),
            p == (|n: NavView| finds_view(n, q@, navs(shown@))),
            m == (|n: NavView| (n, found_by(n, q@))),
            found(out@) == s.take(i as int).filter(p).map_values(m),
    {
        let n = &all[i];
        let ghost before = found(out@);
        let ghost part = s.take(i as int).filter(p);
        proof {
            reveal(Seq::filter);
            assert(s.take(i + 1).drop_last() == s.take(i as int));
            assert(s.take(i + 1).last() == n@);
        }
        let none: [ListView; 0] = [];
        let title = n.title(&none);
        assert(none@ == Seq::<ListView>::empty());
        let word = find_keyword(n, q);
        if (is_answer(title.as_str(), q) || (long && word.is_some())) && (!q.is_empty() || has_nav(
            shown,
            n,
        )) {
            let also: Option<String> = if has(lower_text(title.as_str()).as_str(), q) {
                None
            } else {
                match word {
                    Some(k) => Some(glue3("“", k, "”")),
                    None => None,
                }
            };
            out.push(FoundView { nav: n.clone(), also });
            assert(found(out@) =~= before.push(m(n@)));
            assert(part.push(n@).map_values(m) =~= part.map_values(m).push(m(n@)));
        }
    }
    assert(s.take(s.len() as int) == s);
    out
}

// -- lists ----------------------------------------------------------------------------------

pub open spec fn list_answers(q: Seq<char>) -> spec_fn(ListView) -> bool {
    |l: ListView| answers(l.name@, q)
}

/// The lists whose names a query finds.
pub fn find_lists<'a>(lists: &'a [ListView], q: &str) -> (r: Vec<&'a ListView>)
    ensures
        crate::prefs::plain_lists(r@) == lists@.filter(list_answers(q@)),
{
    let mut out: Vec<&'a ListView> = Vec::new();
    let ghost s = lists@;
    proof {
        reveal(Seq::filter);
        assert(crate::prefs::plain_lists(out@) == s.take(0).filter(list_answers(q@)));
    }
    for i in 0..lists.len()
        invariant
            s == lists@,
            crate::prefs::plain_lists(out@) == s.take(i as int).filter(list_answers(q@)),
    {
        let ghost before = crate::prefs::plain_lists(out@);
        proof {
            reveal(Seq::filter);
            assert(s.take(i + 1).drop_last() == s.take(i as int));
            assert(s.take(i + 1).last() == s[i as int]);
        }
        if is_answer(lists[i].name.as_str(), q) {
            out.push(&lists[i]);
            assert(crate::prefs::plain_lists(out@) =~= before.push(s[i as int]));
        }
    }
    assert(s.take(s.len() as int) == s);
    out
}

// -- tasks ----------------------------------------------------------------------------------

/// A linked note whose name answers.
pub open spec fn note_answers(notes: Seq<Note>, q: Seq<char>) -> bool {
    exists|i: int| 0 <= i < notes.len() && answers((#[trigger] notes[i]).name@, q)
}

/// A task that is found: by its title, its notes or the name of a note it
/// links to.
pub open spec fn task_answers(q: Seq<char>) -> spec_fn(TaskView) -> bool {
    |t: TaskView|
        answers(t.task.summary@, q) || (t.task.description matches Some(d) && answers(d@, q))
            || note_answers(t.task.linked_notes@, q)
}

fn any_note(notes: &Vec<Note>, q: &str) -> (r: bool)
    ensures
        r == note_answers(notes@, q@),
{
    for i in 0..notes.len()
        invariant
            forall|j: int| 0 <= j < i ==> !answers((#[trigger] notes@[j]).name@, q@),
    {
        if is_answer(notes[i].name.as_str(), q) {
            return true;
        }
    }
    false
}

/// The first `n`, or all when there are fewer.
pub open spec fn at_most(s: Seq<TaskView>, n: int) -> Seq<TaskView> {
    if s.len() < n {
        s
    } else {
        s.take(n)
    }
}

/// The open tasks that a query finds, up to forty.
pub fn find_tasks<'a>(open: &Vec<&'a TaskView>, q: &str) -> (r: Vec<&'a TaskView>)
    ensures
        unref(r@) == at_most(unref(open@).filter(task_answers(q@)), 40),
{
    let mut out: Vec<&'a TaskView> = Vec::new();
    let ghost s = unref(open@);
    let ghost p = task_answers(q@);
    proof {
        reveal(Seq::filter);
        assert(unref(out@) == s.take(0).filter(p));
    }
    for i in 0..open.len()
        invariant
            s == unref(open@),
            p == task_answers(q@),
            unref(out@) == s.take(i as int).filter(p),
            out@.len() < 40,
    {
        let t: &'a TaskView = open[i];
        let ghost before = unref(out@);
        proof {
            reveal(Seq::filter);
            assert(s.take(i + 1).drop_last() == s.take(i as int));
            assert(s.take(i + 1).last() == s[i as int]);
        }
        let in_notes: bool = match &t.task.description {
            Some(d) => is_answer(d.as_str(), q),
            None => false,
        };
        if is_answer(t.task.summary.as_str(), q) || in_notes || any_note(&t.task.linked_notes, q) {
            out.push(t);
            assert(unref(out@) =~= before.push(*t));
            if out.len() == 40 {
                proof {
                    lemma_filter_prefix(s, p, i + 1);
                    assert(unref(out@).len() == 40);
                    assert(unref(out@) == s.filter(p).take(40));
                }
                return out;
            }
        }
    }
    assert(s.take(s.len() as int) == s);
    out
}

/// What passes of the first tasks is the start of what passes of all.
proof fn lemma_filter_prefix(s: Seq<TaskView>, p: spec_fn(TaskView) -> bool, i: int)
    requires
        0 <= i <= s.len(),
    ensures
        s.take(i).filter(p).len() <= s.filter(p).len(),
        s.take(i).filter(p) == s.filter(p).take(s.take(i).filter(p).len() as int),
    decreases s.len(),
{
    reveal(Seq::filter);
    if i < s.len() {
        lemma_filter_prefix(s.drop_last(), p, i);
        assert(s.drop_last().take(i) == s.take(i));
        let a = s.take(i).filter(p);
        let b = s.drop_last().filter(p);
        assert(b.take(a.len() as int) == s.filter(p).take(a.len() as int));
    } else {
        assert(s.take(i) == s);
        assert(s.filter(p).take(s.filter(p).len() as int) == s.filter(p));
    }
}

pub open spec fn has_level(level: u8) -> spec_fn(TaskView) -> bool {
    |t: TaskView| t.task.level == level
}

/// The open tasks of a priority, by their due date, up to forty.
pub fn find_priority<'a>(open: &Vec<&'a TaskView>, level: u8) -> (r: Vec<&'a TaskView>)
    ensures
        unref(r@) == at_most(
            arranged(unref(open@).filter(has_level(level)), order(Sort::Due)),
            40,
        ),
{
    let mut out: Vec<&'a TaskView> = Vec::new();
    let ghost s = unref(open@);
    proof {
        reveal(Seq::filter);
        assert(unref(out@) == s.take(0).filter(has_level(level)));
    }
    for i in 0..open.len()
        invariant
            s == unref(open@),
            unref(out@) == s.take(i as int).filter(has_level(level)),
    {
        let t: &'a TaskView = open[i];
        let ghost before = unref(out@);
        proof {
            reveal(Seq::filter);
            assert(s.take(i + 1).drop_last() == s.take(i as int));
            assert(s.take(i + 1).last() == s[i as int]);
        }
        if t.task.level == level {
            out.push(t);
            assert(unref(out@) =~= before.push(s[i as int]));
        }
    }
    assert(s.take(s.len() as int) == s);
    let mut v = sorted(out, Sort::Due);
    let ghost all = unref(v@);
    if v.len() > 40 {
        v.truncate(40);
        assert(unref(v@) =~= all.take(40));
    } else {
        assert(all.len() == 40 ==> all.take(40) == all);
    }
    v
}

/// Under a task: its list, and the words for its date.
pub fn where_it_is(t: &TaskView, label: &str) -> (r: String)
    ensures
        r@ == (if t.task.due is Some {
            t.list_name@ + " · "@ + capital(label@)
        } else {
            t.list_name@
        }),
{
    if t.task.due.is_some() {
        glue3(t.list_name.as_str(), " · ", capitalize(label).as_str())
    } else {
        t.list_name.clone()
    }
}

/// Under a completed task: its list, and the words for the day it was done.
pub fn where_it_was(t: &TaskView, label: &str) -> (r: String)
    ensures
        r@ == t.list_name@ + " · done "@ + (if t.task.completed is Some {
            capital(label@)
        } else {
            Seq::empty()
        }),
{
    let mut s = glue(t.list_name.as_str(), " · done ");
    if t.task.completed.is_some() {
        s.append(capitalize(label).as_str());
    } else {
        assert(s@ + Seq::<char>::empty() == s@);
    }
    s
}

/// What shows under a task that was found elsewhere than in its title.
#[derive(Debug)]
pub enum Under {
    Nothing,
    /// A line of its notes.
    Line(String),
    /// The name of a linked note.
    Linked(String),
}

/// The first linked note that `q` is in the name of.
pub open spec fn named_note(notes: Seq<Note>, q: Seq<char>) -> Option<Seq<char>>
    decreases notes.len(),
{
    if notes.len() == 0 {
        None
    } else if contains(lowercase_text(notes[0].name@), q) {
        Some(notes[0].name@)
    } else {
        named_note(notes.skip(1), q)
    }
}

/// What shows under a task: the notes line that matched when the title
/// didn't, or the name of a note it links to.
pub open spec fn under_of(t: Task, q: Seq<char>, u: Under) -> bool {
    if q.len() == 0 || contains(lowercase_text(t.summary@), q) {
        u is Nothing
    } else {
        let line = match t.description {
            Some(d) => excerpt_of(d@, q),
            None => None,
        };
        match (line, named_note(t.linked_notes@, q)) {
            (Some(l), _) => u matches Under::Line(s) && s@ == l,
            (None, Some(n)) => u matches Under::Linked(s) && s@ == n,
            (None, None) => u is Nothing,
        }
    }
}

pub fn under(t: &Task, q: &str) -> (r: Under)
    ensures
        under_of(*t, q@, r),
{
    if q.is_empty() || has(lower_text(t.summary.as_str()).as_str(), q) {
        return Under::Nothing;
    }
    let line: Option<String> = match &t.description {
        Some(d) => excerpt(d.as_str(), q),
        None => None,
    };
    if let Some(l) = line {
        return Under::Line(l);
    }
    let ghost notes = t.linked_notes@;
    assert(notes.skip(0) == notes);
    for i in 0..t.linked_notes.len()
        invariant
            notes == t.linked_notes@,
            q@.len() > 0,
            !contains(lowercase_text(t.summary@), q@),
            (match t.description {
                Some(d) => excerpt_of(d@, q@),
                None => None,
            }) is None,
            named_note(notes.skip(i as int), q@) == named_note(notes, q@),
    {
        let ghost u = notes.skip(i as int);
        assert(u[0] == notes[i as int]);
        let name = &t.linked_notes[i].name;
        if has(lower_text(name.as_str()).as_str(), q) {
            return Under::Linked(name.clone());
        }
        assert(u.skip(1) == notes.skip(i + 1));
    }
    assert(notes.skip(notes.len() as int).len() == 0);
    Under::Nothing
}

// -- all of it --------------------------------------------------------------------------------

/// A row of the results: a heading, or something found.
#[derive(Debug)]
pub enum Hit<'a> {
    Header(&'static str),
    View(FoundView),
    /// A list, and whether it is put away.
    List(&'a ListView, bool),
    /// A task, and whether it was found by what is typed, to be shown in bold.
    Task(&'a TaskView, bool),
}

/// A row of the results, by its texts.
pub enum HitView {
    Header(Seq<char>),
    View(NavView, Option<Seq<char>>),
    List(ListView, bool),
    Task(TaskView, bool),
}

impl<'a> View for Hit<'a> {
    type V = HitView;

    open spec fn view(&self) -> HitView {
        match self {
            Hit::Header(s) => HitView::Header(s@),
            Hit::View(f) => HitView::View(
                f.nav@,
                match f.also {
                    Some(s) => Some(s@),
                    None => None,
                },
            ),
            Hit::List(l, a) => HitView::List(**l, *a),
            Hit::Task(t, by) => HitView::Task(**t, *by),
        }
    }
}

pub open spec fn hits<'a>(v: Seq<Hit<'a>>) -> Seq<HitView> {
    v.map_values(|h: Hit<'a>| h@)
}

/// Rows under a heading; no heading without any.
pub open spec fn under_header(title: Seq<char>, rows: Seq<HitView>) -> Seq<HitView> {
    if rows.len() == 0 {
        Seq::empty()
    } else {
        seq![HitView::Header(title)] + rows
    }
}

pub open spec fn view_hits(s: Seq<(NavView, Option<Seq<char>>)>) -> Seq<HitView> {
    s.map_values(|p: (NavView, Option<Seq<char>>)| HitView::View(p.0, p.1))
}

pub open spec fn list_hits(s: Seq<ListView>, archived: Seq<Seq<char>>) -> Seq<HitView> {
    s.map_values(|l: ListView| HitView::List(l, archived.contains(l.href@)))
}

pub open spec fn task_hits(s: Seq<TaskView>, by: bool) -> Seq<HitView> {
    s.map_values(|t: TaskView| HitView::Task(t, by))
}

/// What a query finds: views, lists, and unless it is empty tasks, those of a
/// priority first when it names one.
pub open spec fn results_of(
    q: Seq<char>,
    shown: Seq<NavView>,
    lists: Seq<ListView>,
    archived: Seq<Seq<char>>,
    open: Seq<TaskView>,
) -> Seq<HitView> {
    let all = shown + smart_views().filter(not_in(shown));
    under_header("Views"@, view_hits(views_for(all, q, shown))) + under_header(
        "Lists"@,
        list_hits(lists.filter(list_answers(q)), archived),
    ) + (match level_of(q) {
        Some(level) => under_header(
            crate::words::priority_text(level),
            task_hits(
                at_most(arranged(open.filter(has_level(level)), order(Sort::Due)), 40),
                false,
            ),
        ),
        None => Seq::empty(),
    }) + (if q.len() == 0 {
        Seq::empty()
    } else {
        under_header("Tasks"@, task_hits(at_most(open.filter(task_answers(q)), 40), true))
    })
}

fn put_views<'a>(out: &mut Vec<Hit<'a>>, views: Vec<FoundView>)
    ensures
        hits(final(out)@) == hits(old(out)@) + under_header("Views"@, view_hits(found(views@))),
{
    let ghost before = hits(out@);
    let ghost rows = view_hits(found(views@));
    if views.len() == 0 {
        assert(before + Seq::<HitView>::empty() =~= before);
        return;
    }
    out.push(Hit::Header("Views"));
    let ghost head = hits(out@);
    let ghost s = views@;
    assert(head =~= before + seq![HitView::Header("Views"@)]);
    assert(head + rows.take(0) =~= head);
    for f in it: views
        invariant
            it.seq() == s,
            rows == view_hits(found(s)),
            hits(out@) == head + rows.take(it.index()),
    {
        let ghost was = hits(out@);
        let h = Hit::View(f);
        out.push(h);
        assert(h@ == rows[it.index()]);
        assert(hits(out@) =~= was.push(h@));
        assert(hits(out@) =~= head + rows.take(it.index() + 1));
    }
    assert(rows.take(rows.len() as int) == rows);
    assert(hits(out@) =~= before + under_header("Views"@, rows));
}

fn put_lists<'a>(out: &mut Vec<Hit<'a>>, lists: Vec<&'a ListView>, archived: &Vec<String>)
    ensures
        hits(final(out)@) == hits(old(out)@) + under_header(
            "Lists"@,
            list_hits(crate::prefs::plain_lists(lists@), texts(archived@)),
        ),
{
    let ghost before = hits(out@);
    let ghost rows = list_hits(crate::prefs::plain_lists(lists@), texts(archived@));
    if lists.len() == 0 {
        assert(before + Seq::<HitView>::empty() =~= before);
        return;
    }
    out.push(Hit::Header("Lists"));
    let ghost head = hits(out@);
    assert(head =~= before + seq![HitView::Header("Lists"@)]);
    assert(head + rows.take(0) =~= head);
    for i in 0..lists.len()
        invariant
            rows == list_hits(crate::prefs::plain_lists(lists@), texts(archived@)),
            hits(out@) == head + rows.take(i as int),
    {
        let ghost was = hits(out@);
        let l: &'a ListView = lists[i];
        let h = Hit::List(l, has_text(archived, l.href.as_str()));
        out.push(h);
        assert(h@ == rows[i as int]);
        assert(hits(out@) =~= was.push(h@));
        assert(hits(out@) =~= head + rows.take(i + 1));
    }
    assert(rows.take(rows.len() as int) == rows);
    assert(hits(out@) =~= before + under_header("Lists"@, rows));
}

fn put_tasks<'a>(out: &mut Vec<Hit<'a>>, title: &'static str, tasks: Vec<&'a TaskView>, by: bool)
    ensures
        hits(final(out)@) == hits(old(out)@) + under_header(title@, task_hits(unref(tasks@), by)),
{
    let ghost before = hits(out@);
    let ghost rows = task_hits(unref(tasks@), by);
    if tasks.len() == 0 {
        assert(before + Seq::<HitView>::empty() =~= before);
        return;
    }
    out.push(Hit::Header(title));
    let ghost head = hits(out@);
    assert(head =~= before + seq![HitView::Header(title@)]);
    assert(head + rows.take(0) =~= head);
    for i in 0..tasks.len()
        invariant
            rows == task_hits(unref(tasks@), by),
            hits(out@) == head + rows.take(i as int),
    {
        let ghost was = hits(out@);
        let h = Hit::Task(tasks[i], by);
        out.push(h);
        assert(h@ == rows[i as int]);
        assert(hits(out@) =~= was.push(h@));
        assert(hits(out@) =~= head + rows.take(i + 1));
    }
    assert(rows.take(rows.len() as int) == rows);
    assert(hits(out@) =~= before + under_header(title@, rows));
}

/// What a query finds, under headings. The sidebar's views come first; typing
/// finds the hidden ones too.
pub fn results<'a>(
    q: &str,
    shown: &[Nav],
    lists: &'a [ListView],
    archived: &Vec<String>,
    open: &Vec<&'a TaskView>,
) -> (r: Vec<Hit<'a>>)
    ensures
        hits(r@) == results_of(q@, navs(shown@), lists@, texts(archived@), unref(open@)),
{
    let mut out: Vec<Hit<'a>> = Vec::new();
    assert(hits(out@) =~= Seq::<HitView>::empty());
    let all = all_views(shown);
    put_views(&mut out, find_views(&all, shown, q));
    assert(hits(out@) =~= under_header(
        "Views"@,
        view_hits(views_for(navs(all@), q@, navs(shown@))),
    ));
    put_lists(&mut out, find_lists(lists, q), archived);
    let ghost a = hits(out@);
    match priority_query(q) {
        Some(level) => {
            put_tasks(&mut out, priority_name(level), find_priority(open, level), false);
        },
        None => {
            assert(a + Seq::<HitView>::empty() =~= a);
        },
    }
    let ghost b = hits(out@);
    if q.is_empty() {
        assert(b + Seq::<HitView>::empty() =~= b);
        return out;
    }
    put_tasks(&mut out, "Tasks", find_tasks(open, q), true);
    out
}

/// What is asked of the daemon for a query, from two letters on: completed
/// tasks are its to search.
pub fn completed_query(q: &str) -> (r: Option<Query>)
    ensures
        match r {
            Some(c) => q@.len() >= 2 && c == (Query {
                text: c.text,
                which: Which::Completed,
                list: None,
                limit: Some(20),
                linked_note: None,
            }) && (c.text matches Some(t) && t@ == q@),
            None => q@.len() < 2,
        },
{
    if chars(q).len() < 2 {
        return None;
    }
    let mut c = Query::of(Which::Completed);
    c.text = Some(String::from_str(q));
    c.limit = Some(20);
    Some(c)
}

/// The completed tasks that the daemon found, under their heading; none when
/// something else was typed meanwhile.
pub fn completed_results<'a>(asked: u64, newest: u64, done: &Vec<&'a TaskView>) -> (r: Vec<Hit<'a>>)
    ensures
        hits(r@) == (if asked == newest {
            under_header("Completed"@, task_hits(unref(done@), true))
        } else {
            Seq::empty()
        }),
{
    let mut out: Vec<Hit<'a>> = Vec::new();
    assert(hits(out@) =~= Seq::<HitView>::empty());
    if asked == newest {
        let mut copy: Vec<&'a TaskView> = Vec::new();
        for i in 0..done.len()
            invariant
                copy@ == done@.take(i as int),
        {
            copy.push(done[i]);
        }
        assert(done@.take(done@.len() as int) == done@);
        put_tasks(&mut out, "Completed", copy, true);
        assert(hits(out@) =~= under_header("Completed"@, task_hits(unref(done@), true)));
    }
    out
}

/// What choosing a row does; nothing for a heading.
pub fn choose_hit(h: &Hit) -> (r: Option<Msg>)
    ensures
        match h@ {
            HitView::Header(_) => r is None,
            HitView::View(n, _) => r matches Some(Msg::Navigate(v)) && v@ == n,
            HitView::List(l, _) => r matches Some(Msg::Navigate(v)) && v@ == NavView::List(l.href@),
            HitView::Task(t, _) => r == Some(Msg::Reveal(t.href)),
        },
{
    match h {
        Hit::Header(_) => None,
        Hit::View(f) => Some(Msg::Navigate(f.nav.clone())),
        Hit::List(l, _) => Some(Msg::Navigate(Nav::List(l.href.clone()))),
        Hit::Task(t, _) => Some(Msg::Reveal(t.href.clone())),
    }
}

// -- moving through results -------------------------------------------------------------------

/// The next row that can be selected, going on from one (or from before the
/// first) in either direction.
pub open spec fn next_row(rows: Seq<bool>, from: int, down: bool) -> Option<int>
    decreases
            if down {
                rows.len() - from
            } else {
                from + 1
            },
{
    let i = if down {
        from + 1
    } else {
        from - 1
    };
    if i < 0 || i >= rows.len() {
        None
    } else if rows[i] {
        Some(i)
    } else {
        next_row(rows, i, down)
    }
}

/// The next row that can be selected; `from` is the selected one.
pub fn step(rows: &[bool], from: Option<usize>, down: bool) -> (r: Option<usize>)
    requires
        from matches Some(i) ==> i < rows@.len(),
    ensures
        match r {
            Some(k) => next_row(
                rows@,
                match from {
                    Some(i) => i as int,
                    None => -1,
                },
                down,
            ) == Some(k as int),
            None => next_row(
                rows@,
                match from {
                    Some(i) => i as int,
                    None => -1,
                },
                down,
            ) is None,
        },
{
    let ghost start = match from {
        Some(i) => i as int,
        None => -1,
    };
    let n = rows.len();
    if down {
        let mut i: usize = match from {
            Some(i) => i + 1,
            None => 0,
        };
        while i < n
            invariant
                0 <= i <= rows@.len(),
                n == rows@.len(),
                start == (match from {
                    Some(i) => i as int,
                    None => -1,
                }),
                next_row(rows@, i - 1, true) == next_row(rows@, start, true),
                down,
            decreases rows@.len() - i,
        {
            if rows[i] {
                return Some(i);
            }
            i += 1;
        }
        None
    } else {
        let mut i: usize = match from {
            Some(i) => i,
            None => 0,
        };
        while i > 0
            invariant
                i <= rows@.len(),
                i > 0 ==> next_row(rows@, i as int, false) == next_row(rows@, start, false),
                i == 0 ==> next_row(rows@, start, false) is None,
                start == (match from {
                    Some(i) => i as int,
                    None => -1,
                }),
                !down,
            decreases i,
        {
            if rows[i - 1] {
                return Some(i - 1);
            }
            i -= 1;
        }
        None
    }
}

/// The row that is selected at first.
pub fn first_row(rows: &[bool]) -> (r: Option<usize>)
    ensures
        match r {
            Some(k) => next_row(rows@, -1, true) == Some(k as int),
            None => next_row(rows@, -1, true) is None,
        },
{
    step(rows, None, true)
}

} // verus!
