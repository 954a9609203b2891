//! Orders: names as people read them, ranks compared number by number, and
//! the stable sort that both go through.

use std::cmp::Ordering;

use vstd::prelude::*;

use crate::number::{all_digits, value};
use crate::text::{chars, digit, is_digit, lowercase, to_lowercase};

verus! {

// -- lexicographic order ------------------------------------------------------

/// The sign of a difference.
pub open spec fn sign(d: int) -> int {
    if d < 0 {
        -1
    } else if d > 0 {
        1
    } else {
        0
    }
}

/// Characters in dictionary order by their code: below zero when `a` comes
/// first, above when `b` does, zero when they are the same.
pub open spec fn lex(a: Seq<char>, b: Seq<char>) -> int
    decreases a.len(),
{
    if a.len() == 0 || b.len() == 0 {
        sign(a.len() - b.len())
    } else if a[0] != b[0] {
        sign(a[0] as int - b[0] as int)
    } else {
        lex(a.skip(1), b.skip(1))
    }
}

pub(crate) proof fn lemma_lex_same(a: Seq<char>, b: Seq<char>)
    ensures
        (lex(a, b) == 0) == (a == b),
    decreases a.len(),
{
    if a.len() > 0 && b.len() > 0 && a[0] == b[0] {
        lemma_lex_same(a.skip(1), b.skip(1));
        if a.skip(1) == b.skip(1) {
            assert(a == seq![a[0]] + a.skip(1));
            assert(b == seq![b[0]] + b.skip(1));
        }
    } else if a.len() == 0 && b.len() == 0 {
        assert(a == b);
    }
}

pub(crate) proof fn lemma_lex_flips(a: Seq<char>, b: Seq<char>)
    ensures
        lex(b, a) == -lex(a, b),
    decreases a.len(),
{
    if a.len() > 0 && b.len() > 0 && a[0] == b[0] {
        lemma_lex_flips(a.skip(1), b.skip(1));
    }
}

pub(crate) proof fn lemma_lex_carries(a: Seq<char>, b: Seq<char>, c: Seq<char>)
    requires
        lex(a, b) <= 0,
        lex(b, c) <= 0,
    ensures
        lex(a, c) <= 0,
        lex(a, b) < 0 || lex(b, c) < 0 ==> lex(a, c) < 0,
    decreases a.len(),
{
    if a.len() > 0 && b.len() > 0 && c.len() > 0 && a[0] == b[0] && b[0] == c[0] {
        lemma_lex_carries(a.skip(1), b.skip(1), c.skip(1));
    }
}

/// How `a` and `b` compare from `i` on, which is how they compare when they
/// are the same before it.
fn lex_from(a: &Vec<char>, b: &Vec<char>) -> (r: i32)
    ensures
        r == lex(a@, b@),
{
    let mut i: usize = 0;
    assert(a@.skip(0) == a@);
    assert(b@.skip(0) == b@);
    while i < a.len() && i < b.len()
        invariant
            i <= a@.len(),
            i <= b@.len(),
            lex(a@.skip(i as int), b@.skip(i as int)) == lex(a@, b@),
        decreases a@.len() - i,
    {
        if a[i] < b[i] {
            return -1;
        }
        if a[i] > b[i] {
            return 1;
        }
        assert(a@.skip(i as int).skip(1) == a@.skip(i + 1));
        assert(b@.skip(i as int).skip(1) == b@.skip(i + 1));
        i += 1;
    }
    if i < b.len() {
        -1
    } else if i < a.len() {
        1
    } else {
        0
    }
}

/// An order says which of two comes first.
pub open spec fn says(r: Ordering, o: int) -> bool {
    match r {
        Ordering::Less => o < 0,
        Ordering::Equal => o == 0,
        Ordering::Greater => o > 0,
    }
}

// -- names as people read them ------------------------------------------------

/// How many digits `s` starts with.
pub open spec fn run(s: Seq<char>) -> nat
    decreases s.len(),
{
    if s.len() > 0 && digit(s[0]) {
        1 + run(s.skip(1))
    } else {
        0
    }
}

/// Two runs of digits: by what they are worth, then the shorter first.
pub open spec fn number_order(a: Seq<char>, b: Seq<char>) -> int {
    if value(a) != value(b) {
        sign(value(a) - value(b))
    } else {
        sign(a.len() - b.len())
    }
}

/// The lowercase of a character, as names are compared by it. Unicode has
/// none that starts with a digit for anything but a digit; were there one, the
/// character would stand for itself.
pub open spec fn folded(c: char) -> Seq<char> {
    if digit(c) || lowercase(c).len() == 0 || digit(lowercase(c)[0]) {
        seq![c]
    } else {
        lowercase(c)
    }
}

fn fold(c: char) -> (r: Vec<char>)
    ensures
        r@ == folded(c),
{
    to_lowercase(c)
}

/// How the first things in two names compare: two numbers as numbers,
/// anything else by its lowercase.
pub open spec fn head_order(a: Seq<char>, b: Seq<char>) -> int {
    if digit(a[0]) && digit(b[0]) {
        number_order(a.take(run(a) as int), b.take(run(b) as int))
    } else {
        lex(folded(a[0]), folded(b[0]))
    }
}

/// Names as people read them: the first thing in them that differs decides.
/// Below zero when `a` comes first, above when `b` does.
pub open spec fn reading(a: Seq<char>, b: Seq<char>) -> int
    decreases a.len(),
    via reading_decreases
{
    if a.len() == 0 || b.len() == 0 {
        sign(a.len() - b.len())
    } else if head_order(a, b) != 0 {
        head_order(a, b)
    } else if digit(a[0]) && digit(b[0]) {
        reading(a.skip(run(a) as int), b.skip(run(b) as int))
    } else {
        reading(a.skip(1), b.skip(1))
    }
}

#[via_fn]
proof fn reading_decreases(a: Seq<char>, b: Seq<char>) {
    lemma_run(a);
}

pub(crate) proof fn lemma_run(s: Seq<char>)
    ensures
        run(s) <= s.len(),
        forall|i: int| 0 <= i < run(s) ==> digit(s[i]),
        run(s) < s.len() ==> !digit(s[run(s) as int]),
        s.len() > 0 && digit(s[0]) ==> run(s) == 1 + run(s.skip(1)) && run(s) > 0,
        all_digits(s.take(run(s) as int)),
    decreases s.len(),
{
    if s.len() > 0 && digit(s[0]) {
        lemma_run(s.skip(1));
        assert forall|i: int| 0 <= i < run(s) implies digit(s[i]) by {
            if i > 0 {
                assert(s.skip(1)[i - 1] == s[i]);
            }
        }
        if run(s) < s.len() {
            assert(s.skip(1)[run(s) - 1] == s[run(s) as int]);
        }
    }
}

/// A name compares the same as itself.
pub proof fn reading_is_reflexive(a: Seq<char>)
    ensures
        reading(a, a) == 0,
    decreases a.len(),
{
    if a.len() > 0 {
        lemma_run(a);
        lemma_lex_same(folded(a[0]), folded(a[0]));
        if digit(a[0]) {
            reading_is_reflexive(a.skip(run(a) as int));
        } else {
            reading_is_reflexive(a.skip(1));
        }
    }
}

/// Turning two names round turns their order round.
pub proof fn reading_flips(a: Seq<char>, b: Seq<char>)
    ensures
        reading(b, a) == -reading(a, b),
    decreases a.len(),
{
    if a.len() > 0 && b.len() > 0 {
        lemma_run(a);
        lemma_run(b);
        lemma_lex_flips(folded(a[0]), folded(b[0]));
        if head_order(a, b) == 0 {
            if digit(a[0]) && digit(b[0]) {
                reading_flips(a.skip(run(a) as int), b.skip(run(b) as int));
            } else {
                reading_flips(a.skip(1), b.skip(1));
            }
        }
    }
}

/// Names whose first things compare the same start with the same kind of
/// thing.
proof fn lemma_heads(a: Seq<char>, b: Seq<char>)
    requires
        a.len() > 0,
        b.len() > 0,
    ensures
        digit(a[0]) != digit(b[0]) ==> head_order(a, b) != 0,
        digit(a[0]) && !digit(b[0]) ==> head_order(a, b) == sign(
            '0' as int - folded(b[0])[0] as int,
        ),
        !digit(a[0]) && digit(b[0]) ==> head_order(a, b) == sign(
            folded(a[0])[0] as int - '0' as int,
        ),
{
    let x = folded(a[0]);
    let y = folded(b[0]);
    assert(a[0] == a[0] && b[0] == b[0]);
    assert(x.len() > 0 && y.len() > 0);
}

proof fn lemma_heads_carry(a: Seq<char>, b: Seq<char>, c: Seq<char>)
    requires
        a.len() > 0,
        b.len() > 0,
        c.len() > 0,
        head_order(a, b) <= 0,
        head_order(b, c) <= 0,
    ensures
        head_order(a, c) <= 0,
        head_order(a, b) < 0 || head_order(b, c) < 0 ==> head_order(a, c) < 0,
{
    lemma_heads(a, b);
    lemma_heads(b, c);
    lemma_heads(a, c);
    let (x, y, z) = (folded(a[0]), folded(b[0]), folded(c[0]));
    assert(a[0] == a[0] && b[0] == b[0] && c[0] == c[0]);
    if !(digit(a[0]) && digit(b[0])) && !(digit(b[0]) && digit(c[0])) {
        lemma_lex_carries(x, y, z);
        if digit(a[0]) && digit(c[0]) {
            assert(y.len() > 0 && !digit(y[0]));
        }
    }
}

/// Names in reading order: when `a` is not after `b` and `b` not after `c`,
/// `a` is not after `c`, and it is before it when either comes before.
pub proof fn reading_carries(a: Seq<char>, b: Seq<char>, c: Seq<char>)
    ensures
        reading(a, b) <= 0 && reading(b, c) <= 0 ==> reading(a, c) <= 0,
        reading(a, b) <= 0 && reading(b, c) <= 0 && (reading(a, b) < 0 || reading(b, c) < 0)
            ==> reading(a, c) < 0,
    decreases a.len(),
{
    if reading(a, b) <= 0 && reading(b, c) <= 0 {
        if a.len() > 0 && b.len() > 0 && c.len() > 0 {
            lemma_run(a);
            lemma_run(b);
            lemma_run(c);
            lemma_heads(a, b);
            lemma_heads(b, c);
            lemma_heads(a, c);
            lemma_heads_carry(a, b, c);
            if head_order(a, b) == 0 && head_order(b, c) == 0 {
                if digit(a[0]) {
                    reading_carries(
                        a.skip(run(a) as int),
                        b.skip(run(b) as int),
                        c.skip(run(c) as int),
                    );
                } else {
                    reading_carries(a.skip(1), b.skip(1), c.skip(1));
                }
            }
        }
    }
}

// -- runs of digits by their digits -------------------------------------------

spec fn pow10(n: nat) -> nat
    decreases n,
{
    if n == 0 {
        1
    } else {
        10 * pow10((n - 1) as nat)
    }
}

/// Digits without a leading zero are worth more the more of them there are.
proof fn lemma_value_bounds(s: Seq<char>)
    requires
        all_digits(s),
    ensures
        value(s) < pow10(s.len()),
        s.len() > 0 && s[0] != '0' ==> value(s) >= pow10((s.len() - 1) as nat),
    decreases s.len(),
{
    if s.len() > 0 {
        let t = s.drop_last();
        assert forall|i: int| 0 <= i < t.len() implies digit(t[i]) by {
            assert(t[i] == s[i]);
        }
        lemma_value_bounds(t);
        assert(digit(s.last()));
        if s.len() == 1 {
            assert(value(t) == 0);
        } else {
            assert(t[0] == s[0]);
            assert(pow10((s.len() - 1) as nat) == 10 * pow10((s.len() - 2) as nat));
        }
    }
}

proof fn lemma_pow10_grows(m: nat, n: nat)
    requires
        m <= n,
    ensures
        pow10(m) <= pow10(n),
    decreases n,
{
    if m < n {
        lemma_pow10_grows(m, (n - 1) as nat);
    }
}

/// A leading zero is worth nothing.
proof fn lemma_leading_zero(s: Seq<char>)
    requires
        s.len() > 0,
        s[0] == '0',
    ensures
        value(s.skip(1)) == value(s),
    decreases s.len(),
{
    if s.len() == 1 {
        assert(s.skip(1) == Seq::<char>::empty());
        assert(s.drop_last() == Seq::<char>::empty());
        assert(value(s.drop_last()) == 0);
    } else {
        lemma_leading_zero(s.drop_last());
        assert(s.skip(1).drop_last() == s.drop_last().skip(1));
        assert(s.skip(1).last() == s.last());
    }
}

/// Of two runs of one length, the first digit that differs decides.
proof fn lemma_first_difference(a: Seq<char>, b: Seq<char>, k: int)
    requires
        a.len() == b.len(),
        all_digits(a),
        all_digits(b),
        0 <= k < a.len(),
        a.take(k) == b.take(k),
        a[k] < b[k],
    ensures
        value(a) < value(b),
    decreases a.len(),
{
    assert(digit(a.last()) && digit(b.last()));
    if k == a.len() - 1 {
        assert(a.drop_last() == a.take(k));
        assert(b.drop_last() == b.take(k));
    } else {
        let x = a.drop_last();
        let y = b.drop_last();
        assert(x.take(k) == a.take(k));
        assert(y.take(k) == b.take(k));
        assert forall|i: int| 0 <= i < x.len() implies digit(x[i]) && digit(y[i]) by {
            assert(x[i] == a[i] && y[i] == b[i]);
        }
        lemma_first_difference(x, y, k);
    }
}

/// The end of the run of digits at `from`.
fn run_end(s: &Vec<char>, from: usize) -> (r: usize)
    requires
        from <= s@.len(),
    ensures
        r == from + run(s@.skip(from as int)),
        from <= r <= s@.len(),
{
    let mut i: usize = from;
    while i < s.len() && is_digit(s[i])
        invariant
            from <= i <= s@.len(),
            run(s@.skip(from as int)) == i - from + run(s@.skip(i as int)),
        decreases s@.len() - i,
    {
        assert(s@.skip(i as int).skip(1) == s@.skip(i + 1));
        i += 1;
    }
    i
}

/// The run `s[from..to]` without its leading zeros: where it then starts.
fn past_zeros(s: &Vec<char>, from: usize, to: usize) -> (r: usize)
    requires
        from <= to <= s@.len(),
    ensures
        from <= r <= to,
        value(s@.subrange(r as int, to as int)) == value(s@.subrange(from as int, to as int)),
        r < to ==> s@[r as int] != '0',
{
    let mut i: usize = from;
    while i < to && s[i] == '0'
        invariant
            from <= i <= to <= s@.len(),
            value(s@.subrange(i as int, to as int)) == value(
                s@.subrange(from as int, to as int),
            ),
        decreases to - i,
    {
        proof {
            let t = s@.subrange(i as int, to as int);
            lemma_leading_zero(t);
            assert(t.skip(1) == s@.subrange(i + 1, to as int));
        }
        i += 1;
    }
    i
}

/// How the runs `a[i..m]` and `b[j..n]` compare.
fn compare_runs(
    a: &Vec<char>,
    i: usize,
    m: usize,
    b: &Vec<char>,
    j: usize,
    n: usize,
) -> (r: i32)
    requires
        i <= m <= a@.len(),
        j <= n <= b@.len(),
        all_digits(a@.subrange(i as int, m as int)),
        all_digits(b@.subrange(j as int, n as int)),
    ensures
        r == number_order(a@.subrange(i as int, m as int), b@.subrange(j as int, n as int)),
{
    let p = past_zeros(a, i, m);
    let q = past_zeros(b, j, n);
    let ghost x = a@.subrange(p as int, m as int);
    let ghost y = b@.subrange(q as int, n as int);
    proof {
        assert forall|k: int| 0 <= k < x.len() implies digit(x[k]) by {
            assert(x[k] == a@.subrange(i as int, m as int)[p - i + k]);
        }
        assert forall|k: int| 0 <= k < y.len() implies digit(y[k]) by {
            assert(y[k] == b@.subrange(j as int, n as int)[q - j + k]);
        }
        lemma_value_bounds(x);
        lemma_value_bounds(y);
        if x.len() < y.len() {
            lemma_pow10_grows(x.len(), (y.len() - 1) as nat);
        } else if y.len() < x.len() {
            lemma_pow10_grows(y.len(), (x.len() - 1) as nat);
        }
    }
    if m - p < n - q {
        return -1;
    }
    if m - p > n - q {
        return 1;
    }
    let mut k: usize = 0;
    while k < m - p
        invariant
            p <= m <= a@.len(),
            q <= n <= b@.len(),
            m - p == n - q,
            k <= m - p,
            i <= p,
            j <= q,
            x == a@.subrange(p as int, m as int),
            y == b@.subrange(q as int, n as int),
            all_digits(x),
            all_digits(y),
            x.take(k as int) == y.take(k as int),
            value(x) == value(a@.subrange(i as int, m as int)),
            value(y) == value(b@.subrange(j as int, n as int)),
        decreases m - p - k,
    {
        let (c, d) = (a[p + k], b[q + k]);
        assert(x[k as int] == c && y[k as int] == d);
        if c < d {
            proof {
                lemma_first_difference(x, y, k as int);
            }
            return -1;
        }
        if c > d {
            proof {
                lemma_first_difference(y, x, k as int);
            }
            return 1;
        }
        assert(x.take(k + 1) == x.take(k as int).push(c));
        assert(y.take(k + 1) == y.take(k as int).push(d));
        k += 1;
    }
    assert(x.take(k as int) == x && y.take(k as int) == y);
    if m - i < n - j {
        -1
    } else if m - i > n - j {
        1
    } else {
        0
    }
}

/// Names as people read them: case aside, and runs of digits by their value,
/// so "Task 2" comes before "Task 10".
pub fn natural_cmp(a: &str, b: &str) -> (r: Ordering)
    ensures
        says(r, reading(a@, b@)),
{
    let order: i32 = natural_order(&chars(a), &chars(b));
    if order < 0 {
        Ordering::Less
    } else if order > 0 {
        Ordering::Greater
    } else {
        Ordering::Equal
    }
}

fn natural_order(a: &Vec<char>, b: &Vec<char>) -> (r: i32)
    ensures
        r == reading(a@, b@),
{
    let (mut i, mut j): (usize, usize) = (0, 0);
    assert(a@.skip(0) == a@);
    assert(b@.skip(0) == b@);
    while i < a.len() && j < b.len()
        invariant
            i <= a@.len(),
            j <= b@.len(),
            reading(a@.skip(i as int), b@.skip(j as int)) == reading(a@, b@),
        decreases a@.len() - i,
    {
        let ghost x = a@.skip(i as int);
        let ghost y = b@.skip(j as int);
        proof {
            lemma_run(x);
            lemma_run(y);
        }
        if is_digit(a[i]) && is_digit(b[j]) {
            let m = run_end(a, i);
            let n = run_end(b, j);
            assert(a@.subrange(i as int, m as int) == x.take(run(x) as int));
            assert(b@.subrange(j as int, n as int) == y.take(run(y) as int));
            let order: i32 = compare_runs(a, i, m, b, j, n);
            if order != 0 {
                return order;
            }
            assert(x.skip(run(x) as int) == a@.skip(m as int));
            assert(y.skip(run(y) as int) == b@.skip(n as int));
            i = m;
            j = n;
        } else {
            let order: i32 = lex_from(&fold(a[i]), &fold(b[j]));
            if order != 0 {
                return order;
            }
            assert(x.skip(1) == a@.skip(i + 1));
            assert(y.skip(1) == b@.skip(j + 1));
            i += 1;
            j += 1;
        }
    }
    if j < b.len() {
        -1
    } else if i < a.len() {
        1
    } else {
        0
    }
}

/// `a` does not come after `b`.
pub fn reads_before(a: &str, b: &str) -> (r: bool)
    ensures
        r == (reading(a@, b@) <= 0),
{
    natural_order(&chars(a), &chars(b)) <= 0
}

} // verus!
