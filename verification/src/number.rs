//! Whole numbers in decimal, written and read.

use vstd::prelude::*;
use vstd::string::*;

use crate::text::digit;

verus! {

/// The character of a digit.
pub open spec fn digit_char(d: int) -> char {
    ('0' as int + d) as char
}

/// The value of a digit's character.
pub open spec fn digit_value(c: char) -> nat {
    (c as int - '0' as int) as nat
}

/// A number in decimal, without leading zeros.
pub open spec fn decimal(n: nat) -> Seq<char>
    decreases n,
{
    if n < 10 {
        seq![digit_char(n as int)]
    } else {
        decimal(n / 10).push(digit_char((n % 10) as int))
    }
}

/// A number in decimal, with a minus sign below zero.
pub open spec fn signed(n: int) -> Seq<char> {
    if n < 0 {
        seq!['-'] + decimal((-n) as nat)
    } else {
        decimal(n as nat)
    }
}

/// All digits.
pub open spec fn all_digits(s: Seq<char>) -> bool {
    forall|i: int| 0 <= i < s.len() ==> digit(s[i])
}

/// What a run of digits is worth.
pub open spec fn value(s: Seq<char>) -> nat
    decreases s.len(),
{
    if s.len() == 0 {
        0
    } else {
        value(s.drop_last()) * 10 + digit_value(s.last())
    }
}

/// The digits a number may start with after its plus sign.
pub open spec fn unsigned(s: Seq<char>) -> Seq<char> {
    if s.len() > 0 && s[0] == '+' {
        s.skip(1)
    } else {
        s
    }
}

/// What `s` reads as, up to `max`: digits alone, after a plus sign or not.
pub open spec fn reads_as(s: Seq<char>, max: nat) -> Option<nat> {
    let d = unsigned(s);
    if d.len() > 0 && all_digits(d) && value(d) <= max {
        Some(value(d))
    } else {
        None
    }
}

/// A number written in decimal is all digits, and worth itself.
pub proof fn decimal_reads_back(n: nat)
    ensures
        decimal(n).len() > 0,
        all_digits(decimal(n)),
        value(decimal(n)) == n,
    decreases n,
{
    if n < 10 {
        let s = decimal(n);
        assert(s.drop_last() == Seq::<char>::empty());
        assert(value(s.drop_last()) == 0);
    } else {
        decimal_reads_back(n / 10);
        let s = decimal(n);
        assert(s.drop_last() == decimal(n / 10));
    }
}

/// Reading back a number written in decimal gives that number.
pub proof fn decimal_round_trip(n: nat, max: nat)
    requires
        n <= max,
    ensures
        reads_as(decimal(n), max) == Some(n),
{
    decimal_reads_back(n);
    assert(digit(decimal(n)[0]));
    assert(unsigned(decimal(n)) == decimal(n));
}

fn digit_of(d: u64) -> (c: char)
    requires
        d < 10,
    ensures
        c == digit_char(d as int),
{
    let n: u8 = 48u8 + (d as u8);
    n as char
}

/// `n` in decimal.
pub fn decimal_text(n: u64) -> (r: String)
    ensures
        r@ == decimal(n as nat),
    decreases n,
{
    let mut s = if n < 10 {
        String::new()
    } else {
        decimal_text(n / 10)
    };
    s.push(digit_of(n % 10));
    s
}

/// `n` in decimal, with its sign.
pub fn signed_text(n: i64) -> (r: String)
    ensures
        r@ == signed(n as int),
{
    if n < 0 {
        let size: u64 = (-(n as i128)) as u64;
        let mut s = String::new();
        s.push('-');
        s.append(decimal_text(size).as_str());
        s
    } else {
        decimal_text(n as u64)
    }
}

proof fn lemma_value_grows(s: Seq<char>, i: int)
    requires
        all_digits(s),
        0 <= i <= s.len(),
    ensures
        value(s.take(i)) <= value(s),
    decreases s.len(),
{
    if i < s.len() {
        lemma_value_grows(s.drop_last(), i);
        assert(s.drop_last().take(i) == s.take(i));
    } else {
        assert(s.take(i) == s);
    }
}

/// `str::parse` of an unsigned number no larger than `max`.
pub fn parse_upto(s: &Vec<char>, max: u64) -> (r: Option<u64>)
    ensures
        match r {
            Some(n) => reads_as(s@, max as nat) == Some(n as nat),
            None => reads_as(s@, max as nat) is None,
        },
{
    let from: usize = if s.len() > 0 && s[0] == '+' {
        1
    } else {
        0
    };
    let ghost d = unsigned(s@);
    assert(d == s@.skip(from as int));
    if s.len() == from {
        return None;
    }
    let mut n: u64 = 0;
    let mut i: usize = from;
    assert(d.take(0) == Seq::<char>::empty());
    while i < s.len()
        invariant
            from <= i <= s@.len(),
            d == s@.skip(from as int),
            d == unsigned(s@),
            n <= max,
            n == value(d.take(i - from)),
            all_digits(d.take(i - from)),
        decreases s@.len() - i,
    {
        let c = s[i];
        assert(d[i - from] == c);
        if !crate::text::is_digit(c) {
            return None;
        }
        let v: u64 = c as u64 - 48;
        let ghost t = d.take(i - from + 1);
        assert(t.drop_last() == d.take(i - from));
        if v > max || n > max / 10 || n * 10 > max - v {
            proof {
                if all_digits(d) {
                    lemma_value_grows(d, i - from + 1);
                }
            }
            return None;
        }
        n = n * 10 + v;
        i += 1;
        assert(all_digits(t)) by {
            assert forall|j: int| 0 <= j < t.len() implies digit(#[trigger] t[j]) by {
                if j < t.len() - 1 {
                    assert(t.drop_last()[j] == t[j]);
                }
            }
        }
    }
    assert(d.take(i - from) == d);
    Some(n)
}

/// A number reads as a 32-bit one.
pub fn parse_u32(s: &Vec<char>) -> (r: Option<u32>)
    ensures
        match r {
            Some(n) => reads_as(s@, u32::MAX as nat) == Some(n as nat),
            None => reads_as(s@, u32::MAX as nat) is None,
        },
{
    match parse_upto(s, u32::MAX as u64) {
        Some(n) => Some(n as u32),
        None => None,
    }
}

/// `1 minute`, `2 minutes`.
pub open spec fn plural_text(n: int, unit: Seq<char>) -> Seq<char> {
    if n == 1 {
        "1 "@ + unit
    } else {
        signed(n) + " "@ + unit + "s"@
    }
}

/// A count with its unit: `1 minute`, `2 minutes`.
pub fn plural(n: i64, unit: &str) -> (r: String)
    ensures
        r@ == plural_text(n as int, unit@),
{
    if n == 1 {
        crate::text::glue("1 ", unit)
    } else {
        let mut s = signed_text(n);
        s.append(" ");
        s.append(unit);
        s.append("s");
        s
    }
}

} // verus!
