//! What is done with text and numbers.

use vstd::prelude::*;

use crate::name_law::{lemma_spaced, spaced};
use crate::number::{decimal, decimal_text, parse_u32, plural};
use crate::text::{
    digit, first_of, has, join, joined, lemma_first_of, lines, occurs_at, pieces, split,
    split_lines, texts, to_upper, trim_text, white,
};

verus! {

// -- parts --------------------------------------------------------------------------------------

/// `c` is not in `s`.
pub open spec fn free_of(s: Seq<char>, c: char) -> bool {
    forall|i: int| 0 <= i < s.len() ==> #[trigger] s[i] != c
}

proof fn lemma_join_first(a: Seq<char>, v: Seq<Seq<char>>, sep: Seq<char>)
    requires
        v.len() > 0,
    ensures
        join(seq![a] + v, sep) == a + sep + join(v, sep),
    decreases v.len(),
{
    let s = seq![a] + v;
    assert(s.last() == v.last());
    if v.len() == 1 {
        assert(s.drop_last() =~= seq![a]);
        assert(join(seq![a], sep) == a);
        assert(join(s, sep) =~= a + sep + join(v, sep));
    } else {
        assert(s.drop_last() =~= seq![a] + v.drop_last());
        lemma_join_first(a, v.drop_last(), sep);
        assert(join(s, sep) =~= a + sep + join(v, sep));
    }
}

proof fn lemma_pieces(s: Seq<char>, c: char)
    ensures
        pieces(s, c).len() > 0,
        forall|i: int| 0 <= i < pieces(s, c).len() ==> free_of(#[trigger] pieces(s, c)[i], c),
        join(pieces(s, c), seq![c]) == s,
    decreases s.len(),
{
    lemma_first_of(s, c);
    match first_of(s, c) {
        None => {},
        Some(i) => {
            let rest = s.skip(i + 1);
            lemma_pieces(rest, c);
            let v = pieces(rest, c);
            let all = pieces(s, c);
            assert(all == seq![s.take(i)] + v);
            lemma_join_first(s.take(i), v, seq![c]);
            assert(s.take(i) + seq![c] + rest =~= s);
            assert forall|k: int| 0 <= k < all.len() implies free_of(#[trigger] all[k], c) by {
                if k > 0 {
                    assert(all[k] == v[k - 1]);
                }
            }
        },
    }
}

/// Text that is split at a character has it in no part, and the parts put
/// together with it are the text.
pub proof fn parts_make_the_text(s: &Vec<char>, c: char, r: Vec<String>, sep: &str, back: String)
    requires
        call_ensures(split, (s, c), r),
        sep@ == seq![c],
        call_ensures(joined, (&r, sep), back),
    ensures
        forall|i: int| 0 <= i < r@.len() ==> free_of((#[trigger] r@[i])@, c),
        back@ == s@,
{
    lemma_pieces(s@, c);
    let v = pieces(s@, c);
    assert forall|i: int| 0 <= i < r@.len() implies free_of((#[trigger] r@[i])@, c) by {
        assert(texts(r@)[i] == r@[i]@);
        assert(free_of(v[i], c));
    }
}

proof fn lemma_lines(s: Seq<char>)
    requires
        free_of(s, '\r'),
    ensures
        forall|i: int| 0 <= i < lines(s).len() ==> free_of(#[trigger] lines(s)[i], '\n'),
        s.len() > 0 ==> lines(s).len() > 0,
        s.len() == 0 ==> lines(s).len() == 0,
        s == join(lines(s), seq!['\n']) || s == join(lines(s), seq!['\n']) + seq!['\n'],
    decreases s.len(),
{
    lemma_first_of(s, '\n');
    if s.len() > 0 {
        match first_of(s, '\n') {
            None => {},
            Some(i) => {
                let rest = s.skip(i + 1);
                assert forall|k: int| 0 <= k < rest.len() implies #[trigger] rest[k] != '\r' by {
                    assert(rest[k] == s[k + i + 1]);
                }
                lemma_lines(rest);
                let v = lines(rest);
                let all = lines(s);
                let a = s.take(i);
                assert(crate::text::bare_line(a) == a) by {
                    if a.len() > 0 {
                        assert(a.last() == s[i - 1]);
                    }
                }
                assert(all == seq![a] + v);
                assert forall|k: int| 0 <= k < all.len() implies free_of(
                    #[trigger] all[k],
                    '\n',
                ) by {
                    if k > 0 {
                        assert(all[k] == v[k - 1]);
                    }
                }
                assert(a + seq!['\n'] + rest =~= s);
                if v.len() > 0 {
                    lemma_join_first(a, v, seq!['\n']);
                    let j = join(v, seq!['\n']);
                    assert(a + seq!['\n'] + (j + seq!['\n']) =~= a + seq!['\n'] + j + seq!['\n']);
                } else {
                    assert(all =~= seq![a]);
                    assert(rest.len() == 0);
                    assert(s =~= a + seq!['\n']);
                }
            },
        }
    }
}

/// The lines of a text have no line's end in them, and put together with one
/// between them are the text, but for a last one.
pub proof fn lines_make_the_text(s: &str, r: Vec<String>, sep: &str, back: String)
    requires
        call_ensures(split_lines, (s,), r),
        sep@ == seq!['\n'],
        call_ensures(joined, (&r, sep), back),
        free_of(s@, '\r'),
    ensures
        forall|i: int| 0 <= i < r@.len() ==> free_of((#[trigger] r@[i])@, '\n'),
        s@ == back@ || s@ == back@ + seq!['\n'],
{
    lemma_lines(s@);
    let v = lines(s@);
    assert forall|i: int| 0 <= i < r@.len() implies free_of((#[trigger] r@[i])@, '\n') by {
        assert(texts(r@)[i] == r@[i]@);
        assert(free_of(v[i], '\n'));
    }
}

/// Texts that are put together stand in their order, with the same between
/// any two.
pub proof fn texts_are_joined(v: &Vec<String>, sep: &str, r: String)
    requires
        call_ensures(joined, (v, sep), r),
    ensures
        v@.len() == 0 ==> r@.len() == 0,
        v@.len() == 1 ==> r@ == v@[0]@,
        v@.len() == 2 ==> r@ == v@[0]@ + sep@ + v@[1]@,
        v@.len() > 1 ==> r@ == v@[0]@ + sep@ + join(texts(v@).skip(1), sep@),
{
    let t = texts(v@);
    assert(t.len() == v@.len());
    if v@.len() > 0 {
        assert(t[0] == v@[0]@);
    }
    if v@.len() > 1 {
        assert(t =~= seq![t[0]] + t.skip(1));
        lemma_join_first(t[0], t.skip(1), sep@);
    }
    if v@.len() == 2 {
        assert(t[1] == v@[1]@);
        assert(t.skip(1) =~= seq![t[1]]);
    }
}

/// A text is within another where something stands before it and something
/// after, or nothing.
pub proof fn texts_are_within(s: &str, p: &str, r: bool)
    requires
        call_ensures(has, (s, p), r),
    ensures
        forall|a: Seq<char>, b: Seq<char>| s@ == #[trigger] (a + p@ + b) ==> r,
        r ==> exists|a: Seq<char>, b: Seq<char>| s@ == #[trigger] (a + p@ + b),
{
    assert forall|a: Seq<char>, b: Seq<char>| s@ == #[trigger] (a + p@ + b) implies r by {
        assert(s@.subrange(a.len() as int, a.len() + p@.len() as int) =~= p@);
        assert(occurs_at(s@, p@, a.len() as int));
    }
    if r {
        let i = choose|i: int| occurs_at(s@, p@, i);
        let (a, b) = (s@.take(i), s@.skip(i + p@.len()));
        assert(s@ =~= a + p@ + b) by {
            assert forall|k: int| 0 <= k < s@.len() implies s@[k] == (a + p@ + b)[k] by {
                if i <= k < i + p@.len() {
                    assert(s@.subrange(i, i + p@.len())[k - i] == s@[k]);
                }
            }
        }
    }
}

/// Space goes from both ends of a text, and none from within.
pub proof fn space_is_trimmed(s: &str, r: String, a: int, b: int)
    requires
        call_ensures(trim_text, (s,), r),
    ensures
        spaced(s@, a, b) ==> r@ == s@.subrange(a, b),
        r@.len() == 0 <==> forall|i: int| 0 <= i < s@.len() ==> white(#[trigger] s@[i]),
{
    if spaced(s@, a, b) {
        lemma_spaced(s@, a, b);
    }
    crate::text::lemma_trim_blank(s@);
}

/// Letters of the alphabet get their capitals, and no other character
/// changes.
pub proof fn letters_get_capitals(c: char, r: char)
    requires
        call_ensures(to_upper, (c,), r),
    ensures
        'a' <= c && c <= 'z' ==> r as u32 + 32 == c as u32,
        !('a' <= c && c <= 'z') ==> r == c,
{
}

// -- numbers ------------------------------------------------------------------------------------

/// A number is written in tens: its last digit stands after those of a tenth
/// of it.
pub proof fn numbers_are_written_in_tens(n: u64, r: String, tenth: String)
    requires
        call_ensures(decimal_text, (n,), r),
        call_ensures(decimal_text, ((n / 10) as u64,), tenth),
    ensures
        r@.len() > 0 && r@.last() as u32 == '0' as u32 + n % 10,
        n < 10 ==> r@.len() == 1,
        n >= 10 ==> r@.drop_last() == tenth@,
{
    if n >= 10 {
        assert(r@.drop_last() =~= tenth@);
    }
}

/// Digits are read as the number they write, where that is not too great;
/// anything else is no number.
pub proof fn digits_are_read(s: &Vec<char>, r: Option<u32>, n: nat)
    requires
        call_ensures(parse_u32, (s,), r),
    ensures
        s@ == decimal(n) && n <= u32::MAX ==> r == Some(n as u32),
        s@ == decimal(n) && n > u32::MAX ==> r is None,
        s@.len() == 0 ==> r is None,
        (exists|i: int| 0 < i < s@.len() && !digit(#[trigger] s@[i])) ==> r is None,
{
    crate::number::decimal_reads_back(n);
    if n <= u32::MAX {
        crate::number::decimal_round_trip(n, u32::MAX as nat);
    }
    crate::number::decimal_round_trip(n, n);
    if exists|i: int| 0 < i < s@.len() && !digit(#[trigger] s@[i]) {
        let i = choose|i: int| 0 < i < s@.len() && !digit(#[trigger] s@[i]);
        let u = crate::number::unsigned(s@);
        if s@[0] == '+' {
            assert(u[i - 1] == s@[i]);
        } else {
            assert(u[i] == s@[i]);
        }
    }
}

/// One of a thing is said without an s, and any other number with it.
pub proof fn plurals_have_an_s(n: i64, unit: &str, r: String)
    requires
        call_ensures(plural, (n, unit), r),
    ensures
        n == 1 ==> r@ == "1 "@ + unit@,
        n != 1 && n >= 0 ==> r@ == decimal(n as nat) + " "@ + unit@ + "s"@,
{
}

} // verus!
