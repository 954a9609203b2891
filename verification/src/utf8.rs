//! How long text is in UTF-8.

use vstd::prelude::*;
use vstd::string::*;
use vstd::utf8::{encode_scalar, encode_utf8};

verus! {

/// How many bytes `s` takes.
pub open spec fn bytes(s: Seq<char>) -> nat {
    encode_utf8(s).len()
}

/// How many bytes a character takes.
pub open spec fn width(c: char) -> nat {
    if (c as u32) < 0x80 {
        1
    } else if (c as u32) < 0x800 {
        2
    } else if (c as u32) < 0x10000 {
        3
    } else {
        4
    }
}

proof fn lemma_width(c: char)
    ensures
        encode_scalar(c as u32).len() == width(c),
{
    vstd::utf8::char_is_scalar(c);
}

/// One more character takes its own bytes more.
pub(crate) proof fn lemma_bytes_push(s: Seq<char>, c: char)
    ensures
        bytes(s.push(c)) == bytes(s) + width(c),
    decreases s.len(),
{
    lemma_width(c);
    let t = s.push(c);
    if s.len() == 0 {
        assert(t.drop_first().len() == 0);
        assert(encode_utf8(t.drop_first()).len() == 0);
    } else {
        assert(t.drop_first() == s.drop_first().push(c));
        assert(t[0] == s[0]);
        lemma_bytes_push(s.drop_first(), c);
    }
}

/// A longer text takes more bytes.
pub(crate) proof fn lemma_bytes_grow(s: Seq<char>, i: int, j: int)
    requires
        0 <= i <= j <= s.len(),
    ensures
        bytes(s.take(i)) + (j - i) <= bytes(s.take(j)),
    decreases j - i,
{
    if i < j {
        lemma_bytes_grow(s, i, j - 1);
        assert(s.take(j) == s.take(j - 1).push(s[j - 1]));
        lemma_bytes_push(s.take(j - 1), s[j - 1]);
    }
}

/// How many bytes a character takes.
pub fn len_utf8(c: char) -> (r: usize)
    ensures
        r == width(c),
        1 <= r <= 4,
{
    let n: u32 = c as u32;
    if n < 0x80 {
        1
    } else if n < 0x800 {
        2
    } else if n < 0x10000 {
        3
    } else {
        4
    }
}

/// How many bytes a text takes.
pub fn byte_len(s: &str) -> (r: usize)
    ensures
        r == bytes(s@),
{
    s.as_bytes().len()
}

} // verus!
