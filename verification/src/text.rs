//! Text as a sequence of characters: the small operations on it that the
//! rest of the library is built from, each with the sequence it stands for.

use vstd::prelude::*;
use vstd::string::*;

verus! {

// -- what std does ----------------------------------------------------------

/// `String::push` appends one character.
pub assume_specification[ String::push ](s: &mut String, c: char)
    ensures
        final(s)@ == old(s)@.push(c),
;

/// The lowercase mapping of a character, one or more characters long.
pub uninterp spec fn lowercase(c: char) -> Seq<char>;

/// `char::to_lowercase`, its characters collected. The mapping is Unicode's;
/// it is at least one character long, on ASCII it is the ASCII one, and
/// nothing but a digit has a lowercase that starts with one: what has no
/// lowercase of its own is mapped to itself, and no digit is one of another.
#[verifier::external_body]
pub(crate) fn to_lowercase(c: char) -> (r: Vec<char>)
    ensures
        r@ == lowercase(c),
        r@.len() >= 1,
        is_ascii_char(c) ==> r@ == seq![ascii_lower(c)],
        !digit(c) ==> !digit(r@[0]),
{
    c.to_lowercase().collect()
}

/// The uppercase mapping of a character, one or more characters long.
pub uninterp spec fn uppercase(c: char) -> Seq<char>;

/// `char::to_uppercase`, its characters collected. The mapping is Unicode's;
/// on ASCII it is the ASCII one.
#[verifier::external_body]
pub(crate) fn to_uppercase(c: char) -> (r: Vec<char>)
    ensures
        r@ == uppercase(c),
        is_ascii_char(c) ==> r@ == seq![ascii_upper(c)],
{
    c.to_uppercase().collect()
}

/// A whole text in lowercase.
pub uninterp spec fn lowercase_text(s: Seq<char>) -> Seq<char>;

/// `str::to_lowercase`. Not a character at a time: a sigma that ends a word
/// has a lowercase of its own.
#[verifier::external_body]
pub(crate) fn lower_text(s: &str) -> (r: String)
    ensures
        r@ == lowercase_text(s@),
{
    s.to_lowercase()
}

/// A character that Unicode counts as a letter or a number.
pub uninterp spec fn alphanumeric(c: char) -> bool;

/// `char::is_alphanumeric`.
#[verifier::external_body]
pub(crate) fn is_alphanumeric(c: char) -> (r: bool)
    ensures
        r == alphanumeric(c),
{
    c.is_alphanumeric()
}

// -- ASCII ------------------------------------------------------------------

pub open spec fn is_ascii_char(c: char) -> bool {
    (c as u32) < 128
}

/// `0` to `9`.
pub open spec fn digit(c: char) -> bool {
    '0' <= c && c <= '9'
}

pub open spec fn ascii_upper(c: char) -> char {
    if 'a' <= c && c <= 'z' {
        (c as u32 - 32) as char
    } else {
        c
    }
}

pub open spec fn ascii_lower(c: char) -> char {
    if 'A' <= c && c <= 'Z' {
        (c as u32 + 32) as char
    } else {
        c
    }
}

pub fn is_digit(c: char) -> (r: bool)
    ensures
        r == digit(c),
{
    '0' <= c && c <= '9'
}

/// The ASCII uppercase of `c`; other characters stay.
pub fn to_upper(c: char) -> (r: char)
    ensures
        r == ascii_upper(c),
{
    if 'a' <= c && c <= 'z' {
        let n: u8 = (c as u32 - 32) as u8;
        n as char
    } else {
        c
    }
}

pub open spec fn ascii_upper_text(s: Seq<char>) -> Seq<char> {
    s.map_values(|c: char| ascii_upper(c))
}

/// `str::to_ascii_uppercase`.
pub fn upper_ascii(s: &Vec<char>) -> (r: Vec<char>)
    ensures
        r@ == ascii_upper_text(s@),
{
    let mut out: Vec<char> = Vec::new();
    for i in 0..s.len()
        invariant
            out@ == ascii_upper_text(s@.take(i as int)),
    {
        out.push(to_upper(s[i]));
        assert(s@.take(i + 1) == s@.take(i as int).push(s@[i as int]));
    }
    assert(s@.take(s@.len() as int) == s@);
    out
}

// -- white space --------------------------------------------------------------

/// A character with Unicode's property White_Space: the controls from tab to
/// carriage return, the spaces, and the ends of a line, a next line and a
/// paragraph.
pub open spec fn white(c: char) -> bool {
    let n = c as u32;
    ||| 0x09 <= n <= 0x0d
    ||| n == 0x20
    ||| n == 0x85
    ||| n == 0xa0
    ||| n == 0x1680
    ||| 0x2000 <= n <= 0x200a
    ||| n == 0x2028
    ||| n == 0x2029
    ||| n == 0x202f
    ||| n == 0x205f
    ||| n == 0x3000
}

/// Whether `c` is white space.
pub fn is_white(c: char) -> (r: bool)
    ensures
        r == white(c),
{
    let n: u32 = c as u32;
    (0x09 <= n && n <= 0x0d) || n == 0x20 || n == 0x85 || n == 0xa0 || n == 0x1680 || (0x2000 <= n
        && n <= 0x200a) || n == 0x2028 || n == 0x2029 || n == 0x202f || n == 0x205f || n == 0x3000
}

// -- to and from characters -------------------------------------------------

/// The characters of `s`.
pub fn chars(s: &str) -> (r: Vec<char>)
    ensures
        r@ == s@,
{
    let mut out: Vec<char> = Vec::new();
    for c in it: s.chars()
        invariant
            it.seq() == s@,
            out@ == it.seq().take(it.index()),
    {
        out.push(c);
    }
    out
}

/// The text of `v[from..to]`.
pub fn text_of(v: &Vec<char>, from: usize, to: usize) -> (r: String)
    requires
        from <= to <= v@.len(),
    ensures
        r@ == v@.subrange(from as int, to as int),
{
    let mut out = String::new();
    let mut i: usize = from;
    while i < to
        invariant
            from <= i <= to <= v@.len(),
            out@ == v@.subrange(from as int, i as int),
        decreases to - i,
    {
        out.push(v[i]);
        i += 1;
    }
    out
}

pub fn text(v: &Vec<char>) -> (r: String)
    ensures
        r@ == v@,
{
    let r = text_of(v, 0, v.len());
    assert(v@.subrange(0, v@.len() as int) == v@);
    r
}

/// `v[from..to]`.
pub fn part(v: &Vec<char>, from: usize, to: usize) -> (r: Vec<char>)
    requires
        from <= to <= v@.len(),
    ensures
        r@ == v@.subrange(from as int, to as int),
{
    let mut out: Vec<char> = Vec::new();
    let mut i: usize = from;
    while i < to
        invariant
            from <= i <= to <= v@.len(),
            out@ == v@.subrange(from as int, i as int),
        decreases to - i,
    {
        out.push(v[i]);
        i += 1;
    }
    out
}

/// The texts of a list of strings.
pub open spec fn texts(v: Seq<String>) -> Seq<Seq<char>> {
    v.map_values(|s: String| s@)
}

/// A copy of a list of strings.
pub fn copy_texts(v: &Vec<String>) -> (r: Vec<String>)
    ensures
        r@ == v@,
{
    let mut out: Vec<String> = Vec::new();
    for i in 0..v.len()
        invariant
            out@ == v@.take(i as int),
    {
        out.push(v[i].clone());
    }
    assert(v@.take(v@.len() as int) == v@);
    out
}

/// Whether a text is in a list of strings.
pub fn has_text(v: &Vec<String>, s: &str) -> (r: bool)
    ensures
        r == texts(v@).contains(s@),
{
    for i in 0..v.len()
        invariant
            forall|j: int| 0 <= j < i ==> v@[j]@ != s@,
    {
        if same(v[i].as_str(), s) {
            assert(texts(v@)[i as int] == s@);
            return true;
        }
    }
    assert forall|j: int| 0 <= j < texts(v@).len() implies texts(v@)[j] != s@ by {
        assert(texts(v@)[j] == v@[j]@);
    }
    false
}

pub fn same_chars(a: &Vec<char>, b: &Vec<char>) -> (r: bool)
    ensures
        r == (a@ == b@),
{
    if a.len() != b.len() {
        return false;
    }
    for i in 0..a.len()
        invariant
            a@.len() == b@.len(),
            forall|j: int| 0 <= j < i ==> a@[j] == b@[j],
    {
        if a[i] != b[i] {
            return false;
        }
    }
    assert(a@ =~= b@);
    true
}

/// Whether two texts are the same, character by character.
pub fn same(a: &str, b: &str) -> (r: bool)
    ensures
        r == (a@ == b@),
{
    same_chars(&chars(a), &chars(b))
}

pub fn glue(a: &str, b: &str) -> (r: String)
    ensures
        r@ == a@ + b@,
{
    let mut s = String::from_str(a);
    s.append(b);
    s
}

pub fn glue3(a: &str, b: &str, c: &str) -> (r: String)
    ensures
        r@ == a@ + b@ + c@,
{
    let mut s = String::from_str(a);
    s.append(b);
    s.append(c);
    s
}

// -- looking for text ---------------------------------------------------------

/// `p` stands in `s` at `i`.
pub open spec fn occurs_at(s: Seq<char>, p: Seq<char>, i: int) -> bool {
    0 <= i && i + p.len() <= s.len() && s.subrange(i, i + p.len()) == p
}

pub open spec fn contains(s: Seq<char>, p: Seq<char>) -> bool {
    exists|i: int| occurs_at(s, p, i)
}

pub open spec fn starts_with(s: Seq<char>, p: Seq<char>) -> bool {
    occurs_at(s, p, 0)
}

pub open spec fn ends_with(s: Seq<char>, p: Seq<char>) -> bool {
    occurs_at(s, p, s.len() - p.len())
}

/// Whether `p` stands in `s` at `i`.
pub fn is_at(s: &Vec<char>, p: &Vec<char>, i: usize) -> (r: bool)
    ensures
        r == occurs_at(s@, p@, i as int),
{
    if i > s.len() || p.len() > s.len() - i {
        return false;
    }
    for k in 0..p.len()
        invariant
            i + p.len() <= s.len(),
            forall|j: int| 0 <= j < k ==> s@[i + j] == p@[j],
    {
        if s[i + k] != p[k] {
            assert(s@.subrange(i as int, i + p@.len())[k as int] == s@[i + k]);
            return false;
        }
    }
    assert(s@.subrange(i as int, i + p@.len()) =~= p@);
    true
}

/// Where `p` first stands in `s`, from `from` on.
pub fn find_from(s: &Vec<char>, p: &Vec<char>, from: usize) -> (r: Option<usize>)
    ensures
        r matches Some(i) ==> from <= i && occurs_at(s@, p@, i as int) && forall|j: int|
            from <= j < i ==> !occurs_at(s@, p@, j),
        r is None ==> forall|j: int| from <= j ==> !occurs_at(s@, p@, j),
{
    let mut i: usize = from;
    while i < s.len()
        invariant
            from <= i,
            forall|j: int| from <= j < i ==> !occurs_at(s@, p@, j),
        decreases s@.len() - i,
    {
        if is_at(s, p, i) {
            return Some(i);
        }
        i += 1;
    }
    if is_at(s, p, i) {
        return Some(i);
    }
    None
}

/// `s` contains `p`.
pub fn has(s: &str, p: &str) -> (r: bool)
    ensures
        r == contains(s@, p@),
{
    match find_from(&chars(s), &chars(p), 0) {
        Some(i) => {
            assert(occurs_at(s@, p@, i as int));
            true
        },
        None => false,
    }
}

pub fn has_prefix(s: &str, p: &str) -> (r: bool)
    ensures
        r == starts_with(s@, p@),
{
    is_at(&chars(s), &chars(p), 0)
}

/// `str::strip_prefix`: what follows `p`, where `s` starts with it.
pub fn after_prefix(s: &str, p: &str) -> (r: Option<String>)
    ensures
        r is Some == starts_with(s@, p@),
        r matches Some(t) ==> t@ == s@.skip(p@.len() as int),
{
    let v = chars(s);
    let w = chars(p);
    if is_at(&v, &w, 0) {
        let t = text_of(&v, w.len(), v.len());
        assert(t@ == s@.skip(p@.len() as int));
        Some(t)
    } else {
        None
    }
}

/// Where `c` first is in `s`.
pub open spec fn first_of(s: Seq<char>, c: char) -> Option<int>
    decreases s.len(),
{
    if s.len() == 0 {
        None
    } else if s[0] == c {
        Some(0)
    } else {
        match first_of(s.skip(1), c) {
            Some(i) => Some(i + 1),
            None => None,
        }
    }
}

pub(crate) proof fn lemma_first_of(s: Seq<char>, c: char)
    ensures
        match first_of(s, c) {
            Some(i) => 0 <= i < s.len() && s[i] == c && forall|j: int| 0 <= j < i ==> s[j] != c,
            None => forall|j: int| 0 <= j < s.len() ==> s[j] != c,
        },
    decreases s.len(),
{
    if s.len() > 0 && s[0] != c {
        lemma_first_of(s.skip(1), c);
        match first_of(s.skip(1), c) {
            Some(i) => {
                assert(s.skip(1)[i] == s[i + 1]);
                assert forall|j: int| 0 <= j < i + 1 implies s[j] != c by {
                    if j > 0 {
                        assert(s.skip(1)[j - 1] == s[j]);
                    }
                }
            },
            None => {
                assert forall|j: int| 0 <= j < s.len() implies s[j] != c by {
                    if j > 0 {
                        assert(s.skip(1)[j - 1] == s[j]);
                    }
                }
            },
        }
    }
}

/// The first of `c` in `s` is where nothing before it is `c`.
pub(crate) proof fn lemma_first_is(s: Seq<char>, c: char, i: int)
    requires
        0 <= i < s.len(),
        s[i] == c,
        forall|j: int| 0 <= j < i ==> s[j] != c,
    ensures
        first_of(s, c) == Some(i),
{
    lemma_first_of(s, c);
}

/// Where `c` first is in `s`, from `from` on.
pub fn find_char(s: &Vec<char>, c: char, from: usize) -> (r: Option<usize>)
    requires
        from <= s@.len(),
    ensures
        match r {
            Some(i) => from <= i < s.len() && first_of(s@.skip(from as int), c) == Some(i - from),
            None => first_of(s@.skip(from as int), c) is None,
        },
{
    let mut i: usize = from;
    let ghost t = s@.skip(from as int);
    while i < s.len()
        invariant
            from <= i <= s@.len(),
            t == s@.skip(from as int),
            forall|j: int| 0 <= j < i - from ==> t[j] != c,
        decreases s@.len() - i,
    {
        if s[i] == c {
            proof {
                lemma_first_is(t, c, i - from);
            }
            return Some(i);
        }
        i += 1;
    }
    proof {
        lemma_first_of(t, c);
    }
    None
}

/// `s` cut at every `c`.
pub open spec fn pieces(s: Seq<char>, c: char) -> Seq<Seq<char>>
    decreases s.len(),
    via pieces_decreases
{
    match first_of(s, c) {
        None => seq![s],
        Some(i) => seq![s.take(i)] + pieces(s.skip(i + 1), c),
    }
}

#[via_fn]
proof fn pieces_decreases(s: Seq<char>, c: char) {
    lemma_first_of(s, c);
}

/// `str::split` at a character.
pub fn split(s: &Vec<char>, c: char) -> (r: Vec<String>)
    ensures
        texts(r@) == pieces(s@, c),
{
    let mut out: Vec<String> = Vec::new();
    let mut at: usize = 0;
    assert(s@.skip(0) == s@);
    assert(texts(out@) == Seq::<Seq<char>>::empty());
    loop
        invariant
            at <= s@.len(),
            texts(out@) + pieces(s@.skip(at as int), c) == pieces(s@, c),
        decreases s@.len() - at,
    {
        let ghost rest = s@.skip(at as int);
        let ghost before = texts(out@);
        proof {
            lemma_first_of(rest, c);
        }
        match find_char(s, c, at) {
            None => {
                let p = text_of(s, at, s.len());
                out.push(p);
                assert(p@ == rest);
                assert(texts(out@) == before.push(rest));
                assert(before + seq![rest] == before.push(rest));
                return out;
            },
            Some(i) => {
                let p = text_of(s, at, i);
                out.push(p);
                assert(p@ == rest.take(i - at));
                assert(texts(out@) == before.push(p@));
                assert(s@.skip(i + 1) == rest.skip(i - at + 1));
                assert(before.push(p@) + pieces(s@.skip(i + 1), c) == before + (seq![p@] + pieces(
                    s@.skip(i + 1),
                    c,
                )));
                at = i + 1;
            },
        }
    }
}

/// One line, without the carriage return that a line end may start with.
pub open spec fn bare_line(s: Seq<char>) -> Seq<char> {
    if s.len() > 0 && s.last() == '\r' {
        s.drop_last()
    } else {
        s
    }
}

/// The lines of `s`, without what ends them; the last may lack its end.
pub open spec fn lines(s: Seq<char>) -> Seq<Seq<char>>
    decreases s.len(),
    via lines_decreases
{
    if s.len() == 0 {
        Seq::empty()
    } else {
        match first_of(s, '\n') {
            None => seq![s],
            Some(i) => seq![bare_line(s.take(i))] + lines(s.skip(i + 1)),
        }
    }
}

#[via_fn]
proof fn lines_decreases(s: Seq<char>) {
    lemma_first_of(s, '\n');
}

/// `str::lines`.
pub fn split_lines(text: &str) -> (r: Vec<String>)
    ensures
        texts(r@) == lines(text@),
{
    let s = chars(text);
    let mut out: Vec<String> = Vec::new();
    let mut at: usize = 0;
    assert(s@.skip(0) == s@);
    assert(texts(out@) == Seq::<Seq<char>>::empty());
    while at < s.len()
        invariant
            at <= s@.len(),
            texts(out@) + lines(s@.skip(at as int)) == lines(s@),
        decreases s@.len() - at,
    {
        let ghost rest = s@.skip(at as int);
        let ghost before = texts(out@);
        proof {
            lemma_first_of(rest, '\n');
        }
        match find_char(&s, '\n', at) {
            None => {
                let p = text_of(&s, at, s.len());
                out.push(p);
                assert(p@ == rest);
                assert(texts(out@) == before.push(rest));
                at = s.len();
                assert(s@.skip(at as int) == Seq::<char>::empty());
                assert(before.push(rest) + Seq::empty() == before + seq![rest]);
            },
            Some(i) => {
                let to: usize = if i > at && s[i - 1] == '\r' {
                    i - 1
                } else {
                    i
                };
                let p = text_of(&s, at, to);
                out.push(p);
                assert(p@ == bare_line(rest.take(i - at)));
                assert(texts(out@) == before.push(p@));
                assert(s@.skip(i + 1) == rest.skip(i - at + 1));
                assert(before.push(p@) + lines(s@.skip(i + 1)) == before + (seq![p@] + lines(
                    s@.skip(i + 1),
                )));
                at = i + 1;
            },
        }
    }
    assert(s@.skip(at as int) == Seq::<char>::empty());
    out
}

// -- trimming -----------------------------------------------------------------

/// `s` without the white space it starts with.
pub open spec fn trim_start(s: Seq<char>) -> Seq<char>
    decreases s.len(),
{
    if s.len() > 0 && white(s[0]) {
        trim_start(s.skip(1))
    } else {
        s
    }
}

/// `s` without the white space it ends with.
pub open spec fn trim_end(s: Seq<char>) -> Seq<char>
    decreases s.len(),
{
    if s.len() > 0 && white(s.last()) {
        trim_end(s.drop_last())
    } else {
        s
    }
}

pub open spec fn trim(s: Seq<char>) -> Seq<char> {
    trim_end(trim_start(s))
}

/// Nothing but white space.
pub open spec fn blank(s: Seq<char>) -> bool {
    forall|i: int| 0 <= i < s.len() ==> white(s[i])
}

/// What is blank trims to nothing, and nothing else does.
pub(crate) proof fn lemma_trim_blank(s: Seq<char>)
    ensures
        (trim(s).len() == 0) == blank(s),
        (trim_start(s).len() == 0) == blank(s),
{
    lemma_trim_start(s);
    lemma_trim_end(trim_start(s));
    let t = trim_start(s);
    if blank(s) {
        if t.len() > 0 {
            assert(t[0] == s[s.len() - t.len()]);
        }
    } else {
        let i = choose|i: int| 0 <= i < s.len() && !white(s[i]);
        if t.len() == 0 {
            assert(white(s[i]));
        }
        assert(t.len() > 0 && !white(t[0]));
        let u = trim_end(t);
        if u.len() == 0 {
            assert(white(t[0]));
        }
    }
}

/// Trimming the start leaves a tail, with only white space before it.
pub(crate) proof fn lemma_trim_start(s: Seq<char>)
    ensures
        trim_start(s).len() <= s.len(),
        trim_start(s) == s.skip(s.len() - trim_start(s).len()),
        forall|i: int| 0 <= i < s.len() - trim_start(s).len() ==> white(s[i]),
        trim_start(s).len() > 0 ==> !white(trim_start(s)[0]),
    decreases s.len(),
{
    if s.len() > 0 && white(s[0]) {
        lemma_trim_start(s.skip(1));
        let t = trim_start(s);
        assert(t == s.skip(s.len() - t.len()));
        assert forall|i: int| 0 <= i < s.len() - t.len() implies white(s[i]) by {
            if i > 0 {
                assert(s.skip(1)[i - 1] == s[i]);
            }
        }
    } else {
        assert(s.skip(0) == s);
    }
}

/// Trimming the end leaves a head, with only white space after it.
pub(crate) proof fn lemma_trim_end(s: Seq<char>)
    ensures
        trim_end(s).len() <= s.len(),
        trim_end(s) == s.take(trim_end(s).len() as int),
        forall|i: int| trim_end(s).len() <= i < s.len() ==> white(s[i]),
        trim_end(s).len() > 0 ==> !white(trim_end(s).last()),
    decreases s.len(),
{
    if s.len() > 0 && white(s.last()) {
        lemma_trim_end(s.drop_last());
        let t = trim_end(s);
        assert(t == s.take(t.len() as int));
        assert forall|i: int| t.len() <= i < s.len() implies white(s[i]) by {
            if i < s.len() - 1 {
                assert(s.drop_last()[i] == s[i]);
            }
        }
    } else {
        assert(s.take(s.len() as int) == s);
    }
}

/// `str::trim_start`, on characters.
pub fn trim_front(s: &Vec<char>) -> (r: Vec<char>)
    ensures
        r@ == trim_start(s@),
{
    let mut at: usize = 0;
    assert(s@.skip(0) == s@);
    while at < s.len() && is_white(s[at])
        invariant
            at <= s@.len(),
            trim_start(s@.skip(at as int)) == trim_start(s@),
        decreases s@.len() - at,
    {
        assert(s@.skip(at as int).skip(1) == s@.skip(at + 1));
        at += 1;
    }
    let r = part(s, at, s.len());
    assert(r@ == s@.skip(at as int));
    r
}

/// `str::trim`, on characters.
pub fn trimmed(s: &Vec<char>) -> (r: Vec<char>)
    ensures
        r@ == trim(s@),
{
    let t = trim_front(s);
    let mut to: usize = t.len();
    assert(t@.take(to as int) == t@);
    while to > 0 && is_white(t[to - 1])
        invariant
            to <= t@.len(),
            trim_end(t@.take(to as int)) == trim_end(t@),
        decreases to,
    {
        assert(t@.take(to as int).drop_last() == t@.take(to - 1));
        to -= 1;
    }
    let r = part(&t, 0, to);
    assert(r@ == t@.take(to as int));
    r
}

/// `str::trim_end`.
pub fn trim_back(s: &str) -> (r: String)
    ensures
        r@ == trim_end(s@),
{
    let t = chars(s);
    let mut to: usize = t.len();
    assert(t@.take(to as int) == t@);
    while to > 0 && is_white(t[to - 1])
        invariant
            to <= t@.len(),
            trim_end(t@.take(to as int)) == trim_end(t@),
        decreases to,
    {
        assert(t@.take(to as int).drop_last() == t@.take(to - 1));
        to -= 1;
    }
    let r = text_of(&t, 0, to);
    assert(r@ == t@.take(to as int));
    r
}

/// Whether there is nothing but white space.
pub fn is_blank(s: &str) -> (r: bool)
    ensures
        r == blank(s@),
{
    let t = chars(s);
    for i in 0..t.len()
        invariant
            t@ == s@,
            forall|j: int| 0 <= j < i ==> white(#[trigger] t@[j]),
    {
        if !is_white(t[i]) {
            return false;
        }
    }
    true
}

/// The text of a string that may not be there.
pub open spec fn text_opt(s: Option<String>) -> Option<Seq<char>> {
    match s {
        Some(t) => Some(t@),
        None => None,
    }
}

/// A copy of a string that may not be there.
pub fn copy_opt(s: &Option<String>) -> (r: Option<String>)
    ensures
        r == *s,
{
    match s {
        Some(t) => Some(t.clone()),
        None => None,
    }
}

/// `str::trim`.
pub fn trim_text(s: &str) -> (r: String)
    ensures
        r@ == trim(s@),
{
    text(&trimmed(&chars(s)))
}

// -- joining ------------------------------------------------------------------

/// The texts in a row, with `sep` between them.
pub open spec fn join(v: Seq<Seq<char>>, sep: Seq<char>) -> Seq<char>
    decreases v.len(),
{
    if v.len() == 0 {
        Seq::empty()
    } else if v.len() == 1 {
        v[0]
    } else {
        join(v.drop_last(), sep) + sep + v.last()
    }
}

/// `[String]::join`.
pub fn joined(v: &Vec<String>, sep: &str) -> (r: String)
    ensures
        r@ == join(texts(v@), sep@),
{
    let mut out = String::new();
    for i in 0..v.len()
        invariant
            out@ == join(texts(v@).take(i as int), sep@),
    {
        if i > 0 {
            out.append(sep);
        }
        out.append(v[i].as_str());
        let ghost t = texts(v@).take(i + 1);
        assert(t.drop_last() == texts(v@).take(i as int));
        assert(t.last() == v@[i as int]@);
        assert(Seq::<char>::empty() + t.last() == t.last());
    }
    assert(texts(v@).take(v@.len() as int) == texts(v@));
    out
}

} // verus!
