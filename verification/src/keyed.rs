//! Texts kept each once, and states kept by text.

use vstd::prelude::*;
use vstd::string::*;

use crate::text::{has_text, same, texts};

verus! {

/// The texts but for one.
pub open spec fn without(s: Seq<Seq<char>>, x: Seq<char>) -> Seq<Seq<char>> {
    s.filter(|y: Seq<char>| y != x)
}

/// The texts with one among them, at the end when it was not there.
pub open spec fn with_text(s: Seq<Seq<char>>, x: Seq<char>) -> Seq<Seq<char>> {
    if s.contains(x) {
        s
    } else {
        s.push(x)
    }
}

/// Takes a text out wherever it is.
pub fn take_text(v: &mut Vec<String>, x: &str)
    ensures
        texts(final(v)@) == without(texts(old(v)@), x@),
{
    let mut out: Vec<String> = Vec::new();
    let ghost s = texts(v@);
    let ghost p = |y: Seq<char>| y != x@;
    proof {
        reveal(Seq::filter);
        assert(texts(out@) =~= s.take(0).filter(p));
    }
    for i in 0..v.len()
        invariant
            s == texts(v@),
            p == (|y: Seq<char>| y != x@),
            texts(out@) == s.take(i as int).filter(p),
    {
        let ghost before = texts(out@);
        proof {
            reveal(Seq::filter);
            assert(s.take(i + 1).drop_last() == s.take(i as int));
            assert(s.take(i + 1).last() == v@[i as int]@);
        }
        if !same(v[i].as_str(), x) {
            out.push(v[i].clone());
            assert(texts(out@) =~= before.push(v@[i as int]@));
        }
    }
    assert(s.take(s.len() as int) == s);
    *v = out;
}

/// Puts a text among the others, once.
pub fn put_text(v: &mut Vec<String>, x: String)
    ensures
        texts(final(v)@) == with_text(texts(old(v)@), x@),
{
    if !has_text(v, x.as_str()) {
        let ghost before = texts(v@);
        v.push(x);
        assert(texts(v@) =~= before.push(x@));
    }
}

/// Taking a text out leaves the others, as they were.
pub proof fn without_leaves_others(s: Seq<Seq<char>>, x: Seq<char>)
    ensures
        !without(s, x).contains(x),
        forall|y: Seq<char>| y != x ==> (#[trigger] without(s, x).contains(y) <==> s.contains(y)),
        s.no_duplicates() ==> without(s, x).no_duplicates(),
        !s.contains(x) ==> without(s, x) == s,
    decreases s.len(),
{
    reveal(Seq::filter);
    if s.len() > 0 {
        let t = s.drop_last();
        let last = s.last();
        without_leaves_others(t, x);
        assert(s == t.push(last));
        assert forall|y: Seq<char>| #[trigger] s.contains(y) <==> t.contains(y) || y == last by {
            if t.contains(y) {
                let i = choose|i: int| 0 <= i < t.len() && t[i] == y;
                assert(s[i] == y);
            }
            if y == last {
                assert(s[s.len() - 1] == y);
            }
            if s.contains(y) {
                let i = choose|i: int| 0 <= i < s.len() && s[i] == y;
                if i < t.len() {
                    assert(t[i] == y);
                }
            }
        }
        let w = without(t, x);
        if s.no_duplicates() {
            assert(t.no_duplicates()) by {
                assert forall|i: int, j: int| 0 <= i < t.len() && 0 <= j < t.len() && i
                    != j implies t[i] != t[j] by {
                    assert(s[i] != s[j]);
                }
            }
        }
        if last != x {
            assert(without(s, x) == w.push(last));
            assert forall|y: Seq<char>| #[trigger]
                without(s, x).contains(y) <==> w.contains(y) || y == last by {
                if w.contains(y) {
                    let i = choose|i: int| 0 <= i < w.len() && w[i] == y;
                    assert(without(s, x)[i] == y);
                }
                if y == last {
                    assert(without(s, x)[w.len() as int] == y);
                }
                if without(s, x).contains(y) {
                    let i = choose|i: int|
                        0 <= i < without(s, x).len() && without(s, x)[i] == y;
                    if i < w.len() {
                        assert(w[i] == y);
                    }
                }
            }
            if s.no_duplicates() {
                if w.contains(last) {
                    assert(t.contains(last));
                    let i = choose|i: int| 0 <= i < t.len() && t[i] == last;
                    assert(s[i] != s[s.len() - 1]);
                }
                assert(without(s, x).no_duplicates()) by {
                    let u = without(s, x);
                    assert forall|i: int, j: int| 0 <= i < u.len() && 0 <= j < u.len() && i
                        != j implies u[i] != u[j] by {
                        if i < w.len() && j < w.len() {
                            assert(w[i] != w[j]);
                        } else if i < w.len() {
                            assert(w.contains(w[i]));
                        } else if j < w.len() {
                            assert(w.contains(w[j]));
                        }
                    }
                }
            }
        } else {
            assert(without(s, x) == w);
        }
        assert forall|y: Seq<char>| y != x implies (#[trigger] without(s, x).contains(y)
            <==> s.contains(y)) by {
            assert(w.contains(y) <==> t.contains(y));
            assert(s.contains(y) <==> t.contains(y) || y == last);
        }
    }
}

/// A text put among others is there, and they are still there.
pub proof fn with_keeps_others(s: Seq<Seq<char>>, x: Seq<char>)
    ensures
        forall|y: Seq<char>| #[trigger]
            with_text(s, x).contains(y) <==> s.contains(y) || y == x,
        s.no_duplicates() ==> with_text(s, x).no_duplicates(),
{
    if !s.contains(x) {
        let u = s.push(x);
        assert forall|y: Seq<char>| u.contains(y) <==> s.contains(y) || y == x by {
            if s.contains(y) {
                let i = choose|i: int| 0 <= i < s.len() && s[i] == y;
                assert(u[i] == y);
            }
            if y == x {
                assert(u[s.len() as int] == y);
            }
            if u.contains(y) {
                let i = choose|i: int| 0 <= i < u.len() && u[i] == y;
                if i < s.len() {
                    assert(s[i] == y);
                }
            }
        }
        if s.no_duplicates() {
            assert forall|i: int, j: int| 0 <= i < u.len() && 0 <= j < u.len() && i
                != j implies u[i] != u[j] by {
                if i < s.len() && j < s.len() {
                    assert(s[i] != s[j]);
                } else if i < s.len() {
                    assert(s.contains(s[i]));
                } else if j < s.len() {
                    assert(s.contains(s[j]));
                }
            }
        }
    }
}

// -- states by text -----------------------------------------------------------------------

/// Pairs, with the texts of their strings.
pub open spec fn pairs<T>(v: Seq<(String, T)>) -> Seq<(Seq<char>, T)> {
    v.map_values(|p: (String, T)| (p.0@, p.1))
}

/// The texts that states are kept by.
pub open spec fn keys<T>(s: Seq<(Seq<char>, T)>) -> Seq<Seq<char>> {
    s.map_values(|p: (Seq<char>, T)| p.0)
}

/// The state kept by a text.
pub open spec fn state_at<T>(s: Seq<(Seq<char>, T)>, k: Seq<char>) -> Option<T>
    decreases s.len(),
{
    if s.len() == 0 {
        None
    } else if s[0].0 == k {
        Some(s[0].1)
    } else {
        state_at(s.skip(1), k)
    }
}

/// The states but for one.
pub open spec fn without_key<T>(s: Seq<(Seq<char>, T)>, k: Seq<char>) -> Seq<(Seq<char>, T)> {
    s.filter(|p: (Seq<char>, T)| p.0 != k)
}

/// The states with a text's among them, in place of one it had.
pub open spec fn with_key<T>(s: Seq<(Seq<char>, T)>, k: Seq<char>, x: T) -> Seq<(Seq<char>, T)> {
    without_key(s, k).push((k, x))
}

/// The state kept by a text.
pub fn find_state<T: Copy>(v: &Vec<(String, T)>, k: &str) -> (r: Option<T>)
    ensures
        r == state_at(pairs(v@), k@),
{
    let ghost s = pairs(v@);
    assert(s.skip(0) == s);
    for i in 0..v.len()
        invariant
            s == pairs(v@),
            state_at(s.skip(i as int), k@) == state_at(s, k@),
    {
        let ghost t = s.skip(i as int);
        assert(t[0] == s[i as int]);
        if same(v[i].0.as_str(), k) {
            return Some(v[i].1);
        }
        assert(t.skip(1) == s.skip(i + 1));
    }
    assert(s.skip(s.len() as int).len() == 0);
    None
}

/// Takes a text's state out.
pub fn take_state<T: Copy>(v: &mut Vec<(String, T)>, k: &str)
    ensures
        pairs(final(v)@) == without_key(pairs(old(v)@), k@),
{
    let mut out: Vec<(String, T)> = Vec::new();
    let ghost s = pairs(v@);
    let ghost p = |p: (Seq<char>, T)| p.0 != k@;
    proof {
        reveal(Seq::filter);
        assert(pairs(out@) =~= s.take(0).filter(p));
    }
    for i in 0..v.len()
        invariant
            s == pairs(v@),
            p == (|p: (Seq<char>, T)| p.0 != k@),
            pairs(out@) == s.take(i as int).filter(p),
    {
        let ghost before = pairs(out@);
        proof {
            reveal(Seq::filter);
            assert(s.take(i + 1).drop_last() == s.take(i as int));
            assert(s.take(i + 1).last() == s[i as int]);
        }
        if !same(v[i].0.as_str(), k) {
            out.push((v[i].0.clone(), v[i].1));
            assert(pairs(out@) =~= before.push(s[i as int]));
        }
    }
    assert(s.take(s.len() as int) == s);
    *v = out;
}

/// Keeps a state by a text, in place of one it had.
pub fn put_state<T: Copy>(v: &mut Vec<(String, T)>, k: String, x: T)
    ensures
        pairs(final(v)@) == with_key(pairs(old(v)@), k@, x),
{
    take_state(v, k.as_str());
    let ghost before = pairs(v@);
    v.push((k, x));
    assert(pairs(v@) =~= before.push((k@, x)));
}

/// A state is found by its text until it is taken out or replaced; others are
/// not touched by either.
pub proof fn states_are_kept<T>(s: Seq<(Seq<char>, T)>, k: Seq<char>, x: T)
    ensures
        state_at(without_key(s, k), k) is None,
        state_at(with_key(s, k, x), k) == Some(x),
        forall|j: Seq<char>|
            j != k ==> #[trigger] state_at(without_key(s, k), j) == state_at(s, j),
        forall|j: Seq<char>|
            j != k ==> #[trigger] state_at(with_key(s, k, x), j) == state_at(s, j),
{
    assert forall|j: Seq<char>| j != k implies #[trigger] state_at(without_key(s, k), j)
        == state_at(s, j) by {
        lemma_without_key(s, k, j);
    }
    lemma_without_key(s, k, k);
    assert forall|j: Seq<char>| true implies #[trigger] state_at(with_key(s, k, x), j) == (if j
        == k && state_at(without_key(s, k), k) is None {
        Some(x)
    } else {
        state_at(without_key(s, k), j)
    }) by {
        lemma_state_pushed(without_key(s, k), k, x, j);
    }
}

proof fn lemma_state_pushed<T>(s: Seq<(Seq<char>, T)>, k: Seq<char>, x: T, j: Seq<char>)
    ensures
        state_at(s.push((k, x)), j) == (if state_at(s, j) is Some {
            state_at(s, j)
        } else if j == k {
            Some(x)
        } else {
            None
        }),
    decreases s.len(),
{
    let u = s.push((k, x));
    if s.len() == 0 {
        assert(u.skip(1).len() == 0);
    } else {
        assert(u[0] == s[0]);
        assert(u.skip(1) == s.skip(1).push((k, x)));
        lemma_state_pushed(s.skip(1), k, x, j);
    }
}

proof fn lemma_without_key<T>(s: Seq<(Seq<char>, T)>, k: Seq<char>, j: Seq<char>)
    ensures
        state_at(without_key(s, k), j) == (if j == k {
            None
        } else {
            state_at(s, j)
        }),
    decreases s.len(),
{
    reveal(Seq::filter);
    if s.len() > 0 {
        let t = s.drop_last();
        lemma_without_key(t, k, j);
        assert(s == t.push(s.last()));
        lemma_state_pushed(t, s.last().0, s.last().1, j);
        assert(s.last() == (s.last().0, s.last().1));
        if s.last().0 != k {
            lemma_state_pushed(without_key(t, k), s.last().0, s.last().1, j);
        }
    }
}

} // verus!
