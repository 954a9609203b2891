//! A stable sort, and the order of ranks: lists of numbers compared one by
//! one.

use vstd::multiset::Multiset;
use vstd::prelude::*;

verus! {

// -- the sort -------------------------------------------------------------------

/// `x` put into `s`, after everything it does not have to come before.
pub open spec fn placed<T>(s: Seq<T>, x: T, le: spec_fn(T, T) -> bool) -> Seq<T>
    decreases s.len(),
{
    if s.len() == 0 || le(s.last(), x) {
        s.push(x)
    } else {
        placed(s.drop_last(), x, le).push(s.last())
    }
}

/// `s` in order: each thing in turn put after those it may follow.
pub open spec fn arranged<T>(s: Seq<T>, le: spec_fn(T, T) -> bool) -> Seq<T>
    decreases s.len(),
{
    if s.len() == 0 {
        s
    } else {
        placed(arranged(s.drop_last(), le), s.last(), le)
    }
}

/// Any two can be put in order, and the order carries over.
pub open spec fn orders<T>(le: spec_fn(T, T) -> bool, s: Seq<T>) -> bool {
    &&& forall|a: T, b: T| s.contains(a) && s.contains(b) ==> #[trigger] le(a, b) || le(b, a)
    &&& forall|a: T, b: T, c: T|
        s.contains(a) && s.contains(b) && s.contains(c) && #[trigger] le(a, b) && #[trigger] le(
            b,
            c,
        ) ==> le(a, c)
}

/// Nothing comes before what it has to follow.
pub open spec fn in_order<T>(s: Seq<T>, le: spec_fn(T, T) -> bool) -> bool {
    forall|i: int, j: int| 0 <= i < j < s.len() ==> le(#[trigger] s[i], #[trigger] s[j])
}

/// The things of `s` that `x` ties with, in the order they are in.
pub open spec fn ties<T>(s: Seq<T>, x: T, le: spec_fn(T, T) -> bool) -> Seq<T>
    decreases s.len(),
{
    if s.len() == 0 {
        s
    } else {
        let before = ties(s.drop_last(), x, le);
        if le(x, s.last()) && le(s.last(), x) {
            before.push(s.last())
        } else {
            before
        }
    }
}

proof fn lemma_placed<T>(s: Seq<T>, x: T, le: spec_fn(T, T) -> bool)
    ensures
        placed(s, x, le).len() == s.len() + 1,
        placed(s, x, le).to_multiset() == s.to_multiset().insert(x),
        forall|a: T| placed(s, x, le).contains(a) == (s.contains(a) || a == x),
    decreases s.len(),
{
    broadcast use vstd::seq_lib::group_to_multiset_ensures;

    let p = placed(s, x, le);
    if s.len() > 0 && !le(s.last(), x) {
        let t = s.drop_last();
        lemma_placed(t, x, le);
        assert(t.push(s.last()) == s);
        assert(s.to_multiset() == t.to_multiset().insert(s.last()));
        assert(p.to_multiset() == t.to_multiset().insert(x).insert(s.last()));
        assert(p.to_multiset() =~= s.to_multiset().insert(x));
        assert forall|a: T| p.contains(a) == (s.contains(a) || a == x) by {
            lemma_push_contains(placed(t, x, le), s.last(), a);
            lemma_push_contains(t, s.last(), a);
        }
    } else {
        assert forall|a: T| p.contains(a) == (s.contains(a) || a == x) by {
            lemma_push_contains(s, x, a);
        }
    }
}

proof fn lemma_push_contains<T>(s: Seq<T>, x: T, a: T)
    ensures
        s.push(x).contains(a) == (s.contains(a) || a == x),
{
    let p = s.push(x);
    if s.contains(a) {
        let i = choose|i: int| 0 <= i < s.len() && s[i] == a;
        assert(p[i] == a);
    }
    if a == x {
        assert(p[s.len() as int] == a);
    }
    if p.contains(a) {
        let i = choose|i: int| 0 <= i < p.len() && p[i] == a;
        if i < s.len() {
            assert(s[i] == a);
        }
    }
}

/// Sorting keeps everything, and adds nothing.
pub proof fn arranged_keeps_all<T>(s: Seq<T>, le: spec_fn(T, T) -> bool)
    ensures
        arranged(s, le).len() == s.len(),
        arranged(s, le).to_multiset() == s.to_multiset(),
        forall|a: T| arranged(s, le).contains(a) == s.contains(a),
    decreases s.len(),
{
    broadcast use vstd::seq_lib::group_to_multiset_ensures;

    if s.len() > 0 {
        let t = s.drop_last();
        arranged_keeps_all(t, le);
        lemma_placed(arranged(t, le), s.last(), le);
        assert(t.push(s.last()) == s);
        assert forall|a: T| arranged(s, le).contains(a) == s.contains(a) by {
            lemma_push_contains(t, s.last(), a);
        }
    }
}

proof fn lemma_placed_in_order<T>(s: Seq<T>, x: T, le: spec_fn(T, T) -> bool)
    requires
        orders(le, s.push(x)),
        in_order(s, le),
    ensures
        in_order(placed(s, x, le), le),
    decreases s.len(),
{
    let p = placed(s, x, le);
    lemma_push_contains(s, x, x);
    assert forall|i: int| 0 <= i < s.len() implies s.push(x).contains(#[trigger] s[i]) by {
        assert(s.push(x)[i] == s[i]);
    }
    if s.len() == 0 || le(s.last(), x) {
        assert forall|i: int, j: int| 0 <= i < j < p.len() implies le(
            #[trigger] p[i],
            #[trigger] p[j],
        ) by {
            if j == s.len() && i < s.len() - 1 {
                assert(le(s[i], s[s.len() - 1]));
            }
        }
    } else {
        let t = s.drop_last();
        assert forall|a: T| #[trigger] t.push(x).contains(a) implies s.push(x).contains(a) by {
            lemma_push_contains(t, x, a);
            lemma_push_contains(s, x, a);
            lemma_push_contains(t, s.last(), a);
            assert(t.push(s.last()) == s);
        }
        lemma_placed_in_order(t, x, le);
        lemma_placed(t, x, le);
        let q = placed(t, x, le);
        assert(p == q.push(s.last()));
        assert(s.push(x).contains(s[s.len() - 1]));
        assert(le(x, s.last()));
        assert forall|i: int, j: int| 0 <= i < j < p.len() implies le(
            #[trigger] p[i],
            #[trigger] p[j],
        ) by {
            if j == p.len() - 1 {
                assert(p[i] == q[i] && q.contains(q[i]));
                if q[i] != x {
                    assert(t.contains(q[i]));
                    let k = choose|k: int| 0 <= k < t.len() && t[k] == q[i];
                    assert(s[k] == q[i] && le(s[k], s[s.len() - 1]));
                }
            }
        }
    }
}

/// What is sorted is in order, wherever the order is one.
pub proof fn arranged_is_in_order<T>(s: Seq<T>, le: spec_fn(T, T) -> bool)
    requires
        orders(le, s),
    ensures
        in_order(arranged(s, le), le),
    decreases s.len(),
{
    if s.len() > 0 {
        let t = s.drop_last();
        assert forall|a: T| #[trigger] t.contains(a) implies s.contains(a) by {
            assert(t.push(s.last()) == s);
            lemma_push_contains(t, s.last(), a);
        }
        arranged_is_in_order(t, le);
        arranged_keeps_all(t, le);
        let r = arranged(t, le);
        assert forall|a: T| #[trigger] r.push(s.last()).contains(a) implies s.contains(a) by {
            lemma_push_contains(r, s.last(), a);
            assert(t.push(s.last()) == s);
            lemma_push_contains(t, s.last(), a);
        }
        lemma_placed_in_order(r, s.last(), le);
    }
}

proof fn lemma_placed_ties<T>(s: Seq<T>, x: T, y: T, le: spec_fn(T, T) -> bool)
    requires
        orders(le, s.push(x).push(y)),
    ensures
        ties(placed(s, x, le), y, le) == ties(s.push(x), y, le),
    decreases s.len(),
{
    assert(s.push(x).drop_last() == s);
    if s.len() > 0 && !le(s.last(), x) {
        let t = s.drop_last();
        let all = s.push(x).push(y);
        assert forall|a: T| #[trigger] t.push(x).push(y).contains(a) implies all.contains(a) by {
            lemma_push_contains(t.push(x), y, a);
            lemma_push_contains(t, x, a);
            lemma_push_contains(s.push(x), y, a);
            lemma_push_contains(s, x, a);
            assert(t.push(s.last()) == s);
            lemma_push_contains(t, s.last(), a);
        }
        lemma_placed_ties(t, x, y, le);
        let q = placed(t, x, le);
        assert(q.push(s.last()).drop_last() == q);
        assert(t.push(x).drop_last() == t);
        assert(all[s.len() - 1] == s.last() && all[s.len() as int] == x && all[s.len() as int + 1] == y);
        assert(all.contains(s.last()) && all.contains(x) && all.contains(y));
        // `x` and the last of `s` do not both tie with `y`.
        if le(x, y) && le(y, x) && le(s.last(), y) && le(y, s.last()) {
            assert(le(s.last(), x));
        }
        let before = ties(t, y, le);
        assert(ties(q.push(s.last()), y, le) == if le(y, s.last()) && le(s.last(), y) {
            ties(q, y, le).push(s.last())
        } else {
            ties(q, y, le)
        });
        assert(ties(t.push(x), y, le) == if le(y, x) && le(x, y) {
            before.push(x)
        } else {
            before
        });
        assert(ties(s, y, le) == if le(y, s.last()) && le(s.last(), y) {
            before.push(s.last())
        } else {
            before
        });
        assert(ties(s.push(x), y, le) == if le(y, x) && le(x, y) {
            ties(s, y, le).push(x)
        } else {
            ties(s, y, le)
        });
    }
}

/// A sort is stable: what ties stays in the order it was in.
pub proof fn arranged_is_stable<T>(s: Seq<T>, x: T, le: spec_fn(T, T) -> bool)
    requires
        orders(le, s.push(x)),
    ensures
        ties(arranged(s, le), x, le) == ties(s, x, le),
    decreases s.len(),
{
    if s.len() > 0 {
        let t = s.drop_last();
        let all = s.push(x);
        assert(t.push(s.last()) == s);
        assert forall|a: T| #[trigger] t.push(x).contains(a) implies all.contains(a) by {
            lemma_push_contains(t, x, a);
            lemma_push_contains(s, x, a);
            lemma_push_contains(t, s.last(), a);
        }
        arranged_is_stable(t, x, le);
        arranged_keeps_all(t, le);
        let r = arranged(t, le);
        assert forall|a: T| #[trigger] r.push(s.last()).push(x).contains(a) implies all.contains(
            a,
        ) by {
            lemma_push_contains(r.push(s.last()), x, a);
            lemma_push_contains(r, s.last(), a);
            lemma_push_contains(s, x, a);
            lemma_push_contains(t, s.last(), a);
        }
        lemma_placed_ties(r, s.last(), x, le);
        assert(r.push(s.last()).drop_last() == r);
    }
}

/// Puts `x` into `v`, after everything it does not have to come before.
fn place<T, F: Fn(&T, &T) -> bool>(
    v: &mut Vec<T>,
    x: T,
    f: &F,
    Ghost(le): Ghost<spec_fn(T, T) -> bool>,
)
    requires
        forall|a: T, b: T| call_requires(*f, (&a, &b)),
        forall|a: T, b: T, r: bool| call_ensures(*f, (&a, &b), r) ==> r == le(a, b),
    ensures
        final(v)@ == placed(old(v)@, x, le),
{
    let mut at: usize = v.len();
    let ghost s = v@;
    assert(s.take(at as int) == s && s.skip(at as int) == Seq::<T>::empty());
    assert(placed(s, x, le) + Seq::<T>::empty() == placed(s, x, le));
    while at > 0 && !f(&v[at - 1], &x)
        invariant
            at <= v@.len(),
            v@ == s,
            placed(s, x, le) == placed(s.take(at as int), x, le) + s.skip(at as int),
            forall|a: T, b: T| call_requires(*f, (&a, &b)),
            forall|a: T, b: T, r: bool| call_ensures(*f, (&a, &b), r) ==> r == le(a, b),
        decreases at,
    {
        let ghost t = s.take(at as int);
        assert(t.last() == s[at - 1]);
        assert(t.drop_last() == s.take(at - 1));
        assert(placed(t.drop_last(), x, le).push(t.last()) + s.skip(at as int) == placed(
            s.take(at - 1),
            x,
            le,
        ) + s.skip(at - 1));
        at -= 1;
    }
    proof {
        let t = s.take(at as int);
        if at > 0 {
            assert(t.last() == s[at - 1]);
        }
        assert(t.push(x) + s.skip(at as int) == s.insert(at as int, x));
    }
    v.insert(at, x);
}

/// `v` in the order that `f` gives, stably.
pub fn arrange_by<T, F: Fn(&T, &T) -> bool>(
    v: Vec<T>,
    f: &F,
    Ghost(le): Ghost<spec_fn(T, T) -> bool>,
) -> (r: Vec<T>)
    requires
        forall|a: T, b: T| call_requires(*f, (&a, &b)),
        forall|a: T, b: T, r: bool| call_ensures(*f, (&a, &b), r) ==> r == le(a, b),
    ensures
        r@ == arranged(v@, le),
{
    let mut out: Vec<T> = Vec::new();
    let ghost s = v@;
    for x in it: v
        invariant
            it.seq() == s,
            out@ == arranged(s.take(it.index()), le),
            forall|a: T, b: T| call_requires(*f, (&a, &b)),
            forall|a: T, b: T, r: bool| call_ensures(*f, (&a, &b), r) ==> r == le(a, b),
    {
        let ghost t = s.take(it.index() + 1);
        assert(t.drop_last() == s.take(it.index()));
        assert(t.last() == x);
        place(&mut out, x, f, Ghost(le));
    }
    assert(s.take(s.len() as int) == s);
    out
}

// -- ranks --------------------------------------------------------------------

/// Two ranks, number by number: `a` does not come after `b`.
pub open spec fn rank_le(a: Seq<i64>, b: Seq<i64>) -> bool
    decreases a.len(),
{
    if a.len() == 0 {
        true
    } else if b.len() == 0 {
        false
    } else if a[0] != b[0] {
        a[0] < b[0]
    } else {
        rank_le(a.skip(1), b.skip(1))
    }
}

/// Ranks are in an order: any two, and from one to the next.
pub proof fn rank_orders(a: Seq<i64>, b: Seq<i64>, c: Seq<i64>)
    ensures
        rank_le(a, b) || rank_le(b, a),
        rank_le(a, b) && rank_le(b, c) ==> rank_le(a, c),
    decreases a.len(),
{
    if a.len() > 0 && b.len() > 0 {
        if c.len() > 0 {
            rank_orders(a.skip(1), b.skip(1), c.skip(1));
        } else {
            rank_orders(a.skip(1), b.skip(1), c);
        }
    }
}

/// Whether `a` does not come after `b`.
pub fn ranks(a: &Vec<i64>, b: &Vec<i64>) -> (r: bool)
    ensures
        r == rank_le(a@, b@),
{
    let mut i: usize = 0;
    assert(a@.skip(0) == a@ && b@.skip(0) == b@);
    while i < a.len()
        invariant
            i <= a@.len(),
            i <= b@.len(),
            rank_le(a@.skip(i as int), b@.skip(i as int)) == rank_le(a@, b@),
        decreases a@.len() - i,
    {
        if i == b.len() {
            return false;
        }
        if a[i] != b[i] {
            return a[i] < b[i];
        }
        assert(a@.skip(i as int).skip(1) == a@.skip(i + 1));
        assert(b@.skip(i as int).skip(1) == b@.skip(i + 1));
        i += 1;
    }
    true
}

} // verus!
