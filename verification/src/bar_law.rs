//! Escaping for the bar can be undone.

use vstd::prelude::*;
use vstd::string::*;

use crate::bar::{escaped, markup};
use crate::text::starts_with;

verus! {

/// Text with every `p` in it, from the left, replaced by `q`.
pub open spec fn replaced(s: Seq<char>, p: Seq<char>, q: Seq<char>) -> Seq<char>
    decreases s.len(),
{
    if p.len() == 0 || s.len() < p.len() {
        s
    } else if starts_with(s, p) {
        q + replaced(s.skip(p.len() as int), p, q)
    } else {
        seq![s[0]] + replaced(s.skip(1), p, q)
    }
}

/// Text that was escaped, back as it was.
pub open spec fn unescaped(s: Seq<char>) -> Seq<char> {
    replaced(replaced(replaced(s, "&lt;"@, "<"@), "&gt;"@, ">"@), "&amp;"@, "&"@)
}

/// Escaping goes by parts.
pub proof fn escaping_goes_by_parts(a: Seq<char>, b: Seq<char>)
    ensures
        escaped(a + b) == escaped(a) + escaped(b),
    decreases b.len(),
{
    if b.len() == 0 {
        assert(a + b =~= a);
        assert(escaped(a) + escaped(b) =~= escaped(a));
    } else {
        escaping_goes_by_parts(a, b.drop_last());
        assert((a + b).drop_last() =~= a + b.drop_last());
        assert((a + b).last() == b.last());
        assert(escaped(a + b) =~= escaped(a) + escaped(b));
    }
}

/// Escaping can be undone.
pub proof fn escaping_is_undone(s: Seq<char>)
    ensures
        unescaped(escaped(s)) == s,
{
    lemma_escaped(s);
    lemma_undo(s, 0);
    lemma_undo(s, 1);
    lemma_undo(s, 2);
    lemma_plain(s);
}

/// No two texts are escaped alike.
pub proof fn escaping_tells_apart(a: Seq<char>, b: Seq<char>)
    requires
        escaped(a) == escaped(b),
    ensures
        a == b,
{
    escaping_is_undone(a);
    escaping_is_undone(b);
}

// -- one name after another ---------------------------------------------------------------------

/// A character as markup, once the first `k` names are undone.
spec fn stage(c: char, k: int) -> Seq<char> {
    if (c == '<' && k >= 1) || (c == '>' && k >= 2) || (c == '&' && k >= 3) {
        seq![c]
    } else {
        markup(c)
    }
}

spec fn staged(s: Seq<char>, k: int) -> Seq<char>
    decreases s.len(),
{
    if s.len() == 0 {
        Seq::empty()
    } else {
        stage(s[0], k) + staged(s.skip(1), k)
    }
}

/// The name that is undone after the first `k`, and what it stands for.
spec fn name(k: int) -> Seq<char> {
    if k == 0 {
        "&lt;"@
    } else if k == 1 {
        "&gt;"@
    } else {
        "&amp;"@
    }
}

spec fn named(k: int) -> Seq<char> {
    if k == 0 {
        "<"@
    } else if k == 1 {
        ">"@
    } else {
        "&"@
    }
}

proof fn lemma_escaped(s: Seq<char>)
    ensures
        staged(s, 0) == escaped(s),
    decreases s.len(),
{
    if s.len() > 0 {
        lemma_escaped(s.skip(1));
        let h = s.take(1);
        assert(h.drop_last() =~= Seq::<char>::empty());
        assert(escaped(h.drop_last()) =~= Seq::<char>::empty());
        assert(escaped(h) =~= markup(s[0]));
        escaping_goes_by_parts(h, s.skip(1));
        assert(h + s.skip(1) =~= s);
    }
}

proof fn lemma_plain(s: Seq<char>)
    ensures
        staged(s, 3) == s,
    decreases s.len(),
{
    if s.len() > 0 {
        lemma_plain(s.skip(1));
        assert(seq![s[0]] + s.skip(1) =~= s);
    } else {
        assert(s =~= Seq::<char>::empty());
    }
}

/// Nothing in `a`, whatever follows it, starts with `p`.
spec fn passes(a: Seq<char>, p: Seq<char>) -> bool {
    forall|i: int|
        0 <= i < a.len() ==> #[trigger] a[i] != p[0] || (i + 1 < a.len() && a[i + 1] != p[1])
}

proof fn lemma_passed(a: Seq<char>, r: Seq<char>, p: Seq<char>, q: Seq<char>)
    requires
        p.len() >= 2,
        passes(a, p),
    ensures
        replaced(a + r, p, q) == a + replaced(r, p, q),
    decreases a.len(),
{
    let s = a + r;
    if a.len() == 0 {
        assert(s =~= r);
        assert(a + replaced(r, p, q) =~= replaced(r, p, q));
    } else {
        let t = a.skip(1);
        assert(passes(t, p)) by {
            assert forall|i: int| 0 <= i < t.len() implies #[trigger] t[i] != p[0] || (i + 1
                < t.len() && t[i + 1] != p[1]) by {
                assert(t[i] == a[i + 1]);
                assert(a[i + 1] != p[0] || (i + 2 < a.len() && a[i + 2] != p[1]));
            }
        }
        lemma_passed(t, r, p, q);
        assert(s.skip(1) =~= t + r);
        assert(s[0] == a[0]);
        assert(a[0] != p[0] || (1 < a.len() && a[1] != p[1]));
        if s.len() >= p.len() && starts_with(s, p) {
            assert(s.subrange(0, p.len() as int)[0] == s[0]);
            assert(s.subrange(0, p.len() as int)[1] == s[1]);
        }
        assert(seq![a[0]] + (t + replaced(r, p, q)) =~= a + replaced(r, p, q));
        if s.len() < p.len() {
            assert(replaced(r, p, q) == r);
        }
    }
}

/// Undoing one name more.
proof fn lemma_undo(s: Seq<char>, k: int)
    requires
        0 <= k <= 2,
    ensures
        replaced(staged(s, k), name(k), named(k)) == staged(s, k + 1),
    decreases s.len(),
{
    reveal_strlit("&lt;");
    reveal_strlit("&gt;");
    reveal_strlit("&amp;");
    reveal_strlit("<");
    reveal_strlit(">");
    reveal_strlit("&");
    let (p, q) = (name(k), named(k));
    if s.len() > 0 {
        let (c, t) = (s[0], s.skip(1));
        lemma_undo(t, k);
        let a = stage(c, k);
        let r = staged(t, k);
        if a == p && q[0] == c {
            assert((a + r).subrange(0, p.len() as int) =~= p);
            assert((a + r).skip(p.len() as int) =~= r);
            assert(q =~= stage(c, k + 1));
        } else {
            assert(passes(a, p));
            lemma_passed(a, r, p, q);
            assert(a == stage(c, k + 1));
        }
    }
}

} // verus!
