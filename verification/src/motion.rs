//! Rows that are gone fold shut where they were: next to a neighbor that
//! stayed.

use vstd::prelude::*;
use vstd::string::*;

use crate::text::{has_text, texts};

verus! {

/// A row of the last build.
#[derive(Debug)]
pub struct Row {
    pub href: String,
    /// It holds the editor, which the new build has taken.
    pub editing: bool,
}

/// A row that folds away: after a neighbor, or before it.
#[derive(Debug)]
pub struct Fold {
    pub href: String,
    pub after: bool,
    pub neighbor: String,
}

/// A row that folds, by its texts.
pub struct FoldView {
    pub href: Seq<char>,
    pub after: bool,
    pub neighbor: Seq<char>,
}

impl View for Fold {
    type V = FoldView;

    open spec fn view(&self) -> FoldView {
        FoldView { href: self.href@, after: self.after, neighbor: self.neighbor@ }
    }
}

pub open spec fn folds(v: Seq<Fold>) -> Seq<FoldView> {
    v.map_values(|f: Fold| f@)
}

/// A row folds already.
pub open spec fn folding(p: Seq<FoldView>, href: Seq<char>) -> bool {
    exists|i: int| 0 <= i < p.len() && (#[trigger] p[i]).href == href
}

/// The nearest row above one that stays, or folds already.
pub open spec fn above(
    rows: Seq<Row>,
    k: int,
    new: Seq<Seq<char>>,
    p: Seq<FoldView>,
) -> Option<Seq<char>>
    decreases k,
{
    if k <= 0 {
        None
    } else {
        let h = rows[k - 1].href@;
        if new.contains(h) || folding(p, h) {
            Some(h)
        } else {
            above(rows, k - 1, new, p)
        }
    }
}

/// The nearest row from one on that stays.
pub open spec fn below(rows: Seq<Row>, k: int, new: Seq<Seq<char>>) -> Option<Seq<char>>
    decreases rows.len() - k,
{
    if k >= rows.len() {
        None
    } else if new.contains(rows[k].href@) {
        Some(rows[k].href@)
    } else {
        below(rows, k + 1, new)
    }
}

/// How the first rows of a list fold that the new build doesn't have: after
/// the nearest row above them that stayed, or before the one below. A row
/// with no neighbor left just goes.
pub open spec fn plan(rows: Seq<Row>, n: int, new: Seq<Seq<char>>) -> Seq<FoldView>
    decreases n,
{
    if n <= 0 {
        Seq::empty()
    } else {
        let p = plan(rows, n - 1, new);
        let row = rows[n - 1];
        if new.contains(row.href@) || row.editing {
            p
        } else {
            match above(rows, n - 1, new, p) {
                Some(x) => p.push(FoldView { href: row.href@, after: true, neighbor: x }),
                None => match below(rows, n, new) {
                    Some(x) => p.push(FoldView { href: row.href@, after: false, neighbor: x }),
                    None => p,
                },
            }
        }
    }
}

fn is_folding(p: &Vec<Fold>, href: &String) -> (r: bool)
    ensures
        r == folding(folds(p@), href@),
{
    for i in 0..p.len()
        invariant
            forall|j: int| 0 <= j < i ==> (#[trigger] folds(p@)[j]).href != href@,
    {
        if p[i].href == *href {
            assert(folds(p@)[i as int].href == href@);
            return true;
        }
    }
    false
}

fn find_above(rows: &Vec<Row>, k: usize, new: &Vec<String>, p: &Vec<Fold>) -> (r: Option<usize>)
    requires
        k <= rows@.len(),
    ensures
        match r {
            Some(i) => i < k && above(rows@, k as int, texts(new@), folds(p@)) == Some(
                rows@[i as int].href@,
            ),
            None => above(rows@, k as int, texts(new@), folds(p@)) is None,
        },
{
    let mut i: usize = k;
    while i > 0
        invariant
            i <= k <= rows@.len(),
            above(rows@, k as int, texts(new@), folds(p@)) == above(
                rows@,
                i as int,
                texts(new@),
                folds(p@),
            ),
        decreases i,
    {
        i -= 1;
        if has_text(new, rows[i].href.as_str()) || is_folding(p, &rows[i].href) {
            return Some(i);
        }
    }
    None
}

fn find_below(rows: &Vec<Row>, k: usize, new: &Vec<String>) -> (r: Option<usize>)
    requires
        k <= rows@.len(),
    ensures
        match r {
            Some(i) => k <= i < rows@.len() && below(rows@, k as int, texts(new@)) == Some(
                rows@[i as int].href@,
            ),
            None => below(rows@, k as int, texts(new@)) is None,
        },
{
    let mut i: usize = k;
    while i < rows.len()
        invariant
            k <= i <= rows@.len(),
            below(rows@, k as int, texts(new@)) == below(rows@, i as int, texts(new@)),
        decreases rows@.len() - i,
    {
        if has_text(new, rows[i].href.as_str()) {
            return Some(i);
        }
        i += 1;
    }
    None
}

/// How the rows of a list fold that the new build doesn't have.
pub fn leave(rows: &Vec<Row>, new: &Vec<String>) -> (r: Vec<Fold>)
    ensures
        folds(r@) == plan(rows@, rows@.len() as int, texts(new@)),
{
    let mut out: Vec<Fold> = Vec::new();
    assert(folds(out@) =~= Seq::<FoldView>::empty());
    for n in 0..rows.len()
        invariant
            folds(out@) == plan(rows@, n as int, texts(new@)),
    {
        let ghost p = folds(out@);
        let row = &rows[n];
        if !has_text(new, row.href.as_str()) && !row.editing {
            match find_above(rows, n, new, &out) {
                Some(i) => {
                    let f = Fold {
                        href: row.href.clone(),
                        after: true,
                        neighbor: rows[i].href.clone(),
                    };
                    out.push(f);
                    assert(folds(out@) =~= p.push(f@));
                },
                None => {
                    if let Some(i) = find_below(rows, n + 1, new) {
                        let f = Fold {
                            href: row.href.clone(),
                            after: false,
                            neighbor: rows[i].href.clone(),
                        };
                        out.push(f);
                        assert(folds(out@) =~= p.push(f@));
                    }
                },
            }
        }
    }
    out
}

/// A row only folds next to one that stayed, or that folds before it: its
/// place is known when its turn comes.
pub proof fn neighbors_are_there(rows: Seq<Row>, n: int, new: Seq<Seq<char>>, i: int)
    requires
        0 <= n <= rows.len(),
        0 <= i < plan(rows, n, new).len(),
    ensures
        ({
            let p = plan(rows, n, new);
            new.contains(p[i].neighbor) || folding(p.take(i), p[i].neighbor)
        }),
        !new.contains(plan(rows, n, new)[i].href),
    decreases n,
{
    let p = plan(rows, n, new);
    let q = plan(rows, n - 1, new);
    if i < q.len() {
        neighbors_are_there(rows, n - 1, new, i);
        assert(p[i] == q[i]);
        assert(p.take(i) =~= q.take(i));
    } else {
        assert(p.take(i) =~= q);
        lemma_above(rows, n - 1, new, q);
        lemma_below(rows, n, new);
    }
}

proof fn lemma_above(rows: Seq<Row>, k: int, new: Seq<Seq<char>>, p: Seq<FoldView>)
    requires
        k <= rows.len(),
    ensures
        above(rows, k, new, p) matches Some(h) ==> new.contains(h) || folding(p, h),
    decreases k,
{
    if k > 0 {
        lemma_above(rows, k - 1, new, p);
    }
}

proof fn lemma_below(rows: Seq<Row>, k: int, new: Seq<Seq<char>>)
    requires
        0 <= k,
    ensures
        below(rows, k, new) matches Some(h) ==> new.contains(h),
    decreases rows.len() - k,
{
    if k < rows.len() {
        lemma_below(rows, k + 1, new);
    }
}

} // verus!
