//! Quick Find finds what answers: hidden views, archived lists, and tasks by
//! their titles, their notes and the names of their linked notes.

use vstd::prelude::*;

use crate::find::{
    HitView, at_most, finds_view, found_by, list_answers, list_hits, not_in, results_of,
    task_answers, task_hits, under_header, view_hits, views_for,
};
use crate::nav::{NavView, smart_views};
use crate::task::{ListView, TaskView};

verus! {

/// A list whose name answers is found, put away or not.
pub proof fn lists_are_found(
    q: Seq<char>,
    shown: Seq<NavView>,
    lists: Seq<ListView>,
    archived: Seq<Seq<char>>,
    open: Seq<TaskView>,
    i: int,
)
    requires
        0 <= i < lists.len(),
        list_answers(q)(lists[i]),
    ensures
        results_of(q, shown, lists, archived, open).contains(
            HitView::List(lists[i], archived.contains(lists[i].href@)),
        ),
{
    let p = list_answers(q);
    lists.lemma_filter_contains(p, i);
    let s = lists.filter(p);
    let j = choose|j: int| 0 <= j < s.len() && s[j] == lists[i];
    let rows = list_hits(s, archived);
    assert(rows[j] == HitView::List(lists[i], archived.contains(lists[i].href@)));
    let r = results_of(q, shown, lists, archived, open);
    let all = shown + smart_views().filter(not_in(shown));
    let a = under_header("Views"@, view_hits(views_for(all, q, shown)));
    let k = a.len() + 1 + j;
    assert(r[k] == rows[j]);
}

/// A view that answers is found, in the sidebar or not.
pub proof fn views_are_found(
    q: Seq<char>,
    shown: Seq<NavView>,
    lists: Seq<ListView>,
    archived: Seq<Seq<char>>,
    open: Seq<TaskView>,
    i: int,
)
    requires
        0 <= i < smart_views().len(),
        finds_view(smart_views()[i], q, shown),
    ensures
        results_of(q, shown, lists, archived, open).contains(
            HitView::View(smart_views()[i], found_by(smart_views()[i], q)),
        ),
{
    let n = smart_views()[i];
    let hidden = smart_views().filter(not_in(shown));
    let all = shown + hidden;
    assert(all.contains(n)) by {
        if shown.contains(n) {
            let j = choose|j: int| 0 <= j < shown.len() && shown[j] == n;
            assert(all[j] == n);
        } else {
            smart_views().lemma_filter_contains(not_in(shown), i);
            let j = choose|j: int| 0 <= j < hidden.len() && hidden[j] == n;
            assert(all[shown.len() + j] == n);
        }
    }
    let k = choose|k: int| 0 <= k < all.len() && all[k] == n;
    let p = |n: NavView| finds_view(n, q, shown);
    all.lemma_filter_contains(p, k);
    let s = all.filter(p);
    let j = choose|j: int| 0 <= j < s.len() && s[j] == n;
    let rows = view_hits(views_for(all, q, shown));
    assert(rows[j] == HitView::View(n, found_by(n, q)));
    let r = results_of(q, shown, lists, archived, open);
    assert(r[1 + j] == rows[j]);
}

/// An open task that answers is found, where no more answer than are shown.
pub proof fn tasks_are_found(
    q: Seq<char>,
    shown: Seq<NavView>,
    lists: Seq<ListView>,
    archived: Seq<Seq<char>>,
    open: Seq<TaskView>,
    i: int,
)
    requires
        q.len() > 0,
        0 <= i < open.len(),
        task_answers(q)(open[i]),
        open.filter(task_answers(q)).len() <= 40,
    ensures
        results_of(q, shown, lists, archived, open).contains(HitView::Task(open[i], true)),
{
    let p = task_answers(q);
    open.lemma_filter_contains(p, i);
    let s = open.filter(p);
    let j = choose|j: int| 0 <= j < s.len() && s[j] == open[i];
    assert(at_most(s, 40) =~= s);
    let rows = task_hits(s, true);
    assert(rows[j] == HitView::Task(open[i], true));
    let r = results_of(q, shown, lists, archived, open);
    let before = r.len() - rows.len();
    assert(r[before + j] == rows[j]);
}

} // verus!
