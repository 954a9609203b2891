//! What dragging does to a list: the numbers rise along it as it was left, and
//! in custom order it comes out that way.

use vstd::prelude::*;

use crate::arrange::{order, tasks_are_ordered};
use crate::nav::Sort;
use crate::reorder::{
    STEP, fits, gap, given, landing, lemma_first_not_larger, lemma_place, lemma_renumbered,
    new_numbers, number_at, others, own_addresses, place, with_moved, with_number,
};
use crate::sorting::{arranged, arranged_is_in_order, arranged_keeps_all, in_order};
use crate::task::TaskView;

verus! {

/// The numbers that tasks have rise along them.
pub open spec fn rising(s: Seq<TaskView>) -> bool {
    forall|i: int, j: int|
        0 <= i < j < s.len() && (#[trigger] s[i]).task.sort_order is Some && (
        #[trigger] s[j]).task.sort_order is Some ==> s[i].task.sort_order->0
            < s[j].task.sort_order->0
}

/// Every task has a number.
pub open spec fn all_numbered(s: Seq<TaskView>) -> bool {
    forall|i: int| 0 <= i < s.len() ==> (#[trigger] s[i]).task.sort_order is Some
}

/// Tasks with the numbers they were given.
pub open spec fn with_numbers(s: Seq<TaskView>, v: Seq<(Seq<char>, int)>) -> Seq<TaskView> {
    s.map_values(|t: TaskView| with_number(t, v))
}

/// Dragging a task in a list whose numbers rise leaves every task with one,
/// and they rise along the list as it was left; so that the list, sorted by
/// them, comes out with the task where it was dropped.
pub proof fn numbers_rise_after_reorder(
    tasks: Seq<TaskView>,
    moved: Seq<char>,
    target: Seq<char>,
    after: bool,
)
    requires
        own_addresses(tasks),
        rising(tasks),
        fits(tasks, moved, target, after),
    ensures
        landing(tasks, moved, target, after) matches Some(at) ==> {
            let v = new_numbers(tasks, moved, target, after);
            let w = with_numbers(with_moved(tasks, moved, at), v);
            &&& all_numbered(w)
            &&& rising(w)
            &&& arranged(with_numbers(tasks, v), order(Sort::Custom)) == w
        },
{
    if let Some(at) = landing(tasks, moved, target, after) {
        let v = new_numbers(tasks, moved, target, after);
        let p = place(tasks, moved)->0;
        let s = with_moved(tasks, moved, at);
        let w = with_numbers(s, v);
        let x = with_numbers(tasks, v);
        lemma_place(tasks, moved);
        lemma_place(tasks.filter(others(moved)), target);
        lemma_others(tasks, moved, p);
        let rest = tasks.remove(p);
        assert(s == rest.insert(at, tasks[p]));
        lemma_rises(tasks, moved, at, p, v);
        assert(x.remove(p).insert(at, x[p]) =~= w);
        vstd::seq_lib::to_multiset_remove(x, p);
        vstd::seq_lib::to_multiset_insert(x.remove(p), at, x[p]);
        assert(x.contains(x[p]));
        assert(x.to_multiset().contains(x[p])) by {
            broadcast use vstd::seq_lib::group_to_multiset_ensures;

        }
        assert(w.to_multiset() =~= x.to_multiset());
        arranged_keeps_all(x, order(Sort::Custom));
        tasks_are_ordered(x, Sort::Custom);
        arranged_is_in_order(x, order(Sort::Custom));
        lemma_one_order(arranged(x, order(Sort::Custom)), w);
    }
}

/// Numbers far from the ends of 64 bits, in a list that can be numbered in
/// steps.
pub open spec fn moderate(s: Seq<TaskView>) -> bool {
    &&& (s.len() + 1) * STEP <= i64::MAX
    &&& forall|i: int| #![trigger s[i]]
        0 <= i < s.len() ==> (s[i].task.sort_order matches Some(n) ==> -0x1000_0000_0000_0000 < n
            < 0x1000_0000_0000_0000)
}

/// A list with the task at `p` put back just before the one at `q`, or just
/// after it.
pub open spec fn put_back(s: Seq<TaskView>, p: int, q: int, after: bool) -> Seq<TaskView> {
    let at = if p < q {
        q - 1
    } else {
        q
    };
    s.remove(p).insert(
        if after {
            at + 1
        } else {
            at
        },
        s[p],
    )
}

/// A task dragged onto another comes to stand just before it, or just after
/// it: once the new numbers are written, every task has one, they rise along
/// the list as it was left, and sorted in custom order it comes out so.
pub proof fn dragging_puts_back(tasks: Seq<TaskView>, p: int, q: int, after: bool)
    requires
        own_addresses(tasks),
        rising(tasks),
        moderate(tasks),
        0 <= p < tasks.len(),
        0 <= q < tasks.len(),
        p != q,
    ensures
        ({
            let (moved, target) = (tasks[p].href@, tasks[q].href@);
            let v = new_numbers(tasks, moved, target, after);
            let w = with_numbers(put_back(tasks, p, q, after), v);
            &&& fits(tasks, moved, target, after)
            &&& all_numbered(w)
            &&& rising(w)
            &&& arranged(with_numbers(tasks, v), order(Sort::Custom)) == w
        }),
{
    let (moved, target) = (tasks[p].href@, tasks[q].href@);
    let rest = tasks.remove(p);
    let k = if p < q {
        q - 1
    } else {
        q
    };
    lemma_at(tasks, p);
    lemma_others(tasks, moved, p);
    assert(moved != target) by {
        if p < q {
            assert(tasks[p].href@ != tasks[q].href@);
        } else {
            assert(tasks[q].href@ != tasks[p].href@);
        }
    }
    let from = |i: int|
        if i < p {
            i
        } else {
            i + 1
        };
    assert(own_addresses(rest)) by {
        assert forall|i: int, j: int| 0 <= i < j < rest.len() implies (#[trigger] rest[i]).href@
            != (#[trigger] rest[j]).href@ by {
            assert(tasks[from(i)].href@ != tasks[from(j)].href@);
        }
    }
    assert(rest[k] == tasks[q]);
    lemma_at(rest, k);
    let at = if after {
        k + 1
    } else {
        k
    };
    assert(landing(tasks, moved, target, after) == Some(at));
    let s = with_moved(tasks, moved, at);
    assert(s == put_back(tasks, p, q, after));
    assert forall|i: int| 0 <= i < s.len() implies ((#[trigger] s[i]).task.sort_order matches Some(
        n,
    ) ==> -0x1000_0000_0000_0000 < n < 0x1000_0000_0000_0000) by {
        if i == at {
            assert(s[i] == tasks[p]);
        } else {
            let j = if i < at {
                i
            } else {
                i - 1
            };
            assert(s[i] == rest[j]);
            assert(rest[j] == tasks[from(j)]);
        }
    }
    assert(fits(tasks, moved, target, after)) by {
        if at > 0 {
            assert(number_at(s, at - 1) == s[at - 1].task.sort_order);
        }
        if at + 1 < s.len() {
            assert(number_at(s, at + 1) == s[at + 1].task.sort_order);
        }
    }
    numbers_rise_after_reorder(tasks, moved, target, after);
}

/// A task is found by its address where it is.
proof fn lemma_at(s: Seq<TaskView>, p: int)
    requires
        own_addresses(s),
        0 <= p < s.len(),
    ensures
        place(s, s[p].href@) == Some(p),
{
    crate::window::lemma_place(s, s[p].href@);
    let i = place(s, s[p].href@)->0;
    if i < p {
        assert(s[i].href@ != s[p].href@);
    }
}

/// All but the task with an address are those before it and after it.
proof fn lemma_others(s: Seq<TaskView>, moved: Seq<char>, p: int)
    requires
        own_addresses(s),
        0 <= p < s.len(),
        s[p].href@ == moved,
    ensures
        s.filter(others(moved)) == s.remove(p),
    decreases s.len(),
{
    reveal(Seq::filter);
    let t = s.drop_last();
    assert forall|i: int, j: int| 0 <= i < j < t.len() implies (#[trigger] t[i]).href@ != (
    #[trigger] t[j]).href@ by {
        assert(s[i].href@ != s[j].href@);
    }
    if p == s.len() - 1 {
        assert forall|i: int| 0 <= i < t.len() implies (#[trigger] t[i]).href@ != moved by {
            assert(s[i].href@ != s[p].href@);
        }
        lemma_none_moved(t, moved);
        assert(s.remove(p) =~= t);
    } else {
        lemma_others(t, moved, p);
        assert(s[p].href@ != s[s.len() - 1].href@);
        assert(s.remove(p) =~= t.remove(p).push(s.last()));
    }
}

proof fn lemma_none_moved(s: Seq<TaskView>, moved: Seq<char>)
    requires
        forall|i: int| 0 <= i < s.len() ==> (#[trigger] s[i]).href@ != moved,
    ensures
        s.filter(others(moved)) == s,
    decreases s.len(),
{
    reveal(Seq::filter);
    if s.len() > 0 {
        let t = s.drop_last();
        assert forall|i: int| 0 <= i < t.len() implies (#[trigger] t[i]).href@ != moved by {
            assert(t[i] == s[i]);
        }
        lemma_none_moved(t, moved);
        assert(s[s.len() - 1].href@ != moved);
        assert(t.push(s.last()) =~= s);
    }
}

/// The numbers rise along the list as it was left.
proof fn lemma_rises(
    tasks: Seq<TaskView>,
    moved: Seq<char>,
    at: int,
    p: int,
    v: Seq<(Seq<char>, int)>,
)
    requires
        own_addresses(tasks),
        rising(tasks),
        0 <= p < tasks.len(),
        0 <= at < tasks.len(),
        tasks[p].href@ == moved,
        (tasks.len() + 1) * STEP <= i64::MAX,
        ({
            let s = tasks.remove(p).insert(at, tasks[p]);
            &&& v == (match gap(s, at) {
                Some(n) => seq![(moved, n)],
                None => crate::reorder::renumbered(s, s.len() as int),
            })
            &&& match (number_at(s, at - 1), number_at(s, at + 1)) {
                (Some(p), Some(n)) => i64::MIN <= n - p <= i64::MAX,
                (Some(p), None) => p + STEP <= i64::MAX,
                _ => true,
            }
        }),
    ensures
        all_numbered(with_numbers(tasks.remove(p).insert(at, tasks[p]), v)),
        rising(with_numbers(tasks.remove(p).insert(at, tasks[p]), v)),
{
    let rest = tasks.remove(p);
    let s = rest.insert(at, tasks[p]);
    let w = with_numbers(s, v);
    let from = |i: int|
        if i == at {
            p
        } else {
            let k = if i < at {
                i
            } else {
                i - 1
            };
            if k < p {
                k
            } else {
                k + 1
            }
        };
    assert forall|i: int| 0 <= i < s.len() implies 0 <= #[trigger] from(i) < tasks.len() && s[i]
        == tasks[from(i)] by {}
    assert(own_addresses(s)) by {
        assert forall|i: int, j: int| 0 <= i < j < s.len() implies (#[trigger] s[i]).href@ != (
        #[trigger] s[j]).href@ by {
            let (a, b) = (from(i), from(j));
            assert(a != b);
            if a < b {
                assert(tasks[a].href@ != tasks[b].href@);
            } else {
                assert(tasks[b].href@ != tasks[a].href@);
            }
        }
    }
    match gap(s, at) {
        Some(n) => {
            assert forall|i: int| 0 <= i < s.len() implies (#[trigger] w[i]).task.sort_order == (
            if i == at {
                Some(n as i64)
            } else {
                s[i].task.sort_order
            }) by {
                reveal_with_fuel(given, 2);
                assert(v.last() == (moved, n));
                assert(v.drop_last().len() == 0);
                assert(s[at].href@ == moved);
                if i < at {
                    assert(s[i].href@ != s[at].href@);
                } else if i > at {
                    assert(s[at].href@ != s[i].href@);
                }
            }
            assert forall|i: int, j: int| 0 <= i < j < s.len() && i != at && j != at implies (
            #[trigger] s[i]).task.sort_order->0 < (#[trigger] s[j]).task.sort_order->0 by {
                let (a, b) = (from(i), from(j));
                assert(a < b);
                assert(s[i].task.sort_order is Some && s[j].task.sort_order is Some);
                assert(tasks[a].task.sort_order->0 < tasks[b].task.sort_order->0);
            }
            assert(at > 0 ==> s[at - 1].task.sort_order->0 < n);
            assert(at + 1 < s.len() ==> n < s[at + 1].task.sort_order->0);
            assert(i64::MIN <= n <= i64::MAX);
            assert forall|i: int, j: int| 0 <= i < j < w.len() implies (
            #[trigger] w[i]).task.sort_order->0 < (#[trigger] w[j]).task.sort_order->0 by {
                if i == at && j > at + 1 {
                    assert(s[at + 1].task.sort_order->0 < s[j].task.sort_order->0);
                }
                if j == at && i < at - 1 {
                    assert(s[i].task.sort_order->0 < s[at - 1].task.sort_order->0);
                }
            }
        },
        None => {
            assert forall|i: int| 0 <= i < s.len() implies (#[trigger] w[i]).task.sort_order == Some(
                ((i + 1) * STEP) as i64,
            ) by {
                lemma_renumbered(s, s.len() as int, i);
            }
        },
    }
}

/// A list in custom order is the one whose numbers rise, where it has the same
/// tasks.
proof fn lemma_one_order(x: Seq<TaskView>, y: Seq<TaskView>)
    requires
        x.to_multiset() == y.to_multiset(),
        in_order(x, order(Sort::Custom)),
        all_numbered(y),
        rising(y),
    ensures
        x == y,
    decreases x.len(),
{
    broadcast use vstd::seq_lib::group_to_multiset_ensures;

    assert(x.len() == y.len()) by {
        assert(x.to_multiset().len() == x.len() && y.to_multiset().len() == y.len());
    }
    if x.len() > 0 {
        let n = x.len() - 1;
        assert(x.to_multiset().contains(x[n]));
        assert(y.contains(x[n]));
        assert(y.to_multiset().contains(y[n]));
        assert(x.contains(y[n]));
        let k = choose|k: int| 0 <= k < y.len() && y[k] == x[n];
        let m = choose|m: int| 0 <= m < x.len() && x[m] == y[n];
        if k < n {
            assert(y[k].task.sort_order->0 < y[n].task.sort_order->0);
            if m < n {
                assert(order(Sort::Custom)(x[m], x[n]));
                lemma_first_not_larger(x[m], x[n]);
            }
        }
        let (a, b) = (x.drop_last(), y.drop_last());
        vstd::seq_lib::to_multiset_remove(x, n);
        vstd::seq_lib::to_multiset_remove(y, n);
        assert(x.remove(n) =~= a && y.remove(n) =~= b);
        let le = order(Sort::Custom);
        assert forall|i: int, j: int| 0 <= i < j < a.len() implies le(
            #[trigger] a[i],
            #[trigger] a[j],
        ) by {
            assert(le(x[i], x[j]));
        }
        assert forall|i: int, j: int|
            0 <= i < j < b.len() && (#[trigger] b[i]).task.sort_order is Some && (
            #[trigger] b[j]).task.sort_order is Some implies b[i].task.sort_order->0
            < b[j].task.sort_order->0 by {
            assert(y[i].task.sort_order->0 < y[j].task.sort_order->0);
        }
        assert forall|i: int| 0 <= i < b.len() implies (#[trigger] b[i]).task.sort_order is Some by {
            assert(b[i] == y[i]);
        }
        lemma_one_order(a, b);
        assert(x =~= a.push(x[n]) && y =~= b.push(y[n]));
    } else {
        assert(x =~= y);
    }
}

} // verus!
