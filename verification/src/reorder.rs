//! Dragging a task to another place in a list that is in custom order.

use vstd::prelude::*;

use crate::arrange::{custom_rank, order, task_le};
use crate::nav::Sort;
use crate::sorting::{in_order, rank_le};
use crate::task::{Task, TaskView};
use crate::text::same;

verus! {

/// How far apart tasks are numbered.
pub const STEP: i64 = 1024;

/// Where the first task with an address is.
pub open spec fn place(s: Seq<TaskView>, href: Seq<char>) -> Option<int>
    decreases s.len(),
{
    if s.len() == 0 {
        None
    } else if s[0].href@ == href {
        Some(0)
    } else {
        match place(s.skip(1), href) {
            Some(i) => Some(i + 1),
            None => None,
        }
    }
}

pub open spec fn others(href: Seq<char>) -> spec_fn(TaskView) -> bool {
    |t: TaskView| t.href@ != href
}

/// Where `moved` comes to stand among the others: at `target`, or after it.
pub open spec fn landing(
    tasks: Seq<TaskView>,
    moved: Seq<char>,
    target: Seq<char>,
    after: bool,
) -> Option<int> {
    if moved == target || place(tasks, moved) is None {
        None
    } else {
        match place(tasks.filter(others(moved)), target) {
            Some(i) => Some(if after {
                i + 1
            } else {
                i
            }),
            None => None,
        }
    }
}

/// The tasks with `moved` at `at`.
pub open spec fn with_moved(tasks: Seq<TaskView>, moved: Seq<char>, at: int) -> Seq<TaskView> {
    tasks.filter(others(moved)).insert(at, tasks[place(tasks, moved)->0])
}

/// The number of the task at `i`, where there is one.
pub open spec fn number_at(s: Seq<TaskView>, i: int) -> Option<i64> {
    if 0 <= i < s.len() {
        s[i].task.sort_order
    } else {
        None
    }
}

/// Every task but the one at `at` has a number.
pub open spec fn numbered(s: Seq<TaskView>, at: int) -> bool {
    forall|i: int| 0 <= i < s.len() && i != at ==> (#[trigger] s[i]).task.sort_order is Some
}

/// A number between the new neighbors, or past either end, when there is room.
pub open spec fn gap(s: Seq<TaskView>, at: int) -> Option<int> {
    let prev = number_at(s, at - 1);
    let next = number_at(s, at + 1);
    if !numbered(s, at) {
        None
    } else {
        match (prev, next) {
            (Some(p), Some(n)) => if n - p >= 2 {
                Some(p + (n - p) / 2)
            } else {
                None
            },
            (None, Some(n)) => if at == 0 && n > STEP {
                Some(n - STEP)
            } else {
                None
            },
            (Some(p), None) => if at + 1 == s.len() {
                Some(p + STEP)
            } else {
                None
            },
            (None, None) => None,
        }
    }
}

/// The numbers of the whole list in steps, for the tasks that have another.
pub open spec fn renumbered(s: Seq<TaskView>, upto: int) -> Seq<(Seq<char>, int)>
    decreases upto,
{
    if upto <= 0 {
        Seq::empty()
    } else {
        let before = renumbered(s, upto - 1);
        if s[upto - 1].task.sort_order == Some((upto * STEP) as i64) {
            before
        } else {
            before.push((s[upto - 1].href@, upto * STEP))
        }
    }
}

/// The numbers to give so that `moved` stands before `target`, or after it.
pub open spec fn new_numbers(
    tasks: Seq<TaskView>,
    moved: Seq<char>,
    target: Seq<char>,
    after: bool,
) -> Seq<(Seq<char>, int)> {
    match landing(tasks, moved, target, after) {
        None => Seq::empty(),
        Some(at) => {
            let s = with_moved(tasks, moved, at);
            match gap(s, at) {
                Some(v) => seq![(moved, v)],
                None => renumbered(s, s.len() as int),
            }
        },
    }
}

/// The numbers around the landing do not run out of 64 bits, nor does a list
/// numbered in steps.
pub open spec fn fits(
    tasks: Seq<TaskView>,
    moved: Seq<char>,
    target: Seq<char>,
    after: bool,
) -> bool {
    &&& (tasks.len() + 1) * STEP <= i64::MAX
    &&& landing(tasks, moved, target, after) matches Some(at) ==> {
        let s = with_moved(tasks, moved, at);
        match (number_at(s, at - 1), number_at(s, at + 1)) {
            (Some(p), Some(n)) => i64::MIN <= n - p <= i64::MAX,
            (Some(p), None) => p + STEP <= i64::MAX,
            _ => true,
        }
    }
}

/// The numbers by the texts of the addresses.
pub open spec fn numbers(v: Seq<(String, i64)>) -> Seq<(Seq<char>, int)> {
    v.map_values(|e: (String, i64)| (e.0@, e.1 as int))
}

fn find_place(s: &Vec<&TaskView>, href: &str) -> (r: Option<usize>)
    ensures
        match r {
            Some(i) => i < s.len() && place(crate::task::unref(s@), href@) == Some(i as int),
            None => place(crate::task::unref(s@), href@) is None,
        },
{
    let ghost u = crate::task::unref(s@);
    assert(u.skip(0) == u);
    for i in 0..s.len()
        invariant
            u == crate::task::unref(s@),
            place(u, href@) == (match place(u.skip(i as int), href@) {
                Some(k) => Some(k + i),
                None => None,
            }),
    {
        let ghost t = u.skip(i as int);
        assert(t[0] == *s@[i as int]);
        if same(s[i].href.as_str(), href) {
            return Some(i);
        }
        assert(t.skip(1) == u.skip(i + 1));
    }
    assert(u.skip(s@.len() as int).len() == 0);
    None
}

pub(crate) proof fn lemma_place(s: Seq<TaskView>, href: Seq<char>)
    ensures
        place(s, href) matches Some(i) ==> 0 <= i < s.len() && s[i].href@ == href,
    decreases s.len(),
{
    if s.len() > 0 && s[0].href@ != href {
        lemma_place(s.skip(1), href);
    }
}

fn all_but<'a>(tasks: &Vec<&'a TaskView>, href: &str) -> (r: Vec<&'a TaskView>)
    ensures
        crate::task::unref(r@) == crate::task::unref(tasks@).filter(others(href@)),
        r@.len() <= tasks@.len(),
{
    let mut out: Vec<&'a TaskView> = Vec::new();
    let ghost s = crate::task::unref(tasks@);
    proof {
        reveal(Seq::filter);
        assert(crate::task::unref(out@) == s.take(0).filter(others(href@)));
    }
    for i in 0..tasks.len()
        invariant
            s == crate::task::unref(tasks@),
            crate::task::unref(out@) == s.take(i as int).filter(others(href@)),
            out@.len() <= i,
    {
        let t: &'a TaskView = tasks[i];
        let ghost before = out@;
        proof {
            reveal(Seq::filter);
            assert(s.take(i + 1).drop_last() == s.take(i as int));
            assert(s.take(i + 1).last() == s[i as int]);
        }
        if !same(t.href.as_str(), href) {
            out.push(t);
            assert(crate::task::unref(out@) == crate::task::unref(before).push(s[i as int]));
        }
    }
    assert(s.take(s.len() as int) == s);
    out
}

fn has_numbers(s: &Vec<&TaskView>, at: usize) -> (r: bool)
    ensures
        r == numbered(crate::task::unref(s@), at as int),
{
    let ghost u = crate::task::unref(s@);
    for i in 0..s.len()
        invariant
            u == crate::task::unref(s@),
            forall|j: int| 0 <= j < i && j != at ==> (#[trigger] u[j]).task.sort_order is Some,
    {
        assert(u[i as int] == *s@[i as int]);
        if i != at && s[i].task.sort_order.is_none() {
            return false;
        }
    }
    true
}

/// Half the way from `p` to `n`.
fn between(p: i64, n: i64) -> (r: i64)
    requires
        n - p >= 2,
        n - p <= i64::MAX,
    ensures
        r == p + (n - p) / 2,
{
    let d: i64 = n - p;
    p + d / 2
}

/// A difference that fits in 64 bits.
fn can_subtract(n: i64, p: i64) -> (r: bool)
    ensures
        r == (i64::MIN <= n - p <= i64::MAX),
{
    let d: i128 = n as i128 - p as i128;
    i64::MIN as i128 <= d && d <= i64::MAX as i128
}

/// New X-APPLE-SORT-ORDER values that put `moved` just before `target` (or
/// after it) in `tasks`, a list shown in custom order. One number when there
/// is room between the new neighbors, or at either end; otherwise the whole
/// list is renumbered, touching only what changes.
pub fn reorder(tasks: &[TaskView], moved: &str, target: &str, after: bool) -> (r: Vec<
    (String, i64),
>)
    requires
        fits(tasks@, moved@, target@, after),
    ensures
        numbers(r@) == new_numbers(tasks@, moved@, target@, after),
{
    match reorder_in(&crate::plan::refs(tasks), moved, target, after) {
        Some(v) => v,
        None => Vec::new(),
    }
}

/// The same for tasks as they are shown; none when the numbers would run out.
pub fn reorder_in(tasks: &Vec<&TaskView>, moved: &str, target: &str, after: bool) -> (r: Option<
    Vec<(String, i64)>,
>)
    ensures
        r is Some == fits(crate::task::unref(tasks@), moved@, target@, after),
        r matches Some(v) ==> numbers(v@) == new_numbers(
            crate::task::unref(tasks@),
            moved@,
            target@,
            after,
        ),
{
    let ghost all = crate::task::unref(tasks@);
    let mut out: Vec<(String, i64)> = Vec::new();
    assert(numbers(out@) == Seq::<(Seq<char>, int)>::empty());
    if tasks.len() as u128 > (i64::MAX / STEP - 1) as u128 {
        return None;
    }
    if same(moved, target) {
        return Some(out);
    }
    let mut s = all_but(tasks, moved);
    let (m, to): (&TaskView, usize) = match (find_place(tasks, moved), find_place(&s, target)) {
        (Some(i), Some(to)) => {
            assert(all[i as int] == *tasks@[i as int]);
            (tasks[i], to)
        },
        _ => {
            return Some(out);
        },
    };
    let at: usize = if after {
        to + 1
    } else {
        to
    };
    let ghost before = crate::task::unref(s@);
    s.insert(at, m);
    let ghost u = crate::task::unref(s@);
    assert(u == before.insert(at as int, *m));
    assert(u == with_moved(all, moved@, at as int));
    assert(landing(all, moved@, target@, after) == Some(at as int));
    let prev: Option<i64> = if at == 0 {
        None
    } else {
        s[at - 1].task.sort_order
    };
    let next: Option<i64> = if at + 1 < s.len() {
        s[at + 1].task.sort_order
    } else {
        None
    };
    assert(prev == number_at(u, at - 1));
    assert(next == number_at(u, at + 1));
    let room: bool = match (prev, next) {
        (Some(p), Some(n)) => can_subtract(n, p),
        (Some(p), None) => p <= i64::MAX - STEP,
        _ => true,
    };
    if !room {
        return None;
    }
    if has_numbers(&s, at) {
        let single: Option<i64> = match (prev, next) {
            (Some(p), Some(n)) => if n - p >= 2 {
                Some(between(p, n))
            } else {
                None
            },
            (None, Some(n)) => if at == 0 && n > STEP {
                Some(n - STEP)
            } else {
                None
            },
            (Some(p), None) => if at + 1 == s.len() {
                Some(p + STEP)
            } else {
                None
            },
            (None, None) => None,
        };
        if let Some(v) = single {
            out.push((m.href.clone(), v));
            proof {
                lemma_place(all, moved@);
                assert(m.href@ == moved@);
                assert(numbers(out@) =~= seq![(moved@, v as int)]);
            }
            return Some(out);
        }
    }
    assert(gap(u, at as int) is None);
    let len = s.len();
    for i in 0..len
        invariant
            len == s@.len(),
            (len as int) * STEP <= i64::MAX,
            u == crate::task::unref(s@),
            numbers(out@) == renumbered(u, i as int),
    {
        let v: i64 = (i as i64 + 1) * STEP;
        let t: &TaskView = s[i];
        assert(u[i as int] == *t);
        let ghost b = out@;
        let differs: bool = match t.task.sort_order {
            Some(n) => n != v,
            None => true,
        };
        if differs {
            out.push((t.href.clone(), v));
            assert(numbers(out@) =~= numbers(b).push((t.href@, v as int)));
        }
    }
    Some(out)
}

// -- what the numbers do ------------------------------------------------------------

/// The number given to a task, where one was.
pub open spec fn given(v: Seq<(Seq<char>, int)>, href: Seq<char>) -> Option<int>
    decreases v.len(),
{
    if v.len() == 0 {
        None
    } else if v.last().0 == href {
        Some(v.last().1)
    } else {
        given(v.drop_last(), href)
    }
}

/// A task with the number it was given.
pub open spec fn with_number(t: TaskView, v: Seq<(Seq<char>, int)>) -> TaskView {
    match given(v, t.href@) {
        Some(n) => TaskView { task: Task { sort_order: Some(n as i64), ..t.task }, ..t },
        None => t,
    }
}

/// Every task has an address of its own.
pub open spec fn own_addresses(s: Seq<TaskView>) -> bool {
    forall|i: int, j: int|
        0 <= i < j < s.len() ==> (#[trigger] s[i]).href@ != (#[trigger] s[j]).href@
}

pub(crate) proof fn lemma_renumbered(s: Seq<TaskView>, upto: int, i: int)
    requires
        own_addresses(s),
        0 <= upto <= s.len(),
        0 <= i < s.len(),
        (s.len() as int) * STEP <= i64::MAX,
    ensures
        given(renumbered(s, upto), s[i].href@) == (if i < upto && s[i].task.sort_order != Some(
            ((i + 1) * STEP) as i64,
        ) {
            Some((i + 1) * STEP)
        } else {
            None
        }),
    decreases upto,
{
    if upto > 0 {
        lemma_renumbered(s, upto - 1, i);
        let b = renumbered(s, upto - 1);
        let e = (s[upto - 1].href@, upto * STEP);
        assert(b.push(e).drop_last() == b);
        if i < upto - 1 {
            assert(s[i].href@ != s[upto - 1].href@);
        } else if i > upto - 1 {
            assert(s[upto - 1].href@ != s[i].href@);
        }
    }
}

proof fn lemma_smaller_first(a: TaskView, b: TaskView)
    requires
        a.task.sort_order is Some,
        b.task.sort_order is Some,
        a.task.sort_order->0 < b.task.sort_order->0,
    ensures
        task_le(a, b, Sort::Custom),
{
    let x = custom_rank(a);
    let y = custom_rank(b);
    assert(x[0] == 0 && y[0] == 0 && x[1] == a.task.sort_order->0 && y[1]
        == b.task.sort_order->0);
    reveal_with_fuel(rank_le, 3);
    assert(x.skip(1)[0] == x[1] && y.skip(1)[0] == y[1]);
}

pub(crate) proof fn lemma_first_not_larger(a: TaskView, b: TaskView)
    requires
        a.task.sort_order is Some,
        b.task.sort_order is Some,
        task_le(a, b, Sort::Custom),
    ensures
        a.task.sort_order->0 <= b.task.sort_order->0,
{
    let x = custom_rank(a);
    let y = custom_rank(b);
    assert(x[0] == 0 && y[0] == 0 && x[1] == a.task.sort_order->0 && y[1]
        == b.task.sort_order->0);
    reveal_with_fuel(rank_le, 3);
    assert(x.skip(1)[0] == x[1] && y.skip(1)[0] == y[1]);
}

proof fn lemma_filter_order(s: Seq<TaskView>, p: spec_fn(TaskView) -> bool)
    requires
        in_order(s, order(Sort::Custom)),
    ensures
        in_order(s.filter(p), order(Sort::Custom)),
        forall|i: int| 0 <= i < s.filter(p).len() ==> s.contains(#[trigger] s.filter(p)[i]) && p(
            s.filter(p)[i],
        ),
        s.filter(p).len() <= s.len(),
    decreases s.len(),
{
    reveal(Seq::filter);
    if s.len() > 0 {
        let t = s.drop_last();
        let le = order(Sort::Custom);
        assert forall|i: int, j: int| 0 <= i < j < t.len() implies le(
            #[trigger] t[i],
            #[trigger] t[j],
        ) by {
            assert(le(s[i], s[j]));
        }
        lemma_filter_order(t, p);
        let f = t.filter(p);
        assert forall|i: int| 0 <= i < f.len() implies s.contains(#[trigger] f[i]) by {
            assert(t.contains(f[i]));
            let k = choose|k: int| 0 <= k < t.len() && t[k] == f[i];
            assert(s[k] == f[i]);
        }
        if p(s.last()) {
            let g = f.push(s.last());
            assert(s[s.len() - 1] == s.last());
            assert forall|i: int, j: int| 0 <= i < j < g.len() implies le(
                #[trigger] g[i],
                #[trigger] g[j],
            ) by {
                if j == f.len() {
                    let k = choose|k: int| 0 <= k < t.len() && t[k] == f[i];
                    assert(t.contains(f[i]));
                    assert(le(s[k], s[s.len() - 1]));
                }
            }
        }
    }
}

proof fn lemma_filter_addresses(s: Seq<TaskView>, p: spec_fn(TaskView) -> bool)
    requires
        own_addresses(s),
    ensures
        own_addresses(s.filter(p)),
        forall|i: int| 0 <= i < s.filter(p).len() ==> s.contains(#[trigger] s.filter(p)[i]),
    decreases s.len(),
{
    reveal(Seq::filter);
    if s.len() > 0 {
        let t = s.drop_last();
        assert forall|i: int, j: int| 0 <= i < j < t.len() implies (#[trigger] t[i]).href@ != (
        #[trigger] t[j]).href@ by {
            assert(s[i].href@ != s[j].href@);
        }
        lemma_filter_addresses(t, p);
        let f = t.filter(p);
        assert forall|i: int| 0 <= i < f.len() implies s.contains(#[trigger] f[i]) by {
            assert(t.contains(f[i]));
            let k = choose|k: int| 0 <= k < t.len() && t[k] == f[i];
            assert(s[k] == f[i]);
        }
        if p(s.last()) {
            let g = f.push(s.last());
            assert(s[s.len() - 1] == s.last());
            assert forall|i: int, j: int| 0 <= i < j < g.len() implies (#[trigger] g[i]).href@ != (
            #[trigger] g[j]).href@ by {
                if j == f.len() {
                    assert(t.contains(f[i]));
                    let k = choose|k: int| 0 <= k < t.len() && t[k] == f[i];
                    assert(s[k].href@ != s[s.len() - 1].href@);
                } else {
                    assert(f[i].href@ != f[j].href@);
                }
            }
        }
    }
}

/// Once the numbers are given, the list in custom order is the list with the
/// task where it was dropped.
pub proof fn reorder_puts_in_place(
    tasks: Seq<TaskView>,
    moved: Seq<char>,
    target: Seq<char>,
    after: bool,
)
    requires
        own_addresses(tasks),
        in_order(tasks, order(Sort::Custom)),
        fits(tasks, moved, target, after),
    ensures
        landing(tasks, moved, target, after) matches Some(at) ==> {
            let s = with_moved(tasks, moved, at);
            let v = new_numbers(tasks, moved, target, after);
            &&& 0 <= at < s.len()
            &&& s[at].href@ == moved
            &&& s[if after {
                at - 1
            } else {
                at + 1
            }].href@ == target
            &&& in_order(s.map_values(|t: TaskView| with_number(t, v)), order(Sort::Custom))
        },
{
    if let Some(at) = landing(tasks, moved, target, after) {
        let rest = tasks.filter(others(moved));
        let m = tasks[place(tasks, moved)->0];
        let s = with_moved(tasks, moved, at);
        let v = new_numbers(tasks, moved, target, after);
        lemma_place(tasks, moved);
        lemma_place(rest, target);
        lemma_filter_order(tasks, others(moved));
        lemma_filter_addresses(tasks, others(moved));
        assert(s == rest.insert(at, m));
        assert forall|i: int| 0 <= i < s.len() && i != at implies (#[trigger] s[i]).href@
            != moved by {
            let k = if i < at {
                i
            } else {
                i - 1
            };
            assert(s[i] == rest[k]);
            assert(others(moved)(rest[k]));
        }
        assert(own_addresses(s)) by {
            assert forall|i: int, j: int| 0 <= i < j < s.len() implies (#[trigger] s[i]).href@ != (
            #[trigger] s[j]).href@ by {
                if i != at && j != at {
                    let k = if i < at {
                        i
                    } else {
                        i - 1
                    };
                    let l = if j < at {
                        j
                    } else {
                        j - 1
                    };
                    assert(s[i] == rest[k] && s[j] == rest[l]);
                    assert(rest[k].href@ != rest[l].href@);
                }
            }
        }
        let f = |t: TaskView| with_number(t, v);
        let w = s.map_values(f);
        let le = order(Sort::Custom);
        match gap(s, at) {
            Some(n) => {
                assert(v == seq![(moved, n)]);
                assert(v.drop_last().len() == 0);
                assert forall|i: int, j: int| 0 <= i < j < w.len() implies le(
                    #[trigger] w[i],
                    #[trigger] w[j],
                ) by {
                    lemma_gap(rest, m, at, n, i, j);
                    assert(given(v, s[i].href@) == (if i == at {
                        Some(n)
                    } else {
                        None
                    })) by {
                        reveal_with_fuel(given, 2);
                    }
                    assert(given(v, s[j].href@) == (if j == at {
                        Some(n)
                    } else {
                        None
                    })) by {
                        reveal_with_fuel(given, 2);
                    }
                    if i == at || j == at {
                        lemma_smaller_first(w[i], w[j]);
                    }
                }
            },
            None => {
                assert forall|i: int, j: int| 0 <= i < j < w.len() implies le(
                    #[trigger] w[i],
                    #[trigger] w[j],
                ) by {
                    lemma_renumbered(s, s.len() as int, i);
                    lemma_renumbered(s, s.len() as int, j);
                    assert(w[i].task.sort_order == Some(((i + 1) * STEP) as i64));
                    assert(w[j].task.sort_order == Some(((j + 1) * STEP) as i64));
                    lemma_smaller_first(w[i], w[j]);
                }
            },
        }
    }
}

/// A number in the gap is between all before it and all after it.
proof fn lemma_gap(rest: Seq<TaskView>, m: TaskView, at: int, n: int, i: int, j: int)
    requires
        in_order(rest, order(Sort::Custom)),
        0 <= at <= rest.len(),
        gap(rest.insert(at, m), at) == Some(n),
        0 <= i < j < rest.len() + 1,
        match (
            number_at(rest.insert(at, m), at - 1),
            number_at(rest.insert(at, m), at + 1),
        ) {
            (Some(p), Some(q)) => i64::MIN <= q - p <= i64::MAX,
            (Some(p), None) => p + STEP <= i64::MAX,
            _ => true,
        },
    ensures
        i64::MIN <= n <= i64::MAX,
        i == at ==> n < rest.insert(at, m)[j].task.sort_order->0,
        j == at ==> rest.insert(at, m)[i].task.sort_order->0 < n,
        i != at && j != at ==> task_le(
            rest.insert(at, m)[i],
            rest.insert(at, m)[j],
            Sort::Custom,
        ),
        i != at ==> rest.insert(at, m)[i].task.sort_order is Some,
        j != at ==> rest.insert(at, m)[j].task.sort_order is Some,
{
    let s = rest.insert(at, m);
    let le = order(Sort::Custom);
    assert forall|k: int| 0 <= k < rest.len() implies (#[trigger] rest[k]).task.sort_order is Some by {
        if k < at {
            assert(s[k] == rest[k]);
        } else {
            assert(s[k + 1] == rest[k]);
        }
    }
    if i == at {
        // The next one is no larger than any after it.
        assert(s[at + 1] == rest[at]);
        assert(s[j] == rest[j - 1]);
        if at < j - 1 {
            assert(le(rest[at], rest[j - 1]));
            lemma_first_not_larger(rest[at], rest[j - 1]);
        }
    } else if j == at {
        assert(s[at - 1] == rest[at - 1]);
        assert(s[i] == rest[i]);
        if i < at - 1 {
            assert(le(rest[i], rest[at - 1]));
            lemma_first_not_larger(rest[i], rest[at - 1]);
        }
    } else {
        let k = if i < at {
            i
        } else {
            i - 1
        };
        let l = if j < at {
            j
        } else {
            j - 1
        };
        assert(s[i] == rest[k] && s[j] == rest[l]);
        assert(le(rest[k], rest[l]));
    }
}

} // verus!
