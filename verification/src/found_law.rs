//! What Quick Find looks in: titles, notes and linked notes, names of lists,
//! and the words that views and priorities go by.

use vstd::prelude::*;

use crate::arrange::order;
use crate::change::{Query, Which};
use crate::find::{
    Hit, HitView, Under, all_views, at_most, choose_hit, completed_query, cut_around, find_lists,
    find_priority, find_tasks, hits, line_with, next_row, priority_query, query, results, step,
    task_answers, under, where_it_is, where_it_was,
};
use crate::nav::{Nav, NavView, Sort, navs};
use crate::sorting::arranged;
use crate::task::{ListView, Task, TaskView, unref};
use crate::text::{lines, lowercase_text, occurs_at, texts, trim};
use crate::update::Msg;

verus! {

/// `q` stands somewhere in `s`.
pub open spec fn within(s: Seq<char>, q: Seq<char>) -> bool {
    exists|i: int|
        0 <= i && i + q.len() <= s.len() && #[trigger] s.subrange(i, i + q.len()) == q
}

proof fn lemma_within(s: Seq<char>, q: Seq<char>)
    ensures
        crate::text::contains(s, q) == within(s, q),
{
    if crate::text::contains(s, q) {
        let i = choose|i: int| occurs_at(s, q, i);
        assert(s.subrange(i, i + q.len()) == q);
    }
    if within(s, q) {
        let i = choose|i: int|
            0 <= i && i + q.len() <= s.len() && #[trigger] s.subrange(i, i + q.len()) == q;
        assert(occurs_at(s, q, i));
    }
}

// -- tasks --------------------------------------------------------------------------------------

/// A task with `q` in its title, in its notes, or in the name of a note it
/// links to, whatever the case.
pub open spec fn has_words(t: TaskView, q: Seq<char>) -> bool {
    ||| within(lowercase_text(t.task.summary@), q)
    ||| t.task.description matches Some(d) && within(lowercase_text(d@), q)
    ||| exists|k: int|
        0 <= k < t.task.linked_notes@.len() && within(
            lowercase_text((#[trigger] t.task.linked_notes@[k]).name@),
            q,
        )
}

proof fn lemma_has_words(q: Seq<char>)
    requires
        q.len() > 0,
    ensures
        task_answers(q) == (|t: TaskView| has_words(t, q)),
{
    let (f, g) = (task_answers(q), |t: TaskView| has_words(t, q));
    assert forall|t: TaskView| #[trigger] f(t) == g(t) by {
        lemma_within(lowercase_text(t.task.summary@), q);
        if let Some(d) = t.task.description {
            lemma_within(lowercase_text(d@), q);
        }
        assert forall|k: int| 0 <= k < t.task.linked_notes@.len() implies crate::text::contains(
            lowercase_text((#[trigger] t.task.linked_notes@[k]).name@),
            q,
        ) == within(lowercase_text(t.task.linked_notes@[k].name@), q) by {
            lemma_within(lowercase_text(t.task.linked_notes@[k].name@), q);
        }
    }
    assert(f =~= g);
}

/// Every open task that has the words is found, in its title, its notes or a
/// linked note's name, and no other; the first forty of them.
pub proof fn tasks_are_found_by_their_words(
    open: &Vec<&TaskView>,
    q: &str,
    r: Vec<&TaskView>,
    i: int,
)
    requires
        q@.len() > 0,
        0 <= i < open@.len(),
        call_ensures(find_tasks, (open, q), r),
    ensures
        ({
            let all = unref(open@).filter(|t: TaskView| has_words(t, q@));
            &&& all.len() <= 40 && has_words(*open@[i], q@) ==> unref(r@).contains(*open@[i])
            &&& i < 40 && has_words(*open@[i], q@) ==> unref(r@).contains(*open@[i])
        }),
        r@.len() <= 40,
        forall|k: int| 0 <= k < r@.len() ==> has_words(*#[trigger] r@[k], q@) && unref(
            open@,
        ).contains(*r@[k]),
{
    lemma_has_words(q@);
    let g = |t: TaskView| has_words(t, q@);
    let s = unref(open@);
    let all = s.filter(g);
    let v = unref(r@);
    assert(v == at_most(all, 40));
    assert(v.len() == r@.len());
    assert forall|k: int| 0 <= k < r@.len() implies has_words(*#[trigger] r@[k], q@) && s.contains(
        *r@[k],
    ) by {
        assert(v[k] == *r@[k]);
        assert(v[k] == all[k]);
        s.lemma_filter_pred(g, k);
        s.lemma_filter_contains_rev(g, all[k]);
    }
    assert(s[i] == *open@[i]);
    if has_words(*open@[i], q@) {
        if all.len() <= 40 {
            s.lemma_filter_contains(g, i);
            let k = choose|k: int| 0 <= k < all.len() && all[k] == s[i];
            assert(v[k] == s[i]);
        }
        if i < 40 {
            let k = lemma_early(s, g, i);
            assert(v[k] == s[i]);
        }
    }
}

/// What passes comes no later among what passes.
proof fn lemma_early(s: Seq<TaskView>, p: spec_fn(TaskView) -> bool, i: int) -> (k: int)
    requires
        0 <= i < s.len(),
        p(s[i]),
    ensures
        0 <= k <= i,
        k < s.filter(p).len(),
        s.filter(p)[k] == s[i],
    decreases s.len(),
{
    reveal(Seq::filter);
    let t = s.drop_last();
    if i < t.len() {
        lemma_early(t, p, i)
    } else {
        t.lemma_filter_len(p);
        t.filter(p).len() as int
    }
}

/// All that was found shows: the tasks with the words, under their heading.
pub proof fn found_tasks_are_shown(
    q: &str,
    shown: &[Nav],
    lists: &[ListView],
    archived: &Vec<String>,
    open: &Vec<&TaskView>,
    r: Vec<Hit>,
    i: int,
)
    requires
        q@.len() > 0,
        0 <= i < open@.len(),
        unref(open@).filter(|t: TaskView| has_words(t, q@)).len() <= 40,
        has_words(*open@[i], q@),
        call_ensures(results, (q, shown, lists, archived, open), r),
    ensures
        hits(r@).contains(HitView::Task(*open@[i], true)),
        hits(r@).contains(HitView::Header("Tasks"@)),
{
    lemma_has_words(q@);
    let s = unref(open@);
    assert(s[i] == *open@[i]);
    crate::find_law::tasks_are_found(q@, navs(shown@), lists@, texts(archived@), s, i);
    let all = s.filter(task_answers(q@));
    s.lemma_filter_contains(task_answers(q@), i);
    let rows = crate::find::task_hits(at_most(all, 40), true);
    assert(rows.len() > 0);
    let v = hits(r@);
    let k = v.len() - rows.len() - 1;
    assert(v[k] == HitView::Header("Tasks"@));
}

/// Nothing is typed, and no task is found.
pub proof fn nothing_typed_finds_no_task(
    q: &str,
    shown: &[Nav],
    lists: &[ListView],
    archived: &Vec<String>,
    open: &Vec<&TaskView>,
    r: Vec<Hit>,
    k: int,
)
    requires
        q@.len() == 0,
        0 <= k < r@.len(),
        call_ensures(results, (q, shown, lists, archived, open), r),
    ensures
        !(hits(r@)[k] is Task),
{
    reveal_strlit("p1");
    reveal_strlit("p2");
    reveal_strlit("p3");
    reveal_strlit("p4");
    reveal_strlit("high");
    reveal_strlit("medium");
    reveal_strlit("low");
}

/// `p1` to `p4` and the names of priorities find the tasks of that priority,
/// by when they are due, up to forty.
pub proof fn priorities_are_found(q: &str, r: Option<u8>)
    requires
        call_ensures(priority_query, (q,), r),
    ensures
        q@ == "p1"@ || q@ == "high"@ ==> r == Some(1u8),
        q@ == "p2"@ || q@ == "medium"@ ==> r == Some(2u8),
        q@ == "p3"@ || q@ == "low"@ ==> r == Some(3u8),
        q@ == "p4"@ ==> r == Some(4u8),
        r is Some ==> q@ == "p1"@ || q@ == "high"@ || q@ == "p2"@ || q@ == "medium"@ || q@ == "p3"@
            || q@ == "low"@ || q@ == "p4"@,
{
    reveal_strlit("p1");
    reveal_strlit("p2");
    reveal_strlit("p3");
    reveal_strlit("p4");
    reveal_strlit("high");
    reveal_strlit("medium");
    reveal_strlit("low");
    assert("p1"@[1] == '1' && "p2"@[1] == '2' && "p3"@[1] == '3' && "p4"@[1] == '4');
    assert("p1"@.len() == 2 && "p2"@.len() == 2 && "p3"@.len() == 2 && "p4"@.len() == 2);
    assert("high"@.len() == 4 && "medium"@.len() == 6 && "low"@.len() == 3);
}

/// The tasks of a priority are found by their level, the earliest due first.
pub proof fn tasks_are_found_by_level(
    open: &Vec<&TaskView>,
    level: u8,
    r: Vec<&TaskView>,
    i: int,
    j: int,
)
    requires
        0 <= i < j < r@.len(),
        call_ensures(find_priority, (open, level), r),
    ensures
        r@[i].task.level == level && r@[j].task.level == level,
        crate::sort_law::due_no_later(r@[i].task.due, r@[j].task.due),
        r@.len() <= 40,
{
    let p = crate::find::has_level(level);
    let s = unref(open@).filter(p);
    let v = arranged(s, order(Sort::Due));
    let w = unref(r@);
    assert(w == at_most(v, 40));
    assert(w.len() == r@.len());
    assert(w[i] == *r@[i] && w[j] == *r@[j]);
    assert(w[i] == v[i] && w[j] == v[j]);
    crate::sort_law::due_dates_never_fall(s, i, j);
    crate::sorting::arranged_keeps_all(s, order(Sort::Due));
    assert(v.contains(v[i]) && v.contains(v[j]));
    assert(s.contains(v[i]) && s.contains(v[j]));
    let a = choose|a: int| 0 <= a < s.len() && s[a] == v[i];
    let b = choose|b: int| 0 <= b < s.len() && s[b] == v[j];
    unref(open@).lemma_filter_pred(p, a);
    unref(open@).lemma_filter_pred(p, b);
}

// -- views and lists ----------------------------------------------------------------------------

/// A list is found when its name has what is typed, whatever the case.
pub proof fn lists_are_found_by_name(lists: &[ListView], q: &str, r: Vec<&ListView>, i: int)
    requires
        0 <= i < lists@.len(),
        call_ensures(find_lists, (lists, q), r),
    ensures
        within(lowercase_text(lists@[i].name@), q@) ==> crate::prefs::plain_lists(r@).contains(
            lists@[i],
        ),
        forall|k: int|
            0 <= k < r@.len() ==> q@.len() == 0 || within(
                lowercase_text((#[trigger] r@[k]).name@),
                q@,
            ),
{
    let p = crate::find::list_answers(q@);
    let v = crate::prefs::plain_lists(r@);
    lemma_within(lowercase_text(lists@[i].name@), q@);
    if within(lowercase_text(lists@[i].name@), q@) {
        lists@.lemma_filter_contains(p, i);
    }
    assert forall|k: int| 0 <= k < r@.len() implies q@.len() == 0 || within(
        lowercase_text((#[trigger] r@[k]).name@),
        q@,
    ) by {
        assert(v[k] == *r@[k]);
        lists@.lemma_filter_pred(p, k);
        lemma_within(lowercase_text(r@[k].name@), q@);
    }
}

/// The other words that a view is found by.
pub open spec fn also_called(n: NavView, w: Seq<char>) -> bool {
    match n {
        NavView::Today => w == "overdue"@,
        NavView::Scheduled => w == "upcoming"@ || w == "later"@,
        NavView::Completed => w == "done"@ || w == "logbook"@ || w == "finished"@,
        NavView::Anytime => w == "no date"@ || w == "someday"@ || w == "unscheduled"@,
        NavView::Repeating => w == "recurring"@,
        NavView::All => w == "everything"@,
        _ => false,
    }
}

/// A view is found from two letters of another word for it on: overdue tasks
/// are in Today, those done in Completed, and those without a date in
/// Anytime.
pub proof fn views_are_found_by_other_words(
    n: NavView,
    w: Seq<char>,
    q: Seq<char>,
    shown: Seq<NavView>,
)
    requires
        also_called(n, w),
        2 <= q.len() <= w.len(),
        w.take(q.len() as int) == q,
    ensures
        crate::find::finds_view(n, q, shown),
{
    let k = crate::nav::keywords_of(n);
    assert(w.take(q.len() as int) =~= w.subrange(0, 0 + q.len() as int));
    assert(crate::text::starts_with(w, q));
    assert(k.contains(w)) by {
        if w == k[0] {
            assert(k.contains(k[0]));
        } else if w == k[1] {
            assert(k.contains(k[1]));
        } else {
            assert(k.contains(k[2]));
        }
    }
    let i = choose|i: int| 0 <= i < k.len() && k[i] == w;
    lemma_keyword(k, q, i);
}

proof fn lemma_keyword(k: Seq<Seq<char>>, q: Seq<char>, i: int)
    requires
        0 <= i < k.len(),
        crate::text::starts_with(k[i], q),
    ensures
        crate::find::keyword_at(k, q) is Some,
    decreases k.len(),
{
    if !crate::text::starts_with(k[0], q) {
        assert(k.skip(1)[i - 1] == k[i]);
        lemma_keyword(k.skip(1), q, i - 1);
    }
}

/// A view is found by what its title has, whatever the case; with nothing
/// typed, those of the sidebar are.
pub proof fn views_are_found_by_title(n: NavView, q: Seq<char>, shown: Seq<NavView>)
    ensures
        q.len() == 0 ==> crate::find::finds_view(n, q, shown) == shown.contains(n),
        q.len() > 0 && !(n is List) && within(
            lowercase_text(
                match n {
                    NavView::Inbox => "Inbox"@,
                    NavView::Today => "Today"@,
                    NavView::Scheduled => "Scheduled"@,
                    NavView::Completed => "Completed"@,
                    NavView::Tomorrow => "Tomorrow"@,
                    NavView::Anytime => "Anytime"@,
                    NavView::Repeating => "Repeating"@,
                    _ => "All Tasks"@,
                },
            ),
            q,
        ) ==> crate::find::finds_view(n, q, shown),
{
    lemma_within(lowercase_text(crate::nav::title_of(n, Seq::empty())), q);
}

/// The views looked in are those of the sidebar first, and then every other.
pub proof fn all_views_are_looked_in(shown: &[Nav], r: Vec<Nav>, n: NavView)
    requires
        call_ensures(all_views, (shown,), r),
    ensures
        forall|i: int| 0 <= i < shown@.len() ==> i < r@.len() && (#[trigger] r@[i])@ == shown@[i]@,
        !(n is List) ==> navs(r@).contains(n),
{
    let v = navs(r@);
    let s = navs(shown@);
    let p = crate::find::not_in(s);
    let all = crate::nav::smart_views();
    assert(v == s + all.filter(p));
    assert(v.len() == r@.len());
    assert forall|i: int| 0 <= i < shown@.len() implies i < r@.len() && (#[trigger] r@[i])@
        == shown@[i]@ by {
        assert(v[i] == r@[i]@);
        assert(v[i] == s[i]);
    }
    if !(n is List) {
        assert(all.contains(n)) by {
            let i = match n {
                NavView::Inbox => 0int,
                NavView::Today => 1,
                NavView::Scheduled => 2,
                NavView::Completed => 3,
                NavView::Tomorrow => 4,
                NavView::Anytime => 5,
                NavView::Repeating => 6,
                _ => 7,
            };
            assert(all[i] == n);
        }
        if s.contains(n) {
            let i = choose|i: int| 0 <= i < s.len() && s[i] == n;
            assert(v[i] == n);
        } else {
            let i = choose|i: int| 0 <= i < all.len() && all[i] == n;
            all.lemma_filter_contains(p, i);
            let f = all.filter(p);
            let k = choose|k: int| 0 <= k < f.len() && f[k] == n;
            assert(v[s.len() + k] == n);
        }
    }
}

// -- what shows ---------------------------------------------------------------------------------

/// Under a task that was found by its notes is a line of them that has the
/// words; by a linked note, that note's name; by its title, nothing.
pub proof fn what_was_found_shows(t: &Task, q: &str, r: Under)
    requires
        q@.len() > 0,
        call_ensures(under, (t, q), r),
    ensures
        within(lowercase_text(t.summary@), q@) ==> r is Nothing,
        r is Line ==> (t.description matches Some(d) && exists|i: int|
            0 <= i < lines(d@).len() && within(lowercase_text(#[trigger] lines(d@)[i]), q@)),
        r matches Under::Linked(n) ==> exists|i: int|
            0 <= i < t.linked_notes@.len() && (#[trigger] t.linked_notes@[i]).name@ == n@ && within(
                lowercase_text(n@),
                q@,
            ),
        !within(lowercase_text(t.summary@), q@) && (t.description matches Some(d) && exists|i: int|
            0 <= i < lines(d@).len() && within(lowercase_text(#[trigger] lines(d@)[i]), q@)) ==> r
            is Line,
{
    lemma_within(lowercase_text(t.summary@), q@);
    if let Some(d) = t.description {
        lemma_line_with(lines(d@), q@);
    }
    lemma_named_note(t.linked_notes@, q@);
}

proof fn lemma_line_with(l: Seq<Seq<char>>, q: Seq<char>)
    ensures
        line_with(l, q) is Some == (exists|i: int|
            0 <= i < l.len() && within(lowercase_text(#[trigger] l[i]), q)),
        line_with(l, q) matches Some(x) ==> within(lowercase_text(x), q),
    decreases l.len(),
{
    if l.len() > 0 {
        let t = l.skip(1);
        lemma_within(lowercase_text(l[0]), q);
        lemma_line_with(t, q);
        if within(lowercase_text(l[0]), q) {
            assert(within(lowercase_text(l[0]), q));
        } else {
            if line_with(l, q) is Some {
                let i = choose|i: int|
                    0 <= i < t.len() && within(lowercase_text(#[trigger] t[i]), q);
                assert(l[i + 1] == t[i]);
            }
            if exists|i: int| 0 <= i < l.len() && within(lowercase_text(#[trigger] l[i]), q) {
                let i = choose|i: int|
                    0 <= i < l.len() && within(lowercase_text(#[trigger] l[i]), q);
                assert(t[i - 1] == l[i]);
            }
        }
    }
}

proof fn lemma_named_note(notes: Seq<crate::task::Note>, q: Seq<char>)
    ensures
        crate::find::named_note(notes, q) matches Some(n) ==> exists|i: int|
            0 <= i < notes.len() && (#[trigger] notes[i]).name@ == n && within(
                lowercase_text(n),
                q,
            ),
    decreases notes.len(),
{
    if notes.len() > 0 {
        let t = notes.skip(1);
        lemma_within(lowercase_text(notes[0].name@), q);
        lemma_named_note(t, q);
        if !within(lowercase_text(notes[0].name@), q) {
            if let Some(n) = crate::find::named_note(t, q) {
                let i = choose|i: int|
                    0 <= i < t.len() && (#[trigger] t[i]).name@ == n && within(
                        lowercase_text(n),
                        q,
                    );
                assert(notes[i + 1] == t[i]);
            }
        } else {
            assert(notes[0].name@ == notes[0].name@);
        }
    }
}

/// A line of seventy characters or fewer shows whole; of a longer one, from
/// twenty-five before the words on, with marks where it was cut.
pub proof fn long_lines_are_cut(s: Seq<char>, hit: int)
    requires
        0 <= hit <= s.len(),
    ensures
        s.len() <= 70 ==> cut_around(s, hit) == s,
        s.len() > 70 && hit <= 25 ==> cut_around(s, hit) == s.take(70).push('…'),
        s.len() > 70 && hit > 25 && hit + 45 < s.len() ==> cut_around(s, hit) == seq!['…']
            + s.subrange(hit - 25, hit + 45) + seq!['…'],
        s.len() > 70 && hit > 25 && hit + 45 >= s.len() ==> cut_around(s, hit) == seq!['…']
            + s.skip(hit - 25),
{
    let c = cut_around(s, hit);
    if s.len() > 70 {
        if hit <= 25 {
            assert(c =~= s.take(70).push('…'));
        } else if hit + 45 < s.len() {
            assert(c =~= seq!['…'] + s.subrange(hit - 25, hit + 45) + seq!['…']);
        } else {
            assert(c =~= seq!['…'] + s.skip(hit - 25));
        }
    }
}

/// Under a task is its list, with its date when it has one; under a completed
/// one, the day it was done.
pub proof fn tasks_say_where_they_are(t: &TaskView, label: &str, a: String, b: String)
    requires
        call_ensures(where_it_is, (t, label), a),
        call_ensures(where_it_was, (t, label), b),
    ensures
        t.task.due is None ==> a@ == t.list_name@,
        t.task.due is Some ==> a@ == t.list_name@ + " · "@ + crate::words::capital(label@),
        t.task.completed is Some ==> b@ == t.list_name@ + " · done "@ + crate::words::capital(
            label@,
        ),
{
}

/// Choosing a view or a list goes there, choosing a task shows it, and a
/// heading cannot be chosen.
pub proof fn choosing_goes_there(h: &Hit, r: Option<Msg>)
    requires
        call_ensures(choose_hit, (h,), r),
    ensures
        h@ is Header ==> r is None,
        h@ matches HitView::View(n, _) ==> (r matches Some(Msg::Navigate(v)) && v@ == n),
        h@ matches HitView::List(l, _) ==> (r matches Some(Msg::Navigate(v)) && v@
            == NavView::List(l.href@)),
        h@ matches HitView::Task(t, _) ==> (r matches Some(Msg::Reveal(x)) && x == t.href),
{
}

/// What is typed is looked for without the space around it, in lowercase.
pub proof fn queries_are_lowercase(typed: &str, q: String)
    requires
        call_ensures(query, (typed,), q),
    ensures
        q@ == lowercase_text(trim(typed@)),
{
}

/// Completed tasks are the daemon's to find, in all lists, from two letters
/// on, twenty at most.
pub proof fn completed_tasks_are_asked_for(q: &str, c: Option<Query>)
    requires
        call_ensures(completed_query, (q,), c),
    ensures
        c is Some == (q@.len() >= 2),
        c matches Some(x) ==> x.which == Which::Completed && x.list is None && x.limit == Some(20u32)
            && (x.text matches Some(t) && t@ == q@) && x.linked_note is None,
{
}

/// The arrow keys go to the next row that can be chosen, past those that
/// cannot, and stop at the ends.
pub proof fn arrows_pass_headings(rows: &[bool], from: Option<usize>, down: bool, r: Option<usize>)
    requires
        from matches Some(i) ==> i < rows@.len(),
        call_ensures(step, (rows, from, down), r),
    ensures
        ({
            let i: int = match from {
                Some(i) => i as int,
                None => -1,
            };
            match r {
                Some(k) => rows@[k as int] && k < rows@.len() && (down ==> i < k && forall|j: int|
                    i < j < k ==> !#[trigger] rows@[j]) && (!down ==> k < i && forall|j: int|
                    k < j < i ==> !#[trigger] rows@[j]),
                None => (down ==> forall|j: int| i < j < rows@.len() ==> !#[trigger] rows@[j]) && (
                !down ==> forall|j: int| 0 <= j < i ==> !#[trigger] rows@[j]),
            }
        }),
{
    let i: int = match from {
        Some(i) => i as int,
        None => -1,
    };
    lemma_next_row(rows@, i, down);
}

proof fn lemma_next_row(rows: Seq<bool>, from: int, down: bool)
    requires
        -1 <= from <= rows.len(),
    ensures
        match next_row(rows, from, down) {
            Some(k) => 0 <= k < rows.len() && rows[k] && (down ==> from < k && forall|j: int|
                from < j < k ==> !#[trigger] rows[j]) && (!down ==> k < from && forall|j: int|
                k < j < from ==> !#[trigger] rows[j]),
            None => (down ==> forall|j: int| from < j < rows.len() ==> !#[trigger] rows[j]) && (!down
                ==> forall|j: int| 0 <= j < from ==> !#[trigger] rows[j]),
        },
    decreases
            if down {
                rows.len() - from
            } else {
                from + 1
            },
{
    let i = if down {
        from + 1
    } else {
        from - 1
    };
    if 0 <= i < rows.len() && !rows[i] {
        lemma_next_row(rows, i, down);
    }
}

} // verus!
