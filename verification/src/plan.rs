//! What a view shows, top to bottom: its sections, their titles, and their
//! tasks in order.

use vstd::prelude::*;
use vstd::string::*;

use crate::arrange::{order, sorted};
use crate::date::{
    Date, FIRST_DAY, LAST_DAY, day_of, has_next_month, last_day, month_days, month_end, month_name,
    month_of, written, year_of,
};
use crate::nav::{Nav, NavView, OptsView, Sort, ViewOpts};
use crate::number::{decimal, decimal_text, signed, signed_text};
use crate::prefs::plain_lists;
use crate::sorting::arranged;
use crate::task::{ListView, Task, TaskView, tasks_wf, unref};
use crate::text::{has_text, text_opt};
use crate::zone::{Now, Zone, day_at, local_day};

verus! {

// -- sections -----------------------------------------------------------------------

#[derive(Debug, PartialEq, Eq)]
pub enum Kind {
    /// Due before today; these can be moved together.
    Overdue,
    /// One day; a task added here gets that date.
    Day(Date),
    /// The rest of a month, or a whole one.
    Range,
    /// One list's tasks; a task added here goes to it.
    List(String),
    Completed,
    Plain,
}

impl Clone for Kind {
    fn clone(&self) -> (r: Kind)
        ensures
            r == *self,
    {
        match self {
            Kind::Overdue => Kind::Overdue,
            Kind::Day(d) => Kind::Day(*d),
            Kind::Range => Kind::Range,
            Kind::List(h) => Kind::List(h.clone()),
            Kind::Completed => Kind::Completed,
            Kind::Plain => Kind::Plain,
        }
    }
}

pub enum KindView {
    Overdue,
    Day(Date),
    Range,
    List(Seq<char>),
    Completed,
    Plain,
}

impl View for Kind {
    type V = KindView;

    open spec fn view(&self) -> KindView {
        match self {
            Kind::Overdue => KindView::Overdue,
            Kind::Day(d) => KindView::Day(*d),
            Kind::Range => KindView::Range,
            Kind::List(h) => KindView::List(h@),
            Kind::Completed => KindView::Completed,
            Kind::Plain => KindView::Plain,
        }
    }
}

#[derive(Debug)]
pub struct Section<'a> {
    pub kind: Kind,
    pub title: Option<String>,
    /// Dim words after the title: a weekday, a range, a count.
    pub note: Option<String>,
    pub tasks: Vec<&'a TaskView>,
    /// Shown with no tasks too, like the days of the coming week.
    pub keep: bool,
}

#[verifier::ext_equal]
pub struct SectionView {
    pub kind: KindView,
    pub title: Option<Seq<char>>,
    pub note: Option<Seq<char>>,
    pub tasks: Seq<TaskView>,
    pub keep: bool,
}

impl<'a> View for Section<'a> {
    type V = SectionView;

    open spec fn view(&self) -> SectionView {
        SectionView {
            kind: self.kind@,
            title: text_opt(self.title),
            note: text_opt(self.note),
            tasks: unref(self.tasks@),
            keep: self.keep,
        }
    }
}

/// The sections of a list of them.
pub open spec fn sections<'a>(v: Seq<Section<'a>>) -> Seq<SectionView> {
    v.map_values(|s: Section<'a>| s@)
}

pub struct Data<'a> {
    pub lists: &'a [ListView],
    pub open: &'a [TaskView],
    /// Loaded only when a view needs it.
    pub completed: Option<&'a [TaskView]>,
    /// Where "this week" ends.
    pub sunday_first: bool,
}

/// What the views are made of.
pub struct DataView {
    pub lists: Seq<ListView>,
    pub open: Seq<TaskView>,
    /// The completed tasks that were loaded.
    pub done: Seq<TaskView>,
    pub sunday_first: bool,
}

impl DataView {
    pub open spec fn wf(&self) -> bool {
        tasks_wf(self.open) && tasks_wf(self.done)
    }
}

impl<'a> View for Data<'a> {
    type V = DataView;

    open spec fn view(&self) -> DataView {
        DataView {
            lists: self.lists@,
            open: self.open@,
            done: match self.completed {
                Some(c) => c@,
                None => Seq::empty(),
            },
            sunday_first: self.sunday_first,
        }
    }
}

/// The same, as picked from what there is.
pub struct Picked<'a> {
    pub lists: Vec<&'a ListView>,
    pub open: Vec<&'a TaskView>,
    pub completed: Option<Vec<&'a TaskView>>,
    pub sunday_first: bool,
}

impl<'a> View for Picked<'a> {
    type V = DataView;

    open spec fn view(&self) -> DataView {
        DataView {
            lists: plain_lists(self.lists@),
            open: unref(self.open@),
            done: match self.completed {
                Some(c) => unref(c@),
                None => Seq::empty(),
            },
            sunday_first: self.sunday_first,
        }
    }
}

impl<'a> Data<'a> {
    /// All of it.
    pub fn picked(&self) -> (r: Picked<'a>)
        ensures
            r@ == self@,
    {
        Picked {
            lists: list_refs(self.lists),
            open: refs(self.open),
            completed: match self.completed {
                Some(c) => Some(refs(c)),
                None => None,
            },
            sunday_first: self.sunday_first,
        }
    }
}

/// References to all lists.
fn list_refs<'a>(lists: &'a [ListView]) -> (r: Vec<&'a ListView>)
    ensures
        plain_lists(r@) == lists@,
{
    let mut out: Vec<&'a ListView> = Vec::new();
    for i in 0..lists.len()
        invariant
            plain_lists(out@) == lists@.take(i as int),
    {
        let ghost before = out@;
        out.push(&lists[i]);
        assert(plain_lists(out@) =~= plain_lists(before).push(lists@[i as int]));
    }
    assert(lists@.take(lists@.len() as int) == lists@);
    out
}

/// The first list that is the inbox, or else the first that can be written.
pub open spec fn inbox_of(lists: Seq<ListView>) -> Option<ListView> {
    match first_list(lists, |l: ListView| l.inbox) {
        Some(l) => Some(l),
        None => first_list(lists, |l: ListView| l.writable),
    }
}

pub open spec fn first_list(lists: Seq<ListView>, p: spec_fn(ListView) -> bool) -> Option<ListView>
    decreases lists.len(),
{
    if lists.len() == 0 {
        None
    } else if p(lists[0]) {
        Some(lists[0])
    } else {
        first_list(lists.skip(1), p)
    }
}

fn find_first<'a, F: Fn(&ListView) -> bool>(
    lists: &Vec<&'a ListView>,
    f: &F,
    Ghost(p): Ghost<spec_fn(ListView) -> bool>,
) -> (r: Option<&'a ListView>)
    requires
        forall|l: ListView| call_requires(*f, (&l,)),
        forall|l: ListView, r: bool| call_ensures(*f, (&l,), r) ==> r == p(l),
    ensures
        r == (match first_list(plain_lists(lists@), p) {
            Some(l) => Some(&l),
            None => None,
        }),
{
    let ghost s = plain_lists(lists@);
    assert(s.skip(0) == s);
    for i in 0..lists.len()
        invariant
            s == plain_lists(lists@),
            first_list(s.skip(i as int), p) == first_list(s, p),
            forall|l: ListView| call_requires(*f, (&l,)),
            forall|l: ListView, r: bool| call_ensures(*f, (&l,), r) ==> r == p(l),
    {
        let l: &'a ListView = lists[i];
        let ghost t = s.skip(i as int);
        assert(t[0] == *l);
        if f(l) {
            return Some(l);
        }
        assert(t.skip(1) == s.skip(i + 1));
    }
    assert(s.skip(s.len() as int).len() == 0);
    None
}

/// The list that new tasks go to unless told otherwise.
pub fn inbox<'a>(lists: &'a [ListView]) -> (r: Option<&'a ListView>)
    ensures
        r == (match inbox_of(lists@) {
            Some(l) => Some(&l),
            None => None,
        }),
{
    inbox_in(&list_refs(lists))
}

/// The list that new tasks go to, of those picked.
pub fn inbox_in<'a>(lists: &Vec<&'a ListView>) -> (r: Option<&'a ListView>)
    ensures
        r == (match inbox_of(plain_lists(lists@)) {
            Some(l) => Some(&l),
            None => None,
        }),
{
    let is_inbox = |l: &ListView| -> (r: bool)
        ensures
            r == l.inbox,
        { l.inbox };
    let is_writable = |l: &ListView| -> (r: bool)
        ensures
            r == l.writable,
        { l.writable };
    match find_first(lists, &is_inbox, Ghost(|l: ListView| l.inbox)) {
        Some(l) => Some(l),
        None => find_first(lists, &is_writable, Ghost(|l: ListView| l.writable)),
    }
}

// -- which tasks ----------------------------------------------------------------------

/// A task that the options let through.
pub open spec fn shown(
    opts: OptsView,
    today: int,
    sunday_first: bool,
) -> spec_fn(TaskView) -> bool {
    |t: TaskView|
        opts.priorities[t.task.level - 1] && opts.due.lets(t.task.due_day(), today, sunday_first)
            && !opts.hide_lists.contains(t.list@)
}

pub open spec fn due_before(day: int) -> spec_fn(TaskView) -> bool {
    |t: TaskView| t.task.due_day() matches Some(d) && d.ce < day
}

pub open spec fn due_on(day: int) -> spec_fn(TaskView) -> bool {
    |t: TaskView| t.task.due_day() matches Some(d) && d.ce == day
}

pub open spec fn due_after(day: int) -> spec_fn(TaskView) -> bool {
    |t: TaskView| t.task.due_day() matches Some(d) && d.ce > day
}

pub open spec fn undated() -> spec_fn(TaskView) -> bool {
    |t: TaskView| t.task.due is None
}

pub open spec fn repeats() -> spec_fn(TaskView) -> bool {
    |t: TaskView| t.task.rrule is Some
}

pub open spec fn in_list(href: Seq<char>) -> spec_fn(TaskView) -> bool {
    |t: TaskView| t.list@ == href
}

/// The day a task was completed, or last changed when that is not known.
pub open spec fn completed_day(t: Task, zone: Seq<char>) -> Option<int> {
    match t.completed {
        Some(at) => Some(day_at(at, zone)),
        None => match t.modified {
            Some(at) => Some(day_at(at, zone)),
            None => None,
        },
    }
}

pub open spec fn completed_on_day(day: int, zone: Seq<char>) -> spec_fn(TaskView) -> bool {
    |t: TaskView| completed_day(t.task, zone) == Some(day)
}

/// The day a task was completed, or last changed when that is not known.
pub fn completed_on(t: &Task, zone: &Zone) -> (r: Option<Date>)
    requires
        t.wf(),
    ensures
        match r {
            Some(d) => d.wf() && completed_day(*t, zone@) == Some(d.ce as int),
            None => completed_day(*t, zone@) is None,
        },
{
    match t.completed {
        Some(at) => Some(local_day(at, zone)),
        None => match t.modified {
            Some(at) => Some(local_day(at, zone)),
            None => None,
        },
    }
}

/// The tasks that pass, in the order they are in.
fn pick<'a, F: Fn(&TaskView) -> bool>(
    tasks: &Vec<&'a TaskView>,
    f: &F,
    Ghost(p): Ghost<spec_fn(TaskView) -> bool>,
) -> (r: Vec<&'a TaskView>)
    requires
        tasks_wf(unref(tasks@)),
        forall|t: TaskView| t.task.wf() ==> call_requires(*f, (&t,)),
        forall|t: TaskView, r: bool| call_ensures(*f, (&t,), r) ==> r == p(t),
    ensures
        unref(r@) == unref(tasks@).filter(p),
        tasks_wf(unref(r@)),
{
    let mut out: Vec<&'a TaskView> = Vec::new();
    let ghost s = unref(tasks@);
    proof {
        reveal(Seq::filter);
        assert(unref(out@) == s.take(0).filter(p));
    }
    for i in 0..tasks.len()
        invariant
            s == unref(tasks@),
            tasks_wf(s),
            unref(out@) == s.take(i as int).filter(p),
            tasks_wf(unref(out@)),
            forall|t: TaskView| t.task.wf() ==> call_requires(*f, (&t,)),
            forall|t: TaskView, r: bool| call_ensures(*f, (&t,), r) ==> r == p(t),
    {
        let t: &'a TaskView = tasks[i];
        assert(s[i as int] == *t);
        assert(s[i as int].task.wf());
        let ghost before = out@;
        proof {
            reveal(Seq::filter);
            assert(s.take(i + 1).drop_last() == s.take(i as int));
            assert(s.take(i + 1).last() == *t);
        }
        if f(t) {
            out.push(t);
            assert(unref(out@) == unref(before).push(*t));
        }
    }
    assert(s.take(s.len() as int) == s);
    out
}

/// References to all tasks.
pub(crate) fn refs<'a>(tasks: &'a [TaskView]) -> (r: Vec<&'a TaskView>)
    ensures
        unref(r@) == tasks@,
{
    let mut out: Vec<&'a TaskView> = Vec::new();
    for i in 0..tasks.len()
        invariant
            unref(out@) == tasks@.take(i as int),
    {
        let ghost before = out@;
        out.push(&tasks[i]);
        assert(unref(out@) == unref(before).push(tasks@[i as int]));
    }
    assert(tasks@.take(tasks@.len() as int) == tasks@);
    out
}

/// How a view orders tasks: turned around when it asks for it, in the order
/// it is sorted by.
pub open spec fn ordered(s: Seq<TaskView>, sort: Sort, opts: OptsView, view_sort: Sort) -> Seq<
    TaskView,
> {
    let v = arranged(s, order(sort));
    if opts.descending && sort != Sort::Custom && sort == view_sort {
        v.reverse()
    } else {
        v
    }
}

fn reversed<'a>(v: Vec<&'a TaskView>) -> (r: Vec<&'a TaskView>)
    ensures
        unref(r@) == unref(v@).reverse(),
{
    let mut out: Vec<&'a TaskView> = Vec::new();
    let n = v.len();
    for i in 0..n
        invariant
            n == v@.len(),
            out@.len() == i,
            forall|j: int| 0 <= j < i ==> out@[j] == v@[n - 1 - j],
    {
        out.push(v[n - 1 - i]);
    }
    assert(unref(out@) =~= unref(v@).reverse());
    out
}

fn put_in_order<'a>(
    tasks: Vec<&'a TaskView>,
    sort: Sort,
    opts: &ViewOpts,
    view_sort: Sort,
) -> (r: Vec<&'a TaskView>)
    ensures
        unref(r@) == ordered(unref(tasks@), sort, opts@, view_sort),
{
    let v = sorted(tasks, sort);
    if opts.descending && sort != Sort::Custom && sort == view_sort {
        reversed(v)
    } else {
        v
    }
}

// -- runs -------------------------------------------------------------------------------

/// `s` cut where its key changes.
pub open spec fn runs<K>(s: Seq<TaskView>, key: spec_fn(TaskView) -> K) -> Seq<Seq<TaskView>>
    decreases s.len(),
{
    if s.len() == 0 {
        Seq::empty()
    } else {
        let before = runs(s.drop_last(), key);
        if before.len() > 0 && key(s[s.len() - 2]) == key(s.last()) {
            before.drop_last().push(before.last().push(s.last()))
        } else {
            before.push(seq![s.last()])
        }
    }
}

/// The runs of a sequence one after another.
pub open spec fn chained(r: Seq<Seq<TaskView>>) -> Seq<TaskView>
    decreases r.len(),
{
    if r.len() == 0 {
        Seq::empty()
    } else {
        chained(r.drop_last()) + r.last()
    }
}

/// Cutting into runs loses nothing and keeps the order; no run is empty, all
/// of a run has one key, and neighbors have different ones.
pub proof fn runs_cover<K>(s: Seq<TaskView>, key: spec_fn(TaskView) -> K)
    ensures
        chained(runs(s, key)) == s,
        forall|i: int| 0 <= i < runs(s, key).len() ==> (#[trigger] runs(s, key)[i]).len() > 0,
        forall|i: int, j: int|
            0 <= i < runs(s, key).len() && 0 <= j < runs(s, key)[i].len() ==> key(
                #[trigger] runs(s, key)[i][j],
            ) == key(runs(s, key)[i][0]),
        forall|i: int|
            0 < i < runs(s, key).len() ==> key((#[trigger] runs(s, key)[i])[0]) != key(
                runs(s, key)[i - 1][0],
            ),
        s.len() > 0 ==> runs(s, key).len() > 0 && runs(s, key).last().last() == s.last(),
    decreases s.len(),
{
    if s.len() > 0 {
        let t = s.drop_last();
        runs_cover(t, key);
        let before = runs(t, key);
        let r = runs(s, key);
        if before.len() > 0 && key(s[s.len() - 2]) == key(s.last()) {
            let l = before.last();
            assert(t.last() == s[s.len() - 2]);
            assert(before[before.len() - 1] == l);
            assert(l[l.len() - 1] == t.last());
            assert(key(l[l.len() - 1]) == key(l[0]));
            assert(r.drop_last() == before.drop_last());
            assert(r.last() == l.push(s.last()));
            let head = chained(before.drop_last());
            assert(chained(before) == head + l);
            assert(chained(r) == head + l.push(s.last()));
            assert(head + l.push(s.last()) == (head + l).push(s.last()));
            assert(t.push(s.last()) == s);
            assert forall|i: int| 0 <= i < r.len() implies (#[trigger] r[i]).len() > 0 by {
                if i < r.len() - 1 {
                    assert(r[i] == before[i]);
                }
            }
            assert forall|i: int, j: int| 0 <= i < r.len() && 0 <= j < r[i].len() implies key(
                #[trigger] r[i][j],
            ) == key(r[i][0]) by {
                if i < r.len() - 1 {
                    assert(r[i] == before[i]);
                } else {
                    assert(r[i] == l.push(s.last()));
                    if j < l.len() {
                        assert(before[before.len() - 1][j] == r[i][j]);
                    }
                }
            }
            assert forall|i: int| 0 < i < r.len() implies key((#[trigger] r[i])[0]) != key(
                r[i - 1][0],
            ) by {
                assert(r[i - 1] == before[i - 1]);
                assert(r[i][0] == before[i][0]);
            }
        } else {
            assert(r.drop_last() == before);
            assert(chained(r) == chained(before) + seq![s.last()]);
            assert(chained(r) == s);
            assert forall|i: int| 0 <= i < r.len() implies (#[trigger] r[i]).len() > 0 by {
                if i < r.len() - 1 {
                    assert(r[i] == before[i]);
                }
            }
            assert forall|i: int, j: int| 0 <= i < r.len() && 0 <= j < r[i].len() implies key(
                #[trigger] r[i][j],
            ) == key(r[i][0]) by {
                if i < r.len() - 1 {
                    assert(r[i] == before[i]);
                }
            }
            assert forall|i: int| 0 < i < r.len() implies key((#[trigger] r[i])[0]) != key(
                r[i - 1][0],
            ) by {
                assert(r[i - 1] == before[i - 1]);
                if i < r.len() - 1 {
                    assert(r[i] == before[i]);
                } else {
                    let l = before.last();
                    assert(before[before.len() - 1] == l);
                    assert(l[l.len() - 1] == t.last());
                    assert(t.last() == s[s.len() - 2]);
                    assert(key(l[l.len() - 1]) == key(l[0]));
                    if t.len() == 0 {
                        assert(before.len() == 0);
                    }
                }
            }
        }
    }
}

// -- the plan ---------------------------------------------------------------------------

pub open spec fn section(
    kind: KindView,
    title: Option<Seq<char>>,
    note: Option<Seq<char>>,
    tasks: Seq<TaskView>,
    keep: bool,
) -> SectionView {
    SectionView { kind, title, note, tasks, keep }
}

/// What is due before today, as a section of its own when there is any.
pub open spec fn overdue_part(
    open: Seq<TaskView>,
    opts: OptsView,
    sort: Sort,
    today: int,
) -> Seq<SectionView> {
    let overdue = ordered(open.filter(due_before(today)), Sort::Due, opts, sort);
    if overdue.len() > 0 {
        seq![section(KindView::Overdue, Some("Overdue"@), None, overdue, false)]
    } else {
        Seq::empty()
    }
}

/// Completed tasks under the others, where the view shows them.
pub open spec fn finished_part(finished: Seq<TaskView>, opts: OptsView) -> Seq<SectionView> {
    if opts.show_completed && finished.len() > 0 {
        seq![
            section(
                KindView::Completed,
                Some("Completed"@),
                Some(decimal(finished.len())),
                finished,
                false,
            ),
        ]
    } else {
        Seq::empty()
    }
}

pub open spec fn today_plan(
    open: Seq<TaskView>,
    done: Seq<TaskView>,
    opts: OptsView,
    sort: Sort,
    today: int,
    zone: Seq<char>,
) -> Seq<SectionView> {
    let overdue = overdue_part(open, opts, sort, today);
    let title = if overdue.len() > 0 {
        Some("Today"@)
    } else {
        None
    };
    let due = ordered(open.filter(due_on(today)), sort, opts, sort);
    overdue + seq![
        section(KindView::Day(Date { ce: today as i32 }), title, None, due, true),
    ] + finished_part(done.filter(completed_on_day(today, zone)), opts)
}

/// The `i`th day from today on.
pub open spec fn day_part(
    open: Seq<TaskView>,
    opts: OptsView,
    sort: Sort,
    today: int,
    i: int,
) -> SectionView {
    let note = if i == 0 {
        "Today"@
    } else if i == 1 {
        "Tomorrow"@
    } else {
        written(today + i, "%A"@)
    };
    section(
        KindView::Day(Date { ce: (today + i) as i32 }),
        Some(decimal(day_of(today + i) as nat)),
        Some(note),
        ordered(open.filter(due_on(today + i)), sort, opts, sort),
        true,
    )
}

/// The number of the day a task is due.
pub open spec fn due_number(t: TaskView) -> int {
    t.task.due_day()->0.ce as int
}

pub open spec fn month_key() -> spec_fn(TaskView) -> (int, int) {
    |t: TaskView| (year_of(due_number(t)), month_of(due_number(t)))
}

/// The tasks of a month after the coming week.
pub open spec fn month_part(tasks: Seq<TaskView>, today: int) -> SectionView {
    let d = due_number(tasks[0]);
    let (y, m) = (year_of(d), month_of(d));
    let name = month_name(m);
    let title = if y == year_of(today) {
        name
    } else {
        name + " "@ + signed(y)
    };
    // What is left of the month that the week ends in.
    let note = if y == year_of(today + 6) && m == month_of(today + 6) {
        Some(
            decimal(day_of(today + 7) as nat) + " – "@ + decimal(month_days(y, m) as nat),
        )
    } else {
        None
    };
    section(KindView::Range, Some(title), note, tasks, false)
}

/// The months that tasks are due in, each once, as they first come.
pub open spec fn months_of(s: Seq<TaskView>) -> Seq<(int, int)>
    decreases s.len(),
{
    if s.len() == 0 {
        Seq::empty()
    } else {
        let before = months_of(s.drop_last());
        let k = month_key()(s.last());
        if before.contains(k) {
            before
        } else {
            before.push(k)
        }
    }
}

/// The months that tasks are due in, each once: from the first on, or from the
/// last where the view is sorted by date and turned around.
pub open spec fn months_in(later: Seq<TaskView>, opts: OptsView, sort: Sort) -> Seq<(int, int)> {
    months_of(ordered(later, Sort::Due, opts, sort))
}

/// Due in a month, by its year and its number.
pub open spec fn in_month(k: (int, int)) -> spec_fn(TaskView) -> bool {
    |t: TaskView| month_key()(t) == k
}

/// The section of a month after the coming week.
pub open spec fn month_of_plan(
    later: Seq<TaskView>,
    opts: OptsView,
    sort: Sort,
    today: int,
) -> spec_fn((int, int)) -> SectionView {
    |k: (int, int)| month_part(ordered(later.filter(in_month(k)), sort, opts, sort), today)
}

/// What is overdue, the coming week day by day, then month by month.
pub open spec fn scheduled_plan(
    open: Seq<TaskView>,
    opts: OptsView,
    sort: Sort,
    today: int,
) -> Seq<SectionView> {
    let later = open.filter(due_after(today + 6));
    overdue_part(open, opts, sort, today) + Seq::new(
        7,
        |i: int| day_part(open, opts, sort, today, i),
    ) + months_in(later, opts, sort).map_values(month_of_plan(later, opts, sort, today))
}

pub open spec fn list_plan(
    open: Seq<TaskView>,
    done: Seq<TaskView>,
    opts: OptsView,
    sort: Sort,
    href: Seq<char>,
) -> Seq<SectionView> {
    seq![
        section(
            KindView::List(href),
            None,
            None,
            ordered(open.filter(in_list(href)), sort, opts, sort),
            true,
        ),
    ] + finished_part(done.filter(in_list(href)), opts)
}

/// A section for every list that has a task.
pub open spec fn by_list_plan(
    lists: Seq<ListView>,
    tasks: Seq<TaskView>,
    opts: OptsView,
    sort: Sort,
) -> Seq<SectionView>
    decreases lists.len(),
{
    if lists.len() == 0 {
        Seq::empty()
    } else {
        let before = by_list_plan(lists.drop_last(), tasks, opts, sort);
        let l = lists.last();
        let mine = tasks.filter(in_list(l.href@));
        if mine.len() == 0 {
            before
        } else {
            before.push(
                section(
                    KindView::List(l.href@),
                    Some(l.name@),
                    Some(decimal(mine.len())),
                    ordered(mine, sort, opts, sort),
                    false,
                ),
            )
        }
    }
}

/// `Today`, `Yesterday`, `Tuesday, Sep 8`, with the year when it isn't this one.
pub open spec fn day_words(d: int, today: int) -> Seq<char> {
    if d == today {
        "Today"@
    } else if d == today - 1 {
        "Yesterday"@
    } else if d == today + 1 {
        "Tomorrow"@
    } else if year_of(d) == year_of(today) {
        written(d, "%A, %b %-d"@)
    } else {
        written(d, "%A, %b %-d %Y"@)
    }
}

pub open spec fn done_key(zone: Seq<char>) -> spec_fn(TaskView) -> Option<int> {
    |t: TaskView| completed_day(t.task, zone)
}

/// The tasks completed on one day.
pub open spec fn done_part(tasks: Seq<TaskView>, today: int, zone: Seq<char>) -> SectionView {
    let title = match completed_day(tasks[0].task, zone) {
        None => "Earlier"@,
        Some(d) => day_words(d, today),
    };
    section(KindView::Completed, Some(title), Some(decimal(tasks.len())), tasks, false)
}

pub open spec fn completed_plan(done: Seq<TaskView>, today: int, zone: Seq<char>) -> Seq<
    SectionView,
> {
    runs(done, done_key(zone)).map_values(|r: Seq<TaskView>| done_part(r, today, zone))
}

/// What a view shows.
pub open spec fn plan_of(
    nav: NavView,
    data: DataView,
    opts: OptsView,
    today: int,
    zone: Seq<char>,
) -> Seq<SectionView> {
    let sort = opts.sort_of(nav);
    let open = data.open.filter(shown(opts, today, data.sunday_first));
    let done = data.done.filter(shown(opts, today, data.sunday_first));
    match nav {
        NavView::Today => today_plan(open, done, opts, sort, today, zone),
        NavView::Scheduled => scheduled_plan(open, opts, sort, today),
        NavView::Inbox => match inbox_of(data.lists) {
            Some(l) => list_plan(open, done, opts, sort, l.href@),
            None => Seq::empty(),
        },
        NavView::List(href) => list_plan(open, done, opts, sort, href),
        NavView::Tomorrow => seq![
            section(
                KindView::Day(Date { ce: (today + 1) as i32 }),
                None,
                None,
                ordered(open.filter(due_on(today + 1)), sort, opts, sort),
                true,
            ),
        ],
        NavView::Anytime => by_list_plan(data.lists, open.filter(undated()), opts, sort),
        NavView::Repeating => seq![
            section(
                KindView::Plain,
                None,
                None,
                ordered(open.filter(repeats()), sort, opts, sort),
                true,
            ),
        ],
        NavView::All => by_list_plan(data.lists, open, opts, sort),
        NavView::Completed => completed_plan(done, today, zone),
    }
}

// -- building it ------------------------------------------------------------------------

fn make<'a>(
    kind: Kind,
    title: Option<String>,
    note: Option<String>,
    tasks: Vec<&'a TaskView>,
    keep: bool,
) -> (r: Section<'a>)
    ensures
        r@ == section(kind@, text_opt(title), text_opt(note), unref(tasks@), keep),
{
    Section { kind, title, note, tasks, keep }
}

/// A section added to what comes before it.
fn put<'a>(out: &mut Vec<Section<'a>>, s: Section<'a>)
    ensures
        sections(final(out)@) == sections(old(out)@).push(s@),
{
    out.push(s);
    assert(sections(out@) =~= sections(old(out)@).push(s@));
}

fn pick_due_before<'a>(tasks: &Vec<&'a TaskView>, day: Date) -> (r: Vec<&'a TaskView>)
    requires
        tasks_wf(unref(tasks@)),
    ensures
        unref(r@) == unref(tasks@).filter(due_before(day.ce as int)),
        tasks_wf(unref(r@)),
{
    let f = |t: &TaskView| -> (r: bool)
        ensures
            r == due_before(day.ce as int)(*t),
        { match t.task.due {
            Some(w) => w.date.ce < day.ce,
            None => false,
        } };
    pick(tasks, &f, Ghost(due_before(day.ce as int)))
}

fn pick_due_on<'a>(tasks: &Vec<&'a TaskView>, day: Date) -> (r: Vec<&'a TaskView>)
    requires
        tasks_wf(unref(tasks@)),
    ensures
        unref(r@) == unref(tasks@).filter(due_on(day.ce as int)),
        tasks_wf(unref(r@)),
{
    let f = |t: &TaskView| -> (r: bool)
        ensures
            r == due_on(day.ce as int)(*t),
        { match t.task.due {
            Some(w) => w.date.ce == day.ce,
            None => false,
        } };
    pick(tasks, &f, Ghost(due_on(day.ce as int)))
}

fn pick_due_after<'a>(tasks: &Vec<&'a TaskView>, day: Date) -> (r: Vec<&'a TaskView>)
    requires
        tasks_wf(unref(tasks@)),
    ensures
        unref(r@) == unref(tasks@).filter(due_after(day.ce as int)),
        tasks_wf(unref(r@)),
{
    let f = |t: &TaskView| -> (r: bool)
        ensures
            r == due_after(day.ce as int)(*t),
        { match t.task.due {
            Some(w) => w.date.ce > day.ce,
            None => false,
        } };
    pick(tasks, &f, Ghost(due_after(day.ce as int)))
}

fn pick_list<'a>(tasks: &Vec<&'a TaskView>, href: &str) -> (r: Vec<&'a TaskView>)
    requires
        tasks_wf(unref(tasks@)),
    ensures
        unref(r@) == unref(tasks@).filter(in_list(href@)),
        tasks_wf(unref(r@)),
{
    let f = |t: &TaskView| -> (r: bool)
        ensures
            r == in_list(href@)(*t),
        { crate::text::same(t.list.as_str(), href) };
    pick(tasks, &f, Ghost(in_list(href@)))
}

fn some_text(s: &str) -> (r: Option<String>)
    ensures
        text_opt(r) == Some(s@),
{
    Some(String::from_str(s))
}

/// The days that a plan looks at are on the calendar.
pub open spec fn has_room(today: int) -> bool {
    FIRST_DAY <= today && today + 7 <= LAST_DAY && month_end(today) < LAST_DAY && month_end(
        today + 6,
    ) < LAST_DAY
}

/// Whether the days that a plan looks at are on the calendar.
pub fn in_calendar(today: Date) -> (r: bool)
    requires
        today.wf(),
    ensures
        r == has_room(today.ce as int),
{
    if today.ce > LAST_DAY - 7 {
        return false;
    }
    has_next_month(today) && has_next_month(today.plus(6))
}

/// Overdue tasks, pushed when there are any; whether there were.
fn add_overdue<'a>(
    out: &mut Vec<Section<'a>>,
    open: &Vec<&'a TaskView>,
    opts: &ViewOpts,
    sort: Sort,
    today: Date,
) -> (r: bool)
    requires
        tasks_wf(unref(open@)),
    ensures
        sections(final(out)@) == sections(old(out)@) + overdue_part(
            unref(open@),
            opts@,
            sort,
            today.ce as int,
        ),
        r == (overdue_part(unref(open@), opts@, sort, today.ce as int).len() > 0),
{
    let overdue = put_in_order(pick_due_before(open, today), Sort::Due, opts, sort);
    if overdue.len() > 0 {
        put(out, make(Kind::Overdue, some_text("Overdue"), None, overdue, false));
        true
    } else {
        false
    }
}

fn add_finished<'a>(
    out: &mut Vec<Section<'a>>,
    finished: Vec<&'a TaskView>,
    opts: &ViewOpts,
)
    ensures
        sections(final(out)@) == sections(old(out)@) + finished_part(unref(finished@), opts@),
{
    if opts.show_completed && finished.len() > 0 {
        let n = decimal_text(finished.len() as u64);
        put(out, make(Kind::Completed, some_text("Completed"), Some(n), finished, false));
    }
}

fn plan_today<'a>(
    open: &Vec<&'a TaskView>,
    done: &Vec<&'a TaskView>,
    opts: &ViewOpts,
    sort: Sort,
    today: Date,
    zone: &Zone,
) -> (r: Vec<Section<'a>>)
    requires
        tasks_wf(unref(open@)),
        tasks_wf(unref(done@)),
    ensures
        sections(r@) == today_plan(
            unref(open@),
            unref(done@),
            opts@,
            sort,
            today.ce as int,
            zone@,
        ),
{
    let mut out: Vec<Section<'a>> = Vec::new();
    assert(sections(out@) == Seq::<SectionView>::empty());
    let late = add_overdue(&mut out, open, opts, sort, today);
    let due = put_in_order(pick_due_on(open, today), sort, opts, sort);
    let title: Option<String> = if late {
        some_text("Today")
    } else {
        None
    };
    put(&mut out, make(Kind::Day(today), title, None, due, true));
    let f = |t: &TaskView| -> (r: bool)
        requires
            t.task.wf(),
        ensures
            r == completed_on_day(today.ce as int, zone@)(*t),
        { match completed_on(&t.task, zone) {
            Some(d) => d.ce == today.ce,
            None => false,
        } };
    let finished = pick(done, &f, Ghost(completed_on_day(today.ce as int, zone@)));
    add_finished(&mut out, finished, opts);
    out
}

/// The days of the coming week, from today.
fn add_week<'a>(
    out: &mut Vec<Section<'a>>,
    open: &Vec<&'a TaskView>,
    opts: &ViewOpts,
    sort: Sort,
    today: Date,
)
    requires
        tasks_wf(unref(open@)),
        today.wf(),
        today.ce + 7 <= LAST_DAY,
    ensures
        sections(final(out)@) == sections(old(out)@) + Seq::new(
            7,
            |i: int| day_part(unref(open@), opts@, sort, today.ce as int, i),
        ),
{
    let ghost before = sections(out@);
    let ghost part = |i: int| day_part(unref(open@), opts@, sort, today.ce as int, i);
    assert(before + Seq::new(0, part) == before);
    for i in 0..7i32
        invariant
            tasks_wf(unref(open@)),
            today.wf(),
            today.ce + 7 <= LAST_DAY,
            part == (|i: int| day_part(unref(open@), opts@, sort, today.ce as int, i)),
            sections(out@) == before + Seq::new(i as nat, part),
    {
        let d = today.plus(i);
        let note: Option<String> = if i == 0 {
            some_text("Today")
        } else if i == 1 {
            some_text("Tomorrow")
        } else {
            Some(d.format("%A"))
        };
        let tasks = put_in_order(pick_due_on(open, d), sort, opts, sort);
        let (_, _, day) = d.ymd();
        let title = decimal_text(day as u64);
        put(out, make(Kind::Day(d), Some(title), note, tasks, true));
        assert(sections(out@).last() == part(i as int));
        assert((before + Seq::new(i as nat, part)).push(part(i as int)) == before + Seq::new(
            (i + 1) as nat,
            part,
        ));
    }
}

/// Runs of references, as runs of tasks.
pub open spec fn unref_runs<'a>(v: Seq<Vec<&'a TaskView>>) -> Seq<Seq<TaskView>> {
    v.map_values(|r: Vec<&'a TaskView>| unref(r@))
}

/// The tasks cut where their key changes.
fn cut<'a, K, F: Fn(&TaskView, &TaskView) -> bool>(
    tasks: Vec<&'a TaskView>,
    f: &F,
    Ghost(fits): Ghost<spec_fn(TaskView) -> bool>,
    Ghost(key): Ghost<spec_fn(TaskView) -> K>,
) -> (r: Vec<Vec<&'a TaskView>>)
    requires
        forall|i: int| 0 <= i < unref(tasks@).len() ==> fits(#[trigger] unref(tasks@)[i]),
        forall|a: TaskView, b: TaskView| fits(a) && fits(b) ==> call_requires(*f, (&a, &b)),
        forall|a: TaskView, b: TaskView, r: bool|
            call_ensures(*f, (&a, &b), r) ==> r == (key(a) == key(b)),
    ensures
        unref_runs(r@) == runs(unref(tasks@), key),
{
    let mut out: Vec<Vec<&'a TaskView>> = Vec::new();
    let ghost s = unref(tasks@);
    assert(unref_runs(out@) == runs(s.take(0), key));
    for i in 0..tasks.len()
        invariant
            s == unref(tasks@),
            unref_runs(out@) == runs(s.take(i as int), key),
            i > 0 ==> out@.len() > 0,
            forall|i: int| 0 <= i < s.len() ==> fits(#[trigger] s[i]),
            forall|a: TaskView, b: TaskView| fits(a) && fits(b) ==> call_requires(*f, (&a, &b)),
            forall|a: TaskView, b: TaskView, r: bool|
                call_ensures(*f, (&a, &b), r) ==> r == (key(a) == key(b)),
    {
        let t: &'a TaskView = tasks[i];
        let ghost before = out@;
        let ghost u = s.take(i + 1);
        proof {
            assert(u.drop_last() == s.take(i as int));
            assert(u.last() == *t);
            assert(s[i as int] == *t);
            assert(fits(s[i as int]));
        }
        let mut joins = false;
        if i > 0 {
            let p: &'a TaskView = tasks[i - 1];
            assert(s[i - 1] == *p && fits(s[i - 1]));
            assert(u[u.len() - 2] == *p);
            joins = f(p, t);
        }
        if joins {
            match out.pop() {
                Some(mut last) => {
                    assert(out@ == before.drop_last());
                    let ghost l = last@;
                    last.push(t);
                    out.push(last);
                    proof {
                        let x = unref_runs(before);
                        assert(x.last() == unref(l));
                        assert(unref(last@) == unref(l).push(*t));
                        assert(unref_runs(out@) =~= x.drop_last().push(x.last().push(*t)));
                    }
                },
                None => {
                    assert(false);
                },
            }
        } else {
            let mut one: Vec<&'a TaskView> = Vec::new();
            one.push(t);
            out.push(one);
            proof {
                assert(unref(one@) == seq![*t]);
                assert(unref_runs(out@) =~= unref_runs(before).push(seq![*t]));
            }
        }
    }
    assert(s.take(s.len() as int) == s);
    out
}

/// A task with a date on the calendar.
pub open spec fn dated() -> spec_fn(TaskView) -> bool {
    |t: TaskView| t.task.wf() && t.task.due is Some
}

fn due_of(t: &TaskView) -> (r: Date)
    requires
        dated()(*t),
    ensures
        r.ce == due_number(*t),
        r.wf(),
{
    match t.task.due {
        Some(w) => w.date,
        None => {
            assert(false);
            Date { ce: 0 }
        },
    }
}

/// The section of a month after the coming week.
fn month_section<'a>(tasks: Vec<&'a TaskView>, today: Date) -> (r: Section<'a>)
    requires
        tasks@.len() > 0,
        dated()(unref(tasks@)[0]),
        today.wf(),
        has_room(today.ce as int),
    ensures
        r@ == month_part(unref(tasks@), today.ce as int),
{
    let d = due_of(tasks[0]);
    let (y, m, _) = d.ymd();
    let (this_year, _, _) = today.ymd();
    let week_end = today.plus(6);
    let (wy, wm, _) = week_end.ymd();
    let mut title = d.format("%B");
    proof {
        reveal_strlit("%A");
        reveal_strlit("%a");
        reveal_strlit("%B");
        assert("%A"@[1] == 'A' && "%a"@[1] == 'a' && "%B"@[1] == 'B');
        assert(title@ == month_name(m as int));
    }
    if y != this_year {
        title.append(" ");
        title.append(signed_text(y as i64).as_str());
    }
    let note: Option<String> = if y == wy && m == wm {
        let (_, _, next) = today.plus(7).ymd();
        let last = last_day(week_end);
        let (_, _, end) = last.ymd();
        proof {
            let (yy, mm) = (y as int, m as int);
            crate::date::civil_is_unique(last.ce as int, yy, mm, month_days(yy, mm));
        }
        let mut n = decimal_text(next as u64);
        n.append(" – ");
        n.append(decimal_text(end as u64).as_str());
        Some(n)
    } else {
        None
    };
    make(Kind::Range, Some(title), note, tasks, false)
}

proof fn lemma_filter_wf(s: Seq<TaskView>, p: spec_fn(TaskView) -> bool)
    ensures
        forall|i: int| 0 <= i < s.filter(p).len() ==> p(#[trigger] s.filter(p)[i]),
        tasks_wf(s) ==> tasks_wf(s.filter(p)),
    decreases s.len(),
{
    reveal(Seq::filter);
    if s.len() > 0 {
        let t = s.drop_last();
        lemma_filter_wf(t, p);
        if tasks_wf(s) {
            assert forall|i: int| 0 <= i < t.len() implies (#[trigger] t[i]).task.wf() by {
                assert(t[i] == s[i]);
            }
            assert(s[s.len() - 1].task.wf());
        }
    }
}

/// What holds of all tasks holds of them in order too.
proof fn lemma_ordered_all(
    s: Seq<TaskView>,
    sort: Sort,
    opts: OptsView,
    view_sort: Sort,
    p: spec_fn(TaskView) -> bool,
)
    requires
        forall|i: int| 0 <= i < s.len() ==> p(#[trigger] s[i]),
    ensures
        ordered(s, sort, opts, view_sort).len() == s.len(),
        forall|i: int|
            0 <= i < s.len() ==> p(#[trigger] ordered(s, sort, opts, view_sort)[i]),
{
    let v = arranged(s, order(sort));
    let o = ordered(s, sort, opts, view_sort);
    crate::sorting::arranged_keeps_all(s, order(sort));
    assert forall|i: int| 0 <= i < s.len() implies p(#[trigger] o[i]) by {
        let k = if o == v {
            i
        } else {
            v.len() - 1 - i
        };
        assert(o[i] == v[k]);
        assert(v.contains(v[k]));
        assert(s.contains(v[k]));
    }
}

/// The same references again.
fn again<'a>(v: &Vec<&'a TaskView>) -> (r: Vec<&'a TaskView>)
    ensures
        r@ == v@,
{
    let mut out: Vec<&'a TaskView> = Vec::new();
    for i in 0..v.len()
        invariant
            out@ == v@.take(i as int),
    {
        out.push(v[i]);
    }
    assert(v@.take(v@.len() as int) == v@);
    out
}

/// Months, as years and numbers.
pub open spec fn month_pairs(v: Seq<(i32, u32)>) -> Seq<(int, int)> {
    v.map_values(|p: (i32, u32)| (p.0 as int, p.1 as int))
}

fn has_month(v: &Vec<(i32, u32)>, y: i32, m: u32) -> (r: bool)
    ensures
        r == month_pairs(v@).contains((y as int, m as int)),
{
    let ghost k = (y as int, m as int);
    for i in 0..v.len()
        invariant
            k == (y as int, m as int),
            forall|j: int| 0 <= j < i ==> month_pairs(v@)[j] != k,
    {
        if v[i].0 == y && v[i].1 == m {
            assert(month_pairs(v@)[i as int] == k);
            return true;
        }
    }
    false
}

/// The months that tasks are due in, each once, as they first come.
fn list_months(tasks: &Vec<&TaskView>) -> (r: Vec<(i32, u32)>)
    requires
        forall|i: int| 0 <= i < unref(tasks@).len() ==> dated()(#[trigger] unref(tasks@)[i]),
    ensures
        month_pairs(r@) == months_of(unref(tasks@)),
{
    let ghost s = unref(tasks@);
    let mut out: Vec<(i32, u32)> = Vec::new();
    assert(month_pairs(out@) =~= months_of(s.take(0)));
    for i in 0..tasks.len()
        invariant
            s == unref(tasks@),
            forall|i: int| 0 <= i < s.len() ==> dated()(#[trigger] s[i]),
            month_pairs(out@) == months_of(s.take(i as int)),
    {
        proof {
            let u = s.take(i + 1);
            assert(u.drop_last() == s.take(i as int));
            assert(u.last() == s[i as int]);
            assert(dated()(s[i as int]));
        }
        let ghost before = month_pairs(out@);
        let (y, m, _) = due_of(tasks[i]).ymd();
        assert(month_key()(s[i as int]) == (y as int, m as int));
        if !has_month(&out, y, m) {
            out.push((y, m));
            assert(month_pairs(out@) =~= before.push((y as int, m as int)));
        }
    }
    assert(s.take(s.len() as int) == s);
    out
}

/// The tasks that are due in a month.
fn pick_month<'a>(tasks: &Vec<&'a TaskView>, y: i32, m: u32) -> (r: Vec<&'a TaskView>)
    requires
        forall|i: int| 0 <= i < unref(tasks@).len() ==> dated()(#[trigger] unref(tasks@)[i]),
    ensures
        unref(r@) == unref(tasks@).filter(in_month((y as int, m as int))),
{
    let ghost s = unref(tasks@);
    let ghost p = in_month((y as int, m as int));
    let mut out: Vec<&'a TaskView> = Vec::new();
    proof {
        reveal(Seq::filter);
        assert(unref(out@) =~= s.take(0).filter(p));
    }
    for i in 0..tasks.len()
        invariant
            s == unref(tasks@),
            p == in_month((y as int, m as int)),
            forall|i: int| 0 <= i < s.len() ==> dated()(#[trigger] s[i]),
            unref(out@) == s.take(i as int).filter(p),
    {
        let ghost before = unref(out@);
        proof {
            reveal(Seq::filter);
            let u = s.take(i + 1);
            assert(u.drop_last() == s.take(i as int));
            assert(u.last() == s[i as int]);
            assert(dated()(s[i as int]));
        }
        let (a, b, _) = due_of(tasks[i]).ymd();
        if a == y && b == m {
            out.push(tasks[i]);
            assert(unref(out@) =~= before.push(s[i as int]));
        }
    }
    assert(s.take(s.len() as int) == s);
    out
}

/// Every month on the list is that of a task, and every task's is on it, once.
pub(crate) proof fn lemma_months_of(s: Seq<TaskView>)
    ensures
        months_of(s).no_duplicates(),
        forall|i: int| 0 <= i < s.len() ==> months_of(s).contains(month_key()(#[trigger] s[i])),
        forall|k: int|
            0 <= k < months_of(s).len() ==> exists|i: int|
                0 <= i < s.len() && month_key()(s[i]) == #[trigger] months_of(s)[k],
    decreases s.len(),
{
    if s.len() > 0 {
        let t = s.drop_last();
        lemma_months_of(t);
        let b = months_of(t);
        let r = months_of(s);
        let last = month_key()(s.last());
        assert forall|i: int| 0 <= i < s.len() implies r.contains(month_key()(#[trigger] s[i])) by {
            if i < t.len() {
                assert(t[i] == s[i]);
                let k = choose|k: int| 0 <= k < b.len() && b[k] == month_key()(s[i]);
                assert(r[k] == b[k]);
            } else if b.contains(last) {
                assert(r == b);
            } else {
                assert(r[b.len() as int] == last);
            }
        }
        assert forall|k: int| 0 <= k < r.len() implies exists|i: int|
            0 <= i < s.len() && month_key()(s[i]) == #[trigger] r[k] by {
            if k < b.len() {
                assert(r[k] == b[k]);
                let i = choose|i: int| 0 <= i < t.len() && month_key()(t[i]) == b[k];
                assert(s[i] == t[i]);
            } else {
                assert(s[s.len() - 1] == s.last());
            }
        }
    }
}

/// What is in order is what there was.
pub(crate) proof fn lemma_ordered_contains(
    s: Seq<TaskView>,
    sort: Sort,
    opts: OptsView,
    view_sort: Sort,
    t: TaskView,
)
    ensures
        ordered(s, sort, opts, view_sort).contains(t) == s.contains(t),
{
    let v = arranged(s, order(sort));
    let o = ordered(s, sort, opts, view_sort);
    crate::sorting::arranged_keeps_all(s, order(sort));
    assert(v.contains(t) == s.contains(t));
    if o != v {
        if v.contains(t) {
            let i = choose|i: int| 0 <= i < v.len() && v[i] == t;
            assert(o[v.len() - 1 - i] == t);
        }
        if o.contains(t) {
            let i = choose|i: int| 0 <= i < o.len() && o[i] == t;
            assert(v[v.len() - 1 - i] == t);
        }
    }
}

/// A month on the list has tasks.
pub(crate) proof fn lemma_month_has_tasks(
    later: Seq<TaskView>,
    opts: OptsView,
    sort: Sort,
    i: int,
)
    requires
        0 <= i < months_in(later, opts, sort).len(),
    ensures
        later.filter(in_month(months_in(later, opts, sort)[i])).len() > 0,
{
    let o = ordered(later, Sort::Due, opts, sort);
    lemma_months_of(o);
    let k = months_in(later, opts, sort)[i];
    let j = choose|j: int| 0 <= j < o.len() && month_key()(o[j]) == k;
    lemma_ordered_contains(later, Sort::Due, opts, sort, o[j]);
    let n = choose|n: int| 0 <= n < later.len() && later[n] == o[j];
    later.lemma_filter_contains(in_month(k), n);
}

fn add_months<'a>(
    out: &mut Vec<Section<'a>>,
    open: &Vec<&'a TaskView>,
    opts: &ViewOpts,
    sort: Sort,
    today: Date,
)
    requires
        tasks_wf(unref(open@)),
        today.wf(),
        has_room(today.ce as int),
    ensures
        ({
            let later = unref(open@).filter(due_after(today.ce + 6));
            sections(final(out)@) == sections(old(out)@) + months_in(
                later,
                opts@,
                sort,
            ).map_values(month_of_plan(later, opts@, sort, today.ce as int))
        }),
{
    let ghost before = sections(out@);
    let week_end = today.plus(6);
    let picked = pick_due_after(open, week_end);
    let ghost later = unref(picked@);
    proof {
        lemma_filter_wf(unref(open@), due_after(today.ce + 6));
        assert forall|i: int| 0 <= i < later.len() implies dated()(#[trigger] later[i]) by {
            assert(due_after(today.ce + 6)(later[i]));
        }
        lemma_ordered_all(later, Sort::Due, opts@, sort, dated());
    }
    let by_date = put_in_order(again(&picked), Sort::Due, opts, sort);
    let months = list_months(&by_date);
    let ghost keys = months_in(later, opts@, sort);
    let ghost part = month_of_plan(later, opts@, sort, today.ce as int);
    assert(before + keys.take(0).map_values(part) == before);
    for i in 0..months.len()
        invariant
            month_pairs(months@) == keys,
            keys == months_in(later, opts@, sort),
            later == unref(picked@),
            forall|i: int| 0 <= i < later.len() ==> dated()(#[trigger] later[i]),
            today.wf(),
            has_room(today.ce as int),
            part == month_of_plan(later, opts@, sort, today.ce as int),
            sections(out@) == before + keys.take(i as int).map_values(part),
    {
        let (y, m) = months[i];
        let ghost k = keys[i as int];
        assert(k == (y as int, m as int));
        let mine = pick_month(&picked, y, m);
        let ghost chosen = unref(mine@);
        proof {
            lemma_month_has_tasks(later, opts@, sort, i as int);
            assert forall|j: int| 0 <= j < chosen.len() implies dated()(#[trigger] chosen[j]) by {
                later.lemma_filter_contains_rev(in_month(k), chosen[j]);
            }
            lemma_ordered_all(chosen, sort, opts@, sort, dated());
        }
        let tasks = put_in_order(mine, sort, opts, sort);
        assert(dated()(unref(tasks@)[0]));
        let sec = month_section(tasks, today);
        put(out, sec);
        assert(keys.take(i + 1).map_values(part) == keys.take(i as int).map_values(part).push(
            part(k),
        ));
        assert((before + keys.take(i as int).map_values(part)).push(part(k)) == before + keys.take(
            i as int,
        ).map_values(part).push(part(k)));
    }
    assert(keys.take(keys.len() as int) == keys);
}

/// What holds of all tasks holds of all in every run.
proof fn lemma_runs_all<K>(
    s: Seq<TaskView>,
    key: spec_fn(TaskView) -> K,
    p: spec_fn(TaskView) -> bool,
)
    requires
        forall|i: int| 0 <= i < s.len() ==> p(#[trigger] s[i]),
    ensures
        forall|i: int, j: int|
            0 <= i < runs(s, key).len() && 0 <= j < runs(s, key)[i].len() ==> p(
                #[trigger] runs(s, key)[i][j],
            ),
        forall|i: int|
            0 <= i < runs(s, key).len() ==> (#[trigger] runs(s, key)[i]).len() > 0 && p(
                runs(s, key)[i][0],
            ),
    decreases s.len(),
{
    if s.len() > 0 {
        let t = s.drop_last();
        assert forall|i: int| 0 <= i < t.len() implies p(#[trigger] t[i]) by {
            assert(t[i] == s[i]);
        }
        lemma_runs_all(t, key, p);
        let before = runs(t, key);
        let r = runs(s, key);
        assert(p(s[s.len() - 1]));
        assert forall|i: int, j: int| 0 <= i < r.len() && 0 <= j < r[i].len() implies p(
            #[trigger] r[i][j],
        ) by {
            if i < before.len() && j < before[i].len() {
                assert(r[i][j] == before[i][j]);
            }
        }
        runs_cover(s, key);
        assert forall|i: int| 0 <= i < r.len() implies (#[trigger] r[i]).len() > 0 && p(
            r[i][0],
        ) by {
            assert(p(r[i][0]));
        }
    }
}

/// `Today`, `Yesterday`, `Tuesday, Sep 8`, with the year when it isn't this one.
pub fn day_title(d: Date, today: Date) -> (r: String)
    requires
        d.wf(),
        today.wf(),
    ensures
        r@ == day_words(d.ce as int, today.ce as int),
{
    if d.ce == today.ce {
        String::from_str("Today")
    } else if d.ce == today.ce - 1 {
        String::from_str("Yesterday")
    } else if d.ce == today.ce + 1 {
        String::from_str("Tomorrow")
    } else {
        let (y, _, _) = d.ymd();
        let (z, _, _) = today.ymd();
        if y == z {
            d.format("%A, %b %-d")
        } else {
            d.format("%A, %b %-d %Y")
        }
    }
}

pub open spec fn task_fits() -> spec_fn(TaskView) -> bool {
    |t: TaskView| t.task.wf()
}

fn plan_completed<'a>(done: Vec<&'a TaskView>, today: Date, zone: &Zone) -> (r: Vec<Section<'a>>)
    requires
        tasks_wf(unref(done@)),
        today.wf(),
    ensures
        sections(r@) == completed_plan(unref(done@), today.ce as int, zone@),
{
    let ghost s = unref(done@);
    let f = |a: &TaskView, b: &TaskView| -> (r: bool)
        requires
            task_fits()(*a) && task_fits()(*b),
        ensures
            r == (done_key(zone@)(*a) == done_key(zone@)(*b)),
        {
            match (completed_on(&a.task, zone), completed_on(&b.task, zone)) {
                (Some(x), Some(y)) => x.ce == y.ce,
                (None, None) => true,
                _ => false,
            }
        };
    assert forall|i: int| 0 <= i < unref(done@).len() implies task_fits()(
        #[trigger] unref(done@)[i],
    ) by {
        assert(s[i].task.wf());
    }
    let days = cut::<Option<int>, _>(done, &f, Ghost(task_fits()), Ghost(done_key(zone@)));
    let ghost all = runs(s, done_key(zone@));
    let ghost part = |r: Seq<TaskView>| done_part(r, today.ce as int, zone@);
    proof {
        runs_cover(s, done_key(zone@));
        lemma_runs_all(s, done_key(zone@), task_fits());
    }
    let ghost groups = days@;
    let mut out: Vec<Section<'a>> = Vec::new();
    assert(sections(out@) == all.take(0).map_values(part));
    for tasks in it: days
        invariant
            it.seq() == groups,
            unref_runs(groups) == all,
            today.wf(),
            part == (|r: Seq<TaskView>| done_part(r, today.ce as int, zone@)),
            forall|i: int| 0 <= i < all.len() ==> (#[trigger] all[i]).len() > 0,
            forall|i: int| 0 <= i < all.len() ==> task_fits()((#[trigger] all[i])[0]),
            sections(out@) == all.take(it.index()).map_values(part),
    {
        let ghost k = it.index();
        assert(all[k] == unref(tasks@));
        let n = decimal_text(tasks.len() as u64);
        let title = match completed_on(&tasks[0].task, zone) {
            None => String::from_str("Earlier"),
            Some(d) => day_title(d, today),
        };
        put(&mut out, make(Kind::Completed, Some(title), Some(n), tasks, false));
        assert(all.take(k + 1).map_values(part) == all.take(k).map_values(part).push(
            part(all[k]),
        ));
    }
    assert(all.take(all.len() as int) == all);
    out
}

/// A section for every list that has a task.
pub fn by_list<'a>(
    lists: &Vec<&ListView>,
    tasks: &Vec<&'a TaskView>,
    opts: &ViewOpts,
    sort: Sort,
) -> (r: Vec<Section<'a>>)
    requires
        tasks_wf(unref(tasks@)),
    ensures
        sections(r@) == by_list_plan(plain_lists(lists@), unref(tasks@), opts@, sort),
{
    let mut out: Vec<Section<'a>> = Vec::new();
    let ghost all = plain_lists(lists@);
    assert(sections(out@) == by_list_plan(all.take(0), unref(tasks@), opts@, sort));
    for i in 0..lists.len()
        invariant
            all == plain_lists(lists@),
            tasks_wf(unref(tasks@)),
            sections(out@) == by_list_plan(all.take(i as int), unref(tasks@), opts@, sort),
    {
        let l: &ListView = lists[i];
        proof {
            let u = all.take(i + 1);
            assert(u.drop_last() == all.take(i as int));
            assert(u.last() == *l);
        }
        let mine = pick_list(tasks, l.href.as_str());
        if mine.len() > 0 {
            let n = decimal_text(mine.len() as u64);
            let s = put_in_order(mine, sort, opts, sort);
            put(
                &mut out,
                make(Kind::List(l.href.clone()), Some(l.name.clone()), Some(n), s, false),
            );
        }
    }
    assert(all.take(all.len() as int) == all);
    out
}

fn plan_list<'a>(
    open: &Vec<&'a TaskView>,
    done: &Vec<&'a TaskView>,
    opts: &ViewOpts,
    sort: Sort,
    href: &String,
) -> (r: Vec<Section<'a>>)
    requires
        tasks_wf(unref(open@)),
        tasks_wf(unref(done@)),
    ensures
        sections(r@) == list_plan(unref(open@), unref(done@), opts@, sort, href@),
{
    let mut out: Vec<Section<'a>> = Vec::new();
    assert(sections(out@) == Seq::<SectionView>::empty());
    let tasks = put_in_order(pick_list(open, href.as_str()), sort, opts, sort);
    put(&mut out, make(Kind::List(href.clone()), None, None, tasks, true));
    add_finished(&mut out, pick_list(done, href.as_str()), opts);
    out
}

/// One section that is there with no tasks too.
fn only<'a>(kind: Kind, tasks: Vec<&'a TaskView>) -> (r: Vec<Section<'a>>)
    ensures
        sections(r@) == seq![section(kind@, None, None, unref(tasks@), true)],
{
    let mut out: Vec<Section<'a>> = Vec::new();
    assert(sections(out@) == Seq::<SectionView>::empty());
    put(&mut out, make(kind, None, None, tasks, true));
    out
}

/// The tasks that the options let through.
fn let_through<'a>(
    tasks: &Vec<&'a TaskView>,
    opts: &ViewOpts,
    today: Date,
    sunday_first: bool,
) -> (r: Vec<&'a TaskView>)
    requires
        tasks_wf(unref(tasks@)),
        today.wf(),
        has_room(today.ce as int),
    ensures
        unref(r@) == unref(tasks@).filter(shown(opts@, today.ce as int, sunday_first)),
        tasks_wf(unref(r@)),
{
    let f = |t: &TaskView| -> (r: bool)
        requires
            t.task.wf(),
        ensures
            r == shown(opts@, today.ce as int, sunday_first)(*t),
        {
            let level: usize = (t.task.level - 1) as usize;
            opts.priorities[level] && opts.due.keeps(t.task.due_date(), today, sunday_first)
                && !has_text(&opts.hide_lists, t.list.as_str())
        };
    pick(tasks, &f, Ghost(shown(opts@, today.ce as int, sunday_first)))
}

/// What a view shows, top to bottom.
pub fn plan<'a>(nav: &Nav, data: &Data<'a>, opts: &ViewOpts, now: &Now) -> (r: Vec<Section<'a>>)
    requires
        data@.wf(),
        now.wf(),
        has_room(now.day()),
    ensures
        sections(r@) == plan_of(nav@, data@, opts@, now.day(), now.zone@),
{
    plan_picked(nav, &data.picked(), opts, now)
}

/// What a view shows of what was picked, top to bottom.
pub fn plan_picked<'a>(nav: &Nav, data: &Picked<'a>, opts: &ViewOpts, now: &Now) -> (r: Vec<
    Section<'a>,
>)
    requires
        data@.wf(),
        now.wf(),
        has_room(now.day()),
    ensures
        sections(r@) == plan_of(nav@, data@, opts@, now.day(), now.zone@),
{
    let today = now.today();
    let sort = opts.sort_for(nav);
    let open = let_through(&data.open, opts, today, data.sunday_first);
    let done = match &data.completed {
        Some(c) => let_through(c, opts, today, data.sunday_first),
        None => {
            proof {
                reveal(Seq::filter);
            }
            let v: Vec<&'a TaskView> = Vec::new();
            assert(unref(v@) == data@.done.filter(
                shown(opts@, today.ce as int, data.sunday_first),
            ));
            v
        },
    };
    match nav {
        Nav::Today => plan_today(&open, &done, opts, sort, today, &now.zone),
        Nav::Scheduled => {
            let mut out: Vec<Section<'a>> = Vec::new();
            assert(sections(out@) == Seq::<SectionView>::empty());
            let _ = add_overdue(&mut out, &open, opts, sort, today);
            add_week(&mut out, &open, opts, sort, today);
            add_months(&mut out, &open, opts, sort, today);
            out
        },
        Nav::Inbox => match inbox_in(&data.lists) {
            Some(l) => plan_list(&open, &done, opts, sort, &l.href),
            None => {
                let out: Vec<Section<'a>> = Vec::new();
                assert(sections(out@) == Seq::<SectionView>::empty());
                out
            },
        },
        Nav::List(href) => plan_list(&open, &done, opts, sort, href),
        Nav::Tomorrow => {
            let d = today.plus(1);
            only(Kind::Day(d), put_in_order(pick_due_on(&open, d), sort, opts, sort))
        },
        Nav::Anytime => {
            let f = |t: &TaskView| -> (r: bool)
                ensures
                    r == undated()(*t),
                { t.task.due.is_none() };
            by_list(&data.lists, &pick(&open, &f, Ghost(undated())), opts, sort)
        },
        Nav::Repeating => {
            let f = |t: &TaskView| -> (r: bool)
                ensures
                    r == repeats()(*t),
                { t.task.rrule.is_some() };
            only(Kind::Plain, put_in_order(pick(&open, &f, Ghost(repeats())), sort, opts, sort))
        },
        Nav::All => by_list(&data.lists, &open, opts, sort),
        Nav::Completed => plan_completed(done, today, &now.zone),
    }
}

} // verus!
