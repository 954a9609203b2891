//! What a view is built from. It is built anew when something of it is not as
//! it was.

use vstd::prelude::*;
use vstd::string::*;

use crate::addcard::{Target, TargetView};
use crate::counts::{Counts, count};
use crate::date::Date;
use crate::keyed::{keys, pairs};
use crate::nav::{NavView, OptsView, ViewOpts, key_of};
use crate::plan::{
    DataView, Kind, KindView, Section, SectionView, due_after, due_before, due_on, has_room,
    in_list, inbox_of, plan_picked, repeats, sections, undated,
};
use crate::steps::same_when;
use crate::task::{ListView, Note, Task, TaskView, Trigger, When, unref};
use crate::text::{copy_opt, copy_texts, has_text, text_opt, texts};
use crate::window::Window;
use crate::zone::{Moment, Now};

verus! {

// -- a task -----------------------------------------------------------------------------------

/// All that is known of a task, by its texts.
#[verifier::ext_equal]
pub struct TaskSight {
    pub id: Seq<char>,
    pub href: Seq<char>,
    pub list: Seq<char>,
    pub list_name: Seq<char>,
    pub pending: bool,
    pub uid: Seq<char>,
    pub summary: Seq<char>,
    pub description: Option<Seq<char>>,
    pub open: bool,
    pub completed: Option<Moment>,
    pub level: u8,
    pub due: Option<When>,
    pub start: Option<When>,
    pub rrule: Option<Seq<char>>,
    pub alarms: Seq<Trigger>,
    pub url: Option<Seq<char>>,
    pub source: Option<Seq<char>>,
    pub linked_notes: Seq<(Seq<char>, Seq<char>)>,
    pub sort_order: Option<i64>,
    pub created: Option<Moment>,
    pub modified: Option<Moment>,
}

/// Notes, by where they are and what they are called.
pub open spec fn note_texts(v: Seq<Note>) -> Seq<(Seq<char>, Seq<char>)> {
    v.map_values(|n: Note| (n.link@, n.name@))
}

pub open spec fn task_sight(t: TaskView) -> TaskSight {
    TaskSight {
        id: t.id@,
        href: t.href@,
        list: t.list@,
        list_name: t.list_name@,
        pending: t.pending,
        uid: t.task.uid@,
        summary: t.task.summary@,
        description: text_opt(t.task.description),
        open: t.task.open,
        completed: t.task.completed,
        level: t.task.level,
        due: t.task.due,
        start: t.task.start,
        rrule: text_opt(t.task.rrule),
        alarms: t.task.alarms@,
        url: text_opt(t.task.url),
        source: text_opt(t.task.source),
        linked_notes: note_texts(t.task.linked_notes@),
        sort_order: t.task.sort_order,
        created: t.task.created,
        modified: t.task.modified,
    }
}

fn copy_notes(v: &Vec<Note>) -> (r: Vec<Note>)
    ensures
        r@ == v@,
{
    let mut out: Vec<Note> = Vec::new();
    for i in 0..v.len()
        invariant
            out@ == v@.take(i as int),
    {
        out.push(Note { link: v[i].link.clone(), name: v[i].name.clone() });
    }
    assert(v@.take(v@.len() as int) == v@);
    out
}

fn copy_triggers(v: &Vec<Trigger>) -> (r: Vec<Trigger>)
    ensures
        r@ == v@,
{
    let mut out: Vec<Trigger> = Vec::new();
    for i in 0..v.len()
        invariant
            out@ == v@.take(i as int),
    {
        out.push(v[i]);
    }
    assert(v@.take(v@.len() as int) == v@);
    out
}

fn copy_task(t: &TaskView) -> (r: TaskView)
    ensures
        task_sight(r) == task_sight(*t),
{
    TaskView {
        id: t.id.clone(),
        href: t.href.clone(),
        list: t.list.clone(),
        list_name: t.list_name.clone(),
        pending: t.pending,
        task: Task {
            uid: t.task.uid.clone(),
            summary: t.task.summary.clone(),
            description: copy_opt(&t.task.description),
            open: t.task.open,
            completed: t.task.completed,
            level: t.task.level,
            due: t.task.due,
            start: t.task.start,
            rrule: copy_opt(&t.task.rrule),
            alarms: copy_triggers(&t.task.alarms),
            url: copy_opt(&t.task.url),
            source: copy_opt(&t.task.source),
            linked_notes: copy_notes(&t.task.linked_notes),
            sort_order: t.task.sort_order,
            created: t.task.created,
            modified: t.task.modified,
        },
    }
}

fn same_opt(a: &Option<String>, b: &Option<String>) -> (r: bool)
    ensures
        r == (text_opt(*a) == text_opt(*b)),
{
    match (a, b) {
        (Some(x), Some(y)) => *x == *y,
        (None, None) => true,
        _ => false,
    }
}

fn same_moment(a: Option<Moment>, b: Option<Moment>) -> (r: bool)
    ensures
        r == (a == b),
{
    match (a, b) {
        (Some(x), Some(y)) => x == y,
        (None, None) => true,
        _ => false,
    }
}

fn same_number(a: Option<i64>, b: Option<i64>) -> (r: bool)
    ensures
        r == (a == b),
{
    match (a, b) {
        (Some(x), Some(y)) => x == y,
        (None, None) => true,
        _ => false,
    }
}

fn same_triggers(a: &Vec<Trigger>, b: &Vec<Trigger>) -> (r: bool)
    ensures
        r == (a@ == b@),
{
    if a.len() != b.len() {
        return false;
    }
    for i in 0..a.len()
        invariant
            a@.len() == b@.len(),
            forall|j: int| 0 <= j < i ==> a@[j] == b@[j],
    {
        if a[i] != b[i] {
            return false;
        }
    }
    assert(a@ =~= b@);
    true
}

fn same_notes(a: &Vec<Note>, b: &Vec<Note>) -> (r: bool)
    ensures
        r == (note_texts(a@) == note_texts(b@)),
{
    let ghost s = note_texts(a@);
    let ghost t = note_texts(b@);
    if a.len() != b.len() {
        assert(s.len() != t.len());
        return false;
    }
    for i in 0..a.len()
        invariant
            a@.len() == b@.len(),
            s == note_texts(a@),
            t == note_texts(b@),
            forall|j: int| 0 <= j < i ==> s[j] == t[j],
    {
        if a[i].link != b[i].link || a[i].name != b[i].name {
            assert(s[i as int] != t[i as int]);
            return false;
        }
    }
    assert(s =~= t);
    true
}

/// Whether nothing is known of one task that is not of the other.
fn same_task(a: &TaskView, b: &TaskView) -> (r: bool)
    ensures
        r == (task_sight(*a) == task_sight(*b)),
{
    let (s, t) = (&a.task, &b.task);
    let whose: bool = a.id == b.id && a.href == b.href && a.list == b.list && a.list_name
        == b.list_name && a.pending == b.pending && s.uid == t.uid;
    let words: bool = s.summary == t.summary && same_opt(&s.description, &t.description)
        && same_opt(&s.rrule, &t.rrule) && same_opt(&s.url, &t.url) && same_opt(
        &s.source,
        &t.source,
    ) && same_notes(&s.linked_notes, &t.linked_notes);
    let times: bool = same_moment(s.completed, t.completed) && same_when(&s.due, &t.due)
        && same_when(&s.start, &t.start) && same_moment(s.created, t.created) && same_moment(
        s.modified,
        t.modified,
    ) && same_triggers(&s.alarms, &t.alarms);
    whose && words && times && s.open == t.open && s.level == t.level && same_number(
        s.sort_order,
        t.sort_order,
    )
}

// -- a row and a section ------------------------------------------------------------------------

/// A row of the view. The editor shows its own changes: of the task open in
/// place, only where it sits matters.
#[derive(Debug)]
pub enum Spot {
    Editor(String),
    Task(TaskView),
}

pub enum SpotView {
    Editor(Seq<char>),
    Task(TaskSight),
}

impl View for Spot {
    type V = SpotView;

    open spec fn view(&self) -> SpotView {
        match self {
            Spot::Editor(h) => SpotView::Editor(h@),
            Spot::Task(t) => SpotView::Task(task_sight(*t)),
        }
    }
}

pub open spec fn spots(v: Seq<Spot>) -> Seq<SpotView> {
    v.map_values(|s: Spot| s@)
}

/// How a task sits in a view, given the task open in place.
pub open spec fn seated(editing: Option<Seq<char>>) -> spec_fn(TaskView) -> SpotView {
    |t: TaskView|
        if editing == Some(t.href@) {
            SpotView::Editor(t.href@)
        } else {
            SpotView::Task(task_sight(t))
        }
}

/// A section of the view.
#[derive(Debug)]
pub struct Part {
    pub kind: Kind,
    pub title: Option<String>,
    pub note: Option<String>,
    pub rows: Vec<Spot>,
}

#[verifier::ext_equal]
pub struct PartView {
    pub kind: KindView,
    pub title: Option<Seq<char>>,
    pub note: Option<Seq<char>>,
    pub rows: Seq<SpotView>,
}

impl View for Part {
    type V = PartView;

    open spec fn view(&self) -> PartView {
        PartView {
            kind: self.kind@,
            title: text_opt(self.title),
            note: text_opt(self.note),
            rows: spots(self.rows@),
        }
    }
}

pub open spec fn parts(v: Seq<Part>) -> Seq<PartView> {
    v.map_values(|p: Part| p@)
}

/// What there is to see of a section.
pub open spec fn part_of(editing: Option<Seq<char>>) -> spec_fn(SectionView) -> PartView {
    |s: SectionView|
        PartView {
            kind: s.kind,
            title: s.title,
            note: s.note,
            rows: s.tasks.map_values(seated(editing)),
        }
}

fn same_spots(a: &Vec<Spot>, b: &Vec<Spot>) -> (r: bool)
    ensures
        r == (spots(a@) == spots(b@)),
{
    let ghost s = spots(a@);
    let ghost t = spots(b@);
    if a.len() != b.len() {
        assert(s.len() != t.len());
        return false;
    }
    for i in 0..a.len()
        invariant
            a@.len() == b@.len(),
            s == spots(a@),
            t == spots(b@),
            forall|j: int| 0 <= j < i ==> s[j] == t[j],
    {
        let same: bool = match (&a[i], &b[i]) {
            (Spot::Editor(x), Spot::Editor(y)) => *x == *y,
            (Spot::Task(x), Spot::Task(y)) => same_task(x, y),
            _ => false,
        };
        assert(same == (s[i as int] == t[i as int]));
        if !same {
            return false;
        }
    }
    assert(s =~= t);
    true
}

fn same_kind(a: &Kind, b: &Kind) -> (r: bool)
    ensures
        r == (a@ == b@),
{
    match (a, b) {
        (Kind::Overdue, Kind::Overdue) => true,
        (Kind::Day(x), Kind::Day(y)) => *x == *y,
        (Kind::Range, Kind::Range) => true,
        (Kind::List(x), Kind::List(y)) => *x == *y,
        (Kind::Completed, Kind::Completed) => true,
        (Kind::Plain, Kind::Plain) => true,
        _ => false,
    }
}

fn same_parts(a: &Vec<Part>, b: &Vec<Part>) -> (r: bool)
    ensures
        r == (parts(a@) == parts(b@)),
{
    let ghost s = parts(a@);
    let ghost t = parts(b@);
    if a.len() != b.len() {
        assert(s.len() != t.len());
        return false;
    }
    for i in 0..a.len()
        invariant
            a@.len() == b@.len(),
            s == parts(a@),
            t == parts(b@),
            forall|j: int| 0 <= j < i ==> s[j] == t[j],
    {
        let (x, y) = (&a[i], &b[i]);
        let same: bool = same_kind(&x.kind, &y.kind) && same_opt(&x.title, &y.title) && same_opt(
            &x.note,
            &y.note,
        ) && same_spots(&x.rows, &y.rows);
        assert(same == (s[i as int] == t[i as int]));
        if !same {
            return false;
        }
    }
    assert(s =~= t);
    true
}

fn seat(tasks: &Vec<&TaskView>, editing: &Option<String>) -> (r: Vec<Spot>)
    ensures
        spots(r@) == unref(tasks@).map_values(seated(text_opt(*editing))),
{
    let ghost all = unref(tasks@).map_values(seated(text_opt(*editing)));
    let mut out: Vec<Spot> = Vec::new();
    assert(spots(out@) =~= all.take(0));
    for i in 0..tasks.len()
        invariant
            all == unref(tasks@).map_values(seated(text_opt(*editing))),
            spots(out@) == all.take(i as int),
    {
        let ghost before = spots(out@);
        let t = tasks[i];
        let here: bool = match editing {
            Some(h) => *h == t.href,
            None => false,
        };
        let spot = if here {
            Spot::Editor(t.href.clone())
        } else {
            Spot::Task(copy_task(t))
        };
        assert(spot@ == all[i as int]);
        out.push(spot);
        assert(spots(out@) =~= before.push(spot@));
        assert(spots(out@) =~= all.take(i + 1));
    }
    assert(all.take(all.len() as int) == all);
    out
}

fn take_parts<'a>(v: &Vec<Section<'a>>, editing: &Option<String>) -> (r: Vec<Part>)
    ensures
        parts(r@) == sections(v@).map_values(part_of(text_opt(*editing))),
{
    let ghost all = sections(v@).map_values(part_of(text_opt(*editing)));
    let mut out: Vec<Part> = Vec::new();
    assert(parts(out@) =~= all.take(0));
    for i in 0..v.len()
        invariant
            all == sections(v@).map_values(part_of(text_opt(*editing))),
            parts(out@) == all.take(i as int),
    {
        let ghost before = parts(out@);
        let s = &v[i];
        let part = Part {
            kind: s.kind.clone(),
            title: copy_opt(&s.title),
            note: copy_opt(&s.note),
            rows: seat(&s.tasks, editing),
        };
        assert(part@ == all[i as int]);
        out.push(part);
        assert(parts(out@) =~= before.push(part@));
        assert(parts(out@) =~= all.take(i + 1));
    }
    assert(all.take(all.len() as int) == all);
    out
}

// -- the view -----------------------------------------------------------------------------------

/// A list, as far as a view shows it.
#[derive(Debug)]
pub struct Named {
    pub href: String,
    pub name: String,
    pub color: Option<String>,
}

pub open spec fn named(v: Seq<Named>) -> Seq<(Seq<char>, Seq<char>, Option<Seq<char>>)> {
    v.map_values(|n: Named| (n.href@, n.name@, text_opt(n.color)))
}

pub open spec fn names(v: Seq<ListView>) -> Seq<(Seq<char>, Seq<char>, Option<Seq<char>>)> {
    v.map_values(|l: ListView| (l.href@, l.name@, text_opt(l.color)))
}

/// All that a view is built from.
#[derive(Debug)]
pub struct Sight {
    /// `Nav::key`.
    pub nav: String,
    pub day: Date,
    pub opts: ViewOpts,
    pub adding: Option<Target>,
    pub selecting: bool,
    pub editing: Option<String>,
    pub selected: Vec<String>,
    pub completing: Vec<String>,
    pub archived: Vec<String>,
    pub list_order: Vec<String>,
    pub lists_by_name: bool,
    pub sunday_first: bool,
    pub lists: Vec<Named>,
    /// What the sidebar counts for the view.
    pub count: Option<usize>,
    pub parts: Vec<Part>,
}

/// What there is to see. What is selected, and what is on its way out, has no
/// order.
#[verifier::ext_equal]
pub struct SightView {
    pub nav: Seq<char>,
    pub day: int,
    pub opts: OptsView,
    pub adding: Option<TargetView>,
    pub selecting: bool,
    pub editing: Option<Seq<char>>,
    pub selected: Set<Seq<char>>,
    pub completing: Set<Seq<char>>,
    pub archived: Seq<Seq<char>>,
    pub list_order: Seq<Seq<char>>,
    pub lists_by_name: bool,
    pub sunday_first: bool,
    pub lists: Seq<(Seq<char>, Seq<char>, Option<Seq<char>>)>,
    pub count: Option<nat>,
    pub parts: Seq<PartView>,
}

pub open spec fn target_opt(t: Option<Target>) -> Option<TargetView> {
    match t {
        Some(t) => Some(t@),
        None => None,
    }
}

impl View for Sight {
    type V = SightView;

    open spec fn view(&self) -> SightView {
        SightView {
            nav: self.nav@,
            day: self.day.ce as int,
            opts: self.opts@,
            adding: target_opt(self.adding),
            selecting: self.selecting,
            editing: text_opt(self.editing),
            selected: texts(self.selected@).to_set(),
            completing: texts(self.completing@).to_set(),
            archived: texts(self.archived@),
            list_order: texts(self.list_order@),
            lists_by_name: self.lists_by_name,
            sunday_first: self.sunday_first,
            lists: named(self.lists@),
            count: match self.count {
                Some(n) => Some(n as nat),
                None => None,
            },
            parts: parts(self.parts@),
        }
    }
}

/// What the sidebar counts for a view.
pub open spec fn shown_count(nav: NavView, data: DataView, today: int) -> Option<nat> {
    match nav {
        NavView::Inbox => Some(
            match inbox_of(data.lists) {
                Some(l) => count(data.open, in_list(l.href@)),
                None => 0,
            },
        ),
        NavView::Today => Some(
            count(data.open, due_before(today)) + count(data.open, due_on(today)),
        ),
        NavView::Scheduled => Some(count(data.open, due_after(today))),
        NavView::Completed => None,
        NavView::Tomorrow => Some(count(data.open, due_on(today + 1))),
        NavView::Anytime => Some(count(data.open, undated())),
        NavView::Repeating => Some(count(data.open, repeats())),
        NavView::All => Some(data.open.len()),
        NavView::List(href) => Some(count(data.open, in_list(href))),
    }
}

/// What there is to see in a window.
pub open spec fn sight_of(w: Window, now: Now) -> SightView {
    SightView {
        nav: key_of(w.nav@),
        day: now.day(),
        opts: w.opts(w.nav@),
        adding: target_opt(w.adding),
        selecting: w.select_mode,
        editing: text_opt(w.editing),
        selected: texts(w.selected@).to_set(),
        completing: keys(pairs(w.completing@)).to_set(),
        archived: texts(w.prefs.archived@),
        list_order: texts(w.prefs.list_order@),
        lists_by_name: w.prefs.lists_by_name,
        sunday_first: w.prefs.sunday_first,
        lists: names(w.lists@),
        count: shown_count(w.nav@, w.data(), now.day()),
        parts: w.planned(now).map_values(part_of(text_opt(w.editing))),
    }
}

fn same_list(a: &Vec<String>, b: &Vec<String>) -> (r: bool)
    ensures
        r == (texts(a@) == texts(b@)),
{
    let ghost s = texts(a@);
    let ghost t = texts(b@);
    if a.len() != b.len() {
        assert(s.len() != t.len());
        return false;
    }
    for i in 0..a.len()
        invariant
            a@.len() == b@.len(),
            s == texts(a@),
            t == texts(b@),
            forall|j: int| 0 <= j < i ==> s[j] == t[j],
    {
        if a[i] != b[i] {
            assert(s[i as int] != t[i as int]);
            return false;
        }
    }
    assert(s =~= t);
    true
}

/// Whether everything of one list is in another.
fn all_in(a: &Vec<String>, b: &Vec<String>) -> (r: bool)
    ensures
        r == texts(a@).to_set().subset_of(texts(b@).to_set()),
{
    let ghost s = texts(a@);
    let ghost t = texts(b@);
    for i in 0..a.len()
        invariant
            s == texts(a@),
            t == texts(b@),
            forall|j: int| 0 <= j < i ==> t.contains(#[trigger] s[j]),
    {
        if !has_text(b, a[i].as_str()) {
            assert(s.to_set().contains(s[i as int]));
            assert(!t.to_set().contains(s[i as int]));
            return false;
        }
        assert(s[i as int] == a@[i as int]@);
    }
    assert forall|x: Seq<char>| s.to_set().contains(x) implies t.to_set().contains(x) by {
        let j = choose|j: int| 0 <= j < s.len() && s[j] == x;
        assert(t.contains(s[j]));
    }
    true
}

fn same_set(a: &Vec<String>, b: &Vec<String>) -> (r: bool)
    ensures
        r == (texts(a@).to_set() == texts(b@).to_set()),
{
    let r: bool = all_in(a, b) && all_in(b, a);
    proof {
        if r {
            assert(texts(a@).to_set() =~= texts(b@).to_set());
        }
    }
    r
}

fn same_names(a: &Vec<Named>, b: &Vec<Named>) -> (r: bool)
    ensures
        r == (named(a@) == named(b@)),
{
    let ghost s = named(a@);
    let ghost t = named(b@);
    if a.len() != b.len() {
        assert(s.len() != t.len());
        return false;
    }
    for i in 0..a.len()
        invariant
            a@.len() == b@.len(),
            s == named(a@),
            t == named(b@),
            forall|j: int| 0 <= j < i ==> s[j] == t[j],
    {
        let same: bool = a[i].href == b[i].href && a[i].name == b[i].name && same_opt(
            &a[i].color,
            &b[i].color,
        );
        assert(same == (s[i as int] == t[i as int]));
        if !same {
            return false;
        }
    }
    assert(s =~= t);
    true
}

fn same_opts(a: &ViewOpts, b: &ViewOpts) -> (r: bool)
    ensures
        r == (a@ == b@),
{
    let sort: bool = match (a.sort, b.sort) {
        (Some(x), Some(y)) => x == y,
        (None, None) => true,
        _ => false,
    };
    let (p, q) = (&a.priorities, &b.priorities);
    let levels: bool = p[0] == q[0] && p[1] == q[1] && p[2] == q[2] && p[3] == q[3];
    let lists = same_list(&a.hide_lists, &b.hide_lists);
    proof {
        if levels {
            assert(p@ =~= q@);
        }
    }
    sort && levels && lists && a.descending == b.descending && a.show_completed
        == b.show_completed && a.due == b.due
}

fn same_count(a: Option<usize>, b: Option<usize>) -> (r: bool)
    ensures
        r == (a == b),
{
    match (a, b) {
        (Some(x), Some(y)) => x == y,
        (None, None) => true,
        _ => false,
    }
}

impl Sight {
    /// Whether there is the same to see.
    pub fn is(&self, other: &Sight) -> (r: bool)
        ensures
            r == (self@ == other@),
    {
        let adding: bool = match (&self.adding, &other.adding) {
            (Some(a), Some(b)) => a.is(b),
            (None, None) => true,
            _ => false,
        };
        let view: bool = self.nav == other.nav && self.day == other.day && same_opts(
            &self.opts,
            &other.opts,
        ) && same_count(self.count, other.count) && same_parts(&self.parts, &other.parts);
        let state: bool = adding && self.selecting == other.selecting && same_opt(
            &self.editing,
            &other.editing,
        ) && same_set(&self.selected, &other.selected) && same_set(
            &self.completing,
            &other.completing,
        );
        let lists: bool = same_list(&self.archived, &other.archived) && same_list(
            &self.list_order,
            &other.list_order,
        ) && self.lists_by_name == other.lists_by_name && self.sunday_first == other.sunday_first
            && same_names(&self.lists, &other.lists);
        view && state && lists
    }
}

fn name_lists(v: &Vec<ListView>) -> (r: Vec<Named>)
    ensures
        named(r@) == names(v@),
{
    let ghost all = names(v@);
    let mut out: Vec<Named> = Vec::new();
    assert(named(out@) =~= all.take(0));
    for i in 0..v.len()
        invariant
            all == names(v@),
            named(out@) == all.take(i as int),
    {
        let ghost before = named(out@);
        let n = Named {
            href: v[i].href.clone(),
            name: v[i].name.clone(),
            color: copy_opt(&v[i].color),
        };
        out.push(n);
        assert(named(out@) =~= before.push(all[i as int]));
        assert(named(out@) =~= all.take(i + 1));
    }
    assert(all.take(all.len() as int) == all);
    out
}

impl Window {
    /// What there is to see.
    pub fn sight(&self, now: &Now) -> (r: Sight)
        requires
            self.wf(),
            now.wf(),
            has_room(now.day()),
        ensures
            r@ == sight_of(*self, *now),
    {
        let data = self.view_data();
        let opts = self.prefs.view_opts(&self.nav);
        let plan = plan_picked(&self.nav, &data, &opts, now);
        let counts = Counts::picked(&data, now);
        let adding: Option<Target> = match &self.adding {
            Some(t) => Some(t.clone()),
            None => None,
        };
        Sight {
            nav: self.nav.key(),
            day: now.today(),
            opts,
            adding,
            selecting: self.select_mode,
            editing: copy_opt(&self.editing),
            selected: copy_texts(&self.selected),
            completing: self.going(),
            archived: copy_texts(&self.prefs.archived),
            list_order: copy_texts(&self.prefs.list_order),
            lists_by_name: self.prefs.lists_by_name,
            sunday_first: self.prefs.sunday_first,
            lists: name_lists(&self.lists),
            count: counts.of(&self.nav),
            parts: take_parts(&plan, &self.editing),
        }
    }
}

// -- what holds of it ---------------------------------------------------------------------------

/// The addresses of the rows of a section.
pub open spec fn row_address(r: SpotView) -> Seq<char> {
    match r {
        SpotView::Editor(h) => h,
        SpotView::Task(t) => t.href,
    }
}

/// Two windows with the same to see show the same view, on the same day, in
/// the same way, and in it the same sections, with the same tasks in them: at
/// the same addresses, and but for the one open in place alike in all that is
/// known of them.
pub proof fn same_sight_same_view(a: Window, b: Window, x: Now, y: Now, i: int, j: int)
    requires
        sight_of(a, x) == sight_of(b, y),
        0 <= i < a.planned(x).len(),
        0 <= j < a.planned(x)[i].tasks.len(),
    ensures
        a.nav@ == b.nav@,
        x.day() == y.day(),
        a.opts(a.nav@) == b.opts(b.nav@),
        a.planned(x).len() == b.planned(y).len(),
        a.planned(x)[i].kind == b.planned(y)[i].kind,
        a.planned(x)[i].title == b.planned(y)[i].title,
        a.planned(x)[i].note == b.planned(y)[i].note,
        a.planned(x)[i].tasks.len() == b.planned(y)[i].tasks.len(),
        ({
            let t = a.planned(x)[i].tasks[j];
            let u = b.planned(y)[i].tasks[j];
            &&& t.href@ == u.href@
            &&& text_opt(a.editing) != Some(t.href@) ==> task_sight(t) == task_sight(u)
        }),
{
    crate::nav::keys_are_distinct(a.nav@, b.nav@);
    let e = text_opt(a.editing);
    let p = a.planned(x).map_values(part_of(e));
    let q = b.planned(y).map_values(part_of(e));
    assert(p == q);
    assert(p.len() == a.planned(x).len() && q.len() == b.planned(y).len());
    assert(p[i] == part_of(e)(a.planned(x)[i]) && q[i] == part_of(e)(b.planned(y)[i]));
    let m = a.planned(x)[i].tasks.map_values(seated(e));
    let n = b.planned(y)[i].tasks.map_values(seated(e));
    assert(p[i].rows == m && q[i].rows == n);
    assert(m.len() == n.len());
    assert(m[j] == seated(e)(a.planned(x)[i].tasks[j]));
    assert(n[j] == seated(e)(b.planned(y)[i].tasks[j]));
    assert(row_address(m[j]) == a.planned(x)[i].tasks[j].href@);
    assert(row_address(n[j]) == b.planned(y)[i].tasks[j].href@);
}

} // verus!
