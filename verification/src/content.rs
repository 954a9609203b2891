//! The column of tasks for a view: a big title, then sections with a header
//! and a rule, their rows, and a way to add a task where it belongs.

use vstd::prelude::*;
use vstd::string::*;

use crate::addcard::{Target, TargetView};
use crate::change::{Change, SetDue, moved_to, no_change};
use crate::date::{Date, written};
use crate::editor::Edit;
use crate::nav::{Nav, NavView};
use crate::number::{decimal, decimal_text};
use crate::plan::{Kind, KindView, Section, SectionView, sections};
use crate::task::{TaskView, tasks_wf, unref};
use crate::text::{glue, text_opt};
use crate::zone::Zone;

verus! {

// -- where tasks go ---------------------------------------------------------------------

/// Where adding in a section puts the task.
pub open spec fn target_of(kind: KindView) -> Option<TargetView> {
    match kind {
        KindView::Day(d) => Some(TargetView::Day(d)),
        KindView::List(h) => Some(TargetView::List(h)),
        _ => None,
    }
}

pub open spec fn target_opt(t: Option<Target>) -> Option<TargetView> {
    match t {
        Some(x) => Some(x@),
        None => None,
    }
}

/// Where adding in a section puts the task.
pub fn section_target(kind: &Kind) -> (r: Option<Target>)
    ensures
        target_opt(r) == target_of(kind@),
{
    match kind {
        Kind::Day(d) => Some(Target::Day(*d)),
        Kind::List(h) => Some(Target::List(h.clone())),
        _ => None,
    }
}

/// What a section's header has besides its title.
#[derive(Debug)]
pub enum Header {
    /// A new date for all of it at once.
    Reschedule,
    /// A way to add a task there.
    Add(Target),
    Nothing,
}

/// What a section's header has besides its title: one date for everything
/// overdue, elsewhere a way to add a task where it belongs.
pub fn header(kind: &Kind) -> (r: Header)
    ensures
        match r {
            Header::Reschedule => kind@ is Overdue,
            Header::Add(t) => target_of(kind@) == Some(t@),
            Header::Nothing => !(kind@ is Overdue) && target_of(kind@) is None,
        },
{
    match kind {
        Kind::Overdue => Header::Reschedule,
        _ => match section_target(kind) {
            Some(t) => Header::Add(t),
            None => Header::Nothing,
        },
    }
}

/// Whether a section's title is the number of a day: in Scheduled, whose week
/// goes day by day.
pub fn is_day_number(nav: &Nav, kind: &Kind) -> (r: bool)
    ensures
        r == (nav@ is Scheduled && kind@ is Day),
{
    match (nav, kind) {
        (Nav::Scheduled, Kind::Day(_)) => true,
        _ => false,
    }
}

/// Whether a view with nothing in it offers to add a task: Completed doesn't.
pub fn offers_add(nav: &Nav) -> (r: bool)
    ensures
        r == !(nav@ is Completed),
{
    match nav {
        Nav::Completed => false,
        _ => true,
    }
}

// -- the column -------------------------------------------------------------------------

/// A part of the column, top to bottom.
#[derive(Debug)]
pub enum Block {
    /// A section, by its place among the sections.
    Section(usize),
    /// The card that adds a task.
    Card,
    /// A button that opens the card.
    AddButton(Target),
    /// What is said when there are no tasks.
    Empty,
}

pub enum BlockView {
    Section(int),
    Card,
    AddButton(TargetView),
    Empty,
}

impl View for Block {
    type V = BlockView;

    open spec fn view(&self) -> BlockView {
        match self {
            Block::Section(i) => BlockView::Section(*i as int),
            Block::Card => BlockView::Card,
            Block::AddButton(t) => BlockView::AddButton(t@),
            Block::Empty => BlockView::Empty,
        }
    }
}

pub open spec fn blocks(v: Seq<Block>) -> Seq<BlockView> {
    v.map_values(|b: Block| b@)
}

/// Some section has a task.
pub open spec fn any_task(s: Seq<SectionView>) -> bool {
    exists|i: int| 0 <= i < s.len() && (#[trigger] s[i]).tasks.len() > 0
}

/// What the section at `i` puts in the column: nothing when it is empty and
/// not kept; the card when tasks are added there; else a button under a
/// section without a title, once there is any task.
pub open spec fn section_blocks(
    s: Seq<SectionView>,
    i: int,
    adding: Option<TargetView>,
) -> Seq<BlockView> {
    let target = target_of(s[i].kind);
    if s[i].tasks.len() == 0 && !s[i].keep {
        Seq::empty()
    } else if target is Some && target == adding {
        seq![BlockView::Section(i), BlockView::Card]
    } else if target is Some && s[i].title is None && any_task(s) {
        seq![BlockView::Section(i), BlockView::AddButton(target->0)]
    } else {
        seq![BlockView::Section(i)]
    }
}

pub open spec fn blocks_to(s: Seq<SectionView>, n: int, adding: Option<TargetView>) -> Seq<BlockView>
    decreases n,
{
    if n <= 0 {
        Seq::empty()
    } else {
        blocks_to(s, n - 1, adding) + section_blocks(s, n - 1, adding)
    }
}

/// The card has a place among the sections.
pub open spec fn card_placed(s: Seq<SectionView>, n: int, adding: Option<TargetView>) -> bool {
    exists|i: int|
        0 <= i < n && #[trigger] target_of(s[i].kind) is Some && target_of(s[i].kind) == adding && (
        s[i].tasks.len() > 0 || s[i].keep)
}

/// The column: the sections, the card at the end when it has no place among
/// them, and what is said when there are no tasks.
pub open spec fn column_of(s: Seq<SectionView>, adding: Option<TargetView>) -> Seq<BlockView> {
    blocks_to(s, s.len() as int, adding) + (if adding is Some && !card_placed(
        s,
        s.len() as int,
        adding,
    ) {
        seq![BlockView::Card]
    } else {
        Seq::empty()
    }) + (if !any_task(s) && adding is None {
        seq![BlockView::Empty]
    } else {
        Seq::empty()
    })
}

fn has_tasks(v: &Vec<Section>) -> (r: bool)
    ensures
        r == any_task(sections(v@)),
{
    let ghost s = sections(v@);
    for i in 0..v.len()
        invariant
            s == sections(v@),
            forall|j: int| 0 <= j < i ==> (#[trigger] s[j]).tasks.len() == 0,
    {
        assert(s[i as int] == v@[i as int]@);
        if v[i].tasks.len() > 0 {
            return true;
        }
    }
    false
}

fn put(out: &mut Vec<Block>, b: Block)
    ensures
        blocks(final(out)@) == blocks(old(out)@).push(b@),
{
    out.push(b);
    assert(blocks(out@) =~= blocks(old(out)@).push(b@));
}

/// The column of a view, top to bottom.
pub fn column(v: &Vec<Section>, adding: &Option<Target>) -> (r: Vec<Block>)
    ensures
        blocks(r@) == column_of(sections(v@), target_opt(*adding)),
{
    let ghost s = sections(v@);
    let ghost a = target_opt(*adding);
    let any = has_tasks(v);
    let mut placed = false;
    let mut out: Vec<Block> = Vec::new();
    assert(blocks(out@) == Seq::<BlockView>::empty());
    for i in 0..v.len()
        invariant
            s == sections(v@),
            a == target_opt(*adding),
            any == any_task(s),
            placed == card_placed(s, i as int, a),
            blocks(out@) == blocks_to(s, i as int, a),
    {
        let sec = &v[i];
        assert(s[i as int] == sec@);
        let ghost before = blocks(out@);
        if sec.tasks.len() > 0 || sec.keep {
            let target = section_target(&sec.kind);
            let here: bool = match (&target, adding) {
                (Some(x), Some(y)) => x.is(y),
                _ => false,
            };
            put(&mut out, Block::Section(i));
            if here {
                put(&mut out, Block::Card);
                placed = true;
            } else {
                match target {
                    Some(t) => {
                        if sec.title.is_none() && any {
                            put(&mut out, Block::AddButton(t));
                        }
                    },
                    None => {},
                }
            }
        }
        assert(blocks(out@) =~= before + section_blocks(s, i as int, a));
        proof {
            lemma_card_step(s, i as int, a);
        }
    }
    let ghost b1 = blocks(out@);
    if !placed && adding.is_some() {
        put(&mut out, Block::Card);
        assert(blocks(out@) =~= b1 + seq![BlockView::Card]);
    } else {
        assert(b1 + Seq::<BlockView>::empty() == b1);
    }
    let ghost b2 = blocks(out@);
    if !any && adding.is_none() {
        put(&mut out, Block::Empty);
        assert(blocks(out@) =~= b2 + seq![BlockView::Empty]);
    } else {
        assert(b2 + Seq::<BlockView>::empty() == b2);
    }
    out
}

proof fn lemma_card_step(s: Seq<SectionView>, n: int, adding: Option<TargetView>)
    requires
        0 <= n < s.len(),
    ensures
        card_placed(s, n + 1, adding) == (card_placed(s, n, adding) || (target_of(s[n].kind) is Some
            && target_of(s[n].kind) == adding && (s[n].tasks.len() > 0 || s[n].keep))),
{
    if card_placed(s, n, adding) {
        let i = choose|i: int|
            0 <= i < n && #[trigger] target_of(s[i].kind) is Some && target_of(s[i].kind) == adding
                && (s[i].tasks.len() > 0 || s[i].keep);
        assert(target_of(s[i].kind) is Some);
    }
    assert(target_of(s[n].kind) == target_of(s[n].kind));
}

// -- the title ----------------------------------------------------------------------------

/// How many open tasks there are in sections.
pub open spec fn open_in(s: Seq<SectionView>) -> nat
    decreases s.len(),
{
    if s.len() == 0 {
        0
    } else {
        open_in(s.drop_last()) + (if s.last().kind is Completed {
            0nat
        } else {
            s.last().tasks.len()
        })
    }
}

/// How many open tasks there are in sections.
pub fn count_open(v: &Vec<Section>) -> (r: usize)
    requires
        open_in(sections(v@)) <= usize::MAX,
    ensures
        r == open_in(sections(v@)),
{
    let ghost s = sections(v@);
    let mut n: usize = 0;
    for i in 0..v.len()
        invariant
            s == sections(v@),
            n == open_in(s.take(i as int)),
            open_in(s) <= usize::MAX,
    {
        proof {
            assert(s.take(i + 1).drop_last() == s.take(i as int));
            assert(s.take(i + 1).last() == v@[i as int]@);
            lemma_open_grows(s, i + 1);
        }
        match v[i].kind {
            Kind::Completed => {},
            _ => {
                n += v[i].tasks.len();
            },
        }
    }
    assert(s.take(s.len() as int) == s);
    n
}

proof fn lemma_open_grows(s: Seq<SectionView>, i: int)
    requires
        0 <= i <= s.len(),
    ensures
        open_in(s.take(i)) <= open_in(s),
    decreases s.len(),
{
    if i < s.len() {
        lemma_open_grows(s.drop_last(), i);
        assert(s.drop_last().take(i) == s.take(i));
    } else {
        assert(s.take(i) == s);
    }
}

/// How many tasks, in words.
pub open spec fn count_text(n: nat) -> Seq<char> {
    if n == 0 {
        "Nothing to do"@
    } else if n == 1 {
        "1 task"@
    } else {
        decimal(n) + " tasks"@
    }
}

/// Under the title: the date for Today, nothing for Completed, and for the
/// rest how many open tasks they show.
pub open spec fn subtitle_of(nav: NavView, open: nat, today: int, archived: bool) -> Option<
    Seq<char>,
> {
    let s = match nav {
        NavView::Today => Some(written(today, "%A, %B %-d"@)),
        NavView::Completed => None,
        _ => Some(count_text(open)),
    };
    match s {
        Some(t) => Some(
            if archived {
                t + " · Archived"@
            } else {
                t
            },
        ),
        None => None,
    }
}

/// Under the title: the date, or how many open tasks it shows.
pub fn subtitle(nav: &Nav, open: usize, today: Date, archived: bool) -> (r: Option<String>)
    requires
        today.wf(),
    ensures
        text_opt(r) == subtitle_of(nav@, open as nat, today.ce as int, archived),
{
    let s: String = match nav {
        Nav::Today => today.format("%A, %B %-d"),
        Nav::Completed => {
            return None;
        },
        _ => if open == 0 {
            String::from_str("Nothing to do")
        } else if open == 1 {
            String::from_str("1 task")
        } else {
            glue(decimal_text(open as u64).as_str(), " tasks")
        },
    };
    Some(
        if archived {
            glue(s.as_str(), " · Archived")
        } else {
            s
        },
    )
}

// -- rows -----------------------------------------------------------------------------------

/// Whether rows name their list: not where the view or the section is one.
pub fn shows_list(nav: &Nav, kind: &Kind) -> (r: bool)
    ensures
        r == (!(nav@ is Inbox || nav@ is List) && !(kind@ is List)),
{
    !nav.is_list() && match kind {
        Kind::List(_) => false,
        _ => true,
    }
}

/// Whether dragging a row reorders the section: a list in its own order.
pub fn reorders(custom_order: bool, kind: &Kind) -> (r: bool)
    ensures
        r == (custom_order && kind@ is List),
{
    custom_order && match kind {
        Kind::List(_) => true,
        _ => false,
    }
}

/// One date for everything overdue, times kept; without one, no repeats
/// either.
pub open spec fn rescheduled(t: TaskView, date: Option<Date>, zone: Seq<char>) -> Change {
    match date {
        Some(d) => Change { due: Some(SetDue::Move(moved_to(t.task.due, d, zone))), ..no_change() },
        None => Change { due: Some(SetDue::Clear), rrule: Some(None), ..no_change() },
    }
}

/// One date for everything overdue, times kept.
pub fn reschedule(tasks: &Vec<&TaskView>, date: Option<Date>, zone: &Zone) -> (r: Vec<Edit>)
    requires
        tasks_wf(unref(tasks@)),
    ensures
        r@.len() == tasks@.len(),
        forall|i: int|
            0 <= i < r@.len() ==> (#[trigger] r@[i]).href == tasks@[i].href && r@[i].change
                == rescheduled(*tasks@[i], date, zone@),
{
    let mut out: Vec<Edit> = Vec::new();
    for i in 0..tasks.len()
        invariant
            tasks_wf(unref(tasks@)),
            out@.len() == i,
            forall|j: int|
                0 <= j < i ==> (#[trigger] out@[j]).href == tasks@[j].href && out@[j].change
                    == rescheduled(*tasks@[j], date, zone@),
    {
        let t: &TaskView = tasks[i];
        assert(unref(tasks@)[i as int] == *t);
        assert(unref(tasks@)[i as int].task.wf());
        let change = match date {
            Some(d) => Change::to_day(t, d, zone),
            None => Change::no_date(),
        };
        out.push(Edit { href: t.href.clone(), change });
    }
    out
}

/// What is said when a view has no tasks: an icon, a title, and a text.
pub fn empty_words(nav: &Nav) -> (r: (&'static str, &'static str, &'static str))
    ensures
        (r.0@, r.1@, r.2@) == (match nav@ {
            NavView::Today => (
                "star-outline-thick-symbolic"@,
                "All clear"@,
                "Nothing is due today. Press a to add a task."@,
            ),
            NavView::Completed => (
                "check-round-outline-symbolic"@,
                "Nothing completed yet"@,
                "Completed tasks show up here."@,
            ),
            NavView::Tomorrow => (
                "today-calendar-symbolic"@,
                "Nothing tomorrow"@,
                "Press a to add a task for tomorrow."@,
            ),
            NavView::Repeating => (
                "arrow-circular-top-right-symbolic"@,
                "No repeating tasks"@,
                "Give a task a repeat, like every monday."@,
            ),
            _ => (
                "check-round-outline-whole-symbolic"@,
                "Add some tasks"@,
                "Press a to add a task."@,
            ),
        }),
{
    match nav {
        Nav::Today => (
            "star-outline-thick-symbolic",
            "All clear",
            "Nothing is due today. Press a to add a task.",
        ),
        Nav::Completed => (
            "check-round-outline-symbolic",
            "Nothing completed yet",
            "Completed tasks show up here.",
        ),
        Nav::Tomorrow => (
            "today-calendar-symbolic",
            "Nothing tomorrow",
            "Press a to add a task for tomorrow.",
        ),
        Nav::Repeating => (
            "arrow-circular-top-right-symbolic",
            "No repeating tasks",
            "Give a task a repeat, like every monday.",
        ),
        _ => (
            "check-round-outline-whole-symbolic",
            "Add some tasks",
            "Press a to add a task.",
        ),
    }
}

} // verus!
