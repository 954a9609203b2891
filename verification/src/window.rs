//! The window: a view's tasks, one of them open in place. What it shows comes
//! from the daemon, and every change goes back to it. Here is what the window
//! remembers, and what it shows of it.

use vstd::prelude::*;
use vstd::string::*;

use crate::addcard::{Target, TargetView};
use crate::date::Date;
use crate::editor::Editor;
use crate::keyed::{keys, pairs};
use crate::nav::{Nav, NavView, find_list, key_of, list_at, navs};
use crate::plan::{
    DataView, Picked, SectionView, has_room, inbox, inbox_of, plan_of, plan_picked, sections,
};
use crate::prefs::{Prefs, opts_at, plain_lists, sidebar_keys, sidebar_of};
use crate::reorder::place;
use crate::settings::Settings;
use crate::sight::Sight;
use crate::task::{ListView, StatusView, TaskView, When, tasks_wf, unref};
use crate::text::{has_text, same, texts};
use crate::zone::Now;

verus! {

// -- what it remembers ------------------------------------------------------------------------

/// Where the keyboard goes after the next rebuild of the view.
#[derive(Debug, Clone, Copy, PartialEq, Eq, Structural)]
pub enum Refocus {
    /// Where it was.
    Keep,
    /// The cursor's row.
    Row,
    /// The title of the task open in place.
    Editor,
}

/// A checked task on its way out.
#[derive(Debug, Clone, Copy)]
pub enum Completing {
    /// Struck through, waiting out the moment to undo.
    Waiting(u64),
    /// Sent; shown checked until the daemon's data moves on. Holds the due
    /// date it had, to notice a repeating task moving to its next one.
    Sent(Option<When>),
}

/// The last build of the view, in the terms animations compare against.
#[derive(Debug)]
pub struct Built {
    /// `Nav::key`; none before the first build with data.
    pub nav: Option<String>,
    pub completing: Vec<String>,
    pub adding: bool,
    pub selecting: bool,
    /// A task was open in place: the other rows were dimmed.
    pub editing: bool,
}

pub struct Window {
    pub nav: Nav,
    pub lists: Vec<ListView>,
    pub open: Vec<TaskView>,
    pub completed: Option<Vec<TaskView>>,
    pub status: Option<StatusView>,
    pub settings: Option<Settings>,
    pub error: Option<String>,
    pub loaded: bool,
    pub prefs: Prefs,
    pub cursor: Option<String>,
    /// The task open in place.
    pub editing: Option<String>,
    /// What the editor holds of it.
    pub editor: Editor,
    /// Grow the editor into its card once the next rebuild has placed it.
    pub expand: bool,
    /// The open task's card is folding; its row comes back after.
    pub folding: Option<String>,
    pub refocus: Refocus,
    pub adding: Option<Target>,
    /// The add card is folding away.
    pub add_folding: bool,
    pub select_mode: bool,
    /// Each once.
    pub selected: Vec<String>,
    /// Each once.
    pub completing: Vec<(String, Completing)>,
    /// Repeating tasks checked and moved on to their next date, whose date
    /// lights up in the next build. Each once.
    pub rolled: Vec<String>,
    /// What the view was last built with, to tell what is new in the next.
    pub built: Built,
    /// Rebuilds for the daemon's news wait until then, so rows opening or
    /// folding finish on the widgets they started on. In milliseconds.
    pub settle_until: Option<u64>,
    pub serial: u64,
    /// Deleted a moment ago, and held for undo. Each once.
    pub hidden: Vec<String>,
    pub load_generation: u64,
    pub completed_generation: u64,
    pub dirty: bool,
    /// What the view was last built from; none asks for a rebuild.
    pub shown: Option<Sight>,
    /// When `d` was pressed once.
    pub pending_d: Option<u64>,
    pub last_focus_sync: Option<u64>,
    /// The page to sign in on, empty until it is known.
    pub signing_in: Option<String>,
    pub sign_in_error: Option<String>,
}

impl Window {
    /// The completed tasks that were loaded.
    pub open spec fn done(&self) -> Seq<TaskView> {
        match self.completed {
            Some(c) => c@,
            None => Seq::empty(),
        }
    }

    /// What always holds: tasks are well formed; nothing is selected, hidden,
    /// on its way out or rolled twice; nothing is selected out of selecting;
    /// the editor holds the task open in place, and only that one folds.
    pub open spec fn wf(&self) -> bool {
        &&& tasks_wf(self.open@)
        &&& tasks_wf(self.done())
        &&& texts(self.selected@).no_duplicates()
        &&& texts(self.hidden@).no_duplicates()
        &&& texts(self.rolled@).no_duplicates()
        &&& keys(pairs(self.completing@)).no_duplicates()
        &&& self.select_mode || self.selected@.len() == 0
        &&& self.folds_open_task()
        &&& self.edits_open_task()
    }

    pub open spec fn folds_open_task(&self) -> bool {
        self.folding matches Some(f) ==> self.editing matches Some(e) && e@ == f@
    }

    pub open spec fn edits_open_task(&self) -> bool {
        match self.editing {
            Some(e) => self.editor.open matches Some(o) && o.href@ == e@,
            None => self.editor.open is None,
        }
    }

    /// The first task with an address, of the open ones and then the
    /// completed ones.
    pub open spec fn task(&self, href: Seq<char>) -> Option<TaskView> {
        match place(self.open@, href) {
            Some(i) => Some(self.open@[i]),
            None => match place(self.done(), href) {
                Some(i) => Some(self.done()[i]),
                None => None,
            },
        }
    }

    /// An open task has an address.
    pub open spec fn is_open(&self, href: Seq<char>) -> bool {
        place(self.open@, href) is Some
    }

    /// A task has an address.
    pub open spec fn known(&self, href: Seq<char>) -> bool {
        place(self.open@, href) is Some || place(self.done(), href) is Some
    }

    /// How a view is shown.
    pub open spec fn opts(&self, nav: NavView) -> crate::nav::OptsView {
        opts_at(self.prefs.views@, key_of(nav))
    }
}

// -- finding tasks ------------------------------------------------------------------------------

/// Where the first task with an address is.
pub fn find_place(s: &Vec<TaskView>, href: &str) -> (r: Option<usize>)
    ensures
        match r {
            Some(i) => place(s@, href@) == Some(i as int) && i < s@.len() && s@[i as int].href@
                == href@,
            None => place(s@, href@) is None,
        },
{
    let ghost v = s@;
    assert(v.skip(0) == v);
    for i in 0..s.len()
        invariant
            v == s@,
            place(v, href@) == (match place(v.skip(i as int), href@) {
                Some(j) => Some(j + i),
                None => None,
            }),
    {
        let ghost t = v.skip(i as int);
        assert(t[0] == v[i as int]);
        if same(s[i].href.as_str(), href) {
            return Some(i);
        }
        assert(t.skip(1) == v.skip(i + 1));
    }
    assert(v.skip(v.len() as int).len() == 0);
    None
}

pub(crate) proof fn lemma_place(s: Seq<TaskView>, href: Seq<char>)
    ensures
        place(s, href) matches Some(i) ==> 0 <= i < s.len() && s[i].href@ == href && forall|j: int|
            0 <= j < i ==> (#[trigger] s[j]).href@ != href,
        place(s, href) is None ==> forall|j: int|
            0 <= j < s.len() ==> (#[trigger] s[j]).href@ != href,
    decreases s.len(),
{
    if s.len() > 0 {
        let t = s.skip(1);
        lemma_place(t, href);
        assert forall|j: int| 1 <= j < s.len() implies (#[trigger] s[j]) == t[j - 1] by {}
    }
}

impl Window {
    /// The task with an address.
    pub fn find(&self, href: &str) -> (r: Option<&TaskView>)
        ensures
            r == (match self.task(href@) {
                Some(t) => Some(&t),
                None => None,
            }),
            r matches Some(t) ==> t.href@ == href@,
            self.wf() ==> (r matches Some(t) ==> t.task.wf()),
    {
        match find_place(&self.open, href) {
            Some(i) => Some(&self.open[i]),
            None => match &self.completed {
                Some(c) => match find_place(c, href) {
                    Some(i) => Some(&c[i]),
                    None => None,
                },
                None => None,
            },
        }
    }

    /// Whether an open task has an address.
    pub fn has_open(&self, href: &str) -> (r: bool)
        ensures
            r == self.is_open(href@),
    {
        find_place(&self.open, href).is_some()
    }

    /// Whether a task has an address.
    pub fn knows(&self, href: &str) -> (r: bool)
        ensures
            r == self.known(href@),
    {
        if self.has_open(href) {
            return true;
        }
        match &self.completed {
            Some(c) => find_place(c, href).is_some(),
            None => false,
        }
    }

    /// The task that the cursor is on.
    pub fn cursor_task(&self) -> (r: Option<&TaskView>)
        ensures
            r == (match self.cursor {
                Some(c) => match self.task(c@) {
                    Some(t) => Some(&t),
                    None => None,
                },
                None => None,
            }),
            self.wf() ==> (r matches Some(t) ==> t.task.wf()),
    {
        match &self.cursor {
            Some(c) => self.find(c.as_str()),
            None => None,
        }
    }
}

// -- what it shows ------------------------------------------------------------------------------

/// A task that the views are made of: not deleted a moment ago, and not in an
/// archived list, unless it is the list on view.
pub open spec fn on_view(
    hidden: Seq<Seq<char>>,
    archived: Seq<Seq<char>>,
    nav: NavView,
) -> spec_fn(TaskView) -> bool {
    |t: TaskView|
        !hidden.contains(t.href@) && (!archived.contains(t.list@) || nav == NavView::List(t.list@))
}

/// A task not deleted a moment ago.
pub open spec fn not_hidden(hidden: Seq<Seq<char>>) -> spec_fn(TaskView) -> bool {
    |t: TaskView| !hidden.contains(t.href@)
}

/// A list that was put away.
pub open spec fn put_away(archived: Seq<Seq<char>>) -> spec_fn(ListView) -> bool {
    |l: ListView| archived.contains(l.href@)
}

impl Window {
    pub open spec fn shows(&self) -> spec_fn(TaskView) -> bool {
        on_view(texts(self.hidden@), texts(self.prefs.archived@), self.nav@)
    }

    /// What the views are made of: the lists, the sidebar's in its order
    /// first and archived ones after, and the tasks that are shown.
    pub open spec fn data(&self) -> DataView {
        DataView {
            lists: self.prefs.arrangement(self.lists@) + self.lists@.filter(
                put_away(texts(self.prefs.archived@)),
            ),
            open: self.open@.filter(self.shows()),
            done: self.done().filter(self.shows()),
            sunday_first: self.prefs.sunday_first,
        }
    }

    fn pick_shown<'a>(&self, s: &'a Vec<TaskView>) -> (r: Vec<&'a TaskView>)
        requires
            tasks_wf(s@),
        ensures
            unref(r@) == s@.filter(self.shows()),
            tasks_wf(unref(r@)),
    {
        let mut out: Vec<&'a TaskView> = Vec::new();
        let ghost v = s@;
        let ghost p = self.shows();
        proof {
            reveal(Seq::filter);
            assert(unref(out@) =~= v.take(0).filter(p));
        }
        for i in 0..s.len()
            invariant
                v == s@,
                p == self.shows(),
                tasks_wf(v),
                unref(out@) == v.take(i as int).filter(p),
                tasks_wf(unref(out@)),
        {
            let t = &s[i];
            let ghost before = unref(out@);
            proof {
                reveal(Seq::filter);
                assert(v.take(i + 1).drop_last() == v.take(i as int));
                assert(v.take(i + 1).last() == v[i as int]);
            }
            let here: bool = match &self.nav {
                Nav::List(h) => *h == t.list,
                _ => false,
            };
            if !has_text(&self.hidden, t.href.as_str()) && (!self.prefs.is_archived(
                t.list.as_str(),
            ) || here) {
                out.push(t);
                assert(unref(out@) =~= before.push(*t));
            }
        }
        assert(v.take(v.len() as int) == v);
        out
    }

    /// What the views are made of.
    pub fn view_data<'a>(&'a self) -> (r: Picked<'a>)
        requires
            self.wf(),
        ensures
            r@ == self.data(),
            r@.wf(),
    {
        let mut lists: Vec<&'a ListView> = self.prefs.arrange(&self.lists);
        let ghost first = plain_lists(lists@);
        let ghost s = self.lists@;
        let ghost p = put_away(texts(self.prefs.archived@));
        proof {
            reveal(Seq::filter);
            assert(first + s.take(0).filter(p) =~= first);
        }
        for i in 0..self.lists.len()
            invariant
                s == self.lists@,
                p == put_away(texts(self.prefs.archived@)),
                plain_lists(lists@) == first + s.take(i as int).filter(p),
        {
            let ghost before = plain_lists(lists@);
            proof {
                reveal(Seq::filter);
                assert(s.take(i + 1).drop_last() == s.take(i as int));
                assert(s.take(i + 1).last() == s[i as int]);
            }
            if self.prefs.is_archived(self.lists[i].href.as_str()) {
                lists.push(&self.lists[i]);
                assert(plain_lists(lists@) =~= before.push(s[i as int]));
                assert(plain_lists(lists@) =~= first + s.take(i + 1).filter(p));
            }
        }
        assert(s.take(s.len() as int) == s);
        let open = self.pick_shown(&self.open);
        let completed = match &self.completed {
            Some(c) => Some(self.pick_shown(c)),
            None => {
                proof {
                    reveal(Seq::filter);
                    assert(self.done().filter(self.shows()) =~= Seq::<TaskView>::empty());
                }
                None
            },
        };
        Picked { lists, open, completed, sunday_first: self.prefs.sunday_first }
    }

    /// Open tasks, but for those deleted a moment ago.
    pub fn visible_open(&self) -> (r: Vec<&TaskView>)
        requires
            tasks_wf(self.open@),
        ensures
            unref(r@) == self.open@.filter(not_hidden(texts(self.hidden@))),
            tasks_wf(unref(r@)),
    {
        let mut out: Vec<&TaskView> = Vec::new();
        let ghost v = self.open@;
        let ghost p = not_hidden(texts(self.hidden@));
        proof {
            reveal(Seq::filter);
            assert(unref(out@) =~= v.take(0).filter(p));
        }
        for i in 0..self.open.len()
            invariant
                v == self.open@,
                tasks_wf(v),
                p == not_hidden(texts(self.hidden@)),
                unref(out@) == v.take(i as int).filter(p),
                tasks_wf(unref(out@)),
        {
            let t = &self.open[i];
            let ghost before = unref(out@);
            proof {
                reveal(Seq::filter);
                assert(v.take(i + 1).drop_last() == v.take(i as int));
                assert(v.take(i + 1).last() == v[i as int]);
            }
            if !has_text(&self.hidden, t.href.as_str()) {
                out.push(t);
                assert(unref(out@) =~= before.push(*t));
            }
        }
        assert(v.take(v.len() as int) == v);
        out
    }

    /// What the view on screen shows.
    pub open spec fn planned(&self, now: Now) -> Seq<SectionView> {
        plan_of(self.nav@, self.data(), self.opts(self.nav@), now.day(), now.zone@)
    }

    /// Whether a task is on the view.
    pub fn in_view(&self, href: &str, now: &Now) -> (r: bool)
        requires
            self.wf(),
            now.wf(),
            has_room(now.day()),
        ensures
            r == has_task(self.planned(*now), href@),
    {
        let data = self.view_data();
        let opts = self.prefs.view_opts(&self.nav);
        let plan = plan_picked(&self.nav, &data, &opts, now);
        let ghost s = sections(plan@);
        for i in 0..plan.len()
            invariant
                s == sections(plan@),
                s == self.planned(*now),
                forall|k: int| 0 <= k < i ==> !any_with(#[trigger] s[k].tasks, href@),
        {
            let tasks = &plan[i].tasks;
            assert(s[i as int].tasks == unref(tasks@));
            for j in 0..tasks.len()
                invariant
                    s == sections(plan@),
                    s == self.planned(*now),
                    i < plan@.len(),
                    *tasks == plan@[i as int].tasks,
                    s[i as int].tasks == unref(tasks@),
                    forall|k: int| 0 <= k < j ==> (#[trigger] tasks@[k]).href@ != href@,
            {
                if same(tasks[j].href.as_str(), href) {
                    assert(s[i as int].tasks[j as int].href@ == href@);
                    assert(any_with(s[i as int].tasks, href@));
                    return true;
                }
            }
            assert forall|k: int| 0 <= k < s[i as int].tasks.len() implies (
            #[trigger] s[i as int].tasks[k]).href@ != href@ by {
                assert(s[i as int].tasks[k] == *tasks@[k]);
            }
        }
        false
    }

    /// A view that needs the completed tasks.
    pub open spec fn wants_completed(&self) -> bool {
        self.nav@ is Completed || self.opts(self.nav@).show_completed
    }

    /// Whether the view needs the completed tasks.
    pub fn needs_completed(&self) -> (r: bool)
        ensures
            r == self.wants_completed(),
    {
        let done: bool = match self.nav {
            Nav::Completed => true,
            _ => false,
        };
        done || self.prefs.view_opts(&self.nav).show_completed
    }

    /// Whether the view is a list that was archived.
    pub fn nav_archived(&self) -> (r: bool)
        ensures
            r == (self.nav@ matches NavView::List(h) && texts(self.prefs.archived@).contains(h)),
    {
        match &self.nav {
            Nav::List(h) => self.prefs.is_archived(h.as_str()),
            _ => false,
        }
    }

    /// The list a view shows, for a list or the inbox.
    pub open spec fn list_on_view(&self) -> Option<ListView> {
        match self.nav@ {
            NavView::List(h) => list_at(self.lists@, h),
            NavView::Inbox => inbox_of(self.lists@),
            _ => None,
        }
    }

    /// The list a view shows, for a list or the inbox.
    pub fn shown_list(&self) -> (r: Option<&ListView>)
        ensures
            r == (match self.list_on_view() {
                Some(l) => Some(&l),
                None => None,
            }),
    {
        match &self.nav {
            Nav::List(h) => find_list(&self.lists, h.as_str()),
            Nav::Inbox => inbox(&self.lists),
            _ => None,
        }
    }

    /// The views in the order of the sidebar.
    pub open spec fn views(&self) -> Seq<NavView> {
        sidebar_of(sidebar_keys(self.prefs.sidebar)) + self.prefs.arrangement(
            self.lists@,
        ).map_values(|l: ListView| NavView::List(l.href@))
    }

    /// The views in the order of the sidebar.
    pub fn nav_order(&self) -> (r: Vec<Nav>)
        ensures
            navs(r@) == self.views(),
    {
        let mut out = self.prefs.sidebar_views();
        let lists = self.prefs.arrange(&self.lists);
        let ghost first = navs(out@);
        let ghost rest = plain_lists(lists@).map_values(|l: ListView| NavView::List(l.href@));
        assert(first + rest.take(0) =~= first);
        for i in 0..lists.len()
            invariant
                rest == plain_lists(lists@).map_values(|l: ListView| NavView::List(l.href@)),
                navs(out@) == first + rest.take(i as int),
        {
            let ghost before = navs(out@);
            out.push(Nav::List(lists[i].href.clone()));
            assert(navs(out@) =~= before.push(rest[i as int]));
            assert(navs(out@) =~= first + rest.take(i + 1));
        }
        assert(rest.take(rest.len() as int) == rest);
        out
    }

    /// Where this view adds tasks.
    pub open spec fn target(&self, today: int) -> TargetView {
        match self.nav@ {
            NavView::List(h) => TargetView::List(h),
            NavView::Inbox => match inbox_of(self.lists@) {
                Some(l) => TargetView::List(l.href@),
                None => TargetView::Anywhere,
            },
            NavView::Today | NavView::Scheduled => TargetView::Day(Date { ce: today as i32 }),
            NavView::Tomorrow => TargetView::Day(Date { ce: (today + 1) as i32 }),
            _ => TargetView::Anywhere,
        }
    }

    /// Where this view adds tasks.
    pub fn default_target(&self, today: Date) -> (r: Target)
        requires
            today.wf(),
            has_room(today.ce as int),
        ensures
            r@ == self.target(today.ce as int),
    {
        match &self.nav {
            Nav::List(h) => Target::List(h.clone()),
            Nav::Inbox => match inbox(&self.lists) {
                Some(l) => Target::List(l.href.clone()),
                None => Target::Anywhere,
            },
            Nav::Today | Nav::Scheduled => Target::Day(today),
            Nav::Tomorrow => Target::Day(today.plus(1)),
            _ => Target::Anywhere,
        }
    }
}

/// A task with an address is among tasks.
pub open spec fn any_with(s: Seq<TaskView>, href: Seq<char>) -> bool {
    exists|i: int| 0 <= i < s.len() && (#[trigger] s[i]).href@ == href
}

/// A task with an address is in a section.
pub open spec fn has_task(s: Seq<SectionView>, href: Seq<char>) -> bool {
    exists|i: int| 0 <= i < s.len() && any_with(#[trigger] s[i].tasks, href)
}

} // verus!
