//! Drawing the window: which page it is on, whether the view is built anew
//! now or later, and what moves when it is.

use vstd::prelude::*;
use vstd::string::*;

use crate::batch::with_all;
use crate::editor::{Edit, Editor, Open, Shown};
use crate::handle::{held, hold_acts};
use crate::keyed::{keys, pairs, put_text};
use crate::keys::{find_index, index_of};
use crate::nav::{Sort, key_of};
use crate::number::{decimal, decimal_text};
use crate::plan::{SectionView, plan_picked, sections};
use crate::sight::{Sight, SightView, sight_of};
use crate::task::{SyncState, TaskView, unref};
use crate::text::{glue, has_text, text_opt, texts};
use crate::update::{Do, Seen, closes};
use crate::window::{Built, Refocus, Window, has_task};

verus! {

// -- pages ----------------------------------------------------------------------------------------

/// What fills the window.
#[derive(Debug, Clone, Copy, PartialEq, Eq, Structural)]
pub enum Page {
    Error,
    SignIn,
    Loading,
    Tasks,
}

impl Page {
    /// Its name.
    pub fn name(self) -> (r: &'static str)
        ensures
            r@ == (match self {
                Page::Error => "error"@,
                Page::SignIn => "signin"@,
                Page::Loading => "loading"@,
                Page::Tasks => "tasks"@,
            }),
    {
        match self {
            Page::Error => "error",
            Page::SignIn => "signin",
            Page::Loading => "loading",
            Page::Tasks => "tasks",
        }
    }
}

/// What is said of the selection.
pub open spec fn selection_text(n: nat) -> Seq<char> {
    if n == 0 {
        "Select tasks"@
    } else if n == 1 {
        "1 selected"@
    } else {
        decimal(n) + " selected"@
    }
}

/// How the page to sign in on looks: whether it waits, the page to open
/// again, and what went wrong.
pub struct SignInLook<'a> {
    pub waiting: bool,
    pub again: Option<&'a str>,
    pub error: Option<&'a str>,
}

impl Window {
    /// What fills the window: an error before all else, then signing in.
    pub open spec fn on_page(&self) -> Page {
        if self.error is Some {
            Page::Error
        } else if self.status matches Some(s) && s.state == SyncState::NoAccount {
            Page::SignIn
        } else if !self.loaded {
            Page::Loading
        } else {
            Page::Tasks
        }
    }

    /// What fills the window.
    pub fn page(&self) -> (r: Page)
        ensures
            r == self.on_page(),
    {
        let signed_out: bool = match &self.status {
            Some(s) => s.state == SyncState::NoAccount,
            None => false,
        };
        if self.error.is_some() {
            Page::Error
        } else if signed_out {
            Page::SignIn
        } else if !self.loaded {
            Page::Loading
        } else {
            Page::Tasks
        }
    }

    /// Whether the button for view options shows, whether that for the list's
    /// menu does, and whether a filter hides tasks.
    pub fn buttons(&self) -> (r: (bool, bool, bool))
        ensures
            r.0 == (self.on_page() == Page::Tasks),
            r.1 == (self.on_page() == Page::Tasks && self.list_on_view() is Some),
            r.2 == ({
                let o = self.opts(self.nav@);
                o.priorities.contains(false) || o.due != crate::nav::DueFilter::Any
                    || o.hide_lists.len() > 0
            }),
    {
        let tasks: bool = self.page() == Page::Tasks;
        let list: bool = self.shown_list().is_some();
        (tasks, tasks && list, self.prefs.view_opts(&self.nav).filtered())
    }

    /// What is said of the selection.
    pub fn selection_label(&self) -> (r: String)
        ensures
            r@ == selection_text(self.selected@.len()),
    {
        let n = self.selected.len();
        if n == 0 {
            String::from_str("Select tasks")
        } else if n == 1 {
            String::from_str("1 selected")
        } else {
            glue(decimal_text(n as u64).as_str(), " selected")
        }
    }

    /// Whether rows can be dragged into an order of their own.
    pub fn custom_order(&self) -> (r: bool)
        ensures
            r == ((self.nav@ is List || self.nav@ is Inbox) && self.opts(self.nav@).sort_of(
                self.nav@,
            ) == Sort::Custom),
    {
        self.nav.is_list() && self.prefs.view_opts(&self.nav).sort_for(&self.nav) == Sort::Custom
    }

    /// How the page to sign in on looks.
    pub fn sign_in_look(&self) -> (r: SignInLook<'_>)
        ensures
            r.waiting == (self.signing_in is Some),
            match r.again {
                Some(u) => self.signing_in matches Some(s) && s@.len() > 0 && u@ == s@,
                None => self.signing_in matches Some(s) ==> s@.len() == 0,
            },
            match r.error {
                Some(e) => self.sign_in_error matches Some(s) && e@ == s@,
                None => self.sign_in_error is None,
            },
    {
        let again = match &self.signing_in {
            Some(s) => if s.as_str().is_empty() {
                None
            } else {
                Some(s.as_str())
            },
            None => None,
        };
        let error = match &self.sign_in_error {
            Some(s) => Some(s.as_str()),
            None => None,
        };
        SignInLook { waiting: self.signing_in.is_some(), again, error }
    }
}

/// How many popovers are open: rows are not rebuilt under an open menu.
#[derive(Debug, Clone, Copy, PartialEq, Eq, Structural)]
pub struct Popovers {
    pub open: u32,
}

impl Popovers {
    /// One more, as long as they can be counted.
    pub fn opened(&mut self)
        requires
            old(self).open < u32::MAX,
        ensures
            final(self).open == old(self).open + 1,
    {
        self.open = self.open + 1;
    }

    /// One less. Whether that was the last.
    pub fn closed(&mut self) -> (r: bool)
        ensures
            final(self).open == (if old(self).open > 0 {
                old(self).open - 1
            } else {
                0
            }),
            r == (final(self).open == 0),
    {
        if self.open > 0 {
            self.open = self.open - 1;
        }
        self.open == 0
    }

    /// Whether there is any.
    pub fn any(&self) -> (r: bool)
        ensures
            r == (self.open > 0),
    {
        self.open > 0
    }
}

// -- before drawing -----------------------------------------------------------------------------

/// What comes before drawing: whether it waits for a popover, what the editor
/// fills in, and what was typed in a task that left the view.
pub struct Prepared {
    pub waits: bool,
    pub shown: Option<Shown>,
    pub edits: Vec<Edit>,
}

/// The editor with a task's newest words; typing that waits still waits.
pub open spec fn refreshed(e: Editor, t: Option<TaskView>) -> Editor {
    match t {
        Some(t) => Editor {
            open: Some(
                Open { href: t.href, summary: t.task.summary, description: t.task.description },
            ),
            ..e
        },
        None => e,
    }
}

/// The open task follows its edits, and closes once it leaves the view (done
/// elsewhere, moved, filtered out, deleted), unless it is typed in.
pub open spec fn prepares(old: Window, seen: Seen, popover: bool, new: Window, r: Prepared) -> bool {
    if popover {
        new == (Window { dirty: true, ..old }) && r.waits && r.shown is None && r.edits@.len() == 0
    } else {
        &&& !r.waits
        &&& match old.editing {
            None => new == (Window { dirty: false, ..old }) && r.shown is None && r.edits@.len()
                == 0,
            Some(href) => {
                let mid = Window {
                    dirty: false,
                    editor: refreshed(old.editor, old.task(href@)),
                    ..old
                };
                &&& r.shown is Some == old.task(href@) is Some
                &&& r.shown matches Some(s) ==> fills(old, old.task(href@)->0, seen, s)
                &&& if has_task(old.planned(seen.now), href@) || seen.typing {
                    new == mid && r.edits@.len() == 0
                } else {
                    closes(mid, seen, new, r.edits@)
                }
            },
        }
    }
}

/// Which fields are filled: those that are not typed in, and say otherwise.
pub open spec fn fills(old: Window, t: TaskView, seen: Seen, s: Shown) -> bool {
    let notes = match t.task.description {
        Some(d) => d@,
        None => Seq::empty(),
    };
    &&& s.edits@.len() == 0
    &&& s.set_title == (!seen.title.focused && !old.editor.title_waits && seen.title.text@
        != t.task.summary@)
    &&& s.set_notes == (!seen.notes.focused && !old.editor.notes_wait && seen.notes.text@ != notes)
}

fn refresh(e: &mut Editor, t: &TaskView, seen: &Seen) -> (r: Shown)
    requires
        old(e).open matches Some(o) && o.href@ == t.href@,
    ensures
        *final(e) == refreshed(*old(e), Some(*t)),
        ({
            let notes = match t.task.description {
                Some(d) => d@,
                None => Seq::empty(),
            };
            &&& r.edits@.len() == 0
            &&& r.set_title == (!seen.title.focused && !old(e).title_waits && seen.title.text@
                != t.task.summary@)
            &&& r.set_notes == (!seen.notes.focused && !old(e).notes_wait && seen.notes.text@
                != notes)
        }),
{
    e.show(t, &seen.title, &seen.notes)
}

impl Window {
    /// What comes before drawing.
    pub fn prepare(&mut self, seen: &Seen, popover: bool) -> (r: Prepared)
        requires
            old(self).wf(),
            seen.wf(),
        ensures
            prepares(*old(self), *seen, popover, *final(self), r),
            final(self).wf(),
    {
        if popover {
            self.dirty = true;
            return Prepared { waits: true, shown: None, edits: Vec::new() };
        }
        let here: bool = match &self.editing {
            Some(href) => self.in_view(href.as_str(), &seen.now),
            None => true,
        };
        self.dirty = false;
        let mut e = Editor::new();
        core::mem::swap(&mut e, &mut self.editor);
        let shown: Option<Shown> = match &self.editing {
            Some(href) => match self.find(href.as_str()) {
                Some(t) => Some(refresh(&mut e, t, seen)),
                None => None,
            },
            None => None,
        };
        self.editor = e;
        let edits: Vec<Edit> = if !here && !seen.typing {
            self.close_editor(seen).1
        } else {
            Vec::new()
        };
        Prepared { waits: false, shown, edits }
    }
}

// -- drawing --------------------------------------------------------------------------------------

/// More rows than this arriving or leaving at once (a sync, a filter) just
/// show up, instead of a crowd of them sliding.
pub const MOST: usize = 12;

/// Whether few enough rows come and go for them to move.
pub fn few(arriving: usize, leaving: usize) -> (r: bool)
    ensures
        r == (arriving + leaving <= MOST),
{
    arriving <= MOST && leaving <= MOST - arriving
}

/// What the screen is like as the view is drawn.
#[derive(Debug, Clone, Copy)]
pub struct Screen {
    /// Things move.
    pub motion: bool,
    /// How long a repeating task's new date stays lit.
    pub rolled_ms: u64,
    /// The keyboard is in the view.
    pub had_focus: bool,
    /// It is in the editor or the add card.
    pub kept_focus: bool,
}

/// What is new in a build.
#[derive(Debug)]
pub struct Fresh {
    /// Rows that open up as they arrive, when rows move.
    pub rows: Option<Vec<String>>,
    /// Tasks whose box was just checked.
    pub checked: Option<Vec<String>>,
    /// Repeating tasks on to their next date.
    pub rolled: Option<Vec<String>>,
    pub adding: bool,
    pub selecting: bool,
    /// Another view: it fades in.
    pub view: bool,
    /// A task was opened or closed in place.
    pub focus: bool,
}

/// A build of the view.
#[derive(Debug)]
pub struct Build {
    pub fresh: Fresh,
    /// Rows that are gone fold away.
    pub rows_move: bool,
    /// Messages for later.
    pub acts: Vec<Do>,
    /// The editor grows into its card.
    pub expand: bool,
    /// The row the cursor is on.
    pub cursor: Option<usize>,
    /// That row gets the keyboard.
    pub focus_row: bool,
    pub focus_editor: bool,
    /// What had the keyboard gets it back.
    pub focus_back: bool,
}

#[derive(Debug)]
pub enum Drawn {
    /// Nothing is new.
    Same,
    /// Not now: a rebuild would take the field from under the keyboard, or
    /// cut short a card folding or rows coming and going.
    Waits,
    Built(Build),
}

/// Texts, each once, in order of first appearance.
pub open spec fn once(s: Seq<Seq<char>>) -> Seq<Seq<char>> {
    with_all(Seq::empty(), s)
}

/// The texts that are not among others.
pub open spec fn not_in(s: Seq<Seq<char>>, other: Seq<Seq<char>>) -> Seq<Seq<char>> {
    s.filter(|x: Seq<char>| !other.contains(x))
}

/// The addresses of the tasks of a view, top to bottom.
pub open spec fn addresses(s: Seq<SectionView>) -> Seq<Seq<char>>
    decreases s.len(),
{
    if s.len() == 0 {
        Seq::empty()
    } else {
        addresses(s.drop_last()) + s.last().tasks.map_values(|t: TaskView| t.href@)
    }
}

/// What a view is built anew for, as its parts.
pub struct News {
    /// The same view as before, and things move.
    pub same: bool,
    pub arriving: Seq<Seq<char>>,
    pub leaving: nat,
    pub rows_move: bool,
    pub adding: bool,
    pub selecting: bool,
    pub view: bool,
}

pub open spec fn news(old: Window, seen: Seen, screen: Screen) -> News {
    let rows = addresses(old.planned(seen.now));
    let before = texts(seen.rows@);
    let same = screen.motion && text_opt(old.built.nav) == Some(key_of(old.nav@));
    let arriving = not_in(once(rows), before);
    let leaving = not_in(once(before), rows).len();
    News {
        same,
        arriving,
        leaving,
        rows_move: same && arriving.len() + leaving <= MOST,
        adding: same && old.adding is Some && !old.built.adding,
        selecting: same && old.select_mode && !old.built.selecting,
        view: !same && old.built.nav is Some && screen.motion,
    }
}

/// Something moves.
pub open spec fn moving(n: News) -> bool {
    (n.rows_move && (n.leaving > 0 || n.arriving.len() > 0)) || n.adding || n.selecting || n.view
}

pub open spec fn texts_opt(v: Option<Vec<String>>) -> Option<Seq<Seq<char>>> {
    match v {
        Some(v) => Some(texts(v@)),
        None => None,
    }
}

pub open spec fn if_so<T>(b: bool, x: T) -> Option<T> {
    if b {
        Some(x)
    } else {
        None
    }
}

/// The row that the cursor is on in the build.
pub open spec fn built_row(old: Window, seen: Seen) -> Option<int> {
    match old.cursor {
        Some(c) => index_of(addresses(old.planned(seen.now)), c@),
        None => None,
    }
}

/// How long rows move, and how long new dates stay lit.
pub open spec fn moving_ms(old: Window, seen: Seen, screen: Screen) -> (u64, u64) {
    let n = news(old, seen, screen);
    (
        if moving(n) {
            seen.row_ms
        } else {
            0
        },
        if n.same && old.rolled@.len() > 0 {
            screen.rolled_ms
        } else {
            0
        },
    )
}

/// What a build is remembered by.
pub open spec fn records(old: Window, b: Built) -> bool {
    &&& text_opt(b.nav) == if_so(old.loaded, key_of(old.nav@))
    &&& texts(b.completing@) == keys(pairs(old.completing@))
    &&& b.adding == (old.adding is Some)
    &&& b.selecting == old.select_mode
    &&& b.editing == (old.editing is Some)
}

/// What is remembered of a build.
pub open spec fn remembers(old: Window, seen: Seen, screen: Screen, new: Window) -> bool {
    let ms = moving_ms(old, seen, screen);
    let mid = held(old, seen.at, ms.0);
    &&& new == (Window {
        shown: new.shown,
        built: new.built,
        rolled: new.rolled,
        expand: false,
        refocus: Refocus::Keep,
        cursor: if built_row(old, seen) is Some {
            old.cursor
        } else {
            None
        },
        settle_until: held(mid, seen.at, ms.1).settle_until,
        ..old
    })
    &&& sight_opt(new.shown) == Some(sight_of(old, seen.now))
    &&& new.rolled@.len() == 0
    &&& records(old, new.built)
}

/// What is new in a build.
pub open spec fn refreshes(old: Window, seen: Seen, screen: Screen, f: Fresh) -> bool {
    let n = news(old, seen, screen);
    let going = keys(pairs(old.completing@));
    &&& texts_opt(f.rows) == if_so(n.rows_move, n.arriving)
    &&& texts_opt(f.checked) == if_so(n.same, not_in(going, texts(old.built.completing@)))
    &&& texts_opt(f.rolled) == if_so(n.same, texts(old.rolled@))
    &&& f.adding == n.adding
    &&& f.selecting == n.selecting
    &&& f.view == n.view
    &&& f.focus == (n.same && (old.editing is Some) != old.built.editing)
}

/// What a build brings: what is new, what moves, and where the keyboard goes.
pub open spec fn brings(old: Window, seen: Seen, screen: Screen, b: Build) -> bool {
    let row = built_row(old, seen);
    &&& refreshes(old, seen, screen, b.fresh)
    &&& b.rows_move == news(old, seen, screen).rows_move
    &&& b.expand == (old.expand && old.editing is Some)
    &&& match b.cursor {
        Some(i) => row == Some(i as int),
        None => row is None,
    }
    &&& b.focus_row == (row is Some && old.editing is None && old.adding is None && (
    screen.had_focus || old.refocus == Refocus::Row))
    &&& b.focus_editor == (old.refocus == Refocus::Editor && old.editing is Some)
    &&& b.focus_back == (!b.focus_editor && screen.kept_focus)
}

/// The messages that end the waits of a build.
pub open spec fn build_acts(old: Window, seen: Seen, screen: Screen) -> Seq<Do> {
    let ms = moving_ms(old, seen, screen);
    hold_acts(old, seen.at, ms.0) + hold_acts(held(old, seen.at, ms.0), seen.at, ms.1)
}

/// The view is built: what is new in it, and what is remembered of it.
pub open spec fn builds(old: Window, seen: Seen, screen: Screen, new: Window, b: Build) -> bool {
    &&& remembers(old, seen, screen, new)
    &&& brings(old, seen, screen, b)
    &&& b.acts@ == build_acts(old, seen, screen)
}

/// A rebuild has to wait.
pub open spec fn must_wait(old: Window, seen: Seen, passive: bool) -> bool {
    (old.editing is Some && seen.typing) || (passive && (old.settle_until matches Some(u) && seen.at
        < u)) || old.folding is Some
}

/// What the view was last built from, if it need not be built anew.
pub open spec fn sight_opt(s: Option<Sight>) -> Option<SightView> {
    match s {
        Some(s) => Some(s@),
        None => None,
    }
}

/// The view is drawn: not at all when it was last built from what there is to
/// see now.
pub open spec fn draws(
    old: Window,
    seen: Seen,
    passive: bool,
    screen: Screen,
    new: Window,
    r: Drawn,
) -> bool {
    if sight_opt(old.shown) == Some(sight_of(old, seen.now)) {
        new == old && r is Same
    } else if must_wait(old, seen, passive) {
        new == (Window { dirty: true, ..old }) && r is Waits
    } else {
        r matches Drawn::Built(b) && builds(old, seen, screen, new, b)
    }
}

fn keep_new(s: &Vec<String>, other: &Vec<String>) -> (r: Vec<String>)
    ensures
        texts(r@) == not_in(texts(s@), texts(other@)),
{
    let mut out: Vec<String> = Vec::new();
    let ghost v = texts(s@);
    let ghost p = |x: Seq<char>| !texts(other@).contains(x);
    proof {
        reveal(Seq::filter);
        assert(texts(out@) =~= v.take(0).filter(p));
    }
    for i in 0..s.len()
        invariant
            v == texts(s@),
            p == (|x: Seq<char>| !texts(other@).contains(x)),
            texts(out@) == v.take(i as int).filter(p),
    {
        let ghost before = texts(out@);
        proof {
            reveal(Seq::filter);
            assert(v.take(i + 1).drop_last() == v.take(i as int));
            assert(v.take(i + 1).last() == s@[i as int]@);
        }
        if !has_text(other, s[i].as_str()) {
            out.push(s[i].clone());
            assert(texts(out@) =~= before.push(s@[i as int]@));
        }
    }
    assert(v.take(v.len() as int) == v);
    out
}

fn keep_once(s: &Vec<String>) -> (r: Vec<String>)
    ensures
        texts(r@) == once(texts(s@)),
{
    let mut out: Vec<String> = Vec::new();
    let ghost v = texts(s@);
    assert(texts(out@) =~= Seq::<Seq<char>>::empty());
    assert(v.take(0).len() == 0);
    for i in 0..s.len()
        invariant
            v == texts(s@),
            texts(out@) == once(v.take(i as int)),
    {
        proof {
            assert(v.take(i + 1).drop_last() == v.take(i as int));
            assert(v.take(i + 1).last() == s@[i as int]@);
        }
        put_text(&mut out, s[i].clone());
    }
    assert(v.take(v.len() as int) == v);
    out
}

impl Window {
    /// The addresses of the tasks on view, top to bottom.
    pub fn rows_on_view(&self, seen: &Seen) -> (r: Vec<String>)
        requires
            self.wf(),
            seen.wf(),
        ensures
            texts(r@) == addresses(self.planned(seen.now)),
    {
        let data = self.view_data();
        let opts = self.prefs.view_opts(&self.nav);
        let plan = plan_picked(&self.nav, &data, &opts, &seen.now);
        let ghost s = sections(plan@);
        let mut out: Vec<String> = Vec::new();
        assert(texts(out@) =~= addresses(s.take(0)));
        for i in 0..plan.len()
            invariant
                s == sections(plan@),
                texts(out@) == addresses(s.take(i as int)),
        {
            let tasks = &plan[i].tasks;
            let ghost before = texts(out@);
            let ghost mine = unref(tasks@).map_values(|t: TaskView| t.href@);
            proof {
                assert(s.take(i + 1).drop_last() == s.take(i as int));
                assert(s.take(i + 1).last() == s[i as int]);
                assert(s[i as int].tasks == unref(tasks@));
                assert(before + mine.take(0) =~= before);
            }
            for j in 0..tasks.len()
                invariant
                    mine == unref(tasks@).map_values(|t: TaskView| t.href@),
                    texts(out@) == before + mine.take(j as int),
            {
                let ghost was = texts(out@);
                out.push(tasks[j].href.clone());
                assert(texts(out@) =~= was.push(mine[j as int]));
                assert(texts(out@) =~= before + mine.take(j + 1));
            }
            assert(mine.take(mine.len() as int) == mine);
        }
        assert(s.take(s.len() as int) == s);
        out
    }

    pub(crate) fn going(&self) -> (r: Vec<String>)
        ensures
            texts(r@) == keys(pairs(self.completing@)),
    {
        let mut out: Vec<String> = Vec::new();
        let ghost all = keys(pairs(self.completing@));
        for i in 0..self.completing.len()
            invariant
                all == keys(pairs(self.completing@)),
                texts(out@) == all.take(i as int),
        {
            let ghost before = texts(out@);
            out.push(self.completing[i].0.clone());
            assert(texts(out@) =~= before.push(all[i as int]));
        }
        assert(all.take(all.len() as int) == all);
        out
    }

    fn make_fresh(&self, seen: &Seen, screen: Screen, rows: &Vec<String>) -> (r: (Fresh, bool, bool))
        requires
            texts(rows@) == addresses(self.planned(seen.now)),
        ensures
            refreshes(*self, *seen, screen, r.0),
            r.1 == news(*self, *seen, screen).rows_move,
            r.2 == moving(news(*self, *seen, screen)),
            r.0.rolled is Some == news(*self, *seen, screen).same,
    {
        let key = self.nav.key();
        let same: bool = screen.motion && match &self.built.nav {
            Some(k) => *k == key,
            None => false,
        };
        let arriving = keep_new(&keep_once(rows), &seen.rows);
        let left = keep_new(&keep_once(&seen.rows), rows);
        let n = arriving.len();
        let leaving = left.len();
        proof {
            assert(texts(arriving@).len() == n);
            assert(texts(left@).len() == leaving);
        }
        let rows_move: bool = same && few(n, leaving);
        let adding: bool = same && self.adding.is_some() && !self.built.adding;
        let selecting: bool = same && self.select_mode && !self.built.selecting;
        let view: bool = !same && self.built.nav.is_some() && screen.motion;
        let focus: bool = same && self.editing.is_some() != self.built.editing;
        let moves: bool = (rows_move && (leaving > 0 || n > 0)) || adding || selecting || view;
        let checked = if same {
            Some(keep_new(&self.going(), &self.built.completing))
        } else {
            None
        };
        let rolled = if same {
            Some(crate::text::copy_texts(&self.rolled))
        } else {
            None
        };
        let fresh = Fresh {
            rows: if rows_move {
                Some(arriving)
            } else {
                None
            },
            checked,
            rolled,
            adding,
            selecting,
            view,
            focus,
        };
        (fresh, rows_move, moves)
    }

    /// Draws the view, now or later.
    pub fn draw(&mut self, seen: &Seen, passive: bool, screen: Screen) -> (r: Drawn)
        requires
            old(self).wf(),
            seen.wf(),
            seen.at + screen.rolled_ms <= u64::MAX,
        ensures
            draws(*old(self), *seen, passive, screen, *final(self), r),
            final(self).wf(),
    {
        let sight = self.sight(&seen.now);
        let same: bool = match &self.shown {
            Some(s) => s.is(&sight),
            None => false,
        };
        if same {
            return Drawn::Same;
        }
        let settling: bool = passive && match self.settle_until {
            Some(u) => seen.at < u,
            None => false,
        };
        if (self.editing.is_some() && seen.typing) || settling || self.folding.is_some() {
            self.dirty = true;
            return Drawn::Waits;
        }
        Drawn::Built(self.build(sight, seen, screen))
    }

    fn look(&self, seen: &Seen, screen: Screen) -> (r: (Build, u64, u64))
        requires
            self.wf(),
            seen.wf(),
        ensures
            brings(*self, *seen, screen, r.0),
            r.0.acts@.len() == 0,
            (r.1, r.2) == moving_ms(*self, *seen, screen),
    {
        let rows = self.rows_on_view(seen);
        let (fresh, rows_move, moves) = self.make_fresh(seen, screen, &rows);
        let flash: bool = fresh.rolled.is_some() && self.rolled.len() > 0;
        let cursor: Option<usize> = match &self.cursor {
            Some(c) => find_index(&rows, c.as_str()),
            None => None,
        };
        let row_ms: u64 = if moves {
            seen.row_ms
        } else {
            0
        };
        let rolled_ms: u64 = if flash {
            screen.rolled_ms
        } else {
            0
        };
        let editing = self.editing.is_some();
        let focus_row: bool = cursor.is_some() && !editing && self.adding.is_none() && (
        screen.had_focus || self.refocus == Refocus::Row);
        let focus_editor: bool = self.refocus == Refocus::Editor && editing;
        let b = Build {
            fresh,
            rows_move,
            acts: Vec::new(),
            expand: self.expand && editing,
            cursor,
            focus_row,
            focus_editor,
            focus_back: !focus_editor && screen.kept_focus,
        };
        (b, row_ms, rolled_ms)
    }

    fn build(&mut self, sight: Sight, seen: &Seen, screen: Screen) -> (r: Build)
        requires
            sight@ == sight_of(*old(self), seen.now),
            old(self).wf(),
            seen.wf(),
            seen.at + screen.rolled_ms <= u64::MAX,
        ensures
            builds(*old(self), *seen, screen, *final(self), r),
            final(self).wf(),
    {
        let (mut b, row_ms, rolled_ms) = self.look(seen, screen);
        let built = self.remember();
        let mut acts = self.hold(seen.at, row_ms);
        let mut more = self.hold(seen.at, rolled_ms);
        acts.append(&mut more);
        assert(acts@ == build_acts(*old(self), *seen, screen));
        self.mark(sight, built, b.cursor.is_some());
        b.acts = acts;
        assert(brings(*old(self), *seen, screen, b));
        b
    }

    fn mark(&mut self, sight: Sight, built: Built, on_row: bool)
        ensures
            *final(self) == (Window {
                shown: Some(sight),
                built,
                rolled: final(self).rolled,
                expand: false,
                refocus: Refocus::Keep,
                cursor: if on_row {
                    old(self).cursor
                } else {
                    None
                },
                ..*old(self)
            }),
            final(self).rolled@.len() == 0,
            old(self).wf() ==> final(self).wf(),
    {
        self.built = built;
        self.shown = Some(sight);
        self.rolled = Vec::new();
        assert(texts(self.rolled@) =~= Seq::<Seq<char>>::empty());
        self.expand = false;
        self.refocus = Refocus::Keep;
        if !on_row {
            self.cursor = None;
        }
    }

    fn remember(&self) -> (r: Built)
        ensures
            records(*self, r),
    {
        Built {
            nav: if self.loaded {
                Some(self.nav.key())
            } else {
                None
            },
            completing: self.going(),
            adding: self.adding.is_some(),
            selecting: self.select_mode,
            editing: self.editing.is_some(),
        }
    }
}

/// Nothing is built while it is typed in: the keyboard keeps its field, and
/// the rebuild is remembered.
pub proof fn typing_is_not_disturbed(
    old: Window,
    seen: Seen,
    passive: bool,
    screen: Screen,
    new: Window,
    r: Drawn,
)
    requires
        draws(old, seen, passive, screen, new, r),
        old.editing is Some,
        seen.typing,
    ensures
        !(r is Built),
        new.editing == old.editing,
        sight_opt(old.shown) != Some(sight_of(old, seen.now)) ==> new.dirty,
{
}

/// What was built once is not built again.
pub proof fn built_once(
    old: Window,
    seen: Seen,
    passive: bool,
    screen: Screen,
    new: Window,
    r: Drawn,
    last: Window,
    s: Drawn,
)
    requires
        draws(old, seen, passive, screen, new, r),
        r is Built,
        draws(new, seen, passive, screen, last, s),
    ensures
        s is Same,
        last == new,
{
}

} // verus!
