//! What the window does with what happens in it: each message changes what it
//! remembers, and asks for what only widgets and the daemon can do.

use vstd::prelude::*;
use vstd::string::*;

use crate::addcard::Target;
use crate::change::{AddSpec, Change};
use crate::date::Date;
use crate::editor::{Edit, Editor, Field, Open, saves_waiting};
use crate::nav::{Nav, ViewOpts};
use crate::prefs::Prefs;
use crate::reorder::place;
use crate::settings::SettingsChange;
use crate::task::{Task, TaskView, tasks_wf};
use crate::text::{copy_opt, same};
use crate::window::{Refocus, Window, find_place, lemma_place};
use crate::zone::Now;

verus! {

// -- messages -----------------------------------------------------------------------------------

/// Something done with the selected tasks.
#[derive(Debug, Clone)]
pub enum Batch {
    Complete,
    Delete,
    Priority(u8),
    Date(Date),
    Move(String),
    Copy,
}

/// A view that a key goes to.
#[derive(Debug, Clone, Copy)]
pub enum Nav0 {
    Inbox,
    Today,
    Scheduled,
    List(usize),
}

/// What a key does.
#[derive(Debug, Clone, Copy)]
pub enum Key {
    Down,
    Up,
    First,
    Last,
    Open,
    Toggle,
    Add,
    Find,
    Delete,
    Priority(u8),
    Today,
    Tomorrow,
    NextWeek,
    PrevView,
    NextView,
    Sync,
    Select,
    Escape,
    NewList,
    Shortcuts,
    Preferences,
    Sidebar,
    Close,
    Quit,
    Paste,
    Go(Nav0),
}

/// What happens in the window.
#[derive(Debug, Clone)]
pub enum Msg {
    Navigate(Nav),
    ToggleSidebar,
    Refresh,
    Tick,
    Focused,
    SyncNow,
    /// A row was clicked or got Enter.
    Activate(String),
    /// Open a task in place.
    Open(String),
    /// Close it, folding the card back to a row first.
    CloseEditor,
    /// The card has folded: the row can take its place.
    Folded(String),
    /// A row's checkbox.
    Check(String, bool),
    CompleteNow(String, u64),
    Complete(String),
    Reopen(String),
    Edit(String, Change),
    EditMany(Vec<Edit>),
    /// New custom-order numbers after a drag.
    Reorder(Vec<(String, i64)>),
    Delete(String),
    Undelete(String),
    /// The undo toast is gone: delete for real unless undone.
    DeleteNow(String),
    Duplicate(String),
    Copy(String),
    Move(String, String),
    DropTask(String, Nav),
    Add(AddSpec),
    ShowAdd(Option<Target>),
    HideAdd,
    /// The add card has folded away.
    AddFolded,
    SelectMode(bool),
    SelectToggle(String),
    Batch(Batch),
    SetViewOpts(ViewOpts),
    NewList,
    EditList(String),
    SaveList(Option<String>, String, String),
    AskDeleteList(String),
    DeleteList(String),
    /// A list's completed tasks, or every list's: ask first.
    AskDeleteCompleted(Option<String>),
    DeleteCompleted(Option<String>),
    /// Lists dragged into a new order (hrefs, top to bottom).
    ReorderLists(Vec<String>),
    /// Put a list away, or bring it back.
    Archive(String, bool),
    /// A list's open tasks to the clipboard, as Markdown.
    CopyList(String),
    /// A task's iCalendar object, to a file.
    SaveIcs(String),
    /// Look for a place for a location reminder.
    PlaceSearch(String),
    /// A new note for a task, titled after it or this.
    NewNote(String, String),
    /// Ctrl+V: a task from the clipboard's text.
    Paste,
    /// The add card with this text in it.
    AddText(String),
    /// Show the window at a task.
    OpenTask(String),
    /// Light or dark changed.
    ThemeChanged,
    QuickFind,
    /// Go to where a task lives and open it.
    Reveal(String),
    /// On the page named, or the first.
    Preferences(Option<&'static str>),
    Shortcuts,
    About,
    SetPrefs(Prefs),
    /// Take a view out of the sidebar.
    HideView(Nav),
    SetSidebar(Vec<Nav>),
    SetSettings(SettingsChange),
    SignIn(String),
    SignOut,
    CancelSignIn,
    /// A popover closed or typing left the editor: a rebuild held back for
    /// it can happen now.
    Resume,
    Key(Key),
    /// The window's close button, Ctrl+W or the compositor: into the tray
    /// when running in the background, otherwise quit.
    CloseWindow,
    /// Send what is waiting (typing, deletes held for undo), then quit.
    Quit,
    ShowWindow,
    /// A click on the tray icon: show the window, or put it away.
    TrayClick,
}

/// What the widgets show as a message comes.
#[derive(Debug)]
pub struct Seen {
    pub now: Now,
    /// Milliseconds by a clock that only goes forward.
    pub at: u64,
    /// The fields of the task open in place.
    pub title: Field,
    pub notes: Field,
    /// The keyboard is in one of them.
    pub typing: bool,
    /// How long the open task's card takes to fold; 0 when nothing moves.
    pub fold_ms: u64,
    /// How long a row takes to come or go.
    pub row_ms: u64,
    /// The add card is on screen.
    pub card_mapped: bool,
    /// The sidebar lies over the view.
    pub narrow: bool,
    pub sidebar: bool,
    pub visible: bool,
    pub active: bool,
    /// The tray icon is up.
    pub tray: bool,
    /// And something shows it.
    pub tray_online: bool,
    pub maximized: bool,
    pub width: i32,
    pub height: i32,
    /// The tasks on screen, top to bottom.
    pub rows: Vec<String>,
}

/// A place found for a location reminder, and where it is, in degrees as
/// they were written.
#[derive(Debug, Clone)]
pub struct Place {
    pub name: String,
    pub lat: String,
    pub lon: String,
}

/// What only widgets and the daemon can do.
#[derive(Debug)]
pub enum Do {
    /// Write the preferences down.
    Save,
    /// A message for later: once this one is done with.
    Send(Msg),
    /// A message after so many milliseconds.
    Later(u64, Msg),
    // -- of the daemon
    /// Lists, open tasks and the status, as the load of this number.
    Load(u64),
    /// The completed tasks, the newest of them.
    LoadCompleted(u64),
    LoadSettings,
    /// A sync; whether it says when it fails.
    Sync(bool),
    Complete(String),
    /// One after the other, and what is said then.
    CompleteAll(Vec<String>, String),
    Reopen(String),
    /// A change, and what is said then; nothing when empty.
    Edit(String, Change, String),
    EditAll(Vec<Edit>, String),
    Delete(String),
    Duplicate(String),
    Add(AddSpec),
    SaveList(Option<String>, String, String),
    DeleteList(String, String),
    DeleteCompleted(Option<String>),
    Ics(String),
    /// A new note for a task, to be opened.
    NewNote(String, String),
    Places(String),
    Get(String),
    SetSettings(SettingsChange),
    Login(String),
    Logout,
    /// Deletes that were held, then the end; whether to wait a moment.
    Finish(Vec<String>, bool),
    // -- on screen
    Toast(String),
    /// What is said, for how many seconds, what undoing sends, and what is
    /// sent when it is gone.
    UndoToast(String, u32, Vec<Msg>, Vec<Msg>),
    Clipboard(String),
    /// A heading, tasks as Markdown under it, and what is said then.
    CopyTasks(String, Vec<String>, String),
    ReadClipboard,
    Present,
    /// The window goes; its toasts with it.
    HideWindow,
    ShowSidebar(bool),
    FocusColumn,
    FocusRow(usize),
    /// The keyboard leaves the field it is in.
    LetGo,
    ShowTask(String),
    ExpandEditor,
    CollapseEditor,
    NewEditor,
    /// The places found, in the editor.
    ShowPlaces(Vec<Place>),
    OpenCard(Target),
    FillCard(String),
    FocusCard,
    FoldCard,
    CardDefaults,
    CardLists,
    Tray(bool),
    /// A page, in the browser.
    Launch(String),
    /// A name and what to write, for a file to be chosen.
    SaveFile(String, String),
    /// The window is done with.
    Close,
    NewListDialog,
    EditListDialog(String),
    DeleteListDialog(String, usize),
    DeleteCompletedDialog(usize, String, Option<String>),
    QuickFind,
    Preferences(Option<&'static str>),
    Shortcuts,
    About,
}

/// What comes of a message: what to do at once, the changes that were typed
/// in a task that closed, to be sent after, and whether the view is drawn.
#[derive(Debug)]
pub struct Step {
    pub acts: Vec<Do>,
    pub edits: Vec<Edit>,
    pub draws: bool,
    /// What to do once it is drawn.
    pub after: Vec<Do>,
}

// -- typed text ---------------------------------------------------------------------------------

/// A task with typed text in it.
pub open spec fn typed(t: TaskView, c: Change) -> TaskView {
    TaskView {
        task: Task {
            summary: match c.summary {
                Some(s) => s,
                None => t.task.summary,
            },
            description: match c.description {
                Some(d) => d,
                None => t.task.description,
            },
            ..t.task
        },
        ..t
    }
}

/// Tasks with typed text in the first with an address.
pub open spec fn typed_in(s: Seq<TaskView>, href: Seq<char>, c: Change) -> Seq<TaskView> {
    match place(s, href) {
        Some(i) => s.update(i, typed(s[i], c)),
        None => s,
    }
}

/// Open and completed tasks with an edit's text in one of them.
pub open spec fn write_one(s: (Seq<TaskView>, Seq<TaskView>), e: Edit) -> (
    Seq<TaskView>,
    Seq<TaskView>,
) {
    if place(s.0, e.href@) is Some {
        (typed_in(s.0, e.href@, e.change), s.1)
    } else {
        (s.0, typed_in(s.1, e.href@, e.change))
    }
}

/// Open and completed tasks with the text of edits in them.
pub open spec fn written(s: (Seq<TaskView>, Seq<TaskView>), edits: Seq<Edit>) -> (
    Seq<TaskView>,
    Seq<TaskView>,
)
    decreases edits.len(),
{
    if edits.len() == 0 {
        s
    } else {
        write_one(written(s, edits.drop_last()), edits.last())
    }
}

fn type_in(s: &mut Vec<TaskView>, i: usize, c: &Change)
    requires
        i < old(s)@.len(),
    ensures
        final(s)@ == old(s)@.update(i as int, typed(old(s)@[i as int], *c)),
{
    if let Some(t) = &c.summary {
        s[i].task.summary = t.clone();
    }
    if let Some(d) = &c.description {
        s[i].task.description = copy_opt(d);
    }
    assert(s@ =~= old(s)@.update(i as int, typed(old(s)@[i as int], *c)));
}

proof fn lemma_typed_wf(s: Seq<TaskView>, href: Seq<char>, c: Change)
    requires
        tasks_wf(s),
    ensures
        tasks_wf(typed_in(s, href, c)),
{
    lemma_place(s, href);
    let r = typed_in(s, href, c);
    assert forall|i: int| 0 <= i < r.len() implies (#[trigger] r[i]).task.wf() by {
        assert(s[i].task.wf());
    }
}

proof fn lemma_written_wf(s: (Seq<TaskView>, Seq<TaskView>), edits: Seq<Edit>)
    requires
        tasks_wf(s.0),
        tasks_wf(s.1),
    ensures
        tasks_wf(written(s, edits).0),
        tasks_wf(written(s, edits).1),
    decreases edits.len(),
{
    if edits.len() > 0 {
        lemma_written_wf(s, edits.drop_last());
        let p = written(s, edits.drop_last());
        let e = edits.last();
        lemma_typed_wf(p.0, e.href@, e.change);
        lemma_typed_wf(p.1, e.href@, e.change);
    }
}

/// Typing changes no address.
proof fn lemma_typed_place(s: Seq<TaskView>, href: Seq<char>, c: Change, k: Seq<char>)
    ensures
        place(typed_in(s, href, c), k) == place(s, k),
{
    lemma_place(s, href);
    lemma_place(s, k);
    let r = typed_in(s, href, c);
    lemma_place(r, k);
    assert(r.len() == s.len());
    assert forall|i: int| 0 <= i < s.len() implies (#[trigger] r[i]).href == s[i].href by {}
    match (place(s, k), place(r, k)) {
        (Some(i), Some(j)) => {
            if i < j {
                assert(r[i].href@ != k);
            }
            if j < i {
                assert(s[j].href@ != k);
            }
        },
        (Some(i), None) => {
            assert(r[i].href@ != k);
        },
        (None, Some(j)) => {
            assert(s[j].href@ != k);
        },
        (None, None) => {},
    }
}

/// Typing leaves every task where it is.
pub(crate) proof fn lemma_written_known(
    s: (Seq<TaskView>, Seq<TaskView>),
    edits: Seq<Edit>,
    k: Seq<char>,
)
    ensures
        place(written(s, edits).0, k) == place(s.0, k),
        place(written(s, edits).1, k) == place(s.1, k),
    decreases edits.len(),
{
    if edits.len() > 0 {
        lemma_written_known(s, edits.drop_last(), k);
        let p = written(s, edits.drop_last());
        let e = edits.last();
        lemma_typed_place(p.0, e.href@, e.change, k);
        lemma_typed_place(p.1, e.href@, e.change, k);
    }
}

/// What typing leaves in the tasks when the open one closes.
pub open spec fn lets_go(old: Window, seen: Seen, new: Window, edits: Seq<Edit>) -> bool {
    &&& if old.editing is Some {
        saves_waiting(old.editor, seen.title.text@, seen.notes.text@, edits)
    } else {
        edits.len() == 0
    }
    &&& (new.open@, new.done()) == written((old.open@, old.done()), edits)
    &&& new.completed is Some == old.completed is Some
}

/// An editor that holds nothing.
pub open spec fn no_task() -> Editor {
    Editor { open: None, title_waits: false, notes_wait: false }
}

/// The task open in place closes, if there is one, keeping what was typed.
pub open spec fn closes(old: Window, seen: Seen, new: Window, edits: Seq<Edit>) -> bool {
    &&& lets_go(old, seen, new, edits)
    &&& match old.editing {
        None => new == (Window {
            folding: None,
            expand: false,
            open: new.open,
            completed: new.completed,
            ..old
        }),
        Some(href) => new == (Window {
            folding: None,
            expand: false,
            editing: None,
            editor: no_task(),
            cursor: Some(href),
            shown: None,
            open: new.open,
            completed: new.completed,
            ..old
        }),
    }
}

proof fn lemma_closes_wf(old: Window, seen: Seen, new: Window, edits: Seq<Edit>)
    requires
        old.wf(),
        closes(old, seen, new, edits),
    ensures
        new.wf(),
{
    lemma_written_wf((old.open@, old.done()), edits);
}

/// The task open in place folds, if there is one and it is not folding; at
/// once where nothing moves.
pub open spec fn folds(old: Window, seen: Seen, new: Window, edits: Seq<Edit>) -> bool {
    match old.editing {
        Some(href) if old.folding is None => if seen.fold_ms == 0 {
            closes(Window { refocus: Refocus::Row, ..old }, seen, new, edits)
        } else {
            new == (Window { folding: Some(href), ..old }) && edits.len() == 0
        },
        _ => new == old && edits.len() == 0,
    }
}

/// What folding asks for.
pub open spec fn fold_acts(old: Window, seen: Seen) -> Seq<Do> {
    match old.editing {
        Some(href) if old.folding is None => if seen.fold_ms == 0 {
            seq![Do::CollapseEditor]
        } else {
            seq![Do::CollapseEditor, Do::Later(seen.fold_ms, Msg::Folded(href))]
        },
        _ => Seq::empty(),
    }
}

/// A task is opened in place, and the one open before closes. One that is
/// open already grows back if it was folding.
pub open spec fn opens(
    old: Window,
    href: String,
    seen: Seen,
    new: Window,
    edits: Seq<Edit>,
) -> bool {
    if edits_task(old, href@) {
        new == (Window { cursor: Some(href), folding: None, ..old }) && edits.len() == 0
    } else {
        match old.task(href@) {
            None => new == (Window { cursor: Some(href), ..old }) && edits.len() == 0,
            Some(t) => {
                &&& lets_go(old, seen, new, edits)
                &&& new == (Window {
                    cursor: if old.editing is Some {
                        old.editing
                    } else {
                        Some(href)
                    },
                    editing: Some(href),
                    editor: holding(t),
                    folding: None,
                    expand: true,
                    refocus: Refocus::Editor,
                    shown: None,
                    open: new.open,
                    completed: new.completed,
                    ..old
                })
            },
        }
    }
}

/// What opening asks for.
pub open spec fn open_acts(old: Window, href: String, seen: Seen) -> Seq<Do> {
    if edits_task(old, href@) {
        if old.folding is Some {
            seq![Do::ExpandEditor]
        } else {
            Seq::empty()
        }
    } else if old.task(href@) is None {
        Seq::empty()
    } else if old.editing is Some && seen.typing {
        seq![Do::LetGo, Do::ShowTask(href)]
    } else {
        seq![Do::ShowTask(href)]
    }
}

/// A task is the one open in place.
pub open spec fn edits_task(w: Window, href: Seq<char>) -> bool {
    w.editing matches Some(e) && e@ == href
}

/// An editor that holds a task.
pub open spec fn holding(t: TaskView) -> Editor {
    Editor {
        open: Some(
            Open { href: t.href, summary: t.task.summary, description: t.task.description },
        ),
        title_waits: false,
        notes_wait: false,
    }
}

fn hold_task(t: &TaskView) -> (r: Editor)
    ensures
        r == holding(*t),
{
    Editor {
        open: Some(
            Open {
                href: t.href.clone(),
                summary: t.task.summary.clone(),
                description: copy_opt(&t.task.description),
            },
        ),
        title_waits: false,
        notes_wait: false,
    }
}

impl Window {
    /// Typed text into the copy rows are drawn from, ahead of the daemon's
    /// answer: a row rebuilt in between would flash the old words.
    pub fn apply_typed(&mut self, href: &str, change: &Change)
        ensures
            (final(self).open@, final(self).done()) == (if place(old(self).open@, href@) is Some {
                (typed_in(old(self).open@, href@, *change), old(self).done())
            } else {
                (old(self).open@, typed_in(old(self).done(), href@, *change))
            }),
            *final(self) == (Window {
                open: final(self).open,
                completed: final(self).completed,
                ..*old(self)
            }),
            final(self).completed is Some == old(self).completed is Some,
            old(self).wf() ==> final(self).wf(),
    {
        proof {
            if self.wf() {
                lemma_typed_wf(self.open@, href@, *change);
                lemma_typed_wf(self.done(), href@, *change);
            }
        }
        match find_place(&self.open, href) {
            Some(i) => {
                type_in(&mut self.open, i, change);
            },
            None => {
                if let Some(mut c) = self.completed.take() {
                    if let Some(i) = find_place(&c, href) {
                        type_in(&mut c, i, change);
                    }
                    self.completed = Some(c);
                }
            },
        }
    }

    /// Closes the task open in place, keeping what was typed. Whether one
    /// was, and what to send.
    pub fn close_editor(&mut self, seen: &Seen) -> (r: (bool, Vec<Edit>))
        ensures
            r.0 == (old(self).editing is Some),
            closes(*old(self), *seen, *final(self), r.1@),
            old(self).wf() ==> final(self).wf(),
    {
        self.folding = None;
        self.expand = false;
        match self.editing.take() {
            None => {
                let edits: Vec<Edit> = Vec::new();
                proof {
                    if old(self).wf() {
                        lemma_closes_wf(*old(self), *seen, *self, edits@);
                    }
                }
                (false, edits)
            },
            Some(href) => {
                let edits = self.editor.close(seen.title.text.as_str(), seen.notes.text.as_str());
                let ghost before = *self;
                assert(edits@.take(0).len() == 0);
                for i in 0..edits.len()
                    invariant
                        (self.open@, self.done()) == written(
                            (before.open@, before.done()),
                            edits@.take(i as int),
                        ),
                        *self == (Window { open: self.open, completed: self.completed, ..before }),
                        self.completed is Some == before.completed is Some,
                {
                    proof {
                        assert(edits@.take(i + 1).drop_last() == edits@.take(i as int));
                        assert(edits@.take(i + 1).last() == edits@[i as int]);
                    }
                    self.apply_typed(edits[i].href.as_str(), &edits[i].change);
                }
                assert(edits@.take(edits@.len() as int) == edits@);
                self.cursor = Some(href);
                self.shown = None;
                proof {
                    if old(self).wf() {
                        lemma_closes_wf(*old(self), *seen, *self, edits@);
                    }
                }
                (true, edits)
            },
        }
    }

    /// Whether a task is the one open in place.
    pub fn edits(&self, href: &str) -> (r: bool)
        ensures
            r == edits_task(*self, href@),
    {
        match &self.editing {
            Some(e) => same(e.as_str(), href),
            None => false,
        }
    }

    /// Closes the open task the way it opened: the card shrinks to a row,
    /// then the row takes its place.
    pub fn fold_editor(&mut self, seen: &Seen) -> (r: (Vec<Do>, Vec<Edit>))
        ensures
            folds(*old(self), *seen, *final(self), r.1@),
            r.0@ == fold_acts(*old(self), *seen),
            old(self).wf() ==> final(self).wf(),
    {
        let mut acts: Vec<Do> = Vec::new();
        if self.folding.is_some() {
            return (acts, Vec::new());
        }
        match copy_opt(&self.editing) {
            None => (acts, Vec::new()),
            Some(href) => {
                acts.push(Do::CollapseEditor);
                assert(acts@ =~= seq![Do::CollapseEditor]);
                if seen.fold_ms == 0 {
                    self.refocus = Refocus::Row;
                    let (_, edits) = self.close_editor(seen);
                    return (acts, edits);
                }
                acts.push(Do::Later(seen.fold_ms, Msg::Folded(href.clone())));
                self.folding = Some(href);
                assert(acts@ =~= seq![
                    Do::CollapseEditor,
                    Do::Later(seen.fold_ms, Msg::Folded(href)),
                ]);
                (acts, Vec::new())
            },
        }
    }

    /// Opens a task in place, closing the one open before.
    pub fn open_editor(&mut self, href: String, seen: &Seen) -> (r: (Vec<Do>, Vec<Edit>))
        requires
            old(self).wf(),
        ensures
            opens(*old(self), href, *seen, *final(self), r.1@),
            r.0@ == open_acts(*old(self), href, *seen),
            final(self).wf(),
    {
        let mut acts: Vec<Do> = Vec::new();
        if self.edits(href.as_str()) {
            self.cursor = Some(href);
            if self.folding.is_some() {
                acts.push(Do::ExpandEditor);
                assert(acts@ =~= seq![Do::ExpandEditor]);
            }
            self.folding = None;
            return (acts, Vec::new());
        }
        let held = match self.find(href.as_str()) {
            None => {
                self.cursor = Some(href);
                return (acts, Vec::new());
            },
            Some(t) => hold_task(t),
        };
        self.cursor = Some(href.clone());
        let (was, edits) = self.close_editor(seen);
        if was && seen.typing {
            // Still in the last task's title: let go, or the view would hold
            // off moving the editor to this one.
            acts.push(Do::LetGo);
        }
        acts.push(Do::ShowTask(href.clone()));
        self.editor = held;
        self.editing = Some(href);
        self.expand = true;
        self.refocus = Refocus::Editor;
        self.shown = None;
        assert(acts@ =~= (if old(self).editing is Some && seen.typing {
            seq![Do::LetGo, Do::ShowTask(href)]
        } else {
            seq![Do::ShowTask(href)]
        }));
        (acts, edits)
    }
}

} // verus!
