//! How the program starts: what its arguments ask for, and the window it
//! opens with.

use vstd::prelude::*;
use vstd::string::*;

use crate::cli::{debug_text, quoted};
use crate::editor::Editor;
use crate::keyed::pairs;
use crate::nav::{Nav, NavView, view_of};
use crate::prefs::Prefs;
use crate::steps::{reload_acts, reloaded};
use crate::text::{glue3, same, texts};
use crate::update::Do;
use crate::window::{Built, Refocus, Window};

verus! {

/// How the window starts.
#[derive(Debug, Clone, Copy, PartialEq, Eq, Structural)]
pub enum Start {
    Window,
    /// In the tray, with no window, as login does.
    Background,
    /// Started by the bus for an action, such as opening a task from a
    /// reminder: the action shows the window.
    Service,
}

pub const USAGE: &'static str = "usage: asst-gtk [--background | quick-add]";

/// What the arguments ask for.
#[derive(Debug)]
pub enum Run {
    Window(Start),
    /// Quick add, and the notes that what it adds is linked to.
    QuickAdd(Vec<String>),
    Help,
    /// What is said of an argument that is none of these.
    Unknown(String),
}

/// The notes that `--attach` names.
pub open spec fn attached(args: Seq<Seq<char>>) -> Seq<Seq<char>>
    decreases args.len(),
{
    if args.len() < 2 {
        Seq::empty()
    } else if args[0] == "--attach"@ {
        seq![args[1]] + attached(args.skip(2))
    } else {
        attached(args.skip(1))
    }
}

fn read_attached(args: &Vec<String>, from: usize) -> (r: Vec<String>)
    requires
        from <= args@.len(),
    ensures
        texts(r@) == attached(texts(args@).skip(from as int)),
{
    let mut out: Vec<String> = Vec::new();
    let ghost all = texts(args@);
    let ghost want = attached(all.skip(from as int));
    let n = args.len();
    let mut i: usize = from;
    assert(texts(out@) + attached(all.skip(i as int)) =~= want);
    while n - i >= 2
        invariant
            all == texts(args@),
            n == args@.len(),
            i <= n,
            texts(out@) + attached(all.skip(i as int)) == want,
        decreases n - i,
    {
        let ghost rest = all.skip(i as int);
        assert(rest[0] == args@[i as int]@ && rest[1] == args@[i + 1]@);
        if same(args[i].as_str(), "--attach") {
            let ghost before = texts(out@);
            out.push(args[i + 1].clone());
            assert(rest.skip(2) == all.skip(i + 2));
            assert(texts(out@) =~= before.push(rest[1]));
            assert(texts(out@) + attached(all.skip(i + 2)) =~= before + attached(rest));
            i += 2;
        } else {
            assert(rest.skip(1) == all.skip(i + 1));
            i += 1;
        }
    }
    assert(texts(out@) =~= want);
    out
}

/// What the arguments ask for.
pub open spec fn runs(args: Seq<Seq<char>>, r: Run) -> bool {
    if args.len() == 0 {
        r == Run::Window(Start::Window)
    } else if args[0] == "--background"@ {
        r == Run::Window(Start::Background)
    } else if args[0] == "--gapplication-service"@ {
        r == Run::Window(Start::Service)
    } else if args[0] == "quick-add"@ {
        r matches Run::QuickAdd(notes) && texts(notes@) == attached(args.skip(1))
    } else if args[0] == "-h"@ || args[0] == "--help"@ {
        r is Help
    } else {
        r matches Run::Unknown(s) && s@ == "asst-gtk: unknown command "@ + quoted(args[0]) + "; "@
            + USAGE@
    }
}

/// What the arguments ask for.
pub fn read_args(args: &Vec<String>) -> (r: Run)
    ensures
        runs(texts(args@), r),
{
    if args.len() == 0 {
        return Run::Window(Start::Window);
    }
    let first = args[0].as_str();
    assert(texts(args@)[0] == args@[0]@);
    if same(first, "--background") {
        Run::Window(Start::Background)
    } else if same(first, "--gapplication-service") {
        Run::Window(Start::Service)
    } else if same(first, "quick-add") {
        Run::QuickAdd(read_attached(args, 1))
    } else if same(first, "-h") || same(first, "--help") {
        Run::Help
    } else {
        let mut s = glue3("asst-gtk: unknown command ", debug_text(first).as_str(), "; ");
        s.append(USAGE);
        Run::Unknown(s)
    }
}

/// Whether it ends at once: a login script starts no second one.
pub fn ends_at_once(start: Start, running: bool) -> (r: bool)
    ensures
        r == (start == Start::Background && running),
{
    start == Start::Background && running
}

/// Whether it starts with no window: only with a tray to come back from.
pub fn starts_hidden(start: Start, prefs: &Prefs) -> (r: bool)
    ensures
        r == (start == Start::Background && prefs.background),
{
    start == Start::Background && prefs.background
}

/// A window before anything is loaded.
pub open spec fn is_new(w: Window, prefs: Prefs) -> bool {
    &&& w.prefs == prefs
    &&& w.nav@ == (match view_of(prefs.view@) {
        Some(n) => n,
        None => NavView::Today,
    })
    &&& w.lists@.len() == 0 && w.open@.len() == 0 && w.completed is None
    &&& w.status is None && w.settings is None && w.error is None && !w.loaded
    &&& w.cursor is None && w.editing is None && w.folding is None && !w.expand
    &&& w.editor.open is None && !w.editor.title_waits && !w.editor.notes_wait
    &&& w.refocus == Refocus::Keep
    &&& w.adding is None && !w.add_folding
    &&& !w.select_mode && w.selected@.len() == 0
    &&& w.completing@.len() == 0 && w.rolled@.len() == 0 && w.hidden@.len() == 0
    &&& w.built.nav is None && w.built.completing@.len() == 0 && !w.built.adding
        && !w.built.selecting && !w.built.editing
    &&& w.settle_until is None && w.pending_d is None && w.last_focus_sync is None
    &&& w.serial == 0 && w.load_generation == 0 && w.completed_generation == 0
    &&& !w.dirty && w.shown is None
    &&& w.signing_in is None && w.sign_in_error is None
}

impl Window {
    fn empty(prefs: Prefs) -> (r: Window)
        ensures
            is_new(r, prefs),
            r.wf(),
            r.counts_on(),
    {
        let nav = match Nav::from_key(prefs.view.as_str()) {
            Some(n) => n,
            None => Nav::Today,
        };
        let w = Window {
            nav,
            lists: Vec::new(),
            open: Vec::new(),
            completed: None,
            status: None,
            settings: None,
            error: None,
            loaded: false,
            prefs,
            cursor: None,
            editing: None,
            editor: Editor::new(),
            expand: false,
            folding: None,
            refocus: Refocus::Keep,
            adding: None,
            add_folding: false,
            select_mode: false,
            selected: Vec::new(),
            completing: Vec::new(),
            rolled: Vec::new(),
            built: Built {
                nav: None,
                completing: Vec::new(),
                adding: false,
                selecting: false,
                editing: false,
            },
            settle_until: None,
            serial: 0,
            hidden: Vec::new(),
            load_generation: 0,
            completed_generation: 0,
            dirty: false,
            shown: None,
            pending_d: None,
            last_focus_sync: None,
            signing_in: None,
            sign_in_error: None,
        };
        assert(texts(w.selected@) =~= Seq::<Seq<char>>::empty());
        assert(crate::keyed::keys(pairs(w.completing@)) =~= Seq::<Seq<char>>::empty());
        w
    }

    /// A window with these preferences, on the view shown last, and what it
    /// asks for first.
    pub fn new(prefs: Prefs) -> (r: (Window, Vec<Do>))
        ensures
            exists|w: Window| #[trigger]
                is_new(w, prefs) && r.0 == reloaded(w) && r.1@ == reload_acts(w).push(
                    Do::LoadSettings,
                ),
            r.0.wf(),
            r.0.counts_on(),
    {
        let mut w = Window::empty(prefs);
        let ghost first = w;
        let mut acts = w.reload();
        acts.push(Do::LoadSettings);
        assert(is_new(first, prefs));
        (w, acts)
    }
}

} // verus!
