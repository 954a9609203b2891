//! Every message the window gets, and what comes of it.

use vstd::prelude::*;
use vstd::string::*;

use crate::addcard::Target;
use crate::arrange::{order, sorted};
use crate::batch::batches;
use crate::change::{Change, no_change};
use crate::cli::{count_done, done_in};
use crate::content::target_opt;
use crate::editor::Edit;
use crate::keyed::{put_text, take_text, with_keeps_others, with_text, without, without_leaves_others};
use crate::keys::presses;
use crate::nav::{Nav, NavView, OptsView, ViewOpts, find_list, key_of, list_at, navs, title_of};
use crate::plan::{in_list, inbox, inbox_of};
use crate::prefs::{Prefs, keys, opts_at, sidebar_keys, sidebar_of};
use crate::reorder::place;
use crate::sorting::arranged;
use crate::steps::{
    asks, asks_one, check_acts, checks, completes, in_quotes, lacking_acts, lacks_completed, makes,
    on_its_way, only, quoted, reload_acts, reloaded, say_tasks, stops, tasks_text, toggled,
};
use crate::task::{ListView, Task, TaskView, tasks_wf, unref};
use crate::text::{glue, glue3, has_text, texts};
use crate::update::{
    Do, Msg, Seen, Step, closes, edits_task, fold_acts, folds, holding, lets_go, open_acts, opens,
    typed_in,
};
use crate::window::{Completing, Refocus, Window, find_place, not_hidden};

verus! {

// -- moving around ------------------------------------------------------------------------------

/// Another view: nothing is added, selected or open in it yet.
pub open spec fn navigates(old: Window, nav: Nav, seen: Seen, new: Window, r: Step) -> bool {
    let tail = (if seen.narrow {
        seq![Do::ShowSidebar(false)]
    } else {
        Seq::empty()
    }) + seq![Do::FocusColumn];
    if nav@ == old.nav@ {
        new == old && makes(r, tail, Seq::empty())
    } else {
        let mid = Window {
            nav,
            prefs: new.prefs,
            adding: None,
            cursor: None,
            select_mode: false,
            selected: new.selected,
            ..old
        };
        &&& new.prefs == (Prefs { view: new.prefs.view, ..old.prefs })
        &&& new.prefs.view@ == key_of(nav@)
        &&& new.selected@ == (if old.select_mode {
            Seq::empty()
        } else {
            old.selected@
        })
        &&& closes(
            Window {
                completed_generation: if lacks_completed(mid) {
                    (old.completed_generation + 1) as u64
                } else {
                    old.completed_generation
                },
                ..mid
            },
            seen,
            new,
            r.edits@,
        )
        &&& makes(r, seq![Do::Save] + lacking_acts(mid) + tail, r.edits@)
    }
}

/// Coming back to the window syncs, now and then.
pub open spec fn focuses(old: Window, seen: Seen, new: Window, r: Step) -> bool {
    if old.loaded && (old.last_focus_sync matches Some(t) ==> seen.at > t + 30_000) {
        new == (Window { last_focus_sync: Some(seen.at), ..old }) && asks(r, seq![Do::Sync(false)])
    } else {
        new == old && asks(r, Seq::empty())
    }
}

/// The card has folded: the row takes its place.
pub open spec fn folded(old: Window, href: Seq<char>, seen: Seen, new: Window, r: Step) -> bool {
    if old.folding matches Some(f) && f@ == href {
        &&& closes(Window { refocus: Refocus::Row, ..old }, seen, new, r.edits@)
        &&& makes(r, Seq::empty(), r.edits@)
    } else {
        new == old && asks(r, Seq::empty())
    }
}

/// Going to where a task lives, and opening it there.
pub open spec fn reveals(old: Window, href: String, seen: Seen, new: Window, r: Step) -> bool {
    match old.task(href@) {
        None => new == old && asks(r, seq![Do::Get(href)]),
        Some(t) => {
            let here = NavView::List(t.list@);
            &&& lets_go(old, seen, new, r.edits@)
            &&& new.task(href@) is Some
            &&& new == (Window {
                nav: new.nav,
                prefs: new.prefs,
                adding: None,
                cursor: Some(href),
                editing: Some(href),
                editor: holding(new.task(href@)->0),
                folding: None,
                expand: true,
                refocus: Refocus::Editor,
                shown: None,
                open: new.open,
                completed: new.completed,
                ..old
            })
            &&& new.nav@ == here
            &&& shows_where(old.prefs, here, t.task.open, new.prefs)
            &&& makes(r, seq![Do::Save, Do::ShowTask(href)], r.edits@)
        },
    }
}

/// The preferences once a task was gone to: its view is the one shown last,
/// and shows completed tasks when the task is one.
pub open spec fn shows_where(old: Prefs, here: NavView, open: bool, new: Prefs) -> bool {
    &&& new == (Prefs { view: new.view, views: new.views, ..old })
    &&& new.view@ == key_of(here)
    &&& if open {
        new.views == old.views
    } else {
        forall|n: NavView| #[trigger]
            opts_at(new.views@, key_of(n)) == (if n == here {
                OptsView { show_completed: true, ..opts_at(old.views@, key_of(n)) }
            } else {
                opts_at(old.views@, key_of(n))
            })
    }
}

// -- tasks --------------------------------------------------------------------------------------

/// A row's checkbox; a task that is open in place folds as it is checked.
pub open spec fn checked(old: Window, href: String, done: bool, seen: Seen, new: Window, r: Step) -> bool {
    let mid = Window { completing: old.completing, serial: old.serial, ..new };
    &&& if done && edits_task(old, href@) {
        folds(old, seen, mid, r.edits@)
    } else {
        mid == old && r.edits@.len() == 0
    }
    &&& checks(mid, href@, done, new)
    &&& makes(
        r,
        (if done && edits_task(old, href@) {
            fold_acts(old, seen)
        } else {
            Seq::empty()
        }) + check_acts(mid, href, done),
        r.edits@,
    )
}

/// A task that waited its moment out.
pub open spec fn completes_now(old: Window, href: String, serial: u64, new: Window, r: Step) -> bool {
    if on_its_way(old, href@) == Some(Completing::Waiting(serial)) {
        completes(old, href@, new) && asks(r, seq![Do::Complete(href)])
    } else {
        new == old && asks(r, Seq::empty())
    }
}

/// A task completed at once.
pub open spec fn completes_at_once(old: Window, href: String, seen: Seen, new: Window, r: Step) -> bool {
    if old.is_open(href@) && on_its_way(old, href@) is None {
        let mid = Window { completing: old.completing, ..new };
        &&& if edits_task(old, href@) {
            closes(old, seen, mid, r.edits@)
        } else {
            mid == old && r.edits@.len() == 0
        }
        &&& completes(mid, href@, new)
        &&& makes(r, seq![Do::Complete(href)], r.edits@)
    } else {
        new == old && asks(r, Seq::empty())
    }
}

/// A change to a task: its words are shown at once.
pub open spec fn edits(old: Window, href: String, c: Change, new: Window, r: Step) -> bool {
    &&& new == (Window { open: new.open, completed: new.completed, ..old })
    &&& (new.open@, new.done()) == (if place(old.open@, href@) is Some {
        (typed_in(old.open@, href@, c), old.done())
    } else {
        (old.open@, typed_in(old.done(), href@, c))
    })
    &&& new.completed is Some == old.completed is Some
    &&& asks_one(r)
    &&& r.acts@[0] matches Do::Edit(h, d, said) && h == href && d == c && said@.len() == 0
}

/// A task with a number in the custom order.
pub open spec fn numbered(t: TaskView, n: i64) -> TaskView {
    TaskView { task: Task { sort_order: Some(n), ..t.task }, ..t }
}

/// Tasks with new numbers, each for the first with its address.
pub open spec fn renumbered(s: Seq<TaskView>, orders: Seq<(String, i64)>) -> Seq<TaskView>
    decreases orders.len(),
{
    if orders.len() == 0 {
        s
    } else {
        let t = renumbered(s, orders.drop_last());
        match place(t, orders.last().0@) {
            Some(i) => t.update(i, numbered(t[i], orders.last().1)),
            None => t,
        }
    }
}

/// New numbers: the rows move now, and the daemon's copy catches up.
pub open spec fn reorders(old: Window, orders: Seq<(String, i64)>, new: Window, r: Step) -> bool {
    &&& new == (Window { open: new.open, ..old })
    &&& new.open@ == renumbered(old.open@, orders)
    &&& asks_one(r)
    &&& r.acts@[0] matches Do::EditAll(edits, said) && said@.len() == 0 && edits@.len()
        == orders.len() && forall|i: int|
        0 <= i < orders.len() ==> (#[trigger] edits@[i]).href == orders[i].0 && edits@[i].change
            == (Change { sort_order: Some(orders[i].1), ..no_change() })
}

/// A task is deleted: hidden, and held for undo.
pub open spec fn deletes(old: Window, href: String, seen: Seen, new: Window, r: Step) -> bool {
    match old.task(href@) {
        None => new == old && stops(r),
        Some(t) => {
            let mid = Window { hidden: old.hidden, ..new };
            &&& if edits_task(old, href@) {
                closes(Window { refocus: Refocus::Row, ..old }, seen, mid, r.edits@)
            } else {
                mid == old && r.edits@.len() == 0
            }
            &&& texts(new.hidden@) == with_text(texts(old.hidden@), href@)
            &&& r.acts@.len() == 1 && makes(r, r.acts@, r.edits@)
            &&& r.acts@[0] matches Do::UndoToast(text, secs, undo, gone) && text@ == "Deleted "@
                + in_quotes(t.task.summary@) && secs == 4 && undo@ == seq![Msg::Undelete(href)]
                && gone@ == seq![Msg::DeleteNow(href)]
        },
    }
}

pub open spec fn undeletes(old: Window, href: Seq<char>, new: Window, r: Step) -> bool {
    &&& new == (Window { hidden: new.hidden, ..old })
    &&& texts(new.hidden@) == without(texts(old.hidden@), href)
    &&& asks(r, Seq::empty())
}

/// A task as text: its title, and its notes under it.
pub open spec fn task_text(t: TaskView) -> Seq<char> {
    match t.task.description {
        Some(d) => t.task.summary@ + "\n\n"@ + d@,
        None => t.task.summary@,
    }
}

pub open spec fn copies(old: Window, href: Seq<char>, r: Step) -> bool {
    match old.task(href) {
        Some(t) => {
            &&& r.acts@.len() == 2 && makes(r, r.acts@, Seq::empty())
            &&& r.acts@[0] matches Do::Clipboard(s) && s@ == task_text(t)
            &&& r.acts@[1] matches Do::Toast(s) && s@ == "Copied to the clipboard"@
        },
        None => asks(r, Seq::empty()),
    }
}

/// The name of a list, empty when it is not there.
pub open spec fn name_of(lists: Seq<ListView>, href: Seq<char>) -> Seq<char> {
    match list_at(lists, href) {
        Some(l) => l.name@,
        None => Seq::empty(),
    }
}

pub open spec fn moves_task(old: Window, href: String, list: String, r: Step) -> bool {
    match old.task(href@) {
        Some(t) if t.list@ != list@ => {
            &&& asks_one(r)
            &&& r.acts@[0] matches Do::Edit(h, c, said) && h == href && c == (Change {
                list: Some(list),
                ..no_change()
            }) && said@ == "Moved "@ + in_quotes(t.task.summary@) + " to "@ + name_of(
                old.lists@,
                list@,
            )
        },
        _ => stops(r),
    }
}

/// A task dropped on a view: into its list, on its day, or completed.
pub open spec fn drops(old: Window, href: String, nav: Nav, seen: Seen, r: Step) -> bool {
    match old.task(href@) {
        None => stops(r),
        Some(t) => match nav {
            Nav::List(list) => asks(r, seq![Do::Send(Msg::Move(href, list))]),
            Nav::Inbox => match inbox_of(old.lists@) {
                Some(l) => asks(r, seq![Do::Send(Msg::Move(href, l.href))]),
                None => asks(r, Seq::empty()),
            },
            Nav::Today => asks(
                r,
                seq![Do::Send(Msg::Edit(href, crate::keys::to_day_from(t, seen, 0)))],
            ),
            Nav::Tomorrow => asks(
                r,
                seq![Do::Send(Msg::Edit(href, crate::keys::to_day_from(t, seen, 1)))],
            ),
            Nav::Completed => asks(r, seq![Do::Send(Msg::Complete(href))]),
            _ => asks(r, Seq::empty()),
        },
    }
}

// -- adding -------------------------------------------------------------------------------------

/// The add card opens where it is told to, or where this view adds.
pub open spec fn shows_add(
    old: Window,
    target: Option<Target>,
    seen: Seen,
    new: Window,
    r: Step,
    fill: Option<String>,
) -> bool {
    let at = match target {
        Some(t) => t@,
        None => old.target(seen.now.day()),
    };
    &&& lets_go(old, seen, new, r.edits@)
    &&& new == (Window {
        adding: new.adding,
        add_folding: false,
        folding: None,
        expand: false,
        editing: None,
        editor: if old.editing is Some {
            crate::update::no_task()
        } else {
            old.editor
        },
        cursor: if old.editing is Some {
            old.editing
        } else {
            old.cursor
        },
        shown: None,
        open: new.open,
        completed: new.completed,
        ..old
    })
    &&& target_opt(new.adding) == Some(at)
    &&& r.acts@ == (if target_opt(old.adding) == Some(at) {
        Seq::empty()
    } else {
        seq![Do::OpenCard(new.adding->0)]
    })
    &&& r.draws
    &&& r.after@ == (match fill {
        Some(text) => seq![Do::FocusCard, Do::FillCard(text)],
        None => seq![Do::FocusCard],
    })
}

/// Rebuilds wait a while, unless they wait longer already.
pub open spec fn held(old: Window, at: u64, ms: u64) -> Window {
    if ms == 0 || (old.settle_until matches Some(u) && u >= at + ms) {
        old
    } else {
        Window { settle_until: Some((at + ms) as u64), ..old }
    }
}

pub open spec fn hold_acts(old: Window, at: u64, ms: u64) -> Seq<Do> {
    if ms == 0 || (old.settle_until matches Some(u) && u >= at + ms) {
        Seq::empty()
    } else {
        seq![Do::Later(ms, Msg::Resume)]
    }
}

/// The add card goes: it folds first, where things move.
pub open spec fn hides_add(old: Window, seen: Seen, new: Window, r: Step) -> bool {
    if seen.card_mapped && old.adding is Some && seen.row_ms > 0 {
        &&& new == held(Window { add_folding: true, ..old }, seen.at, seen.row_ms)
        &&& asks(
            r,
            seq![Do::FocusColumn, Do::FoldCard] + hold_acts(old, seen.at, seen.row_ms) + seq![
                Do::Later(seen.row_ms, Msg::AddFolded),
            ],
        )
    } else {
        new == (Window { adding: None, ..old }) && asks(r, seq![Do::FocusColumn])
    }
}

// -- selecting ----------------------------------------------------------------------------------

pub open spec fn selects(old: Window, on: bool, seen: Seen, new: Window, r: Step) -> bool {
    if on {
        &&& closes(Window { select_mode: true, ..old }, seen, new, r.edits@)
        &&& makes(r, Seq::empty(), r.edits@)
    } else {
        &&& new == (Window { select_mode: false, selected: new.selected, ..old })
        &&& new.selected@.len() == 0
        &&& asks(r, Seq::empty())
    }
}

pub open spec fn selects_one(old: Window, href: Seq<char>, seen: Seen, new: Window, r: Step) -> bool {
    &&& texts(new.selected@) == toggled(texts(old.selected@), href)
    &&& closes(
        Window { select_mode: true, selected: new.selected, ..old },
        seen,
        new,
        r.edits@,
    )
    &&& makes(r, Seq::empty(), r.edits@)
}

pub open spec fn activates(old: Window, href: String, seen: Seen, new: Window, r: Step) -> bool {
    if old.select_mode {
        &&& new == (Window { selected: new.selected, ..old })
        &&& texts(new.selected@) == toggled(texts(old.selected@), href@)
        &&& asks(r, Seq::empty())
    } else {
        &&& opens(old, href, seen, new, r.edits@)
        &&& makes(r, open_acts(old, href, seen), r.edits@)
    }
}

// -- views and lists ----------------------------------------------------------------------------

/// Another way to show the view.
pub open spec fn sets_opts(old: Window, opts: ViewOpts, new: Window, r: Step) -> bool {
    let mid = Window { prefs: new.prefs, ..old };
    &&& new.prefs == (Prefs { views: new.prefs.views, ..old.prefs })
    &&& forall|n: NavView| #[trigger]
        opts_at(new.prefs.views@, key_of(n)) == (if n == old.nav@ {
            opts@
        } else {
            opts_at(old.prefs.views@, key_of(n))
        })
    &&& new == (Window {
        completed_generation: if lacks_completed(mid) {
            (old.completed_generation + 1) as u64
        } else {
            old.completed_generation
        },
        ..mid
    })
    &&& asks(r, seq![Do::Save] + lacking_acts(mid))
}

/// How many open tasks a list has.
pub open spec fn open_in(w: Window, href: Seq<char>) -> nat {
    w.open@.filter(in_list(href)).len()
}

pub open spec fn asks_delete_list(old: Window, href: String, r: Step) -> bool {
    match list_at(old.lists@, href@) {
        Some(l) => asks_one(r) && r.acts@[0] == Do::DeleteListDialog(
            href,
            open_in(old, href@) as usize,
        ),
        None => asks(r, Seq::empty()),
    }
}

pub open spec fn deletes_list(old: Window, href: String, new: Window, r: Step) -> bool {
    &&& new == (if old.nav@ == NavView::List(href@) {
        Window { nav: Nav::Today, ..old }
    } else {
        old
    })
    &&& asks_one(r)
    &&& r.acts@[0] matches Do::DeleteList(h, said) && h == href && said@ == "Deleted "@ + in_quotes(
        name_of(old.lists@, href@),
    )
}

/// Completed tasks are asked about before they are deleted.
pub open spec fn asks_delete_completed(old: Window, list: Option<String>, r: Step) -> bool {
    let found = match list {
        Some(href) => list_at(old.lists@, href@),
        None => None,
    };
    if list is Some && found is None {
        stops(r)
    } else {
        let n = match found {
            Some(l) => l.done as nat,
            None => done_in(old.lists@),
        };
        &&& asks_one(r)
        &&& if n == 0 {
            r.acts@[0] matches Do::Toast(s) && s@ == "Nothing completed to delete"@
        } else {
            r.acts@[0] matches Do::DeleteCompletedDialog(k, from, l) && k == n && l == list && from@
                == (match found {
                Some(x) => in_quotes(x.name@),
                None => "every list"@,
            })
        }
    }
}

/// A list is put away, or brought back.
pub open spec fn archives(old: Window, href: String, on: bool, new: Window, r: Step) -> bool {
    match list_at(old.lists@, href@) {
        None => new == old && stops(r),
        Some(l) => {
            &&& new == (Window { prefs: new.prefs, ..old })
            &&& new.prefs == (Prefs { archived: new.prefs.archived, ..old.prefs })
            &&& texts(new.prefs.archived@) == archived_with(texts(old.prefs.archived@), href@, on)
            &&& r.acts@.len() == 2 && makes(r, r.acts@, Seq::empty())
            &&& r.acts@[0] is Save
            &&& r.acts@[1] matches Do::UndoToast(text, secs, undo, gone) && text@ == (if on {
                "Archived "@
            } else {
                "Unarchived "@
            }) + in_quotes(l.name@) && secs == 4 && undo@ == seq![Msg::Archive(href, !on)]
                && gone@.len() == 0
        },
    }
}

/// The lists put away, with one put away or brought back.
pub open spec fn archived_with(s: Seq<Seq<char>>, href: Seq<char>, on: bool) -> Seq<Seq<char>> {
    if on {
        without(s, href).push(href)
    } else {
        without(s, href)
    }
}

/// A list's open tasks, as they are shown.
pub open spec fn list_tasks(w: Window, href: Seq<char>) -> Seq<TaskView> {
    arranged(
        w.open@.filter(not_hidden(texts(w.hidden@))).filter(in_list(href)),
        order(w.opts(NavView::List(href)).sort_of(NavView::List(href))),
    )
}

pub open spec fn hrefs_of(s: Seq<TaskView>) -> Seq<String> {
    s.map_values(|t: TaskView| t.href)
}

pub open spec fn copies_list(old: Window, href: Seq<char>, r: Step) -> bool {
    match list_at(old.lists@, href) {
        Some(l) => {
            &&& asks_one(r)
            &&& r.acts@[0] matches Do::CopyTasks(head, hrefs, said) && head@ == "## "@ + l.name@
                + "\n\n"@ && hrefs@ == hrefs_of(list_tasks(old, href)) && said@ == "Copied "@
                + in_quotes(l.name@) + " as Markdown"@
        },
        None => asks(r, Seq::empty()),
    }
}

/// A view is taken out of the sidebar, and can be put back.
pub open spec fn hides_view(old: Window, nav: Nav, new: Window, r: Step) -> bool {
    let before = sidebar_of(sidebar_keys(old.prefs.sidebar));
    &&& new == (Window { prefs: new.prefs, ..old })
    &&& new.prefs == (Prefs { sidebar: new.prefs.sidebar, ..old.prefs })
    &&& sidebar_keys(new.prefs.sidebar) == Some(keys(before.filter(|n: NavView| n != nav@)))
    &&& r.acts@.len() == 2 && makes(r, r.acts@, Seq::empty())
    &&& r.acts@[0] is Save
    &&& r.acts@[1] matches Do::UndoToast(text, secs, undo, gone) && text@ == "Took "@ + title_of(
        nav@,
        Seq::empty(),
    ) + " out of the sidebar"@ && secs == 4 && gone@.len() == 0 && undo@.len() == 1 && (
    undo@[0] matches Msg::SetSidebar(v) && navs(v@) == before)
}

pub open spec fn sets_sidebar(old: Window, views: Seq<Nav>, new: Window, r: Step) -> bool {
    &&& new == (Window { prefs: new.prefs, ..old })
    &&& new.prefs == (Prefs { sidebar: new.prefs.sidebar, ..old.prefs })
    &&& sidebar_keys(new.prefs.sidebar) == Some(keys(navs(views)))
    &&& asks(r, seq![Do::Save])
}

// -- the window itself --------------------------------------------------------------------------

/// The window's size for next time, while it has one.
pub open spec fn sized(p: Prefs, seen: Seen) -> Prefs {
    if !seen.visible {
        p
    } else if seen.maximized {
        Prefs { maximized: true, ..p }
    } else {
        Prefs { maximized: false, width: seen.width, height: seen.height, ..p }
    }
}

pub open spec fn size_acts(seen: Seen) -> Seq<Do> {
    if seen.visible {
        seq![Do::Save]
    } else {
        Seq::empty()
    }
}

/// Into the tray. Typing is saved, and deletes held for undo go through, since
/// their toasts go with the window.
pub open spec fn hides(old: Window, seen: Seen, new: Window, r: Step) -> bool {
    &&& closes(Window { prefs: sized(old.prefs, seen), ..old }, seen, new, r.edits@)
    &&& makes(r, size_acts(seen) + seq![Do::HideWindow], r.edits@)
}

/// What is waiting is sent, then the window goes.
pub open spec fn quits(old: Window, seen: Seen, new: Window, r: Step) -> bool {
    let waiting = old.editor.title_waits || old.editor.notes_wait;
    &&& closes(Window { prefs: sized(old.prefs, seen), ..old }, seen, new, r.edits@)
    &&& !r.draws && r.after@.len() == 0
    &&& r.acts@.len() == size_acts(seen).len() + 1
    &&& seen.visible ==> r.acts@[0] is Save
    &&& r.acts@.last() matches Do::Finish(deletes, wait) && deletes@ == old.hidden@ && wait == (
    waiting || old.hidden@.len() > 0)
}

pub open spec fn sets_prefs(old: Window, prefs: Prefs, seen: Seen, new: Window, r: Step) -> bool {
    &&& new == (Window { prefs, shown: None, ..old })
    &&& asks(
        r,
        seq![Do::Save, Do::CardDefaults] + (if prefs.background != seen.tray {
            seq![Do::Tray(prefs.background)]
        } else {
            Seq::empty()
        }),
    )
}

pub open spec fn signs_in(old: Window, server: String, new: Window, r: Step) -> bool {
    &&& new == (Window { sign_in_error: None, signing_in: new.signing_in, ..old })
    &&& new.signing_in matches Some(u) && u@.len() == 0
    &&& asks(r, seq![Do::Login(server)])
}

// -- all of them --------------------------------------------------------------------------------

/// Moving around, and opening tasks.
pub open spec fn is_around(msg: Msg) -> bool {
    msg is Navigate || msg is ToggleSidebar || msg is Refresh || msg is Tick || msg is Focused
        || msg is SyncNow || msg is Activate || msg is Open || msg is CloseEditor || msg is Folded
        || msg is OpenTask || msg is Reveal || msg is Key || msg is Resume
}

/// What is done to one task.
pub open spec fn is_task(msg: Msg) -> bool {
    msg is Check || msg is CompleteNow || msg is Complete || msg is Reopen || msg is Edit
        || msg is EditMany || msg is Reorder || msg is Delete || msg is Undelete
        || msg is DeleteNow || msg is Duplicate || msg is Copy || msg is Move || msg is DropTask
}

/// Adding and selecting tasks.
pub open spec fn is_adding(msg: Msg) -> bool {
    msg is Add || msg is ShowAdd || msg is AddText || msg is Paste || msg is HideAdd
        || msg is AddFolded || msg is SelectMode || msg is SelectToggle || msg is Batch
        || msg is SaveIcs || msg is PlaceSearch || msg is NewNote
}

/// Views and lists.
pub open spec fn is_lists(msg: Msg) -> bool {
    msg is SetViewOpts || msg is NewList || msg is EditList || msg is SaveList
        || msg is AskDeleteList || msg is DeleteList || msg is AskDeleteCompleted
        || msg is DeleteCompleted || msg is ReorderLists || msg is Archive || msg is CopyList
        || msg is HideView || msg is SetSidebar
}

/// The window itself, and the account.
pub open spec fn is_window(msg: Msg) -> bool {
    msg is ThemeChanged || msg is QuickFind || msg is Preferences || msg is Shortcuts
        || msg is About || msg is SetPrefs || msg is SetSettings || msg is SignIn
        || msg is CancelSignIn || msg is SignOut || msg is CloseWindow || msg is Quit
        || msg is ShowWindow || msg is TrayClick
}

/// Moving around, and opening tasks.
pub open spec fn around_handled(old: Window, msg: Msg, seen: Seen, new: Window, r: Step) -> bool {
    match msg {
        Msg::Navigate(nav) => navigates(old, nav, seen, new, r),
        Msg::ToggleSidebar => new == old && asks(r, seq![Do::ShowSidebar(!seen.sidebar)]),
        Msg::Refresh => new == reloaded(old) && asks(r, reload_acts(old)),
        Msg::Tick => new == old && asks(r, Seq::empty()),
        Msg::Focused => focuses(old, seen, new, r),
        Msg::SyncNow => new == old && asks(r, seq![Do::Sync(true)]),
        Msg::Activate(href) => activates(old, href, seen, new, r),
        Msg::Open(href) => opens(old, href, seen, new, r.edits@) && makes(
            r,
            open_acts(old, href, seen),
            r.edits@,
        ),
        Msg::CloseEditor => folds(old, seen, new, r.edits@) && makes(
            r,
            fold_acts(old, seen),
            r.edits@,
        ),
        Msg::Folded(href) => folded(old, href@, seen, new, r),
        Msg::OpenTask(id) => new == old && asks(r, seq![Do::Present, Do::Send(Msg::Reveal(id))]),
        Msg::Reveal(href) => reveals(old, href, seen, new, r),
        Msg::Resume => new == old && if old.dirty {
            asks(r, Seq::empty())
        } else {
            stops(r)
        },
        Msg::Key(key) => presses(old, key, seen, new, r),
        _ => false,
    }
}

/// What is done to one task.
pub open spec fn task_handled(old: Window, msg: Msg, seen: Seen, new: Window, r: Step) -> bool {
    match msg {
        Msg::Check(href, done) => checked(old, href, done, seen, new, r),
        Msg::CompleteNow(href, serial) => completes_now(old, href, serial, new, r),
        Msg::Complete(href) => completes_at_once(old, href, seen, new, r),
        Msg::Reopen(href) => new == old && asks(r, seq![Do::Reopen(href)]),
        Msg::Edit(href, c) => edits(old, href, c, new, r),
        Msg::EditMany(v) => new == old && asks_one(r) && (r.acts@[0] matches Do::EditAll(e, said)
            && e == v && said@ == tasks_text("Moved"@, v@.len())),
        Msg::Reorder(orders) => reorders(old, orders@, new, r),
        Msg::Delete(href) => deletes(old, href, seen, new, r),
        Msg::Undelete(href) => undeletes(old, href@, new, r),
        Msg::DeleteNow(href) => new == old && asks(
            r,
            if texts(old.hidden@).contains(href@) && old.known(href@) {
                seq![Do::Delete(href)]
            } else {
                Seq::empty()
            },
        ),
        Msg::Duplicate(href) => new == old && asks(r, seq![Do::Duplicate(href)]),
        Msg::Copy(href) => new == old && copies(old, href@, r),
        Msg::Move(href, list) => new == old && moves_task(old, href, list, r),
        Msg::DropTask(href, nav) => new == old && drops(old, href, nav, seen, r),
        _ => false,
    }
}

/// Adding and selecting tasks.
pub open spec fn adding_handled(old: Window, msg: Msg, seen: Seen, new: Window, r: Step) -> bool {
    match msg {
        Msg::Add(spec) => new == old && asks(r, seq![Do::Add(spec)]),
        Msg::ShowAdd(target) => shows_add(old, target, seen, new, r, None),
        Msg::AddText(text) => shows_add(old, None, seen, new, r, Some(text)),
        Msg::Paste => new == old && asks(r, seq![Do::ReadClipboard]),
        Msg::HideAdd => hides_add(old, seen, new, r),
        Msg::AddFolded => asks(r, Seq::empty()) && new == (if old.add_folding {
            Window { add_folding: false, adding: None, ..old }
        } else {
            old
        }),
        Msg::SelectMode(on) => selects(old, on, seen, new, r),
        Msg::SelectToggle(href) => selects_one(old, href@, seen, new, r),
        Msg::Batch(b) => batches(old, b, seen, new, r),
        Msg::SaveIcs(href) => new == old && asks(r, seq![Do::Ics(href)]),
        Msg::PlaceSearch(q) => new == old && asks(r, seq![Do::Places(q)]),
        Msg::NewNote(href, title) => new == old && asks(r, seq![Do::NewNote(href, title)]),
        _ => false,
    }
}

/// Views and lists.
pub open spec fn lists_handled(old: Window, msg: Msg, seen: Seen, new: Window, r: Step) -> bool {
    match msg {
        Msg::SetViewOpts(opts) => sets_opts(old, opts, new, r),
        Msg::NewList => new == old && asks(r, seq![Do::NewListDialog]),
        Msg::EditList(href) => new == old && asks(
            r,
            if list_at(old.lists@, href@) is Some {
                seq![Do::EditListDialog(href)]
            } else {
                Seq::empty()
            },
        ),
        Msg::SaveList(href, name, color) => new == old && asks(
            r,
            seq![Do::SaveList(href, name, color)],
        ),
        Msg::AskDeleteList(href) => new == old && asks_delete_list(old, href, r),
        Msg::DeleteList(href) => deletes_list(old, href, new, r),
        Msg::AskDeleteCompleted(list) => new == old && asks_delete_completed(old, list, r),
        Msg::DeleteCompleted(list) => new == old && asks(r, seq![Do::DeleteCompleted(list)]),
        Msg::ReorderLists(v) => new == (Window {
            prefs: Prefs { list_order: v, ..old.prefs },
            ..old
        }) && asks(r, seq![Do::Save]),
        Msg::Archive(href, on) => archives(old, href, on, new, r),
        Msg::CopyList(href) => new == old && copies_list(old, href@, r),
        Msg::HideView(nav) => hides_view(old, nav, new, r),
        Msg::SetSidebar(views) => sets_sidebar(old, views@, new, r),
        _ => false,
    }
}

/// The window itself, and the account.
pub open spec fn window_handled(old: Window, msg: Msg, seen: Seen, new: Window, r: Step) -> bool {
    match msg {
        Msg::ThemeChanged => if old.editing is None {
            new == (Window { shown: None, ..old }) && asks(r, seq![Do::NewEditor])
        } else {
            new == old && asks(r, Seq::empty())
        },
        Msg::QuickFind => new == old && asks(r, seq![Do::QuickFind]),
        Msg::Preferences(page) => new == old && asks(r, seq![Do::Preferences(page)]),
        Msg::Shortcuts => new == old && asks(r, seq![Do::Shortcuts]),
        Msg::About => new == old && asks(r, seq![Do::About]),
        Msg::SetPrefs(prefs) => sets_prefs(old, prefs, seen, new, r),
        Msg::SetSettings(c) => new == old && asks(r, seq![Do::SetSettings(c)]),
        Msg::SignIn(server) => signs_in(old, server, new, r),
        Msg::CancelSignIn => new == (Window { signing_in: None, ..old }) && asks(r, Seq::empty()),
        Msg::SignOut => new == old && asks(r, seq![Do::Logout]),
        Msg::CloseWindow => if old.prefs.background && seen.tray && seen.tray_online {
            hides(old, seen, new, r)
        } else {
            new == old && asks(r, seq![Do::Send(Msg::Quit)])
        },
        Msg::Quit => quits(old, seen, new, r),
        Msg::ShowWindow => new == old && asks(r, seq![Do::Present]),
        Msg::TrayClick => if seen.visible && seen.active {
            hides(old, seen, new, r)
        } else {
            new == old && asks(r, seq![Do::Present])
        },
        _ => false,
    }
}

/// What comes of a message.
pub open spec fn handles(old: Window, msg: Msg, seen: Seen, new: Window, r: Step) -> bool {
    if is_around(msg) {
        around_handled(old, msg, seen, new, r)
    } else if is_task(msg) {
        task_handled(old, msg, seen, new, r)
    } else if is_adding(msg) {
        adding_handled(old, msg, seen, new, r)
    } else if is_lists(msg) {
        lists_handled(old, msg, seen, new, r)
    } else {
        window_handled(old, msg, seen, new, r)
    }
}

/// Not something done in the window: a rebuild for it can wait out an
/// animation.
pub fn is_passive(msg: &Msg) -> (r: bool)
    ensures
        r == (msg is Resume || msg is Tick || msg is Focused),
{
    match msg {
        Msg::Resume | Msg::Tick | Msg::Focused => true,
        _ => false,
    }
}

proof fn lemma_reveals(
    old: Window,
    mid: Window,
    there: Window,
    new: Window,
    href: String,
    seen: Seen,
    edits: Seq<Edit>,
    more: Seq<Edit>,
)
    requires
        closes(old, seen, mid, edits),
        there == (Window { nav: there.nav, prefs: there.prefs, adding: None, ..mid }),
        there.task(href@) is Some,
        opens(there, href, seen, new, more),
    ensures
        lets_go(old, seen, new, edits),
        new.task(href@) == there.task(href@),
        new == (Window {
            nav: there.nav,
            prefs: there.prefs,
            adding: None,
            cursor: Some(href),
            editing: Some(href),
            editor: holding(there.task(href@)->0),
            folding: None,
            expand: true,
            refocus: Refocus::Editor,
            shown: None,
            open: new.open,
            completed: new.completed,
            ..old
        }),
{
    assert(there.editing is None);
    assert(more.len() == 0);
    assert((new.open@, new.done()) == (there.open@, there.done()));
}

/// What a message is about.
enum Part {
    Around,
    Task,
    Adding,
    Lists,
    Window,
}

fn part_of(msg: &Msg) -> (r: Part)
    ensures
        r is Around == is_around(*msg),
        r is Task == is_task(*msg),
        r is Adding == is_adding(*msg),
        r is Lists == is_lists(*msg),
        r is Window == is_window(*msg),
{
    match msg {
        Msg::Navigate(_) | Msg::ToggleSidebar | Msg::Refresh | Msg::Tick | Msg::Focused
        | Msg::SyncNow | Msg::Activate(_) | Msg::Open(_) | Msg::CloseEditor | Msg::Folded(_)
        | Msg::OpenTask(_) | Msg::Reveal(_) | Msg::Key(_) | Msg::Resume => Part::Around,
        Msg::Check(_, _) | Msg::CompleteNow(_, _) | Msg::Complete(_) | Msg::Reopen(_)
        | Msg::Edit(_, _) | Msg::EditMany(_) | Msg::Reorder(_) | Msg::Delete(_) | Msg::Undelete(_)
        | Msg::DeleteNow(_) | Msg::Duplicate(_) | Msg::Copy(_) | Msg::Move(_, _)
        | Msg::DropTask(_, _) => Part::Task,
        Msg::Add(_) | Msg::ShowAdd(_) | Msg::AddText(_) | Msg::Paste | Msg::HideAdd
        | Msg::AddFolded | Msg::SelectMode(_) | Msg::SelectToggle(_) | Msg::Batch(_)
        | Msg::SaveIcs(_) | Msg::PlaceSearch(_) | Msg::NewNote(_, _) => Part::Adding,
        Msg::SetViewOpts(_) | Msg::NewList | Msg::EditList(_) | Msg::SaveList(_, _, _)
        | Msg::AskDeleteList(_) | Msg::DeleteList(_) | Msg::AskDeleteCompleted(_)
        | Msg::DeleteCompleted(_) | Msg::ReorderLists(_) | Msg::Archive(_, _) | Msg::CopyList(_)
        | Msg::HideView(_) | Msg::SetSidebar(_) => Part::Lists,
        _ => Part::Window,
    }
}

// -- doing it ------------------------------------------------------------------------------------

fn put(acts: &mut Vec<Do>, d: Do)
    ensures
        final(acts)@ == old(acts)@.push(d),
{
    acts.push(d);
}

impl Window {
    fn navigate(&mut self, nav: Nav, seen: &Seen) -> (r: Step)
        requires
            old(self).wf(),
            old(self).counts_on(),
        ensures
            navigates(*old(self), nav, *seen, *final(self), r),
            final(self).wf(),
    {
        let mut acts: Vec<Do> = Vec::new();
        let mut edits: Vec<Edit> = Vec::new();
        let other: bool = !nav.is(&self.nav);
        let ghost mut mid = *self;
        if other {
            self.prefs.set_view(&nav);
            self.nav = nav;
            put(&mut acts, Do::Save);
            self.adding = None;
            self.cursor = None;
            if self.select_mode {
                self.select_mode = false;
                self.selected = Vec::new();
                assert(texts(self.selected@) =~= Seq::<Seq<char>>::empty());
                assert(self.selected@ =~= Seq::<String>::empty());
            }
            proof {
                mid = *self;
            }
            self.load_lacking(&mut acts);
            let (_, e) = self.close_editor(seen);
            edits = e;
        }
        let ghost tail = (if seen.narrow {
            seq![Do::ShowSidebar(false)]
        } else {
            Seq::empty()
        }) + seq![Do::FocusColumn];
        if seen.narrow {
            put(&mut acts, Do::ShowSidebar(false));
        }
        put(&mut acts, Do::FocusColumn);
        proof {
            if other {
                assert(acts@ =~= seq![Do::Save] + lacking_acts(mid) + tail);
            } else {
                assert(acts@ =~= tail);
                assert(edits@ =~= Seq::<Edit>::empty());
            }
        }
        Step::with(acts, edits)
    }

    fn focus(&mut self, seen: &Seen) -> (r: Step)
        ensures
            focuses(*old(self), *seen, *final(self), r),
            old(self).wf() ==> final(self).wf(),
    {
        let stale: bool = match self.last_focus_sync {
            Some(t) => seen.at > t && seen.at - t > 30_000,
            None => true,
        };
        if stale && self.loaded {
            self.last_focus_sync = Some(seen.at);
            Step::one(Do::Sync(false))
        } else {
            Step::draw()
        }
    }

    fn fold_done(&mut self, href: String, seen: &Seen) -> (r: Step)
        requires
            old(self).wf(),
        ensures
            folded(*old(self), href@, *seen, *final(self), r),
            final(self).wf(),
    {
        let mine: bool = match &self.folding {
            Some(f) => *f == href,
            None => false,
        };
        if !mine {
            return Step::draw();
        }
        self.refocus = Refocus::Row;
        let (_, edits) = self.close_editor(seen);
        let acts: Vec<Do> = Vec::new();
        assert(acts@ =~= Seq::<Do>::empty());
        Step::with(acts, edits)
    }

    fn go_to(&mut self, list: String, open: bool)
        ensures
            *final(self) == (Window {
                nav: final(self).nav,
                prefs: final(self).prefs,
                adding: None,
                ..*old(self)
            }),
            final(self).nav@ == NavView::List(list@),
            shows_where(old(self).prefs, NavView::List(list@), open, final(self).prefs),
            old(self).wf() ==> final(self).wf(),
    {
        let nav = Nav::List(list);
        if !open {
            let mut opts = self.prefs.view_opts(&nav);
            let ghost was = opts@;
            opts.show_completed = true;
            assert(opts@ =~= (OptsView { show_completed: true, ..was }));
            self.prefs.set_view_opts(&nav, opts);
        }
        self.prefs.set_view(&nav);
        self.nav = nav;
        self.adding = None;
    }

    fn reveal_task(&mut self, href: String, seen: &Seen) -> (r: Step)
        requires
            old(self).wf(),
        ensures
            reveals(*old(self), href, *seen, *final(self), r),
            final(self).wf(),
    {
        let (list, open): (String, bool) = match self.find(href.as_str()) {
            None => {
                return Step::one(Do::Get(href));
            },
            Some(t) => (t.list.clone(), t.task.open),
        };
        let (_, edits) = self.close_editor(seen);
        let ghost mid = *self;
        proof {
            crate::update::lemma_written_known(
                (old(self).open@, old(self).done()),
                edits@,
                href@,
            );
            assert(mid.task(href@) is Some);
        }
        self.go_to(list, open);
        let ghost there = *self;
        assert(there.task(href@) == mid.task(href@));
        let (mut more, e) = self.open_editor(href, seen);
        proof {
            lemma_reveals(*old(self), mid, there, *self, href, *seen, edits@, e@);
        }
        let mut acts: Vec<Do> = Vec::new();
        acts.push(Do::Save);
        acts.append(&mut more);
        assert(acts@ =~= seq![Do::Save, Do::ShowTask(href)]);
        Step::with(acts, edits)
    }

    fn check_box(&mut self, href: String, done: bool, seen: &Seen) -> (r: Step)
        requires
            old(self).wf(),
            old(self).counts_on(),
        ensures
            checked(*old(self), href, done, *seen, *final(self), r),
            final(self).wf(),
    {
        let mut acts: Vec<Do> = Vec::new();
        let mut edits: Vec<Edit> = Vec::new();
        if done && self.edits(href.as_str()) {
            let (a, e) = self.fold_editor(seen);
            acts = a;
            edits = e;
        }
        let ghost mid = *self;
        let ghost first = acts@;
        let mut more = self.check(href, done);
        acts.append(&mut more);
        proof {
            assert(Window { completing: old(self).completing, serial: old(self).serial, ..*self }
                == mid);
            assert(acts@ =~= first + check_acts(mid, href, done));
            assert(first =~= (if done && edits_task(*old(self), href@) {
                fold_acts(*old(self), *seen)
            } else {
                Seq::empty()
            }));
        }
        Step::with(acts, edits)
    }

    fn complete_now(&mut self, href: String, serial: u64) -> (r: Step)
        ensures
            completes_now(*old(self), href, serial, *final(self), r),
            old(self).wf() ==> final(self).wf(),
    {
        let waits: bool = match crate::keyed::find_state(&self.completing, href.as_str()) {
            Some(Completing::Waiting(s)) => s == serial,
            _ => false,
        };
        if waits {
            Step::one(self.send_complete(href))
        } else {
            Step::draw()
        }
    }

    fn complete_at_once(&mut self, href: String, seen: &Seen) -> (r: Step)
        requires
            old(self).wf(),
        ensures
            completes_at_once(*old(self), href, *seen, *final(self), r),
            final(self).wf(),
    {
        let going = crate::keyed::find_state(&self.completing, href.as_str());
        if !self.has_open(href.as_str()) || going.is_some() {
            return Step::draw();
        }
        let mut edits: Vec<Edit> = Vec::new();
        if self.edits(href.as_str()) {
            let (_, e) = self.close_editor(seen);
            edits = e;
        }
        let ghost mid = *self;
        let mut acts: Vec<Do> = Vec::new();
        put(&mut acts, self.send_complete(href));
        proof {
            assert(Window { completing: old(self).completing, ..*self } == mid);
            assert(acts@ =~= seq![Do::Complete(href)]);
        }
        Step::with(acts, edits)
    }

    fn edit(&mut self, href: String, c: Change) -> (r: Step)
        requires
            old(self).wf(),
        ensures
            edits(*old(self), href, c, *final(self), r),
            final(self).wf(),
    {
        self.apply_typed(href.as_str(), &c);
        Step::one(Do::Edit(href, c, String::new()))
    }

    fn renumber(&mut self, orders: Vec<(String, i64)>) -> (r: Step)
        requires
            old(self).wf(),
        ensures
            reorders(*old(self), orders@, *final(self), r),
            final(self).wf(),
    {
        let mut list: Vec<Edit> = Vec::new();
        let ghost o = orders@;
        let ghost before = *self;
        assert(o.take(0).len() == 0);
        for i in 0..orders.len()
            invariant
                o == orders@,
                *self == (Window { open: self.open, ..before }),
                self.open@ == renumbered(before.open@, o.take(i as int)),
                tasks_wf(self.open@),
                list@.len() == i,
                forall|j: int|
                    0 <= j < i ==> (#[trigger] list@[j]).href == o[j].0 && list@[j].change == (
                    Change { sort_order: Some(o[j].1), ..no_change() }),
        {
            proof {
                assert(o.take(i + 1).drop_last() == o.take(i as int));
                assert(o.take(i + 1).last() == o[i as int]);
            }
            let n = orders[i].1;
            let ghost was = self.open@;
            if let Some(at) = find_place(&self.open, orders[i].0.as_str()) {
                self.open[at].task.sort_order = Some(n);
                proof {
                    assert(self.open@ =~= was.update(at as int, numbered(was[at as int], n)));
                    assert forall|j: int| 0 <= j < self.open@.len() implies (
                    #[trigger] self.open@[j]).task.wf() by {
                        assert(was[j].task.wf());
                    }
                }
            }
            list.push(Edit { href: orders[i].0.clone(), change: Change::to_place(n) });
        }
        assert(o.take(o.len() as int) == o);
        Step::one(Do::EditAll(list, String::new()))
    }

    fn delete(&mut self, href: String, seen: &Seen) -> (r: Step)
        requires
            old(self).wf(),
        ensures
            deletes(*old(self), href, *seen, *final(self), r),
            final(self).wf(),
    {
        let said = match self.find(href.as_str()) {
            None => {
                return Step::stop();
            },
            Some(t) => glue("Deleted ", quoted(t.task.summary.as_str()).as_str()),
        };
        let mut edits: Vec<Edit> = Vec::new();
        if self.edits(href.as_str()) {
            self.refocus = Refocus::Row;
            let (_, e) = self.close_editor(seen);
            edits = e;
        }
        let ghost mid = *self;
        proof {
            with_keeps_others(texts(self.hidden@), href@);
        }
        put_text(&mut self.hidden, href.clone());
        assert(Window { hidden: old(self).hidden, ..*self } == mid);
        let undo = only(Msg::Undelete(href.clone()));
        let gone = only(Msg::DeleteNow(href));
        let mut acts: Vec<Do> = Vec::new();
        acts.push(Do::UndoToast(said, 4, undo, gone));
        Step::with(acts, edits)
    }

    fn undelete(&mut self, href: String) -> (r: Step)
        requires
            old(self).wf(),
        ensures
            undeletes(*old(self), href@, *final(self), r),
            final(self).wf(),
    {
        proof {
            without_leaves_others(texts(self.hidden@), href@);
        }
        take_text(&mut self.hidden, href.as_str());
        Step::draw()
    }

    fn copy_task(&self, href: &str) -> (r: Step)
        ensures
            copies(*self, href@, r),
    {
        match self.find(href) {
            None => Step::draw(),
            Some(t) => {
                let text = match &t.task.description {
                    Some(d) => glue3(t.task.summary.as_str(), "\n\n", d.as_str()),
                    None => t.task.summary.clone(),
                };
                let mut acts: Vec<Do> = Vec::new();
                acts.push(Do::Clipboard(text));
                acts.push(Do::Toast(String::from_str("Copied to the clipboard")));
                let r = Step::of(acts);
                assert(r.edits@ =~= Seq::<Edit>::empty());
                r
            },
        }
    }

    fn name_at(&self, href: &str) -> (r: String)
        ensures
            r@ == name_of(self.lists@, href@),
    {
        match find_list(&self.lists, href) {
            Some(l) => l.name.clone(),
            None => String::new(),
        }
    }

    fn move_task(&self, href: String, list: String) -> (r: Step)
        ensures
            moves_task(*self, href, list, r),
    {
        match self.find(href.as_str()) {
            None => Step::stop(),
            Some(t) => {
                if t.list == list {
                    return Step::stop();
                }
                let name = self.name_at(list.as_str());
                let mut said = glue3("Moved ", quoted(t.task.summary.as_str()).as_str(), " to ");
                said.append(name.as_str());
                Step::one(Do::Edit(href, Change::to_list(list), said))
            },
        }
    }

    fn drop_task(&self, href: String, nav: Nav, seen: &Seen) -> (r: Step)
        requires
            self.wf(),
            seen.wf(),
        ensures
            drops(*self, href, nav, *seen, r),
    {
        let today = seen.now.today();
        match self.find(href.as_str()) {
            None => Step::stop(),
            Some(t) => match nav {
                Nav::List(list) => Step::one(Do::Send(Msg::Move(href, list))),
                Nav::Inbox => match inbox(&self.lists) {
                    Some(l) => Step::one(Do::Send(Msg::Move(href, l.href.clone()))),
                    None => Step::draw(),
                },
                Nav::Today => Step::one(
                    Do::Send(Msg::Edit(href, Change::to_day(t, today, &seen.now.zone))),
                ),
                Nav::Tomorrow => Step::one(
                    Do::Send(Msg::Edit(href, Change::to_day(t, today.plus(1), &seen.now.zone))),
                ),
                Nav::Completed => Step::one(Do::Send(Msg::Complete(href))),
                _ => Step::draw(),
            },
        }
    }

    fn show_add(&mut self, target: Option<Target>, seen: &Seen, fill: Option<String>) -> (r: Step)
        requires
            old(self).wf(),
            seen.wf(),
        ensures
            shows_add(*old(self), target, *seen, *final(self), r, fill),
            final(self).wf(),
    {
        let (_, edits) = self.close_editor(seen);
        let to = match target {
            Some(t) => t,
            None => self.default_target(seen.now.today()),
        };
        let already: bool = match &self.adding {
            Some(t) => t.is(&to),
            None => false,
        };
        let mut acts: Vec<Do> = Vec::new();
        if !already {
            acts.push(Do::OpenCard(to.clone()));
        }
        self.adding = Some(to);
        self.add_folding = false;
        self.shown = None;
        let mut after: Vec<Do> = Vec::new();
        after.push(Do::FocusCard);
        if let Some(text) = fill {
            after.push(Do::FillCard(text));
        }
        proof {
            assert(after@ =~= (match fill {
                Some(text) => seq![Do::FocusCard, Do::FillCard(text)],
                None => seq![Do::FocusCard],
            }));
            assert(acts@ =~= (if already {
                Seq::empty()
            } else {
                seq![Do::OpenCard(to)]
            }));
        }
        Step { acts, edits, draws: true, after }
    }

    /// Rebuilds for the daemon's news wait so long, while something animates.
    pub fn hold(&mut self, at: u64, ms: u64) -> (r: Vec<Do>)
        requires
            at + ms <= u64::MAX,
        ensures
            *final(self) == held(*old(self), at, ms),
            r@ == hold_acts(*old(self), at, ms),
            old(self).wf() ==> final(self).wf(),
    {
        let mut acts: Vec<Do> = Vec::new();
        let until = at + ms;
        let longer: bool = match self.settle_until {
            Some(u) => u >= until,
            None => false,
        };
        if ms > 0 && !longer {
            self.settle_until = Some(until);
            acts.push(Do::Later(ms, Msg::Resume));
        }
        assert(acts@ =~= hold_acts(*old(self), at, ms));
        acts
    }

    fn hide_add(&mut self, seen: &Seen) -> (r: Step)
        requires
            old(self).wf(),
            seen.wf(),
        ensures
            hides_add(*old(self), *seen, *final(self), r),
            final(self).wf(),
    {
        let mut acts: Vec<Do> = Vec::new();
        acts.push(Do::FocusColumn);
        if seen.card_mapped && self.adding.is_some() && seen.row_ms > 0 {
            acts.push(Do::FoldCard);
            self.add_folding = true;
            let mut more = self.hold(seen.at, seen.row_ms);
            let ghost h = more@;
            acts.append(&mut more);
            acts.push(Do::Later(seen.row_ms, Msg::AddFolded));
            assert(acts@ =~= seq![Do::FocusColumn, Do::FoldCard] + h + seq![
                Do::Later(seen.row_ms, Msg::AddFolded),
            ]);
        } else {
            self.adding = None;
            assert(acts@ =~= seq![Do::FocusColumn]);
        }
        Step::of(acts)
    }

    fn set_select_mode(&mut self, on: bool, seen: &Seen) -> (r: Step)
        requires
            old(self).wf(),
        ensures
            selects(*old(self), on, *seen, *final(self), r),
            final(self).wf(),
    {
        self.select_mode = on;
        if on {
            let (_, edits) = self.close_editor(seen);
            let acts: Vec<Do> = Vec::new();
            assert(acts@ =~= Seq::<Do>::empty());
            Step::with(acts, edits)
        } else {
            self.selected = Vec::new();
            assert(texts(self.selected@) =~= Seq::<Seq<char>>::empty());
            Step::draw()
        }
    }

    fn select_one(&mut self, href: String, seen: &Seen) -> (r: Step)
        requires
            old(self).wf(),
        ensures
            selects_one(*old(self), href@, *seen, *final(self), r),
            final(self).wf(),
    {
        self.select_mode = true;
        self.toggle_selected(href.as_str());
        let (_, edits) = self.close_editor(seen);
        let acts: Vec<Do> = Vec::new();
        assert(acts@ =~= Seq::<Do>::empty());
        Step::with(acts, edits)
    }

    fn activate(&mut self, href: String, seen: &Seen) -> (r: Step)
        requires
            old(self).wf(),
        ensures
            activates(*old(self), href, *seen, *final(self), r),
            final(self).wf(),
    {
        if self.select_mode {
            self.toggle_selected(href.as_str());
            Step::draw()
        } else {
            let (acts, edits) = self.open_editor(href, seen);
            Step::with(acts, edits)
        }
    }

    fn set_opts(&mut self, opts: ViewOpts) -> (r: Step)
        requires
            old(self).wf(),
            old(self).counts_on(),
        ensures
            sets_opts(*old(self), opts, *final(self), r),
            final(self).wf(),
    {
        let nav = self.nav.clone();
        self.prefs.set_view_opts(&nav, opts);
        let ghost mid = *self;
        let mut acts: Vec<Do> = Vec::new();
        acts.push(Do::Save);
        self.load_lacking(&mut acts);
        assert(acts@ =~= seq![Do::Save] + lacking_acts(mid));
        Step::of(acts)
    }

    fn ask_delete_list(&self, href: String) -> (r: Step)
        ensures
            asks_delete_list(*self, href, r),
    {
        if find_list(&self.lists, href.as_str()).is_none() {
            return Step::draw();
        }
        let mut n: usize = 0;
        let ghost s = self.open@;
        let ghost p = in_list(href@);
        proof {
            reveal(Seq::filter);
            assert(s.take(0).filter(p).len() == 0);
        }
        for i in 0..self.open.len()
            invariant
                s == self.open@,
                p == in_list(href@),
                n == s.take(i as int).filter(p).len(),
                n <= i,
        {
            proof {
                reveal(Seq::filter);
                assert(s.take(i + 1).drop_last() == s.take(i as int));
                assert(s.take(i + 1).last() == s[i as int]);
            }
            if self.open[i].list == href {
                n += 1;
            }
        }
        assert(s.take(s.len() as int) == s);
        Step::one(Do::DeleteListDialog(href, n))
    }

    fn delete_list(&mut self, href: String) -> (r: Step)
        requires
            old(self).wf(),
        ensures
            deletes_list(*old(self), href, *final(self), r),
            final(self).wf(),
    {
        let name = self.name_at(href.as_str());
        let here: bool = match &self.nav {
            Nav::List(h) => *h == href,
            _ => false,
        };
        if here {
            self.nav = Nav::Today;
        }
        Step::one(Do::DeleteList(href, glue("Deleted ", quoted(name.as_str()).as_str())))
    }

    fn ask_delete_completed(&self, list: Option<String>) -> (r: Step)
        requires
            self.counts_on(),
        ensures
            asks_delete_completed(*self, list, r),
    {
        let (n, from): (usize, String) = match &list {
            Some(href) => match find_list(&self.lists, href.as_str()) {
                Some(l) => (l.done, quoted(l.name.as_str())),
                None => {
                    return Step::stop();
                },
            },
            None => (count_done(&self.lists), String::from_str("every list")),
        };
        if n == 0 {
            Step::one(Do::Toast(String::from_str("Nothing completed to delete")))
        } else {
            Step::one(Do::DeleteCompletedDialog(n, from, list))
        }
    }

    fn archive(&mut self, href: String, on: bool) -> (r: Step)
        requires
            old(self).wf(),
        ensures
            archives(*old(self), href, on, *final(self), r),
            final(self).wf(),
    {
        let name = match find_list(&self.lists, href.as_str()) {
            None => {
                return Step::stop();
            },
            Some(l) => l.name.clone(),
        };
        self.prefs.set_archived(href.as_str(), on);
        let verb = if on {
            "Archived "
        } else {
            "Unarchived "
        };
        let said = glue(verb, quoted(name.as_str()).as_str());
        let mut acts: Vec<Do> = Vec::new();
        acts.push(Do::Save);
        acts.push(Do::UndoToast(said, 4, only(Msg::Archive(href, !on)), Vec::new()));
        let r = Step::of(acts);
        assert(r.edits@ =~= Seq::<Edit>::empty());
        r
    }

    fn copy_list(&self, href: String) -> (r: Step)
        requires
            self.wf(),
        ensures
            copies_list(*self, href@, r),
    {
        match find_list(&self.lists, href.as_str()) {
            None => Step::draw(),
            Some(l) => {
                let nav = Nav::List(href.clone());
                let sort = self.prefs.view_opts(&nav).sort_for(&nav);
                let open = self.visible_open();
                let mut mine: Vec<&TaskView> = Vec::new();
                let ghost s = unref(open@);
                let ghost p = in_list(href@);
                proof {
                    reveal(Seq::filter);
                    assert(unref(mine@) =~= s.take(0).filter(p));
                }
                for i in 0..open.len()
                    invariant
                        s == unref(open@),
                        p == in_list(href@),
                        unref(mine@) == s.take(i as int).filter(p),
                {
                    let t: &TaskView = open[i];
                    let ghost before = unref(mine@);
                    proof {
                        reveal(Seq::filter);
                        assert(s.take(i + 1).drop_last() == s.take(i as int));
                        assert(s.take(i + 1).last() == *t);
                    }
                    if t.list == href {
                        mine.push(t);
                        assert(unref(mine@) =~= before.push(*t));
                    }
                }
                assert(s.take(s.len() as int) == s);
                let tasks = sorted(mine, sort);
                let ghost all = hrefs_of(unref(tasks@));
                let mut hrefs: Vec<String> = Vec::new();
                for i in 0..tasks.len()
                    invariant
                        all == hrefs_of(unref(tasks@)),
                        hrefs@ == all.take(i as int),
                {
                    hrefs.push(tasks[i].href.clone());
                    assert(hrefs@ =~= all.take(i + 1));
                }
                assert(all.take(all.len() as int) == all);
                let head = glue3("## ", l.name.as_str(), "\n\n");
                let said = glue3("Copied ", quoted(l.name.as_str()).as_str(), " as Markdown");
                Step::one(Do::CopyTasks(head, hrefs, said))
            },
        }
    }

    fn hide_view(&mut self, nav: Nav) -> (r: Step)
        requires
            old(self).wf(),
        ensures
            hides_view(*old(self), nav, *final(self), r),
            final(self).wf(),
    {
        let before = self.prefs.sidebar_views();
        let mut views: Vec<Nav> = Vec::new();
        let ghost s = navs(before@);
        let ghost p = |n: NavView| n != nav@;
        proof {
            reveal(Seq::filter);
            assert(navs(views@) =~= s.take(0).filter(p));
        }
        for i in 0..before.len()
            invariant
                s == navs(before@),
                p == (|n: NavView| n != nav@),
                navs(views@) == s.take(i as int).filter(p),
        {
            let ghost was = navs(views@);
            proof {
                reveal(Seq::filter);
                assert(s.take(i + 1).drop_last() == s.take(i as int));
                assert(s.take(i + 1).last() == before@[i as int]@);
            }
            if !before[i].is(&nav) {
                views.push(before[i].clone());
                assert(navs(views@) =~= was.push(before@[i as int]@));
            }
        }
        assert(s.take(s.len() as int) == s);
        self.prefs.set_sidebar_views(&views);
        let none: Vec<ListView> = Vec::new();
        assert(none@ =~= Seq::<ListView>::empty());
        let said = glue3("Took ", nav.title(&none).as_str(), " out of the sidebar");
        let mut acts: Vec<Do> = Vec::new();
        acts.push(Do::Save);
        acts.push(Do::UndoToast(said, 4, only(Msg::SetSidebar(before)), Vec::new()));
        let r = Step::of(acts);
        assert(r.edits@ =~= Seq::<Edit>::empty());
        r
    }

    fn order_lists(&mut self, v: Vec<String>) -> (r: Step)
        requires
            old(self).wf(),
        ensures
            *final(self) == (Window {
                prefs: Prefs { list_order: v, ..old(self).prefs },
                ..*old(self)
            }),
            asks(r, seq![Do::Save]),
            final(self).wf(),
    {
        self.prefs.set_list_order(v);
        Step::one(Do::Save)
    }

    fn set_sidebar(&mut self, views: Vec<Nav>) -> (r: Step)
        requires
            old(self).wf(),
        ensures
            sets_sidebar(*old(self), views@, *final(self), r),
            final(self).wf(),
    {
        self.prefs.set_sidebar_views(&views);
        Step::one(Do::Save)
    }

    fn remember_size(&mut self, seen: &Seen) -> (r: Vec<Do>)
        ensures
            *final(self) == (Window { prefs: sized(old(self).prefs, *seen), ..*old(self) }),
            r@ == size_acts(*seen),
            old(self).wf() ==> final(self).wf(),
    {
        let mut acts: Vec<Do> = Vec::new();
        if seen.visible {
            self.prefs.set_size(seen.maximized, seen.width, seen.height);
            acts.push(Do::Save);
        }
        assert(acts@ =~= size_acts(*seen));
        acts
    }

    fn put_away(&mut self, seen: &Seen) -> (r: Step)
        requires
            old(self).wf(),
        ensures
            hides(*old(self), *seen, *final(self), r),
            final(self).wf(),
    {
        let mut acts = self.remember_size(seen);
        let (_, edits) = self.close_editor(seen);
        acts.push(Do::HideWindow);
        assert(acts@ =~= size_acts(*seen) + seq![Do::HideWindow]);
        Step::with(acts, edits)
    }

    fn quit(&mut self, seen: &Seen) -> (r: Step)
        requires
            old(self).wf(),
        ensures
            quits(*old(self), *seen, *final(self), r),
            final(self).wf(),
    {
        let mut acts = self.remember_size(seen);
        let waiting: bool = self.editor.has_pending();
        let (_, edits) = self.close_editor(seen);
        let deletes = crate::text::copy_texts(&self.hidden);
        let wait: bool = waiting || deletes.len() > 0;
        acts.push(Do::Finish(deletes, wait));
        Step { acts, edits, draws: false, after: Vec::new() }
    }

    fn set_prefs(&mut self, prefs: Prefs, seen: &Seen) -> (r: Step)
        requires
            old(self).wf(),
        ensures
            sets_prefs(*old(self), prefs, *seen, *final(self), r),
            final(self).wf(),
    {
        let on = prefs.background;
        self.prefs = prefs;
        self.shown = None;
        let mut acts: Vec<Do> = Vec::new();
        acts.push(Do::Save);
        acts.push(Do::CardDefaults);
        if on != seen.tray {
            acts.push(Do::Tray(on));
        }
        assert(acts@ =~= seq![Do::Save, Do::CardDefaults] + (if on != seen.tray {
            seq![Do::Tray(on)]
        } else {
            Seq::empty()
        }));
        Step::of(acts)
    }

    fn update_around(&mut self, msg: Msg, seen: &Seen) -> (r: Step)
        requires
            is_around(msg),
            old(self).wf(),
            old(self).counts_on(),
            seen.wf(),
        ensures
            around_handled(*old(self), msg, *seen, *final(self), r),
            final(self).wf(),
    {
        match msg {
            Msg::Navigate(nav) => self.navigate(nav, seen),
            Msg::ToggleSidebar => Step::one(Do::ShowSidebar(!seen.sidebar)),
            Msg::Refresh => Step::of(self.reload()),
            Msg::Tick => Step::draw(),
            Msg::Focused => self.focus(seen),
            Msg::SyncNow => Step::one(Do::Sync(true)),
            Msg::Activate(href) => self.activate(href, seen),
            Msg::Open(href) => {
                let (acts, edits) = self.open_editor(href, seen);
                Step::with(acts, edits)
            },
            Msg::CloseEditor => {
                let (acts, edits) = self.fold_editor(seen);
                Step::with(acts, edits)
            },
            Msg::Folded(href) => self.fold_done(href, seen),
            Msg::OpenTask(id) => {
                let mut acts: Vec<Do> = Vec::new();
                acts.push(Do::Present);
                acts.push(Do::Send(Msg::Reveal(id)));
                assert(acts@ =~= seq![Do::Present, Do::Send(Msg::Reveal(id))]);
                Step::of(acts)
            },
            Msg::Reveal(href) => self.reveal_task(href, seen),
            Msg::Resume => {
                if self.dirty {
                    Step::draw()
                } else {
                    Step::stop()
                }
            },
            Msg::Key(key) => self.key(key, seen),
            _ => Step::stop(),
        }
    }

    fn update_task(&mut self, msg: Msg, seen: &Seen) -> (r: Step)
        requires
            is_task(msg),
            old(self).wf(),
            old(self).counts_on(),
            seen.wf(),
        ensures
            task_handled(*old(self), msg, *seen, *final(self), r),
            final(self).wf(),
    {
        match msg {
            Msg::Check(href, done) => self.check_box(href, done, seen),
            Msg::CompleteNow(href, serial) => self.complete_now(href, serial),
            Msg::Complete(href) => self.complete_at_once(href, seen),
            Msg::Reopen(href) => Step::one(Do::Reopen(href)),
            Msg::Edit(href, c) => self.edit(href, c),
            Msg::EditMany(v) => {
                let said = say_tasks("Moved", v.len());
                Step::one(Do::EditAll(v, said))
            },
            Msg::Reorder(orders) => self.renumber(orders),
            Msg::Delete(href) => self.delete(href, seen),
            Msg::Undelete(href) => self.undelete(href),
            Msg::DeleteNow(href) => {
                if has_text(&self.hidden, href.as_str()) && self.knows(href.as_str()) {
                    Step::one(Do::Delete(href))
                } else {
                    Step::draw()
                }
            },
            Msg::Duplicate(href) => Step::one(Do::Duplicate(href)),
            Msg::Copy(href) => self.copy_task(href.as_str()),
            Msg::Move(href, list) => self.move_task(href, list),
            Msg::DropTask(href, nav) => self.drop_task(href, nav, seen),
            _ => Step::stop(),
        }
    }

    fn update_adding(&mut self, msg: Msg, seen: &Seen) -> (r: Step)
        requires
            is_adding(msg),
            old(self).wf(),
            old(self).counts_on(),
            seen.wf(),
        ensures
            adding_handled(*old(self), msg, *seen, *final(self), r),
            final(self).wf(),
    {
        match msg {
            Msg::Add(spec) => Step::one(Do::Add(spec)),
            Msg::ShowAdd(target) => self.show_add(target, seen, None),
            Msg::AddText(text) => self.show_add(None, seen, Some(text)),
            Msg::Paste => Step::one(Do::ReadClipboard),
            Msg::HideAdd => self.hide_add(seen),
            Msg::AddFolded => {
                if self.add_folding {
                    self.add_folding = false;
                    self.adding = None;
                }
                Step::draw()
            },
            Msg::SelectMode(on) => self.set_select_mode(on, seen),
            Msg::SelectToggle(href) => self.select_one(href, seen),
            Msg::Batch(b) => self.batch(b, seen),
            Msg::SaveIcs(href) => Step::one(Do::Ics(href)),
            Msg::PlaceSearch(q) => Step::one(Do::Places(q)),
            Msg::NewNote(href, title) => Step::one(Do::NewNote(href, title)),
            _ => Step::stop(),
        }
    }

    fn update_lists(&mut self, msg: Msg, seen: &Seen) -> (r: Step)
        requires
            is_lists(msg),
            old(self).wf(),
            old(self).counts_on(),
            seen.wf(),
        ensures
            lists_handled(*old(self), msg, *seen, *final(self), r),
            final(self).wf(),
    {
        match msg {
            Msg::SetViewOpts(opts) => self.set_opts(opts),
            Msg::NewList => Step::one(Do::NewListDialog),
            Msg::EditList(href) => {
                if find_list(&self.lists, href.as_str()).is_some() {
                    Step::one(Do::EditListDialog(href))
                } else {
                    Step::draw()
                }
            },
            Msg::SaveList(href, name, color) => Step::one(Do::SaveList(href, name, color)),
            Msg::AskDeleteList(href) => self.ask_delete_list(href),
            Msg::DeleteList(href) => self.delete_list(href),
            Msg::AskDeleteCompleted(list) => self.ask_delete_completed(list),
            Msg::DeleteCompleted(list) => Step::one(Do::DeleteCompleted(list)),
            Msg::ReorderLists(v) => self.order_lists(v),
            Msg::Archive(href, on) => self.archive(href, on),
            Msg::CopyList(href) => self.copy_list(href),
            Msg::HideView(nav) => self.hide_view(nav),
            Msg::SetSidebar(views) => self.set_sidebar(views),
            _ => Step::stop(),
        }
    }

    fn update_window(&mut self, msg: Msg, seen: &Seen) -> (r: Step)
        requires
            is_window(msg),
            old(self).wf(),
            old(self).counts_on(),
            seen.wf(),
        ensures
            window_handled(*old(self), msg, *seen, *final(self), r),
            final(self).wf(),
    {
        match msg {
            Msg::ThemeChanged => {
                if self.editing.is_none() {
                    self.shown = None;
                    Step::one(Do::NewEditor)
                } else {
                    Step::draw()
                }
            },
            Msg::QuickFind => Step::one(Do::QuickFind),
            Msg::Preferences(page) => Step::one(Do::Preferences(page)),
            Msg::Shortcuts => Step::one(Do::Shortcuts),
            Msg::About => Step::one(Do::About),
            Msg::SetPrefs(prefs) => self.set_prefs(prefs, seen),
            Msg::SetSettings(c) => Step::one(Do::SetSettings(c)),
            Msg::SignIn(server) => {
                self.sign_in_error = None;
                self.signing_in = Some(String::new());
                Step::one(Do::Login(server))
            },
            Msg::CancelSignIn => {
                self.signing_in = None;
                Step::draw()
            },
            Msg::SignOut => Step::one(Do::Logout),
            Msg::CloseWindow => {
                if self.prefs.background && seen.tray && seen.tray_online {
                    self.put_away(seen)
                } else {
                    Step::one(Do::Send(Msg::Quit))
                }
            },
            Msg::Quit => self.quit(seen),
            Msg::ShowWindow => Step::one(Do::Present),
            Msg::TrayClick => {
                if seen.visible && seen.active {
                    self.put_away(seen)
                } else {
                    Step::one(Do::Present)
                }
            },
            _ => Step::stop(),
        }
    }

    /// A message comes, and this comes of it.
    pub fn update(&mut self, msg: Msg, seen: &Seen) -> (r: Step)
        requires
            old(self).wf(),
            old(self).counts_on(),
            seen.wf(),
        ensures
            handles(*old(self), msg, *seen, *final(self), r),
            final(self).wf(),
    {
        match part_of(&msg) {
            Part::Around => self.update_around(msg, seen),
            Part::Task => self.update_task(msg, seen),
            Part::Adding => self.update_adding(msg, seen),
            Part::Lists => self.update_lists(msg, seen),
            Part::Window => self.update_window(msg, seen),
        }
    }
}

} // verus!
