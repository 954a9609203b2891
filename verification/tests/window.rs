//! The window: what comes of messages, of answers, and of drawing.

use asst::addcard::Target;
use asst::answer::{file_name, Added, Answer, Loaded};
use asst::change::{Change, SetDue};
use asst::date::Date;
use asst::due::Moved;
use asst::editor::{Edit, Field};
use asst::handle::is_passive;
use asst::keys::{card_key, editor_key, key_action, CardKey, EditorKey, Focus, Press, Spot, Taken};
use asst::nav::{Nav, Sort, ViewOpts};
use asst::prefs::Prefs;
use asst::render::{few, Drawn, Page, Popovers, Screen};
use asst::settings::{Settings, SettingsChange};
use asst::start::{ends_at_once, read_args, starts_hidden, Run, Start};
use asst::steps::{quoted, say_tasks};
use asst::task::{ListView, Note, StatusView, SyncState, Task, TaskView, Trigger, When};
use asst::update::{Batch, Do, Key, Msg, Nav0, Place, Seen, Step};
use asst::window::{Completing, Refocus, Window};
use asst::zone::{Moment, Now, Zone};

/// Monday, September 14 2026, 10:00 in New York.
const NOW: i64 = 1789394400;

fn date(m: u32, d: u32) -> Date {
    Date::from_ymd(2026, m, d).unwrap()
}

fn now() -> Now {
    Now {
        at: Moment { secs: NOW, nanos: 0 },
        zone: Zone::named("America/New_York").unwrap(),
    }
}

fn due(d: Date) -> Option<When> {
    let days = i64::from(d.ce) - i64::from(date(9, 14).ce);
    Some(When {
        date: d,
        at: Moment { secs: NOW - 36000 + days * 86400, nanos: 0 },
        timed: false,
        form: 0,
    })
}

fn task(uid: &str, list: &str, due: Option<When>) -> TaskView {
    TaskView {
        id: uid.into(),
        href: format!("{list}{uid}"),
        list: list.into(),
        list_name: list.trim_matches('/').into(),
        pending: false,
        task: Task {
            uid: uid.into(),
            summary: format!("Task {uid}"),
            description: None,
            open: true,
            completed: None,
            level: 4,
            due,
            start: None,
            rrule: None,
            alarms: Vec::new(),
            url: None,
            source: None,
            linked_notes: Vec::new(),
            sort_order: None,
            created: None,
            modified: None,
        },
    }
}

fn list(href: &str, inbox: bool) -> ListView {
    ListView {
        href: href.into(),
        name: href.trim_matches('/').to_uppercase(),
        color: None,
        writable: true,
        inbox,
        open: 0,
        done: 2,
    }
}

fn status(state: SyncState) -> StatusView {
    StatusView {
        state,
        message: None,
        last_sync: None,
        pending: 0,
        server: None,
        username: None,
    }
}

fn field(text: &str) -> Field {
    Field { text: text.into(), focused: false }
}

fn seen() -> Seen {
    Seen {
        now: now(),
        at: 1_000_000,
        title: field(""),
        notes: field(""),
        typing: false,
        fold_ms: 0,
        row_ms: 0,
        card_mapped: false,
        narrow: false,
        sidebar: true,
        visible: true,
        active: true,
        tray: true,
        tray_online: true,
        maximized: false,
        width: 1000,
        height: 700,
        rows: Vec::new(),
    }
}

fn tasks() -> Vec<TaskView> {
    vec![
        task("one", "/a/", due(date(9, 14))),
        task("two", "/a/", due(date(9, 10))),
        task("three", "/b/", None),
    ]
}

/// A window with two lists and three tasks in it.
fn window() -> Window {
    let (mut w, _) = Window::new(Prefs::default());
    let loaded = Loaded {
        lists: vec![list("/a/", false), list("/b/", true)],
        open: tasks(),
        status: status(SyncState::Idle),
    };
    let step = w.answer(Answer::Loaded(1, Ok(loaded)), &seen());
    assert!(matches!(step.acts.as_slice(), [Do::CardLists]));
    w
}

fn tell(w: &mut Window, msg: Msg) -> Step {
    w.update(msg, &seen())
}

fn hrefs(v: &[String]) -> Vec<&str> {
    v.iter().map(String::as_str).collect()
}

fn on_view(w: &Window) -> Vec<String> {
    w.rows_on_view(&seen())
}

fn toast(step: &Step) -> &str {
    match step.acts.as_slice() {
        [Do::Toast(s)] => s,
        other => panic!("not a toast: {other:?}"),
    }
}

// -- starting -------------------------------------------------------------------------------------

#[test]
fn starts_on_the_view_shown_last() {
    let mut prefs = Prefs::default();
    prefs.view = "list:/a/".into();
    let (w, acts) = Window::new(prefs);
    assert_eq!(w.nav.key(), "list:/a/");
    assert!(matches!(acts.as_slice(), [Do::Load(1), Do::LoadSettings]));
    assert_eq!(w.page(), Page::Loading);

    let mut prefs = Prefs::default();
    prefs.view = "nonsense".into();
    assert_eq!(Window::new(prefs).0.nav.key(), "today");

    let mut prefs = Prefs::default();
    prefs.view = "completed".into();
    let (_, acts) = Window::new(prefs);
    assert!(matches!(
        acts.as_slice(),
        [Do::Load(1), Do::LoadCompleted(1), Do::LoadSettings]
    ));
}

#[test]
fn arguments_say_how_to_start() {
    let read = |args: &[&str]| read_args(&args.iter().map(|a| a.to_string()).collect());
    assert!(matches!(read(&[]), Run::Window(Start::Window)));
    assert!(matches!(read(&["--background"]), Run::Window(Start::Background)));
    assert!(matches!(read(&["--gapplication-service"]), Run::Window(Start::Service)));
    assert!(matches!(read(&["--help"]), Run::Help));
    match read(&["quick-add", "--attach", "/n/a.md", "--attach", "/n/b.md"]) {
        Run::QuickAdd(notes) => assert_eq!(notes, ["/n/a.md", "/n/b.md"]),
        other => panic!("{other:?}"),
    }
    match read(&["quick-add"]) {
        Run::QuickAdd(notes) => assert!(notes.is_empty()),
        other => panic!("{other:?}"),
    }
    match read(&["do\tit"]) {
        Run::Unknown(s) => assert_eq!(
            s,
            "asst-gtk: unknown command \"do\\tit\"; usage: asst-gtk [--background | quick-add]"
        ),
        other => panic!("{other:?}"),
    }
    let mut prefs = Prefs::default();
    assert!(starts_hidden(Start::Background, &prefs));
    assert!(!starts_hidden(Start::Window, &prefs));
    prefs.background = false;
    assert!(!starts_hidden(Start::Background, &prefs));
    assert!(ends_at_once(Start::Background, true));
    assert!(!ends_at_once(Start::Window, true));
}

// -- loading --------------------------------------------------------------------------------------

#[test]
fn only_the_newest_load_counts() {
    let mut w = window();
    tell(&mut w, Msg::Refresh);
    assert_eq!(w.load_generation, 2);
    let old = Loaded { lists: Vec::new(), open: Vec::new(), status: status(SyncState::Error) };
    let step = w.answer(Answer::Loaded(1, Ok(old)), &seen());
    assert!(step.acts.is_empty() && !step.draws);
    assert_eq!(w.open.len(), 3);
    assert_eq!(w.lists.len(), 2);

    let step = w.answer(Answer::Loaded(2, Err("no bus".into())), &seen());
    assert!(step.draws);
    assert_eq!(w.page(), Page::Error);
    assert_eq!(w.page().name(), "error");
    assert_eq!(w.open.len(), 3);
}

#[test]
fn a_list_that_is_gone_is_not_on_view() {
    let mut w = window();
    tell(&mut w, Msg::Navigate(Nav::List("/a/".into())));
    tell(&mut w, Msg::Refresh);
    let l = Loaded {
        lists: vec![list("/b/", true)],
        open: Vec::new(),
        status: status(SyncState::Idle),
    };
    w.answer(Answer::Loaded(2, Ok(l)), &seen());
    assert_eq!(w.nav.key(), "today");
}

#[test]
fn new_data_settles_what_was_going_on() {
    let mut w = window();
    let mut repeats = task("four", "/a/", due(date(9, 14)));
    repeats.task.rrule = Some("FREQ=DAILY".into());
    w.open.push(repeats);
    tell(&mut w, Msg::SelectToggle("/a/one".into()));
    tell(&mut w, Msg::SelectToggle("/a/two".into()));
    tell(&mut w, Msg::Delete("/b/three".into()));
    tell(&mut w, Msg::Complete("/a/four".into()));
    tell(&mut w, Msg::Check("/a/two".into(), true));
    tell(&mut w, Msg::Refresh);
    // Two is gone, three is gone, four moved on to tomorrow.
    let mut four = task("four", "/a/", due(date(9, 15)));
    four.task.rrule = Some("FREQ=DAILY".into());
    let l = Loaded {
        lists: vec![list("/a/", false), list("/b/", true)],
        open: vec![task("one", "/a/", due(date(9, 14))), four],
        status: status(SyncState::Idle),
    };
    w.answer(Answer::Loaded(2, Ok(l)), &seen());
    assert_eq!(hrefs(&w.selected), ["/a/one"]);
    assert!(w.hidden.is_empty());
    assert!(w.completing.is_empty());
    assert_eq!(hrefs(&w.rolled), ["/a/four"]);
}

#[test]
fn completed_tasks_are_loaded_when_a_view_needs_them() {
    let mut w = window();
    let step = tell(&mut w, Msg::Navigate(Nav::Completed));
    assert!(matches!(
        step.acts.as_slice(),
        [Do::Save, Do::LoadCompleted(1), Do::FocusColumn]
    ));
    let mut done = task("done", "/a/", None);
    done.task.open = false;
    done.task.completed = Some(Moment { secs: NOW, nanos: 0 });
    let step = w.answer(Answer::CompletedLoaded(0, Ok(Vec::new())), &seen());
    assert!(!step.draws);
    assert!(w.completed.is_none());
    w.answer(Answer::CompletedLoaded(1, Ok(vec![done])), &seen());
    assert_eq!(hrefs(&on_view(&w)), ["/a/done"]);
    let step = w.answer(Answer::CompletedLoaded(1, Err("slow".into())), &seen());
    assert_eq!(toast(&step), "slow");
    // Once they are there, a reload loads them too.
    let step = tell(&mut w, Msg::Refresh);
    assert!(matches!(step.acts.as_slice(), [Do::Load(2), Do::LoadCompleted(2)]));
}

// -- moving around --------------------------------------------------------------------------------

#[test]
fn another_view_starts_clean() {
    let mut w = window();
    tell(&mut w, Msg::SelectToggle("/a/one".into()));
    tell(&mut w, Msg::ShowAdd(None));
    let step = tell(&mut w, Msg::Navigate(Nav::Inbox));
    assert!(matches!(step.acts.as_slice(), [Do::Save, Do::FocusColumn]));
    assert_eq!(w.prefs.view, "inbox");
    assert!(!w.select_mode && w.selected.is_empty());
    assert!(w.adding.is_none() && w.editing.is_none() && w.cursor.is_none());
    // The same view once more only takes the keyboard.
    let step = tell(&mut w, Msg::Navigate(Nav::Inbox));
    assert!(matches!(step.acts.as_slice(), [Do::FocusColumn]));
    // Over a narrow window the sidebar goes.
    let mut narrow = seen();
    narrow.narrow = true;
    let step = w.update(Msg::Navigate(Nav::Today), &narrow);
    assert!(matches!(
        step.acts.as_slice(),
        [Do::Save, Do::ShowSidebar(false), Do::FocusColumn]
    ));
}

#[test]
fn next_view_and_back() {
    let mut w = window();
    let go = |w: &mut Window, key: Key| {
        let mut step = tell(w, Msg::Key(key));
        match step.acts.pop() {
            Some(Do::Send(m)) => {
                tell(w, m);
            }
            other => panic!("{other:?}"),
        }
        w.nav.key()
    };
    assert_eq!(go(&mut w, Key::NextView), "scheduled");
    assert_eq!(go(&mut w, Key::PrevView), "today");
    assert_eq!(go(&mut w, Key::PrevView), "inbox");
    // Around the ends, through the lists.
    assert_eq!(go(&mut w, Key::PrevView), "list:/b/");
    assert_eq!(go(&mut w, Key::NextView), "inbox");
    assert_eq!(go(&mut w, Key::Go(Nav0::Scheduled)), "scheduled");
    assert_eq!(go(&mut w, Key::Go(Nav0::List(1))), "list:/b/");
    let step = tell(&mut w, Msg::Key(Key::Go(Nav0::List(7))));
    assert!(step.acts.is_empty());
}

#[test]
fn focus_syncs_now_and_then() {
    let mut w = window();
    assert!(matches!(tell(&mut w, Msg::Focused).acts.as_slice(), [Do::Sync(false)]));
    let mut later = seen();
    later.at += 30_000;
    assert!(w.update(Msg::Focused, &later).acts.is_empty());
    later.at += 1;
    assert!(matches!(w.update(Msg::Focused, &later).acts.as_slice(), [Do::Sync(false)]));
    assert!(matches!(tell(&mut w, Msg::SyncNow).acts.as_slice(), [Do::Sync(true)]));
}

// -- deleting -------------------------------------------------------------------------------------

#[test]
fn deleting_hides_and_undo_brings_back() {
    let mut w = window();
    assert_eq!(hrefs(&on_view(&w)), ["/a/two", "/a/one"]);
    let step = tell(&mut w, Msg::Delete("/a/one".into()));
    match step.acts.as_slice() {
        [Do::UndoToast(text, 4, undo, gone)] => {
            assert_eq!(text, "Deleted “Task one”");
            assert!(matches!(undo.as_slice(), [Msg::Undelete(h)] if h == "/a/one"));
            assert!(matches!(gone.as_slice(), [Msg::DeleteNow(h)] if h == "/a/one"));
        }
        other => panic!("{other:?}"),
    }
    assert_eq!(hrefs(&on_view(&w)), ["/a/two"]);
    tell(&mut w, Msg::Undelete("/a/one".into()));
    assert_eq!(hrefs(&on_view(&w)), ["/a/two", "/a/one"]);
    // The toast goes, and deletes nothing.
    assert!(tell(&mut w, Msg::DeleteNow("/a/one".into())).acts.is_empty());

    tell(&mut w, Msg::Delete("/a/one".into()));
    let step = tell(&mut w, Msg::DeleteNow("/a/one".into()));
    assert!(matches!(step.acts.as_slice(), [Do::Delete(h)] if h == "/a/one"));
    let step = tell(&mut w, Msg::Delete("/a/nothing".into()));
    assert!(step.acts.is_empty() && !step.draws);
}

#[test]
fn long_titles_are_cut_in_toasts() {
    assert_eq!(quoted("short"), "“short”");
    let forty = "x".repeat(40);
    assert_eq!(quoted(&forty), format!("“{forty}”"));
    assert_eq!(quoted(&format!("{forty}y")), format!("“{forty}…”"));
    assert_eq!(say_tasks("Moved", 1), "Moved 1 task");
    assert_eq!(say_tasks("Moved", 12), "Moved 12 tasks");
}

// -- checking off ---------------------------------------------------------------------------------

#[test]
fn a_slip_can_be_unchecked() {
    let mut w = window();
    let step = tell(&mut w, Msg::Check("/a/one".into(), true));
    assert!(matches!(
        step.acts.as_slice(),
        [Do::Later(1200, Msg::CompleteNow(h, 1))] if h == "/a/one"
    ));
    tell(&mut w, Msg::Check("/a/one".into(), false));
    assert!(w.completing.is_empty());
    let step = tell(&mut w, Msg::Check("/a/one".into(), true));
    assert!(matches!(
        step.acts.as_slice(),
        [Do::Later(1200, Msg::CompleteNow(_, 2))]
    ));
    // The first moment is over: it is not the one that counts.
    assert!(tell(&mut w, Msg::CompleteNow("/a/one".into(), 1)).acts.is_empty());
    let step = tell(&mut w, Msg::CompleteNow("/a/one".into(), 2));
    assert!(matches!(step.acts.as_slice(), [Do::Complete(h)] if h == "/a/one"));
    assert!(matches!(w.completing[0].1, Completing::Sent(Some(_))));
    // It is on its way: checking it again does nothing.
    assert!(tell(&mut w, Msg::Check("/a/one".into(), true)).acts.is_empty());
}

#[test]
fn checking_can_complete_at_once() {
    let mut w = window();
    w.prefs.complete_later = false;
    let step = tell(&mut w, Msg::Check("/b/three".into(), true));
    assert!(matches!(step.acts.as_slice(), [Do::Complete(h)] if h == "/b/three"));
    // One that is not open is opened again.
    let step = tell(&mut w, Msg::Check("/a/done".into(), false));
    assert!(matches!(step.acts.as_slice(), [Do::Send(Msg::Reopen(h))] if h == "/a/done"));
    let step = tell(&mut w, Msg::Reopen("/a/done".into()));
    assert!(matches!(step.acts.as_slice(), [Do::Reopen(_)]));
}

#[test]
fn completing_says_what_came_of_it() {
    let mut w = window();
    let mut next = task("one", "/a/", due(date(9, 15)));
    next.task.rrule = Some("FREQ=DAILY".into());
    let step = w.answer(
        Answer::Completed("/a/one".into(), Ok((next, "tomorrow".into()))),
        &seen(),
    );
    assert_eq!(toast(&step), "Completed “Task one” · next tomorrow");
    let mut done = task("one", "/a/", None);
    done.task.open = false;
    let step = w.answer(Answer::Completed("/a/one".into(), Ok((done, String::new()))), &seen());
    match step.acts.as_slice() {
        [Do::UndoToast(text, 4, undo, gone)] => {
            assert_eq!(text, "Completed “Task one”");
            assert!(matches!(undo.as_slice(), [Msg::Reopen(h)] if h == "/a/one"));
            assert!(gone.is_empty());
        }
        other => panic!("{other:?}"),
    }
    tell(&mut w, Msg::Complete("/a/two".into()));
    assert_eq!(w.completing.len(), 1);
    let step = w.answer(Answer::Completed("/a/two".into(), Err("busy".into())), &seen());
    assert_eq!(toast(&step), "busy");
    assert!(w.completing.is_empty());
}

// -- selecting ------------------------------------------------------------------------------------

#[test]
fn selecting_twice_undoes() {
    let mut w = window();
    tell(&mut w, Msg::SelectToggle("/a/one".into()));
    tell(&mut w, Msg::Activate("/a/two".into()));
    assert_eq!(hrefs(&w.selected), ["/a/one", "/a/two"]);
    assert_eq!(w.selection_label(), "2 selected");
    tell(&mut w, Msg::Activate("/a/one".into()));
    assert_eq!(hrefs(&w.selected), ["/a/two"]);
    assert_eq!(w.selection_label(), "1 selected");
    tell(&mut w, Msg::Activate("/a/one".into()));
    assert_eq!(hrefs(&w.selected), ["/a/two", "/a/one"]);
    tell(&mut w, Msg::SelectMode(false));
    assert!(w.selected.is_empty());
    assert_eq!(w.selection_label(), "Select tasks");
}

#[test]
fn selected_tasks_are_done_with_at_once() {
    let select = || {
        let mut w = window();
        tell(&mut w, Msg::SelectToggle("/b/three".into()));
        tell(&mut w, Msg::SelectToggle("/a/one".into()));
        w
    };
    let mut w = window();
    assert!(tell(&mut w, Msg::Batch(Batch::Delete)).acts.is_empty());

    let mut w = select();
    match tell(&mut w, Msg::Batch(Batch::Delete)).acts.as_slice() {
        [Do::UndoToast(text, 5, undo, gone)] => {
            assert_eq!(text, "Deleted 2 tasks");
            assert_eq!((undo.len(), gone.len()), (2, 2));
        }
        other => panic!("{other:?}"),
    }
    assert_eq!(hrefs(&w.hidden), ["/b/three", "/a/one"]);
    assert!(!w.select_mode && w.selected.is_empty());

    let mut w = select();
    match tell(&mut w, Msg::Batch(Batch::Complete)).acts.as_slice() {
        [Do::CompleteAll(v, said)] => {
            assert_eq!(hrefs(v), ["/b/three", "/a/one"]);
            assert_eq!(said, "Completed 2 tasks");
        }
        other => panic!("{other:?}"),
    }

    let mut w = select();
    match tell(&mut w, Msg::Batch(Batch::Priority(2))).acts.as_slice() {
        [Do::EditAll(edits, said)] => {
            assert_eq!(said, "");
            assert!(edits.iter().all(|e| e.change.priority == Some(2)));
            assert_eq!(edits.len(), 2);
        }
        other => panic!("{other:?}"),
    }

    let mut w = select();
    match tell(&mut w, Msg::Batch(Batch::Date(date(9, 20)))).acts.as_slice() {
        [Do::Send(Msg::EditMany(edits))] => {
            assert_eq!(edits[0].change.due, Some(SetDue::Move(Moved::Day(date(9, 20)))));
            assert_eq!(edits[1].href, "/a/one");
        }
        other => panic!("{other:?}"),
    }

    let mut w = select();
    match tell(&mut w, Msg::Batch(Batch::Move("/b/".into()))).acts.as_slice() {
        [Do::EditAll(edits, said)] => {
            assert_eq!(said, "Moved 2 tasks");
            assert_eq!(edits[0].change.list.as_deref(), Some("/b/"));
        }
        other => panic!("{other:?}"),
    }

    // Copied as they are on screen, not as they were picked.
    let mut w = select();
    let mut s = seen();
    s.rows = vec!["/a/one".into(), "/b/three".into()];
    match w.update(Msg::Batch(Batch::Copy), &s).acts.as_slice() {
        [Do::CopyTasks(head, v, said)] => {
            assert_eq!(head, "");
            assert_eq!(hrefs(v), ["/a/one", "/b/three"]);
            assert_eq!(said, "Copied 2 tasks");
        }
        other => panic!("{other:?}"),
    }
}

// -- the task open in place -----------------------------------------------------------------------

#[test]
fn typing_is_saved_as_the_task_closes() {
    let mut w = window();
    let step = tell(&mut w, Msg::Open("/a/one".into()));
    assert!(matches!(step.acts.as_slice(), [Do::ShowTask(h)] if h == "/a/one"));
    assert_eq!(w.editing.as_deref(), Some("/a/one"));
    assert_eq!(w.editor.href(), Some("/a/one"));
    assert!(w.expand && w.refocus == Refocus::Editor);
    w.editor.typed_title();
    w.editor.typed_notes();
    assert!(w.editor.has_pending());
    let mut s = seen();
    s.title = field("  Call\nthe bank ");
    s.notes = field("soon  \n");
    let step = w.update(Msg::CloseEditor, &s);
    assert!(matches!(step.acts.as_slice(), [Do::CollapseEditor]));
    assert_eq!(step.edits.len(), 2);
    assert_eq!(step.edits[0].change.summary.as_deref(), Some("Call the bank"));
    assert_eq!(step.edits[1].change.description, Some(Some("soon".into())));
    // The row says so at once.
    assert_eq!(w.open[0].task.summary, "Call the bank");
    assert_eq!(w.open[0].task.description.as_deref(), Some("soon"));
    assert!(w.editing.is_none() && w.editor.href().is_none());
    assert_eq!(w.cursor.as_deref(), Some("/a/one"));
    assert!(w.refocus == Refocus::Row);
}

#[test]
fn no_way_out_of_a_task_loses_typing() {
    let ways: Vec<fn() -> Msg> = vec![
        || Msg::Navigate(Nav::All),
        || Msg::Open("/b/three".into()),
        || Msg::Reveal("/b/three".into()),
        || Msg::SelectMode(true),
        || Msg::Complete("/a/one".into()),
        || Msg::TrayClick,
        || Msg::Quit,
    ];
    for way in ways {
        let mut w = window();
        tell(&mut w, Msg::Open("/a/one".into()));
        w.editor.typed_title();
        let mut s = seen();
        s.title = field("new");
        let step = w.update(way(), &s);
        assert_eq!(step.edits.len(), 1, "{:?}", way());
        assert_eq!(step.edits[0].href, "/a/one");
        assert_eq!(step.edits[0].change.summary.as_deref(), Some("new"));
    }
}

#[test]
fn only_hidden_tasks_are_deleted() {
    let mut w = window();
    assert!(tell(&mut w, Msg::DeleteNow("/a/one".into())).acts.is_empty());
    let step = tell(&mut w, Msg::Delete("/a/one".into()));
    assert!(!step.acts.iter().any(|d| matches!(d, Do::Delete(_))));
    let step = tell(&mut w, Msg::DeleteNow("/a/one".into()));
    assert!(matches!(step.acts.as_slice(), [Do::Delete(h)] if h == "/a/one"));
    let step = tell(&mut w, Msg::Quit);
    assert!(matches!(step.acts.last(), Some(Do::Finish(v, true)) if v.len() == 1));
}

#[test]
fn changed_preferences_are_written_down() {
    let changes: Vec<fn() -> Msg> = vec![
        || Msg::Navigate(Nav::All),
        || Msg::SetViewOpts(ViewOpts { descending: true, ..ViewOpts::default() }),
        || Msg::ReorderLists(vec!["/b/".into()]),
        || Msg::Archive("/a/".into(), true),
        || Msg::HideView(Nav::Inbox),
        || Msg::Reveal("/b/three".into()),
    ];
    for change in changes {
        let step = tell(&mut window(), change());
        assert!(step.acts.iter().any(|d| matches!(d, Do::Save)), "{:?}", change());
    }
    assert!(!tell(&mut window(), Msg::Tick).acts.iter().any(|d| matches!(d, Do::Save)));
}

#[test]
fn a_card_folds_before_it_closes() {
    let mut w = window();
    tell(&mut w, Msg::Open("/a/one".into()));
    let mut s = seen();
    s.fold_ms = 220;
    let step = w.update(Msg::CloseEditor, &s);
    assert!(matches!(
        step.acts.as_slice(),
        [Do::CollapseEditor, Do::Later(220, Msg::Folded(h))] if h == "/a/one"
    ));
    assert_eq!(w.folding.as_deref(), Some("/a/one"));
    // Once more while it folds does nothing; opening it grows it back.
    assert!(w.update(Msg::CloseEditor, &s).acts.is_empty());
    let step = w.update(Msg::Open("/a/one".into()), &s);
    assert!(matches!(step.acts.as_slice(), [Do::ExpandEditor]));
    assert!(w.folding.is_none());
    // The old end of folding is not heeded.
    w.update(Msg::Folded("/a/one".into()), &s);
    assert_eq!(w.editing.as_deref(), Some("/a/one"));
    w.update(Msg::CloseEditor, &s);
    w.update(Msg::Folded("/a/one".into()), &s);
    assert!(w.editing.is_none());
}

#[test]
fn opening_another_task_closes_the_first() {
    let mut w = window();
    tell(&mut w, Msg::Open("/a/one".into()));
    let mut s = seen();
    s.typing = true;
    let step = w.update(Msg::Open("/a/two".into()), &s);
    assert!(matches!(step.acts.as_slice(), [Do::LetGo, Do::ShowTask(h)] if h == "/a/two"));
    assert_eq!(w.editing.as_deref(), Some("/a/two"));
    let step = tell(&mut w, Msg::Open("/a/nothing".into()));
    assert!(step.acts.is_empty());
    assert_eq!(w.editing.as_deref(), Some("/a/two"));
}

#[test]
fn keys_in_the_open_task() {
    let press = |name: &str, ctrl: bool| Press {
        name: name.into(),
        types: None,
        ctrl,
        alt: false,
    };
    let at = |name: &str, spot: Spot| editor_key(&press(name, false), false, spot, true);
    assert_eq!(at("Return", Spot::Title), EditorKey::SaveAndClose);
    assert_eq!(at("Return", Spot::Notes), EditorKey::Passed);
    assert_eq!(at("Tab", Spot::Title), EditorKey::ToNotes);
    assert_eq!(at("ISO_Left_Tab", Spot::Notes), EditorKey::ToTitle);
    assert_eq!(editor_key(&press("d", true), false, Spot::Notes, true), EditorKey::PickDate);
    assert_eq!(editor_key(&press("r", true), false, Spot::Notes, true), EditorKey::PickReminders);
    assert_eq!(editor_key(&press("d", true), false, Spot::Notes, false), EditorKey::Passed);

    let card = |name: &str, ctrl: bool, spot: Spot, up: bool| {
        card_key(&press(name, ctrl), spot, up, false)
    };
    assert_eq!(card("Down", false, Spot::Title, true), CardKey::NextSuggestion);
    assert_eq!(card("Tab", false, Spot::Title, true), CardKey::TakeSuggestion);
    assert_eq!(card("Escape", false, Spot::Title, true), CardKey::CloseSuggestions);
    assert_eq!(card("Escape", false, Spot::Title, false), CardKey::Cancel);
    assert_eq!(card("KP_Enter", false, Spot::Title, false), CardKey::Submit);
    assert_eq!(card("Return", false, Spot::Notes, false), CardKey::Passed);
    assert_eq!(card("Return", true, Spot::Notes, false), CardKey::Submit);
    assert_eq!(card("k", true, Spot::Title, false), CardKey::Passed);
    assert_eq!(card_key(&press("k", true), Spot::Title, false, true), CardKey::ToggleKeep);
}

// -- keys -----------------------------------------------------------------------------------------

#[test]
fn keys_mean_what_they_say() {
    let plain = Focus { elsewhere: false, typing: false, popover: false };
    let typing = Focus { typing: true, ..plain };
    let key = |name: &str, types: Option<char>, ctrl: bool, f: Focus| {
        key_action(&Press { name: name.into(), types, ctrl, alt: false }, f)
    };
    assert!(matches!(key("j", Some('j'), false, plain), Taken::Does(Key::Down)));
    assert!(matches!(key("G", Some('G'), false, plain), Taken::Does(Key::Last)));
    assert!(matches!(key("3", Some('3'), false, plain), Taken::Does(Key::Priority(3))));
    assert!(matches!(key("z", Some('z'), false, plain), Taken::Passed));
    // Letters typed in a field are the field's.
    assert!(matches!(key("j", Some('j'), false, typing), Taken::Passed));
    assert!(matches!(key("Escape", None, false, typing), Taken::Leaves(Key::Escape)));
    let popover = Focus { popover: true, ..typing };
    assert!(matches!(key("Escape", None, false, popover), Taken::Passed));
    assert!(matches!(key("f", Some('f'), true, typing), Taken::Does(Key::Find)));
    assert!(matches!(
        key("9", Some('9'), true, typing),
        Taken::Does(Key::Go(Nav0::List(8)))
    ));
    assert!(matches!(key("0", Some('0'), true, plain), Taken::Passed));
    assert!(matches!(key("v", Some('v'), true, plain), Taken::Does(Key::Paste)));
    assert!(matches!(key("v", Some('v'), true, typing), Taken::Passed));
    let dialog = Focus { elsewhere: true, ..plain };
    assert!(matches!(key("f", Some('f'), true, dialog), Taken::Passed));
}

#[test]
fn the_cursor_moves_over_rows() {
    let mut w = window();
    let mut s = seen();
    s.rows = vec!["/a/two".into(), "/a/one".into()];
    let step = w.update(Msg::Key(Key::Down), &s);
    assert!(matches!(step.acts.as_slice(), [Do::FocusRow(0)]));
    assert_eq!(w.cursor.as_deref(), Some("/a/two"));
    w.update(Msg::Key(Key::Down), &s);
    assert_eq!(w.cursor.as_deref(), Some("/a/one"));
    w.update(Msg::Key(Key::Down), &s);
    assert_eq!(w.cursor.as_deref(), Some("/a/one"));
    w.update(Msg::Key(Key::First), &s);
    assert_eq!(w.cursor.as_deref(), Some("/a/two"));
    w.update(Msg::Key(Key::Up), &s);
    assert_eq!(w.cursor.as_deref(), Some("/a/two"));
    w.update(Msg::Key(Key::Last), &s);
    assert_eq!(w.cursor.as_deref(), Some("/a/one"));
    // Moving on closes the task open in place.
    w.update(Msg::Open("/a/one".into()), &s);
    let step = w.update(Msg::Key(Key::Up), &s);
    assert!(step.acts.is_empty());
    assert!(w.editing.is_none() && w.refocus == Refocus::Row);
    assert_eq!(w.cursor.as_deref(), Some("/a/two"));
    s.rows.clear();
    assert!(w.update(Msg::Key(Key::Down), &s).acts.is_empty());
}

#[test]
fn d_deletes_when_pressed_twice() {
    let mut w = window();
    let mut s = seen();
    s.rows = vec!["/a/two".into(), "/a/one".into()];
    w.cursor = Some("/a/two".into());
    assert!(w.update(Msg::Key(Key::Delete), &s).acts.is_empty());
    s.at += 800;
    assert!(w.update(Msg::Key(Key::Delete), &s).acts.is_empty());
    s.at += 799;
    let step = w.update(Msg::Key(Key::Delete), &s);
    assert!(matches!(step.acts.as_slice(), [Do::Send(Msg::Delete(h))] if h == "/a/two"));
    assert_eq!(w.cursor.as_deref(), Some("/a/one"));
    // Another key in between, and it counts from the start.
    w.update(Msg::Key(Key::Delete), &s);
    w.update(Msg::Key(Key::Escape), &s);
    assert!(w.update(Msg::Key(Key::Delete), &s).acts.is_empty());
}

#[test]
fn keys_change_the_task_under_the_cursor() {
    let mut w = window();
    assert!(tell(&mut w, Msg::Key(Key::Open)).acts.is_empty());
    w.cursor = Some("/b/three".into());
    let sent = |w: &mut Window, key: Key| match tell(w, Msg::Key(key)).acts.pop() {
        Some(Do::Send(m)) => m,
        other => panic!("{other:?}"),
    };
    assert!(matches!(sent(&mut w, Key::Open), Msg::Open(h) if h == "/b/three"));
    assert!(matches!(sent(&mut w, Key::Toggle), Msg::Check(_, true)));
    let due_of = |m: Msg| match m {
        Msg::Edit(_, c) => c.due,
        other => panic!("{other:?}"),
    };
    let day = |d: Date| Some(SetDue::Move(Moved::Day(d)));
    assert_eq!(due_of(sent(&mut w, Key::Today)), day(date(9, 14)));
    assert_eq!(due_of(sent(&mut w, Key::Tomorrow)), day(date(9, 15)));
    assert_eq!(due_of(sent(&mut w, Key::NextWeek)), day(date(9, 21)));
    match sent(&mut w, Key::Priority(1)) {
        Msg::Edit(_, c) => assert_eq!(c.priority, Some(1)),
        other => panic!("{other:?}"),
    }
    assert!(matches!(sent(&mut w, Key::Select), Msg::SelectMode(true)));
    assert!(matches!(sent(&mut w, Key::Add), Msg::ShowAdd(None)));
    // Esc ends what was begun last.
    tell(&mut w, Msg::Open("/a/one".into()));
    assert!(matches!(sent(&mut w, Key::Escape), Msg::CloseEditor));
    tell(&mut w, Msg::SelectMode(true));
    assert!(matches!(sent(&mut w, Key::Escape), Msg::SelectMode(false)));
}

// -- changing tasks -------------------------------------------------------------------------------

#[test]
fn tasks_move_and_are_dropped() {
    let mut w = window();
    match tell(&mut w, Msg::Move("/a/one".into(), "/b/".into())).acts.as_slice() {
        [Do::Edit(h, c, said)] => {
            assert_eq!(h, "/a/one");
            assert_eq!(c.list.as_deref(), Some("/b/"));
            assert_eq!(said, "Moved “Task one” to B");
        }
        other => panic!("{other:?}"),
    }
    let step = tell(&mut w, Msg::Move("/a/one".into(), "/a/".into()));
    assert!(step.acts.is_empty() && !step.draws);
    let drop = |w: &mut Window, nav: Nav| tell(w, Msg::DropTask("/a/two".into(), nav)).acts.pop();
    assert!(matches!(
        drop(&mut w, Nav::Inbox),
        Some(Do::Send(Msg::Move(_, to))) if to == "/b/"
    ));
    assert!(matches!(drop(&mut w, Nav::Completed), Some(Do::Send(Msg::Complete(_)))));
    match drop(&mut w, Nav::Tomorrow) {
        Some(Do::Send(Msg::Edit(_, c))) => {
            assert_eq!(c.due, Some(SetDue::Move(Moved::Day(date(9, 15)))))
        }
        other => panic!("{other:?}"),
    }
    assert!(drop(&mut w, Nav::All).is_none());
}

#[test]
fn edits_show_at_once_and_are_sent() {
    let mut w = window();
    let mut c = Change::default();
    c.summary = Some("New words".into());
    let step = tell(&mut w, Msg::Edit("/a/two".into(), c));
    assert_eq!(w.open[1].task.summary, "New words");
    assert!(matches!(step.acts.as_slice(), [Do::Edit(_, _, said)] if said.is_empty()));

    let step = tell(
        &mut w,
        Msg::Reorder(vec![("/a/one".into(), 2048), ("/a/two".into(), 1024)]),
    );
    assert_eq!(w.open[0].task.sort_order, Some(2048));
    assert_eq!(w.open[1].task.sort_order, Some(1024));
    match step.acts.as_slice() {
        [Do::EditAll(edits, _)] => assert_eq!(edits[1].change.sort_order, Some(1024)),
        other => panic!("{other:?}"),
    }
    let many = vec![Edit { href: "/a/one".into(), change: Change::default() }];
    assert!(matches!(
        tell(&mut w, Msg::EditMany(many)).acts.as_slice(),
        [Do::EditAll(_, said)] if said == "Moved 1 task"
    ));
    w.open[0].task.description = Some("and notes".into());
    match tell(&mut w, Msg::Copy("/a/one".into())).acts.as_slice() {
        [Do::Clipboard(text), Do::Toast(said)] => {
            assert_eq!(text, "Task one\n\nand notes");
            assert_eq!(said, "Copied to the clipboard");
        }
        other => panic!("{other:?}"),
    }
}

// -- adding ---------------------------------------------------------------------------------------

#[test]
fn the_add_card_opens_where_the_view_adds() {
    let mut w = window();
    let step = tell(&mut w, Msg::ShowAdd(None));
    match step.acts.as_slice() {
        [Do::OpenCard(Target::Day(d))] => assert_eq!(*d, date(9, 14)),
        other => panic!("{other:?}"),
    }
    assert!(matches!(step.after.as_slice(), [Do::FocusCard]));
    // Again in the same place keeps what is in it.
    assert!(tell(&mut w, Msg::ShowAdd(None)).acts.is_empty());
    let step = tell(&mut w, Msg::AddText("Buy milk".into()));
    assert!(matches!(
        step.after.as_slice(),
        [Do::FocusCard, Do::FillCard(s)] if s == "Buy milk"
    ));
    tell(&mut w, Msg::Navigate(Nav::Inbox));
    assert!(matches!(
        tell(&mut w, Msg::ShowAdd(None)).acts.as_slice(),
        [Do::OpenCard(Target::List(h))] if h == "/b/"
    ));
    tell(&mut w, Msg::Navigate(Nav::Tomorrow));
    assert!(matches!(
        tell(&mut w, Msg::ShowAdd(None)).acts.as_slice(),
        [Do::OpenCard(Target::Day(d))] if *d == date(9, 15)
    ));
    tell(&mut w, Msg::Navigate(Nav::All));
    assert!(matches!(
        tell(&mut w, Msg::ShowAdd(None)).acts.as_slice(),
        [Do::OpenCard(Target::Anywhere)]
    ));
}

#[test]
fn the_add_card_folds_away() {
    let mut w = window();
    tell(&mut w, Msg::ShowAdd(None));
    let mut s = seen();
    s.card_mapped = true;
    s.row_ms = 220;
    let step = w.update(Msg::HideAdd, &s);
    assert!(matches!(
        step.acts.as_slice(),
        [
            Do::FocusColumn,
            Do::FoldCard,
            Do::Later(220, Msg::Resume),
            Do::Later(220, Msg::AddFolded)
        ]
    ));
    assert!(w.adding.is_some());
    assert_eq!(w.settle_until, Some(1_000_220));
    tell(&mut w, Msg::AddFolded);
    assert!(w.adding.is_none());
    // Opened again while it folds, it stays.
    tell(&mut w, Msg::ShowAdd(None));
    w.update(Msg::HideAdd, &s);
    tell(&mut w, Msg::ShowAdd(None));
    tell(&mut w, Msg::AddFolded);
    assert!(w.adding.is_some());
    tell(&mut w, Msg::HideAdd);
    assert!(w.adding.is_none());
}

#[test]
fn where_a_task_went_is_said_when_that_is_elsewhere() {
    let mut w = window();
    let mut added = |existed: bool, t: TaskView, label: &str| {
        w.answer(
            Answer::Added(Ok(Added { existed, task: t, label: label.into() })),
            &seen(),
        )
    };
    assert!(added(false, task("new", "/a/", due(date(9, 14))), "today").acts.is_empty());
    let step = added(false, task("new", "/a/", due(date(9, 20))), "Sunday");
    assert_eq!(toast(&step), "Added to a, Sunday");
    let step = added(false, task("new", "/b/", None), "");
    assert_eq!(toast(&step), "Added to b");
    let step = added(true, task("new", "/b/", None), "");
    assert_eq!(toast(&step), "Already there: “Task new”");
    let step = w.answer(Answer::Added(Err("no".into())), &seen());
    assert_eq!(toast(&step), "no");
}

// -- lists and views ------------------------------------------------------------------------------

#[test]
fn archiving_and_undo() {
    let mut w = window();
    let step = tell(&mut w, Msg::Archive("/a/".into(), true));
    match step.acts.as_slice() {
        [Do::Save, Do::UndoToast(text, 4, undo, _)] => {
            assert_eq!(text, "Archived “A”");
            assert!(matches!(undo.as_slice(), [Msg::Archive(h, false)] if h == "/a/"));
        }
        other => panic!("{other:?}"),
    }
    assert!(w.prefs.is_archived("/a/"));
    assert!(on_view(&w).is_empty());
    // On view itself, an archived list shows its tasks.
    tell(&mut w, Msg::Navigate(Nav::List("/a/".into())));
    assert!(w.nav_archived());
    assert_eq!(on_view(&w).len(), 2);
    let step = tell(&mut w, Msg::Archive("/a/".into(), false));
    assert!(matches!(
        step.acts.as_slice(),
        [Do::Save, Do::UndoToast(text, _, _, _)] if text == "Unarchived “A”"
    ));
    assert!(!w.prefs.is_archived("/a/"));
    assert!(!tell(&mut w, Msg::Archive("/x/".into(), true)).draws);
}

#[test]
fn hiding_a_view_and_undo() {
    let mut w = window();
    let keys = |w: &Window| -> Vec<String> {
        w.prefs.sidebar_views().iter().map(Nav::key).collect()
    };
    let mut step = tell(&mut w, Msg::HideView(Nav::Scheduled));
    assert_eq!(keys(&w), ["inbox", "today", "completed"]);
    match step.acts.pop() {
        Some(Do::UndoToast(text, 4, mut undo, _)) => {
            assert_eq!(text, "Took Scheduled out of the sidebar");
            let undo = undo.pop().unwrap();
            tell(&mut w, undo);
        }
        other => panic!("{other:?}"),
    }
    assert_eq!(keys(&w), ["inbox", "today", "scheduled", "completed"]);
}

#[test]
fn lists_are_deleted_after_asking() {
    let mut w = window();
    assert!(matches!(
        tell(&mut w, Msg::AskDeleteList("/a/".into())).acts.as_slice(),
        [Do::DeleteListDialog(h, 2)] if h == "/a/"
    ));
    assert!(tell(&mut w, Msg::AskDeleteList("/x/".into())).acts.is_empty());
    tell(&mut w, Msg::Navigate(Nav::List("/a/".into())));
    assert!(matches!(
        tell(&mut w, Msg::DeleteList("/a/".into())).acts.as_slice(),
        [Do::DeleteList(_, said)] if said == "Deleted “A”"
    ));
    assert_eq!(w.nav.key(), "today");

    assert!(matches!(
        tell(&mut w, Msg::AskDeleteCompleted(None)).acts.as_slice(),
        [Do::DeleteCompletedDialog(4, from, None)] if from == "every list"
    ));
    assert!(matches!(
        tell(&mut w, Msg::AskDeleteCompleted(Some("/b/".into()))).acts.as_slice(),
        [Do::DeleteCompletedDialog(2, from, Some(_))] if from == "“B”"
    ));
    w.lists[0].done = 0;
    assert!(matches!(
        tell(&mut w, Msg::AskDeleteCompleted(Some("/a/".into()))).acts.as_slice(),
        [Do::Toast(s)] if s == "Nothing completed to delete"
    ));
    assert!(!tell(&mut w, Msg::AskDeleteCompleted(Some("/x/".into()))).draws);
}

#[test]
fn a_list_is_copied_as_it_is_shown() {
    let mut w = window();
    let mut opts = ViewOpts::default();
    opts.sort = Some(Sort::Due);
    tell(&mut w, Msg::Navigate(Nav::List("/a/".into())));
    assert!(w.custom_order());
    let step = tell(&mut w, Msg::SetViewOpts(opts));
    assert!(matches!(step.acts.as_slice(), [Do::Save]));
    assert!(!w.custom_order());
    match tell(&mut w, Msg::CopyList("/a/".into())).acts.as_slice() {
        [Do::CopyTasks(head, v, said)] => {
            assert_eq!(head, "## A\n\n");
            assert_eq!(hrefs(v), ["/a/two", "/a/one"]);
            assert_eq!(said, "Copied “A” as Markdown");
        }
        other => panic!("{other:?}"),
    }
    let mut opts = ViewOpts::default();
    opts.show_completed = true;
    let step = tell(&mut w, Msg::SetViewOpts(opts));
    assert!(matches!(step.acts.as_slice(), [Do::Save, Do::LoadCompleted(1)]));
}

#[test]
fn a_saved_list_is_gone_to_when_it_is_new() {
    let mut w = window();
    let step = w.answer(Answer::ListSaved(Ok(list("/c/", false))), &seen());
    assert!(matches!(step.acts.as_slice(), [Do::Load(2)]));
    assert_eq!(w.nav.key(), "list:/c/");
    assert_eq!(w.lists.len(), 3);
    w.nav = Nav::Today;
    w.answer(Answer::ListSaved(Ok(list("/c/", false))), &seen());
    assert_eq!(w.nav.key(), "today");
    assert_eq!(w.lists.len(), 3);
    let step = w.answer(Answer::ListSaved(Err("taken".into())), &seen());
    assert_eq!(toast(&step), "taken");
}

// -- showing tasks --------------------------------------------------------------------------------

#[test]
fn a_task_is_shown_where_it_lives() {
    let mut w = window();
    let step = tell(&mut w, Msg::Reveal("/b/three".into()));
    assert!(matches!(step.acts.as_slice(), [Do::Save, Do::ShowTask(h)] if h == "/b/three"));
    assert_eq!(w.nav.key(), "list:/b/");
    assert_eq!(w.prefs.view, "list:/b/");
    assert_eq!(w.editing.as_deref(), Some("/b/three"));
    let step = tell(&mut w, Msg::Reveal("/b/unknown".into()));
    assert!(matches!(step.acts.as_slice(), [Do::Get(h)] if h == "/b/unknown"));
    let step = tell(&mut w, Msg::OpenTask("/a/one".into()));
    assert!(matches!(
        step.acts.as_slice(),
        [Do::Present, Do::Send(Msg::Reveal(h))] if h == "/a/one"
    ));
    // It comes, and is opened in its list; completed ones are shown there.
    let mut done = task("unknown", "/b/", None);
    done.task.open = false;
    w.completed = Some(Vec::new());
    w.nav = Nav::Today;
    let step = w.answer(Answer::Opened(Ok(done)), &seen());
    assert!(matches!(step.acts.as_slice(), [Do::Save, Do::ShowTask(h)] if h == "/b/unknown"));
    assert_eq!(w.nav.key(), "list:/b/");
    assert!(w.prefs.view_opts(&Nav::List("/b/".into())).show_completed);
    assert!(w.in_view("/b/unknown", &now()));
    // One that is on view is opened there.
    w.editing = None;
    w.editor = asst::editor::Editor::new();
    w.nav = Nav::Today;
    let step = w.answer(Answer::Opened(Ok(task("one", "/a/", None))), &seen());
    assert!(matches!(step.acts.as_slice(), [Do::ShowTask(_)]));
    assert_eq!(w.nav.key(), "today");
    let step = w.answer(Answer::Opened(Err("gone".into())), &seen());
    assert_eq!(toast(&step), "gone");
}

#[test]
fn file_names_are_safe() {
    assert_eq!(file_name("Call the bank"), "Call the bank");
    assert_eq!(file_name("a/b\u{7}c"), "a-b-c");
    assert_eq!(file_name("  ..hidden "), "hidden");
    assert_eq!(file_name("..."), "task");
    assert_eq!(file_name(""), "task");
    assert_eq!(file_name(&"é".repeat(70)), "é".repeat(60));
    let mut w = window();
    match w.answer(Answer::Ics("/a/one".into(), Ok("BEGIN".into())), &seen()).acts.as_slice() {
        [Do::SaveFile(name, text)] => {
            assert_eq!((name.as_str(), text.as_str()), ("Task one.ics", "BEGIN"))
        }
        other => panic!("{other:?}"),
    }
    let step = w.answer(Answer::Ics("/x".into(), Err("no".into())), &seen());
    assert_eq!(toast(&step), "no");
}

// -- account and settings -------------------------------------------------------------------------

#[test]
fn signing_in() {
    let mut w = window();
    w.status = Some(status(SyncState::NoAccount));
    assert_eq!(w.page(), Page::SignIn);
    let step = tell(&mut w, Msg::SignIn("cloud.example.com".into()));
    assert!(matches!(step.acts.as_slice(), [Do::Login(s)] if s == "cloud.example.com"));
    let look = w.sign_in_look();
    assert!(look.waiting && look.again.is_none() && look.error.is_none());
    let step = w.answer(Answer::LoginUrl(Ok("https://x".into())), &seen());
    assert!(matches!(step.acts.as_slice(), [Do::Launch(u)] if u == "https://x"));
    assert_eq!(w.sign_in_look().again, Some("https://x"));
    w.answer(Answer::LoginDone(false, "denied".into()), &seen());
    assert_eq!(w.sign_in_look().error, Some("denied"));
    assert!(!w.sign_in_look().waiting);
    let step = w.answer(Answer::LoginDone(true, String::new()), &seen());
    assert!(matches!(
        step.acts.as_slice(),
        [Do::Toast(s), Do::Load(2), Do::LoadSettings] if s == "Signed in"
    ));
    assert!(w.sign_in_look().error.is_none());
    // Signed in elsewhere: everything is loaded.
    let step = w.answer(Answer::Status(status(SyncState::Idle)), &seen());
    assert!(matches!(step.acts.as_slice(), [Do::Load(3)]));
    let step = w.answer(Answer::Status(status(SyncState::Offline)), &seen());
    assert!(step.acts.is_empty());
    w.answer(Answer::LoginUrl(Err("down".into())), &seen());
    assert_eq!(w.sign_in_look().error, Some("down"));
    tell(&mut w, Msg::CancelSignIn);
    assert!(w.signing_in.is_none());
    assert!(matches!(tell(&mut w, Msg::SignOut).acts.as_slice(), [Do::Logout]));
}

#[test]
fn what_is_done_is_said() {
    let mut w = window();
    let step = w.answer(Answer::Toast(Ok("Reopened".into())), &seen());
    assert_eq!(toast(&step), "Reopened");
    assert!(w.answer(Answer::Toast(Ok(String::new())), &seen()).acts.is_empty());
    let step = w.answer(Answer::Toast(Err("offline".into())), &seen());
    assert!(matches!(step.acts.as_slice(), [Do::Toast(s), Do::Load(2)] if s == "offline"));
    let step = w.answer(Answer::Changed, &seen());
    assert!(matches!(step.acts.as_slice(), [Do::Load(3)]) && !step.draws);
    assert!(w.answer(Answer::Settings(Err("later".into())), &seen()).acts.is_empty());
    let s = Settings {
        inbox: None,
        interval: 60,
        snooze: vec![10],
        alarm_at_due: true,
        alarm_before: 0,
        notes: "/n".into(),
    };
    w.answer(Answer::Settings(Ok(s)), &seen());
    let step = w.answer(Answer::Settings(Err("later".into())), &seen());
    assert_eq!(toast(&step), "later");
    let found = Place { name: "Kiel".into(), lat: "54.3".into(), lon: "10.1".into() };
    let step = w.answer(Answer::Places(Ok(vec![found])), &seen());
    match step.acts.as_slice() {
        [Do::ShowPlaces(v)] => assert_eq!((v.len(), v[0].name.as_str()), (1, "Kiel")),
        other => panic!("{other:?}"),
    }
    let step = w.answer(Answer::Places(Err("nowhere".into())), &seen());
    assert_eq!(toast(&step), "nowhere");
    assert!(matches!(
        tell(&mut w, Msg::SetSettings(SettingsChange::default())).acts.as_slice(),
        [Do::SetSettings(_)]
    ));
}

#[test]
fn closing_goes_to_the_tray_or_quits() {
    let mut w = window();
    let step = tell(&mut w, Msg::CloseWindow);
    assert!(matches!(step.acts.as_slice(), [Do::Save, Do::HideWindow]));
    assert_eq!((w.prefs.width, w.prefs.height), (1000, 700));
    let mut s = seen();
    s.tray_online = false;
    let step = w.update(Msg::CloseWindow, &s);
    assert!(matches!(step.acts.as_slice(), [Do::Send(Msg::Quit)]));
    // What waits is sent before the end.
    tell(&mut w, Msg::Open("/a/one".into()));
    w.editor.typed_title();
    tell(&mut w, Msg::Delete("/b/three".into()));
    let mut s = seen();
    s.title = field("Typed");
    s.maximized = true;
    let step = w.update(Msg::Quit, &s);
    assert!(!step.draws);
    assert!(w.prefs.maximized && w.prefs.width == 1000);
    assert_eq!(step.edits[0].change.summary.as_deref(), Some("Typed"));
    match step.acts.as_slice() {
        [Do::Save, Do::Finish(deletes, true)] => assert_eq!(hrefs(deletes), ["/b/three"]),
        other => panic!("{other:?}"),
    }
    let step = w.answer(Answer::Closed, &seen());
    assert!(matches!(step.acts.as_slice(), [Do::Close]));
    assert!(w.hidden.is_empty());
    let mut s = seen();
    s.active = false;
    assert!(matches!(w.update(Msg::TrayClick, &s).acts.as_slice(), [Do::Present]));
    assert!(matches!(
        tell(&mut w, Msg::TrayClick).acts.as_slice(),
        [Do::Save, Do::HideWindow]
    ));
}

#[test]
fn preferences_turn_the_tray_on_and_off() {
    let mut w = window();
    let mut p = Prefs::default();
    p.background = false;
    let step = tell(&mut w, Msg::SetPrefs(p));
    assert!(matches!(
        step.acts.as_slice(),
        [Do::Save, Do::CardDefaults, Do::Tray(false)]
    ));
    let step = tell(&mut w, Msg::SetPrefs(Prefs::default()));
    assert!(matches!(step.acts.as_slice(), [Do::Save, Do::CardDefaults]));
}

// -- drawing --------------------------------------------------------------------------------------

fn screen() -> Screen {
    Screen { motion: true, rolled_ms: 1200, had_focus: false, kept_focus: false }
}

#[test]
fn a_view_is_built_once() {
    let mut w = window();
    let s = seen();
    match w.draw(&s, false, screen()) {
        Drawn::Built(b) => {
            // The first build with data just shows.
            assert!(b.fresh.rows.is_none() && !b.fresh.view && !b.rows_move);
            assert!(b.acts.is_empty());
        }
        other => panic!("{other:?}"),
    }
    assert!(matches!(w.draw(&s, false, screen()), Drawn::Same));
    assert_eq!(w.built.nav.as_deref(), Some("today"));
}

#[test]
fn a_view_is_built_anew_when_it_changed() {
    let mut w = window();
    let mut s = seen();
    w.draw(&s, false, screen());
    let mut anew = |w: &mut Window, s: &Seen| {
        let built = matches!(w.draw(s, false, screen()), Drawn::Built(_));
        assert!(matches!(w.draw(s, false, screen()), Drawn::Same));
        built
    };
    assert!(!anew(&mut w, &s));
    // What is not on view does not count.
    w.cursor = Some("/a/one".into());
    w.error = Some("x".into());
    assert!(!anew(&mut w, &s));
    w.open[0].task.summary.push('!');
    assert!(anew(&mut w, &s));
    w.open[0].task.alarms.push(Trigger::Relative { offset: 0, from_due: true });
    assert!(anew(&mut w, &s));
    w.open[0].task.linked_notes.push(Note { link: "a.md".into(), name: "a".into() });
    assert!(anew(&mut w, &s));
    w.open[0].pending = true;
    assert!(anew(&mut w, &s));
    w.select_mode = true;
    assert!(anew(&mut w, &s));
    w.selected = vec!["/a/one".into(), "/a/two".into()];
    assert!(anew(&mut w, &s));
    // What is selected has no order.
    w.selected.reverse();
    assert!(!anew(&mut w, &s));
    w.lists[0].color = Some("#ff0000".into());
    assert!(anew(&mut w, &s));
    w.prefs.sunday_first = !w.prefs.sunday_first;
    assert!(anew(&mut w, &s));
    w.adding = Some(Target::Anywhere);
    assert!(anew(&mut w, &s));
    s.now.at.secs += 86400;
    assert!(anew(&mut w, &s));
    w.nav = Nav::All;
    assert!(anew(&mut w, &s));
}

#[test]
fn what_is_new_moves() {
    let mut w = window();
    let mut s = seen();
    w.draw(&s, false, screen());
    s.rows = vec!["/a/two".into(), "/a/one".into()];
    s.row_ms = 220;
    w.open.push(task("five", "/b/", due(date(9, 14))));
    w.update(Msg::Delete("/a/two".into()), &s);
    w.update(Msg::Complete("/a/one".into()), &s);
    match w.draw(&s, false, screen()) {
        Drawn::Built(b) => {
            assert_eq!(b.fresh.rows, Some(vec!["/b/five".into()]));
            assert_eq!(b.fresh.checked, Some(vec!["/a/one".into()]));
            assert!(b.rows_move);
            assert!(matches!(b.acts.as_slice(), [Do::Later(220, Msg::Resume)]));
        }
        other => panic!("{other:?}"),
    }
    assert_eq!(w.settle_until, Some(1_000_220));
    // News from the daemon wait until that has played.
    w.open.push(task("six", "/b/", due(date(9, 14))));
    assert!(matches!(w.draw(&s, true, screen()), Drawn::Waits));
    assert!(w.dirty);
    s.at += 220;
    assert!(matches!(w.draw(&s, true, screen()), Drawn::Built(_)));
    assert!(few(12, 0) && few(6, 6) && !few(12, 1));
}

#[test]
fn typing_is_not_disturbed() {
    let mut w = window();
    tell(&mut w, Msg::Open("/a/one".into()));
    let mut s = seen();
    s.typing = true;
    assert!(matches!(w.draw(&s, false, screen()), Drawn::Waits));
    assert!(w.dirty);
    // With nothing to do, a resume draws nothing; now it does.
    assert!(w.update(Msg::Resume, &s).draws);
    s.typing = false;
    match w.draw(&s, false, screen()) {
        Drawn::Built(b) => assert!(b.expand && b.focus_editor),
        other => panic!("{other:?}"),
    }
    w.dirty = false;
    assert!(!w.update(Msg::Resume, &s).draws);
    assert!(is_passive(&Msg::Resume) && is_passive(&Msg::Tick) && !is_passive(&Msg::Refresh));
}

#[test]
fn an_open_task_follows_its_edits_and_leaves_with_its_row() {
    let mut w = window();
    tell(&mut w, Msg::Open("/a/one".into()));
    let mut s = seen();
    s.title = field("old words");
    let p = w.prepare(&s, false);
    let shown = p.shown.unwrap();
    assert!(shown.set_title && !shown.set_notes);
    assert!(w.editing.is_some());
    // A popover holds everything back.
    let p = w.prepare(&s, true);
    assert!(p.waits && w.dirty);
    // It moved to another day: it closes, unless it is typed in.
    w.open[0].task.due = due(date(9, 20));
    s.typing = true;
    w.prepare(&s, false);
    assert!(w.editing.is_some());
    s.typing = false;
    w.prepare(&s, false);
    assert!(w.editing.is_none());
}

#[test]
fn the_keyboard_goes_to_the_row_that_closed() {
    let mut w = window();
    tell(&mut w, Msg::Open("/a/one".into()));
    tell(&mut w, Msg::CloseEditor);
    match w.draw(&seen(), false, screen()) {
        Drawn::Built(b) => {
            assert_eq!(b.cursor, Some(1));
            assert!(b.focus_row && !b.focus_editor);
        }
        other => panic!("{other:?}"),
    }
    assert!(w.refocus == Refocus::Keep);
    w.cursor = Some("/x".into());
    assert!(matches!(w.draw(&seen(), false, screen()), Drawn::Same));
    w.shown = None;
    w.draw(&seen(), false, screen());
    assert!(w.cursor.is_none());
}

#[test]
fn popovers_are_counted() {
    let mut p = Popovers { open: 0 };
    p.opened();
    p.opened();
    assert!(p.any());
    assert!(!p.closed());
    assert!(p.closed());
    assert!(p.closed());
    assert!(!p.any());
}

#[test]
fn buttons_follow_the_page() {
    let mut w = window();
    assert_eq!(w.buttons(), (true, false, false));
    tell(&mut w, Msg::Navigate(Nav::List("/a/".into())));
    assert_eq!(w.buttons(), (true, true, false));
    let mut opts = ViewOpts::default();
    opts.priorities[0] = false;
    tell(&mut w, Msg::SetViewOpts(opts));
    assert_eq!(w.buttons(), (true, true, true));
    w.error = Some("x".into());
    assert_eq!(w.buttons(), (false, false, true));
}
