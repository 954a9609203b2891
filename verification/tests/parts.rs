//! Settings, menus, dialogs, quick add, linked notes, and what else the
//! window is made of.

use asst::addcard::{
    fill, hash_word, move_suggestion, suggest_lists, take_suggestion, AddCard, Parsed, Target,
};
use asst::arrange::sorted;
use asst::autostart::{
    config_home, entry, is_enabled, quote, session_reads_autostart, starts_asst, tilde,
};
use asst::change::{AddSpec, NewDue, SetDue};
use asst::content::{empty_words, header, is_day_number, offers_add, subtitle, Header};
use asst::counts::Counts;
use asst::date::{last_day, Date, Weekday};
use asst::dialogs::{
    delete_completed_words, delete_list_words, deleted_completed, is_chosen, list_dialog,
    name_to_save, said_of, COLORS, SHORTCUTS,
};
use asst::drive::Drive;
use asst::editor::{pick_note, Editor, Field};
use asst::find::{
    bold, choose_hit, completed_query, completed_results, excerpt, first_row, priority_query, query,
    results, step, under, where_it_is, Hit, Under,
};
use asst::linked::{
    file_of, find_notes, first_found, new_label, no_notes, note_about, note_tip, pick, pick_new,
    pretty, Pick,
};
use asst::markdown::markdown_of;
use asst::menus::{view_menu, Item};
use asst::motion::{leave, Row};
use asst::nav::{DueFilter, Nav, Sort, ViewOpts};
use asst::notes::{link_at, links};
use asst::number::decimal_text;
use asst::order::natural_cmp;
use asst::plan::{plan, Data, Kind, Section};
use asst::prefs::Prefs;
use asst::quickadd::{
    closes_again, start_target, AddedTo, PopupDo, PopupKey, Pressed, QuickAdd,
};
use asst::remind::{quick_reminders, remind_at, with_reminder, without_reminder, Typed};
use asst::reorder::reorder_in;
use asst::row::{chip, choose_entry, dropped, look, schedule_change, task_menu, Dropped, Entry};
use asst::schedule::{
    clear_time, link_address, link_change, pick_day, set_rule, suggestions, typed, typed_words,
    week_grid, DateOpts, Schedule, TIME_HOURS, TIME_NAMES,
};
use asst::settings::{
    account_row, can_pick, choose_interval, choose_reminder, drop_view, inbox_choices,
    interval_choice, login_row, login_switchable, notes_row, priority_choice, reminder_times,
    sidebar_rows, snooze_lengths, snooze_toggled, visible_views, Settings, INTERVALS,
};
use asst::sidebar::{
    choose_list_entry, drop_list, entry_count, has_dot, progress, signed_in, sync_look, ListEntry,
};
use asst::task::{ListView, Note, StatusView, SyncState, Task, TaskView, Trigger, When};
use asst::tray::program;
use asst::update::{Key, Msg};
use asst::window::Window;
use asst::words::{capitalize, priority_name, sync_state};
use asst::zone::{local_day, Moment, Now, Zone};
use std::cmp::Ordering;

/// Monday, September 14 2026, 10:00:30 in New York.
const NOW: i64 = 1789394430;

fn zone() -> Zone {
    Zone::named("America/New_York").unwrap()
}

fn now() -> Now {
    Now { at: moment(NOW), zone: zone() }
}

fn moment(secs: i64) -> Moment {
    Moment { secs, nanos: 0 }
}

fn date(m: u32, d: u32) -> Date {
    Date::from_ymd(2026, m, d).unwrap()
}

fn on(d: Date) -> Option<When> {
    Some(When { date: d, at: moment(NOW), timed: false, form: 0 })
}

fn task(uid: &str, list: &str, due: Option<When>) -> TaskView {
    TaskView {
        id: uid.into(),
        href: format!("{list}{uid}"),
        list: list.into(),
        list_name: list.trim_matches('/').into(),
        pending: false,
        task: Task {
            uid: uid.into(),
            summary: uid.into(),
            description: None,
            open: true,
            completed: None,
            level: 4,
            due,
            start: None,
            rrule: None,
            alarms: Vec::new(),
            url: None,
            source: None,
            linked_notes: Vec::new(),
            sort_order: None,
            created: None,
            modified: None,
        },
    }
}

fn list(href: &str, name: &str) -> ListView {
    ListView {
        href: href.into(),
        name: name.into(),
        color: None,
        writable: true,
        inbox: false,
        open: 0,
        done: 0,
    }
}

fn settings() -> Settings {
    Settings {
        inbox: None,
        interval: 60,
        snooze: vec![10, 30, 60],
        alarm_at_due: true,
        alarm_before: 0,
        notes: "/n".into(),
    }
}

fn status(state: SyncState) -> StatusView {
    StatusView {
        state,
        message: None,
        last_sync: None,
        pending: 0,
        server: Some("cloud".into()),
        username: Some("me".into()),
    }
}

// -- settings -------------------------------------------------------------------------------------

#[test]
fn settings_choices() {
    assert_eq!(INTERVALS[interval_choice(300)].1, "Every 5 minutes");
    assert_eq!(interval_choice(61), 1);
    assert_eq!(choose_interval(0).unwrap().interval, Some(30));
    assert!(choose_interval(5).is_none());

    let (times, at) = reminder_times(&settings(), "0 min");
    assert_eq!((times.len(), at), (9, 1));
    assert_eq!(times[at].1, "At due time");
    let mut s = settings();
    s.alarm_before = 7;
    let (times, at) = reminder_times(&s, "7 min");
    assert_eq!((times.len(), at), (10, 9));
    assert_eq!(times[9], (Some(7), "7 min before".to_string()));
    s.alarm_at_due = false;
    assert_eq!(reminder_times(&s, "").1, 0);
    let c = choose_reminder(None);
    assert_eq!((c.alarm_at_due, c.alarm_before), (Some(false), None));
    let c = choose_reminder(Some(5));
    assert_eq!((c.alarm_at_due, c.alarm_before), (Some(true), Some(5)));

    let mut lists = vec![list("/a/", "A"), list("/b/", "B"), list("/c/", "C")];
    lists[0].writable = false;
    lists[2].inbox = true;
    let (choices, at) = inbox_choices(&lists);
    let names: Vec<&str> = choices.iter().map(|l| l.name.as_str()).collect();
    assert_eq!((names, at), (vec!["B", "C"], 1));
    lists[2].inbox = false;
    assert_eq!(inbox_choices(&lists).1, 0);
    assert_eq!(priority_choice(0), 0);
    assert_eq!(priority_choice(3), 2);
    assert_eq!(priority_choice(9), 3);
}

#[test]
fn snooze_keeps_one_to_three() {
    let mut s = settings();
    s.snooze = vec![60, 7, 10];
    assert_eq!(snooze_lengths(&s), [5, 7, 10, 15, 30, 60, 120, 1440]);
    assert_eq!(snooze_toggled(&vec![60, 10], 30, true), Some(vec![10, 30, 60]));
    assert_eq!(snooze_toggled(&vec![60, 10], 60, false), Some(vec![10]));
    assert_eq!(snooze_toggled(&vec![10], 10, false), None);
    // What was chosen twice stays so until it is let go.
    assert_eq!(snooze_toggled(&vec![10, 10, 30], 60, true), Some(vec![10, 10, 30, 60]));
    assert_eq!(snooze_toggled(&vec![30, 10], 10, true), Some(vec![10, 30]));
    assert_eq!(snooze_toggled(&vec![10, 30, 10], 10, false), Some(vec![30]));
    assert!(can_pick(&vec![1, 2], 3));
    assert!(!can_pick(&vec![1, 2, 3], 4));
    assert!(can_pick(&vec![1, 2, 3], 2));
}

#[test]
fn settings_rows_say_what_is_so() {
    let st = status(SyncState::Idle);
    assert_eq!(account_row(Some(&st)), Some(("cloud".into(), "me".into())));
    assert_eq!(account_row(Some(&status(SyncState::NoAccount))), None);
    assert_eq!(account_row(None), None);
    let bare = StatusView { server: None, username: None, ..status(SyncState::Idle) };
    assert_eq!(account_row(Some(&bare)), Some(("Nextcloud".into(), String::new())));
    assert!(signed_in(Some(&st)) && !signed_in(None));
    assert_eq!(notes_row("~/Notes", true), "~/Notes");
    assert_eq!(notes_row("~/Notes", false), "~/Notes doesn't exist");
    assert_eq!(login_row(Some("~/.config/sway/config"), true), "Started by ~/.config/sway/config");
    assert_eq!(login_row(None, true), "Open in the tray when you log in");
    assert_eq!(
        login_row(None, false),
        "This desktop doesn't run autostart entries: start <tt>asst-gtk --background</tt> from its config"
    );
    assert!(login_switchable(true, false));
    assert!(!login_switchable(true, true) && !login_switchable(false, false));
}

#[test]
fn a_dropped_view_stands_next() {
    let mut p = Prefs::default();
    p.set_sidebar_views(&[Nav::Today, Nav::Inbox]);
    let mut rows = sidebar_rows(&p);
    let keys = |rows: &Vec<asst::settings::ViewRow>| -> Vec<String> {
        rows.iter().map(|r| r.nav.key()).collect()
    };
    assert_eq!(rows.len(), 8);
    assert_eq!(keys(&rows)[..3], ["today", "inbox", "scheduled"]);
    assert!(rows[1].on && !rows[2].on);
    assert!(drop_view(&mut rows, "asst-view:scheduled", 0, true));
    assert_eq!(keys(&rows)[..3], ["today", "scheduled", "inbox"]);
    assert!(drop_view(&mut rows, "asst-view:today", 2, false));
    assert_eq!(keys(&rows)[..3], ["scheduled", "today", "inbox"]);
    assert!(!drop_view(&mut rows, "asst-view:today", 1, false));
    assert!(!drop_view(&mut rows, "asst-task:today", 0, false));
    assert!(!drop_view(&mut rows, "asst-view:nothing", 0, false));
    let on: Vec<String> = visible_views(&rows).iter().map(Nav::key).collect();
    assert_eq!(on, ["today", "inbox"]);
}

// -- menus and dialogs ----------------------------------------------------------------------------

#[test]
fn a_views_menu_leaves_something_to_see() {
    let lists = [list("/a/", "A"), list("/b/", "B")];
    let mut o = ViewOpts::default();
    o.priorities = [true, false, false, false];
    let menu = view_menu(&Nav::Today, &o, &lists);
    let labels: Vec<&str> = menu
        .iter()
        .filter_map(|i| match i {
            Item::Choice(s, _, _) => Some(s.as_str()),
            _ => None,
        })
        .collect();
    // No custom order out of lists, and the last priority cannot be hidden.
    assert_eq!(
        labels,
        [
            "Due date",
            "Priority",
            "Name",
            "Date added",
            "Date modified",
            "Descending",
            "Show completed",
            priority_name(2),
            priority_name(3),
            priority_name(4),
        ]
    );
    let mut o = ViewOpts::default();
    o.hide_lists = vec!["/a/".into()];
    let menu = view_menu(&Nav::Completed, &o, &lists);
    match menu.as_slice() {
        [Item::Heading("Lists"), Item::Choice(name, false, next), Item::Separator, Item::Clear] => {
            assert_eq!(name, "A");
            assert!(next.hide_lists.is_empty());
        }
        other => panic!("{other:?}"),
    }
    let menu = view_menu(&Nav::List("/a/".into()), &ViewOpts::default(), &lists);
    assert!(matches!(&menu[1], Item::Choice(s, true, _) if s == "Custom order"));
    assert!(!menu.iter().any(|i| matches!(i, Item::Choice(s, _, _) if s == "Descending")));
    assert!(menu.iter().any(
        |i| matches!(i, Item::Choice(s, true, n) if s == DueFilter::Any.label() && n.due == DueFilter::Any)
    ));
}

#[test]
fn dialogs_ask_in_words() {
    let mut l = list("/a/", "Errands");
    assert_eq!(list_dialog(None), ("New List", "Add List", String::new(), "#3c6dff".into()));
    assert_eq!(COLORS[11], ("Blue", "#3c6dff"));
    l.color = Some("#FF8A2A".into());
    assert_eq!(list_dialog(Some(&l)), ("Edit List", "Save", "Errands".into(), "#FF8A2A".into()));
    assert!(is_chosen("#FF8A2A", COLORS[2].1));
    assert!(!is_chosen("#FF8A2A", COLORS[3].1));
    assert_eq!(name_to_save("  Work "), Some("Work".into()));
    assert_eq!(name_to_save(" \t"), None);
    let (head, body) = delete_list_words("Errands", 0);
    assert_eq!(head, "Delete “Errands”?");
    assert!(body.starts_with("Nextcloud keeps deleted lists"));
    assert!(delete_list_words("x", 1).1.starts_with("Its 1 open task goes with it"));
    assert!(delete_list_words("x", 4).1.starts_with("Its 4 open tasks go with it"));
    let (head, body) = delete_completed_words(1, "every list");
    assert_eq!(head, "Delete 1 completed task?");
    assert!(body.starts_with("They go from every list on every device"));
    assert_eq!(delete_completed_words(3, "“A”").0, "Delete 3 completed tasks?");
    assert_eq!(deleted_completed(0), "");
    assert_eq!(deleted_completed(1), "Deleted 1 completed task");
    assert_eq!(deleted_completed(2), "Deleted 2 completed tasks");
    assert_eq!(said_of("Reopened", "Call"), "Reopened “Call”");
}

// -- linked notes ---------------------------------------------------------------------------------

#[test]
fn linked_notes_are_found_and_picked() {
    assert_eq!(file_of(Some("/n"), "Work/a.md").as_deref(), Some("/n/Work/a.md"));
    assert_eq!(file_of(Some("/n"), "/x/a.md").as_deref(), Some("/x/a.md"));
    assert_eq!(file_of(None, "a.md"), None);
    assert_eq!(note_tip("a.md", false), "Open a.md");
    assert_eq!(note_tip("a.md", true), "Not in the notes folder any more: a.md");
    assert_eq!(pretty("/home/me/Nextcloud/Notes", Some("/home/me")), "~/Nextcloud/Notes");
    assert_eq!(pretty("/home/me", Some("/home/me")), "/home/me");
    assert_eq!(pretty("/home/mean", Some("/home/me")), "/home/mean");
    assert_eq!(pretty("/srv/notes", None), "/srv/notes");
    assert_eq!(tilde("/home/me/.config/x", "/home/me"), "~/.config/x");
    assert_eq!(tilde("/etc/x", "/home/me"), "/etc/x");
    assert_eq!(no_notes(Some("~/Notes"), true), "No notes in ~/Notes yet.");
    assert_eq!(
        no_notes(Some("~/Notes"), false),
        "~/Notes doesn't exist. Choose the notes folder in Preferences."
    );
    assert_eq!(no_notes(None, false), "The notes folder isn't known: asstd isn't answering.");
    assert_eq!(new_label("  "), "New note");
    assert_eq!(new_label(" Plan "), "New note “Plan”");
    assert!(matches!(pick_new(" Plan "), Pick::New(Some(t)) if t == "Plan"));
    assert!(matches!(pick_new(" "), Pick::New(None)));
    let paths = vec!["Work/Ärger.md".to_string(), "home.md".into()];
    assert_eq!(find_notes(&paths, " ärger"), [true, false]);
    assert_eq!(find_notes(&paths, ""), [true, true]);
    assert_eq!(first_found(&vec![false, true]), Some(1));
    assert_eq!(first_found(&vec![false]), None);
    let at = moment(NOW - 7200);
    assert_eq!(note_about("Work", None, &now()).as_deref(), Some("Work"));
    assert_eq!(note_about("", None, &now()), None);
    assert!(note_about("Work", Some(at), &now()).unwrap().starts_with("Work · "));

    let mut t = task("x", "/a/", None);
    t.task.linked_notes = vec![Note { link: "a.md".into(), name: "a".into() }];
    let linked = vec!["a.md".to_string()];
    let links = |p: Pick| match pick_note(&t, p) {
        Msg::Edit(_, c) => c.linked_notes.unwrap(),
        other => panic!("{other:?}"),
    };
    assert!(links(pick("a.md".into(), &linked)).is_empty());
    assert_eq!(links(pick("b.md".into(), &linked)), ["a.md", "b.md"]);
    assert!(matches!(
        pick_note(&t, pick_new("Plan")),
        Msg::NewNote(h, s) if h == "/a/x" && s == "Plan"
    ));
}

// -- quick add ------------------------------------------------------------------------------------

fn spec(text: &str) -> AddSpec {
    AddSpec {
        text: text.into(),
        parse: true,
        keep_dates: false,
        list: None,
        due: None,
        due_text: None,
        rrule: None,
        repeat_text: None,
        priority: None,
        description: None,
        url: None,
        source: None,
        alarms: None,
        linked_notes: Vec::new(),
    }
}

#[test]
fn quick_add_adds_one_at_a_time() {
    let mut q = QuickAdd::new();
    assert_eq!(q.press(PopupKey::Escape, false, true, false), Pressed::Close);
    assert_eq!(q.press(PopupKey::Escape, true, true, false), Pressed::Passed);
    assert_eq!(q.press(PopupKey::Enter, false, false, true), Pressed::Passed);
    assert_eq!(q.press(PopupKey::Other, false, true, false), Pressed::Passed);
    assert_eq!(q.press(PopupKey::Enter, false, true, true), Pressed::Submit);
    assert!(matches!(q.add_task(spec("a")), Some(PopupDo::Add(s)) if s.text == "a"));
    assert!(q.add_task(spec("b")).is_none());
    let added = |existed| AddedTo {
        existed,
        summary: "Call".into(),
        list: "/a/".into(),
        list_name: "Errands".into(),
    };
    let r = q.added(Ok(added(false)), true);
    assert!(!r.closes && r.remember.as_deref() == Some("/a/"));
    let said = r.says.unwrap();
    assert_eq!((said.text.as_str(), said.error), ("Added “Call” to Errands", false));
    // Kept open once; the next closes it.
    assert!(q.add_task(spec("b")).is_some());
    let r = q.added(Ok(added(true)), false);
    assert!(r.closes && r.remember.is_none() && r.says.is_none());
    q.press(PopupKey::Enter, false, true, true);
    let said = q.added(Ok(added(true)), false).says.unwrap();
    assert_eq!(said.text, "Already there: “Call”");
    let said = q.added(Err("no bus".into()), true).says.unwrap();
    assert!(said.error && said.text == "no bus");
    assert!(!closes_again(1) && closes_again(2));
}

#[test]
fn quick_add_starts_in_the_last_list() {
    let mut lists = vec![list("/a/", "A"), list("/b/", "B")];
    assert!(matches!(
        start_target(&lists, "/b/\n", true),
        Some(Target::List(h)) if h == "/b/"
    ));
    assert!(start_target(&lists, "/b/", false).is_none());
    assert!(start_target(&lists, "/x/", true).is_none());
    lists[1].writable = false;
    assert!(start_target(&lists, "/b/", true).is_none());
}

// -- the add card ---------------------------------------------------------------------------------

fn nothing() -> Parsed {
    Parsed {
        due: None,
        rrule: None,
        priority: None,
        list: None,
        alarm: None,
        found: Vec::new(),
    }
}

#[test]
fn the_card_knows_where_a_task_goes() {
    let mut inbox = list("/b/", "Inbox");
    inbox.inbox = true;
    let lists = vec![list("/a/", "Errands"), inbox];
    let mut c = AddCard::new();
    assert_eq!(c.list_href(&lists).as_deref(), Some("/b/"));
    c.open(Target::List("/a/".into()));
    assert_eq!(c.list_href(&lists).as_deref(), Some("/a/"));
    assert_eq!(c.list_name(&lists), "Errands");
    c.open(Target::Day(date(9, 15)));
    assert_eq!(c.draft_due(&nothing()), Some(NewDue::Day(date(9, 15))));
    c.set_defaults(2, true);
    assert_eq!(c.priority(&nothing()), 2);
    let mut p = nothing();
    p.priority = Some(1);
    assert_eq!(c.priority(&p), 1);
    assert!(c.submit("   ", "", &nothing()).is_none());
    let s = c.submit(" Call ", "notes", &nothing()).unwrap();
    assert_eq!(s.text, "Call");
    assert_eq!(s.description.as_deref(), Some("notes"));
    assert_eq!(s.due, Some(NewDue::Day(date(9, 15))));
    assert_eq!(fill("Title \n one\ntwo "), ("Title".into(), "one\ntwo".into()));
    assert_eq!(fill("Only"), ("Only".into(), String::new()));
    // Notes stay linked to whatever is added.
    c.set_linked(vec!["/home/me/Notes/bank.md".into()]);
    for text in ["call", "write"] {
        let spec = c.submit(text, "", &nothing()).unwrap();
        assert_eq!(spec.linked_notes, ["/home/me/Notes/bank.md"]);
    }
}

#[test]
fn hashes_suggest_lists() {
    let lists = vec![list("/a/", "Big Errands"), list("/b/", "Work")];
    let (from, to, word) = hash_word("buy #err now", 8).unwrap();
    assert_eq!((from, to, word.as_str()), (4, 8, "err"));
    assert!(hash_word("buy err", 7).is_none());
    let found = suggest_lists(&lists, "err");
    assert_eq!(found.len(), 1);
    assert_eq!(found[0].name, "Big Errands");
    // Around the ends and back.
    assert_eq!(move_suggestion(0, 3, false), 2);
    assert_eq!(move_suggestion(2, 3, true), 0);
    assert_eq!(move_suggestion(move_suggestion(1, 3, true), 3, false), 1);
    let (text, cursor) = take_suggestion("buy #err", 8, "Big Errands").unwrap();
    assert_eq!(text, "buy #BigErrands ");
    assert_eq!(cursor, 16);
    assert!(take_suggestion("buy err", 7, "Work").is_none());
}

// -- drawing --------------------------------------------------------------------------------------

#[test]
fn rows_fold_next_to_what_stays() {
    let row = |h: &str| Row { href: h.into(), editing: false };
    let mut rows: Vec<Row> = ["a", "b", "c", "d"].iter().map(|h| row(h)).collect();
    let new = vec!["b".to_string()];
    let plan = leave(&rows, &new);
    let said: Vec<(&str, bool, &str)> = plan
        .iter()
        .map(|f| (f.href.as_str(), f.after, f.neighbor.as_str()))
        .collect();
    // A run that leaves together follows the one before it.
    assert_eq!(said, [("a", false, "b"), ("c", true, "b"), ("d", true, "c")]);
    rows[2].editing = true;
    let plan = leave(&rows, &new);
    assert_eq!((plan[1].href.as_str(), plan[1].neighbor.as_str()), ("d", "b"));
    assert!(leave(&rows, &vec!["z".to_string()]).is_empty());
}

#[test]
fn the_program_is_found_again_when_replaced() {
    assert_eq!(program("/usr/bin/asst-gtk"), "/usr/bin/asst-gtk");
    assert_eq!(program("/usr/bin/asst-gtk (deleted)"), "/usr/bin/asst-gtk");
    assert_eq!(program("/x (deleted) (deleted)"), "/x");
    assert_eq!(program("(deleted)"), "(deleted)");
}

// -- finding --------------------------------------------------------------------------------------

#[test]
fn find_lists_everything_under_headings() {
    let lists = vec![list("/a/", "Errands"), list("/b/", "Today's work")];
    let mut t = task("Call today", "/a/", None);
    t.task.level = 1;
    let u = task("Other", "/a/", None);
    let open = vec![&t, &u];
    let shown = [Nav::Inbox, Nav::Today];
    let archived = vec!["/b/".to_string()];
    let said = |q: &str| -> Vec<String> {
        results(q, &shown, &lists, &archived, &open)
            .iter()
            .map(|h| match h {
                Hit::Header(s) => format!("# {s}"),
                Hit::View(v) => format!("view {}", v.nav.key()),
                Hit::List(l, a) => format!("list {}{}", l.name, if *a { " (archived)" } else { "" }),
                Hit::Task(t, by) => format!("task {} {by}", t.task.uid),
            })
            .collect()
    };
    assert_eq!(
        said(&query(" TODAY ")),
        [
            "# Views",
            "view today",
            "# Lists",
            "list Today's work (archived)",
            "# Tasks",
            "task Call today true",
        ]
    );
    // With nothing typed, what the sidebar has.
    assert_eq!(
        said(""),
        ["# Views", "view inbox", "view today", "# Lists", "list Errands", "list Today's work (archived)"]
    );
    assert_eq!(said("p1"), [format!("# {}", priority_name(1)), "task Call today false".into()]);
    // Views answer to other words.
    assert_eq!(said("upcom"), ["# Views", "view scheduled"]);
    assert_eq!(priority_query("high"), Some(1));
    assert_eq!(priority_query("p5"), None);
    assert!(completed_query("a").is_none());
    let q = completed_query("ab").unwrap();
    assert_eq!((q.text.as_deref(), q.limit), (Some("ab"), Some(20)));
    assert_eq!(completed_results(1, 2, &open).len(), 0);
    assert_eq!(completed_results(2, 2, &open).len(), 3);
    assert!(matches!(
        choose_hit(&Hit::Task(&t, true)),
        Some(Msg::Reveal(h)) if h == "/a/Call today"
    ));
    assert!(matches!(
        choose_hit(&Hit::List(&lists[0], false)),
        Some(Msg::Navigate(n)) if n.key() == "list:/a/"
    ));
    assert!(choose_hit(&Hit::Header("Tasks")).is_none());
}

#[test]
fn what_matched_is_bold_and_cut() {
    let marks = |s: &str, q: &str| -> Vec<(String, bool)> {
        bold(s, q).into_iter().map(|m| (m.text, m.bold)).collect()
    };
    let text = |v: &[(String, bool)]| v.iter().map(|p| p.0.as_str()).collect::<String>();
    let m = marks("Call the CALLER", "call");
    assert_eq!(text(&m), "Call the CALLER");
    let strong: Vec<&str> = m.iter().filter(|p| p.1).map(|p| p.0.as_str()).collect();
    assert_eq!(strong, ["Call", "CALL"]);
    // Lowercasing changes where characters are: no bold rather than wrong bold.
    assert!(marks("İx call", "call").iter().all(|p| !p.1));

    assert_eq!(excerpt("one\n  two words  ", "two").as_deref(), Some("two words"));
    assert_eq!(excerpt("one", "two"), None);
    let long = format!("{}needle{}", "x".repeat(60), "y".repeat(60));
    let e = excerpt(&long, "needle").unwrap();
    assert_eq!(e.chars().count(), 72);
    assert!(e.starts_with('…') && e.ends_with('…') && e.contains("needle"));

    let mut t = task("Call", "/a/", on(date(9, 15)));
    t.task.description = Some("ask for Kim".into());
    t.task.linked_notes = vec![Note { link: "p.md".into(), name: "Plan".into() }];
    assert!(matches!(under(&t.task, "kim"), Under::Line(s) if s == "ask for Kim"));
    assert!(matches!(under(&t.task, "plan"), Under::Linked(s) if s == "Plan"));
    assert!(matches!(under(&t.task, "call"), Under::Nothing));
    assert_eq!(where_it_is(&t, "tomorrow"), "a · Tomorrow");
    let rows = [false, true, false, true];
    assert_eq!(first_row(&rows), Some(1));
    assert_eq!(step(&rows, Some(1), true), Some(3));
    assert_eq!(step(&rows, Some(3), false), Some(1));
    assert_eq!(step(&rows, Some(3), true), None);
}

// -- scripts --------------------------------------------------------------------------------------

fn window() -> Window {
    let (mut w, _) = Window::new(Prefs::default());
    w.lists = vec![list("/a/", "Errands"), list("/b/", "Work")];
    let mut one = task("one", "/a/", None);
    one.task.sort_order = Some(1024);
    let mut two = task("two", "/a/", None);
    two.task.sort_order = Some(2048);
    w.open = vec![one, two];
    w
}

#[test]
fn scripts_drive_the_window() {
    let mut w = window();
    let mut send = |command: &str| match w.drive(command) {
        Some(Drive::Send(m)) => m,
        other => panic!("{other:?}"),
    };
    assert!(matches!(send("nav scheduled"), Msg::Navigate(n) if n.key() == "scheduled"));
    assert!(matches!(send("nav WORK"), Msg::Navigate(n) if n.key() == "list:/b/"));
    assert!(matches!(send("key j"), Msg::Key(Key::Down)));
    assert!(matches!(send("key 3"), Msg::Key(Key::Priority(3))));
    assert!(matches!(send("open TWO"), Msg::Open(h) if h == "/a/two"));
    assert!(matches!(send("check one"), Msg::Check(h, true) if h == "/a/one"));
    assert!(matches!(send("clear"), Msg::AskDeleteCompleted(None)));
    assert!(matches!(send("clear! work"), Msg::DeleteCompleted(Some(h)) if h == "/b/"));
    assert!(matches!(send("archive errands"), Msg::Archive(h, true) if h == "/a/"));
    assert!(matches!(send("order work, errands,x"), Msg::ReorderLists(v) if v == ["/b/", "/a/"]));
    assert!(matches!(send("addtext one\\ntwo"), Msg::AddText(s) if s == "one\ntwo"));
    assert!(matches!(send("prefs sidebar"), Msg::Preferences(Some("sidebar"))));
    assert!(matches!(send("prefs"), Msg::Preferences(None)));
    match send("opts sort=name") {
        Msg::SetViewOpts(o) => assert_eq!(o.sort, Some(Sort::Name)),
        other => panic!("{other:?}"),
    }
    match send("opts due=week") {
        Msg::SetViewOpts(o) => assert_eq!(o.due, DueFilter::Week),
        other => panic!("{other:?}"),
    }
    match send("opts hide=errands") {
        Msg::SetViewOpts(o) => assert_eq!(o.hide_lists, ["/a/"]),
        other => panic!("{other:?}"),
    }
    match send("drop two before one") {
        Msg::Reorder(v) => assert_eq!(v[0].0, "/a/two"),
        other => panic!("{other:?}"),
    }
    assert!(w.drive("drop two onto one").is_none());
    // A task is in the list of the first with its address.
    let mut three = task("three", "/b/", None);
    three.href = "/a/one".into();
    w.open.push(three);
    match w.drive("drop three after two") {
        Some(Drive::Send(Msg::Reorder(v))) => assert_eq!(v, [("/a/one".to_string(), 3072)]),
        other => panic!("{other:?}"),
    }
    assert!(w.drive("open nothing").is_none());
    assert!(matches!(w.drive("dance now"), Some(Drive::Unknown(s)) if s == "dance now"));
    assert!(matches!(w.drive("popup view"), Some(Drive::Popup(s)) if s == "view"));
    assert!(matches!(w.drive("pick Next Week"), Some(Drive::Pick(s)) if s == "next week"));
    assert!(matches!(w.drive("menu two"), Some(Drive::Menu(h)) if h == "/a/two"));
    w.shown = Some(w.sight(&now()));
    assert!(w.drive("cursor two").is_none());
    assert_eq!(w.cursor.as_deref(), Some("/a/two"));
    assert!(w.shown.is_none());
}

// -- dates ----------------------------------------------------------------------------------------

#[test]
fn days_on_offer() {
    let opts = DateOpts { sunday_first: false, full: true, clear: false };
    let chips = suggestions(opts, true, date(9, 14));
    let said: Vec<(&str, Option<Date>)> = chips.iter().map(|c| (c.text, c.day)).collect();
    assert_eq!(
        said,
        [
            ("Today", Some(date(9, 14))),
            ("Tomorrow", Some(date(9, 15))),
            ("Next week", Some(date(9, 21))),
            ("No date", None),
        ]
    );
    assert_eq!(suggestions(opts, false, date(9, 14)).len(), 3);
    assert_eq!((TIME_NAMES[2], TIME_HOURS[2]), ("3pm", 15));
    assert_eq!(typed_words("tomorrow", None), "Tomorrow");
    assert_eq!(
        typed_words("ärgerlich", Some("every day")),
        "Ärgerlich, <small>every day</small>"
    );
    // Every day of the grid stands under its weekday.
    for sunday_first in [false, true] {
        let grid = week_grid(date(9, 14), sunday_first);
        assert_eq!(grid.len(), 21);
        for c in &grid {
            let w = c.date.weekday() as usize;
            assert_eq!(c.col, if sunday_first { (w + 1) % 7 } else { w });
        }
    }
    let grid = week_grid(date(9, 14), false);
    assert_eq!(grid[0].tooltip, "Monday, September 14");
    assert_eq!(grid[17].month.as_deref(), Some("Oct"));
    assert_eq!(last_day(date(2, 3)), date(2, 28));
}

#[test]
fn choosing_a_date_keeps_the_rest() {
    let s = Schedule { due: on(date(9, 14)), rrule: Some("FREQ=DAILY".into()) };
    let c = pick_day(&s, date(9, 20), &zone());
    assert_eq!(c.due, Some(asst::due::Moved::Day(date(9, 20))));
    assert_eq!(c.rrule.as_deref(), Some("FREQ=DAILY"));
    assert_eq!(clear_time(&s).due, Some(asst::due::Moved::Day(date(9, 14))));
    let none = Schedule::default();
    let c = set_rule(&none, Some("FREQ=DAILY".into()), date(9, 14));
    assert_eq!(c.due, Some(asst::due::Moved::Day(date(9, 14))));
    assert!(typed(None, Some("FREQ=DAILY".into()), &s).is_none());
    let t = typed(on(date(9, 15)), None, &s).unwrap();
    assert_eq!(t.rrule.as_deref(), Some("FREQ=DAILY"));
    assert_eq!(link_address(" example.com "), "https://example.com");
    assert_eq!(link_address("mailto:x"), "mailto:x");
    assert_eq!(link_change(&None, "  "), None);
    assert_eq!(link_change(&Some("x".into()), ""), Some(None));

    let mut t = task("x", "/a/", on(date(9, 14)));
    t.task.rrule = Some("FREQ=DAILY".into());
    assert!(schedule_change(&t, &s).is_none());
    let c = schedule_change(&t, &Schedule::default()).unwrap();
    assert!(c.due.is_some() && c.rrule == Some(None));
    // The same time put another way is another date.
    let other = Schedule { due: s.due.map(|w| When { form: 1, ..w }), rrule: s.rrule.clone() };
    let c = schedule_change(&t, &other).unwrap();
    assert!(c.due.is_some() && c.rrule.is_none());
}

#[test]
fn orders_and_spans_are_kept_by_name() {
    for s in Sort::ALL {
        assert_eq!(Sort::named(s.name()), Some(s));
    }
    for d in DueFilter::ALL {
        assert_eq!(DueFilter::named(d.name()), Some(d));
    }
    assert_eq!((Sort::Modified.name(), DueFilter::NoDate.name()), ("modified", "no-date"));
    assert_eq!((Sort::named("Custom order"), DueFilter::named("")), (None, None));
}

#[test]
fn a_draft_has_what_was_chosen() {
    let mut card = AddCard::new();
    assert!(card.draft("x", None).alarms.is_empty());
    let a = Trigger::Relative { offset: -600, from_due: true };
    card.chosen.alarms = Some(vec![a]);
    let t = card.draft("Call", on(date(9, 15)));
    assert_eq!((t.summary.as_str(), t.alarms.as_slice()), ("Call", [a].as_slice()));
    assert_eq!(t.due.map(|w| w.date), Some(date(9, 15)));
    assert!(t.open && t.level == 4 && t.rrule.is_none() && t.linked_notes.is_empty());
}

#[test]
fn reminders_are_offered_added_and_removed() {
    let mut t = task("x", "/a/", on(date(9, 14)));
    let nine = moment(NOW + 82770);
    let offers = quick_reminders(&t.task, &now(), nine);
    let said: Vec<&str> = offers.iter().map(|o| o.text).collect();
    assert_eq!(
        said,
        ["On the day, 9am", "The day before, 9am", "In 1 hour", "Tomorrow, 9am"]
    );
    // In an hour, on the minute.
    assert_eq!(offers[2].trigger, Trigger::Absolute { at: moment(NOW - 30 + 3600) });
    let later = Now { at: Moment { secs: NOW, nanos: 250 }, zone: zone() };
    let offers = quick_reminders(&t.task, &later, nine);
    assert_eq!(offers[2].trigger, Trigger::Absolute { at: moment(NOW - 30 + 3600) });
    // On November 1st 1:20 comes twice, so there it keeps its seconds.
    let twice = Now { at: Moment { secs: 1793506830, nanos: 250 }, zone: zone() };
    let offers = quick_reminders(&t.task, &twice, nine);
    let kept = Moment { secs: 1793510430, nanos: 250 };
    assert_eq!(offers[2].trigger, Trigger::Absolute { at: kept });
    t.task.due = None;
    assert_eq!(quick_reminders(&t.task, &now(), nine).len(), 2);
    let a = Trigger::Absolute { at: nine };
    let with = with_reminder(&Vec::new(), a).unwrap();
    assert!(with_reminder(&with, a).is_none());
    assert!(without_reminder(&with, a).is_empty());
    assert_eq!(remind_at(None, moment(NOW)).error(), Some("Try 9am or 17:30"));
    assert_eq!(
        remind_at(Some(moment(NOW)), moment(NOW)).error(),
        Some("Choose a time in the future")
    );
    assert!(matches!(remind_at(Some(nine), moment(NOW)), Typed::Remind(_)));
}

// -- rows and the sidebar -------------------------------------------------------------------------

#[test]
fn rows_look_like_their_tasks() {
    let mut t = task("x", "/a/", on(date(9, 14)));
    t.task.level = 2;
    t.task.description = Some("first\nsecond".into());
    let l = look(&t, false, true);
    assert!(!l.done);
    assert_eq!((l.priority.as_str(), l.check_tip), ("priority-2", "Complete"));
    assert_eq!(l.notes.as_deref(), Some("first"));
    assert_eq!(l.list.as_deref(), Some("a"));
    assert_eq!(l.drag.as_deref(), Some("asst-task:/a/x"));
    assert!(look(&t, true, false).done);
    let c = chip(&t, "today", date(9, 14)).unwrap();
    assert_eq!(c.text, "Today");
    assert!(matches!(dropped("asst-task:/a/x"), Dropped::Task(h) if h == "/a/x"));
    assert!(matches!(dropped("asst-list:/a/"), Dropped::List(h) if h == "/a/"));
    assert!(matches!(dropped("hello"), Dropped::Other));
    t.task.open = false;
    assert!(look(&t, false, false).drag.is_none());
    let menu = task_menu(&t, date(9, 14));
    assert!(menu.iter().any(|e| matches!(e, Entry::Reopen)));
    assert!(!menu.iter().any(|e| matches!(e, Entry::Complete)));
}

#[test]
fn the_sidebar_counts_and_orders() {
    let lists = vec![list("/a/", "A")];
    let open = vec![task("late", "/a/", on(date(9, 1))), task("now", "/a/", on(date(9, 14)))];
    let data = Data { lists: &lists, open: &open, completed: None, sunday_first: false };
    let c = Counts::new(&data, &now());
    assert_eq!(entry_count(&c, &Nav::Today, true), "2");
    assert_eq!(entry_count(&c, &Nav::Today, false), "");
    assert_eq!(entry_count(&c, &Nav::Completed, true), "");
    assert!(has_dot(&c, &Nav::Today) && !has_dot(&c, &Nav::Inbox));
    let order: Vec<String> = ["/a/", "/b/", "/c/"].iter().map(|s| s.to_string()).collect();
    assert_eq!(drop_list(&order, "/c/", "/a/", false).unwrap(), ["/c/", "/a/", "/b/"]);
    assert_eq!(drop_list(&order, "/a/", "/b/", true).unwrap(), ["/b/", "/a/", "/c/"]);
    assert!(drop_list(&order, "/a/", "/a/", true).is_none());
    // Dropped on a list that is not there, it goes to the end.
    assert_eq!(drop_list(&order, "/a/", "/x/", false).unwrap(), ["/b/", "/c/", "/a/"]);
    assert_ne!(sync_look(SyncState::Idle).0, "");
    assert_eq!(sync_state(&status(SyncState::Syncing), &now()), "Syncing…");
    let (_, title, _) = empty_words(&Nav::Today);
    assert!(!title.is_empty());
    assert!(subtitle(&Nav::Today, 2, date(9, 14), false).is_some());
}

#[test]
fn every_view_shows_what_belongs_once() {
    let lists = vec![list("/a/", "A"), list("/b/", "B")];
    let mut open: Vec<TaskView> = Vec::new();
    for (i, d) in [date(9, 1), date(9, 14), date(9, 16), date(9, 20), date(9, 30), date(12, 1)]
        .into_iter()
        .enumerate()
    {
        open.push(task(&i.to_string(), if i % 2 == 0 { "/a/" } else { "/b/" }, on(d)));
    }
    open.push(task("someday", "/a/", None));
    let data = Data { lists: &lists, open: &open, completed: None, sunday_first: false };
    let uids = |nav: Nav| {
        let s: Vec<Section> = plan(&nav, &data, &ViewOpts::default(), &now());
        let mut v: Vec<String> = s
            .iter()
            .flat_map(|s| s.tasks.iter().map(|t| t.task.uid.clone()))
            .collect();
        v.sort();
        v
    };
    assert_eq!(uids(Nav::Scheduled), ["0", "1", "2", "3", "4", "5"]);
    assert_eq!(uids(Nav::Today), ["0", "1"]);
    assert_eq!(uids(Nav::Anytime), ["someday"]);
    assert_eq!(uids(Nav::All), ["0", "1", "2", "3", "4", "5", "someday"]);
    assert_eq!(uids(Nav::List("/b/".into())), ["1", "3", "5"]);
    let mut o = ViewOpts::default();
    o.due = DueFilter::Today;
    let s = plan(&Nav::All, &data, &o, &now());
    assert_eq!(s.iter().map(|s| s.tasks.len()).sum::<usize>(), 2);
    // As many as the sidebar counts.
    let c = Counts::new(&data, &now());
    assert_eq!(c.of(&Nav::All), Some(uids(Nav::All).len()));
    assert_eq!(c.of(&Nav::Anytime), Some(uids(Nav::Anytime).len()));
    assert_eq!(c.today + c.scheduled, uids(Nav::Scheduled).len());
}

#[test]
fn only_what_was_typed_is_saved() {
    let mut e = Editor::new();
    let t = task("x", "/a/", None);
    let field = |text: &str| Field { text: text.into(), focused: false };
    assert!(e.show(&t, &field("x"), &field("")).edits.is_empty());
    assert!(e.pending_edits("another device's title", "").is_empty());
    e.typed_title();
    assert!(e.has_pending());
    let saved = e.pending_edits(" new\ntitle ", "");
    assert_eq!(saved.len(), 1);
    assert_eq!(saved[0].change.summary.as_deref(), Some("new title"));
    assert!(e.pending_edits(" new\ntitle ", "").is_empty());
    e.typed_notes();
    let saved = e.close("new title", "a note \n");
    assert_eq!(saved[0].change.description, Some(Some("a note".into())));
    assert!(e.href().is_none());
}

#[test]
fn sections_offer_what_belongs_there() {
    assert!(matches!(header(&Kind::Overdue), Header::Reschedule));
    assert!(matches!(header(&Kind::Day(date(9, 15))), Header::Add(Target::Day(d)) if d == date(9, 15)));
    assert!(matches!(header(&Kind::List("/a/".into())), Header::Add(Target::List(h)) if h == "/a/"));
    assert!(matches!(header(&Kind::Completed), Header::Nothing));
    assert!(is_day_number(&Nav::Scheduled, &Kind::Day(date(9, 15))));
    assert!(!is_day_number(&Nav::Today, &Kind::Day(date(9, 15))));
    assert!(offers_add(&Nav::Today) && !offers_add(&Nav::Completed));
}

#[test]
fn menus_ask_for_what_they_say() {
    let t = task("x", "/a/", on(date(9, 14)));
    let asks = |e: Entry| choose_entry(&t, e, &zone());
    assert!(matches!(asks(Entry::Complete), Some(Msg::Complete(h)) if h == "/a/x"));
    assert!(matches!(asks(Entry::Edit), Some(Msg::Open(h)) if h == "/a/x"));
    match asks(Entry::Day(date(9, 15))) {
        Some(Msg::Edit(h, c)) => {
            assert_eq!(h, "/a/x");
            assert_eq!(c.due, Some(SetDue::Move(asst::due::Moved::Day(date(9, 15)))));
        }
        other => panic!("{other:?}"),
    }
    assert!(asks(Entry::PickDate).is_none() && asks(Entry::MoveTo).is_none());
    assert_eq!(Entry::Delete.words(), ("user-trash-symbolic", "Delete task", "dd"));

    let mut l = list("/a/", "A");
    l.open = 3;
    l.done = 1;
    assert_eq!(progress(&l), (1, 4));
    let clear = ListEntry::DeleteCompleted { enabled: true };
    assert_eq!(clear.words(&l).2, "1");
    assert!(clear.enabled() && !ListEntry::Delete { enabled: false }.enabled());
    assert!(matches!(
        choose_list_entry(&l, clear),
        Some(Msg::AskDeleteCompleted(Some(h))) if h == "/a/"
    ));
    assert!(matches!(choose_list_entry(&l, ListEntry::Archive), Some(Msg::Archive(_, true))));
    assert!(choose_list_entry(&l, ListEntry::Separator).is_none());
}

#[test]
fn keys_are_listed_by_section() {
    let sections: Vec<&str> = SHORTCUTS.iter().map(|s| s.0).collect();
    let mut seen = sections.clone();
    seen.dedup();
    assert_eq!(seen, ["Moving around", "Tasks", "Adding", "General"]);
    assert!(SHORTCUTS.contains(&("Tasks", "Delete", "d+d")));
}

// -- words ----------------------------------------------------------------------------------------

#[test]
fn letters_have_cases_and_kinds() {
    assert_eq!(capitalize("ärger"), "Ärger");
    assert_eq!(capitalize("ßx"), "SSx");
    assert_eq!(capitalize(""), "");
    assert_eq!(natural_cmp("Äpfel 2", "äpfel 10"), Ordering::Less);
    assert_eq!(natural_cmp("b", "A"), Ordering::Greater);
    // A letter of any script before a link keeps it from being one.
    assert!(links("éhttps://x.org").is_empty());
    assert_eq!(links("(https://x.org)").len(), 1);
    assert_eq!(link_at("see https://x.org.", 6).as_deref(), Some("https://x.org"));
    assert_eq!(decimal_text(0), "0");
    assert_eq!(decimal_text(18446744073709551615), "18446744073709551615");
}

#[test]
fn links_in_notes_are_apart() {
    let text = "https://a.org https://b.org";
    let v = links(text);
    assert_eq!(v.len(), 2);
    assert!(v[0].end <= v[1].start);
    assert_eq!(&text[v[1].clone()], "https://b.org");
}

#[test]
fn zones_and_days() {
    assert!(Zone::named("Nowhere/Land").is_none());
    assert_eq!(Zone::named("Asia/Tokyo").unwrap().name(), "Asia/Tokyo");
    // The same moment is tomorrow in Tokyo.
    assert_eq!(local_day(moment(NOW + 3600), &Zone::named("Asia/Tokyo").unwrap()), date(9, 15));
    assert_eq!(local_day(moment(NOW), &zone()), date(9, 14));
    let d = Date::from_ymd(2024, 2, 29).unwrap();
    assert_eq!(d.ymd(), (2024, 2, 29));
    assert_eq!(d.weekday(), Weekday::Thu.num_days_from_monday());
    assert_eq!(d.format("%A, %b %-d %Y"), "Thursday, Feb 29 2024");
    assert!(Date::from_ymd(2023, 2, 29).is_none());
    assert_eq!(d.plus(1).ymd(), (2024, 3, 1));
}

#[test]
fn ties_stay_in_order() {
    let a = task("b", "/1/", on(date(9, 14)));
    let b = task("a", "/2/", on(date(9, 14)));
    let v = sorted(vec![&a, &b], Sort::Priority);
    assert_eq!((v[0].task.uid.as_str(), v[1].task.uid.as_str()), ("b", "a"));
    assert_eq!(
        markdown_of(&v, &["today".to_string(), "today".to_string()]),
        "- [ ] b (today)\n- [ ] a (today)\n"
    );
}

#[test]
fn numbers_that_run_out_are_not_given() {
    let mut a = task("a", "/1/", None);
    a.task.sort_order = Some(i64::MAX);
    let b = task("b", "/1/", None);
    assert!(reorder_in(&vec![&a, &b], "/1/b", "/1/a", true).is_none());
    a.task.sort_order = Some(1024);
    let v = reorder_in(&vec![&a, &b], "/1/b", "/1/a", true).unwrap();
    assert_eq!(v, [("/1/b".to_string(), 2048)]);
}

#[test]
fn starting_at_login() {
    assert_eq!(config_home(Some("/cfg"), "/home/me"), "/cfg");
    assert_eq!(config_home(Some("cfg"), "/home/me"), "/home/me/.config");
    assert_eq!(config_home(None, "/home/me/"), "/home/me/.config");
    assert_eq!(entry("/cfg", "dev.x"), "/cfg/autostart/dev.x.desktop");
    assert!(starts_asst("exec asst-gtk --background\n"));
    assert!(!starts_asst("# exec asst-gtk --background\n"));
    assert_eq!(quote("/usr/bin/asst-gtk"), "/usr/bin/asst-gtk");
    assert_ne!(quote("/my bin/asst-gtk"), "/my bin/asst-gtk");
    assert!(is_enabled(true, None) && !is_enabled(false, None));
    assert!(session_reads_autostart(false, "ubuntu:GNOME"));
    assert!(!session_reads_autostart(false, "Hyprland") && session_reads_autostart(true, ""));
}
