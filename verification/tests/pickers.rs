//! What popovers, menus and headers offer, and what comes of choosing.

use asst::addcard::{AddCard, Parsed, Target};
use asst::autostart::entry_text;
use asst::change::{Change, NewDue, SetDue};
use asst::content::{count_open, reschedule, shows_list};
use asst::date::{Date, Weekday};
use asst::due::Moved;
use asst::editor::{date_button, linked_tip, reminders_tip};
use asst::find::where_it_was;
use asst::nav::{Nav, ViewOpts};
use asst::notes::{carry_on, Edit};
use asst::out::Style;
use asst::plan::{plan, Data, Kind};
use asst::prefs::Prefs;
use asst::remind::{in_order_of_ringing, is_offered, trigger_at, Alarm, Rings, NINE};
use asst::repeat::{End, Freq, Repeat};
use asst::row::day_items;
use asst::schedule::{
    can_edit, chosen_end, editor_start, end_fields, is_set, name_matches, targets, unit_words,
    week_order, EndChoice, Schedule,
};
use asst::settings::SettingsChange;
use asst::sidebar::{keys_to, list_menu, sync_tooltip, takes_tasks, ListEntry};
use asst::task::{all_in_range, ListView, Note, StatusView, SyncState, Task, TaskView, Trigger, When};
use asst::window::Window;
use asst::zone::{Moment, Now, Zone};

/// Monday, September 14 2026, 10:00:30 in New York.
const NOW: i64 = 1789394430;

fn zone() -> Zone {
    Zone::named("America/New_York").unwrap()
}

fn now() -> Now {
    Now { at: moment(NOW), zone: zone() }
}

fn moment(secs: i64) -> Moment {
    Moment { secs, nanos: 0 }
}

fn date(m: u32, d: u32) -> Date {
    Date::from_ymd(2026, m, d).unwrap()
}

fn on(d: Date) -> Option<When> {
    Some(When { date: d, at: moment(NOW), timed: false, form: 0 })
}

fn at(secs: i64) -> Option<When> {
    Some(When { date: date(9, 14), at: moment(secs), timed: true, form: 1 })
}

fn task(uid: &str, due: Option<When>) -> TaskView {
    TaskView {
        id: uid.into(),
        href: format!("/a/{uid}"),
        list: "/a/".into(),
        list_name: "A".into(),
        pending: false,
        task: Task {
            uid: uid.into(),
            summary: uid.into(),
            description: None,
            open: true,
            completed: None,
            level: 4,
            due,
            start: None,
            rrule: None,
            alarms: Vec::new(),
            url: None,
            source: None,
            linked_notes: Vec::new(),
            sort_order: None,
            created: None,
            modified: None,
        },
    }
}

fn list(href: &str, writable: bool) -> ListView {
    ListView {
        href: href.into(),
        name: href.trim_matches('/').into(),
        color: None,
        writable,
        inbox: false,
        open: 0,
        done: 0,
    }
}

// -- repeats --------------------------------------------------------------------------------------

#[test]
fn the_repeat_editor_starts_with_what_is_set() {
    let s = Schedule { due: on(date(9, 16)), rrule: None };
    let r = editor_start(&s, date(9, 14));
    assert_eq!((r.freq, r.interval, r.days.as_slice()), (Freq::Weekly, 1, &[Weekday::Wed][..]));
    let s = Schedule { due: None, rrule: Some("FREQ=MONTHLY;BYMONTHDAY=1,15".into()) };
    assert_eq!(editor_start(&s, date(9, 14)).days, [Weekday::Mon]);
    assert!(!can_edit(&s.rrule) && can_edit(&None));
    let s = Schedule { due: None, rrule: Some("FREQ=DAILY;INTERVAL=3".into()) };
    assert_eq!(editor_start(&s, date(9, 14)).interval, 3);
    assert!(can_edit(&s.rrule));
    assert!(is_set(&Some("freq=daily".into()), "FREQ=DAILY") && !is_set(&None, "FREQ=DAILY"));
}

#[test]
fn the_repeat_editor_changes_a_rule() {
    let mut r = Repeat::default();
    r.set_unit(1);
    r.toggle_day(Weekday::Thu, true);
    r.toggle_day(Weekday::Mon, true);
    r.toggle_day(Weekday::Thu, true);
    assert_eq!(r.days, [Weekday::Mon, Weekday::Thu]);
    r.toggle_day(Weekday::Mon, false);
    assert_eq!(r.days, [Weekday::Thu]);
    r.set_interval(2);
    assert_eq!(r.to_rule(false), "FREQ=WEEKLY;INTERVAL=2;BYDAY=TH");
    r.set_interval(-3);
    assert_eq!(r.interval, 1);
    r.set_unit(9);
    assert_eq!(r.freq, Freq::Yearly);
    assert_eq!(unit_words(1)[1], "week");
    assert_eq!(unit_words(2)[1], "weeks");
    assert_eq!(week_order(true)[0], Weekday::Sun);
    assert_eq!(week_order(false)[6], Weekday::Sun);
}

#[test]
fn a_repeat_ends_as_chosen() {
    let today = date(9, 14);
    assert_eq!(chosen_end(EndChoice::Never, today, 3), End::Never);
    assert_eq!(chosen_end(EndChoice::On, today, 3), End::Until(today));
    assert_eq!(chosen_end(EndChoice::After, today, 0), End::Count(1));
    assert_eq!(end_fields(End::Never, today), (EndChoice::Never, date(10, 14), 5));
    assert_eq!(end_fields(End::Count(9), today), (EndChoice::After, date(10, 14), 9));
    assert_eq!(end_fields(End::Until(today), today), (EndChoice::On, today, 5));
}

// -- reminders ------------------------------------------------------------------------------------

#[test]
fn reminders_ring_in_order() {
    let before = |mins: i64| Trigger::Relative { offset: -60 * mins, from_due: true };
    let t = task("x", at(NOW + 3600)).task;
    assert_eq!(trigger_at(&before(5), &t), Some(Rings::At(moment(NOW + 3300))));
    let undated = task("x", None).task;
    assert_eq!(trigger_at(&before(5), &undated), None);
    let day = task("x", on(date(9, 14))).task;
    match trigger_at(&before(1440), &day) {
        Some(Rings::After { date: d, time, offset }) => {
            assert_eq!((d, time.secs, offset), (date(9, 14), NINE, -86400));
        }
        other => panic!("{other:?}"),
    }
    let alarm = |mins: i64| Alarm { trigger: before(mins), at: Some(moment(NOW - 60 * mins)) };
    let never = Alarm { trigger: before(7), at: None };
    let sorted = in_order_of_ringing(vec![alarm(5), never, alarm(30)]);
    assert_eq!(sorted, [never, alarm(30), alarm(5)]);
    assert!(!is_offered(Some(moment(NOW - 300)), &sorted));
    assert!(is_offered(Some(moment(NOW)), &sorted) && is_offered(None, &sorted));
}

// -- the open task --------------------------------------------------------------------------------

#[test]
fn buttons_say_what_is_set() {
    let note = |n: &str| Note { link: format!("{n}.md"), name: n.into() };
    assert_eq!(linked_tip(&vec![]), "Linked notes");
    assert_eq!(linked_tip(&vec![note("bank"), note("shop")]), "bank, shop");
    let t = Trigger::Absolute { at: moment(NOW) };
    assert_eq!(reminders_tip(&vec![], ""), "Reminders");
    assert_eq!(reminders_tip(&vec![t], "At due time"), "At due time");
    assert_eq!(reminders_tip(&vec![t, t], ""), "2 reminders");
    let today = date(9, 14);
    let b = date_button(&task("x", None).task, "", "", today);
    assert_eq!((b.label.as_str(), b.icon), ("Date", "month-symbolic"));
    let b = date_button(&task("x", on(date(9, 15))).task, "tomorrow", "", today);
    assert_eq!((b.label.as_str(), b.icon), ("Tomorrow", "today-calendar-symbolic"));
    let mut repeating = task("x", on(today)).task;
    repeating.rrule = Some("FREQ=DAILY".into());
    let b = date_button(&repeating, "today", "every day", today);
    assert_eq!((b.icon, b.tip.as_str()), ("playlist-repeat-symbolic", "Every day"));
}

#[test]
fn enter_carries_a_list_on() {
    assert_eq!(carry_on("- milk", 6), Edit::Insert { at: 7, text: "- ".into() });
    assert_eq!(carry_on("2. eggs", 20), Edit::Insert { at: 21, text: "3. ".into() });
    assert_eq!(carry_on("- ", 12), Edit::Delete { from: 10, to: 13 });
    assert_eq!(carry_on("milk", 4), Edit::Nothing);
}

#[test]
fn changes_change_one_thing() {
    let c = Change::to_url(Some("https://x.org".into()));
    assert_eq!(c.url, Some(Some("https://x.org".into())));
    assert!(c.summary.is_none() && c.due.is_none() && c.alarms.is_none());
    let c = Change::to_alarms(vec![]);
    assert_eq!(c.alarms, Some(vec![]));
    assert!(c.url.is_none() && !c.is_empty());
    assert_eq!(SettingsChange::to_inbox("A".into()).inbox, Some(Some("A".into())));
    assert_eq!(SettingsChange::to_snooze(vec![5]).snooze, Some(vec![5]));
    assert_eq!(SettingsChange::to_notes("/n".into()).notes, Some(Some("/n".into())));
}

// -- lists and views ------------------------------------------------------------------------------

#[test]
fn lists_to_move_to_can_be_written() {
    let lists = vec![list("/Errands/", true), list("/Shared/", false), list("/Work/", true)];
    let names: Vec<&str> = targets(&lists).iter().map(|l| l.name.as_str()).collect();
    assert_eq!(names, ["Errands", "Work"]);
    assert!(name_matches("Errands", "RR") && !name_matches("Errands", "x"));
    let menu = list_menu(&lists[1], true, true);
    assert_eq!(menu[0], ListEntry::Select);
    assert_eq!(menu[2], ListEntry::Edit { enabled: false });
    assert!(menu.contains(&ListEntry::Unarchive) && !menu.contains(&ListEntry::Archive));
    assert_eq!(menu[menu.len() - 1], ListEntry::Delete { enabled: false });
}

#[test]
fn views_take_tasks_and_keys() {
    assert!(takes_tasks(&Nav::Today) && takes_tasks(&Nav::Completed));
    assert!(!takes_tasks(&Nav::Scheduled) && !takes_tasks(&Nav::All));
    assert_eq!(keys_to(&Nav::Scheduled), Some("Ctrl+U"));
    assert_eq!(keys_to(&Nav::All), None);
    assert!(!shows_list(&Nav::Inbox, &Kind::Plain) && shows_list(&Nav::Today, &Kind::Overdue));
    assert!(!shows_list(&Nav::All, &Kind::List("/a/".into())));
    let (today, tomorrow, next) = day_items(date(9, 14));
    assert_eq!((today.title, today.secondary.as_str()), ("Today", "Mon"));
    assert_eq!((tomorrow.day, tomorrow.secondary.as_str()), (date(9, 15), "Tue"));
    assert_eq!((next.day, next.secondary.as_str()), (date(9, 21), "Mon Sep 21"));
}

#[test]
fn overdue_tasks_move_together() {
    let open = vec![task("a", on(date(9, 1))), task("b", on(date(9, 2))), task("c", on(date(9, 14)))];
    let lists = vec![list("/a/", true)];
    let data = Data { lists: &lists, open: &open, completed: None, sunday_first: false };
    let sections = plan(&Nav::Today, &data, &ViewOpts::default(), &now());
    assert_eq!(count_open(&sections), 3);
    assert!(matches!(sections[0].kind, Kind::Overdue));
    let edits = reschedule(&sections[0].tasks, Some(date(9, 20)), &zone());
    assert_eq!(edits.len(), 2);
    assert_eq!(edits[1].href, "/a/b");
    assert_eq!(edits[1].change.due, Some(SetDue::Move(Moved::Day(date(9, 20)))));
    let edits = reschedule(&sections[0].tasks, None, &zone());
    assert_eq!(edits[0].change.due, Some(SetDue::Clear));
    assert_eq!(edits[0].change.rrule, Some(None));
}

#[test]
fn the_sync_button_says_how_it_is() {
    let mut s = StatusView {
        state: SyncState::Offline,
        message: None,
        last_sync: None,
        pending: 1,
        server: None,
        username: None,
    };
    assert_eq!(sync_tooltip(None, &now()).markup, "Sync now");
    let tip = sync_tooltip(Some(&s), &now());
    assert!(tip.words.is_empty());
    assert!(tip.markup.ends_with("when it's back.\n1 change waiting to be sent"));
    s.state = SyncState::Idle;
    s.pending = 0;
    assert!(sync_tooltip(Some(&s), &now()).markup.ends_with(">s</span>"));
}

#[test]
fn a_found_task_says_when_it_was_done() {
    let mut t = task("x", None);
    t.task.completed = Some(moment(NOW));
    assert_eq!(where_it_was(&t, "today"), "A · done Today");
    t.task.completed = None;
    assert_eq!(where_it_was(&t, "today"), "A · done ");
}

// -- adding ---------------------------------------------------------------------------------------

#[test]
fn the_card_says_the_date() {
    let parsed = Parsed {
        due: None,
        rrule: None,
        priority: None,
        list: None,
        alarm: None,
        found: Vec::new(),
    };
    let mut c = AddCard::new();
    assert_eq!(c.date_label(""), "Date");
    c.chosen.priority = Some(1);
    c.set_target(Target::Day(date(9, 15)));
    assert_eq!(c.date_label("tomorrow"), "Tomorrow");
    // What was chosen stays when the target changes.
    assert_eq!(c.priority(&parsed), 1);
    c.chosen.schedule = Some(Schedule { due: on(date(9, 16)), rrule: Some("FREQ=DAILY".into()) });
    assert_eq!(c.date_label("wed"), "Wed ↻");
    assert_eq!(c.draft_due(&parsed), Some(NewDue::At(on(date(9, 16)).unwrap())));
    c.chosen.schedule = Some(Schedule::default());
    assert_eq!(c.date_label(""), "No date");
}

// -- around it ------------------------------------------------------------------------------------

#[test]
fn the_autostart_entry_is_whole() {
    let text = entry_text("/usr/bin/asst-gtk --background", "dev.jaeho.Asst");
    assert!(text.starts_with("[Desktop Entry]\nType=Application\nName=asst\n"));
    assert!(text.contains("\nExec=/usr/bin/asst-gtk --background\nIcon=dev.jaeho.Asst\n"));
    assert!(text.ends_with("X-GNOME-Autostart-enabled=true\n"));
    assert!(Style::new(true, false).is_terminal() && !Style::new(true, true).is_terminal());
}

#[test]
fn what_is_out_of_range_is_told() {
    let mut tasks = vec![task("a", None), task("b", on(date(9, 1)))];
    assert!(all_in_range(&tasks));
    tasks[1].task.level = 0;
    assert!(!all_in_range(&tasks));
    let (mut w, _) = Window::new(Prefs::default());
    assert!(w.can_count_on());
    w.serial = u64::MAX;
    assert!(!w.can_count_on());
}
