//! The views, their sections and their orders.

use asst::arrange::sorted;
use asst::counts::Counts;
use asst::date::{Date, Time, Weekday};
use asst::due::{at_time, on_date, parse_time, Moved};
use asst::markdown::tasks_markdown;
use asst::nav::{DueFilter, Nav, Sort, ViewOpts};
use asst::order::natural_cmp;
use asst::plan::{plan, Data, Kind, Section};
use asst::remind::reminder_label;
use asst::reorder::reorder;
use asst::repeat::{End, Repeat};
use asst::task::{ListView, Task, TaskView, Trigger, When};
use asst::words::ago;
use asst::zone::{Moment, Now, Zone};

fn zone() -> Zone {
    Zone::named("America/New_York").unwrap()
}

/// Monday, September 14 2026, 10:00 in New York.
const NOW: i64 = 1789394400;

fn now() -> Now {
    Now { at: moment(NOW), zone: zone() }
}

fn moment(secs: i64) -> Moment {
    Moment { secs, nanos: 0 }
}

fn date(m: u32, d: u32) -> Date {
    Date::from_ymd(2026, m, d).unwrap()
}

/// Noon in New York on a day of that September, in seconds since 1970.
fn at(d: u32, h: i64, min: i64) -> Moment {
    moment(NOW + (i64::from(d) - 14) * 86400 + (h - 10) * 3600 + min * 60)
}

fn on(d: Date) -> Option<When> {
    let days = i64::from(d.ce) - i64::from(date(9, 14).ce);
    Some(When { date: d, at: moment(NOW - 36000 + days * 86400), timed: false, form: 0 })
}

fn task(uid: &str, list: &str, due: Option<When>) -> TaskView {
    TaskView {
        id: uid.into(),
        href: format!("{list}{uid}.ics"),
        list: list.into(),
        list_name: list.trim_matches('/').into(),
        pending: false,
        task: Task {
            uid: uid.into(),
            summary: uid.into(),
            description: None,
            open: true,
            completed: None,
            level: 4,
            due,
            start: None,
            rrule: None,
            alarms: Vec::new(),
            url: None,
            source: None,
            linked_notes: Vec::new(),
            sort_order: None,
            created: None,
            modified: None,
        },
    }
}

fn lists() -> Vec<ListView> {
    ["/a/", "/b/"]
        .iter()
        .map(|h| ListView {
            href: (*h).into(),
            name: h.trim_matches('/').to_uppercase(),
            color: None,
            writable: true,
            inbox: *h == "/b/",
            open: 0,
            done: 0,
        })
        .collect()
}

fn uids<'a>(s: &Section<'a>) -> Vec<&'a str> {
    s.tasks.iter().map(|t| t.task.uid.as_str()).collect()
}

#[test]
fn today_splits_overdue_and_counts_match() {
    let lists = lists();
    let open = vec![
        task("late", "/a/", on(date(9, 10))),
        task("now", "/a/", on(date(9, 14))),
        task("soon", "/b/", on(date(9, 15))),
        task("someday", "/b/", None),
    ];
    let data = Data { lists: &lists, open: &open, completed: None, sunday_first: false };
    let s = plan(&Nav::Today, &data, &ViewOpts::default(), &now());
    assert_eq!(s.len(), 2);
    assert_eq!((s[0].kind.clone(), uids(&s[0])), (Kind::Overdue, vec!["late"]));
    assert_eq!(s[1].title.as_deref(), Some("Today"));
    assert_eq!(uids(&s[1]), vec!["now"]);

    let c = Counts::new(&data, &now());
    assert_eq!((c.today, c.overdue, c.scheduled, c.tomorrow), (2, 1, 1, 1));
    assert_eq!((c.anytime, c.all, c.inbox), (1, 4, 2));
}

#[test]
fn scheduled_has_the_week_then_months() {
    let lists = lists();
    let open = vec![
        task("wed", "/a/", on(date(9, 16))),
        task("late-sep", "/a/", on(date(9, 25))),
        task("oct", "/a/", on(date(10, 2))),
    ];
    let data = Data { lists: &lists, open: &open, completed: None, sunday_first: false };
    let s = plan(&Nav::Scheduled, &data, &ViewOpts::default(), &now());
    let titles: Vec<_> = s.iter().map(|x| x.title.clone().unwrap()).collect();
    assert_eq!(
        titles,
        ["14", "15", "16", "17", "18", "19", "20", "September", "October"]
    );
    assert_eq!(s[0].note.as_deref(), Some("Today"));
    assert_eq!(uids(&s[2]), vec!["wed"]);
    assert_eq!(s[7].note.as_deref(), Some("21 – 30"));
    assert_eq!(uids(&s[8]), vec!["oct"]);
}

#[test]
fn every_month_comes_once() {
    let lists = lists();
    let open = vec![
        task("a", "/a/", on(date(10, 2))),
        task("b", "/a/", on(date(9, 25))),
        task("c", "/a/", on(date(10, 9))),
        task("d", "/a/", on(date(9, 22))),
    ];
    let data = Data { lists: &lists, open: &open, completed: None, sunday_first: false };
    let mut opts = ViewOpts::default();
    opts.sort = Some(Sort::Name);
    let s = plan(&Nav::Scheduled, &data, &opts, &now());
    let months: Vec<_> = s
        .iter()
        .filter(|s| s.kind == Kind::Range)
        .map(|s| (s.title.clone().unwrap(), uids(s)))
        .collect();
    assert_eq!(
        months,
        [("September".to_string(), vec!["b", "d"]), ("October".to_string(), vec!["a", "c"])]
    );
    // Turned around, the months keep their order, and their tasks do not.
    opts.descending = true;
    let s = plan(&Nav::Scheduled, &data, &opts, &now());
    assert_eq!((uids(&s[7]), uids(&s[8])), (vec!["d", "b"], vec!["c", "a"]));
    // By date, the last month comes first when the last task does.
    opts.sort = Some(Sort::Due);
    let s = plan(&Nav::Scheduled, &data, &opts, &now());
    assert_eq!((uids(&s[7]), uids(&s[8])), (vec!["c", "a"], vec!["b", "d"]));
}

#[test]
fn lists_have_counts_that_add_up() {
    let lists = lists();
    let open = vec![
        task("late", "/a/", on(date(9, 10))),
        task("now", "/a/", on(date(9, 14))),
        task("soon", "/b/", on(date(9, 15))),
        task("someday", "/b/", None),
        task("other", "/b/", None),
    ];
    let data = Data { lists: &lists, open: &open, completed: None, sunday_first: false };
    let c = Counts::new(&data, &now());
    assert_eq!(c.lists, [("/a/".to_string(), 2), ("/b/".to_string(), 3)]);
    assert_eq!(c.lists.iter().map(|(_, n)| n).sum::<usize>(), c.all);
    assert_eq!(c.today + c.scheduled + c.anytime, c.all);
    // A list without open tasks has no count.
    let none: Vec<TaskView> = Vec::new();
    let data = Data { lists: &lists, open: &none, completed: None, sunday_first: false };
    assert!(Counts::new(&data, &now()).lists.is_empty());
}

#[test]
fn a_task_is_put_back_where_it_was_dropped() {
    let list: Vec<TaskView> = [Some(-5), None, Some(3), Some(4), None]
        .iter()
        .enumerate()
        .map(|(i, n)| {
            let mut t = task(&i.to_string(), "/a/", None);
            t.task.sort_order = *n;
            t
        })
        .collect();
    for p in 0..list.len() {
        for q in (0..list.len()).filter(|q| *q != p) {
            for after in [false, true] {
                let mut want: Vec<&str> = list.iter().map(|t| t.href.as_str()).collect();
                let moved = want.remove(p);
                let at = want.iter().position(|h| *h == list[q].href).unwrap();
                want.insert(at + usize::from(after), moved);
                let mut new = list.clone();
                for (href, n) in reorder(&list, moved, &list[q].href, after) {
                    new.iter_mut().find(|t| t.href == href).unwrap().task.sort_order = Some(n);
                }
                let new: Vec<&TaskView> = sorted(new.iter().collect(), Sort::Custom);
                let hrefs: Vec<&str> = new.iter().map(|t| t.href.as_str()).collect();
                assert_eq!(hrefs, want);
                assert!(new.windows(2).all(|w| w[0].task.sort_order < w[1].task.sort_order));
            }
        }
    }
}

#[test]
fn numbers_rise_once_a_task_is_moved() {
    let list: Vec<TaskView> = [None, Some(7), Some(7), None]
        .iter()
        .enumerate()
        .map(|(i, n)| {
            let mut t = task(&i.to_string(), "/a/", None);
            t.task.sort_order = *n;
            t
        })
        .collect();
    let moved = reorder(&list, "/a/3.ics", "/a/1.ics", false);
    let mut after: Vec<TaskView> = list.clone();
    for (href, n) in &moved {
        let t = after.iter_mut().find(|t| &t.href == href).unwrap();
        t.task.sort_order = Some(*n);
    }
    let after: Vec<&TaskView> = sorted(after.iter().collect(), Sort::Custom);
    let order: Vec<&str> = after.iter().map(|t| t.task.uid.as_str()).collect();
    assert_eq!(order, ["0", "3", "1", "2"]);
    assert!(after.windows(2).all(|w| w[0].task.sort_order < w[1].task.sort_order));
    assert!(after.iter().all(|t| t.task.sort_order.is_some()));
}

#[test]
fn custom_order_then_due() {
    let mut a = task("a", "/a/", None);
    a.task.sort_order = Some(5);
    let mut b = task("b", "/a/", on(date(9, 20)));
    b.task.sort_order = Some(1);
    let c = task("c", "/a/", on(date(9, 18)));
    let got = sorted(vec![&a, &b, &c], Sort::Custom);
    assert_eq!(
        got.iter().map(|t| t.task.uid.as_str()).collect::<Vec<_>>(),
        ["b", "a", "c"]
    );
    let got = sorted(vec![&a, &b, &c], Sort::Due);
    assert_eq!(
        got.iter().map(|t| t.task.uid.as_str()).collect::<Vec<_>>(),
        ["c", "b", "a"]
    );
}

#[test]
fn reordering_takes_a_gap_or_renumbers() {
    let with = |uid: &str, n: Option<i64>| {
        let mut t = task(uid, "/a/", None);
        t.task.sort_order = n;
        t
    };
    let hrefs = |v: &[(String, i64)]| {
        v.iter()
            .map(|(h, n)| {
                (h.trim_start_matches("/a/").trim_end_matches(".ics").to_string(), *n)
            })
            .collect::<Vec<_>>()
    };
    let list = vec![with("a", Some(1024)), with("b", Some(2048)), with("c", Some(3072))];
    // c between a and b: the middle of the gap.
    assert_eq!(
        hrefs(&reorder(&list, "/a/c.ics", "/a/b.ics", false)),
        [("c".to_string(), 1536)]
    );
    // a to the end: past the last.
    assert_eq!(
        hrefs(&reorder(&list, "/a/a.ics", "/a/c.ics", true)),
        [("a".to_string(), 4096)]
    );
    // No room: renumber.
    let tight = vec![with("a", Some(1)), with("b", Some(2)), with("c", Some(3))];
    assert_eq!(
        hrefs(&reorder(&tight, "/a/c.ics", "/a/b.ics", false)),
        [("a".to_string(), 1024), ("c".to_string(), 2048), ("b".to_string(), 3072)]
    );
    // Unnumbered tasks get numbers too.
    let loose = vec![with("a", None), with("b", None)];
    assert_eq!(
        hrefs(&reorder(&loose, "/a/b.ics", "/a/a.ics", false)),
        [("b".to_string(), 1024), ("a".to_string(), 2048)]
    );
    assert!(reorder(&list, "/a/a.ics", "/a/a.ics", false).is_empty());
}

#[test]
fn repeat_round_trips() {
    let r = Repeat::parse("FREQ=WEEKLY;INTERVAL=2;BYDAY=TU,MO;COUNT=4").unwrap();
    assert_eq!(r.days, vec![Weekday::Tue, Weekday::Mon]);
    assert_eq!(r.to_rule(true), "FREQ=WEEKLY;INTERVAL=2;BYDAY=MO,TU;COUNT=4");
    let until = Repeat { end: End::Until(date(12, 31)), ..Repeat::default() };
    assert_eq!(until.to_rule(false), "FREQ=DAILY;UNTIL=20261231");
    assert_eq!(until.to_rule(true), "FREQ=DAILY;UNTIL=20261231T235959Z");
    assert!(Repeat::parse("FREQ=MONTHLY;BYDAY=MO;BYSETPOS=-1").is_none());
}

#[test]
fn dates_keep_their_time() {
    let due = When { date: date(9, 14), at: at(14, 17, 30), timed: true, form: 1 };
    let moved = on_date(Some(&due), date(9, 20), &zone());
    assert_eq!(
        moved,
        Moved::At { date: date(9, 20), time: Time::from_hm(17, 30).unwrap(), same_form: true }
    );
    assert_eq!(on_date(None, date(9, 20), &zone()), Moved::Day(date(9, 20)));
    let timed = at_time(on(date(9, 18)).as_ref(), Time::from_hm(9, 0).unwrap(), date(9, 14));
    assert_eq!(
        timed,
        Moved::At { date: date(9, 18), time: Time::from_hm(9, 0).unwrap(), same_form: false }
    );
}

#[test]
fn times_in_words() {
    let t = |h, m| Time::from_hm(h, m);
    assert_eq!(parse_time("5pm"), t(17, 0));
    assert_eq!(parse_time("5:30 PM"), t(17, 30));
    assert_eq!(parse_time("17:45"), t(17, 45));
    assert_eq!(parse_time("930"), t(9, 30));
    assert_eq!(parse_time("12am"), t(0, 0));
    assert_eq!(parse_time("noon"), None);
}

#[test]
fn reminder_words() {
    let mut t = task("r", "/a/", None).task;
    let before = Trigger::Relative { offset: -90 * 60, from_due: true };
    assert_eq!(reminder_label(&before, &t, ""), "1 h 30 min before");
    let at_due = Trigger::Relative { offset: 0, from_due: true };
    assert_eq!(reminder_label(&at_due, &t, ""), "At due time");
    let day = Trigger::Relative { offset: -86400, from_due: true };
    assert_eq!(reminder_label(&day, &t, ""), "1 day before");
    let due = When { date: date(9, 15), at: at(15, 17, 0), timed: true, form: 1 };
    let absolute = Trigger::Absolute { at: due.at };
    assert_eq!(reminder_label(&absolute, &t, "tomorrow 5pm"), "Tomorrow 5pm");
    t.due = Some(due);
    assert_eq!(reminder_label(&absolute, &t, "tomorrow 5pm"), "At due time");
}

#[test]
fn ago_counts_seconds_then_minutes() {
    let at = |secs: i64| moment(NOW - secs);
    assert_eq!(ago(at(2), &now()), "just now");
    assert_eq!(ago(at(42), &now()), "42 seconds ago");
    assert_eq!(ago(at(61), &now()), "1 minute ago");
    assert_eq!(ago(at(150), &now()), "2 minutes ago");
    assert_eq!(ago(at(7300), &now()), "2 hours ago");
    assert_eq!(ago(at(3 * 86400), &now()), "on Sep 11");
    assert_eq!(ago(at(400 * 86400), &now()), "on Aug 10, 2025");
}

#[test]
fn names_in_reading_order() {
    let mut names = vec!["Task 10", "task 2", "Task 1", "Apple", "Task 02", "b"];
    names.sort_by(|a, b| natural_cmp(a, b));
    assert_eq!(names, ["Apple", "b", "Task 1", "task 2", "Task 02", "Task 10"]);
}

#[test]
fn reading_order_carries_over() {
    let names = ["", "10", "2", "2a", "a", "A1", "Äpfel 2", "äpfel 10", "ß", "ẞ", "éa", "İ", "٣"];
    for a in names {
        for b in names {
            assert_eq!(natural_cmp(a, b), natural_cmp(b, a).reverse());
            for c in names {
                if natural_cmp(a, b).is_le() && natural_cmp(b, c).is_le() {
                    assert!(natural_cmp(a, c).is_le(), "{a} {b} {c}");
                }
            }
        }
    }
}

#[test]
fn due_filters_take_in_what_is_overdue() {
    let today = date(9, 16); // a Wednesday
    let keeps = |f: DueFilter, d: Option<Date>| f.keeps(d, today, false);
    assert!(keeps(DueFilter::Today, Some(date(9, 1))));
    assert!(!keeps(DueFilter::Today, Some(date(9, 17))));
    assert!(keeps(DueFilter::Week, Some(date(9, 20))), "Sunday ends a Monday week");
    assert!(!keeps(DueFilter::Week, Some(date(9, 21))));
    assert!(
        !DueFilter::Week.keeps(Some(date(9, 20)), today, true),
        "Saturday ends a Sunday week"
    );
    assert!(keeps(DueFilter::Seven, Some(date(9, 22))));
    assert!(keeps(DueFilter::Month, Some(date(9, 30))));
    assert!(!keeps(DueFilter::Month, Some(date(10, 1))));
    assert!(keeps(DueFilter::NoDate, None) && !keeps(DueFilter::NoDate, Some(today)));
    assert!(!keeps(DueFilter::Today, None));
}

#[test]
fn views_turn_around_and_filter() {
    let lists = lists();
    let open = vec![
        task("b", "/a/", on(date(9, 20))),
        task("a", "/a/", on(date(9, 14))),
        task("c", "/a/", None),
    ];
    let data = Data { lists: &lists, open: &open, completed: None, sunday_first: false };
    let opts = ViewOpts { sort: Some(Sort::Name), descending: true, ..ViewOpts::default() };
    let s = plan(&Nav::List("/a/".into()), &data, &opts, &now());
    assert_eq!(uids(&s[0]), ["c", "b", "a"]);
    let opts = ViewOpts { due: DueFilter::Week, ..opts };
    let s = plan(&Nav::List("/a/".into()), &data, &opts, &now());
    assert_eq!(uids(&s[0]), ["b", "a"]);
}

#[test]
fn tasks_as_markdown() {
    let mut t = task("Buy milk", "/a/", on(date(9, 15)));
    t.task.description = Some("2%\n\nthe big one".into());
    let plain = task("Call", "/a/", None);
    assert_eq!(
        tasks_markdown(&[t, plain], &["tomorrow".into(), String::new()]),
        "- [ ] Buy milk (tomorrow)\n  2%\n\n  the big one\n- [ ] Call\n"
    );
}

#[test]
fn nav_keys_round_trip() {
    for n in Nav::filters().into_iter().chain([Nav::List("/cal/x/".into())]) {
        assert_eq!(Nav::from_key(&n.key()), Some(n));
    }
}
