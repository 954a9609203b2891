//! Tasks from the terminal.

use asst::bar::{escape, offline, render};
use asst::change::{Change, Which};
use asst::cli::{
    add_spec, attach, can_count, clear_completed, describe, detach, edit_change, first_call, is_yes,
    label, list_line, listing, message, open_failed, or_default, remove_list, say_added, say_done,
    say_linked, say_links, say_note, say_recolored, say_report, say_settings, say_show, say_status,
    say_tasks, say_unlinked, says_yes, settled, sign_in_words, signed_in, unexpected, AddArgs, Call,
    Cause, Cmd, Deletion, EditArgs, Failure, Given, LinkView, Listing, Report, SettingsWords,
    ShowWords, SERVICE_UNKNOWN,
};
use asst::date::Date;
use asst::out::{ago, task_line, DueWords, Style};
use asst::said::{output, Done, Output, Raw};
use asst::settings::{Settings, SettingsChange};
use asst::task::{ListView, Note, StatusView, SyncState, Task, TaskView, When};
use asst::zone::Moment;

fn plain() -> Style {
    Style { color: false }
}

fn task(uid: &str) -> TaskView {
    TaskView {
        id: uid.into(),
        href: format!("/a/{uid}"),
        list: "/a/".into(),
        list_name: "Errands".into(),
        pending: false,
        task: Task {
            uid: uid.into(),
            summary: "Call the bank".into(),
            description: None,
            open: true,
            completed: None,
            level: 4,
            due: None,
            start: None,
            rrule: None,
            alarms: Vec::new(),
            url: None,
            source: None,
            linked_notes: Vec::new(),
            sort_order: None,
            created: None,
            modified: None,
        },
    }
}

fn due() -> Option<When> {
    Some(When {
        date: Date::from_ymd(2026, 9, 14).unwrap(),
        at: Moment { secs: 0, nanos: 0 },
        timed: false,
        form: 0,
    })
}

fn list(href: &str, name: &str) -> ListView {
    ListView {
        href: href.into(),
        name: name.into(),
        color: None,
        writable: true,
        inbox: false,
        open: 3,
        done: 2,
    }
}

fn status(state: SyncState) -> StatusView {
    StatusView {
        state,
        message: None,
        last_sync: None,
        pending: 0,
        server: None,
        username: None,
    }
}

#[test]
fn listings_ask_for_what_they_name() {
    let (q, show_list, empty) = listing(Listing::Today);
    assert!(q.which == Which::Today && show_list);
    assert_eq!(empty, "Nothing due today.");
    let (q, show_list, empty) = listing(Listing::Ls {
        list: Some("Errands".into()),
        attached: Some("/n/a.md".into()),
    });
    assert!(q.which == Which::Open && !show_list);
    assert_eq!(q.linked_note.as_deref(), Some("/n/a.md"));
    assert_eq!(empty, "No open tasks.");
    let (q, show_list, _) = listing(Listing::Completed { list: None, limit: 20 });
    assert!(q.which == Which::Completed && show_list && q.limit == Some(20));
    let (q, _, empty) = listing(Listing::Find { words: vec!["the".into(), "bank".into()] });
    assert_eq!(q.text.as_deref(), Some("the bank"));
    assert_eq!(empty, "No matches.");
    let (q, _, empty) = listing(Listing::Upcoming);
    assert!(q.which == Which::Upcoming);
    assert_eq!(empty, "Nothing scheduled.");
}

#[test]
fn tasks_are_listed_a_line_each() {
    let s = plain();
    assert_eq!(say_tasks(&s, &[], true, "No matches."), ["No matches."]);
    let t = [(task("abc"), None), (task("def"), None)];
    let lines = say_tasks(&s, &t, true, "");
    assert_eq!(lines.len(), 2);
    assert_eq!(lines[0], task_line(&s, &t[0].0, &None, true));
    let color = Style { color: true };
    assert_eq!(say_tasks(&color, &[], true, "None"), ["\x1b[2mNone\x1b[0m"]);
}

#[test]
fn completed_tasks_are_cleared_after_asking() {
    let mut lists = vec![list("/a/", "Errands"), list("/b/", "Work")];
    lists[1].done = 1;
    match clear_completed(&lists, None, false) {
        Ok(Deletion::Ask { question, href }) => {
            assert_eq!(
                question,
                "Delete 3 completed tasks from every list, on every device?"
            );
            assert_eq!(href, "");
        }
        other => panic!("{other:?}"),
    }
    match clear_completed(&lists, Some(" WORK "), false) {
        Ok(Deletion::Ask { question, href }) => {
            assert_eq!(
                question,
                "Delete 1 completed task from “Work”, on every device?"
            );
            assert_eq!(href, "/b/");
        }
        other => panic!("{other:?}"),
    }
    assert!(matches!(
        clear_completed(&lists, Some("/a/"), true),
        Ok(Deletion::Go { href }) if href == "/a/"
    ));
    assert_eq!(
        clear_completed(&lists, Some("No \"such\""), true).unwrap_err(),
        "no list is named \"No \\\"such\\\"\""
    );
    lists[1].done = 0;
    let d = clear_completed(&lists, Some("work"), true).unwrap();
    assert!(matches!(d, Deletion::Nothing));
    assert_eq!(settled(d, true).unwrap_err(), "Nothing completed.");
    lists[0].writable = false;
    assert!(matches!(clear_completed(&lists, None, true), Ok(Deletion::Nothing)));
    let ask = Deletion::Ask { question: "?".into(), href: "/a/".into() };
    assert_eq!(settled(ask, false).unwrap_err(), "Kept.");
    let ask = Deletion::Ask { question: "?".into(), href: "/a/".into() };
    assert_eq!(settled(ask, true).unwrap(), "/a/");
}

#[test]
fn a_list_is_deleted_by_its_full_name() {
    let lists = vec![list("/a/", "Errands"), list("/b/", "errands"), list("/c/", "Work")];
    assert_eq!(
        remove_list(&lists, "Wor", false).unwrap_err(),
        "no list is named \"Wor\" (give its full name)"
    );
    assert_eq!(
        remove_list(&lists, "errands", false).unwrap_err(),
        "2 lists are named \"errands\"; give its href (see `asst --json lists`)"
    );
    match remove_list(&lists, "work", false).unwrap() {
        Deletion::Ask { question, href } => {
            assert_eq!(
                question,
                "Delete “Work” and all its tasks (3 open)? Nextcloud keeps it in its trash bin."
            );
            assert_eq!(href, "/c/");
        }
        other => panic!("{other:?}"),
    }
    assert!(matches!(remove_list(&lists, "/b/", true), Ok(Deletion::Go { href }) if href == "/b/"));
}

#[test]
fn only_yes_is_yes() {
    assert!(is_yes("y\n") && is_yes(" YES ") && is_yes("Yes"));
    assert!(!is_yes("") && !is_yes("yeah") && !is_yes("n"));
    assert!(says_yes("yes") && !says_yes("YES"));
}

fn no_edit() -> EditArgs {
    EditArgs { title: None, due: None, priority: None, note: None, list: None, repeat: None }
}

#[test]
fn editing_changes_what_is_given() {
    assert_eq!(
        edit_change(no_edit()).unwrap_err(),
        "nothing to change; see `asst edit --help`"
    );
    let c = edit_change(EditArgs { note: Some(String::new()), ..no_edit() }).unwrap();
    assert_eq!(c.description, Some(None));
    let c = edit_change(EditArgs {
        title: Some("New".into()),
        due: Some("fri 9am".into()),
        note: Some("soon".into()),
        ..no_edit()
    })
    .unwrap();
    assert_eq!(c.summary.as_deref(), Some("New"));
    assert_eq!(c.due_text.as_deref(), Some("fri 9am"));
    assert_eq!(c.description, Some(Some("soon".into())));
    assert!(c.due.is_none() && c.list.is_none() && !c.is_empty());
    assert!(Change::default().is_empty());
}

#[test]
fn adding_joins_words() {
    let args = |literal: bool| AddArgs {
        words: vec!["Call".into(), "the".into(), "bank".into()],
        list: None,
        due: Some("tomorrow".into()),
        priority: Some(1),
        note: None,
        repeat: None,
        url: None,
        source: Some("mail:1".into()),
        attach: vec!["/n/a.md".into()],
        literal,
    };
    let s = add_spec(args(false));
    assert_eq!(s.text, "Call the bank");
    assert!(s.parse && !s.keep_dates);
    assert_eq!(s.linked_notes, ["/n/a.md"]);
    assert_eq!(s.source.as_deref(), Some("mail:1"));
    assert!(!add_spec(args(true)).parse);
}

fn note(link: &str, name: &str) -> Note {
    Note { link: link.into(), name: name.into() }
}

fn given(text: &str, path: Option<&str>) -> Given {
    Given { text: text.into(), path: path.map(str::to_string) }
}

#[test]
fn notes_are_linked_and_unlinked() {
    let notes = vec![note("a.md", "a"), note("Work/b.md", "b")];
    let c = attach(&notes, &vec!["/n/c.md".into()]);
    assert_eq!(c.linked_notes.unwrap(), ["a.md", "Work/b.md", "/n/c.md"]);
    // By name in any case, by link, by path in the folder.
    let left = detach("T", &notes, &vec![given(" A ", None)]).unwrap();
    assert_eq!(left, ["Work/b.md"]);
    let left = detach("T", &notes, &vec![given("Work/b.md", None)]).unwrap();
    assert_eq!(left, ["a.md"]);
    let left = detach("T", &notes, &vec![given("/n/a.md", Some("a.md")), given("b", None)]);
    assert!(left.unwrap().is_empty());
    assert_eq!(
        detach("Call", &notes, &vec![given("a", None), given("A", None)]).unwrap_err(),
        "“Call” doesn't link a note \"A\""
    );
}

#[test]
fn what_happened_is_said() {
    let s = plain();
    let mut t = task("abc");
    assert_eq!(label(&s, "Deleted:", "Call the bank"), "Deleted: Call the bank");
    let line = task_line(&s, &t, &None, true);
    assert_eq!(say_added(&s, false, &t, &None), format!("Added {line}"));
    assert_eq!(say_added(&s, true, &t, &None), format!("Already there: {line}"));
    assert_eq!(say_done(&s, &t, "tomorrow"), "Done: Call the bank");
    t.task.rrule = Some("FREQ=DAILY".into());
    t.task.due = due();
    assert_eq!(say_done(&s, &t, "tomorrow"), "Done: Call the bank; next tomorrow");
    t.task.open = false;
    assert_eq!(say_done(&s, &t, "tomorrow"), "Done: Call the bank");
    let color = Style { color: true };
    assert_eq!(label(&color, "Done:", "x"), "\x1b[2mDone:\x1b[0m x");
}

#[test]
fn a_task_is_shown_row_by_row() {
    let s = plain();
    let mut t = task("abc");
    t.pending = true;
    t.task.due = due();
    t.task.level = 1;
    t.task.url = Some("https://x".into());
    t.task.description = Some("one\n\ntwo".into());
    let w = ShowWords {
        status: "NEEDS-ACTION".into(),
        due: "today".into(),
        reminders: vec!["today 9am".into()],
        notes: vec![("/n/a.md".into(), true), ("/n/b.md".into(), false)],
        has_priority: true,
    };
    assert_eq!(
        say_show(&s, &t, &w),
        [
            "Call the bank",
            "  id         abc",
            "  list       Errands",
            "  status     NEEDS-ACTION",
            "  due        today",
            "  priority   p1",
            "  reminder   today 9am",
            "  url        https://x",
            "  note       /n/a.md",
            "  note       /n/b.md (missing)",
            "  sync       waiting to be sent",
            "",
            "  one",
            "  ",
            "  two",
        ]
    );
    assert_eq!(say_note(&s, "/n/b.md", false), "  note /n/b.md (missing)");
    assert_eq!(say_note(&s, "/n/a.md", true), "  note /n/a.md");
}

#[test]
fn lists_and_links_are_lines() {
    let s = plain();
    let mut l = list("/a/", "Errands");
    assert_eq!(list_line(&s, &l), "   3  Errands");
    l.open = 12345;
    l.inbox = true;
    l.writable = false;
    assert_eq!(list_line(&s, &l), "12345  Errands  (inbox)  (read-only)");
    l.color = Some("#ff0000".into());
    assert_eq!(say_recolored(&s, &l), "Recolored: Errands is #ff0000");
    l.color = None;
    assert_eq!(say_recolored(&s, &l), "Recolored: Errands is ");
    let tie = LinkView { name: "Work".into(), repo: "me/repo".into() };
    assert_eq!(say_linked(&s, &tie), "Linked: Work ⇄ me/repo");
    assert_eq!(say_links(&s, &vec![tie]), ["Work ⇄ me/repo"]);
    assert_eq!(
        say_links(&s, &Vec::new()),
        ["no list is linked; `asst link <list> <owner/repo>`"]
    );
    assert_eq!(say_unlinked(&s, "me/repo", true).unwrap(), "Unlinked: me/repo");
    assert_eq!(say_unlinked(&s, "me/repo", false).unwrap_err(), "me/repo isn't linked");
}

#[test]
fn settings_are_shown_and_changed() {
    let s = plain();
    let settings = Settings {
        inbox: None,
        interval: 60,
        snooze: vec![10, 30],
        alarm_at_due: true,
        alarm_before: 0,
        notes: "/n".into(),
    };
    let words = SettingsWords {
        snooze: vec!["10 min".into(), "30 min".into()],
        before: "0 min".into(),
    };
    let mut lists = vec![list("/a/", "Errands")];
    let rows = say_settings(&s, &settings, &words, &lists);
    assert_eq!(
        rows,
        [
            "inbox         (default)",
            "interval      60 s",
            "snooze        10 min, 30 min",
            "alarm-at-due  yes",
            "alarm-before  at the due time",
            "notes         /n",
        ]
    );
    lists[0].inbox = true;
    let settings = Settings { alarm_at_due: false, alarm_before: 5, ..settings };
    let words = SettingsWords { before: "5 min".into(), ..words };
    let rows = say_settings(&s, &settings, &words, &lists);
    assert_eq!(rows[0], "inbox         Errands (default)");
    assert_eq!(rows[3], "alarm-at-due  no");
    assert_eq!(rows[4], "alarm-before  5 min before");
    let settings = Settings { inbox: Some("Work".into()), ..settings };
    assert_eq!(say_settings(&s, &settings, &words, &lists)[0], "inbox         Work");

    assert_eq!(or_default(Some("Default".into())), Some(None));
    assert_eq!(or_default(Some("Work".into())), Some(Some("Work".into())));
    assert_eq!(or_default(None), None);
}

#[test]
fn syncing_and_status_are_said() {
    let report = |pushed, fetched, removed, changed| {
        say_report(&Report { changed, pushed, fetched, removed })
    };
    assert_eq!(report(0, 0, 0, false), "Up to date.");
    assert_eq!(report(0, 0, 0, true), "Synced: lists updated.");
    assert_eq!(report(1, 2, 3, true), "Synced: 1 sent, 2 received, 3 removed.");
    assert_eq!(report(0, 2, 0, true), "Synced: 2 received.");

    let s = plain();
    let now = Moment { secs: 10_000, nanos: 0 };
    let mut st = status(SyncState::NoAccount);
    assert_eq!(
        say_status(&s, &st, now),
        ["Not signed in. Run `asst login <server>`.", "Sync: no account"]
    );
    st = StatusView {
        state: SyncState::Error,
        message: Some("timed out".into()),
        last_sync: Some(Moment { secs: 10_000 - 120, nanos: 0 }),
        pending: 1,
        server: Some("cloud".into()),
        username: Some("me".into()),
    };
    let last = ago(Moment { secs: 10_000 - 120, nanos: 0 }, now);
    assert_eq!(
        say_status(&s, &st, now),
        [
            "Signed in as me on cloud".to_string(),
            format!("Sync: error, last sync {last}"),
            "  timed out".into(),
            "1 change waiting to be sent".into(),
        ]
    );
    st.pending = 2;
    assert_eq!(say_status(&s, &st, now)[3], "2 changes waiting to be sent");
    let color = Style { color: true };
    let idle = status(SyncState::Idle);
    assert_eq!(say_status(&color, &idle, now)[1], "Sync: \x1b[32mup to date\x1b[0m");
    assert_eq!(say_status(&s, &status(SyncState::Syncing), now)[1], "Sync: syncing");
    assert_eq!(say_status(&s, &status(SyncState::Offline), now)[1], "Sync: offline");
}

#[test]
fn signing_in_is_said() {
    assert_eq!(sign_in_words("https://x", true), "Open this to sign in:\n  https://x");
    assert_eq!(
        sign_in_words("https://x", false),
        "Opening the sign-in page in your browser. If nothing opens, go to:\n  https://x"
    );
    assert!(signed_in(true, "").is_ok());
    assert_eq!(signed_in(false, "denied").unwrap_err(), "sign-in failed: denied");
}

#[test]
fn commands_make_their_calls() {
    let call = |c: Cmd| first_call(c).unwrap();
    assert!(matches!(call(Cmd::Clear), Call::Lists));
    assert!(matches!(call(Cmd::Lists), Call::Lists));
    assert!(matches!(call(Cmd::RemoveList), Call::Lists));
    assert!(matches!(
        call(Cmd::NewNote { id: "x".into(), title: None }),
        Call::NewNote(id, t) if id == "x" && t.is_empty()
    ));
    assert!(matches!(call(Cmd::Show { id: "x".into(), raw: true }), Call::Ics(_)));
    assert!(matches!(call(Cmd::Show { id: "x".into(), raw: false }), Call::Get(_)));
    assert!(matches!(call(Cmd::Done { id: "x".into() }), Call::Complete(_)));
    assert!(matches!(
        call(Cmd::Link { list: Some(" Work ".into()), repo: Some("me/repo ".into()) }),
        Call::Link(l, r) if l == "Work" && r == "me/repo"
    ));
    assert!(matches!(call(Cmd::Link { list: None, repo: None }), Call::Links));
    assert!(matches!(
        call(Cmd::NewList { name: vec!["My".into(), "list".into()], color: None }),
        Call::CreateList { name, color: None } if name == "My list"
    ));
    assert!(matches!(
        call(Cmd::RenameList { list: "a".into(), name: vec!["b".into(), "c".into()] }),
        Call::UpdateList { name: Some(n), color: None, .. } if n == "b c"
    ));
    assert!(matches!(
        call(Cmd::Settings(SettingsChange::default())),
        Call::Settings
    ));
    let mut c = SettingsChange::default();
    c.interval = Some(30);
    assert!(matches!(call(Cmd::Settings(c)), Call::SetSettings(_)));
    assert!(matches!(
        call(Cmd::Login {
            server: "s".into(),
            username: Some("me".into()),
            password: Some("of my own\n".into()),
        }),
        Call::LoginPassword(_, _, p) if p == "of my own"
    ));
    assert!(matches!(
        call(Cmd::Login { server: "s".into(), username: None, password: None }),
        Call::Login(_)
    ));
    assert_eq!(
        first_call(Cmd::Edit { id: "x".into(), to: no_edit() }).unwrap_err(),
        "nothing to change; see `asst edit --help`"
    );
    let to = EditArgs { priority: Some(2), ..no_edit() };
    assert!(matches!(
        call(Cmd::Edit { id: "x".into(), to }),
        Call::Edit(_, c) if c.priority == Some(2)
    ));
}

#[test]
fn errors_read_as_sentences() {
    let fail = |cause: Cause| Failure { cause, shown: "whole".into() };
    let method = |name: &str, text: Option<&str>| {
        fail(Cause::Method { name: name.into(), text: text.map(str::to_string) })
    };
    let down = "asstd is not running (systemctl --user start asstd)";
    assert_eq!(message(&method(SERVICE_UNKNOWN, Some("x"))), down);
    assert_eq!(message(&method("org.x.Failed", Some("no such task"))), "no such task");
    assert_eq!(message(&method(SERVICE_UNKNOWN, None)), "whole");
    assert_eq!(message(&fail(Cause::Unknown)), down);
    assert_eq!(message(&fail(Cause::Said("why".into()))), "why");
    assert_eq!(message(&fail(Cause::Other)), "whole");
    // The window reads the name alone.
    assert_eq!(describe(&method(SERVICE_UNKNOWN, None)), down);
    assert_eq!(describe(&method("org.x.Failed", Some("no"))), "no");
    assert_eq!(describe(&method("org.x.Failed", None)), "whole");
    assert_eq!(unexpected("eof"), "unexpected answer from asstd: eof");
    let open = |f: &Failure| {
        let s = open_failed(f);
        s.strip_prefix("the window didn't open: ")
            .and_then(|s| s.strip_suffix(" (is asst-gtk installed, with its D-Bus service file?)"))
            .unwrap()
            .to_string()
    };
    assert_eq!(open(&method(SERVICE_UNKNOWN, None)), "nothing on the bus starts it");
    assert_eq!(open(&method("x", Some("busy"))), "busy");
    assert_eq!(open(&fail(Cause::Other)), "whole");
}

#[test]
fn a_task_has_a_line() {
    let mut t = task("a1b2");
    t.task.due = due();
    t.task.rrule = Some("FREQ=DAILY".into());
    t.task.level = 2;
    let d = Some(DueWords { label: "tomorrow 5pm".into(), overdue: false, today: false });
    assert_eq!(
        task_line(&plain(), &t, &d, true),
        "a1b2  !! Call the bank  tomorrow 5pm ↻  #Errands"
    );
    t.task.level = 1;
    assert!(task_line(&plain(), &t, &d, true).starts_with("a1b2  !!! Call"));
    t.task.level = 3;
    assert!(task_line(&plain(), &t, &d, true).starts_with("a1b2  ! Call"));
    t.task.level = 4;
    t.pending = true;
    t.list_name = "At Home".into();
    assert_eq!(
        task_line(&plain(), &t, &None, true),
        "a1b2  Call the bank ↻  #AtHome *"
    );
    t.task.open = false;
    assert_eq!(task_line(&plain(), &t, &None, false), "a1b2  ✓ Call the bank ↻ *");
}

#[test]
fn json_is_all_there_is_when_asked_for() {
    let say = |json: bool, raw: Raw, d: Done| output(&plain(), json, raw, d);
    let whole = || Raw::Whole("{}".into());
    let lists = || Done::Lists(vec![list("/a/", "Errands")]);
    assert!(matches!(say(false, whole(), lists()), Output::Lines(v) if v == ["   3  Errands"]));
    assert!(matches!(say(true, whole(), lists()), Output::Json(s, false) if s == "{}"));
    assert!(matches!(say(true, whole(), Done::Unread), Output::Json(s, false) if s == "{}"));
    // On a terminal it is laid out, unless it is one of several.
    let color = Style { color: true };
    assert!(matches!(output(&color, true, whole(), Done::Unread), Output::Json(_, true)));
    let line = Raw::Line("{}".into());
    assert!(matches!(output(&color, true, line, Done::Unread), Output::Json(_, false)));
    let gone = || Done::Deleted("Errands".into());
    assert!(matches!(say(true, Raw::Nothing, gone()), Output::Nothing));
    assert!(
        matches!(say(false, Raw::Nothing, gone()), Output::Lines(v) if v == ["Deleted: Errands"])
    );
    assert!(matches!(say(true, Raw::Nothing, Done::Cleared(3)), Output::Json(s, _) if s == "3"));
    let none = || Done::NotCleared("Nothing completed.");
    assert!(matches!(say(true, Raw::Nothing, none()), Output::Json(s, _) if s == "0"));
    assert!(
        matches!(say(false, Raw::Nothing, none()), Output::Lines(v) if v == ["Nothing completed."])
    );
    assert!(matches!(say(true, Raw::Nothing, Done::Kept("Kept.")), Output::Nothing));
    let ics = || Done::Calendar("BEGIN".into());
    assert!(matches!(say(true, Raw::Nothing, ics()), Output::Quoted(s) if s == "BEGIN"));
    assert!(matches!(say(false, Raw::Nothing, ics()), Output::Text(s) if s == "BEGIN"));
    let at = || Done::SigningIn("https://x".into(), true);
    assert!(matches!(say(true, Raw::Nothing, at()), Output::Aside(v) if v.len() == 1));
    assert!(matches!(say(false, Raw::Nothing, at()), Output::Lines(v) if v.len() == 1));
    assert!(matches!(say(true, Raw::Nothing, Done::SignedOut), Output::Nothing));
    let notes = vec![("/n/a.md".into(), true)];
    let linked = Done::Linked((task("abc"), None), notes);
    match say(false, whole(), linked) {
        Output::Lines(v) => assert_eq!(v, ["abc  Call the bank  #Errands", "  note /n/a.md"]),
        other => panic!("{other:?}"),
    }
}

#[test]
fn completed_tasks_can_be_counted() {
    let mut lists = vec![list("/a/", "Errands"), list("/b/", "Work")];
    lists[0].done = usize::MAX;
    lists[1].done = 1;
    assert!(!can_count(&lists, None) && can_count(&lists, Some("Work")));
    lists[1].writable = false;
    assert!(can_count(&lists, None));
}

#[test]
fn lines_are_painted() {
    let color = Style { color: true };
    let mut t = task("abc");
    t.task.due = due();
    t.task.level = 1;
    t.pending = true;
    let d = Some(DueWords { label: "today".into(), overdue: false, today: true });
    let line = task_line(&color, &t, &d, true);
    assert!(line.contains("Call the bank") && line.contains("today") && line.contains("Errands"));
    let off = task_line(&plain(), &t, &d, false);
    assert!(!off.contains('\x1b') && !off.contains("Errands"));
    assert!(Style::new(true, false).color);
    assert!(!Style::new(true, true).color && !Style::new(false, false).color);
}

#[test]
fn escaping_can_be_undone() {
    let texts = ["", "&", "&amp;", "<a & b>", "&lt;", "a\"b'c", "&amp;lt;"];
    for a in texts {
        let back = escape(a).replace("&lt;", "<").replace("&gt;", ">").replace("&amp;", "&");
        assert_eq!(back, a);
        for b in texts {
            assert_eq!(escape(&format!("{a}{b}")), escape(a) + &escape(b));
            assert_eq!(escape(a) == escape(b), a == b);
        }
    }
    assert_eq!(escape("&amp;"), "&amp;amp;");
}

#[test]
fn the_bar_counts_and_lists() {
    assert_eq!(escape("<a & b>"), "&lt;a &amp; b&gt;");
    let l = render(&[], &[], &[], &status(SyncState::Idle));
    assert_eq!((l.text.as_str(), l.class, l.alt), ("", "clear", "clear"));
    assert_eq!(l.tooltip, "Nothing due today");
    let mut t = task("a");
    t.task.due = due();
    t.task.summary = "x < y".into();
    let l = render(&[t], &["today".into()], &[false], &status(SyncState::Idle));
    assert_eq!((l.text.as_str(), l.class), ("1", "due"));
    assert_eq!(l.tooltip, "x &lt; y  <i>today</i>");
    let mut t = task("a");
    t.task.due = due();
    let l = render(&[t], &["yesterday".into()], &[true], &status(SyncState::Idle));
    assert_eq!(l.class, "overdue");
    let mut st = status(SyncState::Offline);
    st.pending = 2;
    let l = render(&[], &[], &[], &st);
    assert!(l.tooltip.ends_with("\n<small>offline, 2 unsent</small>"));
    let many: Vec<TaskView> = (0..15).map(|i| task(&i.to_string())).collect();
    let labels = vec![String::new(); 15];
    let l = render(&many, &labels, &[false; 15], &status(SyncState::Idle));
    assert!(l.tooltip.ends_with("and 3 more"));
    assert_eq!(l.text, "15");
    let l = offline("no <bus>");
    assert_eq!((l.text.as_str(), l.class), ("", "offline"));
    assert_eq!(l.tooltip, "asst: no &lt;bus&gt;");
}
