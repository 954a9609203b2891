//! Preferences: the sidebar, and the order of lists.

use asst::autostart::starts_asst;
use asst::nav::Nav;
use asst::prefs::Prefs;
use asst::task::ListView;
use asst::tray::State;

#[test]
fn sidebar_starts_with_four_and_keeps_old_extras() {
    let four = [Nav::Inbox, Nav::Today, Nav::Scheduled, Nav::Completed];
    assert_eq!(Prefs::default().migrated().sidebar_views(), four);
    let old = Prefs { filters: vec!["tomorrow".into()], ..Prefs::default() }.migrated();
    assert_eq!(
        old.sidebar_views(),
        [Nav::Inbox, Nav::Today, Nav::Scheduled, Nav::Completed, Nav::Tomorrow]
    );
    assert!(old.filters.is_empty());
    let again = Prefs { sidebar: old.sidebar.clone(), ..Prefs::default() }.migrated();
    assert_eq!(again.sidebar_views(), old.sidebar_views());
    let mut none = Prefs::default();
    none.set_sidebar_views(&[]);
    assert!(none.migrated().sidebar_views().is_empty());
}

#[test]
fn lists_in_dragged_order_or_by_name() {
    let list = |href: &str, name: &str| ListView {
        href: href.into(),
        name: name.into(),
        color: None,
        writable: true,
        inbox: false,
        open: 0,
        done: 0,
    };
    let lists = [
        list("/a/", "Work 10"),
        list("/b/", "Home"),
        list("/c/", "Work 9"),
        list("/d/", "Old"),
    ];
    let names =
        |v: Vec<&ListView>| v.into_iter().map(|l| l.name.clone()).collect::<Vec<_>>();
    let mut p = Prefs { archived: vec!["/d/".into()], ..Prefs::default() };
    assert_eq!(names(p.arrange(&lists)), ["Work 10", "Home", "Work 9"]);
    p.list_order = vec!["/c/".into(), "/a/".into()];
    assert_eq!(names(p.arrange(&lists)), ["Work 9", "Work 10", "Home"]);
    p.lists_by_name = true;
    assert_eq!(names(p.arrange(&lists)), ["Home", "Work 9", "Work 10"]);
}

#[test]
fn a_compositor_line_counts_unless_commented_out() {
    assert!(starts_asst("hl.exec_cmd(\"asst-gtk --background\")  -- tasks\n"));
    assert!(starts_asst("exec-once = asst-gtk --background\n"));
    assert!(!starts_asst("-- hl.exec_cmd(\"asst-gtk --background\")\n"));
    assert!(!starts_asst("# exec-once = asst-gtk --background\n"));
    assert!(!starts_asst("hl.exec_cmd(\"asst-gtk\")\n"));
}

#[test]
fn tooltip_counts_overdue_apart_from_today() {
    let say = |overdue, today| State { overdue, today }.summary();
    assert_eq!(say(0, 0), "Nothing due today");
    assert_eq!(say(0, 1), "1 task due today");
    assert_eq!(say(2, 0), "2 overdue");
    assert_eq!(say(2, 3), "2 overdue · 3 due today");
}
