//! What views, orders and spans of dates are called, and what the window says
//! of time, sync and what is about to be deleted.

use vstd::prelude::*;

use crate::date::{Date, month_of, year_of};
use crate::dialogs::{
    delete_completed_words, delete_list_words, deleted_completed, list_dialog, name_to_save,
};
use crate::nav::{DueFilter, Nav, Sort, find_list, list_at, words};
use crate::number::decimal;
use crate::task::{ListView, StatusView};
use crate::text::{
    lemma_trim_blank, lemma_trim_end, lemma_trim_start, trim, trim_end, trim_start, white,
};
use crate::words::{ago, capitalize, due_chip, priority_name, sync_state};
use crate::zone::{Moment, Now};

verus! {

// -- views ------------------------------------------------------------------------------------

/// No list before `i` has the address.
pub open spec fn first_with(lists: Seq<ListView>, i: int, href: Seq<char>) -> bool {
    &&& 0 <= i < lists.len() && lists[i].href@ == href
    &&& forall|j: int| 0 <= j < i ==> (#[trigger] lists[j]).href@ != href
}

pub(crate) proof fn lemma_list_at(lists: Seq<ListView>, i: int, href: Seq<char>)
    requires
        first_with(lists, i, href),
    ensures
        list_at(lists, href) == Some(lists[i]),
    decreases lists.len(),
{
    if i > 0 {
        let t = lists.skip(1);
        assert(lists[0].href@ != href);
        assert forall|j: int| 0 <= j < i - 1 implies (#[trigger] t[j]).href@ != href by {
            assert(t[j] == lists[j + 1]);
        }
        assert(first_with(t, i - 1, href));
        lemma_list_at(t, i - 1, href);
    }
}

pub(crate) proof fn lemma_no_list(lists: Seq<ListView>, href: Seq<char>)
    requires
        forall|j: int| 0 <= j < lists.len() ==> (#[trigger] lists[j]).href@ != href,
    ensures
        list_at(lists, href) is None,
    decreases lists.len(),
{
    if lists.len() > 0 {
        let t = lists.skip(1);
        assert forall|j: int| 0 <= j < t.len() implies (#[trigger] t[j]).href@ != href by {
            assert(t[j] == lists[j + 1]);
        }
        assert(lists[0].href@ != href);
        lemma_no_list(t, href);
    }
}

/// A list is found by its address, the first when two have it.
pub proof fn lists_are_found_by_address<'a>(
    lists: &'a [ListView],
    href: &str,
    r: Option<&'a ListView>,
)
    requires
        call_ensures(find_list, (lists, href), r),
    ensures
        forall|i: int| #[trigger] first_with(lists@, i, href@) ==> r == Some(&lists@[i]),
        r is None == (forall|j: int|
            0 <= j < lists@.len() ==> (#[trigger] lists@[j]).href@ != href@),
{
    assert forall|i: int| #[trigger] first_with(lists@, i, href@) implies r == Some(&lists@[i]) by {
        lemma_list_at(lists@, i, href@);
    }
    if forall|j: int| 0 <= j < lists@.len() ==> (#[trigger] lists@[j]).href@ != href@ {
        lemma_no_list(lists@, href@);
    } else {
        let j = choose|j: int| 0 <= j < lists@.len() && (#[trigger] lists@[j]).href@ == href@;
        lemma_some_first(lists@, j, href@);
    }
}

proof fn lemma_some_first(lists: Seq<ListView>, j: int, href: Seq<char>)
    requires
        0 <= j < lists.len(),
        lists[j].href@ == href,
    ensures
        list_at(lists, href) is Some,
    decreases lists.len(),
{
    if lists[0].href@ != href {
        assert(lists.skip(1)[j - 1] == lists[j]);
        lemma_some_first(lists.skip(1), j - 1, href);
    }
}

/// A view has its own name, and a list's view the list's.
pub proof fn views_have_titles(n: &Nav, lists: &[ListView], r: String)
    requires
        call_ensures(Nav::title, (n, lists), r),
    ensures
        *n is Inbox ==> r@ == "Inbox"@,
        *n is Today ==> r@ == "Today"@,
        *n is Scheduled ==> r@ == "Scheduled"@,
        *n is Completed ==> r@ == "Completed"@,
        *n is Tomorrow ==> r@ == "Tomorrow"@,
        *n is Anytime ==> r@ == "Anytime"@,
        *n is Repeating ==> r@ == "Repeating"@,
        *n is All ==> r@ == "All Tasks"@,
        *n matches Nav::List(h) ==> forall|i: int| #[trigger]
            first_with(lists@, i, h@) ==> r@ == lists@[i].name@,
        (*n matches Nav::List(h) && forall|j: int|
            0 <= j < lists@.len() ==> (#[trigger] lists@[j]).href@ != h@) ==> r@ == "List"@,
{
    match *n {
        Nav::List(h) => {
            assert forall|i: int| #[trigger] first_with(lists@, i, h@) implies r@
                == lists@[i].name@ by {
                lemma_list_at(lists@, i, h@);
            }
            if forall|j: int| 0 <= j < lists@.len() ==> (#[trigger] lists@[j]).href@ != h@ {
                lemma_no_list(lists@, h@);
            }
        },
        _ => {},
    }
}

/// A view is kept by a name, and read back by it.
pub proof fn views_have_keys(n: &Nav, key: String, s: &str, r: Option<Nav>)
    requires
        call_ensures(Nav::key, (n,), key),
        call_ensures(Nav::from_key, (s,), r),
    ensures
        *n is Inbox ==> key@ == "inbox"@,
        *n is Today ==> key@ == "today"@,
        *n is Scheduled ==> key@ == "scheduled"@,
        *n is Completed ==> key@ == "completed"@,
        *n is Tomorrow ==> key@ == "tomorrow"@,
        *n is Anytime ==> key@ == "anytime"@,
        *n is Repeating ==> key@ == "repeating"@,
        *n is All ==> key@ == "all"@,
        *n matches Nav::List(h) ==> key@ == "list:"@ + h@,
        s@ == key@ ==> (r matches Some(m) && m@ == n@),
        r matches Some(m) && m@ == n@ ==> s@ == key@,
{
    crate::nav::keys_round_trip(n@);
    if r matches Some(m) && m@ == n@ {
        reveal_strlit("list:");
        if n@ is List {
            assert(s@ =~= "list:"@ + s@.skip(5)) by {
                assert(s@.subrange(0, 5) == "list:"@);
                assert forall|i: int| 0 <= i < s@.len() implies s@[i] == ("list:"@ + s@.skip(5))[i] by {
                    if i < 5 {
                        assert(s@.subrange(0, 5)[i] == s@[i]);
                    }
                }
            }
        }
    }
}

/// The smart views, as they stand in the sidebar when all of them do.
pub proof fn smart_views_are_in_order(r: [Nav; 8])
    requires
        call_ensures(Nav::filters, (), r),
    ensures
        r@.len() == 8,
        r@[0] is Inbox && r@[1] is Today && r@[2] is Scheduled && r@[3] is Completed,
        r@[4] is Tomorrow && r@[5] is Anytime && r@[6] is Repeating && r@[7] is All,
{
    let v = crate::nav::navs(r@);
    assert(v[0] == r@[0]@ && v[1] == r@[1]@ && v[2] == r@[2]@ && v[3] == r@[3]@);
    assert(v[4] == r@[4]@ && v[5] == r@[5]@ && v[6] == r@[6]@ && v[7] == r@[7]@);
}

/// The other words that a view is known by.
pub proof fn views_have_other_words(n: &Nav, r: Vec<&'static str>)
    requires
        call_ensures(Nav::keywords, (n,), r),
    ensures
        *n is Today ==> r@.len() == 1 && r@[0]@ == "overdue"@,
        *n is Scheduled ==> r@.len() == 2 && r@[0]@ == "upcoming"@ && r@[1]@ == "later"@,
        *n is Completed ==> r@.len() == 3 && r@[0]@ == "done"@ && r@[1]@ == "logbook"@ && r@[2]@
            == "finished"@,
        *n is Anytime ==> r@.len() == 3 && r@[0]@ == "no date"@ && r@[1]@ == "someday"@ && r@[2]@
            == "unscheduled"@,
        *n is Repeating ==> r@.len() == 1 && r@[0]@ == "recurring"@,
        *n is All ==> r@.len() == 1 && r@[0]@ == "everything"@,
        *n is Inbox || *n is Tomorrow || *n is List ==> r@.len() == 0,
{
    let v = words(r@);
    assert(v.len() == r@.len());
    assert forall|i: int| 0 <= i < r@.len() implies #[trigger] r@[i]@ == v[i] by {}
}

/// What a view is about, and how it looks.
pub proof fn views_have_looks(n: &Nav, about: &'static str, icon: &'static str, tint: &'static str)
    requires
        call_ensures(Nav::about, (n,), about),
        call_ensures(Nav::icon, (n,), icon),
        call_ensures(Nav::tint, (n,), tint),
    ensures
        *n is Inbox ==> about@ == "The inbox list"@ && icon@ == "mailbox-symbolic"@ && tint@
            == "tint-blue"@,
        *n is Today ==> about@ == "Due today, and overdue"@ && icon@
            == "star-outline-thick-symbolic"@ && tint@ == "tint-green"@,
        *n is Scheduled ==> about@ == "Everything with a date, by day"@ && icon@
            == "month-symbolic"@ && tint@ == "tint-purple"@,
        *n is Completed ==> about@ == "Done, by the day"@ && icon@
            == "check-round-outline-symbolic"@ && tint@ == "tint-orange"@,
        *n is Tomorrow ==> about@ == "Due tomorrow"@ && icon@ == "today-calendar-symbolic"@
            && tint@ == "tint-purple"@,
        *n is Anytime ==> about@ == "Tasks with no date"@ && icon@ == "grid-large-symbolic"@
            && tint@ == "tint-purple"@,
        *n is Repeating ==> about@ == "Tasks that repeat"@ && icon@
            == "arrow-circular-top-right-symbolic"@ && tint@ == "tint-purple"@,
        *n is All ==> about@ == "Every open task, by list"@ && icon@
            == "check-round-outline-whole-symbolic"@ && tint@ == "tint-blue"@,
        *n is List ==> about@ == "A list"@ && icon@ == "list-large-symbolic"@ && tint@
            == "tint-blue"@,
{
}

/// The inbox and a list start in the order they were dragged into, and any
/// other view by date; a span of dates can be chosen where a view is not made
/// of dates already.
pub proof fn views_start_in_an_order(n: &Nav, sort: Sort, by_date: bool)
    requires
        call_ensures(Nav::default_sort, (n,), sort),
        call_ensures(Nav::filters_by_date, (n,), by_date),
    ensures
        sort == Sort::Custom || sort == Sort::Due,
        sort == Sort::Custom <==> *n is Inbox || *n is List,
        by_date <==> !(*n is Today || *n is Scheduled || *n is Completed || *n is Tomorrow
            || *n is Anytime),
{
}

// -- orders and spans ---------------------------------------------------------------------------

/// An order by its words in the menu, and by the word it is kept under.
pub proof fn orders_have_names(s: Sort, label: &'static str, name: &'static str)
    requires
        call_ensures(Sort::label, (s,), label),
        call_ensures(Sort::name, (s,), name),
    ensures
        s is Custom ==> label@ == "Custom order"@ && name@ == "custom"@,
        s is Due ==> label@ == "Due date"@ && name@ == "due"@,
        s is Priority ==> label@ == "Priority"@ && name@ == "priority"@,
        s is Name ==> label@ == "Name"@ && name@ == "name"@,
        s is Added ==> label@ == "Date added"@ && name@ == "added"@,
        s is Modified ==> label@ == "Date modified"@ && name@ == "modified"@,
{
}

/// A span of dates by its words in the menu, and by the word it is kept under.
pub proof fn spans_have_names(f: DueFilter, label: &'static str, name: &'static str)
    requires
        call_ensures(DueFilter::label, (f,), label),
        call_ensures(DueFilter::name, (f,), name),
    ensures
        f is Any ==> label@ == "Any date"@ && name@ == "any"@,
        f is Today ==> label@ == "Due today"@ && name@ == "today"@,
        f is Week ==> label@ == "Due this week"@ && name@ == "week"@,
        f is Seven ==> label@ == "Due in the next 7 days"@ && name@ == "seven"@,
        f is Month ==> label@ == "Due this month"@ && name@ == "month"@,
        f is NoDate ==> label@ == "No date"@ && name@ == "no-date"@,
{
}

/// What a span lets through: a date up to today, up to the end of the week
/// that today is in, up to six days from today or in or before the month that
/// today is in; with "No date", only what has none.
pub proof fn spans_let_through(
    f: DueFilter,
    due: Option<Date>,
    today: Date,
    sunday_first: bool,
    r: bool,
)
    requires
        today.wf(),
        f is Month ==> crate::date::month_end(today.ce as int) <= crate::date::LAST_DAY,
        call_ensures(DueFilter::keeps, (f, due, today, sunday_first), r),
        due matches Some(d) ==> d.wf(),
    ensures
        f is Any ==> r,
        f is NoDate ==> r == (due is None),
        due is None && !(f is Any) && !(f is NoDate) ==> !r,
        due matches Some(d) ==> f is Today ==> r == (d.ce <= today.ce),
        due matches Some(d) ==> f is Seven ==> r == (d.ce < today.ce + 7),
        // No Monday, or no Sunday, between today and the date.
        due matches Some(d) ==> f is Week ==> r == !(exists|k: int|
            today.ce < k <= d.ce && #[trigger] crate::date::weekday_of(k) == (if sunday_first {
                6int
            } else {
                0
            })),
        due matches Some(d) ==> f is Month ==> r == (d.ce <= today.ce || year_of(d.ce as int)
            == year_of(today.ce as int) && month_of(d.ce as int) == month_of(today.ce as int)),
{
    if let Some(d) = due {
        let t = today.ce as int;
        if f is Week {
            let first: int = if sunday_first {
                6int
            } else {
                0
            };
            let end = crate::nav::week_end(t, sunday_first);
            lemma_week_end(t, sunday_first);
            if d.ce > end {
                assert(crate::date::weekday_of(end + 1) == first);
            }
        }
        if f is Month {
            crate::date::month_end_is_in_month(t);
            crate::date::every_day_is_civil(t);
            crate::date::every_day_is_civil(d.ce as int);
            lemma_month_end(t, d.ce as int);
        }
    }
}

proof fn lemma_week_end(t: int, sunday_first: bool)
    ensures
        t <= crate::nav::week_end(t, sunday_first) <= t + 6,
        crate::date::weekday_of(crate::nav::week_end(t, sunday_first) + 1) == (if sunday_first {
            6int
        } else {
            0
        }),
        forall|k: int|
            t < k <= crate::nav::week_end(t, sunday_first) ==> #[trigger] crate::date::weekday_of(k)
                != (if sunday_first {
                6int
            } else {
                0
            }),
{
}

proof fn lemma_month_end(t: int, d: int)
    requires
        crate::date::FIRST_DAY <= t <= crate::date::LAST_DAY,
        crate::date::FIRST_DAY <= d <= crate::date::LAST_DAY,
        crate::date::month_end(t) <= crate::date::LAST_DAY,
    ensures
        d <= crate::date::month_end(t) <==> (d <= t || year_of(d) == year_of(t) && month_of(d)
            == month_of(t)),
{
    crate::date::every_day_is_civil(t);
    crate::date::every_day_is_civil(d);
    crate::date::month_end_is_in_month(t);
    if d > t {
        crate::date::months_go_on(t, d);
        let e = crate::date::month_end(t);
        if d <= e {
            crate::date::months_go_on(d, e);
        }
    }
}

// -- words --------------------------------------------------------------------------------------

/// A moment that is near says how long ago it was: in seconds under a minute,
/// in minutes under an hour, in hours under a day.
pub proof fn near_moments_say_how_long_ago(then: Moment, now: &Now, r: String)
    requires
        call_ensures(ago, (then, now), r),
    ensures
        ({
            let secs = then.secs_until(now.at);
            &&& secs < 5 ==> r@ == "just now"@
            &&& 5 <= secs < 60 ==> r@ == decimal(secs as nat) + " seconds ago"@
            &&& 60 <= secs < 120 ==> r@ == "1 minute ago"@
            &&& 120 <= secs < 3600 ==> r@ == decimal((secs / 60) as nat) + " minutes ago"@
            &&& 3600 <= secs < 7200 ==> r@ == "1 hour ago"@
            &&& 7200 <= secs < 86400 ==> r@ == decimal((secs / 3600) as nat) + " hours ago"@
        }),
{
    reveal_strlit("1 ");
    reveal_strlit(" ");
    reveal_strlit("s");
    reveal_strlit(" ago");
    reveal_strlit("minute");
    reveal_strlit("hour");
    reveal_strlit("1 minute ago");
    reveal_strlit("1 hour ago");
    reveal_strlit(" minutes ago");
    reveal_strlit(" hours ago");
    let secs = then.secs_until(now.at);
    if 60 <= secs < 3600 {
        let n = decimal((secs / 60) as nat);
        assert("1 "@ + "minute"@ + " ago"@ =~= "1 minute ago"@);
        assert(n + " "@ + "minute"@ + "s"@ + " ago"@ =~= n + " minutes ago"@);
    }
    if 3600 <= secs < 86400 {
        let n = decimal((secs / 3600) as nat);
        assert("1 "@ + "hour"@ + " ago"@ =~= "1 hour ago"@);
        assert(n + " "@ + "hour"@ + "s"@ + " ago"@ =~= n + " hours ago"@);
    }
}

/// What was a day ago or more says the day, and the year where it is another.
pub proof fn far_moments_say_the_day(then: Moment, now: &Now, r: String)
    requires
        call_ensures(ago, (then, now), r),
        then.secs_until(now.at) >= 86400,
    ensures
        ({
            let day = crate::zone::day_at(then, now.zone@);
            r@ == crate::date::written(
                day,
                if year_of(day) == year_of(now.day()) {
                    "on %b %-d"@
                } else {
                    "on %b %-d, %Y"@
                },
            )
        }),
{
}

/// What is said of sync ends with how many changes wait: nothing of none.
/// Idle, it starts with when the last was, and in trouble it says what the
/// trouble is.
pub proof fn sync_says_what_it_does(s: &StatusView, now: &Now, at: Moment, when: String, r: String)
    requires
        call_ensures(sync_state, (s, now), r),
        call_ensures(ago, (at, now), when),
    ensures
        ({
            let said: Seq<char> = if s.pending == 0 {
                r@
            } else if s.pending == 1 {
                r@.take(r@.len() - " · 1 change waiting to be sent"@.len())
            } else {
                r@.take(
                    r@.len() - (" · "@ + decimal(s.pending as nat)
                        + " changes waiting to be sent"@).len(),
                )
            };
            let rest = r@.skip(said.len() as int);
            &&& s.pending == 0 ==> rest.len() == 0
            &&& s.pending == 1 ==> rest == " · 1 change waiting to be sent"@
            &&& s.pending > 1 ==> rest == " · "@ + decimal(s.pending as nat)
                + " changes waiting to be sent"@
            &&& s.state is Idle && s.last_sync is None ==> said == "Not synced yet"@
            &&& s.state is Idle && s.last_sync == Some(at) ==> said == "Synced "@ + when@
            &&& s.state is Syncing ==> said == "Syncing…"@
            &&& s.state is Offline ==> said == "Offline; changes wait until the server is back"@
            &&& (s.state is Error || s.state is NoAccount) && s.message is None ==> said
                == "Sync failed"@
            &&& s.state is Error || s.state is NoAccount ==> (s.message matches Some(m) ==> said
                == m@)
        }),
{
    let state = crate::words::state_text(*s, now.at, now.zone@);
    let rest = crate::words::waiting_text(s.pending as nat);
    assert(r@.take(r@.len() - rest.len()) =~= state);
    assert(r@.skip(state.len() as int) =~= rest);
    assert(state + Seq::<char>::empty() =~= state);
}

/// A date in a row is red once it is past, starts with a capital, and is else
/// as it is said.
pub proof fn due_dates_are_colored(
    due: &crate::task::When,
    label: &str,
    today: Date,
    r: (String, &'static str),
    capital: String,
)
    requires
        call_ensures(due_chip, (due, label, today), r),
        call_ensures(capitalize, (label,), capital),
    ensures
        r.0@ == capital@,
        due.date.ce < today.ce ==> r.1@ == "overdue"@,
        due.date.ce == today.ce ==> r.1@ == "today"@,
        due.date.ce > today.ce ==> r.1@ == "upcoming"@,
        label@.len() > 0 ==> capital@ == crate::text::uppercase(label@[0]) + label@.skip(1),
        label@.len() == 0 ==> capital@.len() == 0,
{
}

/// Priorities by their number: one is high, and any past three is none.
pub proof fn priorities_have_names(level: u8, r: &'static str)
    requires
        call_ensures(priority_name, (level,), r),
    ensures
        level == 1 ==> r@ == "Priority 1: High"@,
        level == 2 ==> r@ == "Priority 2: Medium"@,
        level == 3 ==> r@ == "Priority 3: Low"@,
        level == 0 || level > 3 ==> r@ == "Priority 4: None"@,
{
}

// -- dialogs ------------------------------------------------------------------------------------

/// The dialog starts with the list's name and color to edit it, and empty and
/// blue for a new one.
pub proof fn dialogs_start_with_the_list(
    list: Option<&ListView>,
    r: (&'static str, &'static str, String, String),
)
    requires
        call_ensures(list_dialog, (list,), r),
    ensures
        list is None ==> r.0@ == "New List"@ && r.1@ == "Add List"@ && r.2@.len() == 0 && r.3@
            == "#3c6dff"@,
        list matches Some(l) ==> r.0@ == "Edit List"@ && r.1@ == "Save"@ && r.2@ == l.name@,
        list matches Some(l) ==> (l.color matches Some(c) ==> r.3@ == c@),
        list matches Some(l) ==> l.color is None ==> r.3@ == "#3c6dff"@,
{
}

/// Between `a` and `b` stands what is not space around `s`.
pub open spec fn spaced(s: Seq<char>, a: int, b: int) -> bool {
    &&& 0 <= a < b <= s.len() && !white(s[a]) && !white(s[b - 1])
    &&& forall|i: int| 0 <= i < a ==> white(#[trigger] s[i])
    &&& forall|i: int| b <= i < s.len() ==> white(#[trigger] s[i])
}

pub(crate) proof fn lemma_spaced(s: Seq<char>, a: int, b: int)
    requires
        spaced(s, a, b),
    ensures
        trim(s) == s.subrange(a, b),
{
    lemma_trim_start(s);
    let t = trim_start(s);
    let k = s.len() - t.len();
    if k < a {
        assert(t[0] == s[k]);
        assert(white(s[k]));
    }
    assert(k == a);
    lemma_trim_end(t);
    let u = trim_end(t);
    let e = b - a;
    assert(t[e - 1] == s[b - 1]);
    if u.len() > e {
        assert(u.last() == t[u.len() - 1]);
        assert(t[u.len() - 1] == s[a + u.len() - 1]);
        assert(white(s[a + u.len() - 1]));
    }
    assert(u.len() == e);
    assert(u =~= s.subrange(a, b));
}

/// A name is saved without the space around it, and a blank one is not.
pub proof fn names_are_saved(typed: &str, r: Option<String>)
    requires
        call_ensures(name_to_save, (typed,), r),
    ensures
        r is None == (forall|i: int| 0 <= i < typed@.len() ==> white(#[trigger] typed@[i])),
        forall|a: int, b: int| #[trigger]
            spaced(typed@, a, b) ==> (r matches Some(s) && s@ == typed@.subrange(a, b)),
{
    lemma_trim_blank(typed@);
    assert forall|a: int, b: int| #[trigger] spaced(typed@, a, b) implies (r matches Some(s) && s@
        == typed@.subrange(a, b)) by {
        lemma_spaced(typed@, a, b);
    }
}

/// Before a list goes, its name is said, and how many open tasks go with it.
pub proof fn deleting_a_list_says_what_goes(name: &str, open: usize, r: (String, String))
    requires
        call_ensures(delete_list_words, (name, open), r),
    ensures
        r.0@ == "Delete “"@ + name@ + "”?"@,
        open == 0 ==> r.1@
            == "Nextcloud keeps deleted lists in its trash bin for a while, where they can be restored from the web."@,
        open == 1 ==> r.1@
            == "Its 1 open task goes with it, on every device. Nextcloud keeps deleted lists in its trash bin for a while."@,
        open > 1 ==> r.1@ == "Its "@ + decimal(open as nat)
            + " open tasks go with it, on every device. Nextcloud keeps deleted lists in its trash bin for a while."@,
{
}

/// Deleting completed tasks says how many there are before and after.
pub proof fn deleting_completed_says_how_many(
    n: usize,
    from: &str,
    asked: (String, String),
    m: u32,
    told: String,
)
    requires
        call_ensures(delete_completed_words, (n, from), asked),
        call_ensures(deleted_completed, (m,), told),
    ensures
        n == 1 ==> asked.0@ == "Delete 1 completed task?"@,
        n != 1 ==> asked.0@ == "Delete "@ + decimal(n as nat) + " completed tasks?"@,
        asked.1@ == "They go from "@ + from@
            + " on every device, the iPhone too. Nextcloud keeps deleted tasks in its trash bin for a while."@,
        m == 0 ==> told@.len() == 0,
        m == 1 ==> told@ == "Deleted 1 completed task"@,
        m > 1 ==> told@ == "Deleted "@ + decimal(m as nat) + " completed tasks"@,
{
}

} // verus!
