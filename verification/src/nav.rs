//! The views a window shows, their names, and how each is remembered.

use vstd::prelude::*;
use vstd::string::*;

use crate::date::{Date, LAST_DAY, last_day, month_end, weekday_of};
use crate::task::ListView;
use crate::text::{after_prefix, glue, same, starts_with};

verus! {

// -- views ------------------------------------------------------------------------

#[derive(Debug, PartialEq, Eq, Hash)]
pub enum Nav {
    Inbox,
    Today,
    Scheduled,
    Completed,
    Tomorrow,
    Anytime,
    Repeating,
    All,
    List(String),
}

/// A view, with its list by the text of the list's address.
pub enum NavView {
    Inbox,
    Today,
    Scheduled,
    Completed,
    Tomorrow,
    Anytime,
    Repeating,
    All,
    List(Seq<char>),
}

impl View for Nav {
    type V = NavView;

    open spec fn view(&self) -> NavView {
        match self {
            Nav::Inbox => NavView::Inbox,
            Nav::Today => NavView::Today,
            Nav::Scheduled => NavView::Scheduled,
            Nav::Completed => NavView::Completed,
            Nav::Tomorrow => NavView::Tomorrow,
            Nav::Anytime => NavView::Anytime,
            Nav::Repeating => NavView::Repeating,
            Nav::All => NavView::All,
            Nav::List(h) => NavView::List(h@),
        }
    }
}

/// The views of a list of them.
pub open spec fn navs(v: Seq<Nav>) -> Seq<NavView> {
    v.map_values(|n: Nav| n@)
}

/// The smart views, in sidebar order.
pub open spec fn smart_views() -> Seq<NavView> {
    seq![
        NavView::Inbox,
        NavView::Today,
        NavView::Scheduled,
        NavView::Completed,
        NavView::Tomorrow,
        NavView::Anytime,
        NavView::Repeating,
        NavView::All,
    ]
}

/// A stable name for settings: `today`, `list:/cal/x/`.
pub open spec fn key_of(n: NavView) -> Seq<char> {
    match n {
        NavView::Inbox => "inbox"@,
        NavView::Today => "today"@,
        NavView::Scheduled => "scheduled"@,
        NavView::Completed => "completed"@,
        NavView::Tomorrow => "tomorrow"@,
        NavView::Anytime => "anytime"@,
        NavView::Repeating => "repeating"@,
        NavView::All => "all"@,
        NavView::List(h) => "list:"@ + h,
    }
}

/// The view that a name stands for.
pub open spec fn view_of(key: Seq<char>) -> Option<NavView> {
    if starts_with(key, "list:"@) {
        Some(NavView::List(key.skip(5)))
    } else if key == "inbox"@ {
        Some(NavView::Inbox)
    } else if key == "today"@ {
        Some(NavView::Today)
    } else if key == "scheduled"@ {
        Some(NavView::Scheduled)
    } else if key == "completed"@ {
        Some(NavView::Completed)
    } else if key == "tomorrow"@ {
        Some(NavView::Tomorrow)
    } else if key == "anytime"@ {
        Some(NavView::Anytime)
    } else if key == "repeating"@ {
        Some(NavView::Repeating)
    } else if key == "all"@ {
        Some(NavView::All)
    } else {
        None
    }
}

pub open spec fn title_of(n: NavView, lists: Seq<ListView>) -> Seq<char> {
    match n {
        NavView::Inbox => "Inbox"@,
        NavView::Today => "Today"@,
        NavView::Scheduled => "Scheduled"@,
        NavView::Completed => "Completed"@,
        NavView::Tomorrow => "Tomorrow"@,
        NavView::Anytime => "Anytime"@,
        NavView::Repeating => "Repeating"@,
        NavView::All => "All Tasks"@,
        NavView::List(h) => match list_at(lists, h) {
            Some(l) => l.name@,
            None => "List"@,
        },
    }
}

/// The first list with an address.
pub open spec fn list_at(lists: Seq<ListView>, href: Seq<char>) -> Option<ListView>
    decreases lists.len(),
{
    if lists.len() == 0 {
        None
    } else if lists[0].href@ == href {
        Some(lists[0])
    } else {
        list_at(lists.skip(1), href)
    }
}

pub open spec fn keywords_of(n: NavView) -> Seq<Seq<char>> {
    match n {
        NavView::Today => seq!["overdue"@],
        NavView::Scheduled => seq!["upcoming"@, "later"@],
        NavView::Completed => seq!["done"@, "logbook"@, "finished"@],
        NavView::Anytime => seq!["no date"@, "someday"@, "unscheduled"@],
        NavView::Repeating => seq!["recurring"@],
        NavView::All => seq!["everything"@],
        _ => Seq::empty(),
    }
}

/// The texts of a list of words.
pub open spec fn words(v: Seq<&'static str>) -> Seq<Seq<char>> {
    v.map_values(|s: &'static str| s@)
}

pub open spec fn about_of(n: NavView) -> Seq<char> {
    match n {
        NavView::Inbox => "The inbox list"@,
        NavView::Today => "Due today, and overdue"@,
        NavView::Scheduled => "Everything with a date, by day"@,
        NavView::Completed => "Done, by the day"@,
        NavView::Tomorrow => "Due tomorrow"@,
        NavView::Anytime => "Tasks with no date"@,
        NavView::Repeating => "Tasks that repeat"@,
        NavView::All => "Every open task, by list"@,
        NavView::List(_) => "A list"@,
    }
}

pub open spec fn icon_of(n: NavView) -> Seq<char> {
    match n {
        NavView::Inbox => "mailbox-symbolic"@,
        NavView::Today => "star-outline-thick-symbolic"@,
        NavView::Scheduled => "month-symbolic"@,
        NavView::Completed => "check-round-outline-symbolic"@,
        NavView::Tomorrow => "today-calendar-symbolic"@,
        NavView::Anytime => "grid-large-symbolic"@,
        NavView::Repeating => "arrow-circular-top-right-symbolic"@,
        NavView::All => "check-round-outline-whole-symbolic"@,
        NavView::List(_) => "list-large-symbolic"@,
    }
}

pub open spec fn tint_of(n: NavView) -> Seq<char> {
    match n {
        NavView::Inbox | NavView::All | NavView::List(_) => "tint-blue"@,
        NavView::Today => "tint-green"@,
        NavView::Completed => "tint-orange"@,
        _ => "tint-purple"@,
    }
}

/// The sort a view has of its own.
pub open spec fn own_sort(n: NavView) -> Sort {
    match n {
        NavView::Inbox | NavView::List(_) => Sort::Custom,
        _ => Sort::Due,
    }
}

/// The first list with an address.
pub fn find_list<'a>(lists: &'a [ListView], href: &str) -> (r: Option<&'a ListView>)
    ensures
        r == (match list_at(lists@, href@) {
            Some(l) => Some(&l),
            None => None,
        }),
{
    assert(lists@.skip(0) == lists@);
    for i in 0..lists.len()
        invariant
            list_at(lists@.skip(i as int), href@) == list_at(lists@, href@),
    {
        let ghost t = lists@.skip(i as int);
        assert(t[0] == lists@[i as int]);
        if same(lists[i].href.as_str(), href) {
            return Some(&lists[i]);
        }
        assert(t.skip(1) == lists@.skip(i + 1));
    }
    assert(lists@.skip(lists@.len() as int).len() == 0);
    None
}

impl Clone for Nav {
    fn clone(&self) -> (r: Nav)
        ensures
            r == *self,
    {
        match self {
            Nav::Inbox => Nav::Inbox,
            Nav::Today => Nav::Today,
            Nav::Scheduled => Nav::Scheduled,
            Nav::Completed => Nav::Completed,
            Nav::Tomorrow => Nav::Tomorrow,
            Nav::Anytime => Nav::Anytime,
            Nav::Repeating => Nav::Repeating,
            Nav::All => Nav::All,
            Nav::List(h) => Nav::List(h.clone()),
        }
    }
}

impl Nav {
    /// The smart views, in sidebar order.
    pub fn filters() -> (r: [Nav; 8])
        ensures
            navs(r@) == smart_views(),
    {
        [
            Nav::Inbox,
            Nav::Today,
            Nav::Scheduled,
            Nav::Completed,
            Nav::Tomorrow,
            Nav::Anytime,
            Nav::Repeating,
            Nav::All,
        ]
    }

    pub fn title(&self, lists: &[ListView]) -> (r: String)
        ensures
            r@ == title_of(self@, lists@),
    {
        match self {
            Nav::Inbox => String::from_str("Inbox"),
            Nav::Today => String::from_str("Today"),
            Nav::Scheduled => String::from_str("Scheduled"),
            Nav::Completed => String::from_str("Completed"),
            Nav::Tomorrow => String::from_str("Tomorrow"),
            Nav::Anytime => String::from_str("Anytime"),
            Nav::Repeating => String::from_str("Repeating"),
            Nav::All => String::from_str("All Tasks"),
            Nav::List(href) => match find_list(lists, href.as_str()) {
                Some(l) => l.name.clone(),
                None => String::from_str("List"),
            },
        }
    }

    /// Other words Quick Find knows a view by.
    pub fn keywords(&self) -> (r: Vec<&'static str>)
        ensures
            words(r@) == keywords_of(self@),
    {
        match self {
            Nav::Today => vec!["overdue"],
            Nav::Scheduled => vec!["upcoming", "later"],
            Nav::Completed => vec!["done", "logbook", "finished"],
            Nav::Anytime => vec!["no date", "someday", "unscheduled"],
            Nav::Repeating => vec!["recurring"],
            Nav::All => vec!["everything"],
            Nav::Inbox | Nav::Tomorrow | Nav::List(_) => Vec::new(),
        }
    }

    /// Where a due-date filter makes sense: views not made of dates already.
    pub fn filters_by_date(&self) -> (r: bool)
        ensures
            r == (self@ is Inbox || self@ is List || self@ is All || self@ is Repeating),
    {
        match self {
            Nav::Inbox | Nav::List(_) | Nav::All | Nav::Repeating => true,
            _ => false,
        }
    }

    /// What a smart view holds, in a few words.
    pub fn about(&self) -> (r: &'static str)
        ensures
            r@ == about_of(self@),
    {
        match self {
            Nav::Inbox => "The inbox list",
            Nav::Today => "Due today, and overdue",
            Nav::Scheduled => "Everything with a date, by day",
            Nav::Completed => "Done, by the day",
            Nav::Tomorrow => "Due tomorrow",
            Nav::Anytime => "Tasks with no date",
            Nav::Repeating => "Tasks that repeat",
            Nav::All => "Every open task, by list",
            Nav::List(_) => "A list",
        }
    }

    pub fn icon(&self) -> (r: &'static str)
        ensures
            r@ == icon_of(self@),
    {
        match self {
            Nav::Inbox => "mailbox-symbolic",
            Nav::Today => "star-outline-thick-symbolic",
            Nav::Scheduled => "month-symbolic",
            Nav::Completed => "check-round-outline-symbolic",
            Nav::Tomorrow => "today-calendar-symbolic",
            Nav::Anytime => "grid-large-symbolic",
            Nav::Repeating => "arrow-circular-top-right-symbolic",
            Nav::All => "check-round-outline-whole-symbolic",
            Nav::List(_) => "list-large-symbolic",
        }
    }

    /// The CSS class that colors its tile and its title icon.
    pub fn tint(&self) -> (r: &'static str)
        ensures
            r@ == tint_of(self@),
    {
        match self {
            Nav::Inbox | Nav::All | Nav::List(_) => "tint-blue",
            Nav::Today => "tint-green",
            Nav::Scheduled | Nav::Tomorrow | Nav::Anytime | Nav::Repeating => "tint-purple",
            Nav::Completed => "tint-orange",
        }
    }

    /// A stable name for settings: `today`, `list:/cal/x/`.
    pub fn key(&self) -> (r: String)
        ensures
            r@ == key_of(self@),
    {
        match self {
            Nav::Inbox => String::from_str("inbox"),
            Nav::Today => String::from_str("today"),
            Nav::Scheduled => String::from_str("scheduled"),
            Nav::Completed => String::from_str("completed"),
            Nav::Tomorrow => String::from_str("tomorrow"),
            Nav::Anytime => String::from_str("anytime"),
            Nav::Repeating => String::from_str("repeating"),
            Nav::All => String::from_str("all"),
            Nav::List(href) => glue("list:", href.as_str()),
        }
    }

    pub fn from_key(key: &str) -> (r: Option<Nav>)
        ensures
            match r {
                Some(n) => view_of(key@) == Some(n@),
                None => view_of(key@) is None,
            },
    {
        proof {
            reveal_strlit("list:");
        }
        match after_prefix(key, "list:") {
            Some(href) => Some(Nav::List(href)),
            None => if same(key, "inbox") {
                Some(Nav::Inbox)
            } else if same(key, "today") {
                Some(Nav::Today)
            } else if same(key, "scheduled") {
                Some(Nav::Scheduled)
            } else if same(key, "completed") {
                Some(Nav::Completed)
            } else if same(key, "tomorrow") {
                Some(Nav::Tomorrow)
            } else if same(key, "anytime") {
                Some(Nav::Anytime)
            } else if same(key, "repeating") {
                Some(Nav::Repeating)
            } else if same(key, "all") {
                Some(Nav::All)
            } else {
                None
            },
        }
    }

    /// Where a task added here goes: a list, a date, or neither.
    pub fn is_list(&self) -> (r: bool)
        ensures
            r == (self@ is Inbox || self@ is List),
    {
        match self {
            Nav::Inbox | Nav::List(_) => true,
            _ => false,
        }
    }

    pub fn default_sort(&self) -> (r: Sort)
        ensures
            r == own_sort(self@),
    {
        match self {
            Nav::Inbox | Nav::List(_) => Sort::Custom,
            _ => Sort::Due,
        }
    }

    /// Whether two are the same view.
    pub fn is(&self, other: &Nav) -> (r: bool)
        ensures
            r == (self@ == other@),
    {
        match (self, other) {
            (Nav::Inbox, Nav::Inbox) => true,
            (Nav::Today, Nav::Today) => true,
            (Nav::Scheduled, Nav::Scheduled) => true,
            (Nav::Completed, Nav::Completed) => true,
            (Nav::Tomorrow, Nav::Tomorrow) => true,
            (Nav::Anytime, Nav::Anytime) => true,
            (Nav::Repeating, Nav::Repeating) => true,
            (Nav::All, Nav::All) => true,
            (Nav::List(a), Nav::List(b)) => *a == *b,
            _ => false,
        }
    }
}

/// A view's name stands for that view.
pub proof fn keys_round_trip(n: NavView)
    ensures
        view_of(key_of(n)) == Some(n),
{
    reveal_strlit("list:");
    reveal_strlit("inbox");
    reveal_strlit("today");
    reveal_strlit("scheduled");
    reveal_strlit("completed");
    reveal_strlit("tomorrow");
    reveal_strlit("anytime");
    reveal_strlit("repeating");
    reveal_strlit("all");
    // What tells the names apart.
    assert("inbox"@[0] == 'i' && "today"@[0] == 't' && "today"@.len() == 5);
    assert("scheduled"@[0] == 's' && "completed"@[0] == 'c' && "repeating"@[0] == 'r');
    assert("tomorrow"@[0] == 't' && "tomorrow"@.len() == 8);
    assert("anytime"@[0] == 'a' && "anytime"@.len() == 7 && "all"@[0] == 'a');
    match n {
        NavView::List(h) => {
            let k = "list:"@ + h;
            assert(k.subrange(0, 5) == "list:"@);
            assert(k.skip(5) == h);
        },
        _ => {
            let k = key_of(n);
            if starts_with(k, "list:"@) {
                assert(k.subrange(0, 5)[0] == k[0]);
                assert(k[0] == 'l');
            }
        },
    }
}

/// Two views have the same name only when they are the same.
pub proof fn keys_are_distinct(m: NavView, n: NavView)
    requires
        key_of(m) == key_of(n),
    ensures
        m == n,
{
    keys_round_trip(m);
    keys_round_trip(n);
}

// -- sorting and filtering ----------------------------------------------------------

#[derive(Debug, Clone, Copy, PartialEq, Eq, Structural)]
pub enum Sort {
    Custom,
    Due,
    Priority,
    Name,
    Added,
    Modified,
}

impl Default for Sort {
    fn default() -> (r: Sort)
        ensures
            r == Sort::Custom,
    {
        Sort::Custom
    }
}

impl Sort {
    pub const ALL: [Sort; 6] = [
        Sort::Custom,
        Sort::Due,
        Sort::Priority,
        Sort::Name,
        Sort::Added,
        Sort::Modified,
    ];

    pub open spec fn text(self) -> Seq<char> {
        match self {
            Sort::Custom => "Custom order"@,
            Sort::Due => "Due date"@,
            Sort::Priority => "Priority"@,
            Sort::Name => "Name"@,
            Sort::Added => "Date added"@,
            Sort::Modified => "Date modified"@,
        }
    }

    pub fn label(self) -> (r: &'static str)
        ensures
            r@ == self.text(),
    {
        match self {
            Sort::Custom => "Custom order",
            Sort::Due => "Due date",
            Sort::Priority => "Priority",
            Sort::Name => "Name",
            Sort::Added => "Date added",
            Sort::Modified => "Date modified",
        }
    }

    /// What an order is called where it is kept.
    pub open spec fn word(self) -> Seq<char> {
        match self {
            Sort::Custom => "custom"@,
            Sort::Due => "due"@,
            Sort::Priority => "priority"@,
            Sort::Name => "name"@,
            Sort::Added => "added"@,
            Sort::Modified => "modified"@,
        }
    }

    /// What it is called where it is kept.
    pub fn name(self) -> (r: &'static str)
        ensures
            r@ == self.word(),
    {
        match self {
            Sort::Custom => "custom",
            Sort::Due => "due",
            Sort::Priority => "priority",
            Sort::Name => "name",
            Sort::Added => "added",
            Sort::Modified => "modified",
        }
    }

    /// The one that is called so.
    pub fn named(name: &str) -> (r: Option<Sort>)
        ensures
            match r {
                Some(s) => s.word() == name@,
                None => forall|s: Sort| #[trigger] s.word() != name@,
            },
    {
        if same(name, "custom") {
            Some(Sort::Custom)
        } else if same(name, "due") {
            Some(Sort::Due)
        } else if same(name, "priority") {
            Some(Sort::Priority)
        } else if same(name, "name") {
            Some(Sort::Name)
        } else if same(name, "added") {
            Some(Sort::Added)
        } else if same(name, "modified") {
            Some(Sort::Modified)
        } else {
            None
        }
    }
}

/// Which due dates a view shows. Each span takes in what is overdue too:
/// "due this week" is everything to be done by its end.
#[derive(Debug, Clone, Copy, PartialEq, Eq, Structural)]
pub enum DueFilter {
    Any,
    Today,
    Week,
    Seven,
    Month,
    NoDate,
}

impl Default for DueFilter {
    fn default() -> (r: DueFilter)
        ensures
            r == DueFilter::Any,
    {
        DueFilter::Any
    }
}

/// The last day of the week that day `n` is in.
pub open spec fn week_end(n: int, sunday_first: bool) -> int {
    if sunday_first {
        n + 6 - (weekday_of(n) + 1) % 7
    } else {
        n + 6 - weekday_of(n)
    }
}

impl DueFilter {
    pub const ALL: [DueFilter; 6] = [
        DueFilter::Any,
        DueFilter::Today,
        DueFilter::Week,
        DueFilter::Seven,
        DueFilter::Month,
        DueFilter::NoDate,
    ];

    pub open spec fn text(self) -> Seq<char> {
        match self {
            DueFilter::Any => "Any date"@,
            DueFilter::Today => "Due today"@,
            DueFilter::Week => "Due this week"@,
            DueFilter::Seven => "Due in the next 7 days"@,
            DueFilter::Month => "Due this month"@,
            DueFilter::NoDate => "No date"@,
        }
    }

    pub fn label(self) -> (r: &'static str)
        ensures
            r@ == self.text(),
    {
        match self {
            DueFilter::Any => "Any date",
            DueFilter::Today => "Due today",
            DueFilter::Week => "Due this week",
            DueFilter::Seven => "Due in the next 7 days",
            DueFilter::Month => "Due this month",
            DueFilter::NoDate => "No date",
        }
    }

    /// What a span is called where it is kept.
    pub open spec fn word(self) -> Seq<char> {
        match self {
            DueFilter::Any => "any"@,
            DueFilter::Today => "today"@,
            DueFilter::Week => "week"@,
            DueFilter::Seven => "seven"@,
            DueFilter::Month => "month"@,
            DueFilter::NoDate => "no-date"@,
        }
    }

    /// What it is called where it is kept.
    pub fn name(self) -> (r: &'static str)
        ensures
            r@ == self.word(),
    {
        match self {
            DueFilter::Any => "any",
            DueFilter::Today => "today",
            DueFilter::Week => "week",
            DueFilter::Seven => "seven",
            DueFilter::Month => "month",
            DueFilter::NoDate => "no-date",
        }
    }

    /// The one that is called so.
    pub fn named(name: &str) -> (r: Option<DueFilter>)
        ensures
            match r {
                Some(s) => s.word() == name@,
                None => forall|s: DueFilter| #[trigger] s.word() != name@,
            },
    {
        if same(name, "any") {
            Some(DueFilter::Any)
        } else if same(name, "today") {
            Some(DueFilter::Today)
        } else if same(name, "week") {
            Some(DueFilter::Week)
        } else if same(name, "seven") {
            Some(DueFilter::Seven)
        } else if same(name, "month") {
            Some(DueFilter::Month)
        } else if same(name, "no-date") {
            Some(DueFilter::NoDate)
        } else {
            None
        }
    }

    /// The last day of a span, as a number.
    pub open spec fn span_end(self, today: int, sunday_first: bool) -> int {
        match self {
            DueFilter::Week => week_end(today, sunday_first),
            DueFilter::Seven => today + 6,
            DueFilter::Month => month_end(today),
            _ => today,
        }
    }

    /// A due date passes the filter.
    pub open spec fn lets(self, due: Option<Date>, today: int, sunday_first: bool) -> bool {
        match self {
            DueFilter::Any => true,
            DueFilter::NoDate => due is None,
            _ => due matches Some(d) && d.ce <= self.span_end(today, sunday_first),
        }
    }

    pub fn keeps(self, due: Option<Date>, today: Date, sunday_first: bool) -> (r: bool)
        requires
            today.wf(),
            self is Month ==> month_end(today.ce as int) < LAST_DAY,
            self.span_end(today.ce as int, sunday_first) <= LAST_DAY,
        ensures
            r == self.lets(due, today.ce as int, sunday_first),
    {
        let last: Date = match self {
            DueFilter::Any => {
                return true;
            },
            DueFilter::NoDate => {
                return due.is_none();
            },
            DueFilter::Today => today,
            DueFilter::Week => {
                let first: u32 = if sunday_first {
                    6
                } else {
                    0
                };
                let into: u32 = (7 + today.weekday() - first) % 7;
                today.plus(6 - into as i32)
            },
            DueFilter::Seven => today.plus(6),
            DueFilter::Month => last_day(today),
        };
        match due {
            Some(d) => d.ce <= last.ce,
            None => false,
        }
    }
}

/// An order that is kept is found again by its name, and so is a span of due
/// dates.
pub proof fn names_are_own(a: Sort, b: Sort, c: DueFilter, d: DueFilter)
    ensures
        a.word() == b.word() ==> a == b,
        c.word() == d.word() ==> c == d,
{
    reveal_strlit("custom");
    reveal_strlit("due");
    reveal_strlit("priority");
    reveal_strlit("name");
    reveal_strlit("added");
    reveal_strlit("modified");
    reveal_strlit("any");
    reveal_strlit("today");
    reveal_strlit("week");
    reveal_strlit("seven");
    reveal_strlit("month");
    reveal_strlit("no-date");
    assert("custom"@[0] == 'c' && "due"@[0] == 'd' && "priority"@[0] == 'p' && "name"@[0] == 'n');
    assert("added"@[0] == 'a' && "modified"@[0] == 'm');
    assert("any"@[0] == 'a' && "today"@[0] == 't' && "week"@[0] == 'w' && "seven"@[0] == 's');
    assert("month"@[0] == 'm' && "no-date"@[0] == 'n');
}

/// Each span takes in what is overdue or due today, and the next seven days
/// all of this week; a task without a date is only in "Any date" and
/// "No date".
pub proof fn spans_take_in_overdue(due: Date, today: Date, sunday_first: bool)
    requires
        today.wf(),
    ensures
        due.ce <= today.ce ==> forall|f: DueFilter|
            f != DueFilter::NoDate ==> #[trigger] f.lets(Some(due), today.ce as int, sunday_first),
        DueFilter::Week.lets(Some(due), today.ce as int, sunday_first) ==> DueFilter::Seven.lets(
            Some(due),
            today.ce as int,
            sunday_first,
        ),
        forall|f: DueFilter| #[trigger]
            f.lets(None, today.ce as int, sunday_first) == (f == DueFilter::Any || f
                == DueFilter::NoDate),
        !DueFilter::NoDate.lets(Some(due), today.ce as int, sunday_first),
{
    crate::date::month_end_is_in_month(today.ce as int);
}

/// How one view is shown, remembered per view.
#[derive(Debug, PartialEq, Eq)]
pub struct ViewOpts {
    /// Unset: the view's own default.
    pub sort: Option<Sort>,
    /// Last first, for any order but the custom one.
    pub descending: bool,
    pub show_completed: bool,
    /// Priorities 1–4 shown.
    pub priorities: [bool; 4],
    pub due: DueFilter,
    /// Lists left out (hrefs): Completed can show just some.
    pub hide_lists: Vec<String>,
}

/// View options, with the lists left out by their addresses' texts.
#[verifier::ext_equal]
pub struct OptsView {
    pub sort: Option<Sort>,
    pub descending: bool,
    pub show_completed: bool,
    pub priorities: Seq<bool>,
    pub due: DueFilter,
    pub hide_lists: Seq<Seq<char>>,
}

impl View for ViewOpts {
    type V = OptsView;

    open spec fn view(&self) -> OptsView {
        OptsView {
            sort: self.sort,
            descending: self.descending,
            show_completed: self.show_completed,
            priorities: self.priorities@,
            due: self.due,
            hide_lists: crate::text::texts(self.hide_lists@),
        }
    }
}

impl OptsView {
    /// The sort a view is shown in.
    pub open spec fn sort_of(self, n: NavView) -> Sort {
        match self.sort {
            Some(s) => s,
            None => own_sort(n),
        }
    }
}

/// How a view is shown before anything is chosen.
pub open spec fn plain_opts() -> OptsView {
    OptsView {
        sort: None,
        descending: false,
        show_completed: false,
        priorities: seq![true, true, true, true],
        due: DueFilter::Any,
        hide_lists: Seq::empty(),
    }
}

impl Default for ViewOpts {
    fn default() -> (r: ViewOpts)
        ensures
            r@ == plain_opts(),
    {
        let r = ViewOpts {
            sort: None,
            descending: false,
            show_completed: false,
            priorities: [true, true, true, true],
            due: DueFilter::Any,
            hide_lists: Vec::new(),
        };
        assert(r@ =~= plain_opts());
        r
    }
}

impl Clone for ViewOpts {
    fn clone(&self) -> (r: ViewOpts)
        ensures
            r@ == self@,
    {
        let r = ViewOpts {
            sort: self.sort,
            descending: self.descending,
            show_completed: self.show_completed,
            priorities: self.priorities,
            due: self.due,
            hide_lists: crate::text::copy_texts(&self.hide_lists),
        };
        assert(r@ =~= self@);
        r
    }
}

impl ViewOpts {
    pub fn sort_for(&self, nav: &Nav) -> (r: Sort)
        ensures
            r == self@.sort_of(nav@),
    {
        match self.sort {
            Some(s) => s,
            None => nav.default_sort(),
        }
    }

    /// Something keeps tasks out of the view.
    pub fn filtered(&self) -> (r: bool)
        ensures
            r == (self@.priorities.contains(false) || self@.due != DueFilter::Any
                || self@.hide_lists.len() > 0),
    {
        let p = &self.priorities;
        let all: bool = p[0] && p[1] && p[2] && p[3];
        proof {
            let s = self.priorities@;
            if all {
                assert(!s.contains(false));
            } else {
                assert(s[0] == false || s[1] == false || s[2] == false || s[3] == false);
            }
        }
        !all || self.due != DueFilter::Any || self.hide_lists.len() > 0
    }
}

} // verus!
