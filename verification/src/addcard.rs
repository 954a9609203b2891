//! The card that adds a task: where the task goes, what was chosen for it,
//! and the task that typing and choices come to.

use vstd::prelude::*;
use vstd::string::*;

use crate::change::{AddSpec, NewDue};
use crate::date::Date;
use crate::nav::{find_list, list_at};
use crate::number::{decimal, decimal_text};
use crate::plan::{inbox, inbox_of};
use crate::remind::{abs, span, span_text};
use crate::schedule::Schedule;
use crate::task::{ListView, Task, Trigger, When};
use crate::text::{
    blank, chars, contains, copy_texts, find_char, first_of, glue, glue3, has, is_blank, is_white,
    lemma_first_of, lower_text, lowercase_text, same, text, text_of, text_opt, texts, trim, trim_back,
    trim_end, trim_text, white,
};
use crate::words::{capital, capitalize};

verus! {

// -- where and what -----------------------------------------------------------------------

/// Where a task added from the card goes.
#[derive(Debug, PartialEq, Eq)]
pub enum Target {
    List(String),
    Day(Date),
    /// The inbox, or whatever the text says.
    Anywhere,
}

/// A target, with its list by the text of the list's address.
pub enum TargetView {
    List(Seq<char>),
    Day(Date),
    Anywhere,
}

impl View for Target {
    type V = TargetView;

    open spec fn view(&self) -> TargetView {
        match self {
            Target::List(h) => TargetView::List(h@),
            Target::Day(d) => TargetView::Day(*d),
            Target::Anywhere => TargetView::Anywhere,
        }
    }
}

impl Clone for Target {
    fn clone(&self) -> (r: Target)
        ensures
            r == *self,
    {
        match self {
            Target::List(h) => Target::List(h.clone()),
            Target::Day(d) => Target::Day(*d),
            Target::Anywhere => Target::Anywhere,
        }
    }
}

impl Target {
    /// Whether two are the same place.
    pub fn is(&self, other: &Target) -> (r: bool)
        ensures
            r == (self@ == other@),
    {
        match (self, other) {
            (Target::List(a), Target::List(b)) => *a == *b,
            (Target::Day(a), Target::Day(b)) => *a == *b,
            (Target::Anywhere, Target::Anywhere) => true,
            _ => false,
        }
    }
}

/// What was chosen with the card's buttons.
#[derive(Debug, Clone)]
pub struct Chosen {
    pub schedule: Option<Schedule>,
    pub priority: Option<u8>,
    pub list: Option<String>,
    pub alarms: Option<Vec<Trigger>>,
}

impl Default for Chosen {
    fn default() -> (r: Chosen)
        ensures
            r == nothing_chosen(),
    {
        Chosen { schedule: None, priority: None, list: None, alarms: None }
    }
}

pub open spec fn nothing_chosen() -> Chosen {
    Chosen { schedule: None, priority: None, list: None, alarms: None }
}

/// What was read in the text.
#[derive(Debug, Clone)]
pub struct Parsed {
    pub due: Option<When>,
    pub rrule: Option<String>,
    pub priority: Option<u8>,
    pub list: Option<String>,
    pub alarm: Option<Trigger>,
    /// What was found in the text, in order.
    pub found: Vec<Found>,
}

/// A thing found in the text.
#[derive(Debug, Clone, Copy, PartialEq, Eq, Structural)]
pub enum Found {
    List,
    Priority,
    Date,
    Repeat,
    Alarm,
}

/// The card.
#[derive(Debug)]
pub struct AddCard {
    pub chosen: Chosen,
    pub target: Target,
    /// 1 to 4: what a task gets when neither the text nor a button says.
    pub default_priority: u8,
    pub read_dates: bool,
    /// Notes that every task it adds is linked to, by their full paths.
    pub linked: Vec<String>,
}

/// The list a task goes to when the text names none: the chosen one, the
/// target's, or the inbox.
pub open spec fn list_for(c: AddCard, lists: Seq<ListView>) -> Option<Seq<char>> {
    match (c.chosen.list, c.target) {
        (Some(h), _) => Some(h@),
        (None, Target::List(h)) => Some(h@),
        _ => match inbox_of(lists) {
            Some(l) => Some(l.href@),
            None => None,
        },
    }
}

/// The priority a task gets: the chosen one, the one in the text, or the
/// default.
pub open spec fn priority_for(c: AddCard, p: Parsed) -> u8 {
    match (c.chosen.priority, p.priority) {
        (Some(n), _) => n,
        (None, Some(n)) => n,
        (None, None) => c.default_priority,
    }
}

/// The date a task gets: the chosen one, the one in the text, or the
/// target's day.
pub open spec fn due_for(c: AddCard, p: Parsed) -> Option<NewDue> {
    match c.chosen.schedule {
        Some(s) => match s.due {
            Some(w) => Some(NewDue::At(w)),
            None => None,
        },
        None => match (p.due, c.target) {
            (Some(w), _) => Some(NewDue::At(w)),
            (None, Target::Day(d)) => Some(NewDue::Day(d)),
            _ => None,
        },
    }
}

/// A task with a title, a date and the reminders that were chosen, and
/// nothing else yet.
pub open spec fn is_draft(c: AddCard, title: Seq<char>, due: Option<When>, r: Task) -> bool {
    &&& r.summary@ == title && r.due == due
    &&& r.alarms@ == (match c.chosen.alarms {
        Some(v) => v@,
        None => Seq::empty(),
    })
    &&& r.open && r.level == 4 && r.uid@.len() == 0 && r.linked_notes@.len() == 0
    &&& r.description is None && r.completed is None && r.start is None && r.rrule is None
    &&& r.url is None && r.source is None && r.sort_order is None
    &&& r.created is None && r.modified is None
}

/// The text of the date button, given the words for the date.
pub open spec fn date_text(c: AddCard, label: Seq<char>) -> Seq<char> {
    match (c.chosen.schedule, c.target) {
        (Some(s), _) => if s.due is None {
            "No date"@
        } else if s.rrule is Some {
            capital(label) + " ↻"@
        } else {
            capital(label)
        },
        (None, Target::Day(_)) => capital(label),
        (None, _) => "Date"@,
    }
}

/// The task that the card adds: what is asked of the daemon leaves out what
/// the daemon reads in the text itself.
pub open spec fn spec_of(c: AddCard, typed: Seq<char>, notes: Seq<char>, p: Parsed, s: AddSpec) -> bool {
    &&& s.text@ == trim(typed)
    &&& s.parse
    &&& s.keep_dates == !c.read_dates
    &&& text_opt(s.description) == (if blank(trim_end(notes)) {
        None
    } else {
        Some(trim_end(notes))
    })
    &&& s.alarms == c.chosen.alarms
    &&& s.due == (match c.chosen.schedule {
        Some(x) => match x.due {
            Some(w) => Some(NewDue::At(w)),
            None => None,
        },
        None => match (p.due, c.target) {
            (None, Target::Day(d)) => Some(NewDue::Day(d)),
            _ => None,
        },
    })
    &&& s.rrule == (match c.chosen.schedule {
        Some(x) => x.rrule,
        None => None,
    })
    &&& s.priority == (match c.chosen.priority {
        Some(n) => Some(n),
        None => if p.priority is None && c.default_priority < 4 {
            Some(c.default_priority)
        } else {
            None
        },
    })
    &&& text_opt(s.list) == (match (c.chosen.list, c.target) {
        (Some(h), _) => Some(h@),
        (None, Target::List(h)) if p.list is None => Some(h@),
        _ => None,
    })
    &&& s.due_text is None && s.repeat_text is None && s.url is None && s.source is None
    &&& texts(s.linked_notes@) == texts(c.linked@)
}

impl AddCard {
    pub fn new() -> (r: AddCard)
        ensures
            r == (AddCard {
                chosen: nothing_chosen(),
                target: Target::Anywhere,
                default_priority: 4,
                read_dates: true,
                linked: r.linked,
            }),
            r.linked@.len() == 0,
    {
        AddCard {
            chosen: Chosen::default(),
            target: Target::Anywhere,
            default_priority: 4,
            read_dates: true,
            linked: Vec::new(),
        }
    }

    /// Notes that every task it adds from now on is linked to.
    pub fn set_linked(&mut self, linked: Vec<String>)
        ensures
            *final(self) == (AddCard { linked, ..*old(self) }),
    {
        self.linked = linked;
    }

    /// Shows it for a new place: what was chosen for the last one goes.
    pub fn open(&mut self, target: Target)
        ensures
            *final(self) == (AddCard { target, chosen: nothing_chosen(), ..*old(self) }),
    {
        self.target = target;
        self.chosen = Chosen::default();
    }

    /// Where tasks go when nothing else says, keeping what was chosen.
    pub fn set_target(&mut self, target: Target)
        ensures
            *final(self) == (AddCard { target, ..*old(self) }),
    {
        self.target = target;
    }

    /// The preferences for new tasks: a priority (1 to 4) and whether dates
    /// in the title count.
    pub fn set_defaults(&mut self, priority: u8, read_dates: bool)
        ensures
            *final(self) == (AddCard {
                default_priority: if priority < 1 {
                    1
                } else if priority > 4 {
                    4
                } else {
                    priority
                },
                read_dates,
                ..*old(self)
            }),
    {
        self.default_priority = if priority < 1 {
            1
        } else if priority > 4 {
            4
        } else {
            priority
        };
        self.read_dates = read_dates;
    }

    pub fn list_href(&self, lists: &[ListView]) -> (r: Option<String>)
        ensures
            text_opt(r) == list_for(*self, lists@),
    {
        match (&self.chosen.list, &self.target) {
            (Some(h), _) => Some(h.clone()),
            (None, Target::List(h)) => Some(h.clone()),
            _ => match inbox(lists) {
                Some(l) => Some(l.href.clone()),
                None => None,
            },
        }
    }

    /// The name on the list button.
    pub fn list_name(&self, lists: &[ListView]) -> (r: String)
        ensures
            r@ == (match list_for(*self, lists@) {
                Some(h) => match list_at(lists@, h) {
                    Some(l) => l.name@,
                    None => "Inbox"@,
                },
                None => "Inbox"@,
            }),
    {
        match self.list_href(lists) {
            Some(h) => match find_list(lists, h.as_str()) {
                Some(l) => l.name.clone(),
                None => String::from_str("Inbox"),
            },
            None => String::from_str("Inbox"),
        }
    }

    pub fn priority(&self, p: &Parsed) -> (r: u8)
        ensures
            r == priority_for(*self, *p),
    {
        match (self.chosen.priority, p.priority) {
            (Some(n), _) => n,
            (None, Some(n)) => n,
            (None, None) => self.default_priority,
        }
    }

    /// The date of the task as it would be added, for the reminder picker to
    /// work from.
    pub fn draft_due(&self, p: &Parsed) -> (r: Option<NewDue>)
        ensures
            r == due_for(*self, *p),
    {
        match &self.chosen.schedule {
            Some(s) => match s.due {
                Some(w) => Some(NewDue::At(w)),
                None => None,
            },
            None => match (p.due, &self.target) {
                (Some(w), _) => Some(NewDue::At(w)),
                (None, Target::Day(d)) => Some(NewDue::Day(*d)),
                _ => None,
            },
        }
    }

    /// The task as it would be added, with what its reminders go by.
    pub fn draft(&self, title: &str, due: Option<When>) -> (r: Task)
        ensures
            is_draft(*self, title@, due, r),
    {
        let mut alarms: Vec<Trigger> = Vec::new();
        if let Some(v) = &self.chosen.alarms {
            for i in 0..v.len()
                invariant
                    alarms@ == v@.take(i as int),
            {
                alarms.push(v[i]);
            }
            assert(v@.take(v@.len() as int) == v@);
        }
        Task {
            uid: String::new(),
            summary: String::from_str(title),
            description: None,
            open: true,
            completed: None,
            level: 4,
            due,
            start: None,
            rrule: None,
            alarms,
            url: None,
            source: None,
            linked_notes: Vec::new(),
            sort_order: None,
            created: None,
            modified: None,
        }
    }

    /// The text of the date button, given the words for the date.
    pub fn date_label(&self, label: &str) -> (r: String)
        ensures
            r@ == date_text(*self, label@),
    {
        match (&self.chosen.schedule, &self.target) {
            (Some(s), _) => if s.due.is_none() {
                String::from_str("No date")
            } else if s.rrule.is_some() {
                glue(capitalize(label).as_str(), " ↻")
            } else {
                capitalize(label)
            },
            (None, Target::Day(_)) => capitalize(label),
            (None, _) => String::from_str("Date"),
        }
    }

    /// Adds the task: nothing without a title. The date and the reminders
    /// that were chosen go with it; the list and the priority stay for the
    /// next one.
    pub fn submit(&mut self, typed: &str, notes: &str, p: &Parsed) -> (r: Option<AddSpec>)
        ensures
            r is Some == (trim(typed@).len() > 0),
            r matches Some(s) ==> spec_of(*old(self), typed@, notes@, *p, s),
            r is None ==> *final(self) == *old(self),
            r is Some ==> *final(self) == (AddCard {
                chosen: Chosen { schedule: None, alarms: None, ..old(self).chosen },
                ..*old(self)
            }),
    {
        let title = trim_text(typed);
        if title.as_str().is_empty() {
            return None;
        }
        let t = trim_back(notes);
        let description: Option<String> = if is_blank(t.as_str()) {
            None
        } else {
            Some(t)
        };
        let schedule = self.chosen.schedule.take();
        let (due, rrule): (Option<NewDue>, Option<String>) = match schedule {
            Some(s) => (
                match s.due {
                    Some(w) => Some(NewDue::At(w)),
                    None => None,
                },
                s.rrule,
            ),
            None => (
                match (p.due, &self.target) {
                    (None, Target::Day(d)) => Some(NewDue::Day(*d)),
                    _ => None,
                },
                None,
            ),
        };
        let priority: Option<u8> = match self.chosen.priority {
            Some(n) => Some(n),
            None => if p.priority.is_none() && self.default_priority < 4 {
                Some(self.default_priority)
            } else {
                None
            },
        };
        let list: Option<String> = match (&self.chosen.list, &self.target) {
            (Some(h), _) => Some(h.clone()),
            (None, Target::List(h)) => if p.list.is_none() {
                Some(h.clone())
            } else {
                None
            },
            _ => None,
        };
        let alarms = self.chosen.alarms.take();
        Some(
            AddSpec {
                text: title,
                parse: true,
                keep_dates: !self.read_dates,
                list,
                due,
                due_text: None,
                rrule,
                repeat_text: None,
                priority,
                description,
                url: None,
                source: None,
                alarms,
                linked_notes: copy_texts(&self.linked),
            },
        )
    }
}

/// Text from elsewhere: its first line is the title, the rest goes in the
/// notes.
pub open spec fn filled(text: Seq<char>) -> (Seq<char>, Seq<char>) {
    let t = trim(text);
    match first_of(t, '\n') {
        Some(i) => (trim(t.take(i)), trim(t.skip(i + 1))),
        None => (trim(t), Seq::empty()),
    }
}

/// Text from elsewhere (the clipboard): its first line is the title, the
/// rest goes in the notes.
pub fn fill(text: &str) -> (r: (String, String))
    ensures
        (r.0@, r.1@) == filled(text@),
{
    let t = chars(trim_text(text).as_str());
    assert(t@.skip(0) == t@);
    proof {
        lemma_first_of(t@, '\n');
    }
    match find_char(&t, '\n', 0) {
        Some(i) => {
            let (a, b) = (text_of(&t, 0, i), text_of(&t, i + 1, t.len()));
            assert(a@ == t@.take(i as int));
            assert(b@ == t@.skip(i + 1));
            (trim_text(a.as_str()), trim_text(b.as_str()))
        },
        None => (trim_text(text_of(&t, 0, t.len()).as_str()), {
            assert(t@.subrange(0, t@.len() as int) == t@);
            String::new()
        }),
    }
}

// -- lists as they are typed --------------------------------------------------------------

/// Where the word before `end` starts.
pub open spec fn word_start(s: Seq<char>, end: int) -> int
    decreases end,
{
    if end <= 0 || white(s[end - 1]) {
        end
    } else {
        word_start(s, end - 1)
    }
}

/// The `#word` before the cursor: where it starts and ends, when there is
/// one.
pub open spec fn hash_at(s: Seq<char>, cursor: int) -> Option<(int, int)> {
    let end = if cursor < s.len() {
        cursor
    } else {
        s.len() as int
    };
    let start = word_start(s, end);
    if start < end && s[start] == '#' {
        Some((start, end))
    } else {
        None
    }
}

/// The `#word` at the cursor: where it starts and ends (characters), and what
/// follows the `#`, in lowercase.
pub fn hash_word(typed: &str, cursor: usize) -> (r: Option<(usize, usize, String)>)
    ensures
        match r {
            Some((a, b, w)) => hash_at(typed@, cursor as int) == Some((a as int, b as int)) && w@
                == lowercase_text(typed@.subrange(a + 1, b as int)) && a < b <= typed@.len(),
            None => hash_at(typed@, cursor as int) is None,
        },
{
    let s = chars(typed);
    let end: usize = if cursor < s.len() {
        cursor
    } else {
        s.len()
    };
    let mut start: usize = end;
    while start > 0 && !is_white(s[start - 1])
        invariant
            start <= end <= s@.len(),
            word_start(s@, start as int) == word_start(s@, end as int),
        decreases start,
    {
        start -= 1;
    }
    if start < end && s[start] == '#' {
        let word = text_of(&s, start + 1, end);
        Some((start, end, lower_text(word.as_str())))
    } else {
        None
    }
}

pub open spec fn not_white() -> spec_fn(char) -> bool {
    |c: char| !white(c)
}

/// A name without the white space in it.
pub open spec fn squeezed(s: Seq<char>) -> Seq<char> {
    s.filter(not_white())
}

fn squeeze(s: &str) -> (r: String)
    ensures
        r@ == squeezed(s@),
{
    let v = chars(s);
    let mut out = String::new();
    proof {
        reveal(Seq::filter);
        assert(out@ =~= squeezed(v@.take(0)));
    }
    for i in 0..v.len()
        invariant
            out@ == squeezed(v@.take(i as int)),
    {
        proof {
            reveal(Seq::filter);
            assert(v@.take(i + 1).drop_last() == v@.take(i as int));
            assert(v@.take(i + 1).last() == v@[i as int]);
        }
        if !is_white(v[i]) {
            out.push(v[i]);
        }
    }
    assert(v@.take(v@.len() as int) == v@);
    out
}

/// A list that a `#word` may mean: its name has the word, and says more.
pub open spec fn suggested(word: Seq<char>) -> spec_fn(ListView) -> bool {
    |l: ListView|
        l.writable && contains(lowercase_text(squeezed(l.name@)), word) && lowercase_text(
            squeezed(l.name@),
        ) != word
}

/// The first `n`, or all when there are fewer.
pub open spec fn at_most(s: Seq<ListView>, n: int) -> Seq<ListView> {
    if s.len() < n {
        s
    } else {
        s.take(n)
    }
}

/// The lists that a `#word` may mean, up to eight.
pub fn suggest_lists<'a>(lists: &'a [ListView], word: &str) -> (r: Vec<&'a ListView>)
    ensures
        crate::prefs::plain_lists(r@) == at_most(lists@.filter(suggested(word@)), 8),
{
    let mut out: Vec<&'a ListView> = Vec::new();
    let ghost s = lists@;
    let ghost p = suggested(word@);
    proof {
        reveal(Seq::filter);
        assert(crate::prefs::plain_lists(out@) =~= s.take(0).filter(p));
    }
    for i in 0..lists.len()
        invariant
            s == lists@,
            p == suggested(word@),
            crate::prefs::plain_lists(out@) == s.take(i as int).filter(p),
    {
        let ghost before = crate::prefs::plain_lists(out@);
        proof {
            reveal(Seq::filter);
            assert(s.take(i + 1).drop_last() == s.take(i as int));
            assert(s.take(i + 1).last() == s[i as int]);
        }
        let name = lower_text(squeeze(lists[i].name.as_str()).as_str());
        if lists[i].writable && has(name.as_str(), word) && !same(name.as_str(), word) {
            out.push(&lists[i]);
            assert(crate::prefs::plain_lists(out@) =~= before.push(s[i as int]));
        }
    }
    assert(s.take(s.len() as int) == s);
    let ghost all = crate::prefs::plain_lists(out@);
    if out.len() > 8 {
        out.truncate(8);
        assert(crate::prefs::plain_lists(out@) =~= all.take(8));
    } else {
        assert(all.len() == 8 ==> all.take(8) == all);
    }
    out
}

/// The place after or before one of `count`, going around at the ends.
pub open spec fn around(at: int, count: int, down: bool) -> int {
    if count == 0 {
        0
    } else if down {
        if at + 1 == count {
            0
        } else {
            at + 1
        }
    } else if at == 0 {
        count - 1
    } else {
        at - 1
    }
}

/// The suggestion after or before one, going around at the ends.
pub fn move_suggestion(at: usize, count: usize, down: bool) -> (r: usize)
    requires
        at < count || count == 0,
    ensures
        r == around(at as int, count as int, down),
        r < count || count == 0,
{
    if count == 0 {
        0
    } else if down {
        if at + 1 == count {
            0
        } else {
            at + 1
        }
    } else if at == 0 {
        count - 1
    } else {
        at - 1
    }
}

/// Going one way and back again leads to the same place.
pub proof fn around_and_back(at: int, count: int, down: bool)
    requires
        0 <= at < count,
    ensures
        around(around(at, count, down), count, !down) == at,
{
}

/// The text with the `#word` replaced by a list's name, and where the cursor
/// then is.
pub open spec fn with_list(s: Seq<char>, cursor: int, name: Seq<char>) -> Option<(Seq<char>, int)> {
    match hash_at(s, cursor) {
        None => None,
        Some((a, b)) => {
            let word = "#"@ + squeezed(name) + " "@;
            Some((s.take(a) + word + s.skip(b), a + word.len()))
        },
    }
}

/// Puts the chosen list's name in place of the `#word`.
pub fn take_suggestion(typed: &str, cursor: usize, name: &str) -> (r: Option<(String, usize)>)
    requires
        typed@.len() + name@.len() + 2 <= usize::MAX,
    ensures
        match r {
            Some((t, c)) => with_list(typed@, cursor as int, name@) == Some((t@, c as int)),
            None => with_list(typed@, cursor as int, name@) is None,
        },
{
    match hash_word(typed, cursor) {
        None => None,
        Some((a, b, _)) => {
            let s = chars(typed);
            let word = glue3("#", squeeze(name).as_str(), " ");
            proof {
                name@.lemma_filter_len(not_white());
                reveal_strlit("#");
                reveal_strlit(" ");
            }
            let n = chars(word.as_str()).len();
            let mut out = text_of(&s, 0, a);
            out.append(word.as_str());
            out.append(text_of(&s, b, s.len()).as_str());
            assert(s@.subrange(0, a as int) == typed@.take(a as int));
            assert(s@.subrange(b as int, s@.len() as int) == typed@.skip(b as int));
            Some((out, a + n))
        },
    }
}

// -- what the text was read as ------------------------------------------------------------

/// The words for what was read: for the date, the repeat, and the moment of a
/// reminder.
#[derive(Debug)]
pub struct Labels {
    pub due: String,
    pub repeat: String,
    pub alarm: String,
}

/// A label with its class.
pub open spec fn chips_for(f: Found, p: Parsed, l: Labels) -> Seq<(Seq<char>, Seq<char>)> {
    match f {
        Found::List => match p.list {
            Some(n) => seq![("#"@ + n@, "list"@)],
            None => Seq::empty(),
        },
        Found::Priority => match p.priority {
            Some(n) => seq![
                (
                    "p"@ + decimal(n as nat),
                    if n == 1 {
                        "p1"@
                    } else {
                        "priority"@
                    },
                ),
            ],
            None => Seq::empty(),
        },
        Found::Date => if p.due is Some {
            seq![(l.due@, "due"@)]
        } else {
            Seq::empty()
        },
        Found::Repeat => if p.rrule is Some && p.due is Some {
            seq![("↻ "@ + l.repeat@, "repeat"@), ("from "@ + l.due@, "due"@)]
        } else {
            Seq::empty()
        },
        Found::Alarm => match p.alarm {
            Some(Trigger::Relative { offset, .. }) => if abs(offset as int) < 60 {
                seq![("⏰ at the due time"@, "alarm"@)]
            } else {
                seq![("⏰ "@ + span_text(offset as int) + " before"@, "alarm"@)]
            },
            Some(Trigger::Absolute { .. }) => seq![("⏰ "@ + l.alarm@, "alarm"@)],
            None => seq![("⏰ needs a due date"@, "alarm"@)],
        },
    }
}

pub open spec fn all_chips(f: Seq<Found>, p: Parsed, l: Labels) -> Seq<(Seq<char>, Seq<char>)>
    decreases f.len(),
{
    if f.len() == 0 {
        Seq::empty()
    } else {
        all_chips(f.drop_last(), p, l) + chips_for(f.last(), p, l)
    }
}

pub open spec fn chip_views(v: Seq<(String, &'static str)>) -> Seq<(Seq<char>, Seq<char>)> {
    v.map_values(|e: (String, &'static str)| (e.0@, e.1@))
}

fn push_chip(out: &mut Vec<(String, &'static str)>, text: String, class: &'static str)
    ensures
        chip_views(final(out)@) == chip_views(old(out)@).push((text@, class@)),
{
    out.push((text, class));
    assert(chip_views(out@) =~= chip_views(old(out)@).push((text@, class@)));
}

/// What the parser understood, as small labels.
pub fn chips(p: &Parsed, l: &Labels) -> (r: Vec<(String, &'static str)>)
    ensures
        chip_views(r@) == all_chips(p.found@, *p, *l),
{
    let mut out: Vec<(String, &'static str)> = Vec::new();
    assert(chip_views(out@) == all_chips(p.found@.take(0), *p, *l));
    for i in 0..p.found.len()
        invariant
            chip_views(out@) == all_chips(p.found@.take(i as int), *p, *l),
    {
        let ghost before = chip_views(out@);
        proof {
            assert(p.found@.take(i + 1).drop_last() == p.found@.take(i as int));
            assert(p.found@.take(i + 1).last() == p.found@[i as int]);
        }
        match p.found[i] {
            Found::List => {
                if let Some(n) = &p.list {
                    push_chip(&mut out, glue("#", n.as_str()), "list");
                }
            },
            Found::Priority => {
                if let Some(n) = p.priority {
                    let class = if n == 1 {
                        "p1"
                    } else {
                        "priority"
                    };
                    push_chip(&mut out, glue("p", decimal_text(n as u64).as_str()), class);
                }
            },
            Found::Date => {
                if p.due.is_some() {
                    push_chip(&mut out, l.due.clone(), "due");
                }
            },
            Found::Repeat => {
                if p.rrule.is_some() && p.due.is_some() {
                    push_chip(&mut out, glue("↻ ", l.repeat.as_str()), "repeat");
                    push_chip(&mut out, glue("from ", l.due.as_str()), "due");
                }
            },
            Found::Alarm => match p.alarm {
                Some(Trigger::Relative { offset, .. }) => {
                    if -60 < offset && offset < 60 {
                        push_chip(&mut out, String::from_str("⏰ at the due time"), "alarm");
                    } else {
                        push_chip(
                            &mut out,
                            glue3("⏰ ", span(offset).as_str(), " before"),
                            "alarm",
                        );
                    }
                },
                Some(Trigger::Absolute { .. }) => {
                    push_chip(&mut out, glue("⏰ ", l.alarm.as_str()), "alarm");
                },
                None => {
                    push_chip(&mut out, String::from_str("⏰ needs a due date"), "alarm");
                },
            },
        }
        assert(chip_views(out@) =~= before + chips_for(p.found@[i as int], *p, *l));
    }
    assert(p.found@.take(p.found@.len() as int) == p.found@);
    out
}

} // verus!
