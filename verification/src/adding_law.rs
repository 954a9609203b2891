//! What goes into a task that is added: with the card, with quick add, and
//! from the terminal.

use vstd::prelude::*;

use crate::addcard::{
    AddCard, Found, Labels, Parsed, Target, chips_for, fill, hash_word, suggest_lists,
    take_suggestion,
};
use crate::change::{AddSpec, NewDue};
use crate::cli::{AddArgs, add_spec};
use crate::quickadd::{AddedTo, After, PopupDo, PopupKey, Pressed, QuickAdd, start_target};
use crate::task::{ListView, Task, Trigger, When};
use crate::text::{join, lowercase_text, texts, trim, white};

verus! {

// -- the card -----------------------------------------------------------------------------------

/// A schedule chosen with the card's button is the schedule of the task: its
/// date and its repeat, whatever was read in the text and wherever the card
/// was opened.
pub proof fn chosen_schedule_is_added(
    c: &mut AddCard,
    typed: &str,
    notes: &str,
    p: &Parsed,
    r: Option<AddSpec>,
)
    requires
        call_ensures(AddCard::submit, (c, typed, notes, p), r),
    ensures
        r matches Some(s) ==> (old(c).chosen.schedule matches Some(x) ==> s.rrule == x.rrule && (
        x.due matches Some(w) ==> s.due == Some(NewDue::At(w))) && (x.due is None ==> s.due
            is None)),
{
}

/// Without a schedule chosen the card sets no repeat, and no date but that of
/// the day it was opened on; and not that one either when the text has a
/// date, which is the daemon's to read.
pub proof fn unchosen_dates_are_left_to_the_text(
    c: &mut AddCard,
    typed: &str,
    notes: &str,
    p: &Parsed,
    r: Option<AddSpec>,
)
    requires
        old(c).chosen.schedule is None,
        call_ensures(AddCard::submit, (c, typed, notes, p), r),
    ensures
        r matches Some(s) ==> {
            &&& s.rrule is None && s.due_text is None && s.repeat_text is None
            &&& p.due is Some ==> s.due is None
            &&& p.due is None ==> (old(c).target matches Target::Day(d) ==> s.due == Some(
                NewDue::Day(d),
            ))
            &&& !(old(c).target is Day) ==> s.due is None
        },
{
}

/// The priority, the list and the reminders that were chosen go with the task
/// before anything else; then what the text says, then where the card was
/// opened and what new tasks get.
pub proof fn choices_go_first(
    c: &mut AddCard,
    typed: &str,
    notes: &str,
    p: &Parsed,
    r: Option<AddSpec>,
)
    requires
        call_ensures(AddCard::submit, (c, typed, notes, p), r),
    ensures
        r matches Some(s) ==> {
            &&& old(c).chosen.priority matches Some(n) ==> s.priority == Some(n)
            &&& old(c).chosen.priority is None && p.priority is Some ==> s.priority is None
            &&& old(c).chosen.priority is None && p.priority is None && old(c).default_priority < 4
                ==> s.priority == Some(old(c).default_priority)
            &&& old(c).chosen.priority is None && old(c).default_priority >= 4 ==> s.priority
                is None
            &&& old(c).chosen.list matches Some(h) ==> (s.list matches Some(l) && l@ == h@)
            &&& old(c).chosen.list is None && p.list is Some ==> s.list is None
            &&& old(c).chosen.list is None && p.list is None ==> (match old(c).target {
                Target::List(h) => s.list matches Some(l) && l@ == h@,
                _ => s.list is None,
            })
            &&& s.alarms == old(c).chosen.alarms
        },
{
}

/// A task is added when there is a title: all that was typed but the white
/// space around it, for the daemon to read, with dates left alone where those
/// do not count; the notes without what is blank after them; and the notes it
/// links to.
pub proof fn titles_and_notes_are_added(
    c: &mut AddCard,
    typed: &str,
    notes: &str,
    p: &Parsed,
    r: Option<AddSpec>,
)
    requires
        call_ensures(AddCard::submit, (c, typed, notes, p), r),
    ensures
        r is Some == (exists|i: int| 0 <= i < typed@.len() && !white(#[trigger] typed@[i])),
        r matches Some(s) ==> {
            &&& s.text@ == trim(typed@)
            &&& s.parse
            &&& s.keep_dates == !old(c).read_dates
            &&& s.description is Some == (exists|i: int|
                0 <= i < notes@.len() && !white(#[trigger] notes@[i]))
            &&& s.description matches Some(d) ==> {
                &&& d@.len() <= notes@.len() && d@ == notes@.take(d@.len() as int)
                &&& !white(d@.last())
                &&& forall|i: int| d@.len() <= i < notes@.len() ==> white(#[trigger] notes@[i])
            }
            &&& texts(s.linked_notes@) == texts(old(c).linked@)
            &&& s.url is None && s.source is None
        },
{
    crate::text::lemma_trim_blank(typed@);
    crate::text::lemma_trim_blank(notes@);
    let t = crate::text::trim_end(notes@);
    crate::text::lemma_trim_end(notes@);
    assert(crate::text::blank(notes@) == (forall|i: int|
        0 <= i < notes@.len() ==> white(#[trigger] notes@[i])));
    if crate::text::blank(t) {
        assert(t.len() == 0) by {
            if t.len() > 0 {
                assert(white(t[t.len() - 1]));
            }
        }
        assert forall|i: int| 0 <= i < notes@.len() implies white(#[trigger] notes@[i]) by {}
    } else {
        let i = choose|i: int| 0 <= i < t.len() && !white(t[i]);
        assert(notes@[i] == t[i]);
    }
    assert(crate::text::blank(typed@) == (forall|i: int|
        0 <= i < typed@.len() ==> white(#[trigger] typed@[i])));
}

/// For the next task the date and the reminders are chosen anew; the list and
/// the priority stay, and so does where the card is. Nothing added, nothing
/// changes.
pub proof fn dates_are_chosen_anew(
    c: &mut AddCard,
    typed: &str,
    notes: &str,
    p: &Parsed,
    r: Option<AddSpec>,
)
    requires
        call_ensures(AddCard::submit, (c, typed, notes, p), r),
    ensures
        r is Some ==> final(c).chosen.schedule is None && final(c).chosen.alarms is None,
        r is None ==> final(c).chosen == old(c).chosen,
        final(c).chosen.priority == old(c).chosen.priority,
        final(c).chosen.list == old(c).chosen.list,
        final(c).target == old(c).target,
        final(c).default_priority == old(c).default_priority,
        final(c).read_dates == old(c).read_dates,
        final(c).linked == old(c).linked,
{
}

/// The card shows what it will add: the date, the priority and the list that
/// the task would get.
pub proof fn the_card_shows_what_it_adds(
    c: &AddCard,
    p: &Parsed,
    lists: &[ListView],
    due: Option<NewDue>,
    level: u8,
    list: Option<String>,
)
    requires
        call_ensures(AddCard::draft_due, (c, p), due),
        call_ensures(AddCard::priority, (c, p), level),
        call_ensures(AddCard::list_href, (c, lists), list),
    ensures
        match (c.chosen.schedule, p.due, c.target) {
            (Some(x), _, _) => match x.due {
                Some(w) => due == Some(NewDue::At(w)),
                None => due is None,
            },
            (None, Some(w), _) => due == Some(NewDue::At(w)),
            (None, None, Target::Day(d)) => due == Some(NewDue::Day(d)),
            _ => due is None,
        },
        match (c.chosen.priority, p.priority) {
            (Some(n), _) => level == n,
            (None, Some(n)) => level == n,
            (None, None) => level == c.default_priority,
        },
        c.chosen.list matches Some(h) ==> (list matches Some(l) && l@ == h@),
        c.chosen.list is None ==> (c.target matches Target::List(h) ==> (list matches Some(l)
            && l@ == h@)),
        c.chosen.list is None && !(c.target is List) ==> match list {
            // The inbox, or else the first that can be written.
            Some(l) => exists|i: int|
                0 <= i < lists@.len() && (#[trigger] lists@[i]).href@ == l@ && (lists@[i].inbox || (
                lists@[i].writable && forall|j: int|
                    0 <= j < lists@.len() ==> !(#[trigger] lists@[j]).inbox)),
            None => forall|j: int|
                0 <= j < lists@.len() ==> !(#[trigger] lists@[j]).inbox && !lists@[j].writable,
        },
{
    lemma_inbox(lists@);
}

/// The inbox is the first list that says so, or else the first that can be
/// written.
proof fn lemma_inbox(lists: Seq<ListView>)
    ensures
        match crate::plan::inbox_of(lists) {
            Some(l) => exists|i: int|
                0 <= i < lists.len() && #[trigger] lists[i] == l && (l.inbox || (l.writable
                    && forall|j: int| 0 <= j < lists.len() ==> !(#[trigger] lists[j]).inbox)),
            None => forall|j: int|
                0 <= j < lists.len() ==> !(#[trigger] lists[j]).inbox && !lists[j].writable,
        },
{
    lemma_first_list(lists, |l: ListView| l.inbox);
    lemma_first_list(lists, |l: ListView| l.writable);
}

pub(crate) proof fn lemma_first_list(lists: Seq<ListView>, p: spec_fn(ListView) -> bool)
    ensures
        match crate::plan::first_list(lists, p) {
            Some(l) => exists|i: int|
                0 <= i < lists.len() && #[trigger] lists[i] == l && p(l) && forall|j: int|
                    0 <= j < i ==> !p(#[trigger] lists[j]),
            None => forall|j: int| 0 <= j < lists.len() ==> !p(#[trigger] lists[j]),
        },
    decreases lists.len(),
{
    if lists.len() > 0 {
        if p(lists[0]) {
            assert(lists[0] == lists[0]);
        } else {
            let t = lists.skip(1);
            lemma_first_list(t, p);
            match crate::plan::first_list(t, p) {
                Some(l) => {
                    let i = choose|i: int|
                        0 <= i < t.len() && #[trigger] t[i] == l && p(l) && forall|j: int|
                            0 <= j < i ==> !p(#[trigger] t[j]);
                    assert(lists[i + 1] == l);
                    assert forall|j: int| 0 <= j < i + 1 implies !p(#[trigger] lists[j]) by {
                        if j > 0 {
                            assert(t[j - 1] == lists[j]);
                        }
                    }
                },
                None => {
                    assert forall|j: int| 0 <= j < lists.len() implies !p(
                        #[trigger] lists[j],
                    ) by {
                        if j > 0 {
                            assert(t[j - 1] == lists[j]);
                        }
                    }
                },
            }
        }
    }
}

/// A draft has the title, the date and the reminders that were chosen.
pub proof fn drafts_have_the_reminders(c: &AddCard, title: &str, due: Option<When>, r: Task)
    requires
        call_ensures(AddCard::draft, (c, title, due), r),
    ensures
        r.summary@ == title@,
        r.due == due,
        c.chosen.alarms matches Some(v) ==> r.alarms@ == v@,
        c.chosen.alarms is None ==> r.alarms@.len() == 0,
        r.open,
{
}

/// The date button says the date that was chosen, with a mark when it
/// repeats, or that there is none.
pub proof fn the_date_button_says_the_date(c: &AddCard, label: &str, r: String)
    requires
        call_ensures(AddCard::date_label, (c, label), r),
    ensures
        c.chosen.schedule matches Some(x) ==> {
            &&& x.due is None ==> r@ == "No date"@
            &&& x.due is Some && x.rrule is Some ==> r@ == crate::words::capital(label@) + " ↻"@
            &&& x.due is Some && x.rrule is None ==> r@ == crate::words::capital(label@)
        },
        c.chosen.schedule is None && c.target is Day ==> r@ == crate::words::capital(label@),
        c.chosen.schedule is None && !(c.target is Day) ==> r@ == "Date"@,
{
}

/// Opening the card at a new place forgets what was chosen for the last one;
/// moving it keeps that.
pub proof fn opening_starts_over(c: &mut AddCard, d: &mut AddCard, t: Target)
    requires
        call_ensures(AddCard::open, (c, t), ()),
        call_ensures(AddCard::set_target, (d, t), ()),
    ensures
        final(c).target == t && final(d).target == t,
        final(c).chosen.schedule is None && final(c).chosen.priority is None,
        final(c).chosen.list is None && final(c).chosen.alarms is None,
        final(d).chosen == old(d).chosen,
        final(c).default_priority == old(c).default_priority,
        final(c).read_dates == old(c).read_dates && final(c).linked == old(c).linked,
{
}

// -- text from elsewhere ------------------------------------------------------------------------

/// Of text from elsewhere the first line is the title and the rest the notes:
/// what comes before the first line's end, and what comes after it.
pub proof fn first_line_is_the_title(text: &str, r: (String, String), i: int)
    requires
        call_ensures(fill, (text,), r),
    ensures
        0 <= i < trim(text@).len() && trim(text@)[i] == '\n' && (forall|j: int|
            0 <= j < i ==> trim(text@)[j] != '\n') ==> r.0@ == trim(trim(text@).take(i)) && r.1@
            == trim(trim(text@).skip(i + 1)),
        (forall|j: int| 0 <= j < trim(text@).len() ==> trim(text@)[j] != '\n') ==> r.0@ == trim(
            trim(text@),
        ) && r.1@.len() == 0,
{
    let t = trim(text@);
    crate::text::lemma_first_of(t, '\n');
    if 0 <= i < t.len() && t[i] == '\n' && (forall|j: int| 0 <= j < i ==> t[j] != '\n') {
        crate::text::lemma_first_is(t, '\n', i);
    }
}

// -- lists as they are typed --------------------------------------------------------------------

/// The word before the cursor is looked up when it starts with `#`: it goes
/// back to the last white space.
pub proof fn hash_words_are_found(
    typed: &str,
    cursor: usize,
    r: Option<(usize, usize, String)>,
    a: int,
    b: int,
)
    requires
        0 <= a < b <= typed@.len(),
        b == cursor || (cursor > typed@.len() && b == typed@.len()),
        forall|i: int| a <= i < b ==> !white(#[trigger] typed@[i]),
        a == 0 || white(typed@[a - 1]),
        call_ensures(hash_word, (typed, cursor), r),
    ensures
        typed@[a] == '#' ==> (r matches Some((x, y, w)) && x == a && y == b && w@
            == lowercase_text(typed@.subrange(a + 1, b))),
        typed@[a] != '#' ==> r is None,
{
    lemma_word_start(typed@, a, b);
}

proof fn lemma_word_start(s: Seq<char>, a: int, b: int)
    requires
        0 <= a <= b <= s.len(),
        forall|i: int| a <= i < b ==> !white(#[trigger] s[i]),
        a == 0 || white(s[a - 1]),
    ensures
        crate::addcard::word_start(s, b) == a,
    decreases b - a,
{
    if a < b {
        lemma_word_start(s, a, b - 1);
        assert(!white(s[b - 1]));
    }
}

/// A text without the white space in it.
pub open spec fn without_white(s: Seq<char>) -> Seq<char> {
    s.filter(|c: char| !white(c))
}

/// A list that is suggested can be written to, its name has the word, and
/// there are no more than eight.
pub proof fn suggested_lists_have_the_word(
    lists: &[ListView],
    word: &str,
    r: Vec<&ListView>,
    i: int,
)
    requires
        call_ensures(suggest_lists, (lists, word), r),
        0 <= i < r@.len(),
    ensures
        r@.len() <= 8,
        r@[i].writable,
        lists@.contains(*r@[i]),
        exists|k: int|
            0 <= k && k + word@.len() <= lowercase_text(without_white(r@[i].name@)).len()
                && #[trigger] lowercase_text(without_white(r@[i].name@)).subrange(
                k,
                k + word@.len(),
            ) == word@,
{
    let p = crate::addcard::suggested(word@);
    let f = lists@.filter(p);
    let v = crate::prefs::plain_lists(r@);
    assert(v.len() == r@.len());
    assert(v == crate::addcard::at_most(f, 8));
    assert(v[i] == *r@[i]);
    assert(v[i] == f[i]);
    lists@.lemma_filter_pred(p, i);
    lists@.lemma_filter_contains_rev(p, f[i]);
    assert(crate::addcard::not_white() =~= (|c: char| !white(c)));
    let low = lowercase_text(without_white(r@[i].name@));
    assert(without_white(r@[i].name@) == crate::addcard::squeezed(r@[i].name@));
    assert(crate::text::contains(low, word@));
    let k = choose|k: int| crate::text::occurs_at(low, word@, k);
    assert(low.subrange(k, k + word@.len()) == word@);
}

/// A suggestion that is taken stands in place of the word: what came before
/// and after it stays, and the cursor is after it.
pub proof fn taken_suggestions_replace_the_word(
    typed: &str,
    cursor: usize,
    name: &str,
    w: Option<(usize, usize, String)>,
    r: Option<(String, usize)>,
)
    requires
        typed@.len() + name@.len() + 2 <= usize::MAX,
        call_ensures(hash_word, (typed, cursor), w),
        call_ensures(take_suggestion, (typed, cursor, name), r),
    ensures
        r is Some == w is Some,
        w matches Some((a, b, _)) ==> (r matches Some((t, c)) && t@ == typed@.take(a as int) + seq![
            '#',
        ] + without_white(name@) + seq![' '] + typed@.skip(b as int) && c == a + 2
            + without_white(name@).len()),
{
    reveal_strlit("#");
    reveal_strlit(" ");
    assert("#"@ =~= seq!['#'] && " "@ =~= seq![' ']);
    assert(crate::addcard::not_white() =~= (|c: char| !white(c)));
    if let Some((a, b, _)) = w {
        let n = without_white(name@);
        let word = "#"@ + n + " "@;
        assert(typed@.take(a as int) + word + typed@.skip(b as int) =~= typed@.take(a as int) + seq![
            '#',
        ] + n + seq![' '] + typed@.skip(b as int));
        assert(word.len() == n.len() + 2);
    }
}

/// What was read in the text is shown: the list by its name, the priority by
/// its number, the date and the repeat by their words, and the reminder by
/// how long before, or when.
pub proof fn readings_are_shown(p: Parsed, l: Labels, f: Found)
    ensures
        ({
            let c = chips_for(f, p, l);
            match f {
                Found::List => match p.list {
                    Some(n) => c.len() == 1 && c[0].0 == "#"@ + n@ && c[0].1 == "list"@,
                    None => c.len() == 0,
                },
                Found::Priority => match p.priority {
                    Some(n) => c.len() == 1 && c[0].0 == "p"@ + crate::number::decimal(n as nat)
                        && (n == 1 ==> c[0].1 == "p1"@) && (n != 1 ==> c[0].1 == "priority"@),
                    None => c.len() == 0,
                },
                Found::Date => if p.due is Some {
                    c.len() == 1 && c[0].0 == l.due@ && c[0].1 == "due"@
                } else {
                    c.len() == 0
                },
                Found::Repeat => if p.rrule is Some && p.due is Some {
                    c.len() == 2 && c[0].0 == "↻ "@ + l.repeat@ && c[1].0 == "from "@ + l.due@
                } else {
                    c.len() == 0
                },
                Found::Alarm => c.len() == 1 && c[0].1 == "alarm"@ && match p.alarm {
                    Some(Trigger::Relative { offset, .. }) => if -60 < offset < 60 {
                        c[0].0 == "⏰ at the due time"@
                    } else {
                        c[0].0 == "⏰ "@ + crate::remind::span_text(offset as int) + " before"@
                    },
                    Some(Trigger::Absolute { .. }) => c[0].0 == "⏰ "@ + l.alarm@,
                    None => c[0].0 == "⏰ needs a due date"@,
                },
            }
        }),
{
}

// -- quick add ----------------------------------------------------------------------------------

/// Enter adds and closes, and with Shift adds and stays; Escape closes;
/// anything a popover has is left alone.
pub proof fn popup_keys(
    q: &mut QuickAdd,
    key: PopupKey,
    taken: bool,
    in_field: bool,
    keeps: bool,
    r: Pressed,
)
    requires
        call_ensures(QuickAdd::press, (q, key, taken, in_field, keeps), r),
    ensures
        taken ==> r == Pressed::Passed,
        !taken && key == PopupKey::Escape ==> r == Pressed::Close,
        !taken && key == PopupKey::Enter && in_field ==> r == Pressed::Submit
            && final(q).keep_open == keeps,
        !taken && key == PopupKey::Enter && !in_field ==> r == Pressed::Passed,
        key == PopupKey::Other ==> r == Pressed::Passed,
        final(q).busy == old(q).busy,
        r != Pressed::Submit ==> final(q).keep_open == old(q).keep_open,
{
}

/// One task is added at a time; once it is there the popup closes, unless it
/// was to stay or it could not be added, and then it says what became of it.
pub proof fn popup_adds_one_at_a_time(
    q: &mut QuickAdd,
    spec: AddSpec,
    d: Option<PopupDo>,
    p: &mut QuickAdd,
    result: Result<AddedTo, String>,
    remember: bool,
    r: After,
)
    requires
        call_ensures(QuickAdd::add_task, (q, spec), d),
        call_ensures(QuickAdd::added, (p, result, remember), r),
    ensures
        old(q).busy ==> d is None,
        !old(q).busy ==> d == Some(PopupDo::Add(spec)) && final(q).busy,
        !final(p).busy,
        result is Err ==> !r.closes && r.remember is None,
        result is Ok ==> r.closes == !old(p).keep_open,
        result matches Ok(a) ==> r.remember == (if remember {
            Some(a.list)
        } else {
            None
        }),
        r.closes ==> r.says is None,
        !r.closes ==> (r.says matches Some(s) && s.error == result is Err && match result {
            Err(e) => s.text@ == e@,
            Ok(a) => s.text@ == (if a.existed {
                "Already there: “"@ + a.summary@ + "”"@
            } else {
                "Added “"@ + a.summary@ + "” to "@ + a.list_name@
            }),
        }),
{
}

/// The popup starts in the list of the last task, where that is remembered
/// and can still be written to.
pub proof fn popup_starts_where_it_was(
    lists: &[ListView],
    last: &str,
    remember: bool,
    r: Option<Target>,
    i: int,
)
    requires
        call_ensures(start_target, (lists, last, remember), r),
    ensures
        !remember ==> r is None,
        remember && 0 <= i < lists@.len() && lists@[i].href@ == trim(last@) && lists@[i].writable
            ==> (r matches Some(Target::List(h)) && h@ == trim(last@)),
        r matches Some(t) ==> (t matches Target::List(h) && exists|j: int|
            0 <= j < lists@.len() && (#[trigger] lists@[j]).href@ == h@ && lists@[j].writable),
{
}

// -- the terminal -------------------------------------------------------------------------------

/// What `add` was given is in the task under its own field; the words are its
/// text, read for dates unless they are to be taken as they are.
pub proof fn add_takes_what_it_is_given(a: AddArgs, r: AddSpec)
    requires
        call_ensures(add_spec, (a,), r),
    ensures
        r.text@ == join(texts(a.words@), " "@),
        r.parse == !a.literal,
        !r.keep_dates,
        r.list == a.list && r.due_text == a.due && r.priority == a.priority,
        r.description == a.note && r.repeat_text == a.repeat,
        r.url == a.url && r.source == a.source && r.linked_notes == a.attach,
        r.due is None && r.rrule is None && r.alarms is None,
{
}

} // verus!
