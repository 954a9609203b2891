//! What editing a task changes of it, and what a task shows of itself.

use vstd::prelude::*;

use crate::change::{Change, SetDue};
use crate::content::reschedule;
use crate::date::Date;
use crate::due::Moved;
use crate::editor::{
    DateButton, Edit, Editor, Field, Shown, attach, date_button, detach, linked_tip, pick_note,
    reminders_tip,
};
use crate::linked::{Pick, file_of, note_tip, pick, pick_new};
use crate::markdown::tasks_markdown;
use crate::message_law::changes_day;
use crate::number::decimal;
use crate::row::{
    Chip, Dropped, Entry, Look, choose_entry, chip, dropped, look, schedule_change, task_menu,
};
use crate::schedule::Schedule;
use crate::task::{Note, Task, TaskView, Trigger, unref};
use crate::text::{texts, trim, white};
use crate::update::Msg;
use crate::words::capital;
use crate::zone::Zone;

verus! {

// -- typing -------------------------------------------------------------------------------------

/// A change of nothing but the title and the notes.
pub open spec fn only_words(c: Change) -> bool {
    c.due is None && c.due_text is None && c.rrule is None && c.repeat_text is None && c.priority
        is None && c.list is None && c.url is None && c.alarms is None && c.linked_notes is None
        && c.sort_order is None
}

/// A title as it is typed: on one line.
pub open spec fn one_line(s: Seq<char>) -> Seq<char> {
    s.map_values(
        |c: char|
            if c == '\n' {
                ' '
            } else {
                c
            },
    )
}

/// A title that was typed is saved for the task that is open, on one line and
/// without space around it; not when it is blank, and not when it is the one
/// that the task has.
pub proof fn typed_titles_are_saved(e: &mut Editor, typed: &str, r: Option<Edit>)
    requires
        call_ensures(Editor::title_edit, (e, typed), r),
    ensures
        ({
            let t = trim(one_line(typed@));
            r is Some == (old(e).open matches Some(o) && t.len() > 0 && t != o.summary@)
        }),
        r matches Some(x) ==> {
            &&& x.href == old(e).open->0.href
            &&& x.change.summary matches Some(s) && s@ == trim(one_line(typed@))
            &&& x.change.description is None && only_words(x.change)
        },
        !final(e).title_waits,
{
    assert(crate::editor::on_one_line(typed@) =~= one_line(typed@));
}

/// Notes that were typed are saved for the task that is open, without the
/// blank after them; taken away when nothing is left, and not saved when they
/// are as the task has them.
pub proof fn typed_notes_are_saved(e: &mut Editor, typed: &str, r: Option<Edit>)
    requires
        call_ensures(Editor::notes_edit, (e, typed), r),
    ensures
        r matches Some(x) ==> {
            &&& x.href == old(e).open->0.href
            &&& x.change.summary is None && only_words(x.change)
            &&& (forall|i: int| 0 <= i < typed@.len() ==> white(#[trigger] typed@[i]))
                ==> x.change.description == Some(None::<String>)
            &&& (exists|i: int| 0 <= i < typed@.len() && !white(#[trigger] typed@[i])) ==> (
            x.change.description matches Some(Some(d)) && d@.len() <= typed@.len() && d@
                == typed@.take(d@.len() as int) && !white(d@.last()) && forall|i: int|
                d@.len() <= i < typed@.len() ==> white(#[trigger] typed@[i]))
        },
        old(e).open is None ==> r is None,
        (old(e).open matches Some(o) && o.description is None) && (forall|i: int|
            0 <= i < typed@.len() ==> white(#[trigger] typed@[i])) ==> r is None,
        !final(e).notes_wait,
{
    let t = crate::text::trim_end(typed@);
    crate::text::lemma_trim_end(typed@);
    if forall|i: int| 0 <= i < typed@.len() ==> white(#[trigger] typed@[i]) {
        assert forall|i: int| 0 <= i < t.len() implies white(#[trigger] t[i]) by {
            assert(t[i] == typed@[i]);
        }
        assert(crate::text::blank(t));
    } else {
        let i = choose|i: int| 0 <= i < typed@.len() && !white(#[trigger] typed@[i]);
        assert(i < t.len());
        assert(t[i] == typed@[i]);
        assert(!crate::text::blank(t));
    }
}

/// Only what was typed in is saved when a task closes: the title, the notes,
/// or both, and never anything of another task.
pub proof fn closing_saves_what_was_typed(
    e: &mut Editor,
    title: &str,
    notes: &str,
    r: Vec<Edit>,
    i: int,
)
    requires
        call_ensures(Editor::close, (e, title, notes), r),
        0 <= i < r@.len(),
    ensures
        r@.len() <= 2,
        old(e).open matches Some(o) && r@[i].href == o.href && only_words(r@[i].change),
        r@[i].change.summary is Some ==> old(e).title_waits,
        r@[i].change.description is Some ==> old(e).notes_wait,
        r@[i].change.summary is Some || r@[i].change.description is Some,
        final(e).open is None && !final(e).title_waits && !final(e).notes_wait,
{
    assert(i == 0 || i == r@.len() - 1);
}

/// A task that is shown fills the fields, but not the one that is being typed
/// in; and what was typed for another task is saved first.
pub proof fn showing_spares_typing(
    e: &mut Editor,
    t: &TaskView,
    title: &Field,
    notes: &Field,
    r: Shown,
)
    requires
        call_ensures(Editor::show, (e, t, title, notes), r),
    ensures
        final(e).open matches Some(o) && o.href == t.href && o.summary == t.task.summary
            && o.description == t.task.description,
        (old(e).open matches Some(o) && o.href@ == t.href@) ==> {
            &&& title.focused || old(e).title_waits ==> !r.set_title
            &&& notes.focused || old(e).notes_wait ==> !r.set_notes
            &&& r.edits@.len() == 0
        },
        !(old(e).open matches Some(o) && o.href@ == t.href@) ==> r.set_title == (title.text@
            != t.task.summary@),
        r.set_title ==> title.text@ != t.task.summary@,
{
}

// -- dates and menus ----------------------------------------------------------------------------

/// Picking a schedule changes the date and the repeat that differ, and
/// nothing else; and nothing at all when neither does.
pub proof fn picked_schedules_are_set(t: &TaskView, s: &Schedule, r: Option<Change>)
    requires
        call_ensures(schedule_change, (t, s), r),
    ensures
        s.due == t.task.due && s.rrule == t.task.rrule ==> r is None,
        s.due != t.task.due ==> r is Some,
        r matches Some(c) ==> {
            &&& s.due == t.task.due ==> c.due is None
            &&& s.due != t.task.due && s.due is None ==> c.due == Some(SetDue::Clear)
            &&& s.due != t.task.due ==> (s.due matches Some(w) ==> c.due == Some(SetDue::To(w)))
            &&& c.rrule matches Some(x) ==> x == s.rrule
            &&& (s.rrule is Some != t.task.rrule is Some) ==> c.rrule == Some(s.rrule)
            &&& (s.rrule matches Some(a) && (t.task.rrule matches Some(b) && a@ != b@)) ==> c.rrule
                == Some(s.rrule)
            &&& c.summary is None && c.description is None && c.priority is None && c.list is None
            &&& c.alarms is None && c.sort_order is None && c.url is None
        },
{
}

/// One date for what is overdue moves every one of the tasks to that day;
/// without a date they lose theirs, and their repeats.
pub proof fn overdue_tasks_are_moved(
    tasks: &Vec<&TaskView>,
    date: Option<Date>,
    zone: &Zone,
    r: Vec<Edit>,
    i: int,
)
    requires
        crate::task::tasks_wf(unref(tasks@)),
        call_ensures(reschedule, (tasks, date, zone), r),
        0 <= i < tasks@.len(),
    ensures
        r@.len() == tasks@.len() && r@[i].href == tasks@[i].href,
        date matches Some(d) ==> changes_day(r@[i].change, d.ce as int) && (match r@[i].change.due {
            Some(SetDue::Move(Moved::At { same_form, .. })) => same_form && (
            tasks@[i].task.due matches Some(w) && w.timed),
            _ => !(tasks@[i].task.due matches Some(w) && w.timed),
        }),
        date is None ==> r@[i].change.due == Some(SetDue::Clear) && r@[i].change.rrule == Some(
            None::<String>,
        ) && r@[i].change.summary is None && r@[i].change.priority is None,
{
    assert(r@[i].href == tasks@[i].href);
}

/// A task's menu offers to complete an open one and to open a done one again;
/// today, tomorrow and a week from now; and no date where it has one.
pub proof fn menus_offer_what_fits(t: &TaskView, today: Date, r: Vec<Entry>)
    requires
        today.wf(),
        today.ce + 7 <= crate::date::LAST_DAY,
        call_ensures(task_menu, (t, today), r),
    ensures
        r@.len() == (if t.task.due is Some {
            16int
        } else {
            15
        }),
        t.task.open ==> r@[0] is Complete,
        !t.task.open ==> r@[0] is Reopen,
        r@[1] is Edit,
        r@[3] == Entry::Day(today),
        r@[4] == Entry::Day(Date { ce: (today.ce + 1) as i32 }),
        r@[5] == Entry::Day(Date { ce: (today.ce + 7) as i32 }),
        r@[6] is PickDate,
        t.task.due is Some ==> r@[7] is NoDate && r@[9] == Entry::Priorities(t.task.level),
        t.task.due is None ==> r@[8] == Entry::Priorities(t.task.level),
        r@[r@.len() - 5] is MoveTo && r@[r@.len() - 4] is Duplicate && r@[r@.len() - 3] is Copy,
        r@[r@.len() - 1] is Delete,
{
}

/// Choosing an entry does to the task what it says.
pub proof fn entries_do_what_they_say(t: &TaskView, e: Entry, zone: &Zone, r: Option<Msg>)
    requires
        crate::task::when_wf(t.task.due),
        call_ensures(choose_entry, (t, e, zone), r),
    ensures
        e is Complete ==> r == Some(Msg::Complete(t.href)),
        e is Reopen ==> r == Some(Msg::Reopen(t.href)),
        e is Edit ==> r == Some(Msg::Open(t.href)),
        e is Duplicate ==> r == Some(Msg::Duplicate(t.href)),
        e is Copy ==> r == Some(Msg::Copy(t.href)),
        e is Delete ==> r == Some(Msg::Delete(t.href)),
        e matches Entry::Day(d) ==> (r matches Some(Msg::Edit(h, c)) && h == t.href && changes_day(
            c,
            d.ce as int,
        )),
        e is NoDate ==> (r matches Some(Msg::Edit(h, c)) && h == t.href && c.due == Some(
            SetDue::Clear,
        ) && c.rrule == Some(None::<String>) && c.summary is None && c.priority is None && c.list
            is None),
        e is PickDate || e is MoveTo || e is Separator || e is Priorities ==> r is None,
{
}

/// An entry says what it does.
pub proof fn entries_say_what_they_do(e: Entry, r: (&'static str, &'static str, &'static str))
    requires
        call_ensures(Entry::words, (e,), r),
    ensures
        e is Complete ==> r.1@ == "Complete"@ && r.2@ == "x"@,
        e is Reopen ==> r.1@ == "Reopen"@ && r.2@ == "x"@,
        e is Edit ==> r.1@ == "Edit"@ && r.2@ == "e"@,
        e is NoDate ==> r.1@ == "No date"@,
        e is PickDate ==> r.1@ == "Pick a date…"@,
        e is MoveTo ==> r.1@ == "Move to…"@,
        e is Duplicate ==> r.1@ == "Duplicate"@,
        e is Copy ==> r.1@ == "Copy to clipboard"@,
        e is Delete ==> r.1@ == "Delete task"@ && r.2@ == "dd"@,
{
}

// -- what a row shows ---------------------------------------------------------------------------

/// An open task shows its date, by its color past, today or to come, with a
/// mark when it repeats; a done one shows when it was done.
pub proof fn rows_show_the_date(t: &TaskView, label: &str, today: Date, r: Option<Chip>)
    requires
        call_ensures(chip, (t, label, today), r),
    ensures
        t.task.open && t.task.due is None ==> r is None,
        t.task.open ==> (t.task.due matches Some(w) ==> (r matches Some(c) && c.text@ == capital(
            label@,
        ) && c.repeats == t.task.rrule is Some && (w.date.ce < today.ce ==> c.class@ == "overdue"@)
            && (w.date.ce == today.ce ==> c.class@ == "today"@) && (w.date.ce > today.ce
            ==> c.class@ == "upcoming"@))),
        !t.task.open && t.task.completed is None ==> r is None,
        !t.task.open && t.task.completed is Some ==> (r matches Some(c) && c.text@ == capital(
            label@,
        ) && c.class@ == "done"@ && !c.repeats),
{
}

/// A row shows whether the task is done, its priority, whether it has notes,
/// how many reminders, its linked notes, and its list where that is not clear;
/// only an open task can be dragged.
pub proof fn rows_show_the_task(t: &TaskView, completing: bool, show_list: bool, r: Look)
    requires
        call_ensures(look, (t, completing, show_list), r),
    ensures
        r.done == (!t.task.open || completing),
        r.priority@ == "priority-"@ + decimal(t.task.level as nat),
        t.task.open ==> r.check_tip@ == "Complete"@,
        !t.task.open ==> r.check_tip@ == "Reopen"@,
        r.alarms is Some == (t.task.alarms@.len() > 0),
        r.alarms matches Some(n) ==> n@ == decimal(t.task.alarms@.len()),
        r.linked is Some == (t.task.linked_notes@.len() > 0),
        show_list ==> (r.list matches Some(l) && l@ == t.list_name@),
        !show_list ==> r.list is None,
        r.drag is Some == t.task.open,
        r.notes is Some == (t.task.description matches Some(d) && exists|i: int|
            0 <= i < d@.len() && !white(#[trigger] d@[i])),
{
    if let Some(d) = t.task.description {
        assert(crate::text::blank(d@) == (forall|i: int|
            0 <= i < d@.len() ==> white(#[trigger] d@[i])));
    }
}

/// What a task or a list carries when it is dragged tells the two apart, and
/// anything else from both.
pub proof fn drags_are_told_apart(payload: &str, r: Dropped, href: Seq<char>)
    requires
        call_ensures(dropped, (payload,), r),
    ensures
        payload@ == "asst-task:"@ + href ==> (r matches Dropped::Task(h) && h@ == href),
        payload@ == "asst-list:"@ + href ==> (r matches Dropped::List(h) && h@ == href),
        r matches Dropped::Task(h) ==> payload@ == "asst-task:"@ + h@,
        r matches Dropped::List(h) ==> payload@ == "asst-list:"@ + h@,
{
    reveal_strlit("asst-task:");
    reveal_strlit("asst-list:");
    let (a, b) = ("asst-task:"@, "asst-list:"@);
    assert(a.len() == 10 && b.len() == 10 && a[5] == 't' && b[5] == 'l');
    let s = payload@;
    if s == a + href {
        assert(s.subrange(0, 10) =~= a);
        assert(s.skip(10) =~= href);
        if crate::text::starts_with(s, b) {
            assert(s.subrange(0, 10)[5] == b[5]);
        }
    }
    if s == b + href {
        assert(s.subrange(0, 10) =~= b);
        assert(s.skip(10) =~= href);
    }
    if crate::text::starts_with(s, b) {
        assert(s =~= s.subrange(0, 10) + s.skip(10));
    } else if crate::text::starts_with(s, a) {
        assert(s =~= s.subrange(0, 10) + s.skip(10));
    }
}

// -- linked notes -------------------------------------------------------------------------------

/// A note that is linked comes after those that are; one that is unlinked is
/// gone, and the others stay.
pub proof fn notes_are_linked(
    notes: &Vec<Note>,
    link: String,
    other: &str,
    a: Vec<String>,
    b: Vec<String>,
    i: int,
)
    requires
        call_ensures(attach, (notes, link), a),
        call_ensures(detach, (notes, other), b),
        0 <= i < notes@.len(),
    ensures
        a@.len() == notes@.len() + 1 && a@[i]@ == notes@[i].link@ && a@[notes@.len() as int]@
            == link@,
        !texts(b@).contains(other@),
        notes@[i].link@ != other@ ==> texts(b@).contains(notes@[i].link@),
{
    let l = crate::editor::links_of(notes@);
    assert(texts(a@) == l.push(link@));
    assert(texts(a@).len() == a@.len());
    assert(texts(a@)[i] == a@[i]@ && l[i] == notes@[i].link@);
    assert(texts(a@)[notes@.len() as int] == a@[notes@.len() as int]@);
    let p = crate::editor::other_link(other@);
    let f = l.filter(p);
    if f.contains(other@) {
        let k = choose|k: int| 0 <= k < f.len() && f[k] == other@;
        l.lemma_filter_pred(p, k);
    }
    if l[i] != other@ {
        l.lemma_filter_contains(p, i);
    }
}

/// A note that is picked is linked, or unlinked when it was; a new one is
/// called what was typed, or after the task.
pub proof fn picked_notes_are_linked(
    path: String,
    linked: &Vec<String>,
    typed: &str,
    a: Pick,
    b: Pick,
)
    requires
        call_ensures(pick, (path, linked), a),
        call_ensures(pick_new, (typed,), b),
    ensures
        texts(linked@).contains(path@) ==> a == Pick::Detach(path),
        !texts(linked@).contains(path@) ==> a == Pick::Attach(path),
        b matches Pick::New(t) && (trim(typed@).len() == 0 ==> t is None) && (trim(typed@).len() > 0
            ==> (t matches Some(s) && s@ == trim(typed@))),
{
}

/// What comes of a pick is for the task it was made for, and changes only
/// what it links to.
pub proof fn picks_change_the_links(t: &TaskView, p: Pick, r: Msg)
    requires
        call_ensures(pick_note, (t, p), r),
    ensures
        p matches Pick::New(title) ==> (r matches Msg::NewNote(h, s) && h == t.href && (title
            is None ==> s@.len() == 0) && (title matches Some(x) ==> s@ == x@)),
        p is Attach || p is Detach ==> (r matches Msg::Edit(h, c) && h == t.href && c.linked_notes
            is Some && c.summary is None && c.due is None && c.priority is None && c.list is None),
        p matches Pick::Attach(path) ==> (r matches Msg::Edit(h, c) && (
        c.linked_notes matches Some(v) && v@.len() == t.task.linked_notes@.len() + 1
            && v@.last()@ == path@)),
        p matches Pick::Detach(path) ==> (r matches Msg::Edit(h, c) && (
        c.linked_notes matches Some(v) && !texts(v@).contains(path@))),
{
    let l = crate::editor::links_of(t.task.linked_notes@);
    match (p, r) {
        (Pick::Attach(path), Msg::Edit(h, c)) => {
            let v = c.linked_notes->0;
            assert(texts(v@).len() == v@.len());
            assert(texts(v@)[v@.len() - 1] == v@[v@.len() - 1]@);
        },
        (Pick::Detach(path), Msg::Edit(h, c)) => {
            let v = c.linked_notes->0;
            let q = |x: Seq<char>| x != path@;
            let f = l.filter(q);
            if f.contains(path@) {
                let k = choose|k: int| 0 <= k < f.len() && f[k] == path@;
                l.lemma_filter_pred(q, k);
            }
        },
        _ => {},
    }
}

/// A link with a full path is that file; another is one in the notes folder.
pub proof fn links_name_files(dir: Option<&str>, link: &str, r: Option<String>)
    requires
        call_ensures(file_of, (dir, link), r),
    ensures
        link@.len() > 0 && link@[0] == '/' ==> (r matches Some(f) && f@ == link@),
        (link@.len() == 0 || link@[0] != '/') && dir is None ==> r is None,
        (link@.len() == 0 || link@[0] != '/') ==> (dir matches Some(d) ==> (r matches Some(f) && f@
            == (if d@.len() == 0 || d@.last() == '/' {
            d@ + link@
        } else {
            d@ + seq!['/'] + link@
        }))),
{
    reveal_strlit("/");
    assert("/"@ =~= seq!['/']);
    if link@.len() > 0 {
        assert(link@.subrange(0, 1)[0] == link@[0]);
        if link@[0] == '/' {
            assert(link@.subrange(0, 1) =~= "/"@);
        }
    }
}

// -- what buttons say ---------------------------------------------------------------------------

/// The date button says the date, with the sign of a repeat where there is
/// one, and its words in the tooltip.
pub proof fn date_buttons_say_the_date(
    t: &Task,
    due: &str,
    repeat: &str,
    today: Date,
    r: DateButton,
)
    requires
        today.wf(),
        call_ensures(date_button, (t, due, repeat, today), r),
    ensures
        t.due is None ==> r.label@ == "Date"@,
        t.due is Some ==> r.label@ == capital(due@),
        t.due is Some && t.rrule is Some ==> r.tip@ == capital(repeat@) && r.icon@
            == "playlist-repeat-symbolic"@,
        t.due is Some && t.rrule is None ==> r.tip@ == "Date"@,
{
}

/// The tooltips of reminders and of linked notes name them.
pub proof fn tips_name_what_there_is(
    v: &Vec<Trigger>,
    label: &str,
    notes: &Vec<Note>,
    a: String,
    b: String,
)
    requires
        call_ensures(reminders_tip, (v, label), a),
        call_ensures(linked_tip, (notes,), b),
    ensures
        v@.len() == 0 ==> a@ == "Reminders"@,
        v@.len() == 1 ==> a@ == label@,
        v@.len() > 1 ==> a@ == decimal(v@.len()) + " reminders"@,
        notes@.len() == 0 ==> b@ == "Linked notes"@,
        notes@.len() == 1 ==> b@ == notes@[0].name@,
{
    if notes@.len() == 1 {
        let n = crate::row::names(notes@);
        assert(n.len() == 1 && n[0] == notes@[0].name@);
    }
}

/// A note's name opens it, unless the note is gone.
pub proof fn gone_notes_say_so(link: &str, missing: bool, r: String)
    requires
        call_ensures(note_tip, (link, missing), r),
    ensures
        missing ==> r@ == "Not in the notes folder any more: "@ + link@,
        !missing ==> r@ == "Open "@ + link@,
{
}

/// As Markdown a task is a box, checked when it is done, with its title, and
/// its date when it is open.
pub proof fn tasks_are_boxes(tasks: &[TaskView], labels: &[String], r: String)
    requires
        tasks@.len() == 1,
        labels@.len() == 1,
        tasks@[0].task.description is None,
        call_ensures(tasks_markdown, (tasks, labels), r),
    ensures
        ({
            let (t, l) = (tasks@[0], labels@[0]@);
            &&& t.task.open && t.task.due is Some ==> r@ == "- [ ] "@ + t.task.summary@ + (" ("@ + l
                + ")"@) + "\n"@
            &&& t.task.open && t.task.due is None ==> r@ == "- [ ] "@ + t.task.summary@ + "\n"@
            &&& !t.task.open ==> r@ == "- [x] "@ + t.task.summary@ + "\n"@
        }),
{
    reveal_with_fuel(crate::markdown::items, 2);
    let t = tasks@[0];
    let none = Seq::<char>::empty();
    assert(tasks@.last() == t && texts(labels@).last() == labels@[0]@);
    assert(tasks@.drop_last().len() == 0);
    let i = crate::markdown::task_item(t, labels@[0]@);
    assert(none + i =~= i);
    assert(crate::markdown::indented(Seq::empty()) =~= none);
    let head = (if t.task.open {
        "- [ ] "@
    } else {
        "- [x] "@
    }) + t.task.summary@;
    assert(head + none + "\n"@ + none =~= head + "\n"@);
    assert(head + (" ("@ + labels@[0]@ + ")"@) + "\n"@ + none =~= head + (" ("@ + labels@[0]@
        + ")"@) + "\n"@);
}

} // verus!
