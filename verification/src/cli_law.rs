//! What commands ask for and what they say, by what they were given.

use vstd::prelude::*;

use crate::change::{Change, Query, Which};
use crate::cli::{
    Call, Cause, Cmd, Deletion, EditArgs, Failure, Given, Listing, Report, attach, clear_completed,
    detach, edit_change, first_call, is_yes, list_line, listing, message, or_default, remove_list,
    say_done, say_report, say_status, settled,
};
use crate::number::decimal;
use crate::out::{DueWords, Style, task_line};
use crate::settings::SettingsChange;
use crate::task::{ListView, Note, StatusView, SyncState, TaskView};
use crate::text::{ascii_upper_text, join, lowercase_text, texts, trim};
use crate::zone::Moment;

verus! {

// -- changing -----------------------------------------------------------------------------------

/// What `edit` was given is in the change under its own field, and nothing
/// else is; it is refused when it was given nothing, and only then. A note
/// that is empty clears the notes.
pub proof fn edit_changes_what_it_is_given(a: EditArgs, r: Result<Change, &'static str>)
    requires
        call_ensures(edit_change, (a,), r),
    ensures
        r is Err == (a.title is None && a.due is None && a.priority is None && a.note is None
            && a.list is None && a.repeat is None),
        r matches Ok(c) ==> {
            &&& c.summary == a.title
            &&& c.due_text == a.due
            &&& c.priority == a.priority
            &&& c.list == a.list
            &&& c.repeat_text == a.repeat
            &&& a.note is None ==> c.description is None
            &&& a.note matches Some(n) ==> (c.description matches Some(d) && (n@.len() == 0 ==> d
                is None) && (n@.len() > 0 ==> d == Some(n)))
            &&& c.due is None && c.rrule is None && c.url is None && c.alarms is None
            &&& c.linked_notes is None && c.sort_order is None
        },
        r matches Err(e) ==> e@ == "nothing to change; see `asst edit --help`"@,
{
}

/// Notes that are attached come after those the task links, all of which it
/// keeps; nothing else changes.
pub proof fn attaching_keeps_what_is_linked(
    notes: &Vec<Note>,
    given: &Vec<String>,
    r: Change,
    i: int,
)
    requires
        call_ensures(attach, (notes, given), r),
    ensures
        r.linked_notes matches Some(v) && v@.len() == notes@.len() + given@.len() && (0 <= i
            < notes@.len() ==> v@[i]@ == notes@[i].link@) && (0 <= i < given@.len()
            ==> v@[notes@.len() + i]@ == given@[i]@),
        r.summary is None && r.description is None && r.due is None && r.due_text is None,
        r.rrule is None && r.repeat_text is None && r.priority is None && r.list is None,
        r.url is None && r.alarms is None && r.sort_order is None,
{
    if let Some(v) = r.linked_notes {
        let all = crate::editor::links_of(notes@) + texts(given@);
        assert(texts(v@) == all);
        assert(texts(v@).len() == v@.len());
        if 0 <= i < notes@.len() {
            assert(texts(v@)[i] == v@[i]@);
            assert(all[i] == notes@[i].link@);
        }
        if 0 <= i < given@.len() {
            assert(texts(v@)[notes@.len() + i] == v@[notes@.len() + i]@);
            assert(all[notes@.len() + i] == given@[i]@);
        }
    }
}

/// Detaching nothing leaves all links; detaching one note leaves those that it
/// does not name, by its path, its link, or its name in any case, and fails
/// when it names none.
pub proof fn detaching_leaves_the_others(
    summary: &str,
    notes: &Vec<Note>,
    given: &Vec<Given>,
    r: Result<Vec<String>, String>,
    i: int,
)
    requires
        given@.len() == 1,
        0 <= i < notes@.len(),
        call_ensures(detach, (summary, notes, given), r),
    ensures
        ({
            let (n, g) = (notes@[i], given@[0]);
            let named = n.link@ == g.text@ || (g.path matches Some(p) && p@ == n.link@)
                || ascii_upper_text(n.name@) == ascii_upper_text(trim(g.text@));
            &&& named ==> r is Ok
            &&& !named ==> (r matches Ok(v) ==> texts(v@).contains(n.link@))
        }),
        r matches Ok(v) ==> v@.len() < notes@.len(),
{
    let g = given@[0];
    let p = crate::cli::not_given(g);
    let left = notes@.filter(p);
    reveal_with_fuel(crate::cli::detached, 2);
    assert(given@.drop_last().len() == 0);
    assert(given@.last() == g);
    notes@.lemma_filter_len(p);
    let n = notes@[i];
    if p(n) {
        notes@.lemma_filter_contains(p, i);
        let k = choose|k: int| 0 <= k < left.len() && left[k] == n;
        assert(crate::editor::links_of(left)[k] == n.link@);
    } else {
        lemma_filter_less(notes@, p, i);
    }
    if let Ok(v) = r {
        assert(texts(v@).len() == v@.len());
        assert(crate::editor::links_of(left).len() == left.len());
    }
}

proof fn lemma_filter_less(s: Seq<Note>, p: spec_fn(Note) -> bool, i: int)
    requires
        0 <= i < s.len(),
        !p(s[i]),
    ensures
        s.filter(p).len() < s.len(),
    decreases s.len(),
{
    reveal(Seq::filter);
    let t = s.drop_last();
    t.lemma_filter_len(p);
    if i < t.len() {
        lemma_filter_less(t, p, i);
    }
}

// -- listing ------------------------------------------------------------------------------------

/// Each listing asks for its own tasks: what is due today, what comes, what
/// is open or completed in a list or in all, or what has the words.
pub proof fn listings_ask_for_their_tasks(l: Listing, r: (Query, bool, &'static str))
    requires
        call_ensures(listing, (l,), r),
    ensures
        l is Today ==> r.0.which == Which::Today && r.0.list is None && r.0.text is None,
        l is Upcoming ==> r.0.which == Which::Upcoming && r.0.list is None && r.0.text is None,
        l matches Listing::Ls { list, attached } ==> r.0.which == Which::Open && r.0.list == list
            && r.0.linked_note == attached && r.0.text is None && r.0.limit is None,
        l matches Listing::Completed { list, limit } ==> r.0.which == Which::Completed && r.0.list
            == list && r.0.limit == Some(limit) && r.0.text is None,
        l matches Listing::Find { words } ==> r.0.which == Which::Open && r.0.list is None && (
        r.0.text matches Some(t) && t@ == join(texts(words@), " "@)),
        !(l is Ls) ==> r.0.linked_note is None,
        !(l is Completed) ==> r.0.limit is None,
        // A line names its list where tasks of more than one are listed.
        r.1 == (r.0.list is None),
{
}

/// A task's line has its id, the marks of its priority (the more the higher,
/// and none for none), its title with a check when it is done, its date,
/// whether it repeats, its list, and whether it waits to be sent.
pub proof fn lines_say_the_task(
    s: &Style,
    t: &TaskView,
    due: &Option<DueWords>,
    show: bool,
    r: String,
)
    requires
        !s.color,
        call_ensures(task_line, (s, t, due, show), r),
    ensures
        r@ == t.id@ + "  "@ + (if t.task.level == 1 {
            "!!! "@
        } else if t.task.level == 2 {
            "!! "@
        } else if t.task.level == 3 {
            "! "@
        } else {
            ""@
        }) + (if t.task.open {
            ""@
        } else {
            "✓ "@
        }) + t.task.summary@ + (match due {
            Some(w) => "  "@ + w.label@,
            None => ""@,
        }) + (if t.task.rrule is Some {
            " ↻"@
        } else {
            ""@
        }) + (if show {
            "  #"@ + t.list_name@.filter(|c: char| c != ' ')
        } else {
            ""@
        }) + (if t.pending {
            " *"@
        } else {
            ""@
        }),
{
    reveal_strlit("");
    reveal_strlit(" ");
    reveal_strlit("!!!");
    reveal_strlit("!!");
    reveal_strlit("!");
    reveal_strlit("!!! ");
    reveal_strlit("!! ");
    reveal_strlit("! ");
    assert("!!! "@ =~= "!!!"@ + " "@);
    assert("!! "@ =~= "!!"@ + " "@);
    assert("! "@ =~= "!"@ + " "@);
    let none = Seq::<char>::empty();
    assert(""@ =~= none);
    let e = crate::due::packed(t.list_name@);
    assert(e == t.list_name@.filter(|c: char| c != ' ')) by {
        assert((|c: char| c != ' ') =~= crate::due::not_space());
    }
    let m = crate::out::marker(false, t.task.level);
    let a = t.id@ + "  "@ + m;
    assert(a + (none + t.task.summary@) =~= a + none + t.task.summary@);
    assert(a + ("✓ "@ + t.task.summary@) =~= a + "✓ "@ + t.task.summary@);
    assert(none + t.task.summary@ =~= t.task.summary@);
}

/// On a terminal a date is red once it is past, yellow today, green to come,
/// and dim when the task is done.
pub proof fn dates_have_their_color(t: TaskView, w: DueWords)
    ensures
        crate::out::due_color(t, w) == (if !t.task.open {
            "2"@
        } else if w.overdue {
            "31"@
        } else if w.today {
            "33"@
        } else {
            "32"@
        }),
{
}

/// A list's line has how many tasks are open in it and its name, and says
/// when it is the inbox or cannot be written to.
pub proof fn lines_say_the_list(s: &Style, l: &ListView, r: String)
    requires
        !s.color,
        l.open < 10000,
        call_ensures(list_line, (s, l), r),
    ensures
        ({
            let n = decimal(l.open as nat);
            let end = l.name@ + (if l.inbox {
                "  (inbox)"@
            } else {
                ""@
            }) + (if !l.writable {
                "  (read-only)"@
            } else {
                ""@
            });
            r@ == Seq::new((4 - n.len()) as nat, |i: int| ' ') + n + "  "@ + end
        }),
{
    reveal_strlit("");
    assert(""@ =~= Seq::<char>::empty());
    reveal_with_fuel(decimal, 5);
    let n = decimal(l.open as nat);
    assert(n.len() <= 4);
    let pad = Seq::new((4 - n.len()) as nat, |i: int| ' ');
    assert(crate::cli::right(n, 4) =~= pad + n);
    let a = pad + n + "  "@;
    let x = if l.inbox {
        "  (inbox)"@
    } else {
        ""@
    };
    let y = if !l.writable {
        "  (read-only)"@
    } else {
        ""@
    };
    assert(a + l.name@ + x + y =~= a + (l.name@ + x + y));
}

// -- commands -----------------------------------------------------------------------------------

/// Every command asks the daemon for its own thing, about the task, the list
/// or the repo it was given.
pub proof fn commands_ask_for_their_own(cmd: Cmd, r: Result<Call, &'static str>)
    requires
        call_ensures(first_call, (cmd,), r),
    ensures
        !(cmd is Edit) ==> r is Ok,
        r matches Ok(c) ==> {
            &&& cmd matches Cmd::Done { id } ==> c == Call::Complete(id)
            &&& cmd matches Cmd::Reopen { id } ==> c == Call::Reopen(id)
            &&& cmd matches Cmd::Dup { id } ==> c == Call::Duplicate(id)
            &&& cmd matches Cmd::Rm { id } ==> c == Call::Get(id)
            &&& cmd matches Cmd::Open { id } ==> c == Call::Get(id)
            &&& cmd matches Cmd::Attach { id } ==> c == Call::Get(id)
            &&& cmd matches Cmd::Detach { id } ==> c == Call::Get(id)
            &&& cmd matches Cmd::Show { id, raw } ==> (raw ==> c == Call::Ics(id)) && (!raw ==> c
                == Call::Get(id))
            &&& cmd matches Cmd::NewNote { id, title } ==> (c matches Call::NewNote(i, t) && i == id
                && (title is None ==> t@.len() == 0) && (title matches Some(x) ==> t@ == x@))
            &&& cmd matches Cmd::Edit { id, to } ==> (c matches Call::Edit(i, ch) && i == id
                && ch.summary == to.title && ch.due_text == to.due && ch.priority == to.priority
                && ch.list == to.list && ch.repeat_text == to.repeat)
            &&& cmd matches Cmd::Add(a) ==> (c matches Call::Add(s) && s.text@ == join(
                texts(a.words@),
                " "@,
            ) && s.list == a.list && s.due_text == a.due && s.priority == a.priority
                && s.description == a.note && s.repeat_text == a.repeat && s.url == a.url
                && s.source == a.source && s.linked_notes == a.attach && s.parse == !a.literal)
            &&& cmd matches Cmd::Link { list: Some(l), repo: Some(p) } ==> (c matches Call::Link(
                x,
                y,
            ) && x@ == trim(l@) && y@ == trim(p@))
            &&& cmd matches Cmd::Unlink { repo } ==> (c matches Call::Unlink(x, y) && x@ == trim(
                repo@,
            ) && y == repo)
            &&& cmd matches Cmd::NewList { name, color } ==> (c matches Call::CreateList {
                name: n,
                color: k,
            } && n@ == join(texts(name@), " "@) && k == color)
            &&& cmd matches Cmd::RenameList { list, name } ==> (c matches Call::UpdateList {
                list: l,
                name: Some(n),
                color: None,
            } && l == list && n@ == join(texts(name@), " "@))
            &&& cmd matches Cmd::ColorList { list, color } ==> (c matches Call::UpdateList {
                list: l,
                name: None,
                color: Some(k),
            } && l == list && k == color)
            &&& cmd is Lists || cmd is Clear || cmd is RemoveList ==> c is Lists
            &&& cmd is Sync ==> c is Sync
            &&& cmd is Status ==> c is Status
            &&& cmd is Logout ==> c is Logout
            &&& cmd matches Cmd::Login { server, username: Some(u), password: Some(p) } ==> (
            c matches Call::LoginPassword(x, y, z) && x == server && y == u && z@ == trim(p@))
            &&& cmd matches Cmd::Login { server, username: None, password } ==> c == Call::Login(
                server,
            )
            &&& cmd matches Cmd::Login { server, username, password: None } ==> c == Call::Login(
                server,
            )
            &&& cmd matches Cmd::Settings(ch) ==> (c == Call::SetSettings(ch) || c is Settings)
        },
        // Editing is refused only when there is nothing to change.
        cmd matches Cmd::Edit { id, to } ==> r is Err == (to.title is None && to.due is None
            && to.priority is None && to.note is None && to.list is None && to.repeat is None),
{
}

/// Asked with no change, `settings` shows them; asked with any, it sets that.
pub proof fn settings_are_set_when_given(ch: SettingsChange, r: Result<Call, &'static str>)
    requires
        call_ensures(first_call, (Cmd::Settings(ch),), r),
    ensures
        r matches Ok(c) && (c is Settings == (ch.inbox is None && ch.interval is None
            && ch.snooze is None && ch.alarm_at_due is None && ch.alarm_before is None
            && ch.notes is None)) && (c is Settings || c == Call::SetSettings(ch)),
{
}

// -- deleting -----------------------------------------------------------------------------------

/// Nothing is deleted that was not agreed to: asked and refused, it is kept.
pub proof fn deleting_is_agreed_to(d: Deletion, yes: bool, r: Result<String, &'static str>)
    requires
        call_ensures(settled, (d, yes), r),
    ensures
        d is Nothing ==> r is Err,
        d is Ask && !yes ==> r is Err,
        d matches Deletion::Ask { question, href } ==> (yes ==> r == Ok::<String, &'static str>(
            href,
        )),
        d matches Deletion::Go { href } ==> r == Ok::<String, &'static str>(href),
{
}

/// A list is deleted only when one alone has that address or that name, in
/// any case of its letters; and only after a question, unless told not to ask.
pub proof fn one_list_is_deleted(
    lists: &[ListView],
    key: &str,
    yes: bool,
    r: Result<Deletion, String>,
    i: int,
)
    requires
        0 <= i < lists@.len(),
        call_ensures(remove_list, (lists, key, yes), r),
    ensures
        ({
            let named = |l: ListView|
                l.href@ == key@ || ascii_upper_text(l.name@) == ascii_upper_text(trim(key@));
            let alone = named(lists@[i]) && forall|j: int|
                0 <= j < lists@.len() && j != i ==> !named(#[trigger] lists@[j]);
            alone ==> (r matches Ok(d) && match d {
                Deletion::Nothing => false,
                Deletion::Go { href } => yes && href@ == lists@[i].href@,
                Deletion::Ask { question, href } => !yes && href@ == lists@[i].href@,
            })
        }),
        ({
            let named = |l: ListView|
                l.href@ == key@ || ascii_upper_text(l.name@) == ascii_upper_text(trim(key@));
            (forall|j: int| 0 <= j < lists@.len() ==> !named(#[trigger] lists@[j])) ==> r is Err
        }),
{
    let p = crate::cli::means(key@);
    let m = lists@.filter(p);
    let named = |l: ListView|
        l.href@ == key@ || ascii_upper_text(l.name@) == ascii_upper_text(trim(key@));
    assert(forall|l: ListView| #[trigger] p(l) == named(l));
    if forall|j: int| 0 <= j < lists@.len() ==> !named(#[trigger] lists@[j]) {
        if m.len() > 0 {
            lists@.lemma_filter_pred(p, 0);
            lists@.lemma_filter_contains_rev(p, m[0]);
        }
    }
    if named(lists@[i]) && forall|j: int|
        0 <= j < lists@.len() && j != i ==> !named(#[trigger] lists@[j]) {
        lemma_only(lists@, p, i);
    }
}

proof fn lemma_only(s: Seq<ListView>, p: spec_fn(ListView) -> bool, i: int)
    requires
        0 <= i < s.len(),
        p(s[i]),
        forall|j: int| 0 <= j < s.len() && j != i ==> !p(#[trigger] s[j]),
    ensures
        s.filter(p) == seq![s[i]],
    decreases s.len(),
{
    reveal(Seq::filter);
    let t = s.drop_last();
    if i == s.len() - 1 {
        if t.filter(p).len() > 0 {
            t.lemma_filter_pred(p, 0);
            t.lemma_filter_contains_rev(p, t.filter(p)[0]);
            let j = choose|j: int| 0 <= j < t.len() && t[j] == t.filter(p)[0];
            assert(!p(s[j]));
        }
        assert(t.filter(p) =~= Seq::empty());
        assert(s.filter(p) =~= seq![s[i]]);
    } else {
        assert forall|j: int| 0 <= j < t.len() && j != i implies !p(#[trigger] t[j]) by {
            assert(t[j] == s[j]);
        }
        lemma_only(t, p, i);
        assert(!p(s[s.len() - 1]));
    }
}

/// Completed tasks of every list are deleted after a question that says how
/// many, unless told not to ask; none, and nothing is done.
pub proof fn clearing_asks_first(
    lists: &[ListView],
    list: Option<&str>,
    yes: bool,
    r: Result<Deletion, String>,
)
    requires
        list is None,
        crate::cli::done_in(lists@) <= usize::MAX,
        call_ensures(clear_completed, (lists, list, yes), r),
    ensures
        r is Ok,
        (forall|i: int| 0 <= i < lists@.len() ==> !(#[trigger] lists@[i]).writable || lists@[i].done
            == 0) ==> r == Ok::<Deletion, String>(Deletion::Nothing),
        (exists|i: int| 0 <= i < lists@.len() && (#[trigger] lists@[i]).writable && lists@[i].done
            > 0) ==> match r {
            Ok(Deletion::Go { href }) => yes && href@.len() == 0,
            Ok(Deletion::Ask { question, href }) => !yes && href@.len() == 0,
            _ => false,
        },
{
    lemma_done(lists@);
}

proof fn lemma_done(s: Seq<ListView>)
    ensures
        (crate::cli::done_in(s) == 0) == (forall|i: int|
            0 <= i < s.len() ==> !(#[trigger] s[i]).writable || s[i].done == 0),
    decreases s.len(),
{
    if s.len() > 0 {
        let t = s.drop_last();
        lemma_done(t);
        assert(forall|i: int| 0 <= i < t.len() ==> t[i] == s[i]);
        assert(s.last() == s[s.len() - 1]);
    }
}

/// `y` and `yes` mean yes, in any case and with space around; nothing else
/// does.
pub proof fn only_yes_means_yes(answer: &str, r: bool)
    requires
        call_ensures(is_yes, (answer,), r),
    ensures
        r == (lowercase_text(trim(answer@)) == "y"@ || lowercase_text(trim(answer@)) == "yes"@),
{
}

/// `default` takes a setting back, in any case of its letters; anything else
/// sets it.
pub proof fn default_takes_back(given: Option<String>, r: Option<Option<String>>)
    requires
        call_ensures(or_default, (given,), r),
    ensures
        given is None ==> r is None,
        given matches Some(s) ==> r == Some(
            if ascii_upper_text(s@) == ascii_upper_text("default"@) {
                None
            } else {
                Some(s)
            },
        ),
{
}

// -- what is said -------------------------------------------------------------------------------

/// A task that was completed is said so; one that repeats has moved on, and
/// its next date is said.
pub proof fn done_says_what_comes_next(s: &Style, t: &TaskView, next: &str, r: String)
    requires
        !s.color,
        call_ensures(say_done, (s, t, next), r),
    ensures
        t.task.open && t.task.rrule is Some && t.task.due is Some ==> r@ == "Done: "@
            + t.task.summary@ + "; next "@ + next@,
        !(t.task.open && t.task.rrule is Some && t.task.due is Some) ==> r@ == "Done: "@
            + t.task.summary@,
{
    reveal_strlit("Done:");
    reveal_strlit(" ");
    reveal_strlit("Done: ");
    assert("Done: "@ =~= "Done:"@ + " "@);
    assert("Done: "@ + t.task.summary@ + Seq::<char>::empty() =~= "Done: "@ + t.task.summary@);
}

/// A sync that did nothing is up to date; one that did says how much was
/// sent, received and removed.
pub proof fn reports_say_how_much(p: &Report, r: String)
    requires
        call_ensures(say_report, (p,), r),
    ensures
        !p.changed ==> r@ == "Up to date."@,
        p.changed && p.pushed > 0 && p.fetched == 0 && p.removed == 0 ==> r@ == "Synced: "@
            + decimal(p.pushed as nat) + " sent"@ + "."@,
        p.changed && p.pushed == 0 && p.fetched > 0 && p.removed == 0 ==> r@ == "Synced: "@
            + decimal(p.fetched as nat) + " received"@ + "."@,
        p.changed && p.pushed == 0 && p.fetched == 0 && p.removed > 0 ==> r@ == "Synced: "@
            + decimal(p.removed as nat) + " removed"@ + "."@,
        p.changed && p.pushed == 0 && p.fetched == 0 && p.removed == 0 ==> r@ == "Synced: "@
            + "lists updated"@ + "."@,
        p.changed && p.pushed > 0 && p.fetched > 0 && p.removed > 0 ==> r@ == "Synced: "@ + (
        decimal(p.pushed as nat) + " sent"@ + ", "@ + (decimal(p.fetched as nat) + " received"@)
            + ", "@ + (decimal(p.removed as nat) + " removed"@)) + "."@,
{
    let (a, b, c) = (
        decimal(p.pushed as nat) + " sent"@,
        decimal(p.fetched as nat) + " received"@,
        decimal(p.removed as nat) + " removed"@,
    );
    let q = crate::cli::report_parts(*p);
    if p.changed {
        if p.pushed > 0 && p.fetched == 0 && p.removed == 0 {
            assert(q =~= seq![a]);
            assert("Synced: "@ + a + "."@ =~= "Synced: "@ + decimal(p.pushed as nat) + " sent"@
                + "."@);
        }
        if p.pushed == 0 && p.fetched > 0 && p.removed == 0 {
            assert(q =~= seq![b]);
            assert("Synced: "@ + b + "."@ =~= "Synced: "@ + decimal(p.fetched as nat)
                + " received"@ + "."@);
        }
        if p.pushed == 0 && p.fetched == 0 && p.removed > 0 {
            assert(q =~= seq![c]);
            assert("Synced: "@ + c + "."@ =~= "Synced: "@ + decimal(p.removed as nat)
                + " removed"@ + "."@);
        }
        if p.pushed > 0 && p.fetched > 0 && p.removed > 0 {
            reveal_with_fuel(join, 3);
            assert(q =~= seq![a, b, c]);
            assert(q.drop_last() =~= seq![a, b]);
            assert(q.drop_last().drop_last() =~= seq![a]);
        }
    }
}

/// The status says who is signed in and where, and what sync is doing; what
/// waits to be sent is counted.
pub proof fn status_says_the_account(s: &Style, st: &StatusView, now: Moment, r: Vec<String>)
    requires
        !s.color,
        now.wf(),
        crate::task::moment_wf(st.last_sync),
        st.message is None,
        call_ensures(say_status, (s, st, now), r),
    ensures
        r@.len() == (if st.pending > 0 {
            3int
        } else {
            2
        }),
        st.username matches Some(u) ==> (st.server matches Some(h) ==> r@[0]@ == "Signed in as "@
            + u@ + " on "@ + h@),
        st.username is None || st.server is None ==> r@[0]@
            == "Not signed in. Run `asst login <server>`."@,
        st.last_sync is None ==> r@[1]@ == "Sync: "@ + (match st.state {
            SyncState::Idle => "up to date"@,
            SyncState::Syncing => "syncing"@,
            SyncState::Offline => "offline"@,
            SyncState::Error => "error"@,
            SyncState::NoAccount => "no account"@,
        }),
        st.pending == 1 ==> r@[2]@ == "1 change waiting to be sent"@,
        st.pending > 1 ==> r@[2]@ == decimal(st.pending as nat) + " changes waiting to be sent"@,
{
    let all = crate::cli::status_lines(false, *st, now);
    assert(texts(r@) == all);
    assert(texts(r@).len() == r@.len());
    assert(texts(r@)[0] == r@[0]@ && texts(r@)[1] == r@[1]@);
    if st.pending > 0 {
        assert(texts(r@)[2] == r@[2]@);
    }
    let none = Seq::<char>::empty();
    if st.last_sync is None {
        let w = crate::cli::state_word(false, st.state);
        assert("Sync: "@ + w + none =~= "Sync: "@ + w);
    }
    reveal_strlit(" change");
    reveal_strlit("s");
    reveal_strlit(" waiting to be sent");
    reveal_strlit("1 change waiting to be sent");
    reveal_strlit(" changes waiting to be sent");
    if st.pending == 1 {
        reveal_with_fuel(decimal, 2);
        assert(decimal(1) =~= seq!['1']);
        assert(r@[2]@ =~= "1 change waiting to be sent"@);
    }
    if st.pending > 1 {
        let n = decimal(st.pending as nat);
        assert(n + " change"@ + "s"@ + " waiting to be sent"@ =~= n
            + " changes waiting to be sent"@);
    }
}

/// Of an error, what the daemon said is said, without the bus's name for it;
/// when nobody answers, how to start the daemon.
pub proof fn errors_say_what_was_said(f: &Failure, r: String)
    requires
        call_ensures(message, (f,), r),
    ensures
        f.cause matches Cause::Said(m) ==> r@ == m@,
        f.cause is Unknown ==> r@ == "asstd is not running (systemctl --user start asstd)"@,
        f.cause is Other ==> r@ == f.shown@,
        f.cause matches Cause::Method { name, text: Some(t) } ==> r@ == (if name@
            == "org.freedesktop.DBus.Error.ServiceUnknown"@ {
            "asstd is not running (systemctl --user start asstd)"@
        } else {
            t@
        }),
        f.cause matches Cause::Method { name, text: None } ==> r@ == f.shown@,
{
}

} // verus!
