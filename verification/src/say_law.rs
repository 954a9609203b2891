//! What the command line says of tasks and settings, and how the window
//! starts.

use vstd::prelude::*;

use crate::cli::{
    Cause, Failure, LinkView, SettingsWords, ShowWords, describe, description_lines, label,
    note_rows, open_failed, reminder_rows, say_added, say_linked, say_links, say_recolored,
    say_settings, say_show, say_tasks, say_unlinked, show_head, show_row, sign_in_words, some_row,
};
use crate::number::decimal;
use crate::out::{DueWords, Style, filled, painted, task_line};
use crate::prefs::Prefs;
use crate::render::Page;
use crate::said::{Done, Output, Raw, output};
use crate::settings::Settings;
use crate::start::{Run, Start, attached, ends_at_once, read_args, starts_hidden};
use crate::task::{ListView, TaskView};
use crate::text::{join, lines, text_opt, texts};
use crate::window::Window;

verus! {

proof fn lemma_either(a: Seq<Seq<char>>, b: Seq<Seq<char>>, x: Seq<char>)
    ensures
        (a + b).contains(x) <==> a.contains(x) || b.contains(x),
{
    let z = a + b;
    if a.contains(x) {
        let i = choose|i: int| 0 <= i < a.len() && a[i] == x;
        assert(z[i] == x);
    }
    if b.contains(x) {
        let i = choose|i: int| 0 <= i < b.len() && b[i] == x;
        assert(z[a.len() + i] == x);
    }
    if z.contains(x) {
        let i = choose|i: int| 0 <= i < z.len() && z[i] == x;
        if i < a.len() {
            assert(a[i] == x);
        } else {
            assert(b[i - a.len()] == x);
        }
    }
}

// -- tasks --------------------------------------------------------------------------------------

/// Tasks are listed a line each, in the order they have; without any, that is
/// said.
pub proof fn tasks_have_a_line_each(
    style: &Style,
    tasks: &[(TaskView, Option<DueWords>)],
    show_list: bool,
    empty: &str,
    r: Vec<String>,
    i: int,
    line: String,
)
    requires
        call_ensures(say_tasks, (style, tasks, show_list, empty), r),
        0 <= i < tasks@.len() ==> call_ensures(
            task_line,
            (style, &tasks@[i].0, &tasks@[i].1, show_list),
            line,
        ),
    ensures
        tasks@.len() == 0 ==> r@.len() == 1 && r@[0]@ == painted(style.color, "2"@, empty@),
        tasks@.len() > 0 ==> r@.len() == tasks@.len(),
        0 <= i < tasks@.len() ==> r@[i]@ == line@,
{
    let v = texts(r@);
    assert(v.len() == r@.len());
    assert forall|k: int| 0 <= k < v.len() implies #[trigger] v[k] == r@[k]@ by {}
    if tasks@.len() == 0 {
        assert(v[0] == r@[0]@);
    }
    if 0 <= i < tasks@.len() {
        assert(v[i] == r@[i]@);
    }
}

/// What is said of a task that was added starts with whether it was there.
pub proof fn added_tasks_have_a_line(
    style: &Style,
    existed: bool,
    t: &TaskView,
    due: &Option<DueWords>,
    r: String,
    line: String,
)
    requires
        call_ensures(say_added, (style, existed, t, due), r),
        call_ensures(task_line, (style, t, due, true), line),
    ensures
        existed ==> r@ == painted(style.color, "2"@, "Already there:"@) + " "@ + line@,
        !existed ==> r@ == painted(style.color, "2"@, "Added"@) + " "@ + line@,
{
}

/// A task that is shown has its title and rows for what it has: each row says
/// what it is about, and what the task has of that.
pub proof fn tasks_are_shown_in_rows(style: &Style, t: &TaskView, w: &ShowWords, r: Vec<String>)
    requires
        call_ensures(say_show, (style, t, w), r),
    ensures
        ({
            let c = style.color;
            let v = texts(r@);
            &&& v.len() >= 4 && v[0] == painted(c, "1"@, t.task.summary@)
            &&& v[1] == show_row(c, "id"@, t.task.uid@)
            &&& v[2] == show_row(c, "list"@, t.list_name@)
            &&& v[3] == show_row(c, "status"@, w.status@)
            &&& t.task.due is Some ==> v.contains(show_row(c, "due"@, w.due@))
            &&& t.task.rrule matches Some(x) ==> v.contains(show_row(c, "repeats"@, x@))
            &&& w.has_priority ==> v.contains(
                show_row(c, "priority"@, "p"@ + decimal(t.task.level as nat)),
            )
            &&& t.task.url matches Some(x) ==> v.contains(show_row(c, "url"@, x@))
            &&& t.task.source matches Some(x) ==> v.contains(show_row(c, "source"@, x@))
            &&& t.pending ==> v.contains(show_row(c, "sync"@, "waiting to be sent"@))
            &&& forall|i: int|
                0 <= i < w.reminders@.len() ==> v.contains(
                    show_row(c, "reminder"@, (#[trigger] w.reminders@[i])@),
                )
            &&& forall|i: int|
                0 <= i < w.notes@.len() ==> v.contains(
                    show_row(
                        c,
                        "note"@,
                        (#[trigger] w.notes@[i]).0@ + (if w.notes@[i].1 {
                            Seq::empty()
                        } else {
                            painted(c, "2"@, " (missing)"@)
                        }),
                    ),
                )
        }),
        // No other rows: there are as many as there is to say.
        r@.len() == 4 + one_if(t.task.due is Some) + one_if(t.task.rrule is Some) + one_if(
            w.has_priority,
        ) + w.reminders@.len() + one_if(t.task.url is Some) + one_if(t.task.source is Some)
            + w.notes@.len() + one_if(t.pending) + (match t.task.description {
            Some(d) => 1 + lines(d@).len(),
            None => 0,
        }),
{
    let c = style.color;
    let v = texts(r@);
    assert(v.len() == r@.len());
    let head = show_head(c, *t, *w);
    let due = some_row(
        c,
        "due"@,
        if t.task.due is Some {
            Some(w.due@)
        } else {
            None
        },
    );
    let rule = some_row(c, "repeats"@, text_opt(t.task.rrule));
    let level = some_row(
        c,
        "priority"@,
        if w.has_priority {
            Some("p"@ + decimal(t.task.level as nat))
        } else {
            None
        },
    );
    let rings = reminder_rows(c, *w);
    let url = some_row(c, "url"@, text_opt(t.task.url));
    let source = some_row(c, "source"@, text_opt(t.task.source));
    let notes = note_rows(c, *w);
    let sync = some_row(
        c,
        "sync"@,
        if t.pending {
            Some("waiting to be sent"@)
        } else {
            None
        },
    );
    let rest = description_lines(text_opt(t.task.description));
    let all = head + due + rule + level + rings + url + source + notes + sync + rest;
    assert(v == all);
    assert(v[0] == head[0] && v[1] == head[1] && v[2] == head[2] && v[3] == head[3]);
    assert forall|x: Seq<char>|
        due.contains(x) || rule.contains(x) || level.contains(x) || rings.contains(x)
            || url.contains(x) || source.contains(x) || notes.contains(x) || sync.contains(
            x,
        ) implies #[trigger] v.contains(x) by {
        let a = head + due;
        lemma_either(head, due, x);
        lemma_either(a, rule, x);
        lemma_either(a + rule, level, x);
        lemma_either(a + rule + level, rings, x);
        lemma_either(a + rule + level + rings, url, x);
        lemma_either(a + rule + level + rings + url, source, x);
        lemma_either(a + rule + level + rings + url + source, notes, x);
        lemma_either(a + rule + level + rings + url + source + notes, sync, x);
        lemma_either(a + rule + level + rings + url + source + notes + sync, rest, x);
    }
    if due.len() > 0 {
        assert(due.contains(due[0]));
    }
    if rule.len() > 0 {
        assert(rule.contains(rule[0]));
    }
    if level.len() > 0 {
        assert(level.contains(level[0]));
    }
    if url.len() > 0 {
        assert(url.contains(url[0]));
    }
    if source.len() > 0 {
        assert(source.contains(source[0]));
    }
    if sync.len() > 0 {
        assert(sync.contains(sync[0]));
    }
    assert forall|i: int| 0 <= i < w.reminders@.len() implies v.contains(
        show_row(c, "reminder"@, (#[trigger] w.reminders@[i])@),
    ) by {
        assert(rings.contains(rings[i]));
    }
    assert forall|i: int| 0 <= i < w.notes@.len() implies v.contains(
        show_row(
            c,
            "note"@,
            (#[trigger] w.notes@[i]).0@ + (if w.notes@[i].1 {
                Seq::empty()
            } else {
                painted(c, "2"@, " (missing)"@)
            }),
        ),
    ) by {
        assert(notes.contains(notes[i]));
    }
}

/// A row is set in from the edge, has its name first, and its value in the same
/// place as the other rows, wherever the name is short enough.
pub proof fn rows_have_name_and_value(k: Seq<char>, v: Seq<char>)
    requires
        k.len() <= 10,
    ensures
        ({
            let r = show_row(false, k, v);
            &&& r.len() == 13 + v.len()
            &&& r.take(2) == "  "@ && r.subrange(2, 2 + k.len() as int) == k
            &&& forall|i: int| 2 + k.len() <= i < 13 ==> #[trigger] r[i] == ' '
            &&& r.skip(13) == v
        }),
{
    reveal_strlit("  ");
    reveal_strlit(" ");
    let r = show_row(false, k, v);
    assert(r.take(2) =~= "  "@);
    assert(r.subrange(2, 2 + k.len() as int) =~= k);
    assert(r.skip(13) =~= v);
}

/// What is filled up starts with what it was, and has spaces after it.
pub proof fn names_are_filled_up(s: Seq<char>, w: nat)
    ensures
        filled(s, w).take(s.len() as int) == s,
        filled(s, w).len() == (if s.len() < w {
            w
        } else {
            s.len()
        }),
        forall|i: int| s.len() <= i < filled(s, w).len() ==> #[trigger] filled(s, w)[i] == ' ',
{
    assert(filled(s, w).take(s.len() as int) =~= s);
}

/// What is said of several tasks at once.
pub proof fn tasks_are_counted_in_words(verb: &str, n: usize, r: String)
    requires
        call_ensures(crate::steps::say_tasks, (verb, n), r),
    ensures
        n == 1 ==> r@ == verb@ + " 1 task"@,
        n != 1 ==> r@ == verb@ + " "@ + decimal(n as nat) + " tasks"@,
{
}

/// One where something is so, and none where it is not.
pub open spec fn one_if(b: bool) -> nat {
    if b {
        1
    } else {
        0
    }
}

// -- settings and lists -------------------------------------------------------------------------

/// Each setting has a row with its name and its value.
pub proof fn settings_are_said(
    style: &Style,
    s: &Settings,
    w: &SettingsWords,
    lists: &[ListView],
    r: Vec<String>,
)
    requires
        call_ensures(say_settings, (style, s, w, lists), r),
    ensures
        r@.len() == 6,
        s.inbox matches Some(name) ==> r@[0]@ == filled("inbox"@, 13) + " "@ + name@,
        r@[1]@ == filled("interval"@, 13) + " "@ + (decimal(s.interval as nat) + " s"@),
        r@[2]@ == filled("snooze"@, 13) + " "@ + join(texts(w.snooze@), ", "@),
        r@[3]@ == filled("alarm-at-due"@, 13) + " "@ + (if s.alarm_at_due {
            "yes"@
        } else {
            "no"@
        }),
        s.alarm_before == 0 ==> r@[4]@ == filled("alarm-before"@, 13) + " "@ + "at the due time"@,
        s.alarm_before > 0 ==> r@[4]@ == filled("alarm-before"@, 13) + " "@ + (w.before@
            + " before"@),
        r@[5]@ == filled("notes"@, 13) + " "@ + s.notes@,
{
    let v = texts(r@);
    assert(v.len() == r@.len());
    assert(v[0] == r@[0]@ && v[1] == r@[1]@ && v[2] == r@[2]@);
    assert(v[3] == r@[3]@ && v[4] == r@[4]@ && v[5] == r@[5]@);
}

/// A tie is said by the list's name and the repo it is tied to.
pub proof fn ties_are_said(
    style: &Style,
    l: &LinkView,
    made: String,
    links: &Vec<LinkView>,
    all: Vec<String>,
    repo: &str,
    was: bool,
    gone: Result<String, String>,
)
    requires
        call_ensures(say_linked, (style, l), made),
        call_ensures(say_links, (style, links), all),
        call_ensures(say_unlinked, (style, repo, was), gone),
    ensures
        made@ == painted(style.color, "2"@, "Linked:"@) + " "@ + (l.name@ + " ⇄ "@ + l.repo@),
        links@.len() > 0 ==> all@.len() == links@.len() && forall|i: int|
            0 <= i < links@.len() ==> (#[trigger] all@[i])@ == links@[i].name@ + " ⇄ "@
                + links@[i].repo@,
        links@.len() == 0 ==> all@.len() == 1 && all@[0]@ == painted(
            style.color,
            "2"@,
            "no list is linked; `asst link <list> <owner/repo>`"@,
        ),
        was ==> (gone matches Ok(s) && s@ == painted(style.color, "2"@, "Unlinked:"@) + " "@
            + repo@),
        !was ==> (gone matches Err(e) && e@ == repo@ + " isn't linked"@),
{
    let v = texts(all@);
    assert(v.len() == all@.len());
    assert forall|i: int| 0 <= i < v.len() implies #[trigger] v[i] == all@[i]@ by {}
    if links@.len() == 0 {
        assert(v[0] == all@[0]@);
    }
    assert forall|i: int| 0 <= i < links@.len() implies (#[trigger] all@[i])@ == links@[i].name@
        + " ⇄ "@ + links@[i].repo@ by {
        assert(v[i] == all@[i]@);
    }
}

/// A list's new color is said, and where to sign in.
pub proof fn colors_are_said(style: &Style, l: &ListView, r: String, url: &str, no: bool, s: String)
    requires
        call_ensures(say_recolored, (style, l), r),
        call_ensures(sign_in_words, (url, no), s),
    ensures
        l.color matches Some(c) ==> r@ == painted(style.color, "2"@, "Recolored:"@) + " "@ + (
        l.name@ + " is "@ + c@),
        no ==> s@ == "Open this to sign in:\n  "@ + url@,
        !no ==> s@ == "Opening the sign-in page in your browser. If nothing opens, go to:\n  "@
            + url@,
{
}

/// A dim word stands before what it is about.
pub proof fn labels_come_first(style: &Style, word: &str, rest: &str, r: String)
    requires
        call_ensures(label, (style, word, rest), r),
    ensures
        !style.color ==> r@ == word@ + " "@ + rest@,
        style.color && word@.len() > 0 ==> r@ == "\x1b["@ + "2"@ + "m"@ + word@ + "\x1b[0m"@ + " "@
            + rest@,
{
}

/// What the window says of an error is what the daemon said, where it said
/// something; where it is not there, how to start it.
pub proof fn errors_are_described(f: &Failure, r: String, o: String)
    requires
        call_ensures(describe, (f,), r),
        call_ensures(open_failed, (f,), o),
    ensures
        f.cause is Unknown ==> r@ == "asstd is not running (systemctl --user start asstd)"@,
        f.cause matches Cause::Said(m) ==> r@ == m@,
        f.cause is Other ==> r@ == f.shown@,
        f.cause matches Cause::Method { name, text } ==> name@
            == "org.freedesktop.DBus.Error.ServiceUnknown"@ ==> r@
            == "asstd is not running (systemctl --user start asstd)"@ && o@
            == "the window didn't open: "@ + "nothing on the bus starts it"@
            + " (is asst-gtk installed, with its D-Bus service file?)"@,
        f.cause matches Cause::Method { name, text } ==> name@
            != "org.freedesktop.DBus.Error.ServiceUnknown"@ ==> (text matches Some(t) ==> r@ == t@
            && o@ == "the window didn't open: "@ + t@
            + " (is asst-gtk installed, with its D-Bus service file?)"@),
        f.cause matches Cause::Method { name, text } ==> name@
            != "org.freedesktop.DBus.Error.ServiceUnknown"@ ==> text is None ==> r@ == f.shown@,
{
}

// -- printing -----------------------------------------------------------------------------------

/// The lines that are printed.
pub open spec fn prints_lines(r: Output, v: Seq<Seq<char>>) -> bool {
    r matches Output::Lines(l) && texts(l@) == v
}

/// A dim word and what follows it.
pub open spec fn dim_then(style: Style, word: Seq<char>, rest: Seq<char>) -> Seq<char> {
    painted(style.color, "2"@, word) + " "@ + rest
}

/// What is printed of what a command did says what was done, and to what.
pub proof fn what_was_done_is_printed(style: &Style, raw: Raw, d: Done, r: Output)
    requires
        call_ensures(output, (style, false, raw, d), r),
    ensures
        d matches Done::Reopened(t) ==> prints_lines(r, seq![dim_then(*style, "Reopened:"@, t@)]),
        d matches Done::Deleted(t) ==> prints_lines(r, seq![dim_then(*style, "Deleted:"@, t@)]),
        d matches Done::Cleared(n) ==> prints_lines(
            r,
            seq![dim_then(*style, "Deleted:"@, decimal(n as nat))],
        ),
        d matches Done::Created(l) ==> prints_lines(
            r,
            seq![dim_then(*style, "Created:"@, l.name@)],
        ),
        d matches Done::Renamed(l) ==> prints_lines(
            r,
            seq![dim_then(*style, "Renamed:"@, l.name@)],
        ),
        d matches Done::Untied(p) ==> prints_lines(r, seq![dim_then(*style, "Unlinked:"@, p@)]),
        d matches Done::Noted(f) ==> prints_lines(r, seq![f@]),
        d matches Done::NotCleared(t) ==> prints_lines(r, seq![t@]),
        d matches Done::Kept(t) ==> prints_lines(r, seq![t@]),
        d matches Done::Calendar(t) ==> r == Output::Text(t),
        d is SignedOut ==> prints_lines(
            r,
            seq![
                "Signed out; the app password is gone from the keyring. Revoke it on the server under Settings → Security."@,
            ],
        ),
{
}

/// A task that was changed or copied is printed in a line.
pub proof fn tasks_are_printed(
    style: &Style,
    raw: Raw,
    d: Done,
    r: Output,
    t: TaskView,
    due: Option<DueWords>,
    line: String,
)
    requires
        call_ensures(output, (style, false, raw, d), r),
        call_ensures(task_line, (style, &t, &due, true), line),
    ensures
        d == Done::Changed((t, due)) ==> prints_lines(r, seq![line@]),
        d == Done::Copied((t, due)) ==> prints_lines(r, seq![dim_then(*style, "Copied:"@, line@)]),
{
}

/// Asked for JSON, a command prints the answer as it came, laid out for
/// reading on a terminal when it came whole; what was cleared is a number.
pub proof fn answers_are_printed_as_they_came(style: &Style, raw: Raw, d: Done, r: Output)
    requires
        call_ensures(output, (style, true, raw, d), r),
    ensures
        d matches Done::Cleared(n) ==> (r matches Output::Json(s, p) && s@ == decimal(n as nat)
            && !p),
        d is NotCleared ==> (r matches Output::Json(s, p) && s@ == decimal(0) && !p),
        d matches Done::Calendar(t) ==> r == Output::Quoted(t),
        !(d is Cleared || d is NotCleared || d is Calendar || d is SigningIn) ==> {
            &&& raw is Nothing ==> r is Nothing
            &&& raw matches Raw::Whole(s) ==> r == Output::Json(s, style.color)
            &&& raw matches Raw::Line(s) ==> r == Output::Json(s, false)
        },
{
}

// -- starting -----------------------------------------------------------------------------------

/// What the first argument asks for.
pub proof fn arguments_are_read(args: &Vec<String>, r: Run)
    requires
        call_ensures(read_args, (args,), r),
    ensures
        args@.len() == 0 ==> r == Run::Window(Start::Window),
        args@.len() > 0 ==> {
            let a = args@[0]@;
            &&& a == "--background"@ ==> r == Run::Window(Start::Background)
            &&& a == "--gapplication-service"@ ==> r == Run::Window(Start::Service)
            &&& a == "quick-add"@ ==> r is QuickAdd
            &&& a == "-h"@ || a == "--help"@ ==> r is Help
            &&& a != "--background"@ && a != "--gapplication-service"@ && a != "quick-add"@ && a
                != "-h"@ && a != "--help"@ ==> r is Unknown
        },
{
    if args@.len() > 0 {
        assert(texts(args@)[0] == args@[0]@);
    }
    reveal_strlit("--background");
    reveal_strlit("--gapplication-service");
    reveal_strlit("quick-add");
    reveal_strlit("-h");
    reveal_strlit("--help");
    assert("--background"@.len() == 12 && "--gapplication-service"@.len() == 22
        && "quick-add"@.len() == 9 && "-h"@.len() == 2 && "--help"@.len() == 6);
}

/// Quick add has the note that is named after `--attach`, and those named
/// after it.
pub proof fn notes_are_attached(args: &Vec<String>, r: Run)
    requires
        call_ensures(read_args, (args,), r),
        args@.len() >= 3,
        args@[0]@ == "quick-add"@,
        args@[1]@ == "--attach"@,
    ensures
        r matches Run::QuickAdd(notes) && notes@.len() > 0 && notes@[0]@ == args@[2]@
            && texts(notes@).skip(1) == attached(texts(args@).skip(3)),
{
    arguments_are_read(args, r);
    let a = texts(args@);
    assert(a[0] == args@[0]@ && a[1] == args@[1]@ && a[2] == args@[2]@);
    reveal_strlit("--background");
    reveal_strlit("--gapplication-service");
    reveal_strlit("quick-add");
    assert("--background"@.len() == 12 && "--gapplication-service"@.len() == 22
        && "quick-add"@.len() == 9);
    let b = a.skip(1);
    assert(b[0] == a[1] && b[1] == a[2]);
    assert(b.skip(2) =~= a.skip(3));
    if let Run::QuickAdd(notes) = r {
        let v = texts(notes@);
        assert(v.len() == notes@.len());
        assert(v == seq![b[1]] + attached(b.skip(2)));
        assert(v[0] == notes@[0]@);
        assert(v.skip(1) =~= attached(b.skip(2)));
    }
}

/// In the background it starts hidden where there is a tray, and not at all
/// where it runs already.
pub proof fn it_starts_in_the_background(start: Start, running: bool, p: &Prefs, e: bool, h: bool)
    requires
        call_ensures(ends_at_once, (start, running), e),
        call_ensures(starts_hidden, (start, p), h),
    ensures
        e <==> start is Background && running,
        h <==> start is Background && p.background,
{
}

/// What fills the window: an error first, then signing in, then that it
/// loads, and the tasks when none of these is so.
pub proof fn pages_go_by_what_is_wrong(w: &Window, r: Page)
    requires
        call_ensures(Window::page, (w,), r),
    ensures
        r is Error <==> w.error is Some,
        r is SignIn <==> w.error is None && (w.status matches Some(s) && s.state is NoAccount),
        r is Tasks <==> w.error is None && w.loaded && !(w.status matches Some(s) && s.state
            is NoAccount),
        r is Loading <==> w.error is None && !w.loaded && !(w.status matches Some(s) && s.state
            is NoAccount),
{
}

/// What is said of how many are selected.
pub proof fn selections_are_counted(w: &Window, r: String)
    requires
        call_ensures(Window::selection_label, (w,), r),
    ensures
        w.selected@.len() == 0 ==> r@ == "Select tasks"@,
        w.selected@.len() == 1 ==> r@ == "1 selected"@,
        w.selected@.len() > 1 ==> r@ == decimal(w.selected@.len()) + " selected"@,
{
}

} // verus!
