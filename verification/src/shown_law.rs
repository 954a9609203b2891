//! What the column, the bar and the tray show, what Enter does in notes, and
//! what starts at login.

use vstd::prelude::*;

use crate::addcard::{Target, TargetView};
use crate::autostart::{
    READS_AUTOSTART, command, config_home, entry_text, is_enabled, join_path, reads_autostart,
    runs_asst, tilde_with,
};
use crate::bar::{Line, escape, escaped, offline, render};
use crate::content::{
    Block, BlockView, Header, any_task, blocks, blocks_to, card_placed, column, empty_words, header,
    section_blocks, subtitle, target_opt,
};
use crate::date::{Date, written};
use crate::nav::Nav;
use crate::notes::{Enter, on_enter};
use crate::number::{all_digits, decimal, value};
use crate::plan::{Kind, Section, SectionView, sections};
use crate::task::{StatusView, TaskView};
use crate::text::{
    blank, contains, digit, join, lines, occurs_at, starts_with, texts, trim, trim_start, white,
};
use crate::tray::State;

verus! {

// -- the column ---------------------------------------------------------------------------------

/// A section's header has one date for what is overdue, a way to add a task
/// for its day or to its list, and nothing else.
pub proof fn headers_add_where_it_belongs(kind: &Kind, r: Header)
    requires
        call_ensures(header, (kind,), r),
    ensures
        *kind is Overdue ==> r is Reschedule,
        *kind matches Kind::Day(d) ==> (r matches Header::Add(t) && t matches Target::Day(e) && e
            == d),
        *kind matches Kind::List(h) ==> (r matches Header::Add(t) && t matches Target::List(g)
            && g@ == h@),
        !(*kind is Overdue || *kind is Day || *kind is List) ==> r is Nothing,
{
}

proof fn lemma_blocks(s: Seq<SectionView>, n: int, adding: Option<TargetView>, b: BlockView)
    requires
        0 <= n <= s.len(),
    ensures
        blocks_to(s, n, adding).contains(b) <==> exists|i: int|
            0 <= i < n && (#[trigger] section_blocks(s, i, adding)).contains(b),
    decreases n,
{
    if n > 0 {
        lemma_blocks(s, n - 1, adding, b);
        let x = blocks_to(s, n - 1, adding);
        let y = section_blocks(s, n - 1, adding);
        lemma_either(x, y, b);
    }
}

proof fn lemma_either(x: Seq<BlockView>, y: Seq<BlockView>, b: BlockView)
    ensures
        (x + y).contains(b) <==> x.contains(b) || y.contains(b),
{
    let z = x + y;
    if x.contains(b) {
        let i = choose|i: int| 0 <= i < x.len() && x[i] == b;
        assert(z[i] == b);
    }
    if y.contains(b) {
        let i = choose|i: int| 0 <= i < y.len() && y[i] == b;
        assert(z[x.len() + i] == b);
    }
    if z.contains(b) {
        let i = choose|i: int| 0 <= i < z.len() && z[i] == b;
        if i < x.len() {
            assert(x[i] == b);
        } else {
            assert(y[i - x.len()] == b);
        }
    }
}

/// The column has the sections that have tasks or are kept, the card while
/// tasks are added, and words when there are none and none are added.
pub proof fn columns_show_what_there_is(v: &Vec<Section>, adding: &Option<Target>, r: Vec<Block>)
    requires
        call_ensures(column, (v, adding), r),
    ensures
        forall|i: int| #[trigger]
            blocks(r@).contains(BlockView::Section(i)) <==> 0 <= i < v@.len() && (sections(
                v@,
            )[i].tasks.len() > 0 || sections(v@)[i].keep),
        blocks(r@).contains(BlockView::Card) <==> *adding is Some,
        blocks(r@).contains(BlockView::Empty) <==> *adding is None && forall|i: int|
            0 <= i < v@.len() ==> (#[trigger] sections(v@)[i]).tasks.len() == 0,
{
    let s = sections(v@);
    let a = target_opt(*adding);
    let n = s.len() as int;
    assert(s.len() == v@.len());
    let x = blocks_to(s, n, a);
    let y = if a is Some && !card_placed(s, n, a) {
        seq![BlockView::Card]
    } else {
        Seq::empty()
    };
    let z = if !any_task(s) && a is None {
        seq![BlockView::Empty]
    } else {
        Seq::empty()
    };
    assert(blocks(r@) == x + y + z);
    assert forall|b: BlockView| #[trigger] blocks(r@).contains(b) <==> x.contains(b) || y.contains(b)
        || z.contains(b) by {
        lemma_either(x + y, z, b);
        lemma_either(x, y, b);
    }
    if y.len() > 0 {
        assert(y[0] == BlockView::Card);
    }
    if z.len() > 0 {
        assert(z[0] == BlockView::Empty);
    }
    assert forall|i: int| #[trigger] blocks(r@).contains(BlockView::Section(i)) <==> 0 <= i
        < v@.len() && (s[i].tasks.len() > 0 || s[i].keep) by {
        lemma_blocks(s, n, a, BlockView::Section(i));
        if 0 <= i < n && (s[i].tasks.len() > 0 || s[i].keep) {
            assert(section_blocks(s, i, a)[0] == BlockView::Section(i));
        }
    }
    lemma_blocks(s, n, a, BlockView::Card);
    if card_placed(s, n, a) {
        let i = choose|i: int|
            0 <= i < n && #[trigger] crate::content::target_of(s[i].kind) is Some
                && crate::content::target_of(s[i].kind) == a && (s[i].tasks.len() > 0 || s[i].keep);
        assert(section_blocks(s, i, a)[1] == BlockView::Card);
    }
    lemma_blocks(s, n, a, BlockView::Empty);
}

/// Under a view's title stands how many tasks it shows; Today says the date,
/// and Completed nothing. A list that is put away says so.
pub proof fn subtitles_say_how_many(
    nav: &Nav,
    open: usize,
    today: Date,
    archived: bool,
    r: Option<String>,
)
    requires
        call_ensures(subtitle, (nav, open, today, archived), r),
    ensures
        r is None <==> *nav is Completed,
        ({
            let end = if archived {
                " · Archived"@
            } else {
                ""@
            };
            r matches Some(s) ==> {
                &&& *nav is Today ==> s@ == written(today.ce as int, "%A, %B %-d"@) + end
                &&& !(*nav is Today) && open == 0 ==> s@ == "Nothing to do"@ + end
                &&& !(*nav is Today) && open == 1 ==> s@ == "1 task"@ + end
                &&& !(*nav is Today) && open > 1 ==> s@ == decimal(open as nat) + " tasks"@ + end
            }
        }),
{
    reveal_strlit("");
    if let Some(s) = r {
        assert(s@ + ""@ =~= s@);
    }
}

/// What is said where there are no tasks.
pub proof fn empty_views_say_so(nav: &Nav, r: (&'static str, &'static str, &'static str))
    requires
        call_ensures(empty_words, (nav,), r),
    ensures
        *nav is Today ==> r.1@ == "All clear"@ && r.2@
            == "Nothing is due today. Press a to add a task."@,
        *nav is Completed ==> r.1@ == "Nothing completed yet"@ && r.2@
            == "Completed tasks show up here."@,
        *nav is Tomorrow ==> r.1@ == "Nothing tomorrow"@ && r.2@
            == "Press a to add a task for tomorrow."@,
        *nav is Repeating ==> r.1@ == "No repeating tasks"@ && r.2@
            == "Give a task a repeat, like every monday."@,
        *nav is Inbox || *nav is Scheduled || *nav is Anytime || *nav is All || *nav is List
            ==> r.1@ == "Add some tasks"@ && r.2@ == "Press a to add a task."@,
{
}

// -- notes --------------------------------------------------------------------------------------

/// Spaces and tabs alone.
pub open spec fn indenting(s: Seq<char>) -> bool {
    forall|i: int| 0 <= i < s.len() ==> #[trigger] s[i] == ' ' || s[i] == '\t'
}

/// What Enter does: it starts an item as far in, or ends the list where the
/// item says nothing.
pub open spec fn goes_on(r: Option<Enter>, body: Seq<char>, next: Seq<char>) -> bool {
    r matches Some(e) && (if blank(body) {
        e is End
    } else {
        e matches Enter::Continue(m) && m@ == next
    })
}

proof fn lemma_start(s: Seq<char>, p: Seq<char>, b: Seq<char>)
    requires
        s == p + b,
    ensures
        starts_with(s, p),
        s.skip(p.len() as int) == b,
{
    assert(s.subrange(0, p.len() as int) =~= p);
    assert(s.skip(p.len() as int) =~= b);
}

/// The start of a text by its characters.
proof fn lemma_apart(s: Seq<char>, p: Seq<char>, i: int)
    requires
        0 <= i < p.len(),
        i >= s.len() || s[i] != p[i],
    ensures
        !starts_with(s, p),
{
    if starts_with(s, p) {
        assert(s.subrange(0, p.len() as int)[i] == s[i]);
    }
}

proof fn lemma_dashes(s: Seq<char>, body: Seq<char>)
    requires
        s == "- "@ + body,
    ensures
        starts_with(s, "- [ ] "@) == starts_with(body, "[ ] "@),
        starts_with(s, "- [x] "@) == starts_with(body, "[x] "@),
        starts_with(s, "- [X] "@) == starts_with(body, "[X] "@),
{
    reveal_strlit("- ");
    reveal_strlit("- [ ] ");
    reveal_strlit("- [x] ");
    reveal_strlit("- [X] ");
    reveal_strlit("[ ] ");
    reveal_strlit("[x] ");
    reveal_strlit("[X] ");
    assert("- "@ + "[ ] "@ =~= "- [ ] "@);
    assert("- "@ + "[x] "@ =~= "- [x] "@);
    assert("- "@ + "[X] "@ =~= "- [X] "@);
    lemma_longer("- "@, "[ ] "@, body);
    lemma_longer("- "@, "[x] "@, body);
    lemma_longer("- "@, "[X] "@, body);
}

proof fn lemma_longer(a: Seq<char>, b: Seq<char>, s: Seq<char>)
    ensures
        starts_with(a + s, a + b) == starts_with(s, b),
{
    let t = a + s;
    let p = a + b;
    if starts_with(s, b) {
        assert(t.subrange(0, p.len() as int) =~= p) by {
            assert forall|i: int| 0 <= i < p.len() implies t.subrange(0, p.len() as int)[i]
                == p[i] by {
                if i >= a.len() {
                    assert(s.subrange(0, b.len() as int)[i - a.len()] == b[i - a.len()]);
                }
            }
        }
    }
    if starts_with(t, p) {
        assert(s.subrange(0, b.len() as int) =~= b) by {
            assert forall|i: int| 0 <= i < b.len() implies s.subrange(0, b.len() as int)[i]
                == b[i] by {
                assert(t.subrange(0, p.len() as int)[a.len() + i] == p[a.len() + i]);
            }
        }
    }
}

/// Enter carries a list on: a dash, a star or a dot starts the next item as it
/// started this one, a box is empty in the next, whatever it was in this one,
/// and all of it as far in. An item left empty ends the list.
pub proof fn enter_carries_bullets_on(line: &str, r: Option<Enter>, ind: Seq<char>, body: Seq<char>)
    requires
        call_ensures(on_enter, (line,), r),
        indenting(ind),
    ensures
        line@ == ind + ("- "@ + body) && !starts_with(body, "[ ] "@) && !starts_with(body, "[x] "@)
            && !starts_with(body, "[X] "@) ==> goes_on(r, body, ind + "- "@),
        line@ == ind + ("* "@ + body) ==> goes_on(r, body, ind + "* "@),
        line@ == ind + ("• "@ + body) ==> goes_on(r, body, ind + "• "@),
        line@ == ind + ("- [ ] "@ + body) ==> goes_on(r, body, ind + "- [ ] "@),
        line@ == ind + ("- [x] "@ + body) ==> goes_on(r, body, ind + "- [ ] "@),
        line@ == ind + ("- [X] "@ + body) ==> goes_on(r, body, ind + "- [ ] "@),
{
    reveal_strlit("- ");
    reveal_strlit("* ");
    reveal_strlit("• ");
    reveal_strlit("- [ ] ");
    reveal_strlit("- [x] ");
    reveal_strlit("- [X] ");
    reveal_strlit("- [");
    lemma_line(line@, ind, "- "@, body);
    lemma_line(line@, ind, "* "@, body);
    lemma_line(line@, ind, "• "@, body);
    lemma_line(line@, ind, "- [ ] "@, body);
    lemma_line(line@, ind, "- [x] "@, body);
    lemma_line(line@, ind, "- [X] "@, body);
    lemma_dashes("- "@ + body, body);
    let d = "- "@ + body;
    let s = "* "@ + body;
    let o = "• "@ + body;
    let x = "- [x] "@ + body;
    let y = "- [X] "@ + body;
    lemma_apart(s, "- [ ] "@, 0);
    lemma_apart(s, "- [x] "@, 0);
    lemma_apart(s, "- [X] "@, 0);
    lemma_apart(s, "- "@, 0);
    lemma_apart(o, "- [ ] "@, 0);
    lemma_apart(o, "- [x] "@, 0);
    lemma_apart(o, "- [X] "@, 0);
    lemma_apart(o, "- "@, 0);
    lemma_apart(o, "* "@, 0);
    lemma_apart(x, "- [ ] "@, 3);
    lemma_apart(y, "- [ ] "@, 3);
    lemma_apart(y, "- [x] "@, 3);
    lemma_apart("- "@, "- ["@, 2);
    lemma_apart("* "@, "- ["@, 0);
    lemma_apart("• "@, "- ["@, 0);
    assert("- [ ] "@.subrange(0, 3) =~= "- ["@);
    assert("- [x] "@.subrange(0, 3) =~= "- ["@);
    assert("- [X] "@.subrange(0, 3) =~= "- ["@);
}

proof fn lemma_line(line: Seq<char>, ind: Seq<char>, p: Seq<char>, body: Seq<char>)
    requires
        indenting(ind),
        p.len() > 0,
        p[0] != ' ' && p[0] != '\t',
    ensures
        line == ind + (p + body) ==> crate::notes::indent(line) == ind.len() && line.skip(
            ind.len() as int,
        ) == p + body && line.take(ind.len() as int) == ind,
        starts_with(p + body, p),
        (p + body).skip(p.len() as int) == body,
{
    lemma_start(p + body, p, body);
    crate::notes::lemma_indented(ind, p + body);
    if line == ind + (p + body) {
        assert(line.skip(ind.len() as int) =~= p + body);
        assert(line.take(ind.len() as int) =~= ind);
    }
}

/// A number of up to three digits counts on, with the dot or the bracket that
/// it had.
pub proof fn enter_counts_on(
    line: &str,
    r: Option<Enter>,
    ind: Seq<char>,
    digits: Seq<char>,
    body: Seq<char>,
)
    requires
        call_ensures(on_enter, (line,), r),
        indenting(ind),
        all_digits(digits),
        1 <= digits.len() <= 3,
    ensures
        line@ == ind + (digits + (". "@ + body)) ==> goes_on(
            r,
            body,
            ind + (decimal(value(digits) + 1) + ". "@),
        ),
        line@ == ind + (digits + (") "@ + body)) ==> goes_on(
            r,
            body,
            ind + (decimal(value(digits) + 1) + ") "@),
        ),
{
    reveal_strlit(". ");
    reveal_strlit(") ");
    if line@ == ind + (digits + (". "@ + body)) {
        lemma_numbered(line@, ind, digits, ". "@, body);
        let d = decimal(value(digits) + 1);
        assert(line@.take(ind.len() as int) + (d + ". "@) =~= ind + (d + ". "@));
    }
    if line@ == ind + (digits + (") "@ + body)) {
        lemma_numbered(line@, ind, digits, ") "@, body);
        let d = decimal(value(digits) + 1);
        assert(line@.take(ind.len() as int) + (d + ") "@) =~= ind + (d + ") "@));
    }
}

proof fn lemma_numbered(
    line: Seq<char>,
    ind: Seq<char>,
    digits: Seq<char>,
    mark: Seq<char>,
    body: Seq<char>,
)
    requires
        indenting(ind),
        all_digits(digits),
        1 <= digits.len() <= 3,
        mark == ". "@ || mark == ") "@,
        line == ind + (digits + (mark + body)),
    ensures
        crate::notes::indent(line) == ind.len(),
        line.take(ind.len() as int) == ind,
        crate::notes::item(line.skip(ind.len() as int)) == Some(
            (decimal(value(digits) + 1) + mark, body),
        ),
{
    reveal_strlit(". ");
    reveal_strlit(") ");
    reveal_strlit("- ");
    reveal_strlit("* ");
    reveal_strlit("• ");
    reveal_strlit("- [ ] ");
    reveal_strlit("- [x] ");
    reveal_strlit("- [X] ");
    let s = digits + (mark + body);
    let n = digits.len() as int;
    assert(digit(digits[0]));
    assert(s[0] == digits[0]);
    lemma_line(line, ind, digits, mark + body);
    lemma_apart(s, "- [ ] "@, 0);
    lemma_apart(s, "- [x] "@, 0);
    lemma_apart(s, "- [X] "@, 0);
    lemma_apart(s, "- "@, 0);
    lemma_apart(s, "* "@, 0);
    lemma_apart(s, "• "@, 0);
    assert((mark + body)[0] == mark[0]);
    crate::notes::lemma_run_of(digits, mark + body);
    assert(s.subrange(n, n + 2) =~= mark);
    assert(s.skip(n + 2) =~= body);
    assert(s.take(n) =~= digits);
    assert(occurs_at(s, mark, n));
}

// -- the bar and the tray -----------------------------------------------------------------------

/// The bar says how many tasks there are, and its class is what is wrong,
/// else that something is overdue, else that something is due.
pub proof fn bars_say_how_many(
    tasks: &[TaskView],
    labels: &[String],
    overdue: &[bool],
    status: &StatusView,
    r: Line,
)
    requires
        call_ensures(render, (tasks, labels, overdue, status), r),
    ensures
        tasks@.len() == 0 ==> r.text@.len() == 0,
        tasks@.len() > 0 ==> r.text@ == decimal(tasks@.len()),
        r.alt@ == r.class@,
        status.state is NoAccount || status.state is Error ==> r.class@ == "error"@,
        !(status.state is NoAccount || status.state is Error) ==> {
            &&& overdue@.contains(true) ==> r.class@ == "overdue"@
            &&& !overdue@.contains(true) && tasks@.len() > 0 ==> r.class@ == "due"@
            &&& !overdue@.contains(true) && tasks@.len() == 0 ==> r.class@ == "clear"@
        },
{
    lemma_any(overdue@);
}

proof fn lemma_any(v: Seq<bool>)
    ensures
        crate::bar::overdue_count(v) > 0 <==> v.contains(true),
    decreases v.len(),
{
    if v.len() > 0 {
        let t = v.drop_last();
        lemma_any(t);
        if t.contains(true) {
            let i = choose|i: int| 0 <= i < t.len() && t[i] == true;
            assert(v[i] == true);
        }
        if v.contains(true) && !v.last() {
            let i = choose|i: int| 0 <= i < v.len() && v[i] == true;
            assert(t[i] == true);
        }
        if v.last() {
            assert(v[v.len() - 1] == true);
        }
    }
}

/// The bar's tooltip has a line for each task, up to twelve: its title, and
/// its date where it has one. Then it says how many more there are, or that
/// there are none, and what is wrong with sync.
pub proof fn bar_tips_list_the_tasks(
    tasks: &[TaskView],
    labels: &[String],
    overdue: &[bool],
    status: &StatusView,
    r: Line,
)
    requires
        call_ensures(render, (tasks, labels, overdue, status), r),
        labels@.len() == tasks@.len(),
    ensures
        exists|tips: Seq<Seq<char>>|
            {
                let n = tasks@.len();
                let m = if n < 12 {
                    n as int
                } else {
                    12
                };
                &&& r.tooltip@ == #[trigger] join(tips, "\n"@)
                &&& tips.len() >= m
                &&& forall|i: int|
                    0 <= i < m ==> #[trigger] tips[i] == escaped(tasks@[i].task.summary@) + (
                    if tasks@[i].task.due is Some {
                        "  <i>"@ + escaped(labels@[i]@) + "</i>"@
                    } else {
                        Seq::empty()
                    })
                &&& n > 12 ==> tips.len() > 12 && tips[12] == "and "@ + decimal((n - 12) as nat)
                    + " more"@
                &&& n == 0 ==> tips.len() > 0 && tips[0] == "Nothing due today"@
                &&& status.state is Offline ==> tips.last() == "\n<small>offline, "@ + decimal(
                    status.pending as nat,
                ) + " unsent</small>"@
                &&& (status.state is Error || status.state is NoAccount) ==> (
                status.message matches Some(w) ==> tips.last() == "\n<small>"@ + escaped(w@)
                    + "</small>"@)
            },
{
    let tips = crate::bar::tip_lines(tasks@, texts(labels@), *status);
    assert(r.tooltip@ == join(tips, "\n"@));
    assert forall|i: int| 0 <= i < labels@.len() implies #[trigger] texts(labels@)[i]
        == labels@[i]@ by {}
}

/// Without the daemon the bar says why, and nothing else.
pub proof fn bars_say_what_is_wrong(error: &str, r: Line)
    requires
        call_ensures(offline, (error,), r),
    ensures
        r.text@.len() == 0,
        r.alt@ == "offline"@ && r.class@ == "offline"@,
        r.tooltip@ == "asst: "@ + escaped(error@),
{
}

/// In markup, an ampersand and angle brackets stand by their names, and any
/// other character for itself.
pub proof fn markup_is_escaped(s: &str, r: String, i: int)
    requires
        call_ensures(escape, (s,), r),
        0 <= i < s@.len(),
    ensures
        r@ == escaped(s@.take(i)) + (if s@[i] == '&' {
            "&amp;"@
        } else if s@[i] == '<' {
            "&lt;"@
        } else if s@[i] == '>' {
            "&gt;"@
        } else {
            seq![s@[i]]
        }) + escaped(s@.skip(i + 1)),
{
    let c = s@[i];
    let one = seq![c];
    crate::bar_law::escaping_goes_by_parts(s@.take(i), one);
    crate::bar_law::escaping_goes_by_parts(s@.take(i) + one, s@.skip(i + 1));
    assert(s@.take(i) + one + s@.skip(i + 1) =~= s@);
    assert(one.drop_last() =~= Seq::<char>::empty());
    assert(escaped(one) == escaped(Seq::<char>::empty()) + crate::bar::markup(c));
    assert(escaped(one) =~= crate::bar::markup(c));
}

/// The tray says how many tasks are overdue and how many are due today
/// besides, and has a dot for what is overdue.
pub proof fn trays_say_what_is_due(s: &State, text: String, icon: &'static str)
    requires
        call_ensures(State::summary, (s,), text),
        call_ensures(State::icon, (s,), icon),
    ensures
        s.overdue == 0 && s.today == 0 ==> text@ == "Nothing due today"@,
        s.overdue == 0 && s.today == 1 ==> text@ == "1 task due today"@,
        s.overdue == 0 && s.today > 1 ==> text@ == decimal(s.today as nat) + " tasks due today"@,
        s.overdue > 0 && s.today == 0 ==> text@ == decimal(s.overdue as nat) + " overdue"@,
        s.overdue > 0 && s.today > 0 ==> text@ == decimal(s.overdue as nat) + " overdue · "@
            + decimal(s.today as nat) + " due today"@,
        s.overdue > 0 ==> icon@ == "asst-tray-overdue"@,
        s.overdue == 0 ==> icon@ == "asst-tray"@,
{
}

// -- starting at login --------------------------------------------------------------------------

/// A path under a folder has one slash between them.
pub proof fn paths_are_joined(dir: &str, rel: &str, r: String)
    requires
        call_ensures(join_path, (dir, rel), r),
    ensures
        dir@.len() > 0 && dir@.last() != '/' ==> r@ == dir@ + "/"@ + rel@,
        dir@.len() == 0 || dir@.last() == '/' ==> r@ == dir@ + rel@,
{
}

/// The command starts asst in the tray, by its path where that is known, in
/// quotes where there is space in the path.
pub proof fn the_command_starts_in_the_tray(exe: Option<&str>, r: String)
    requires
        call_ensures(command, (exe,), r),
    ensures
        exe is None ==> r@ == "asst-gtk"@ + " --background"@,
        exe matches Some(p) ==> (exists|i: int| 0 <= i < p@.len() && white(#[trigger] p@[i]))
            ==> r@ == "\""@ + p@ + "\""@ + " --background"@,
        exe matches Some(p) ==> (forall|i: int| 0 <= i < p@.len() ==> !white(#[trigger] p@[i]))
            ==> r@ == p@ + " --background"@,
{
}

/// The entry runs the command.
pub proof fn the_entry_runs_the_command(command: &str, icon: &str, r: String)
    requires
        call_ensures(entry_text, (command, icon), r),
    ensures
        r@
            == "[Desktop Entry]\nType=Application\nName=asst\nComment=Tasks and reminders, from the tray\nExec="@
            + command@ + "\nIcon="@ + icon@
            + "\nTerminal=false\nNoDisplay=true\nX-GNOME-Autostart-enabled=true\n"@,
{
}

/// The config folder is the one that is named, where it is absolute, and else
/// the home folder's own.
pub proof fn the_config_folder_is_named(xdg: Option<&str>, home: &str, r: String)
    requires
        call_ensures(config_home, (xdg, home), r),
        home@.len() > 0,
        home@.last() != '/',
    ensures
        xdg matches Some(p) ==> p@.len() > 0 && p@[0] == '/' ==> r@ == p@,
        xdg matches Some(p) ==> p@.len() == 0 || p@[0] != '/' ==> r@ == home@ + "/"@ + ".config"@,
        xdg is None ==> r@ == home@ + "/"@ + ".config"@,
{
    reveal_strlit("/");
    if let Some(p) = xdg {
        if p@.len() > 0 {
            assert(p@.subrange(0, 1)[0] == p@[0]);
            if p@[0] == '/' {
                assert(p@.subrange(0, 1) =~= "/"@);
            }
        }
    }
}

/// A path in the home folder is shown from a tilde on.
pub proof fn paths_are_shown_from_home(path: &str, home: &str, rest: Option<String>, r: String)
    requires
        call_ensures(tilde_with, (path, home, rest), r),
    ensures
        rest is None || home@.len() == 0 ==> r@ == path@,
        rest matches Some(t) ==> home@.len() > 0 ==> r@ == "~/"@ + t@,
{
}

/// A line of a config starts asst where it runs it in the tray and is no
/// comment.
pub proof fn lines_start_asst(line: Seq<char>)
    ensures
        runs_asst(line) == ({
            let l = trim_start(line);
            contains(l, "asst-gtk --background"@) && !starts_with(l, "--"@) && !starts_with(l, "#"@)
                && !starts_with(l, "//"@)
        }),
{
}

/// asst starts at login where a compositor starts it, or where there is an
/// entry with no line that hides it.
pub proof fn login_starts_asst(by_compositor: bool, entry: Option<&str>, r: bool)
    requires
        call_ensures(is_enabled, (by_compositor, entry), r),
    ensures
        by_compositor ==> r,
        !by_compositor && entry is None ==> !r,
        !by_compositor ==> (entry matches Some(t) ==> (r <==> forall|i: int|
            0 <= i < lines(t@).len() ==> crate::text::ascii_upper_text(
                trim(#[trigger] lines(t@)[i]),
            ) != "HIDDEN=TRUE"@)),
{
    if let Some(t) = entry {
        let v = lines(t@);
        if r && !by_compositor {
            assert forall|i: int| 0 <= i < v.len() implies crate::text::ascii_upper_text(
                trim(#[trigger] v[i]),
            ) != "HIDDEN=TRUE"@ by {
                assert(!crate::autostart::hides(v[i]));
            }
        }
        if !r {
            let i = choose|i: int| 0 <= i < v.len() && crate::autostart::hides(#[trigger] v[i]);
            assert(crate::text::ascii_upper_text(trim(v[i])) == "HIDDEN=TRUE"@);
        }
    }
}

/// The desktops that read autostart entries.
pub proof fn desktops_read_autostart(d: Seq<char>)
    ensures
        reads_autostart(d) <==> d == "GNOME"@ || d == "KDE"@ || d == "XFCE"@ || d == "X-Cinnamon"@
            || d == "MATE"@ || d == "LXQt"@ || d == "LXDE"@ || d == "Budgie"@ || d == "Pantheon"@
            || d == "Unity"@ || d == "Deepin"@ || d == "COSMIC"@,
{
    let j: int = if d == "GNOME"@ {
        0
    } else if d == "KDE"@ {
        1
    } else if d == "XFCE"@ {
        2
    } else if d == "X-Cinnamon"@ {
        3
    } else if d == "MATE"@ {
        4
    } else if d == "LXQt"@ {
        5
    } else if d == "LXDE"@ {
        6
    } else if d == "Budgie"@ {
        7
    } else if d == "Pantheon"@ {
        8
    } else if d == "Unity"@ {
        9
    } else if d == "Deepin"@ {
        10
    } else {
        11
    };
    if d == "COSMIC"@ || j < 11 {
        assert(READS_AUTOSTART@[j]@ == d);
            }
}

} // verus!
