//! What `asst bar` tells the bar: one line with a count, a class and a
//! tooltip.

use vstd::prelude::*;
use vstd::string::*;

use crate::number::{decimal, decimal_text};
use crate::task::{StatusView, SyncState, TaskView};
use crate::text::{chars, glue, glue3, join, joined, texts};

verus! {

/// A line for the bar.
#[derive(Debug)]
pub struct Line {
    pub text: String,
    pub alt: &'static str,
    pub class: &'static str,
    pub tooltip: String,
}

/// A character as markup.
pub open spec fn markup(c: char) -> Seq<char> {
    if c == '&' {
        "&amp;"@
    } else if c == '<' {
        "&lt;"@
    } else if c == '>' {
        "&gt;"@
    } else {
        seq![c]
    }
}

/// Text as markup.
pub open spec fn escaped(s: Seq<char>) -> Seq<char>
    decreases s.len(),
{
    if s.len() == 0 {
        Seq::empty()
    } else {
        escaped(s.drop_last()) + markup(s.last())
    }
}

/// Text as markup: ampersands and angle brackets by their names.
pub fn escape(s: &str) -> (r: String)
    ensures
        r@ == escaped(s@),
{
    let v = chars(s);
    let mut out = String::new();
    for i in 0..v.len()
        invariant
            out@ == escaped(v@.take(i as int)),
    {
        proof {
            assert(v@.take(i + 1).drop_last() == v@.take(i as int));
            assert(v@.take(i + 1).last() == v@[i as int]);
        }
        let c = v[i];
        if c == '&' {
            out.append("&amp;");
        } else if c == '<' {
            out.append("&lt;");
        } else if c == '>' {
            out.append("&gt;");
        } else {
            let ghost before = out@;
            out.push(c);
            assert(out@ == before + seq![c]);
        }
    }
    assert(v@.take(v@.len() as int) == v@);
    out
}

/// Escaped text opens and closes no tag.
pub proof fn escaped_has_no_brackets(s: Seq<char>)
    ensures
        forall|i: int| 0 <= i < escaped(s).len() ==> escaped(s)[i] != '<' && escaped(s)[i] != '>',
    decreases s.len(),
{
    if s.len() > 0 {
        escaped_has_no_brackets(s.drop_last());
        reveal_strlit("&amp;");
        reveal_strlit("&lt;");
        reveal_strlit("&gt;");
        let a = escaped(s.drop_last());
        let m = markup(s.last());
        assert forall|i: int| 0 <= i < escaped(s).len() implies escaped(s)[i] != '<' && escaped(
            s,
        )[i] != '>' by {
            if i < a.len() {
                assert(escaped(s)[i] == a[i]);
            } else {
                assert(escaped(s)[i] == m[i - a.len()]);
            }
        }
    }
}

/// How many of the first tasks are overdue.
pub open spec fn overdue_count(overdue: Seq<bool>) -> nat
    decreases overdue.len(),
{
    if overdue.len() == 0 {
        0
    } else {
        overdue_count(overdue.drop_last()) + (if overdue.last() {
            1nat
        } else {
            0
        })
    }
}

/// The class of the line: what is wrong first, then what is overdue, then
/// what is due.
pub open spec fn class_of(state: SyncState, overdue: nat, tasks: nat) -> Seq<char> {
    if state == SyncState::NoAccount || state == SyncState::Error {
        "error"@
    } else if overdue > 0 {
        "overdue"@
    } else if tasks > 0 {
        "due"@
    } else {
        "clear"@
    }
}

/// A task in the tooltip, with the words for its date.
pub open spec fn tip_line(t: TaskView, label: Seq<char>) -> Seq<char> {
    escaped(t.task.summary@) + (if t.task.due is Some {
        "  <i>"@ + escaped(label) + "</i>"@
    } else {
        Seq::empty()
    })
}

/// The lines of the tooltip: the first tasks, how many more, and what is
/// wrong with sync.
pub open spec fn tip_lines(
    tasks: Seq<TaskView>,
    labels: Seq<Seq<char>>,
    status: StatusView,
) -> Seq<Seq<char>> {
    let n = if tasks.len() < 12 {
        tasks.len()
    } else {
        12
    };
    let listed = Seq::new(n, |i: int| tip_line(tasks[i], labels[i]));
    let more = if tasks.len() > 12 {
        seq!["and "@ + decimal((tasks.len() - 12) as nat) + " more"@]
    } else if tasks.len() == 0 {
        seq!["Nothing due today"@]
    } else {
        Seq::empty()
    };
    let wrong = match status.state {
        SyncState::Offline => seq![
            "\n<small>offline, "@ + decimal(status.pending as nat) + " unsent</small>"@,
        ],
        SyncState::Error | SyncState::NoAccount => match status.message {
            Some(m) => seq!["\n<small>"@ + escaped(m@) + "</small>"@],
            None => Seq::empty(),
        },
        _ => Seq::empty(),
    };
    listed + more + wrong
}

fn is_any(v: &[bool]) -> (r: bool)
    ensures
        r == (overdue_count(v@) > 0),
{
    for i in 0..v.len()
        invariant
            overdue_count(v@.take(i as int)) == 0,
    {
        proof {
            assert(v@.take(i + 1).drop_last() == v@.take(i as int));
            assert(v@.take(i + 1).last() == v@[i as int]);
        }
        if v[i] {
            proof {
                lemma_overdue_grows(v@, i + 1);
            }
            return true;
        }
    }
    assert(v@.take(v@.len() as int) == v@);
    false
}

proof fn lemma_overdue_grows(v: Seq<bool>, i: int)
    requires
        0 <= i <= v.len(),
    ensures
        overdue_count(v.take(i)) <= overdue_count(v),
    decreases v.len(),
{
    if i < v.len() {
        lemma_overdue_grows(v.drop_last(), i);
        assert(v.drop_last().take(i) == v.take(i));
    } else {
        assert(v.take(i) == v);
    }
}

/// The line for the tasks of today: `labels` are the words for their dates,
/// and `overdue` says which of them are.
pub fn render(
    tasks: &[TaskView],
    labels: &[String],
    overdue: &[bool],
    status: &StatusView,
) -> (r: Line)
    requires
        labels@.len() == tasks@.len(),
    ensures
        r.text@ == (if tasks@.len() == 0 {
            Seq::empty()
        } else {
            decimal(tasks@.len())
        }),
        r.class@ == class_of(status.state, overdue_count(overdue@), tasks@.len()),
        r.alt@ == r.class@,
        r.tooltip@ == join(tip_lines(tasks@, texts(labels@), *status), "\n"@),
{
    let class = match status.state {
        SyncState::NoAccount | SyncState::Error => "error",
        _ => if is_any(overdue) {
            "overdue"
        } else if tasks.len() > 0 {
            "due"
        } else {
            "clear"
        },
    };
    let n: usize = if tasks.len() < 12 {
        tasks.len()
    } else {
        12
    };
    let ghost l = texts(labels@);
    let ghost line = |i: int| tip_line(tasks@[i], l[i]);
    let mut tip: Vec<String> = Vec::new();
    assert(texts(tip@) == Seq::new(0, line));
    for i in 0..n
        invariant
            n <= tasks@.len(),
            labels@.len() == tasks@.len(),
            l == texts(labels@),
            line == (|i: int| tip_line(tasks@[i], l[i])),
            texts(tip@) == Seq::new(i as nat, line),
    {
        let t = &tasks[i];
        let mut s = escape(t.task.summary.as_str());
        let ghost head = s@;
        if t.task.due.is_some() {
            s.append("  <i>");
            s.append(escape(labels[i].as_str()).as_str());
            s.append("</i>");
            assert(s@ == head + ("  <i>"@ + escaped(labels@[i as int]@) + "</i>"@));
        } else {
            assert(head + Seq::<char>::empty() == head);
        }
        let ghost before = texts(tip@);
        tip.push(s);
        assert(texts(tip@) =~= before.push(line(i as int)));
    }
    let ghost listed = texts(tip@);
    if tasks.len() > 12 {
        let s = glue3("and ", decimal_text((tasks.len() - 12) as u64).as_str(), " more");
        tip.push(s);
    } else if tasks.len() == 0 {
        tip.push(String::from_str("Nothing due today"));
    }
    match status.state {
        SyncState::Offline => {
            let s = glue3(
                "\n<small>offline, ",
                decimal_text(status.pending as u64).as_str(),
                " unsent</small>",
            );
            tip.push(s);
        },
        SyncState::Error | SyncState::NoAccount => match &status.message {
            Some(m) => {
                tip.push(glue3("\n<small>", escape(m.as_str()).as_str(), "</small>"));
            },
            None => {},
        },
        _ => {},
    }
    assert(texts(tip@) =~= tip_lines(tasks@, l, *status));
    let text = if tasks.len() == 0 {
        String::new()
    } else {
        decimal_text(tasks.len() as u64)
    };
    Line { text, alt: class, class, tooltip: joined(&tip, "\n") }
}

/// The line when the daemon cannot be asked.
pub fn offline(error: &str) -> (r: Line)
    ensures
        r.text@.len() == 0,
        r.alt@ == "offline"@ && r.class@ == "offline"@,
        r.tooltip@ == "asst: "@ + escaped(error@),
{
    Line {
        text: String::new(),
        alt: "offline",
        class: "offline",
        tooltip: glue("asst: ", escape(error).as_str()),
    }
}

} // verus!
