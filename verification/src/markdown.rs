//! Tasks as Markdown checkboxes, for the clipboard.

use vstd::prelude::*;
use vstd::string::*;

use crate::plan::refs;
use crate::task::{TaskView, unref};
use crate::text::{blank, chars, lemma_trim_blank, lines, split_lines, texts, trimmed};

verus! {

/// Notes under a task: every line indented, and blank ones left empty.
pub open spec fn indented(l: Seq<Seq<char>>) -> Seq<char>
    decreases l.len(),
{
    if l.len() == 0 {
        Seq::empty()
    } else {
        let line = if blank(l.last()) {
            Seq::empty()
        } else {
            "  "@ + l.last()
        };
        indented(l.drop_last()) + line + "\n"@
    }
}

/// A task as a checkbox, with the words for its date when it is open, and
/// its notes under it.
pub open spec fn task_item(t: TaskView, label: Seq<char>) -> Seq<char> {
    let mark = if t.task.open {
        "- [ ] "@
    } else {
        "- [x] "@
    };
    let due = if t.task.due is Some && t.task.open {
        " ("@ + label + ")"@
    } else {
        Seq::empty()
    };
    let notes = match t.task.description {
        Some(d) => lines(d@),
        None => Seq::empty(),
    };
    mark + t.task.summary@ + due + "\n"@ + indented(notes)
}

pub open spec fn items(tasks: Seq<TaskView>, labels: Seq<Seq<char>>) -> Seq<char>
    decreases tasks.len(),
{
    if tasks.len() == 0 {
        Seq::empty()
    } else {
        items(tasks.drop_last(), labels.drop_last()) + task_item(tasks.last(), labels.last())
    }
}

fn push_notes(out: &mut String, notes: &str)
    ensures
        final(out)@ == old(out)@ + indented(lines(notes@)),
{
    let v = split_lines(notes);
    let ghost l = texts(v@);
    let ghost start = out@;
    assert(start + indented(l.take(0)) == start);
    for i in 0..v.len()
        invariant
            l == texts(v@),
            out@ == start + indented(l.take(i as int)),
    {
        let ghost before = out@;
        let line = v[i].as_str();
        assert(l[i as int] == line@);
        proof {
            lemma_trim_blank(line@);
            assert(l.take(i + 1).drop_last() == l.take(i as int));
            assert(l.take(i + 1).last() == line@);
        }
        if trimmed(&chars(line)).len() > 0 {
            out.append("  ");
            out.append(line);
        }
        out.append("\n");
        assert(out@ == start + indented(l.take(i + 1)));
    }
    assert(l.take(l.len() as int) == l);
}

/// Tasks as Markdown checkboxes, each with its date, and its notes indented
/// under it: for the clipboard. `labels` are the words for their dates.
pub fn tasks_markdown(tasks: &[TaskView], labels: &[String]) -> (r: String)
    requires
        tasks@.len() == labels@.len(),
    ensures
        r@ == items(tasks@, texts(labels@)),
{
    let all = refs(tasks);
    assert(unref(all@).len() == all@.len());
    markdown_of(&all, labels)
}

/// The same for tasks as they are shown.
pub fn markdown_of(tasks: &Vec<&TaskView>, labels: &[String]) -> (r: String)
    requires
        tasks@.len() == labels@.len(),
    ensures
        r@ == items(unref(tasks@), texts(labels@)),
{
    let ghost all = unref(tasks@);
    let mut out = String::new();
    let ghost l = texts(labels@);
    for i in 0..tasks.len()
        invariant
            tasks@.len() == labels@.len(),
            l == texts(labels@),
            all == unref(tasks@),
            out@ == items(all.take(i as int), l.take(i as int)),
    {
        let t: &TaskView = tasks[i];
        let ghost before = out@;
        proof {
            assert(all.take(i + 1).drop_last() == all.take(i as int));
            assert(all.take(i + 1).last() == *t);
            assert(l.take(i + 1).drop_last() == l.take(i as int));
            assert(l.take(i + 1).last() == labels@[i as int]@);
        }
        out.append(
            if t.task.open {
                "- [ ] "
            } else {
                "- [x] "
            },
        );
        out.append(t.task.summary.as_str());
        if t.task.due.is_some() && t.task.open {
            out.append(" (");
            out.append(labels[i].as_str());
            out.append(")");
        }
        out.append("\n");
        let ghost mid = out@;
        match &t.task.description {
            Some(d) => {
                push_notes(&mut out, d.as_str());
            },
            None => {
                assert(mid + indented(Seq::empty()) == mid);
            },
        }
        assert(out@ == before + task_item(*t, labels@[i as int]@));
    }
    assert(all.take(all.len() as int) == all);
    assert(l.take(l.len() as int) == l);
    out
}

} // verus!
