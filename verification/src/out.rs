//! Text output: one line per task, colored on a terminal.

use vstd::prelude::*;
use vstd::string::*;

use crate::number::{decimal, decimal_text};
use crate::task::TaskView;
use crate::text::{chars, glue, glue3, text};
use crate::zone::Moment;

verus! {

#[derive(Debug, Clone, Copy, PartialEq, Eq, Structural)]
pub struct Style {
    pub color: bool,
}

/// `text` in a color, where there are colors and there is text.
pub open spec fn painted(color: bool, code: Seq<char>, text: Seq<char>) -> Seq<char> {
    if color && text.len() > 0 {
        "\x1b["@ + code + "m"@ + text + "\x1b[0m"@
    } else {
        text
    }
}

impl Style {
    /// Colors on a terminal, unless they are not wanted.
    pub fn new(terminal: bool, no_color: bool) -> (r: Style)
        ensures
            r.color == (terminal && !no_color),
    {
        Style { color: terminal && !no_color }
    }

    pub fn paint(&self, code: &str, text: &str) -> (r: String)
        ensures
            r@ == painted(self.color, code@, text@),
    {
        if self.color && !text.is_empty() {
            let mut s = glue3("\x1b[", code, "m");
            s.append(text);
            s.append("\x1b[0m");
            s
        } else {
            String::from_str(text)
        }
    }

    pub fn dim(&self, text: &str) -> (r: String)
        ensures
            r@ == painted(self.color, "2"@, text@),
    {
        self.paint("2", text)
    }

    pub fn bold(&self, text: &str) -> (r: String)
        ensures
            r@ == painted(self.color, "1"@, text@),
    {
        self.paint("1", text)
    }

    pub fn red(&self, text: &str) -> (r: String)
        ensures
            r@ == painted(self.color, "31"@, text@),
    {
        self.paint("31", text)
    }

    pub fn yellow(&self, text: &str) -> (r: String)
        ensures
            r@ == painted(self.color, "33"@, text@),
    {
        self.paint("33", text)
    }

    pub fn blue(&self, text: &str) -> (r: String)
        ensures
            r@ == painted(self.color, "34"@, text@),
    {
        self.paint("34", text)
    }

    pub fn green(&self, text: &str) -> (r: String)
        ensures
            r@ == painted(self.color, "32"@, text@),
    {
        self.paint("32", text)
    }

    pub fn is_terminal(&self) -> (r: bool)
        ensures
            r == self.color,
    {
        self.color
    }
}

/// How a due date stands to now, and the words for it.
#[derive(Debug)]
pub struct DueWords {
    pub label: String,
    pub overdue: bool,
    pub today: bool,
}

/// `s` and spaces after it, up to `w` characters.
pub open spec fn filled(s: Seq<char>, w: nat) -> Seq<char> {
    s + Seq::new(
        if s.len() < w {
            (w - s.len()) as nat
        } else {
            0
        },
        |i: int| ' ',
    )
}

/// `s` and spaces after it, up to `w` characters.
pub(crate) fn fill(s: &str, w: usize) -> (r: String)
    ensures
        r@ == filled(s@, w as nat),
{
    let mut v = chars(s);
    let ghost start = v@;
    let n = v.len();
    assert(start + Seq::new(0, |i: int| ' ') == start);
    while v.len() < w
        invariant
            n == start.len(),
            n <= v@.len(),
            v@.len() <= w || v@.len() == n,
            v@ == start + Seq::new((v@.len() - n) as nat, |i: int| ' '),
        decreases w - v@.len(),
    {
        v.push(' ');
        assert(v@ =~= start + Seq::new((v@.len() - n) as nat, |i: int| ' '));
    }
    assert(v@ =~= filled(s@, w as nat));
    text(&v)
}

/// `s` without its spaces.
fn unspaced(s: &str) -> (r: String)
    ensures
        r@ == crate::due::packed(s@),
{
    let v = chars(s);
    let mut out = String::new();
    proof {
        reveal(Seq::filter);
        assert(out@ == crate::due::packed(v@.take(0)));
    }
    for i in 0..v.len()
        invariant
            out@ == crate::due::packed(v@.take(i as int)),
    {
        proof {
            reveal(Seq::filter);
            assert(v@.take(i + 1).drop_last() == v@.take(i as int));
            assert(v@.take(i + 1).last() == v@[i as int]);
        }
        if v[i] != ' ' {
            out.push(v[i]);
        }
    }
    assert(v@.take(v@.len() as int) == v@);
    out
}

/// The marks of a priority, and a blank after them.
pub open spec fn marker(color: bool, level: u8) -> Seq<char> {
    if level == 1 {
        painted(color, "31"@, "!!!"@) + " "@
    } else if level == 2 {
        painted(color, "33"@, "!!"@) + " "@
    } else if level == 3 {
        painted(color, "34"@, "!"@) + " "@
    } else {
        Seq::empty()
    }
}

/// The color of a due date: dim once done, red when overdue, yellow today.
pub open spec fn due_color(t: TaskView, due: DueWords) -> Seq<char> {
    if !t.task.open {
        "2"@
    } else if due.overdue {
        "31"@
    } else if due.today {
        "33"@
    } else {
        "32"@
    }
}

/// `a1b2  !! Call the bank  tomorrow 5pm ↻  #Errands`
pub open spec fn line_of(
    color: bool,
    t: TaskView,
    due: Option<DueWords>,
    show_list: bool,
) -> Seq<char> {
    painted(color, "2"@, t.id@) + "  "@ + marker(color, t.task.level) + (if t.task.open {
        t.task.summary@
    } else {
        painted(color, "2"@, "✓ "@ + t.task.summary@)
    }) + (match due {
        Some(d) => "  "@ + painted(color, due_color(t, d), d.label@),
        None => Seq::empty(),
    }) + (if t.task.rrule is Some {
        painted(color, "2"@, " ↻"@)
    } else {
        Seq::empty()
    }) + (if show_list {
        painted(color, "2"@, "  #"@ + crate::due::packed(t.list_name@))
    } else {
        Seq::empty()
    }) + (if t.pending {
        painted(color, "2"@, " *"@)
    } else {
        Seq::empty()
    })
}

/// `a1b2  !! Call the bank  tomorrow 5pm ↻  #Errands`. `due` is there when
/// the task has a due date.
pub fn task_line(s: &Style, t: &TaskView, due: &Option<DueWords>, show_list: bool) -> (r: String)
    ensures
        r@ == line_of(s.color, *t, *due, show_list),
{
    let marks = match t.task.level {
        1 => glue(s.red("!!!").as_str(), " "),
        2 => glue(s.yellow("!!").as_str(), " "),
        3 => glue(s.blue("!").as_str(), " "),
        _ => String::new(),
    };
    let mut line = s.dim(t.id.as_str());
    line.append("  ");
    line.append(marks.as_str());
    if t.task.open {
        line.append(t.task.summary.as_str());
    } else {
        line.append(s.dim(glue("✓ ", t.task.summary.as_str()).as_str()).as_str());
    }
    let ghost l1 = line@;
    match due {
        Some(d) => {
            let label = if !t.task.open {
                s.dim(d.label.as_str())
            } else if d.overdue {
                s.red(d.label.as_str())
            } else if d.today {
                s.yellow(d.label.as_str())
            } else {
                s.green(d.label.as_str())
            };
            line.append("  ");
            line.append(label.as_str());
            assert(line@ == l1 + ("  "@ + label@));
        },
        None => {
            assert(l1 + Seq::<char>::empty() == l1);
        },
    }
    let ghost l2 = line@;
    if t.task.rrule.is_some() {
        line.append(s.dim(" ↻").as_str());
    } else {
        assert(l2 + Seq::<char>::empty() == l2);
    }
    let ghost l3 = line@;
    if show_list {
        let name = glue("  #", unspaced(t.list_name.as_str()).as_str());
        line.append(s.dim(name.as_str()).as_str());
    } else {
        assert(l3 + Seq::<char>::empty() == l3);
    }
    let ghost l4 = line@;
    if t.pending {
        line.append(s.dim(" *").as_str());
    } else {
        assert(l4 + Seq::<char>::empty() == l4);
    }
    line
}

/// `12s ago`, `5 min ago`, `3 h ago`, `2 days ago`.
pub open spec fn short_ago(secs: nat) -> Seq<char> {
    if secs < 60 {
        decimal(secs) + "s ago"@
    } else if secs < 3600 {
        decimal(secs / 60) + " min ago"@
    } else if secs < 86400 {
        decimal(secs / 3600) + " h ago"@
    } else {
        decimal(secs / 86400) + " days ago"@
    }
}

/// `12s ago`, `5 min ago`, `3 h ago`, `2 days ago`.
pub fn ago(at: Moment, now: Moment) -> (r: String)
    requires
        at.wf(),
        now.wf(),
    ensures
        r@ == short_ago(at.secs_until(now) as nat),
{
    let secs: u64 = at.elapsed(now) as u64;
    if secs < 60 {
        glue(decimal_text(secs).as_str(), "s ago")
    } else if secs < 3600 {
        glue(decimal_text(secs / 60).as_str(), " min ago")
    } else if secs < 86400 {
        glue(decimal_text(secs / 3600).as_str(), " h ago")
    } else {
        glue(decimal_text(secs / 86400).as_str(), " days ago")
    }
}

} // verus!
