//! What is done with the selected tasks, all at once.

use vstd::prelude::*;
use vstd::string::*;

use crate::change::{Change, SetDue, moved_to, no_change};
use crate::date::Date;
use crate::editor::Edit;
use crate::keyed::{put_text, with_keeps_others, with_text};
use crate::keys::{find_index, index_of};
use crate::sorting::{arrange_by, arranged};
use crate::steps::{asks, asks_one, say_tasks, tasks_text};
use crate::text::{copy_texts, texts};
use crate::update::{Batch, Do, Msg, Seen, Step};
use crate::window::Window;
use crate::zone::Zone;

verus! {

/// Texts with others put among them, one by one.
pub open spec fn with_all(s: Seq<Seq<char>>, more: Seq<Seq<char>>) -> Seq<Seq<char>>
    decreases more.len(),
{
    if more.len() == 0 {
        s
    } else {
        with_text(with_all(s, more.drop_last()), more.last())
    }
}

/// Those of the selected addresses that tasks have.
pub open spec fn picked(w: Window) -> Seq<String> {
    w.selected@.filter(|h: String| w.known(h@))
}

/// Where a task is on screen, by its address; before all others when it is
/// not there.
pub open spec fn screen_order(rows: Seq<Seq<char>>) -> spec_fn(String, String) -> bool {
    |a: String, b: String| on_screen(rows, a@) <= on_screen(rows, b@)
}

pub open spec fn on_screen(rows: Seq<Seq<char>>, href: Seq<char>) -> int {
    match index_of(rows, href) {
        Some(i) => i,
        None => -1,
    }
}

/// An edit of every one of some addresses.
pub open spec fn edits_all(e: Seq<Edit>, hrefs: Seq<String>, c: spec_fn(Seq<char>) -> Change) -> bool {
    &&& e.len() == hrefs.len()
    &&& forall|i: int|
        0 <= i < e.len() ==> (#[trigger] e[i]).href@ == hrefs[i]@ && e[i].change == c(hrefs[i]@)
}

/// A change of priority.
pub open spec fn level_change(level: u8) -> spec_fn(Seq<char>) -> Change {
    |h: Seq<char>| Change { priority: Some(level), ..no_change() }
}

/// A change of date, with each task's time kept.
pub open spec fn day_change(w: Window, date: Date, zone: Seq<char>) -> spec_fn(Seq<char>) -> Change {
    |h: Seq<char>|
        Change {
            due: Some(SetDue::Move(moved_to((w.task(h)->0).task.due, date, zone))),
            ..no_change()
        }
}

/// A change of list.
pub open spec fn list_change(list: String) -> spec_fn(Seq<char>) -> Change {
    |h: Seq<char>| Change { list: Some(list), ..no_change() }
}

/// A message for every one of some addresses.
pub open spec fn undeletes(v: Seq<Msg>, hrefs: Seq<String>) -> bool {
    v == hrefs.map_values(|h: String| Msg::Undelete(h))
}

pub open spec fn deletes_now(v: Seq<Msg>, hrefs: Seq<String>) -> bool {
    v == hrefs.map_values(|h: String| Msg::DeleteNow(h))
}

/// What is asked for when something is done with the selected tasks.
pub open spec fn batch_asks(old: Window, b: Batch, seen: Seen, d: Do) -> bool {
    let n = old.selected@.len();
    match b {
        Batch::Delete => d matches Do::UndoToast(text, secs, undo, gone) && text@ == tasks_text(
            "Deleted"@,
            n,
        ) && secs == 5 && undeletes(undo@, old.selected@) && deletes_now(gone@, old.selected@),
        Batch::Complete => d matches Do::CompleteAll(hrefs, text) && hrefs@ == old.selected@
            && text@ == tasks_text("Completed"@, n),
        Batch::Priority(level) => d matches Do::EditAll(edits, text) && text@.len() == 0
            && edits_all(edits@, picked(old), level_change(level)),
        Batch::Date(date) => d matches Do::Send(Msg::EditMany(edits)) && edits_all(
            edits@,
            picked(old),
            day_change(old, date, seen.now.zone@),
        ),
        Batch::Move(list) => d matches Do::EditAll(edits, text) && text@ == tasks_text("Moved"@, n)
            && edits_all(edits@, old.selected@, list_change(list)),
        Batch::Copy => d matches Do::CopyTasks(head, hrefs, text) && head@.len() == 0 && hrefs@
            == arranged(picked(old), screen_order(texts(seen.rows@))) && text@ == tasks_text(
            "Copied"@,
            n,
        ),
    }
}

/// What is done with the selected tasks; nothing is selected after.
pub open spec fn batches(old: Window, b: Batch, seen: Seen, new: Window, r: Step) -> bool {
    if old.selected@.len() == 0 {
        new == old && asks(r, Seq::empty())
    } else {
        &&& new == (Window {
            select_mode: false,
            selected: new.selected,
            hidden: new.hidden,
            ..old
        })
        &&& new.selected@.len() == 0
        &&& if b is Delete {
            texts(new.hidden@) == with_all(texts(old.hidden@), texts(old.selected@))
        } else {
            new.hidden == old.hidden
        }
        &&& asks_one(r)
        &&& batch_asks(old, b, seen, r.acts@[0])
    }
}

/// Those put among others are there, each once, with those that were.
pub proof fn with_all_keeps(s: Seq<Seq<char>>, more: Seq<Seq<char>>)
    ensures
        forall|x: Seq<char>| #[trigger]
            with_all(s, more).contains(x) <==> s.contains(x) || more.contains(x),
        s.no_duplicates() ==> with_all(s, more).no_duplicates(),
    decreases more.len(),
{
    if more.len() > 0 {
        let m = more.drop_last();
        with_all_keeps(s, m);
        with_keeps_others(with_all(s, m), more.last());
        assert forall|x: Seq<char>| #[trigger]
            with_all(s, more).contains(x) <==> s.contains(x) || more.contains(x) by {
            assert(with_all(s, m).contains(x) <==> s.contains(x) || m.contains(x));
            if m.contains(x) {
                let i = choose|i: int| 0 <= i < m.len() && m[i] == x;
                assert(more[i] == x);
            }
            if more.contains(x) {
                let i = choose|i: int| 0 <= i < more.len() && more[i] == x;
                if i < m.len() {
                    assert(m[i] == x);
                }
            }
            assert(more[more.len() - 1] == more.last());
        }
    }
}

impl Window {
    fn picked_hrefs(&self) -> (r: Vec<String>)
        ensures
            r@ == picked(*self),
    {
        let mut out: Vec<String> = Vec::new();
        let ghost s = self.selected@;
        let ghost p = |h: String| self.known(h@);
        proof {
            reveal(Seq::filter);
            assert(out@ =~= s.take(0).filter(p));
        }
        for i in 0..self.selected.len()
            invariant
                s == self.selected@,
                p == (|h: String| self.known(h@)),
                out@ == s.take(i as int).filter(p),
        {
            proof {
                reveal(Seq::filter);
                assert(s.take(i + 1).drop_last() == s.take(i as int));
                assert(s.take(i + 1).last() == s[i as int]);
            }
            if self.knows(self.selected[i].as_str()) {
                out.push(self.selected[i].clone());
            }
        }
        assert(s.take(s.len() as int) == s);
        out
    }

    fn level_edits(&self, hrefs: &Vec<String>, level: u8) -> (r: Vec<Edit>)
        ensures
            edits_all(r@, hrefs@, level_change(level)),
    {
        let mut out: Vec<Edit> = Vec::new();
        for i in 0..hrefs.len()
            invariant
                edits_all(out@, hrefs@.take(i as int), level_change(level)),
        {
            out.push(Edit { href: hrefs[i].clone(), change: Change::to_level(level) });
        }
        assert(hrefs@.take(hrefs@.len() as int) == hrefs@);
        out
    }

    fn day_edits(&self, hrefs: &Vec<String>, date: Date, zone: &Zone) -> (r: Vec<Edit>)
        requires
            self.wf(),
            forall|i: int| 0 <= i < hrefs@.len() ==> self.known((#[trigger] hrefs@[i])@),
        ensures
            edits_all(r@, hrefs@, day_change(*self, date, zone@)),
    {
        let mut out: Vec<Edit> = Vec::new();
        for i in 0..hrefs.len()
            invariant
                self.wf(),
                forall|i: int| 0 <= i < hrefs@.len() ==> self.known((#[trigger] hrefs@[i])@),
                edits_all(out@, hrefs@.take(i as int), day_change(*self, date, zone@)),
        {
            assert(self.known(hrefs@[i as int]@));
            match self.find(hrefs[i].as_str()) {
                Some(t) => {
                    out.push(
                        Edit { href: hrefs[i].clone(), change: Change::to_day(t, date, zone) },
                    );
                },
                None => {
                    assert(false);
                },
            }
        }
        assert(hrefs@.take(hrefs@.len() as int) == hrefs@);
        out
    }

    fn list_edits(&self, hrefs: &Vec<String>, list: &String) -> (r: Vec<Edit>)
        ensures
            edits_all(r@, hrefs@, list_change(*list)),
    {
        let mut out: Vec<Edit> = Vec::new();
        for i in 0..hrefs.len()
            invariant
                edits_all(out@, hrefs@.take(i as int), list_change(*list)),
        {
            out.push(Edit { href: hrefs[i].clone(), change: Change::to_list(list.clone()) });
        }
        assert(hrefs@.take(hrefs@.len() as int) == hrefs@);
        out
    }

    /// Does something with the selected tasks.
    pub fn batch(&mut self, b: Batch, seen: &Seen) -> (r: Step)
        requires
            old(self).wf(),
        ensures
            batches(*old(self), b, *seen, *final(self), r),
            final(self).wf(),
    {
        let n = self.selected.len();
        if n == 0 {
            return Step::draw();
        }
        let hrefs = copy_texts(&self.selected);
        let some = self.picked_hrefs();
        proof {
            lemma_picked_known(*self);
            with_all_keeps(texts(self.hidden@), texts(self.selected@));
        }
        let act: Do = match b {
            Batch::Delete => {
                let mut undo: Vec<Msg> = Vec::new();
                let mut gone: Vec<Msg> = Vec::new();
                let ghost first = texts(self.hidden@);
                let ghost all = texts(hrefs@);
                let ghost before = *self;
                assert(all.take(0).len() == 0);
                let ghost u = hrefs@.map_values(|h: String| Msg::Undelete(h));
                let ghost g = hrefs@.map_values(|h: String| Msg::DeleteNow(h));
                for i in 0..hrefs.len()
                    invariant
                        all == texts(hrefs@),
                        u == hrefs@.map_values(|h: String| Msg::Undelete(h)),
                        g == hrefs@.map_values(|h: String| Msg::DeleteNow(h)),
                        *self == (Window { hidden: self.hidden, ..before }),
                        texts(self.hidden@) == with_all(first, all.take(i as int)),
                        undo@ == u.take(i as int),
                        gone@ == g.take(i as int),
                {
                    proof {
                        assert(all.take(i + 1).drop_last() == all.take(i as int));
                        assert(all.take(i + 1).last() == hrefs@[i as int]@);
                    }
                    put_text(&mut self.hidden, hrefs[i].clone());
                    undo.push(Msg::Undelete(hrefs[i].clone()));
                    gone.push(Msg::DeleteNow(hrefs[i].clone()));
                    assert(undo@ =~= u.take(i + 1));
                    assert(gone@ =~= g.take(i + 1));
                }
                assert(all.take(all.len() as int) == all);
                assert(u.take(u.len() as int) == u);
                assert(g.take(g.len() as int) == g);
                Do::UndoToast(say_tasks("Deleted", n), 5, undo, gone)
            },
            Batch::Complete => Do::CompleteAll(hrefs, say_tasks("Completed", n)),
            Batch::Priority(level) => Do::EditAll(self.level_edits(&some, level), String::new()),
            Batch::Date(date) => Do::Send(
                Msg::EditMany(self.day_edits(&some, date, &seen.now.zone)),
            ),
            Batch::Move(list) => Do::EditAll(
                self.list_edits(&hrefs, &list),
                say_tasks("Moved", n),
            ),
            Batch::Copy => {
                let rows = &seen.rows;
                let f = |a: &String, b: &String| -> (r: bool)
                    ensures
                        r == screen_order(texts(rows@))(*a, *b),
                    {
                        match (find_index(rows, a.as_str()), find_index(rows, b.as_str())) {
                            (Some(i), Some(j)) => i <= j,
                            (None, _) => true,
                            (Some(_), None) => false,
                        }
                    };
                // As they are on screen, not as they were picked.
                let sorted = arrange_by(some, &f, Ghost(screen_order(texts(rows@))));
                Do::CopyTasks(String::new(), sorted, say_tasks("Copied", n))
            },
        };
        self.select_mode = false;
        self.selected = Vec::new();
        assert(texts(self.selected@) =~= Seq::<Seq<char>>::empty());
        Step::one(act)
    }
}

proof fn lemma_picked_known(w: Window)
    ensures
        forall|i: int| 0 <= i < picked(w).len() ==> w.known((#[trigger] picked(w)[i])@),
{
    lemma_filter_passes(w.selected@, |h: String| w.known(h@));
}

proof fn lemma_filter_passes(s: Seq<String>, p: spec_fn(String) -> bool)
    ensures
        forall|i: int| 0 <= i < s.filter(p).len() ==> p(#[trigger] s.filter(p)[i]),
    decreases s.len(),
{
    reveal(Seq::filter);
    if s.len() > 0 {
        lemma_filter_passes(s.drop_last(), p);
    }
}

} // verus!
