//! The steps that messages are made of: loading, selecting, checking off,
//! deleting, and what is said of them.

use vstd::prelude::*;
use vstd::string::*;

use crate::editor::Edit;
use crate::keyed::{
    find_state, keys, pairs, put_state, put_text, state_at, take_state, take_text, with_key,
    with_keeps_others, with_text, without, without_key, without_leaves_others,
};
use crate::number::{decimal, decimal_text};
use crate::reorder::place;
use crate::task::{TaskView, When};
use crate::text::{chars, glue, glue3, has_text, part, same, text, texts};
use crate::update::{Do, Msg, Step};
use crate::window::{Completing, Window, find_place, lemma_place};

verus! {

// -- what is said -----------------------------------------------------------------------------

/// A title in quotes, cut when it is long.
pub open spec fn in_quotes(s: Seq<char>) -> Seq<char> {
    if s.len() > 40 {
        "“"@ + s.take(40) + "…”"@
    } else {
        "“"@ + s + "”"@
    }
}

/// A title in quotes, cut when it is long.
pub fn quoted(s: &str) -> (r: String)
    ensures
        r@ == in_quotes(s@),
{
    let v = chars(s);
    if v.len() > 40 {
        let short = part(&v, 0, 40);
        assert(short@ =~= s@.take(40));
        glue3("“", text(&short).as_str(), "…”")
    } else {
        glue3("“", s, "”")
    }
}

/// How many tasks something was done to.
pub open spec fn tasks_text(verb: Seq<char>, n: nat) -> Seq<char> {
    if n == 1 {
        verb + " 1 task"@
    } else {
        verb + " "@ + decimal(n) + " tasks"@
    }
}

/// How many tasks something was done to: `Moved 3 tasks`.
pub fn say_tasks(verb: &str, n: usize) -> (r: String)
    ensures
        r@ == tasks_text(verb@, n as nat),
{
    if n == 1 {
        glue(verb, " 1 task")
    } else {
        let mut s = glue(verb, " ");
        s.append(decimal_text(n as u64).as_str());
        s.append(" tasks");
        s
    }
}

// -- what comes of a message ------------------------------------------------------------------

/// A step that asks for some things, and draws the view.
pub open spec fn asks(r: Step, acts: Seq<Do>) -> bool {
    r.acts@ == acts && r.edits@.len() == 0 && r.draws && r.after@.len() == 0
}

/// A step that asks for one thing.
pub open spec fn asks_one(r: Step) -> bool {
    r.acts@.len() == 1 && r.edits@.len() == 0 && r.draws && r.after@.len() == 0
}

/// A step that does nothing, and draws nothing.
pub open spec fn stops(r: Step) -> bool {
    r.acts@.len() == 0 && r.edits@.len() == 0 && !r.draws && r.after@.len() == 0
}

/// A step of these parts.
pub open spec fn makes(r: Step, acts: Seq<Do>, edits: Seq<Edit>) -> bool {
    r.acts@ == acts && r.edits@ == edits && r.draws && r.after@.len() == 0
}

impl Step {
    /// These things, and the view drawn.
    pub fn of(acts: Vec<Do>) -> (r: Step)
        ensures
            asks(r, acts@),
    {
        Step { acts, edits: Vec::new(), draws: true, after: Vec::new() }
    }

    /// These things and edits, and the view drawn.
    pub fn with(acts: Vec<Do>, edits: Vec<Edit>) -> (r: Step)
        ensures
            makes(r, acts@, edits@),
    {
        Step { acts, edits, draws: true, after: Vec::new() }
    }

    /// One thing, and the view drawn.
    pub fn one(d: Do) -> (r: Step)
        ensures
            asks(r, seq![d]),
    {
        let mut acts: Vec<Do> = Vec::new();
        acts.push(d);
        assert(acts@ =~= seq![d]);
        Step::of(acts)
    }

    /// Only the view drawn.
    pub fn draw() -> (r: Step)
        ensures
            asks(r, Seq::empty()),
    {
        let acts: Vec<Do> = Vec::new();
        assert(acts@ =~= Seq::<Do>::empty());
        Step::of(acts)
    }

    /// Nothing.
    pub fn stop() -> (r: Step)
        ensures
            stops(r),
    {
        Step { acts: Vec::new(), edits: Vec::new(), draws: false, after: Vec::new() }
    }
}

/// The messages in a list of one.
pub fn only(m: Msg) -> (r: Vec<Msg>)
    ensures
        r@ == seq![m],
{
    let mut v: Vec<Msg> = Vec::new();
    v.push(m);
    assert(v@ =~= seq![m]);
    v
}

// -- loading --------------------------------------------------------------------------------

/// Whether a view and preferences that want completed tasks lack them.
pub open spec fn lacks_completed(w: Window) -> bool {
    w.wants_completed() && w.completed is None
}

/// Loads are numbered, and the newest counts.
pub open spec fn reloaded(old: Window) -> Window {
    Window {
        load_generation: (old.load_generation + 1) as u64,
        completed_generation: if old.wants_completed() || old.completed is Some {
            (old.completed_generation + 1) as u64
        } else {
            old.completed_generation
        },
        ..old
    }
}

pub open spec fn reload_acts(old: Window) -> Seq<Do> {
    if old.wants_completed() || old.completed is Some {
        seq![
            Do::Load((old.load_generation + 1) as u64),
            Do::LoadCompleted((old.completed_generation + 1) as u64),
        ]
    } else {
        seq![Do::Load((old.load_generation + 1) as u64)]
    }
}

impl Window {
    /// The numbers it counts with do not run out, and the completed tasks of
    /// all lists can be counted.
    pub open spec fn counts_on(&self) -> bool {
        &&& self.load_generation < u64::MAX
        &&& self.completed_generation < u64::MAX
        &&& self.serial < u64::MAX
        &&& crate::cli::done_in(self.lists@) <= usize::MAX
    }

    /// Whether its numbers do not run out.
    pub fn can_count_on(&self) -> (r: bool)
        ensures
            r == self.counts_on(),
    {
        let mut sum: u128 = 0;
        for i in 0..self.lists.len()
            invariant
                sum == crate::cli::done_in(self.lists@.take(i as int)),
                sum <= (i as u128) * (usize::MAX as u128),
                self.lists@.len() <= usize::MAX,
        {
            proof {
                let s = self.lists@;
                assert(s.take(i + 1).drop_last() == s.take(i as int));
                assert(s.take(i + 1).last() == s[i as int]);
                assert((i as u128) * (usize::MAX as u128) + usize::MAX == (i + 1) * (
                usize::MAX as int)) by (nonlinear_arith);
                assert((i + 1) * (usize::MAX as int) <= (usize::MAX as int) * (usize::MAX as int))
                    by (nonlinear_arith)
                    requires
                        i + 1 <= usize::MAX,
                ;
                assert((usize::MAX as int) * (usize::MAX as int) <= u128::MAX) by (nonlinear_arith)
                    requires
                        usize::MAX <= 0xffff_ffff_ffff_ffff,
                ;
            }
            if self.lists[i].writable {
                sum += self.lists[i].done as u128;
            }
        }
        assert(self.lists@.take(self.lists@.len() as int) == self.lists@);
        self.load_generation < u64::MAX && self.completed_generation < u64::MAX && self.serial
            < u64::MAX && sum <= usize::MAX as u128
    }

    /// Loads everything anew.
    pub fn reload(&mut self) -> (r: Vec<Do>)
        requires
            old(self).load_generation < u64::MAX,
            old(self).completed_generation < u64::MAX,
        ensures
            *final(self) == reloaded(*old(self)),
            r@ == reload_acts(*old(self)),
    {
        let mut acts: Vec<Do> = Vec::new();
        self.load_generation = self.load_generation + 1;
        acts.push(Do::Load(self.load_generation));
        if self.needs_completed() || self.completed.is_some() {
            self.completed_generation = self.completed_generation + 1;
            acts.push(Do::LoadCompleted(self.completed_generation));
        }
        assert(acts@ =~= reload_acts(*old(self)));
        acts
    }

    /// Loads the completed tasks when the view wants them and they are not
    /// there.
    pub(crate) fn load_lacking(&mut self, acts: &mut Vec<Do>)
        requires
            old(self).completed_generation < u64::MAX,
        ensures
            *final(self) == (Window {
                completed_generation: if lacks_completed(*old(self)) {
                    (old(self).completed_generation + 1) as u64
                } else {
                    old(self).completed_generation
                },
                ..*old(self)
            }),
            final(acts)@ == old(acts)@ + lacking_acts(*old(self)),
    {
        if self.needs_completed() && self.completed.is_none() {
            self.completed_generation = self.completed_generation + 1;
            acts.push(Do::LoadCompleted(self.completed_generation));
        }
        assert(acts@ =~= old(acts)@ + lacking_acts(*old(self)));
    }
}

/// What is asked for when the completed tasks are lacking.
pub open spec fn lacking_acts(w: Window) -> Seq<Do> {
    if lacks_completed(w) {
        seq![Do::LoadCompleted((w.completed_generation + 1) as u64)]
    } else {
        Seq::empty()
    }
}

// -- selecting ------------------------------------------------------------------------------

/// A selection with one task put in or taken out.
pub open spec fn toggled(s: Seq<Seq<char>>, href: Seq<char>) -> Seq<Seq<char>> {
    if s.contains(href) {
        without(s, href)
    } else {
        s.push(href)
    }
}

impl Window {
    /// Puts a task in the selection, or takes it out.
    pub fn toggle_selected(&mut self, href: &str)
        ensures
            *final(self) == (Window { selected: final(self).selected, ..*old(self) }),
            texts(final(self).selected@) == toggled(texts(old(self).selected@), href@),
            old(self).wf() && old(self).select_mode ==> final(self).wf(),
    {
        proof {
            without_leaves_others(texts(self.selected@), href@);
            with_keeps_others(texts(self.selected@), href@);
        }
        if has_text(&self.selected, href) {
            take_text(&mut self.selected, href);
        } else {
            let ghost before = texts(self.selected@);
            self.selected.push(String::from_str(href));
            assert(texts(self.selected@) =~= before.push(href@));
        }
    }
}

/// A task put in the selection and taken out again, or the other way around,
/// leaves the same tasks selected.
pub proof fn toggling_twice_undoes(s: Seq<Seq<char>>, href: Seq<char>)
    requires
        s.no_duplicates(),
    ensures
        toggled(toggled(s, href), href).no_duplicates(),
        forall|h: Seq<char>| #[trigger]
            toggled(toggled(s, href), href).contains(h) <==> s.contains(h),
{
    without_leaves_others(s, href);
    with_keeps_others(s, href);
    let t = toggled(s, href);
    without_leaves_others(t, href);
    with_keeps_others(t, href);
    assert forall|h: Seq<char>| #[trigger] toggled(t, href).contains(h) <==> s.contains(h) by {
        if s.contains(href) {
            assert(t == without(s, href));
            assert(!t.contains(href));
            assert(toggled(t, href) == with_text(t, href));
            if h != href {
                assert(without(s, href).contains(h) <==> s.contains(h));
            }
        } else {
            assert(t == with_text(s, href));
            assert(t.contains(href));
            assert(toggled(t, href) == without(t, href));
            if h != href {
                assert(without(t, href).contains(h) <==> t.contains(h));
            }
        }
    }
}

// -- checking off ---------------------------------------------------------------------------

/// The due date of an open task.
pub open spec fn due_of(w: Window, href: Seq<char>) -> Option<When> {
    match place(w.open@, href) {
        Some(i) => w.open@[i].task.due,
        None => None,
    }
}

/// How far a checked task is on its way out.
pub open spec fn on_its_way(w: Window, href: Seq<char>) -> Option<Completing> {
    state_at(pairs(w.completing@), href)
}

/// A task is sent as completed, with the date it has.
pub open spec fn completes(old: Window, href: Seq<char>, new: Window) -> bool {
    &&& new == (Window { completing: new.completing, ..old })
    &&& pairs(new.completing@) == with_key(
        pairs(old.completing@),
        href,
        Completing::Sent(due_of(old, href)),
    )
}

pub(crate) proof fn lemma_keys_once(s: Seq<(Seq<char>, Completing)>, k: Seq<char>, x: Completing)
    requires
        keys(s).no_duplicates(),
    ensures
        keys(without_key(s, k)).no_duplicates(),
        keys(with_key(s, k, x)).no_duplicates(),
        !keys(without_key(s, k)).contains(k),
{
    lemma_keys_without(s, k);
    without_leaves_others(keys(s), k);
    let w = keys(without_key(s, k));
    with_keeps_others(w, k);
    assert(keys(with_key(s, k, x)) =~= w.push(k));
}

proof fn lemma_keys_without(s: Seq<(Seq<char>, Completing)>, k: Seq<char>)
    ensures
        keys(without_key(s, k)) == without(keys(s), k),
    decreases s.len(),
{
    reveal(Seq::filter);
    if s.len() > 0 {
        lemma_keys_without(s.drop_last(), k);
        assert(keys(s).drop_last() =~= keys(s.drop_last()));
        assert(keys(s).last() == s.last().0);
        if s.last().0 != k {
            assert(keys(without_key(s, k)) =~= keys(without_key(s.drop_last(), k)).push(
                s.last().0,
            ));
        }
    } else {
        assert(keys(without_key(s, k)) =~= without(keys(s), k));
    }
}

/// A row's checkbox. Checked, the task waits a moment, or is sent at once;
/// unchecked while it waits, it stays; a completed one is opened again.
pub open spec fn checks(old: Window, href: Seq<char>, done: bool, new: Window) -> bool {
    if done {
        if on_its_way(old, href) is Some || !old.is_open(href) {
            new == old
        } else if old.prefs.complete_later {
            &&& new == (Window {
                serial: (old.serial + 1) as u64,
                completing: new.completing,
                ..old
            })
            &&& pairs(new.completing@) == with_key(
                pairs(old.completing@),
                href,
                Completing::Waiting((old.serial + 1) as u64),
            )
        } else {
            completes(old, href, new)
        }
    } else if on_its_way(old, href) matches Some(Completing::Waiting(_)) {
        &&& new == (Window { completing: new.completing, ..old })
        &&& pairs(new.completing@) == without_key(pairs(old.completing@), href)
    } else {
        new == old
    }
}

/// What a checkbox asks for.
pub open spec fn check_acts(old: Window, href: String, done: bool) -> Seq<Do> {
    if done {
        if on_its_way(old, href@) is Some || !old.is_open(href@) {
            Seq::empty()
        } else if old.prefs.complete_later {
            seq![Do::Later(1200, Msg::CompleteNow(href, (old.serial + 1) as u64))]
        } else {
            seq![Do::Complete(href)]
        }
    } else if on_its_way(old, href@) matches Some(Completing::Waiting(_)) {
        Seq::empty()
    } else if !old.is_open(href@) {
        seq![Do::Send(Msg::Reopen(href))]
    } else {
        Seq::empty()
    }
}

impl Window {
    /// A task that waits no longer, or never did.
    pub fn send_complete(&mut self, href: String) -> (r: Do)
        ensures
            completes(*old(self), href@, *final(self)),
            r == Do::Complete(href),
            old(self).wf() ==> final(self).wf(),
    {
        let due: Option<When> = match find_place(&self.open, href.as_str()) {
            Some(i) => self.open[i].task.due,
            None => None,
        };
        proof {
            if self.wf() {
                lemma_keys_once(pairs(self.completing@), href@, Completing::Sent(due));
            }
        }
        put_state(&mut self.completing, href.clone(), Completing::Sent(due));
        Do::Complete(href)
    }

    /// A row's checkbox.
    pub fn check(&mut self, href: String, done: bool) -> (r: Vec<Do>)
        requires
            old(self).serial < u64::MAX,
        ensures
            checks(*old(self), href@, done, *final(self)),
            r@ == check_acts(*old(self), href, done),
            old(self).wf() ==> final(self).wf(),
    {
        let mut acts: Vec<Do> = Vec::new();
        let state = find_state(&self.completing, href.as_str());
        if done {
            if state.is_some() || !self.has_open(href.as_str()) {
                return acts;
            }
            if self.prefs.complete_later {
                self.serial = self.serial + 1;
                let serial = self.serial;
                proof {
                    if old(self).wf() {
                        lemma_keys_once(
                            pairs(self.completing@),
                            href@,
                            Completing::Waiting(serial),
                        );
                    }
                }
                put_state(&mut self.completing, href.clone(), Completing::Waiting(serial));
                acts.push(Do::Later(1200, Msg::CompleteNow(href, serial)));
            } else {
                acts.push(self.send_complete(href));
            }
        } else {
            match state {
                Some(Completing::Waiting(s)) => {
                    proof {
                        if old(self).wf() {
                            lemma_keys_once(
                                pairs(self.completing@),
                                href@,
                                Completing::Waiting(s),
                            );
                        }
                    }
                    take_state(&mut self.completing, href.as_str());
                },
                _ => {
                    if !self.has_open(href.as_str()) {
                        acts.push(Do::Send(Msg::Reopen(href)));
                    }
                },
            }
        }
        assert(acts@ =~= check_acts(*old(self), href, done));
        acts
    }
}

/// A slip can be undone: a task that was checked and unchecked while it
/// waited is not completed when its moment is over, even if it was checked
/// once more by then.
pub proof fn unchecked_in_time_stays(a: Window, b: Window, c: Window, d: Window, href: Seq<char>)
    requires
        a.serial < u64::MAX - 1,
        a.prefs.complete_later,
        on_its_way(a, href) is None,
        a.is_open(href),
        checks(a, href, true, b),
        checks(b, href, false, c),
        d == c || checks(c, href, true, d),
    ensures
        on_its_way(b, href) == Some(Completing::Waiting(b.serial)),
        on_its_way(c, href) is None,
        on_its_way(d, href) != Some(Completing::Waiting(b.serial)),
{
    crate::keyed::states_are_kept(
        pairs(a.completing@),
        href,
        Completing::Waiting((a.serial + 1) as u64),
    );
    crate::keyed::states_are_kept(
        pairs(b.completing@),
        href,
        Completing::Waiting((a.serial + 1) as u64),
    );
    crate::keyed::states_are_kept(
        pairs(c.completing@),
        href,
        Completing::Waiting((c.serial + 1) as u64),
    );
}

// -- new data ---------------------------------------------------------------------------------

/// The last task with an address.
pub open spec fn last_at(s: Seq<TaskView>, href: Seq<char>) -> Option<TaskView>
    decreases s.len(),
{
    if s.len() == 0 {
        None
    } else if s.last().href@ == href {
        Some(s.last())
    } else {
        last_at(s.drop_last(), href)
    }
}

/// A checked task that is still on its way out: the daemon's data has not
/// moved on.
pub open spec fn still_going(open: Seq<TaskView>) -> spec_fn((Seq<char>, Completing)) -> bool {
    |p: (Seq<char>, Completing)|
        match p.1 {
            Completing::Waiting(_) => last_at(open, p.0) is Some,
            Completing::Sent(due) => last_at(open, p.0) matches Some(t) && t.task.due == due
                && t.task.open,
        }
}

/// A repeating task that was sent, and is on to its next date.
pub open spec fn moved_on(open: Seq<TaskView>, p: (Seq<char>, Completing)) -> bool {
    p.1 matches Completing::Sent(due) && last_at(open, p.0) matches Some(t) && t.task.due != due
        && t.task.open
}

/// The tasks that moved on, with those before.
pub open spec fn rolled_on(
    open: Seq<TaskView>,
    s: Seq<(Seq<char>, Completing)>,
    before: Seq<Seq<char>>,
) -> Seq<Seq<char>>
    decreases s.len(),
{
    if s.len() == 0 {
        before
    } else {
        let r = rolled_on(open, s.drop_last(), before);
        if moved_on(open, s.last()) {
            with_text(r, s.last().0)
        } else {
            r
        }
    }
}

/// An address that a task has.
pub open spec fn is_known(w: Window) -> spec_fn(Seq<char>) -> bool {
    |h: Seq<char>| w.known(h)
}

/// Bookkeeping the new data has made moot is dropped.
pub open spec fn settles(old: Window, new: Window) -> bool {
    &&& new == (Window {
        completing: new.completing,
        rolled: new.rolled,
        hidden: new.hidden,
        selected: new.selected,
        ..old
    })
    &&& pairs(new.completing@) == pairs(old.completing@).filter(still_going(old.open@))
    &&& texts(new.rolled@) == rolled_on(old.open@, pairs(old.completing@), texts(old.rolled@))
    &&& texts(new.hidden@) == texts(old.hidden@).filter(is_known(old))
    &&& texts(new.selected@) == texts(old.selected@).filter(is_known(old))
}

fn find_last<'a>(s: &'a Vec<TaskView>, href: &str) -> (r: Option<&'a TaskView>)
    ensures
        r == (match last_at(s@, href@) {
            Some(t) => Some(&t),
            None => None,
        }),
{
    let ghost v = s@;
    let mut i: usize = s.len();
    assert(v.take(v.len() as int) == v);
    while i > 0
        invariant
            v == s@,
            i <= v.len(),
            last_at(v.take(i as int), href@) == last_at(v, href@),
        decreases i,
    {
        i -= 1;
        proof {
            assert(v.take(i + 1).last() == v[i as int]);
            assert(v.take(i + 1).drop_last() == v.take(i as int));
        }
        if same(s[i].href.as_str(), href) {
            return Some(&s[i]);
        }
    }
    assert(v.take(0).len() == 0);
    None
}

pub(crate) fn same_when(a: &Option<When>, b: &Option<When>) -> (r: bool)
    ensures
        r == (*a == *b),
{
    match (a, b) {
        (Some(x), Some(y)) => *x == *y,
        (None, None) => true,
        _ => false,
    }
}

proof fn lemma_filter_once(s: Seq<Seq<char>>, p: spec_fn(Seq<char>) -> bool)
    requires
        s.no_duplicates(),
    ensures
        s.filter(p).no_duplicates(),
        forall|x: Seq<char>| #[trigger] s.filter(p).contains(x) ==> p(x) && s.contains(x),
    decreases s.len(),
{
    reveal(Seq::filter);
    if s.len() > 0 {
        let t = s.drop_last();
        assert(t.no_duplicates()) by {
            assert forall|i: int, j: int| 0 <= i < t.len() && 0 <= j < t.len() && i
                != j implies t[i] != t[j] by {
                assert(s[i] != s[j]);
            }
        }
        lemma_filter_once(t, p);
        let w = t.filter(p);
        let u = s.filter(p);
        assert forall|x: Seq<char>| #[trigger] u.contains(x) implies p(x) && s.contains(x) by {
            let i = choose|i: int| 0 <= i < u.len() && u[i] == x;
            if i < w.len() {
                assert(w[i] == x);
                assert(w.contains(x));
                let j = choose|j: int| 0 <= j < t.len() && t[j] == x;
                assert(s[j] == x);
            } else {
                assert(x == s[s.len() - 1]);
            }
        }
        if p(s.last()) {
            assert forall|i: int, j: int| 0 <= i < u.len() && 0 <= j < u.len() && i
                != j implies u[i] != u[j] by {
                if i < w.len() && j < w.len() {
                    assert(w[i] != w[j]);
                } else {
                    let k = if i < w.len() {
                        i
                    } else {
                        j
                    };
                    assert(w.contains(w[k]));
                    let m = choose|m: int| 0 <= m < t.len() && t[m] == w[k];
                    assert(s[m] != s[s.len() - 1]);
                }
            }
        }
    }
}

proof fn lemma_filter_keys_once(
    s: Seq<(Seq<char>, Completing)>,
    p: spec_fn((Seq<char>, Completing)) -> bool,
)
    requires
        keys(s).no_duplicates(),
    ensures
        keys(s.filter(p)).no_duplicates(),
        forall|k: Seq<char>| #[trigger] keys(s.filter(p)).contains(k) ==> keys(s).contains(k),
    decreases s.len(),
{
    reveal(Seq::filter);
    if s.len() > 0 {
        let t = s.drop_last();
        assert(keys(t) =~= keys(s).drop_last());
        assert(keys(t).no_duplicates()) by {
            assert forall|i: int, j: int| 0 <= i < t.len() && 0 <= j < t.len() && i
                != j implies keys(t)[i] != keys(t)[j] by {
                assert(keys(s)[i] != keys(s)[j]);
            }
        }
        lemma_filter_keys_once(t, p);
        let w = keys(t.filter(p));
        let u = keys(s.filter(p));
        if p(s.last()) {
            assert(u =~= w.push(s.last().0));
        }
        assert forall|k: Seq<char>| #[trigger] u.contains(k) implies keys(s).contains(k) by {
            let i = choose|i: int| 0 <= i < u.len() && u[i] == k;
            if i < w.len() {
                assert(w[i] == k);
                assert(w.contains(k));
                let j = choose|j: int| 0 <= j < keys(t).len() && keys(t)[j] == k;
                assert(keys(s)[j] == k);
            } else {
                assert(keys(s)[s.len() - 1] == k);
            }
        }
        if p(s.last()) {
            assert forall|i: int, j: int| 0 <= i < u.len() && 0 <= j < u.len() && i
                != j implies u[i] != u[j] by {
                if i < w.len() && j < w.len() {
                    assert(w[i] != w[j]);
                } else {
                    let k = if i < w.len() {
                        i
                    } else {
                        j
                    };
                    assert(w.contains(w[k]));
                    let m = choose|m: int| 0 <= m < keys(t).len() && keys(t)[m] == w[k];
                    assert(keys(s)[m] != keys(s)[s.len() - 1]);
                }
            }
        }
    }
}

impl Window {
    fn keep_known(&self, v: &Vec<String>) -> (r: Vec<String>)
        ensures
            texts(r@) == texts(v@).filter(is_known(*self)),
    {
        let mut out: Vec<String> = Vec::new();
        let ghost s = texts(v@);
        let ghost p = is_known(*self);
        proof {
            reveal(Seq::filter);
            assert(texts(out@) =~= s.take(0).filter(p));
        }
        for i in 0..v.len()
            invariant
                s == texts(v@),
                p == is_known(*self),
                texts(out@) == s.take(i as int).filter(p),
        {
            let ghost before = texts(out@);
            proof {
                reveal(Seq::filter);
                assert(s.take(i + 1).drop_last() == s.take(i as int));
                assert(s.take(i + 1).last() == v@[i as int]@);
            }
            if self.knows(v[i].as_str()) {
                out.push(v[i].clone());
                assert(texts(out@) =~= before.push(v@[i as int]@));
            }
        }
        assert(s.take(s.len() as int) == s);
        out
    }

    /// Drops bookkeeping the new data has made moot.
    pub fn settle(&mut self)
        ensures
            settles(*old(self), *final(self)),
            old(self).wf() ==> final(self).wf(),
    {
        let mut left: Vec<(String, Completing)> = Vec::new();
        let mut rolled: Vec<String> = Vec::new();
        core::mem::swap(&mut rolled, &mut self.rolled);
        let ghost s = pairs(self.completing@);
        let ghost open = self.open@;
        let ghost p = still_going(open);
        let ghost first = texts(rolled@);
        proof {
            reveal(Seq::filter);
            assert(pairs(left@) =~= s.take(0).filter(p));
            assert(s.take(0).len() == 0);
        }
        for i in 0..self.completing.len()
            invariant
                s == pairs(self.completing@),
                open == self.open@,
                p == still_going(open),
                pairs(left@) == s.take(i as int).filter(p),
                texts(rolled@) == rolled_on(open, s.take(i as int), first),
                first.no_duplicates() ==> texts(rolled@).no_duplicates(),
        {
            let ghost before = pairs(left@);
            let href = &self.completing[i].0;
            let state = self.completing[i].1;
            proof {
                reveal(Seq::filter);
                assert(s.take(i + 1).drop_last() == s.take(i as int));
                assert(s.take(i + 1).last() == s[i as int]);
                assert(s[i as int] == (href@, state));
                with_keeps_others(texts(rolled@), href@);
            }
            let now = find_last(&self.open, href.as_str());
            let stays: bool = match state {
                Completing::Waiting(_) => now.is_some(),
                Completing::Sent(due) => match now {
                    Some(t) => {
                        if !same_when(&t.task.due, &due) && t.task.open {
                            // A repeating task, on to its next date.
                            put_text(&mut rolled, href.clone());
                        }
                        same_when(&t.task.due, &due) && t.task.open
                    },
                    None => false,
                },
            };
            if stays {
                left.push((href.clone(), state));
                assert(pairs(left@) =~= before.push(s[i as int]));
            }
        }
        assert(s.take(s.len() as int) == s);
        self.completing = left;
        self.rolled = rolled;
        let hidden = self.keep_known(&self.hidden);
        let selected = self.keep_known(&self.selected);
        proof {
            assert(is_known(*self) =~= is_known(*old(self)));
            if old(self).wf() {
                lemma_filter_keys_once(s, p);
                lemma_filter_once(texts(old(self).hidden@), is_known(*old(self)));
                lemma_filter_once(texts(old(self).selected@), is_known(*old(self)));
                if old(self).selected@.len() == 0 {
                    reveal(Seq::filter);
                    assert(texts(old(self).selected@).len() == 0);
                    assert(texts(selected@).len() == 0);
                }
            }
        }
        self.hidden = hidden;
        self.selected = selected;
    }
}

/// After new data, only what there still is is hidden, selected, or waits to
/// be completed.
pub proof fn settled_is_known(old: Window, new: Window, href: Seq<char>)
    requires
        old.wf(),
        settles(old, new),
    ensures
        texts(new.hidden@).contains(href) ==> new.known(href),
        texts(new.selected@).contains(href) ==> new.known(href),
        on_its_way(new, href) matches Some(Completing::Waiting(_)) ==> new.is_open(href),
{
    lemma_filter_once(texts(old.hidden@), is_known(old));
    lemma_filter_once(texts(old.selected@), is_known(old));
    lemma_state_passes(pairs(old.completing@), still_going(old.open@), href);
    lemma_last_is_placed(old.open@, href);
}

proof fn lemma_state_passes(
    s: Seq<(Seq<char>, Completing)>,
    p: spec_fn((Seq<char>, Completing)) -> bool,
    k: Seq<char>,
)
    ensures
        state_at(s.filter(p), k) matches Some(x) ==> p((k, x)),
    decreases s.len(),
{
    let f = s.filter(p);
    lemma_filter_passes(s, p);
    lemma_state_there(f, k);
}

proof fn lemma_filter_passes(
    s: Seq<(Seq<char>, Completing)>,
    p: spec_fn((Seq<char>, Completing)) -> bool,
)
    ensures
        forall|i: int| 0 <= i < s.filter(p).len() ==> p(#[trigger] s.filter(p)[i]),
    decreases s.len(),
{
    reveal(Seq::filter);
    if s.len() > 0 {
        lemma_filter_passes(s.drop_last(), p);
    }
}

proof fn lemma_state_there(s: Seq<(Seq<char>, Completing)>, k: Seq<char>)
    ensures
        state_at(s, k) matches Some(x) ==> exists|i: int|
            0 <= i < s.len() && #[trigger] s[i] == (k, x),
    decreases s.len(),
{
    if s.len() > 0 {
        if s[0].0 == k {
            assert(s[0] == (k, s[0].1));
        } else {
            lemma_state_there(s.skip(1), k);
            if let Some(x) = state_at(s.skip(1), k) {
                let i = choose|i: int| 0 <= i < s.skip(1).len() && #[trigger] s.skip(1)[i] == (k, x);
                assert(s[i + 1] == (k, x));
            }
        }
    }
}

proof fn lemma_last_is_placed(s: Seq<TaskView>, href: Seq<char>)
    ensures
        last_at(s, href) is Some ==> place(s, href) is Some,
    decreases s.len(),
{
    lemma_place(s, href);
    lemma_last_there(s, href);
}

proof fn lemma_last_there(s: Seq<TaskView>, href: Seq<char>)
    ensures
        last_at(s, href) matches Some(t) ==> exists|i: int|
            0 <= i < s.len() && (#[trigger] s[i]).href@ == href,
    decreases s.len(),
{
    if s.len() > 0 {
        if s.last().href@ == href {
            assert(s[s.len() - 1].href@ == href);
        } else {
            lemma_last_there(s.drop_last(), href);
            if last_at(s.drop_last(), href) is Some {
                let i = choose|i: int|
                    0 <= i < s.drop_last().len() && (#[trigger] s.drop_last()[i]).href@ == href;
                assert(s[i].href@ == href);
            }
        }
    }
}

} // verus!
