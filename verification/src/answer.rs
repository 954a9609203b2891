//! Every answer the window gets from the daemon, and what comes of it.

use vstd::prelude::*;
use vstd::string::*;

use crate::editor::Edit;
use crate::handle::shows_where;
use crate::keyed::{pairs, take_state, without_key};
use crate::nav::{Nav, NavView, OptsView, find_list, list_at};
use crate::plan::{inbox, inbox_of};
use crate::settings::Settings;
use crate::steps::{
    asks, asks_one, in_quotes, lemma_keys_once, makes, only, quoted, reload_acts, reloaded, settles,
    stops,
};
use crate::task::{ListView, StatusView, SyncState, TaskView, tasks_wf};
use crate::text::{chars, glue, text, texts, trim, trim_text};
use crate::update::{Do, Msg, Place, Seen, Step, closes, open_acts, opens};
use crate::window::{Completing, Window, has_task};

verus! {

/// What was loaded.
#[derive(Debug)]
pub struct Loaded {
    pub lists: Vec<ListView>,
    pub open: Vec<TaskView>,
    pub status: StatusView,
}

/// A task that was added, or was there already, and the words for its date.
#[derive(Debug)]
pub struct Added {
    pub existed: bool,
    pub task: TaskView,
    pub label: String,
}

/// What the daemon answers, or says on its own.
#[derive(Debug)]
pub enum Answer {
    Loaded(u64, Result<Loaded, String>),
    CompletedLoaded(u64, Result<Vec<TaskView>, String>),
    Changed,
    Status(StatusView),
    LoginDone(bool, String),
    LoginUrl(Result<String, String>),
    Settings(Result<Settings, String>),
    /// Something was done; what to say of it, if anything.
    Toast(Result<String, String>),
    /// A task, and the words for its date.
    Completed(String, Result<(TaskView, String), String>),
    Added(Result<Added, String>),
    Opened(Result<TaskView, String>),
    ListSaved(Result<ListView, String>),
    /// A task's iCalendar object, to save.
    Ics(String, Result<String, String>),
    /// The places found for a location reminder.
    Places(Result<Vec<Place>, String>),
    Closed,
}

impl Answer {
    /// The tasks in it are well formed.
    pub open spec fn wf(&self) -> bool {
        match *self {
            Answer::Loaded(_, Ok(l)) => tasks_wf(l.open@),
            Answer::CompletedLoaded(_, Ok(c)) => tasks_wf(c@),
            Answer::Completed(_, Ok(p)) => p.0.task.wf(),
            Answer::Added(Ok(a)) => a.task.task.wf(),
            Answer::Opened(Ok(t)) => t.task.wf(),
            _ => true,
        }
    }
}

// -- what comes of it ---------------------------------------------------------------------------

/// A step that says something.
pub open spec fn says(r: Step, s: Seq<char>) -> bool {
    asks_one(r) && (r.acts@[0] matches Do::Toast(t) && t@ == s)
}

/// New lists and tasks. A load that is not the newest is dropped; a list that
/// is gone is not on view any more.
pub open spec fn loads(old: Window, generation: u64, l: Result<Loaded, String>, new: Window, r: Step) -> bool {
    if generation != old.load_generation {
        new == old && stops(r)
    } else {
        match l {
            Err(e) => new == (Window { error: Some(e), ..old }) && asks(r, Seq::empty()),
            Ok(l) => {
                let mid = Window {
                    error: None,
                    loaded: true,
                    lists: l.lists,
                    open: l.open,
                    status: Some(l.status),
                    ..old
                };
                &&& settles(mid, Window { nav: old.nav, ..new })
                &&& new.nav == (if old.nav@ matches NavView::List(h) && list_at(l.lists@, h) is None {
                    Nav::Today
                } else {
                    old.nav
                })
                &&& asks(r, seq![Do::CardLists])
            },
        }
    }
}

pub open spec fn loads_completed(
    old: Window,
    generation: u64,
    c: Result<Vec<TaskView>, String>,
    new: Window,
    r: Step,
) -> bool {
    if generation != old.completed_generation {
        new == old && stops(r)
    } else {
        match c {
            Err(e) => new == old && says(r, e@),
            Ok(c) => settles(Window { completed: Some(c), ..old }, new) && asks(r, Seq::empty()),
        }
    }
}

/// The daemon's status; signing in elsewhere loads everything.
pub open spec fn learns(old: Window, s: StatusView, new: Window, r: Step) -> bool {
    if (old.status matches Some(x) && x.state == SyncState::NoAccount) && s.state
        != SyncState::NoAccount {
        new == reloaded(Window { status: Some(s), ..old }) && asks(r, reload_acts(old))
    } else {
        new == (Window { status: Some(s), ..old }) && asks(r, Seq::empty())
    }
}

/// How signing in ended.
pub open spec fn signed_in(old: Window, ok: bool, message: String, new: Window, r: Step) -> bool {
    if ok {
        &&& new == reloaded(Window { signing_in: None, sign_in_error: None, ..old })
        &&& r.acts@.len() == reload_acts(old).len() + 2 && makes(r, r.acts@, Seq::empty())
        &&& r.acts@[0] matches Do::Toast(t) && t@ == "Signed in"@
        &&& r.acts@.subrange(1, r.acts@.len() - 1) == reload_acts(old)
        &&& r.acts@.last() is LoadSettings
    } else {
        new == (Window { signing_in: None, sign_in_error: Some(message), ..old }) && asks(
            r,
            Seq::empty(),
        )
    }
}

pub open spec fn sign_in_page(old: Window, url: Result<String, String>, new: Window, r: Step) -> bool {
    match url {
        Ok(u) => new == (Window { signing_in: Some(u), ..old }) && asks(r, seq![Do::Launch(u)]),
        Err(e) => new == (Window { signing_in: None, sign_in_error: Some(e), ..old }) && asks(
            r,
            Seq::empty(),
        ),
    }
}

pub open spec fn learns_settings(old: Window, s: Result<Settings, String>, new: Window, r: Step) -> bool {
    match s {
        Ok(s) => new == (Window { settings: Some(s), ..old }) && asks(r, Seq::empty()),
        Err(e) => new == old && if old.settings is Some {
            asks(r, seq![Do::Toast(e)])
        } else {
            asks(r, Seq::empty())
        },
    }
}

/// Something was done, or was not: then what is shown is loaded anew.
pub open spec fn done(old: Window, said: Result<String, String>, new: Window, r: Step) -> bool {
    match said {
        Ok(s) => new == old && asks(
            r,
            if s@.len() > 0 {
                seq![Do::Toast(s)]
            } else {
                Seq::empty()
            },
        ),
        Err(e) => new == reloaded(old) && asks(r, seq![Do::Toast(e)] + reload_acts(old)),
    }
}

/// A task was completed. A repeating one has its next date; another can be
/// opened again. One that was not is no longer on its way out.
pub open spec fn completed(
    old: Window,
    href: String,
    result: Result<(TaskView, String), String>,
    new: Window,
    r: Step,
) -> bool {
    match result {
        Ok(p) => {
            let t = p.0;
            &&& new == old
            &&& asks_one(r)
            &&& if t.task.open {
                r.acts@[0] matches Do::Toast(s) && s@ == "Completed "@ + in_quotes(t.task.summary@)
                    + " · next "@ + (if t.task.due is Some {
                    p.1@
                } else {
                    Seq::empty()
                })
            } else {
                r.acts@[0] matches Do::UndoToast(s, secs, undo, gone) && s@ == "Completed "@
                    + in_quotes(t.task.summary@) && secs == 4 && undo@ == seq![Msg::Reopen(t.href)]
                    && gone@.len() == 0
            }
        },
        Err(e) => {
            &&& new == (Window { completing: new.completing, ..old })
            &&& pairs(new.completing@) == without_key(pairs(old.completing@), href@)
            &&& asks(r, seq![Do::Toast(e)])
        },
    }
}

/// A task that was added is on the view.
pub open spec fn is_here(w: Window, t: TaskView, today: int) -> bool {
    match w.nav@ {
        NavView::List(h) => t.list@ == h,
        NavView::Inbox => inbox_of(w.lists@) matches Some(l) && l.href@ == t.list@,
        NavView::Today => t.task.due matches Some(d) && d.date.ce <= today,
        _ => true,
    }
}

/// A task was added: where it went is said when that isn't this view.
pub open spec fn added(old: Window, result: Result<Added, String>, today: int, r: Step) -> bool {
    match result {
        Err(e) => asks(r, seq![Do::Toast(e)]),
        Ok(a) => if a.existed {
            says(r, "Already there: "@ + in_quotes(a.task.task.summary@))
        } else if is_here(old, a.task, today) {
            asks(r, Seq::empty())
        } else {
            says(
                r,
                "Added to "@ + a.task.list_name@ + (if a.task.task.due is Some {
                    ", "@ + a.label@
                } else {
                    Seq::empty()
                }),
            )
        },
    }
}

/// The tasks with one that was asked for, where it was not known.
pub open spec fn meets(old: Window, t: TaskView, new: Window) -> bool {
    &&& new == (Window { open: new.open, completed: new.completed, ..old })
    &&& if old.known(t.href@) {
        new == old
    } else if t.task.open {
        new.open@ == old.open@.push(t) && new.completed == old.completed
    } else {
        &&& new.open == old.open
        &&& new.completed is Some == old.completed is Some
        &&& old.completed is Some ==> new.done() == old.done().push(t)
    }
}

/// A task that was asked for is opened: here, or in its list. The state on
/// the way is known from where it ends.
pub open spec fn opened(old: Window, t: TaskView, seen: Seen, mid: Window, there: Window, new: Window, r: Step) -> bool {
    &&& meets(old, t, mid)
    &&& if has_task(mid.planned(seen.now), t.href@) {
        &&& there == mid
        &&& opens(there, t.href, seen, new, r.edits@)
        &&& makes(r, open_acts(there, t.href, seen), r.edits@)
    } else {
        let here = NavView::List(t.list@);
        &&& closes(mid, seen, Window { nav: mid.nav, prefs: mid.prefs, ..there }, r.edits@)
        &&& there.nav@ == here
        &&& shows_where(mid.prefs, here, t.task.open, there.prefs)
        &&& opens(there, t.href, seen, new, Seq::empty())
        &&& makes(r, seq![Do::Save] + open_acts(there, t.href, seen), r.edits@)
    }
}

/// A list was saved: a new one is gone to.
pub open spec fn list_saved(old: Window, result: Result<ListView, String>, new: Window, r: Step) -> bool {
    match result {
        Err(e) => new == old && asks(r, seq![Do::Toast(e)]),
        Ok(l) => if list_at(old.lists@, l.href@) is Some {
            new == reloaded(old) && asks(r, reload_acts(old))
        } else {
            let mid = Window { lists: new.lists, nav: Nav::List(l.href), ..old };
            &&& new.lists@ == old.lists@.push(l)
            &&& new == reloaded(mid)
            &&& asks(r, reload_acts(mid))
        },
    }
}

/// A character that controls, and shows nothing.
pub open spec fn controls(c: char) -> bool {
    c as u32 <= 0x1f || (0x7f <= c as u32 && c as u32 <= 0x9f)
}

/// A character as a file name can have it.
pub open spec fn file_char(c: char) -> char {
    if c == '/' || controls(c) {
        '-'
    } else {
        c
    }
}

/// What is left without dots in front.
pub open spec fn no_dots(s: Seq<char>) -> Seq<char>
    decreases s.len(),
{
    if s.len() > 0 && s[0] == '.' {
        no_dots(s.skip(1))
    } else {
        s
    }
}

/// The characters of a title that a file name has room for.
pub open spec fn shortened(s: Seq<char>) -> Seq<char> {
    let m = s.map_values(|c: char| file_char(c));
    if m.len() > 60 {
        m.take(60)
    } else {
        m
    }
}

/// A task's title as a file name: no slashes or control characters, no dots
/// in front, not too long.
pub open spec fn file_text(title: Seq<char>) -> Seq<char> {
    let name = no_dots(trim(shortened(title)));
    if name.len() == 0 {
        "task"@
    } else {
        name
    }
}

/// A task's iCalendar object, to be saved in a file named after the task.
pub open spec fn saves_ics(old: Window, href: Seq<char>, result: Result<String, String>, r: Step) -> bool {
    match result {
        Err(e) => asks(r, seq![Do::Toast(e)]),
        Ok(ics) => {
            &&& asks_one(r)
            &&& r.acts@[0] matches Do::SaveFile(name, s) && s == ics && name@ == (match old.task(
                href,
            ) {
                Some(t) => file_text(t.task.summary@),
                None => "task"@,
            }) + ".ics"@
        },
    }
}

/// What comes of an answer.
pub open spec fn answers(old: Window, a: Answer, seen: Seen, new: Window, r: Step) -> bool {
    match a {
        Answer::Loaded(generation, l) => loads(old, generation, l, new, r),
        Answer::CompletedLoaded(generation, c) => loads_completed(old, generation, c, new, r),
        Answer::Changed => new == reloaded(old) && r.acts@ == reload_acts(old) && r.edits@.len()
            == 0 && !r.draws && r.after@.len() == 0,
        Answer::Status(s) => learns(old, s, new, r),
        Answer::LoginDone(ok, message) => signed_in(old, ok, message, new, r),
        Answer::LoginUrl(url) => sign_in_page(old, url, new, r),
        Answer::Settings(s) => learns_settings(old, s, new, r),
        Answer::Toast(said) => done(old, said, new, r),
        Answer::Completed(href, result) => completed(old, href, result, new, r),
        Answer::Added(result) => new == old && added(old, result, seen.now.day(), r),
        Answer::Opened(result) => match result {
            Ok(t) => exists|mid: Window, there: Window| #[trigger]
                opened(old, t, seen, mid, there, new, r),
            Err(e) => new == old && asks(r, seq![Do::Toast(e)]),
        },
        Answer::ListSaved(result) => list_saved(old, result, new, r),
        Answer::Ics(href, result) => new == old && saves_ics(old, href@, result, r),
        Answer::Places(result) => new == old && asks(
            r,
            match result {
                Ok(places) => seq![Do::ShowPlaces(places)],
                Err(e) => seq![Do::Toast(e)],
            },
        ),
        Answer::Closed => {
            &&& new == (Window { hidden: new.hidden, ..old })
            &&& new.hidden@.len() == 0
            &&& r.acts@ == seq![Do::Close] && r.edits@.len() == 0 && !r.draws && r.after@.len()
                == 0
        },
    }
}

// -- names of files -----------------------------------------------------------------------------

/// A task's title as a file name.
pub fn file_name(title: &str) -> (r: String)
    ensures
        r@ == file_text(title@),
{
    let v = chars(title);
    let ghost m = title@.map_values(|c: char| file_char(c));
    let n: usize = if v.len() > 60 {
        60
    } else {
        v.len()
    };
    let mut out: Vec<char> = Vec::new();
    for i in 0..n
        invariant
            v@ == title@,
            n <= v@.len(),
            m == title@.map_values(|c: char| file_char(c)),
            out@ == m.take(i as int),
    {
        let c = v[i];
        let k = c as u32;
        out.push(
            if c == '/' || k <= 0x1f || (0x7f <= k && k <= 0x9f) {
                '-'
            } else {
                c
            },
        );
        assert(out@ =~= m.take(i + 1));
    }
    assert(out@ =~= shortened(title@));
    let t = chars(trim_text(text(&out).as_str()).as_str());
    let mut from: usize = 0;
    assert(t@.skip(0) == t@);
    while from < t.len() && t[from] == '.'
        invariant
            from <= t@.len(),
            no_dots(t@.skip(from as int)) == no_dots(t@),
        decreases t@.len() - from,
    {
        assert(t@.skip(from as int)[0] == t@[from as int]);
        assert(t@.skip(from as int).skip(1) == t@.skip(from + 1));
        from += 1;
    }
    let ghost left = t@.skip(from as int);
    assert(no_dots(left) == left) by {
        if left.len() > 0 {
            assert(left[0] == t@[from as int]);
        }
    }
    if from == t.len() {
        String::from_str("task")
    } else {
        let name = crate::text::part(&t, from, t.len());
        assert(name@ =~= left);
        text(&name)
    }
}

proof fn lemma_no_dots(s: Seq<char>)
    ensures
        no_dots(s).len() <= s.len(),
        no_dots(s).len() > 0 ==> no_dots(s)[0] != '.',
        forall|i: int|
            0 <= i < no_dots(s).len() ==> s.contains(#[trigger] no_dots(s)[i]),
    decreases s.len(),
{
    if s.len() > 0 && s[0] == '.' {
        lemma_no_dots(s.skip(1));
        let d = no_dots(s);
        assert forall|i: int| 0 <= i < d.len() implies s.contains(#[trigger] d[i]) by {
            let j = choose|j: int| 0 <= j < s.skip(1).len() && s.skip(1)[j] == d[i];
            assert(s[j + 1] == d[i]);
        }
    }
}

// -- doing it ------------------------------------------------------------------------------------

impl Window {
    fn load(&mut self, generation: u64, l: Result<Loaded, String>) -> (r: Step)
        requires
            old(self).wf(),
            l matches Ok(x) ==> tasks_wf(x.open@),
        ensures
            loads(*old(self), generation, l, *final(self), r),
            final(self).wf(),
    {
        if generation != self.load_generation {
            return Step::stop();
        }
        match l {
            Err(e) => {
                self.error = Some(e);
                Step::draw()
            },
            Ok(l) => {
                self.error = None;
                self.loaded = true;
                self.lists = l.lists;
                self.open = l.open;
                self.status = Some(l.status);
                self.settle();
                let ghost mid = *self;
                let gone: bool = match &self.nav {
                    Nav::List(h) => find_list(&self.lists, h.as_str()).is_none(),
                    _ => false,
                };
                if gone {
                    self.nav = Nav::Today;
                }
                assert(Window { nav: old(self).nav, ..*self } == mid);
                Step::one(Do::CardLists)
            },
        }
    }

    fn load_completed(&mut self, generation: u64, c: Result<Vec<TaskView>, String>) -> (r: Step)
        requires
            old(self).wf(),
            c matches Ok(x) ==> tasks_wf(x@),
        ensures
            loads_completed(*old(self), generation, c, *final(self), r),
            final(self).wf(),
    {
        if generation != self.completed_generation {
            return Step::stop();
        }
        match c {
            Err(e) => Step::one(Do::Toast(e)),
            Ok(c) => {
                self.completed = Some(c);
                self.settle();
                Step::draw()
            },
        }
    }

    fn learn(&mut self, s: StatusView) -> (r: Step)
        requires
            old(self).wf(),
            old(self).counts_on(),
        ensures
            learns(*old(self), s, *final(self), r),
            final(self).wf(),
    {
        let was_out: bool = match &self.status {
            Some(x) => x.state == SyncState::NoAccount,
            None => false,
        };
        let back: bool = was_out && s.state != SyncState::NoAccount;
        self.status = Some(s);
        if back {
            Step::of(self.reload())
        } else {
            Step::draw()
        }
    }

    fn login_done(&mut self, ok: bool, message: String) -> (r: Step)
        requires
            old(self).wf(),
            old(self).counts_on(),
        ensures
            signed_in(*old(self), ok, message, *final(self), r),
            final(self).wf(),
    {
        self.signing_in = None;
        if !ok {
            self.sign_in_error = Some(message);
            return Step::draw();
        }
        self.sign_in_error = None;
        let mut acts: Vec<Do> = Vec::new();
        acts.push(Do::Toast(String::from_str("Signed in")));
        let mut more = self.reload();
        let ghost m = more@;
        acts.append(&mut more);
        acts.push(Do::LoadSettings);
        assert(acts@.subrange(1, acts@.len() - 1) =~= m);
        let r = Step::of(acts);
        assert(r.edits@ =~= Seq::<Edit>::empty());
        r
    }

    fn finish(&mut self, said: Result<String, String>) -> (r: Step)
        requires
            old(self).wf(),
            old(self).counts_on(),
        ensures
            done(*old(self), said, *final(self), r),
            final(self).wf(),
    {
        match said {
            Ok(s) => if s.as_str().is_empty() {
                Step::draw()
            } else {
                Step::one(Do::Toast(s))
            },
            Err(e) => {
                let mut acts: Vec<Do> = Vec::new();
                acts.push(Do::Toast(e));
                let mut more = self.reload();
                acts.append(&mut more);
                assert(acts@ =~= seq![Do::Toast(e)] + reload_acts(*old(self)));
                Step::of(acts)
            },
        }
    }

    fn complete_done(&mut self, href: String, result: Result<(TaskView, String), String>) -> (r:
        Step)
        requires
            old(self).wf(),
        ensures
            completed(*old(self), href, result, *final(self), r),
            final(self).wf(),
    {
        match result {
            Ok((t, next)) => {
                let mut said = glue("Completed ", quoted(t.task.summary.as_str()).as_str());
                if t.task.open {
                    said.append(" · next ");
                    let ghost head = said@;
                    if t.task.due.is_some() {
                        said.append(next.as_str());
                    } else {
                        assert(head + Seq::<char>::empty() == head);
                    }
                    Step::one(Do::Toast(said))
                } else {
                    Step::one(Do::UndoToast(said, 4, only(Msg::Reopen(t.href)), Vec::new()))
                }
            },
            Err(e) => {
                proof {
                    lemma_keys_once(
                        pairs(self.completing@),
                        href@,
                        Completing::Waiting(0),
                    );
                }
                take_state(&mut self.completing, href.as_str());
                Step::one(Do::Toast(e))
            },
        }
    }

    fn add_done(&self, result: Result<Added, String>, seen: &Seen) -> (r: Step)
        requires
            seen.wf(),
        ensures
            added(*self, result, seen.now.day(), r),
    {
        match result {
            Err(e) => Step::one(Do::Toast(e)),
            Ok(a) => {
                let t = &a.task;
                if a.existed {
                    return Step::one(
                        Do::Toast(
                            glue("Already there: ", quoted(t.task.summary.as_str()).as_str()),
                        ),
                    );
                }
                let here: bool = match &self.nav {
                    Nav::List(h) => t.list == *h,
                    Nav::Inbox => match inbox(&self.lists) {
                        Some(l) => l.href == t.list,
                        None => false,
                    },
                    Nav::Today => match &t.task.due {
                        Some(d) => d.date.ce <= seen.now.today().ce,
                        None => false,
                    },
                    _ => true,
                };
                if here {
                    return Step::draw();
                }
                let mut said = glue("Added to ", t.list_name.as_str());
                let ghost head = said@;
                if t.task.due.is_some() {
                    said.append(", ");
                    said.append(a.label.as_str());
                    assert(said@ =~= head + (", "@ + a.label@));
                } else {
                    assert(head + Seq::<char>::empty() == head);
                }
                Step::one(Do::Toast(said))
            },
        }
    }

    fn meet(&mut self, t: TaskView)
        requires
            old(self).wf(),
            t.task.wf(),
        ensures
            meets(*old(self), t, *final(self)),
            final(self).wf(),
    {
        if self.knows(t.href.as_str()) {
            return;
        }
        if t.task.open {
            self.open.push(t);
            proof {
                let s = self.open@;
                assert forall|i: int| 0 <= i < s.len() implies (#[trigger] s[i]).task.wf() by {
                    if i < old(self).open@.len() {
                        assert(old(self).open@[i].task.wf());
                    }
                }
            }
        } else if let Some(mut c) = self.completed.take() {
            c.push(t);
            self.completed = Some(c);
            proof {
                let s = self.done();
                assert forall|i: int| 0 <= i < s.len() implies (#[trigger] s[i]).task.wf() by {
                    if i < old(self).done().len() {
                        assert(old(self).done()[i].task.wf());
                    }
                }
            }
        }
    }

    fn settle_in(&mut self, list: String, open: bool)
        ensures
            *final(self) == (Window {
                nav: final(self).nav,
                prefs: final(self).prefs,
                ..*old(self)
            }),
            final(self).nav@ == NavView::List(list@),
            shows_where(old(self).prefs, NavView::List(list@), open, final(self).prefs),
            old(self).wf() ==> final(self).wf(),
    {
        let nav = Nav::List(list);
        if !open {
            let mut opts = self.prefs.view_opts(&nav);
            let ghost was = opts@;
            opts.show_completed = true;
            assert(opts@ =~= (OptsView { show_completed: true, ..was }));
            self.prefs.set_view_opts(&nav, opts);
        }
        self.prefs.set_view(&nav);
        self.nav = nav;
    }

    fn open_met(&mut self, t: TaskView, seen: &Seen) -> (r: Step)
        requires
            old(self).wf(),
            t.task.wf(),
            seen.wf(),
        ensures
            exists|mid: Window, there: Window| #[trigger]
                opened(*old(self), t, *seen, mid, there, *final(self), r),
            final(self).wf(),
    {
        let href = t.href.clone();
        let list = t.list.clone();
        let open = t.task.open;
        self.meet(t);
        let ghost mid = *self;
        if self.in_view(href.as_str(), &seen.now) {
            let (acts, edits) = self.open_editor(href, seen);
            let r = Step::with(acts, edits);
            assert(opened(*old(self), t, *seen, mid, mid, *self, r));
            r
        } else {
            let (_, edits) = self.close_editor(seen);
            let ghost shut = *self;
            self.settle_in(list, open);
            let ghost there = *self;
            let (mut more, e) = self.open_editor(href, seen);
            let mut acts: Vec<Do> = Vec::new();
            acts.push(Do::Save);
            acts.append(&mut more);
            let r = Step::with(acts, edits);
            proof {
                assert(there.editing is None);
                assert(e@ =~= Seq::<Edit>::empty());
                assert(Window { nav: mid.nav, prefs: mid.prefs, ..there } == shut);
                assert(acts@ =~= seq![Do::Save] + open_acts(there, href, *seen));
                assert(opened(*old(self), t, *seen, mid, there, *self, r));
            }
            r
        }
    }

    fn save_list_done(&mut self, result: Result<ListView, String>) -> (r: Step)
        requires
            old(self).wf(),
            old(self).counts_on(),
        ensures
            list_saved(*old(self), result, *final(self), r),
            final(self).wf(),
    {
        match result {
            Err(e) => Step::one(Do::Toast(e)),
            Ok(l) => {
                if find_list(&self.lists, l.href.as_str()).is_none() {
                    self.nav = Nav::List(l.href.clone());
                    self.lists.push(l);
                }
                self.reload_step()
            },
        }
    }

    fn reload_step(&mut self) -> (r: Step)
        requires
            old(self).load_generation < u64::MAX,
            old(self).completed_generation < u64::MAX,
        ensures
            *final(self) == reloaded(*old(self)),
            asks(r, reload_acts(*old(self))),
    {
        Step::of(self.reload())
    }

    fn save_ics(&self, href: &str, result: Result<String, String>) -> (r: Step)
        ensures
            saves_ics(*self, href@, result, r),
    {
        match result {
            Err(e) => Step::one(Do::Toast(e)),
            Ok(ics) => {
                let name = match self.find(href) {
                    Some(t) => file_name(t.task.summary.as_str()),
                    None => String::from_str("task"),
                };
                Step::one(Do::SaveFile(glue(name.as_str(), ".ics"), ics))
            },
        }
    }

    /// An answer comes, and this comes of it.
    pub fn answer(&mut self, a: Answer, seen: &Seen) -> (r: Step)
        requires
            old(self).wf(),
            old(self).counts_on(),
            a.wf(),
            seen.wf(),
        ensures
            answers(*old(self), a, *seen, *final(self), r),
            final(self).wf(),
    {
        match a {
            Answer::Loaded(generation, l) => self.load(generation, l),
            Answer::CompletedLoaded(generation, c) => self.load_completed(generation, c),
            Answer::Changed => {
                let acts = self.reload();
                Step { acts, edits: Vec::new(), draws: false, after: Vec::new() }
            },
            Answer::Status(s) => self.learn(s),
            Answer::LoginDone(ok, message) => self.login_done(ok, message),
            Answer::LoginUrl(url) => match url {
                Ok(u) => {
                    self.signing_in = Some(u.clone());
                    Step::one(Do::Launch(u))
                },
                Err(e) => {
                    self.signing_in = None;
                    self.sign_in_error = Some(e);
                    Step::draw()
                },
            },
            Answer::Settings(s) => match s {
                Ok(s) => {
                    self.settings = Some(s);
                    Step::draw()
                },
                Err(e) => if self.settings.is_some() {
                    Step::one(Do::Toast(e))
                } else {
                    Step::draw()
                },
            },
            Answer::Toast(said) => self.finish(said),
            Answer::Completed(href, result) => self.complete_done(href, result),
            Answer::Added(result) => self.add_done(result, seen),
            Answer::Opened(result) => match result {
                Ok(t) => self.open_met(t, seen),
                Err(e) => Step::one(Do::Toast(e)),
            },
            Answer::ListSaved(result) => self.save_list_done(result),
            Answer::Ics(href, result) => self.save_ics(href.as_str(), result),
            Answer::Places(result) => match result {
                Ok(places) => Step::one(Do::ShowPlaces(places)),
                Err(e) => Step::one(Do::Toast(e)),
            },
            Answer::Closed => {
                self.hidden = Vec::new();
                assert(texts(self.hidden@) =~= Seq::<Seq<char>>::empty());
                let mut acts: Vec<Do> = Vec::new();
                acts.push(Do::Close);
                assert(acts@ =~= seq![Do::Close]);
                Step { acts, edits: Vec::new(), draws: false, after: Vec::new() }
            },
        }
    }
}

/// What comes with a load that is not the newest changes nothing.
pub proof fn late_loads_are_dropped(old: Window, a: Answer, seen: Seen, new: Window, r: Step)
    requires
        answers(old, a, seen, new, r),
        (a matches Answer::Loaded(g, _) && g != old.load_generation) || (
        a matches Answer::CompletedLoaded(g, _) && g != old.completed_generation),
    ensures
        new == old,
        stops(r),
{
}

/// A file name has no slash, and no dot in front; it is never empty, and of
/// sixty characters at most.
pub proof fn file_names_are_safe(title: Seq<char>)
    ensures
        0 < file_text(title).len() <= 60,
        !file_text(title).contains('/'),
        file_text(title)[0] != '.',
{
    let s = shortened(title);
    let t = trim(s);
    reveal_strlit("task");
    let b = crate::text::trim_start(s);
    crate::text::lemma_trim_start(s);
    crate::text::lemma_trim_end(b);
    assert forall|i: int| 0 <= i < t.len() implies s.contains(#[trigger] t[i]) by {
        assert(t[i] == b[i]);
        assert(b[i] == s[i + s.len() - b.len()]);
    }
    lemma_no_dots(t);
    let f = file_text(title);
    assert(!s.contains('/')) by {
        if s.contains('/') {
            let i = choose|i: int| 0 <= i < s.len() && s[i] == '/';
            assert(s[i] == file_char(title[i]));
        }
    }
    if f.contains('/') {
        let i = choose|i: int| 0 <= i < f.len() && f[i] == '/';
        if no_dots(t).len() > 0 {
            assert(t.contains('/'));
            let j = choose|j: int| 0 <= j < t.len() && t[j] == '/';
            assert(s.contains(t[j]));
        }
    }
}

} // verus!
