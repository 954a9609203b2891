//! The sidebar: tiles for the views, then the account's lists with their
//! counts. Tasks dragged onto a tile or a list land there; lists dragged
//! among themselves take a new order.

use vstd::prelude::*;
use vstd::string::*;

use crate::counts::Counts;
use crate::nav::{Nav, NavView};
use crate::number::{decimal, decimal_text};
use crate::task::{ListView, StatusView, SyncState};
use crate::text::{after_prefix, glue3, same, starts_with, text_opt, texts};
use crate::update::Msg;
use crate::words::{state_text, sync_state, waiting_text};
use crate::zone::{Moment, Now};

verus! {

// -- counts -----------------------------------------------------------------------------

/// The count at an entry: nothing for none, or when counts are not shown.
pub open spec fn count_label(n: Option<nat>, show: bool) -> Seq<char> {
    match n {
        Some(k) if k > 0 && show => decimal(k),
        _ => Seq::empty(),
    }
}

/// The count at an entry: nothing for none, or when counts are not shown.
pub fn entry_count(counts: &Counts, nav: &Nav, show: bool) -> (r: String)
    ensures
        r@ == count_label(counts.shows(nav@), show),
{
    match counts.of(nav) {
        Some(n) => if n > 0 && show {
            decimal_text(n as u64)
        } else {
            String::new()
        },
        None => String::new(),
    }
}

/// Whether a tile has a dot: Today's, when something is overdue.
pub fn has_dot(counts: &Counts, nav: &Nav) -> (r: bool)
    ensures
        r == (nav@ is Today && counts.overdue > 0),
{
    match nav {
        Nav::Today => counts.overdue > 0,
        _ => false,
    }
}

/// Whether a task can be dropped on a tile: not where it would not be clear
/// what date it gets.
pub fn takes_tasks(nav: &Nav) -> (r: bool)
    ensures
        r == !(nav@ is Scheduled || nav@ is Anytime || nav@ is Repeating || nav@ is All),
{
    match nav {
        Nav::Scheduled | Nav::Anytime | Nav::Repeating | Nav::All => false,
        _ => true,
    }
}

/// The keys that lead to a view.
pub fn keys_to(nav: &Nav) -> (r: Option<&'static str>)
    ensures
        match nav@ {
            NavView::Inbox => r matches Some(k) && k@ == "Ctrl+I"@,
            NavView::Today => r matches Some(k) && k@ == "Ctrl+T"@,
            NavView::Scheduled => r matches Some(k) && k@ == "Ctrl+U"@,
            _ => r is None,
        },
{
    match nav {
        Nav::Inbox => Some("Ctrl+I"),
        Nav::Today => Some("Ctrl+T"),
        Nav::Scheduled => Some("Ctrl+U"),
        _ => None,
    }
}

// -- the account ------------------------------------------------------------------------

/// Whether there is an account.
pub open spec fn signed_in_of(status: Option<StatusView>) -> bool {
    status matches Some(s) && s.state != SyncState::NoAccount
}

/// Whether there is an account, and lists can be made.
pub fn signed_in(status: Option<&StatusView>) -> (r: bool)
    ensures
        r == signed_in_of(
            match status {
                Some(s) => Some(*s),
                None => None,
            },
        ),
{
    match status {
        Some(s) => s.state != SyncState::NoAccount,
        None => false,
    }
}

/// An address without the protocols it starts with.
pub open spec fn bare_host(s: Seq<char>) -> Seq<char> {
    without_start(without_start(s, "https://"@), "http://"@)
}

/// `s` without all the `p`s it starts with.
pub open spec fn without_start(s: Seq<char>, p: Seq<char>) -> Seq<char>
    decreases s.len(),
{
    if p.len() > 0 && starts_with(s, p) {
        without_start(s.skip(p.len() as int), p)
    } else {
        s
    }
}

fn strip_all(s: &str, p: &str) -> (r: String)
    requires
        p@.len() > 0,
    ensures
        r@ == without_start(s@, p@),
{
    let mut t = String::from_str(s);
    loop
        invariant
            p@.len() > 0,
            without_start(t@, p@) == without_start(s@, p@),
        decreases t@.len(),
    {
        match after_prefix(t.as_str(), p) {
            Some(rest) => {
                t = rest;
            },
            None => {
                return t;
            },
        }
    }
}

/// Who is signed in where.
pub open spec fn who_of(user: Option<Seq<char>>, server: Option<Seq<char>>) -> Seq<char> {
    let host = match server {
        Some(h) => bare_host(h),
        None => Seq::empty(),
    };
    match user {
        Some(u) => if host.len() > 0 {
            u + "@"@ + host
        } else {
            u
        },
        None => host,
    }
}

/// The heading over the lists, and the line under it.
pub fn account(status: Option<&StatusView>) -> (r: (&'static str, String))
    ensures
        match status {
            Some(s) if s.state != SyncState::NoAccount => r.0@ == "Nextcloud"@ && r.1@ == who_of(
                text_opt(s.username),
                text_opt(s.server),
            ),
            _ => r.0@ == "Lists"@ && r.1@ == "Not signed in"@,
        },
{
    match status {
        Some(s) => {
            if s.state == SyncState::NoAccount {
                return ("Lists", String::from_str("Not signed in"));
            }
            proof {
                reveal_strlit("https://");
                reveal_strlit("http://");
            }
            let host = match &s.server {
                Some(h) => strip_all(strip_all(h.as_str(), "https://").as_str(), "http://"),
                None => String::new(),
            };
            let who = match &s.username {
                Some(u) => if host.as_str().is_empty() {
                    u.clone()
                } else {
                    glue3(u.as_str(), "@", host.as_str())
                },
                None => host,
            };
            ("Nextcloud", who)
        },
        None => ("Lists", String::from_str("Not signed in")),
    }
}

/// The sync button's icon and the class that moves or colors it.
pub fn sync_look(state: SyncState) -> (r: (&'static str, Option<&'static str>))
    ensures
        r.0@ == (match state {
            SyncState::Idle | SyncState::Syncing => "update-symbolic"@,
            SyncState::Offline => "network-offline-symbolic"@,
            SyncState::Error | SyncState::NoAccount => "dialog-warning-symbolic"@,
        }),
        match state {
            SyncState::Idle => r.1 is None,
            SyncState::Syncing => r.1 matches Some(c) && c@ == "spinning"@,
            _ => r.1 matches Some(c) && c@ == "warning"@,
        },
{
    match state {
        SyncState::Idle => ("update-symbolic", None),
        SyncState::Syncing => ("update-symbolic", Some("spinning")),
        SyncState::Offline => ("network-offline-symbolic", Some("warning")),
        SyncState::Error | SyncState::NoAccount => ("dialog-warning-symbolic", Some("warning")),
    }
}

/// The sync button's tooltip: words to be escaped, then markup.
#[derive(Debug)]
pub struct Tooltip {
    pub words: String,
    pub markup: String,
}

/// How many changes wait, on a line of their own.
pub open spec fn waiting_line(n: nat) -> Seq<char> {
    if n == 0 {
        Seq::empty()
    } else if n == 1 {
        "\n1 change waiting to be sent"@
    } else {
        "\n"@ + decimal(n) + " changes waiting to be sent"@
    }
}

pub open spec fn tooltip_of(s: StatusView, now: Moment, zone: Seq<char>) -> (Seq<char>, Seq<char>) {
    match s.state {
        SyncState::Offline => (
            Seq::empty(),
            "<b>Can't reach the server</b>\nChanges made now are sent when it's back."@
                + waiting_line(s.pending as nat),
        ),
        _ => (
            state_text(s, now, zone) + waiting_text(s.pending as nat),
            "\n<span size=\"small\" alpha=\"70%\">s</span>"@,
        ),
    }
}

/// The sync button's tooltip, worked out when it shows so the time is right.
pub fn sync_tooltip(status: Option<&StatusView>, now: &Now) -> (r: Tooltip)
    requires
        now.wf(),
        status matches Some(s) ==> crate::task::moment_wf(s.last_sync),
    ensures
        (r.words@, r.markup@) == (match status {
            Some(s) => tooltip_of(*s, now.at, now.zone@),
            None => (Seq::empty(), "Sync now"@),
        }),
{
    match status {
        None => Tooltip { words: String::new(), markup: String::from_str("Sync now") },
        Some(s) => match s.state {
            SyncState::Offline => {
                let mut m = String::from_str(
                    "<b>Can't reach the server</b>\nChanges made now are sent when it's back.",
                );
                let ghost head = m@;
                if s.pending == 0 {
                    assert(head + Seq::<char>::empty() == head);
                } else if s.pending == 1 {
                    m.append("\n1 change waiting to be sent");
                } else {
                    m.append("\n");
                    m.append(decimal_text(s.pending as u64).as_str());
                    m.append(" changes waiting to be sent");
                    assert(m@ =~= head + waiting_line(s.pending as nat));
                }
                Tooltip { words: String::new(), markup: m }
            },
            _ => Tooltip {
                words: sync_state(s, now),
                markup: String::from_str("\n<span size=\"small\" alpha=\"70%\">s</span>"),
            },
        },
    }
}

// -- the order of lists -----------------------------------------------------------------

pub open spec fn other(href: Seq<char>) -> spec_fn(Seq<char>) -> bool {
    |h: Seq<char>| h != href
}

/// The lists' addresses after `moved` was dropped on `target`: above it, or
/// below it on its lower half. Dropped on itself, nothing moves.
pub open spec fn dropped_order(
    order: Seq<Seq<char>>,
    moved: Seq<char>,
    target: Seq<char>,
    below: bool,
) -> Option<Seq<Seq<char>>> {
    if moved == target {
        None
    } else {
        let rest = order.filter(other(moved));
        let at = crate::prefs::place_in(rest, target);
        Some(
            rest.insert(
                if below && at < rest.len() {
                    at + 1
                } else {
                    at
                },
                moved,
            ),
        )
    }
}

/// The lists' addresses after `moved` was dropped on `target`; at the end
/// when `target` is none of them.
pub fn drop_list(order: &Vec<String>, moved: &str, target: &str, below: bool) -> (r: Option<
    Vec<String>,
>)
    ensures
        match r {
            Some(v) => dropped_order(texts(order@), moved@, target@, below) == Some(texts(v@)),
            None => dropped_order(texts(order@), moved@, target@, below) is None,
        },
{
    if same(moved, target) {
        return None;
    }
    let ghost o = texts(order@);
    let mut out: Vec<String> = Vec::new();
    proof {
        reveal(Seq::filter);
        assert(texts(out@) =~= o.take(0).filter(other(moved@)));
    }
    for i in 0..order.len()
        invariant
            o == texts(order@),
            texts(out@) == o.take(i as int).filter(other(moved@)),
    {
        let ghost before = texts(out@);
        proof {
            reveal(Seq::filter);
            assert(o.take(i + 1).drop_last() == o.take(i as int));
            assert(o.take(i + 1).last() == order@[i as int]@);
        }
        if !same(order[i].as_str(), moved) {
            out.push(order[i].clone());
            assert(texts(out@) =~= before.push(order@[i as int]@));
        }
    }
    assert(o.take(o.len() as int) == o);
    let ghost rest = texts(out@);
    let len = out.len();
    let mut at: usize = 0;
    assert(rest.skip(0) == rest);
    while at < len && !same(out[at].as_str(), target)
        invariant
            at <= len,
            len == out@.len(),
            rest == texts(out@),
            crate::prefs::place_in(rest, target@) == at + crate::prefs::place_in(
                rest.skip(at as int),
                target@,
            ),
        decreases len - at,
    {
        assert(rest.skip(at as int)[0] == out@[at as int]@);
        assert(rest.skip(at as int).skip(1) == rest.skip(at + 1));
        at += 1;
    }
    proof {
        if at < len {
            assert(rest.skip(at as int)[0] == out@[at as int]@);
        } else {
            assert(rest.skip(at as int).len() == 0);
        }
    }
    let to: usize = if below && at < len {
        at + 1
    } else {
        at
    };
    let name = String::from_str(moved);
    out.insert(to, name);
    assert(texts(out@) =~= rest.insert(to as int, moved@));
    Some(out)
}

/// At `i`, `moved` stands above `target`, or below it; without it, `v` is
/// `rest`.
pub open spec fn stands_at(
    v: Seq<Seq<char>>,
    i: int,
    moved: Seq<char>,
    target: Seq<char>,
    below: bool,
    rest: Seq<Seq<char>>,
) -> bool {
    &&& 0 <= i && i + 1 < v.len()
    &&& below ==> v[i] == target && v[i + 1] == moved && v.remove(i + 1) == rest
    &&& !below ==> v[i] == moved && v[i + 1] == target && v.remove(i) == rest
}

/// A list that is dropped stands next to the one it was dropped on, and the
/// others keep their order.
pub proof fn drop_stands_next(order: Seq<Seq<char>>, moved: Seq<char>, target: Seq<char>, below: bool)
    requires
        order.contains(target),
        moved != target,
    ensures
        dropped_order(order, moved, target, below) is Some,
        exists|i: int| #[trigger]
            stands_at(
                dropped_order(order, moved, target, below)->0,
                i,
                moved,
                target,
                below,
                order.filter(other(moved)),
            ),
{
    let rest = order.filter(other(moved));
    lemma_filter_has(order, other(moved), target);
    lemma_place(rest, target);
    let at = crate::prefs::place_in(rest, target);
    let to = if below {
        at + 1
    } else {
        at
    };
    let v = rest.insert(to, moved);
    assert(v.remove(to) =~= rest);
    assert(dropped_order(order, moved, target, below) == Some(v));
    assert(stands_at(
        dropped_order(order, moved, target, below)->0,
        at,
        moved,
        target,
        below,
        order.filter(other(moved)),
    ));
}

proof fn lemma_place(s: Seq<Seq<char>>, x: Seq<char>)
    requires
        s.contains(x),
    ensures
        0 <= crate::prefs::place_in(s, x) < s.len(),
        s[crate::prefs::place_in(s, x)] == x,
    decreases s.len(),
{
    if s[0] != x {
        let i = choose|i: int| 0 <= i < s.len() && s[i] == x;
        assert(s.skip(1)[i - 1] == x);
        lemma_place(s.skip(1), x);
    }
}

proof fn lemma_filter_has(s: Seq<Seq<char>>, p: spec_fn(Seq<char>) -> bool, x: Seq<char>)
    requires
        s.contains(x),
        p(x),
    ensures
        s.filter(p).contains(x),
    decreases s.len(),
{
    reveal(Seq::filter);
    let t = s.drop_last();
    let i = choose|i: int| 0 <= i < s.len() && s[i] == x;
    if i < s.len() - 1 {
        assert(t[i] == x);
        lemma_filter_has(t, p, x);
        let f = t.filter(p);
        let k = choose|k: int| 0 <= k < f.len() && f[k] == x;
        if p(s.last()) {
            assert(f.push(s.last())[k] == x);
        }
    } else {
        let f = t.filter(p);
        assert(f.push(s.last())[f.len() as int] == x);
    }
}

// -- a list's menu ----------------------------------------------------------------------

/// What a list's menu does, and whether that can be done.
#[derive(Debug, Clone, Copy, PartialEq, Eq, Structural)]
pub enum ListEntry {
    Select,
    Edit { enabled: bool },
    Copy,
    Archive,
    Unarchive,
    DeleteCompleted { enabled: bool },
    Delete { enabled: bool },
    Separator,
}

/// A list's menu, from its row in the sidebar and from the view's own menu.
pub open spec fn list_entries(l: ListView, archived: bool, select: bool) -> Seq<ListEntry> {
    (if select {
        seq![ListEntry::Select, ListEntry::Separator]
    } else {
        Seq::empty()
    }) + seq![
        ListEntry::Edit { enabled: l.writable },
        ListEntry::Copy,
        if archived {
            ListEntry::Unarchive
        } else {
            ListEntry::Archive
        },
        ListEntry::Separator,
        ListEntry::DeleteCompleted { enabled: l.writable && l.done > 0 },
        ListEntry::Delete { enabled: l.writable },
    ]
}

/// A list's menu, from its row in the sidebar and from the view's own menu.
pub fn list_menu(l: &ListView, archived: bool, select: bool) -> (r: Vec<ListEntry>)
    ensures
        r@ == list_entries(*l, archived, select),
{
    let mut v: Vec<ListEntry> = Vec::new();
    if select {
        v.push(ListEntry::Select);
        v.push(ListEntry::Separator);
    }
    v.push(ListEntry::Edit { enabled: l.writable });
    v.push(ListEntry::Copy);
    v.push(
        if archived {
            ListEntry::Unarchive
        } else {
            ListEntry::Archive
        },
    );
    v.push(ListEntry::Separator);
    v.push(ListEntry::DeleteCompleted { enabled: l.writable && l.done > 0 });
    v.push(ListEntry::Delete { enabled: l.writable });
    v
}

/// An entry's icon, its words, and the key that does the same. `done` is how
/// many completed tasks the list has.
pub open spec fn list_words(e: ListEntry, done: nat) -> (Seq<char>, Seq<char>, Seq<char>) {
    match e {
        ListEntry::Select => ("list-large-symbolic"@, "Select tasks"@, "v"@),
        ListEntry::Edit { .. } => ("edit-symbolic"@, "Edit list…"@, ""@),
        ListEntry::Copy => ("clipboard-symbolic"@, "Copy as Markdown"@, ""@),
        ListEntry::Archive => ("shoe-box-symbolic"@, "Archive"@, ""@),
        ListEntry::Unarchive => ("shoe-box-symbolic"@, "Unarchive"@, ""@),
        ListEntry::DeleteCompleted { .. } => (
            "check-round-outline-whole-symbolic"@,
            "Delete completed tasks…"@,
            decimal(done),
        ),
        ListEntry::Delete { .. } => ("user-trash-symbolic"@, "Delete list…"@, ""@),
        ListEntry::Separator => (""@, ""@, ""@),
    }
}

/// What choosing an entry asks for.
pub open spec fn list_asks(l: ListView, e: ListEntry) -> Option<Msg> {
    match e {
        ListEntry::Select => Some(Msg::SelectMode(true)),
        ListEntry::Edit { .. } => Some(Msg::EditList(l.href)),
        ListEntry::Copy => Some(Msg::CopyList(l.href)),
        ListEntry::Archive => Some(Msg::Archive(l.href, true)),
        ListEntry::Unarchive => Some(Msg::Archive(l.href, false)),
        ListEntry::DeleteCompleted { .. } => Some(Msg::AskDeleteCompleted(Some(l.href))),
        ListEntry::Delete { .. } => Some(Msg::AskDeleteList(l.href)),
        ListEntry::Separator => None,
    }
}

impl ListEntry {
    /// Its icon, its words, and the key that does the same, or how many tasks
    /// it is about.
    pub fn words(self, l: &ListView) -> (r: (&'static str, &'static str, String))
        ensures
            (r.0@, r.1@, r.2@) == list_words(self, l.done as nat),
    {
        match self {
            ListEntry::Select => ("list-large-symbolic", "Select tasks", String::from_str("v")),
            ListEntry::Edit { .. } => ("edit-symbolic", "Edit list…", String::from_str("")),
            ListEntry::Copy => ("clipboard-symbolic", "Copy as Markdown", String::from_str("")),
            ListEntry::Archive => ("shoe-box-symbolic", "Archive", String::from_str("")),
            ListEntry::Unarchive => ("shoe-box-symbolic", "Unarchive", String::from_str("")),
            ListEntry::DeleteCompleted { .. } => (
                "check-round-outline-whole-symbolic",
                "Delete completed tasks…",
                decimal_text(l.done as u64),
            ),
            ListEntry::Delete { .. } => ("user-trash-symbolic", "Delete list…", String::from_str("")),
            ListEntry::Separator => ("", "", String::from_str("")),
        }
    }

    /// Whether it can be chosen.
    pub fn enabled(self) -> (r: bool)
        ensures
            r == (match self {
                ListEntry::Edit { enabled } => enabled,
                ListEntry::DeleteCompleted { enabled } => enabled,
                ListEntry::Delete { enabled } => enabled,
                _ => true,
            }),
    {
        match self {
            ListEntry::Edit { enabled } => enabled,
            ListEntry::DeleteCompleted { enabled } => enabled,
            ListEntry::Delete { enabled } => enabled,
            _ => true,
        }
    }
}

/// What choosing an entry asks for.
pub fn choose_list_entry(l: &ListView, e: ListEntry) -> (r: Option<Msg>)
    ensures
        r == list_asks(*l, e),
{
    match e {
        ListEntry::Select => Some(Msg::SelectMode(true)),
        ListEntry::Edit { .. } => Some(Msg::EditList(l.href.clone())),
        ListEntry::Copy => Some(Msg::CopyList(l.href.clone())),
        ListEntry::Archive => Some(Msg::Archive(l.href.clone(), true)),
        ListEntry::Unarchive => Some(Msg::Archive(l.href.clone(), false)),
        ListEntry::DeleteCompleted { .. } => Some(Msg::AskDeleteCompleted(Some(l.href.clone()))),
        ListEntry::Delete { .. } => Some(Msg::AskDeleteList(l.href.clone())),
        ListEntry::Separator => None,
    }
}

// -- how much is done ---------------------------------------------------------------------

/// How far a list's ring is filled: as far as its tasks are done, as so many
/// of how many.
pub fn progress(l: &ListView) -> (r: (u128, u128))
    ensures
        r.0 == l.done,
        r.1 == l.done + l.open,
{
    (l.done as u128, l.done as u128 + l.open as u128)
}

} // verus!
