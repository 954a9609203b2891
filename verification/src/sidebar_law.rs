//! What the sidebar shows: its counts, its views and the order of its lists.

use vstd::prelude::*;

use crate::counts::{Counts, tally};
use crate::nav::Nav;
use crate::number::decimal;
use crate::plan::Data;
use crate::sidebar::{
    ListEntry, Tooltip, account, choose_list_entry, entry_count, has_dot, keys_to, list_menu,
    progress, signed_in, sync_look, sync_tooltip, takes_tasks,
};
use crate::task::{ListView, StatusView, SyncState, TaskView};
use crate::update::Msg;
use crate::view_law::goes_to_inbox;
use crate::words::sync_state;
use crate::zone::Now;

verus! {

// -- counts -------------------------------------------------------------------------------------

/// How many tasks pass.
pub open spec fn how_many(s: Seq<TaskView>, p: spec_fn(TaskView) -> bool) -> nat
    decreases s.len(),
{
    if s.len() == 0 {
        0
    } else {
        how_many(s.drop_last(), p) + (if p(s.last()) {
            1nat
        } else {
            0
        })
    }
}

proof fn lemma_how_many(
    s: Seq<TaskView>,
    p: spec_fn(TaskView) -> bool, q: spec_fn(TaskView) -> bool,
)
    requires
        forall|t: TaskView| #[trigger] p(t) == q(t),
    ensures
        s.filter(p).len() == how_many(s, q),
    decreases s.len(),
{
    reveal(Seq::filter);
    if s.len() > 0 {
        lemma_how_many(s.drop_last(), p, q);
    }
}

proof fn lemma_none(s: Seq<TaskView>, q: spec_fn(TaskView) -> bool)
    requires
        forall|t: TaskView| !#[trigger] q(t),
    ensures
        how_many(s, q) == 0,
    decreases s.len(),
{
    if s.len() > 0 {
        lemma_none(s.drop_last(), q);
    }
}

/// The sidebar counts open tasks: all of them, those that repeat, that have
/// no date, that are due before today, by today, after today and the day
/// after today, and those in the inbox and in each list.
pub proof fn tasks_are_counted(data: &Data, now: &Now, r: Counts)
    requires
        call_ensures(Counts::new, (data, now), r),
    ensures
        ({
            let open = data@.open;
            let today = now.day();
            &&& r.all == open.len()
            &&& r.repeating == how_many(open, |t: TaskView| t.task.rrule is Some)
            &&& r.anytime == how_many(open, |t: TaskView| t.task.due is None)
            &&& r.overdue == how_many(
                open,
                |t: TaskView| t.task.due matches Some(w) && w.date.ce < today,
            )
            &&& r.today == how_many(
                open,
                |t: TaskView| t.task.due matches Some(w) && w.date.ce < today,
            ) + how_many(open, |t: TaskView| t.task.due matches Some(w) && w.date.ce == today)
            &&& r.scheduled == how_many(
                open,
                |t: TaskView| t.task.due matches Some(w) && w.date.ce > today,
            )
            &&& r.tomorrow == how_many(
                open,
                |t: TaskView| t.task.due matches Some(w) && w.date.ce == today + 1,
            )
            &&& r.inbox == how_many(open, |t: TaskView| goes_to_inbox(data@.lists, t.list@))
            &&& forall|h: Seq<char>| #[trigger]
                tally(r.lists@, h) == how_many(open, |t: TaskView| t.list@ == h)
        }),
{
    let open = data@.open;
    let today = now.day();
    lemma_how_many(open, crate::plan::repeats(), |t: TaskView| t.task.rrule is Some);
    lemma_how_many(open, crate::plan::undated(), |t: TaskView| t.task.due is None);
    lemma_how_many(
        open,
        crate::plan::due_before(today),
        |t: TaskView| t.task.due matches Some(w) && w.date.ce < today,
    );
    lemma_how_many(
        open,
        crate::plan::due_on(today),
        |t: TaskView| t.task.due matches Some(w) && w.date.ce == today,
    );
    lemma_how_many(
        open,
        crate::plan::due_after(today),
        |t: TaskView| t.task.due matches Some(w) && w.date.ce > today,
    );
    lemma_how_many(
        open,
        crate::plan::due_on(today + 1),
        |t: TaskView| t.task.due matches Some(w) && w.date.ce == today + 1,
    );
    let q = |t: TaskView| goes_to_inbox(data@.lists, t.list@);
    assert forall|t: TaskView| #[trigger] q(t) == (crate::plan::inbox_of(data@.lists) matches Some(
        l,
    ) && l.href@ == t.list@) by {
        crate::view_law::lemma_inbox_is(data@.lists, t.list@);
    }
    match crate::plan::inbox_of(data@.lists) {
        Some(l) => {
            assert forall|t: TaskView| #[trigger] crate::plan::in_list(l.href@)(t) == q(t) by {}
            lemma_how_many(open, crate::plan::in_list(l.href@), q);
        },
        None => {
            lemma_none(open, q);
        },
    }
    assert forall|h: Seq<char>| #[trigger] tally(r.lists@, h) == how_many(
        open,
        |t: TaskView| t.list@ == h,
    ) by {
        lemma_how_many(open, crate::plan::in_list(h), |t: TaskView| t.list@ == h);
    }
}

/// An entry has the count of its view: Completed has none, and none is shown
/// for nothing or where counts are not wanted.
pub proof fn entries_show_their_count(c: &Counts, nav: &Nav, show: bool, r: String)
    requires
        call_ensures(entry_count, (c, nav, show), r),
    ensures
        ({
            let n: nat = match *nav {
                Nav::Inbox => c.inbox as nat,
                Nav::Today => c.today as nat,
                Nav::Scheduled => c.scheduled as nat,
                Nav::Tomorrow => c.tomorrow as nat,
                Nav::Anytime => c.anytime as nat,
                Nav::Repeating => c.repeating as nat,
                Nav::All => c.all as nat,
                Nav::List(h) => tally(c.lists@, h@),
                Nav::Completed => 0,
            };
            &&& show && n > 0 ==> r@ == decimal(n)
            &&& !show || n == 0 ==> r@.len() == 0
        }),
{
}

/// A tile has a dot for what is overdue, takes tasks where it is clear what
/// becomes of them, and names its keys.
pub proof fn tiles_do_what_they_say(
    c: &Counts,
    nav: &Nav,
    dot: bool,
    takes: bool,
    keys: Option<&'static str>,
)
    requires
        call_ensures(has_dot, (c, nav), dot),
        call_ensures(takes_tasks, (nav,), takes),
        call_ensures(keys_to, (nav,), keys),
    ensures
        dot <==> *nav is Today && c.overdue > 0,
        takes <==> *nav is Inbox || *nav is Today || *nav is Tomorrow || *nav is Completed || *nav
            is List,
        *nav is Inbox ==> (keys matches Some(k) && k@ == "Ctrl+I"@),
        *nav is Today ==> (keys matches Some(k) && k@ == "Ctrl+T"@),
        *nav is Scheduled ==> (keys matches Some(k) && k@ == "Ctrl+U"@),
        !(*nav is Inbox || *nav is Today || *nav is Scheduled) ==> keys is None,
{
}

// -- the account --------------------------------------------------------------------------------

/// The account is who is signed in and where, without the server's protocol.
pub proof fn the_account_is_named(
    status: Option<&StatusView>,
    r: (&'static str, String),
    there: bool,
    host: Seq<char>,
)
    requires
        call_ensures(account, (status,), r),
        call_ensures(signed_in, (status,), there),
        host.len() > 0,
        !crate::text::starts_with(host, "https://"@),
        !crate::text::starts_with(host, "http://"@),
    ensures
        there <==> (status matches Some(s) && !(s.state is NoAccount)),
        !there ==> r.0@ == "Lists"@ && r.1@ == "Not signed in"@,
        there ==> r.0@ == "Nextcloud"@,
        status matches Some(s) ==> there ==> s.server is None ==> (s.username matches Some(u)
            ==> r.1@ == u@),
        status matches Some(s) ==> there ==> (s.server matches Some(h) ==> (h@ == host || h@
            == "https://"@ + host || h@ == "http://"@ + host) ==> r.1@ == (match s.username {
            Some(u) => u@ + "@"@ + host,
            None => host,
        })),
{
    reveal_strlit("https://");
    reveal_strlit("http://");
    let (a, b) = ("https://"@, "http://"@);
    assert((a + host).take(8) =~= a && (a + host).skip(8) =~= host);
    assert((b + host).take(7) =~= b && (b + host).skip(7) =~= host);
    assert((a + host).subrange(0, 8) =~= a);
    assert((b + host).subrange(0, 7) =~= b);
    assert(!crate::text::starts_with(b + host, a)) by {
        if crate::text::starts_with(b + host, a) {
            assert((b + host).subrange(0, 8)[4] == (b + host)[4]);
        }
    }
    reveal_with_fuel(crate::sidebar::without_start, 3);
}

/// The sync button by what sync is doing.
pub proof fn sync_buttons_have_looks(state: SyncState, r: (&'static str, Option<&'static str>))
    requires
        call_ensures(sync_look, (state,), r),
    ensures
        state is Idle ==> r.0@ == "update-symbolic"@ && r.1 is None,
        state is Syncing ==> r.0@ == "update-symbolic"@ && (r.1 matches Some(c) && c@
            == "spinning"@),
        state is Offline ==> r.0@ == "network-offline-symbolic"@ && (r.1 matches Some(c) && c@
            == "warning"@),
        state is Error || state is NoAccount ==> r.0@ == "dialog-warning-symbolic"@ && (
        r.1 matches Some(c) && c@ == "warning"@),
{
}

/// The sync button's tooltip says what sync is doing, and offline what becomes
/// of changes.
pub proof fn sync_tips_say_what_it_does(
    status: Option<&StatusView>,
    now: &Now,
    r: Tooltip,
    said: String,
)
    requires
        call_ensures(sync_tooltip, (status, now), r),
        status matches Some(s) ==> call_ensures(sync_state, (s, now), said),
    ensures
        status is None ==> r.words@.len() == 0 && r.markup@ == "Sync now"@,
        status matches Some(s) ==> !(s.state is Offline) ==> r.words@ == said@ && r.markup@
            == "\n<span size=\"small\" alpha=\"70%\">s</span>"@,
        status matches Some(s) ==> s.state is Offline ==> r.words@.len() == 0 && r.markup@
            == "<b>Can't reach the server</b>\nChanges made now are sent when it's back."@ + (
        if s.pending == 0 {
            ""@
        } else if s.pending == 1 {
            "\n1 change waiting to be sent"@
        } else {
            "\n"@ + decimal(s.pending as nat) + " changes waiting to be sent"@
        }),
{
    reveal_strlit("");
    assert(""@ =~= Seq::<char>::empty());
}

// -- a list's menu ------------------------------------------------------------------------------

/// A list's menu: what can be done of it, where it can be written to and
/// where there is something to delete.
pub proof fn list_menus_offer_what_fits(
    l: &ListView,
    archived: bool,
    select: bool,
    r: Vec<ListEntry>,
)
    requires
        call_ensures(list_menu, (l, archived, select), r),
    ensures
        ({
            let m = if select {
                r@.skip(2)
            } else {
                r@
            };
            &&& select ==> r@[0] is Select && r@[1] is Separator
            &&& m.len() == 6 && m[1] is Copy && m[3] is Separator
            &&& m[0] == (ListEntry::Edit { enabled: l.writable })
            &&& m[2] is Archive <==> !archived
            &&& m[2] is Unarchive <==> archived
            &&& m[4] == (ListEntry::DeleteCompleted { enabled: l.writable && l.done > 0 })
            &&& m[5] == (ListEntry::Delete { enabled: l.writable })
        }),
{
}

/// Choosing an entry asks for what it says, of that list.
pub proof fn list_entries_do_what_they_say(
    l: &ListView,
    e: ListEntry,
    r: Option<Msg>,
    w: (&'static str, &'static str, String),
    on: bool,
)
    requires
        call_ensures(choose_list_entry, (l, e), r),
        call_ensures(ListEntry::words, (e, l), w),
        call_ensures(ListEntry::enabled, (e,), on),
    ensures
        e is Select ==> r == Some(Msg::SelectMode(true)) && w.1@ == "Select tasks"@ && on,
        e is Edit ==> r == Some(Msg::EditList(l.href)) && w.1@ == "Edit list…"@,
        e is Copy ==> r == Some(Msg::CopyList(l.href)) && w.1@ == "Copy as Markdown"@ && on,
        e is Archive ==> r == Some(Msg::Archive(l.href, true)) && w.1@ == "Archive"@ && on,
        e is Unarchive ==> r == Some(Msg::Archive(l.href, false)) && w.1@ == "Unarchive"@ && on,
        e is DeleteCompleted ==> r == Some(Msg::AskDeleteCompleted(Some(l.href))) && w.1@
            == "Delete completed tasks…"@ && w.2@ == decimal(l.done as nat),
        e is Delete ==> r == Some(Msg::AskDeleteList(l.href)) && w.1@ == "Delete list…"@,
        e is Separator ==> r is None,
        e matches ListEntry::Edit { enabled } ==> on == enabled,
        e matches ListEntry::DeleteCompleted { enabled } ==> on == enabled,
        e matches ListEntry::Delete { enabled } ==> on == enabled,
{
}

/// A list's ring is filled as far as its tasks are done.
pub proof fn rings_fill_with_what_is_done(l: &ListView, r: (u128, u128))
    requires
        call_ensures(progress, (l,), r),
    ensures
        r.0 == l.done,
        r.1 - r.0 == l.open,
{
}

} // verus!
