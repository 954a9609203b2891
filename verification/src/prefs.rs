//! The window's own preferences. The daemon's settings are its own, and go
//! over the bus.

use vstd::prelude::*;
use vstd::string::*;

use crate::keyed::{take_text, without};
use crate::nav::{Nav, NavView, OptsView, ViewOpts, key_of, navs, plain_opts, view_of};
use crate::order::{reading, reads_before};
use crate::sorting::{arrange_by, arranged};
use crate::task::ListView;
use crate::text::{has_text, same, texts};

verus! {

#[derive(Debug, Clone)]
pub struct Prefs {
    /// `Nav::key` of the view shown last.
    pub view: String,
    pub width: i32,
    pub height: i32,
    pub maximized: bool,
    pub show_counts: bool,
    /// Checking a task strikes it through first, and it goes a moment later.
    pub complete_later: bool,
    /// The week starts on Sunday instead of Monday.
    pub sunday_first: bool,
    /// A tray icon, and closing the window leaves asst in it.
    pub background: bool,
    /// Lists in the sidebar by name, instead of in the order dragged into.
    pub lists_by_name: bool,
    /// The order lists were dragged into, as hrefs. Lists not in it follow,
    /// in the server's order.
    pub list_order: Vec<String>,
    /// Lists put away (hrefs): out of the sidebar, the views and the counts.
    /// They still sync, and their reminders still ring.
    pub archived: Vec<String>,
    /// Quick add starts in the list it added to last.
    pub remember_list: bool,
    /// A new task's priority when none is given, 1 to 4 (none).
    pub default_priority: u8,
    /// A date or repeat typed in a new task's title becomes its own.
    pub read_dates: bool,
    /// The views in the sidebar, in order, as `Nav::key`s. Unset: the default.
    pub sidebar: Option<Vec<String>>,
    /// Before `sidebar`: views shown besides Inbox, Today, Scheduled and
    /// Completed, which always were. Read once, then written as `sidebar`.
    pub filters: Vec<String>,
    /// How views are shown, by `Nav::key`, each once.
    pub views: Vec<(String, ViewOpts)>,
}

/// The views a new sidebar has.
pub open spec fn default_sidebar() -> Seq<NavView> {
    seq![NavView::Inbox, NavView::Today, NavView::Scheduled, NavView::Completed]
}

pub open spec fn keys(v: Seq<NavView>) -> Seq<Seq<char>> {
    v.map_values(|n: NavView| key_of(n))
}

/// The view that a sidebar's key stands for; a list's is not for the sidebar.
pub open spec fn smart_view(key: Seq<char>) -> Option<NavView> {
    match view_of(key) {
        Some(NavView::List(_)) => None,
        v => v,
    }
}

pub open spec fn sidebar_keys(s: Option<Vec<String>>) -> Option<Seq<Seq<char>>> {
    match s {
        Some(v) => Some(texts(v@)),
        None => None,
    }
}

/// The views in the sidebar, top to bottom.
pub open spec fn sidebar_of(s: Option<Seq<Seq<char>>>) -> Seq<NavView> {
    match s {
        Some(keys) => keys.filter_map(|k: Seq<char>| smart_view(k)),
        None => default_sidebar(),
    }
}

/// How a view is shown, by its key.
pub open spec fn opts_at(v: Seq<(String, ViewOpts)>, key: Seq<char>) -> OptsView
    decreases v.len(),
{
    if v.len() == 0 {
        plain_opts()
    } else if v[0].0@ == key {
        v[0].1@
    } else {
        opts_at(v.skip(1), key)
    }
}

impl Default for Prefs {
    fn default() -> (r: Prefs)
        ensures
            r.view@ == key_of(NavView::Today),
            r.width == 1080 && r.height == 720 && !r.maximized,
            r.show_counts && r.complete_later && !r.sunday_first && r.background,
            !r.lists_by_name && r.list_order@.len() == 0 && r.archived@.len() == 0,
            !r.remember_list && r.default_priority == 4 && r.read_dates,
            r.sidebar is None && r.filters@.len() == 0 && r.views@.len() == 0,
    {
        Prefs {
            view: Nav::Today.key(),
            width: 1080,
            height: 720,
            maximized: false,
            show_counts: true,
            complete_later: true,
            sunday_first: false,
            background: true,
            lists_by_name: false,
            list_order: Vec::new(),
            archived: Vec::new(),
            remember_list: false,
            default_priority: 4,
            read_dates: true,
            sidebar: None,
            filters: Vec::new(),
            views: Vec::new(),
        }
    }
}

/// A list that is not put away.
pub open spec fn kept(archived: Seq<Seq<char>>) -> spec_fn(ListView) -> bool {
    |l: ListView| !archived.contains(l.href@)
}

/// Where a list was dragged to; after all others when it never was.
pub open spec fn place_in(order: Seq<Seq<char>>, href: Seq<char>) -> int
    decreases order.len(),
{
    if order.len() == 0 {
        0
    } else if order[0] == href {
        0
    } else {
        1 + place_in(order.skip(1), href)
    }
}

/// By name as people read it.
pub open spec fn by_name() -> spec_fn(ListView, ListView) -> bool {
    |a: ListView, b: ListView| reading(a.name@, b.name@) <= 0
}

/// By where they were dragged to.
pub open spec fn by_place(order: Seq<Seq<char>>) -> spec_fn(ListView, ListView) -> bool {
    |a: ListView, b: ListView| place_in(order, a.href@) <= place_in(order, b.href@)
}

/// The lists that references point at.
pub open spec fn plain_lists(s: Seq<&ListView>) -> Seq<ListView> {
    s.map_values(|l: &ListView| *l)
}

pub open spec fn ref_le<'a>(le: spec_fn(ListView, ListView) -> bool) -> spec_fn(
    &'a ListView,
    &'a ListView,
) -> bool {
    |a: &'a ListView, b: &'a ListView| le(*a, *b)
}

proof fn lemma_placed_plain<'a>(
    s: Seq<&'a ListView>,
    x: &'a ListView,
    le: spec_fn(ListView, ListView) -> bool,
)
    ensures
        plain_lists(crate::sorting::placed(s, x, ref_le(le))) == crate::sorting::placed(
            plain_lists(s),
            *x,
            le,
        ),
    decreases s.len(),
{
    if s.len() == 0 || le(*s.last(), *x) {
        assert(plain_lists(s.push(x)) == plain_lists(s).push(*x));
    } else {
        lemma_placed_plain(s.drop_last(), x, le);
        assert(plain_lists(s.drop_last()) == plain_lists(s).drop_last());
        let p = crate::sorting::placed(s.drop_last(), x, ref_le(le));
        assert(plain_lists(p.push(s.last())) == plain_lists(p).push(*s.last()));
    }
}

proof fn lemma_arranged_plain<'a>(s: Seq<&'a ListView>, le: spec_fn(ListView, ListView) -> bool)
    ensures
        plain_lists(arranged(s, ref_le(le))) == arranged(plain_lists(s), le),
    decreases s.len(),
{
    if s.len() > 0 {
        lemma_arranged_plain(s.drop_last(), le);
        assert(plain_lists(s.drop_last()) == plain_lists(s).drop_last());
        lemma_placed_plain(arranged(s.drop_last(), ref_le(le)), s.last(), le);
    }
}

fn find_in(order: &Vec<String>, href: &str) -> (r: usize)
    ensures
        r == place_in(texts(order@), href@),
        r <= order@.len(),
{
    let ghost o = texts(order@);
    assert(o.skip(0) == o);
    for i in 0..order.len()
        invariant
            o == texts(order@),
            place_in(o, href@) == i + place_in(o.skip(i as int), href@),
    {
        let ghost t = o.skip(i as int);
        assert(t[0] == order@[i as int]@);
        if same(order[i].as_str(), href) {
            return i;
        }
        assert(t.skip(1) == o.skip(i + 1));
    }
    assert(o.skip(order@.len() as int).len() == 0);
    order.len()
}

impl Prefs {
    /// Preferences as they were written before `sidebar` was: the views shown
    /// besides the four become part of it.
    pub fn migrated(self) -> (r: Prefs)
        ensures
            sidebar_keys(r.sidebar) == (if self.sidebar is None && self.filters@.len() > 0 {
                Some(keys(default_sidebar()) + texts(self.filters@))
            } else {
                sidebar_keys(self.sidebar)
            }),
            self.sidebar is None ==> r.filters@.len() == 0,
            self.sidebar is Some ==> r == self,
            r == (Prefs { sidebar: r.sidebar, filters: r.filters, ..self }),
    {
        let mut p = self;
        if p.sidebar.is_none() && p.filters.len() > 0 {
            let mut all: Vec<String> = Vec::new();
            all.push(Nav::Inbox.key());
            all.push(Nav::Today.key());
            all.push(Nav::Scheduled.key());
            all.push(Nav::Completed.key());
            assert(texts(all@) =~= keys(default_sidebar()));
            let mut filters: Vec<String> = Vec::new();
            core::mem::swap(&mut filters, &mut p.filters);
            let ghost before = texts(all@);
            let ghost extra = texts(filters@);
            all.append(&mut filters);
            assert(texts(all@) =~= before + extra);
            p.sidebar = Some(all);
        }
        p
    }

    pub fn view_opts(&self, nav: &Nav) -> (r: ViewOpts)
        ensures
            r@ == opts_at(self.views@, key_of(nav@)),
    {
        let key = nav.key();
        let ghost v = self.views@;
        assert(v.skip(0) == v);
        for i in 0..self.views.len()
            invariant
                v == self.views@,
                key@ == key_of(nav@),
                opts_at(v.skip(i as int), key@) == opts_at(v, key@),
        {
            let ghost t = v.skip(i as int);
            assert(t[0] == v[i as int]);
            if self.views[i].0 == key {
                return self.views[i].1.clone();
            }
            assert(t.skip(1) == v.skip(i + 1));
        }
        assert(v.skip(v.len() as int).len() == 0);
        ViewOpts::default()
    }

    /// Remembers which view was shown last.
    pub fn set_view(&mut self, nav: &Nav)
        ensures
            *final(self) == (Prefs { view: final(self).view, ..*old(self) }),
            final(self).view@ == key_of(nav@),
    {
        self.view = nav.key();
    }

    /// Remembers the window's size, or that it fills the screen.
    pub fn set_size(&mut self, maximized: bool, width: i32, height: i32)
        ensures
            *final(self) == (if maximized {
                Prefs { maximized, ..*old(self) }
            } else {
                Prefs { maximized, width, height, ..*old(self) }
            }),
    {
        self.maximized = maximized;
        if !maximized {
            self.width = width;
            self.height = height;
        }
    }

    /// Remembers the order that lists were dragged into.
    pub fn set_list_order(&mut self, order: Vec<String>)
        ensures
            *final(self) == (Prefs { list_order: order, ..*old(self) }),
    {
        self.list_order = order;
    }

    /// Puts a list away, or brings it back.
    pub fn set_archived(&mut self, href: &str, on: bool)
        ensures
            *final(self) == (Prefs { archived: final(self).archived, ..*old(self) }),
            texts(final(self).archived@) == (if on {
                without(texts(old(self).archived@), href@).push(href@)
            } else {
                without(texts(old(self).archived@), href@)
            }),
    {
        take_text(&mut self.archived, href);
        if on {
            let ghost before = texts(self.archived@);
            self.archived.push(String::from_str(href));
            assert(texts(self.archived@) =~= before.push(href@));
        }
    }

    /// Remembers how a view is shown; the others stay as they are.
    pub fn set_view_opts(&mut self, nav: &Nav, opts: ViewOpts)
        ensures
            forall|n: NavView| #[trigger]
                opts_at(final(self).views@, key_of(n)) == (if n == nav@ {
                    opts@
                } else {
                    opts_at(old(self).views@, key_of(n))
                }),
            *final(self) == (Prefs { views: final(self).views, ..*old(self) }),
    {
        let key = nav.key();
        let ghost v = self.views@;
        let len = self.views.len();
        let mut i: usize = 0;
        while i < len
            invariant
                i <= len,
                len == v.len(),
                *self == *old(self),
                v == self.views@,
                key@ == key_of(nav@),
                forall|j: int| 0 <= j < i ==> #[trigger] v[j].0@ != key@,
            decreases len - i,
        {
            if self.views[i].0 == key {
                let name = self.views[i].0.clone();
                let ghost e = (name, opts);
                self.views.set(i, (name, opts));
                proof {
                    assert forall|n: NavView| #[trigger]
                        opts_at(self.views@, key_of(n)) == (if n == nav@ {
                        opts@
                    } else {
                        opts_at(v, key_of(n))
                    }) by {
                        lemma_opts_set(v, i as int, e, key_of(n));
                        if key_of(n) == key@ {
                            crate::nav::keys_are_distinct(n, nav@);
                        }
                    }
                }
                return;
            }
            i += 1;
        }
        let ghost e = (key, opts);
        self.views.push((key, opts));
        proof {
            assert forall|n: NavView| #[trigger]
                opts_at(self.views@, key_of(n)) == (if n == nav@ {
                opts@
            } else {
                opts_at(v, key_of(n))
            }) by {
                lemma_opts_push(v, e, key_of(n));
                if key_of(n) == e.0@ {
                    crate::nav::keys_are_distinct(n, nav@);
                }
            }
        }
    }

    /// The views in the sidebar, top to bottom.
    pub fn sidebar_views(&self) -> (r: Vec<Nav>)
        ensures
            navs(r@) == sidebar_of(sidebar_keys(self.sidebar)),
    {
        match &self.sidebar {
            Some(keys) => {
                let ghost k = texts(keys@);
                let ghost f = |k: Seq<char>| smart_view(k);
                let mut out: Vec<Nav> = Vec::new();
                assert(navs(out@) == k.take(0).filter_map(f));
                for i in 0..keys.len()
                    invariant
                        k == texts(keys@),
                        f == (|k: Seq<char>| smart_view(k)),
                        navs(out@) == k.take(i as int).filter_map(f),
                {
                    let ghost before = navs(out@);
                    proof {
                        assert(k.take(i + 1).drop_last() == k.take(i as int));
                        assert(k.take(i + 1).last() == keys@[i as int]@);
                    }
                    match Nav::from_key(keys[i].as_str()) {
                        Some(Nav::List(_)) | None => {},
                        Some(n) => {
                            out.push(n);
                            assert(navs(out@) =~= before + seq![n@]);
                        },
                    }
                }
                assert(k.take(k.len() as int) == k);
                out
            },
            None => {
                let out = vec![Nav::Inbox, Nav::Today, Nav::Scheduled, Nav::Completed];
                assert(navs(out@) =~= default_sidebar());
                out
            },
        }
    }

    pub fn set_sidebar_views(&mut self, views: &[Nav])
        ensures
            sidebar_keys(final(self).sidebar) == Some(keys(navs(views@))),
            *final(self) == (Prefs { sidebar: final(self).sidebar, ..*old(self) }),
    {
        let mut out: Vec<String> = Vec::new();
        for i in 0..views.len()
            invariant
                texts(out@) == keys(navs(views@)).take(i as int),
        {
            let ghost before = texts(out@);
            out.push(views[i].key());
            assert(texts(out@) =~= before.push(key_of(views@[i as int]@)));
        }
        assert(keys(navs(views@)).take(views@.len() as int) == keys(navs(views@)));
        self.sidebar = Some(out);
    }

    pub fn is_archived(&self, href: &str) -> (r: bool)
        ensures
            r == texts(self.archived@).contains(href@),
    {
        has_text(&self.archived, href)
    }

    /// Lists as the sidebar shows them.
    pub open spec fn arrangement(&self, lists: Seq<ListView>) -> Seq<ListView> {
        let left = lists.filter(kept(texts(self.archived@)));
        if self.lists_by_name {
            arranged(left, by_name())
        } else {
            arranged(left, by_place(texts(self.list_order@)))
        }
    }

    /// Lists as the sidebar shows them: archived ones out, in the order
    /// dragged into or by name. Lists never dragged keep the server's order
    /// among them.
    pub fn arrange<'a>(&self, lists: &'a [ListView]) -> (r: Vec<&'a ListView>)
        ensures
            plain_lists(r@) == self.arrangement(lists@),
    {
        let mut out: Vec<&'a ListView> = Vec::new();
        let ghost s = lists@;
        let ghost p = kept(texts(self.archived@));
        proof {
            reveal(Seq::filter);
            assert(plain_lists(out@) == s.take(0).filter(p));
        }
        for i in 0..lists.len()
            invariant
                s == lists@,
                p == kept(texts(self.archived@)),
                plain_lists(out@) == s.take(i as int).filter(p),
        {
            let ghost before = plain_lists(out@);
            proof {
                reveal(Seq::filter);
                assert(s.take(i + 1).drop_last() == s.take(i as int));
                assert(s.take(i + 1).last() == s[i as int]);
            }
            if !self.is_archived(lists[i].href.as_str()) {
                out.push(&lists[i]);
                assert(plain_lists(out@) =~= before.push(s[i as int]));
            }
        }
        assert(s.take(s.len() as int) == s);
        let ghost left = out@;
        if self.lists_by_name {
            let f = |a: &&'a ListView, b: &&'a ListView| -> (r: bool)
                ensures
                    r == by_name()(**a, **b),
                { reads_before(a.name.as_str(), b.name.as_str()) };
            let r = arrange_by(out, &f, Ghost(ref_le(by_name())));
            proof {
                lemma_arranged_plain(left, by_name());
            }
            r
        } else {
            let ghost le = by_place(texts(self.list_order@));
            let f = |a: &&'a ListView, b: &&'a ListView| -> (r: bool)
                ensures
                    r == le(**a, **b),
                {
                    find_in(&self.list_order, a.href.as_str()) <= find_in(
                        &self.list_order,
                        b.href.as_str(),
                    )
                };
            let r = arrange_by(out, &f, Ghost(ref_le(le)));
            proof {
                lemma_arranged_plain(left, le);
            }
            r
        }
    }
}

proof fn lemma_opts_set(
    v: Seq<(String, ViewOpts)>,
    i: int,
    e: (String, ViewOpts),
    key: Seq<char>,
)
    requires
        0 <= i < v.len(),
        e.0@ == v[i].0@,
        forall|j: int| 0 <= j < i ==> #[trigger] v[j].0@ != v[i].0@,
    ensures
        opts_at(v.update(i, e), key) == (if key == e.0@ {
            e.1@
        } else {
            opts_at(v, key)
        }),
    decreases v.len(),
{
    let w = v.update(i, e);
    if i == 0 {
        assert(w.skip(1) == v.skip(1));
    } else {
        assert(w[0] == v[0]);
        assert(w.skip(1) == v.skip(1).update(i - 1, e));
        assert forall|j: int| 0 <= j < i - 1 implies #[trigger] v.skip(1)[j].0@ != v.skip(1)[i
            - 1].0@ by {
            assert(v.skip(1)[j] == v[j + 1]);
        }
        lemma_opts_set(v.skip(1), i - 1, e, key);
    }
}

proof fn lemma_opts_push(v: Seq<(String, ViewOpts)>, e: (String, ViewOpts), key: Seq<char>)
    requires
        forall|j: int| 0 <= j < v.len() ==> #[trigger] v[j].0@ != e.0@,
    ensures
        opts_at(v.push(e), key) == (if key == e.0@ {
            e.1@
        } else {
            opts_at(v, key)
        }),
    decreases v.len(),
{
    let w = v.push(e);
    if v.len() == 0 {
        assert(w.skip(1).len() == 0);
        assert(opts_at(w.skip(1), key) == plain_opts());
    } else {
        assert(w[0] == v[0]);
        assert(w.skip(1) == v.skip(1).push(e));
        assert forall|j: int| 0 <= j < v.skip(1).len() implies #[trigger] v.skip(1)[j].0@
            != e.0@ by {
            assert(v.skip(1)[j] == v[j + 1]);
        }
        lemma_opts_push(v.skip(1), e, key);
    }
}

/// The sidebar shows the smart views it was given, in their order.
pub proof fn sidebar_round_trip(v: Seq<NavView>)
    requires
        forall|i: int| 0 <= i < v.len() ==> !(#[trigger] v[i] is List),
    ensures
        sidebar_of(Some(keys(v))) == v,
    decreases v.len(),
{
    let k = keys(v);
    let f = |k: Seq<char>| smart_view(k);
    if v.len() > 0 {
        let t = v.drop_last();
        assert forall|i: int| 0 <= i < t.len() implies !(#[trigger] t[i] is List) by {
            assert(t[i] == v[i]);
        }
        sidebar_round_trip(t);
        assert(k.drop_last() == keys(t));
        assert(!(v[v.len() - 1] is List));
        crate::nav::keys_round_trip(v.last());
        assert(f(k.last()) == Some(v.last()));
        assert(t + seq![v.last()] == v);
    } else {
        assert(k.filter_map(f) == v);
    }
}

/// Lists in the sidebar are those that are not put away, each as often as it
/// is there.
pub proof fn arrangement_keeps_lists(p: Prefs, lists: Seq<ListView>)
    ensures
        p.arrangement(lists).to_multiset() == lists.filter(
            kept(texts(p.archived@)),
        ).to_multiset(),
        forall|l: ListView|
            p.arrangement(lists).contains(l) == (lists.contains(l) && !texts(
                p.archived@,
            ).contains(l.href@)),
{
    let left = lists.filter(kept(texts(p.archived@)));
    crate::sorting::arranged_keeps_all(left, by_name());
    crate::sorting::arranged_keeps_all(left, by_place(texts(p.list_order@)));
    assert forall|l: ListView|
        p.arrangement(lists).contains(l) == (lists.contains(l) && !texts(p.archived@).contains(
            l.href@,
        )) by {
        lemma_filter_contains(lists, kept(texts(p.archived@)), l);
    }
}

proof fn lemma_filter_contains(s: Seq<ListView>, p: spec_fn(ListView) -> bool, l: ListView)
    ensures
        s.filter(p).contains(l) == (s.contains(l) && p(l)),
    decreases s.len(),
{
    reveal(Seq::filter);
    if s.len() > 0 {
        let t = s.drop_last();
        lemma_filter_contains(t, p, l);
        assert(t.push(s.last()) == s);
        let f = t.filter(p);
        if s.contains(l) && l != s.last() {
            let i = choose|i: int| 0 <= i < s.len() && s[i] == l;
            assert(t[i] == l);
        }
        if t.contains(l) {
            let i = choose|i: int| 0 <= i < t.len() && t[i] == l;
            assert(s[i] == l);
        }
        assert(s[s.len() - 1] == s.last());
        if p(s.last()) {
            let g = f.push(s.last());
            if f.contains(l) {
                let i = choose|i: int| 0 <= i < f.len() && f[i] == l;
                assert(g[i] == l);
            }
            assert(g[f.len() as int] == s.last());
            if g.contains(l) && l != s.last() {
                let i = choose|i: int| 0 <= i < g.len() && g[i] == l;
                assert(f[i] == l);
            }
        }
    }
}

} // verus!
