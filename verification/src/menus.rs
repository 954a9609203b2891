//! The menu of a view's options: sort, dates, completed tasks, priorities,
//! lists. They are remembered per view.

use vstd::prelude::*;
use vstd::string::*;

use crate::keyed::{take_text, without};
use crate::nav::{DueFilter, Nav, NavView, OptsView, Sort, ViewOpts};
use crate::task::ListView;
use crate::text::{has_text, texts};
use crate::words::{priority_name, priority_text};

verus! {

/// Something in the menu.
#[derive(Debug)]
pub enum Item {
    Separator,
    Heading(&'static str),
    /// A way to show the view: what it is called, whether it is so now, and
    /// what choosing it sets.
    Choice(String, bool, ViewOpts),
    /// Delete all completed tasks.
    Clear,
}

/// The same, by its texts.
pub enum ItemView {
    Separator,
    Heading(Seq<char>),
    Choice(Seq<char>, bool, OptsView),
    Clear,
}

impl View for Item {
    type V = ItemView;

    open spec fn view(&self) -> ItemView {
        match self {
            Item::Separator => ItemView::Separator,
            Item::Heading(s) => ItemView::Heading(s@),
            Item::Choice(s, on, o) => ItemView::Choice(s@, *on, o@),
            Item::Clear => ItemView::Clear,
        }
    }
}

pub open spec fn items(v: Seq<Item>) -> Seq<ItemView> {
    v.map_values(|i: Item| i@)
}

// -- its parts ----------------------------------------------------------------------------------

pub open spec fn all_sorts() -> Seq<Sort> {
    Sort::ALL@
}

pub open spec fn all_dues() -> Seq<DueFilter> {
    DueFilter::ALL@
}

/// A list, or the inbox.
pub open spec fn is_list(n: NavView) -> bool {
    n is List || n is Inbox
}

/// The sorts to choose from: a custom order only in lists.
pub open spec fn sort_choices(nav: NavView, o: OptsView, s: Seq<Sort>) -> Seq<ItemView>
    decreases s.len(),
{
    if s.len() == 0 {
        Seq::empty()
    } else {
        let before = sort_choices(nav, o, s.drop_last());
        let sort = s.last();
        if sort == Sort::Custom && !is_list(nav) {
            before
        } else {
            before.push(
                ItemView::Choice(
                    sort.text(),
                    o.sort_of(nav) == sort,
                    OptsView { sort: Some(sort), ..o },
                ),
            )
        }
    }
}

pub open spec fn sort_part(nav: NavView, o: OptsView) -> Seq<ItemView> {
    if nav is Completed {
        Seq::empty()
    } else {
        seq![ItemView::Heading("Sort by"@)] + sort_choices(nav, o, all_sorts()) + (if o.sort_of(nav)
            != Sort::Custom {
            seq![
                ItemView::Separator,
                ItemView::Choice(
                    "Descending"@,
                    o.descending,
                    OptsView { descending: !o.descending, ..o },
                ),
            ]
        } else {
            Seq::empty()
        })
    }
}

pub open spec fn due_part(nav: NavView, o: OptsView) -> Seq<ItemView> {
    if dates_filter(nav) {
        seq![ItemView::Separator, ItemView::Heading("Due date"@)] + all_dues().map_values(
            |d: DueFilter| ItemView::Choice(d.text(), o.due == d, OptsView { due: d, ..o }),
        )
    } else {
        Seq::empty()
    }
}

/// A view whose tasks have all kinds of dates.
pub open spec fn dates_filter(n: NavView) -> bool {
    n is Inbox || n is List || n is All || n is Repeating
}

/// The lists to leave out or take in; not the last one left.
pub open spec fn list_choices(o: OptsView, lists: Seq<ListView>, n: int) -> Seq<ItemView>
    decreases n,
{
    if n <= 0 {
        Seq::empty()
    } else {
        let before = list_choices(o, lists, n - 1);
        let l = lists[n - 1];
        let hidden = o.hide_lists.contains(l.href@);
        let rest = without(o.hide_lists, l.href@);
        if hidden {
            before.push(ItemView::Choice(l.name@, false, OptsView { hide_lists: rest, ..o }))
        } else if rest.len() + 1 >= lists.len() {
            before
        } else {
            before.push(
                ItemView::Choice(l.name@, true, OptsView { hide_lists: rest.push(l.href@), ..o }),
            )
        }
    }
}

pub open spec fn list_part(nav: NavView, o: OptsView, lists: Seq<ListView>) -> Seq<ItemView> {
    if nav is Completed {
        seq![ItemView::Heading("Lists"@)] + list_choices(o, lists, lists.len() as int) + seq![
            ItemView::Separator,
            ItemView::Clear,
        ]
    } else {
        Seq::empty()
    }
}

pub open spec fn completed_part(nav: NavView, o: OptsView) -> Seq<ItemView> {
    if nav is Inbox || nav is List || nav is Today {
        seq![
            ItemView::Separator,
            ItemView::Choice(
                "Show completed"@,
                o.show_completed,
                OptsView { show_completed: !o.show_completed, ..o },
            ),
        ]
    } else {
        Seq::empty()
    }
}

/// The priorities up to a level; not the last one left.
pub open spec fn level_choices(o: OptsView, upto: int) -> Seq<ItemView>
    decreases upto,
{
    if upto <= 0 {
        Seq::empty()
    } else {
        let before = level_choices(o, upto - 1);
        let next = o.priorities.update(upto - 1, !o.priorities[upto - 1]);
        if next.contains(true) {
            before.push(
                ItemView::Choice(
                    priority_text(upto as u8),
                    o.priorities[upto - 1],
                    OptsView { priorities: next, ..o },
                ),
            )
        } else {
            before
        }
    }
}

pub open spec fn priority_part(nav: NavView, o: OptsView) -> Seq<ItemView> {
    if nav is Completed {
        Seq::empty()
    } else {
        seq![ItemView::Separator, ItemView::Heading("Priority"@)] + level_choices(o, 4)
    }
}

/// The menu of a view's options.
pub open spec fn menu_of(nav: NavView, o: OptsView, lists: Seq<ListView>) -> Seq<ItemView> {
    sort_part(nav, o) + due_part(nav, o) + list_part(nav, o, lists) + completed_part(nav, o)
        + priority_part(nav, o)
}

// -- making it ----------------------------------------------------------------------------------

fn put(v: &mut Vec<Item>, i: Item)
    ensures
        items(final(v)@) == items(old(v)@).push(i@),
{
    v.push(i);
    assert(items(v@) =~= items(old(v)@).push(i@));
}

fn choice(label: &str, on: bool, o: ViewOpts) -> (r: Item)
    ensures
        r@ == ItemView::Choice(label@, on, o@),
{
    Item::Choice(String::from_str(label), on, o)
}

fn put_sorts(v: &mut Vec<Item>, nav: &Nav, o: &ViewOpts)
    ensures
        items(final(v)@) == items(old(v)@) + sort_part(nav@, o@),
{
    let ghost before = items(v@);
    match nav {
        Nav::Completed => {
            assert(before + Seq::<ItemView>::empty() =~= before);
            return;
        },
        _ => {},
    }
    put(v, Item::Heading("Sort by"));
    let now = o.sort_for(nav);
    let ghost head = before + seq![ItemView::Heading("Sort by"@)];
    assert(items(v@) =~= head);
    assert(head + sort_choices(nav@, o@, all_sorts().take(0)) =~= head);
    for i in 0..6usize
        invariant
            now == o@.sort_of(nav@),
            items(v@) == head + sort_choices(nav@, o@, all_sorts().take(i as int)),
    {
        let sort = Sort::ALL[i];
        proof {
            let s = all_sorts().take(i + 1);
            assert(s.drop_last() == all_sorts().take(i as int));
            assert(s.last() == sort);
        }
        if sort != Sort::Custom || nav.is_list() {
            let mut next = o.clone();
            next.sort = Some(sort);
            assert(next@ =~= (OptsView { sort: Some(sort), ..o@ }));
            put(v, choice(sort.label(), now == sort, next));
            assert(items(v@) =~= head + sort_choices(nav@, o@, all_sorts().take(i + 1)));
        }
    }
    assert(all_sorts().take(6) == all_sorts());
    if now != Sort::Custom {
        put(v, Item::Separator);
        let mut next = o.clone();
        next.descending = !o.descending;
        assert(next@ =~= (OptsView { descending: !o@.descending, ..o@ }));
        put(v, choice("Descending", o.descending, next));
    }
    assert(items(v@) =~= before + sort_part(nav@, o@));
}

fn put_dues(v: &mut Vec<Item>, nav: &Nav, o: &ViewOpts)
    ensures
        items(final(v)@) == items(old(v)@) + due_part(nav@, o@),
{
    let ghost before = items(v@);
    if nav.filters_by_date() {
        put(v, Item::Separator);
        put(v, Item::Heading("Due date"));
        let ghost head = items(v@);
        let ghost all = all_dues().map_values(
            |d: DueFilter| ItemView::Choice(d.text(), o@.due == d, OptsView { due: d, ..o@ }),
        );
        assert(head + all.take(0) =~= head);
        for i in 0..6usize
            invariant
                all == all_dues().map_values(
                    |d: DueFilter|
                        ItemView::Choice(d.text(), o@.due == d, OptsView { due: d, ..o@ }),
                ),
                items(v@) == head + all.take(i as int),
        {
            let due = DueFilter::ALL[i];
            assert(due == all_dues()[i as int]);
            let mut next = o.clone();
            next.due = due;
            assert(next@ =~= (OptsView { due, ..o@ }));
            put(v, choice(due.label(), o.due == due, next));
            assert(items(v@) =~= head + all.take(i + 1));
        }
        assert(all.take(6) == all);
    }
    assert(items(v@) =~= before + due_part(nav@, o@));
}

fn put_lists(v: &mut Vec<Item>, nav: &Nav, o: &ViewOpts, lists: &[ListView])
    ensures
        items(final(v)@) == items(old(v)@) + list_part(nav@, o@, lists@),
{
    let ghost before = items(v@);
    let done: bool = match nav {
        Nav::Completed => true,
        _ => false,
    };
    if done {
        put(v, Item::Heading("Lists"));
        let ghost head = items(v@);
        assert(head + list_choices(o@, lists@, 0) =~= head);
        for i in 0..lists.len()
            invariant
                items(v@) == head + list_choices(o@, lists@, i as int),
        {
            let l = &lists[i];
            let hidden = has_text(&o.hide_lists, l.href.as_str());
            let mut next = o.clone();
            take_text(&mut next.hide_lists, l.href.as_str());
            let ghost rest = texts(next.hide_lists@);
            assert(rest == without(o@.hide_lists, l.href@));
            assert(next.hide_lists@.len() == rest.len());
            if hidden {
                assert(next@ =~= (OptsView { hide_lists: rest, ..o@ }));
                put(v, choice(l.name.as_str(), false, next));
            } else {
                let n = next.hide_lists.len();
                if n < lists.len() && n + 1 < lists.len() {
                    next.hide_lists.push(l.href.clone());
                    assert(texts(next.hide_lists@) =~= rest.push(l.href@));
                    assert(next@ =~= (OptsView { hide_lists: rest.push(l.href@), ..o@ }));
                    put(v, choice(l.name.as_str(), true, next));
                }
            }
            assert(items(v@) =~= head + list_choices(o@, lists@, i + 1));
        }
        put(v, Item::Separator);
        put(v, Item::Clear);
    }
    assert(items(v@) =~= before + list_part(nav@, o@, lists@));
}

fn put_completed(v: &mut Vec<Item>, nav: &Nav, o: &ViewOpts)
    ensures
        items(final(v)@) == items(old(v)@) + completed_part(nav@, o@),
{
    let ghost before = items(v@);
    match nav {
        Nav::Inbox | Nav::List(_) | Nav::Today => {
            put(v, Item::Separator);
            let mut next = o.clone();
            next.show_completed = !o.show_completed;
            assert(next@ =~= (OptsView { show_completed: !o@.show_completed, ..o@ }));
            put(v, choice("Show completed", o.show_completed, next));
        },
        _ => {},
    }
    assert(items(v@) =~= before + completed_part(nav@, o@));
}

fn put_priorities(v: &mut Vec<Item>, nav: &Nav, o: &ViewOpts)
    ensures
        items(final(v)@) == items(old(v)@) + priority_part(nav@, o@),
{
    let ghost before = items(v@);
    match nav {
        Nav::Completed => {
            assert(before + Seq::<ItemView>::empty() =~= before);
            return;
        },
        _ => {},
    }
    put(v, Item::Separator);
    put(v, Item::Heading("Priority"));
    let ghost head = items(v@);
    assert(head + level_choices(o@, 0) =~= head);
    for i in 0..4usize
        invariant
            items(v@) == head + level_choices(o@, i as int),
    {
        let mut p: [bool; 4] = o.priorities;
        let was = p[i];
        p[i] = !was;
        let ghost s = p@;
        assert(s =~= o@.priorities.update(i as int, !o@.priorities[i as int]));
        let any: bool = p[0] || p[1] || p[2] || p[3];
        proof {
            if any {
                assert(s[0] || s[1] || s[2] || s[3]);
                assert(s.contains(true));
            } else {
                assert(!s.contains(true));
            }
        }
        if any {
            let mut next = o.clone();
            next.priorities = p;
            assert(next@ =~= (OptsView { priorities: s, ..o@ }));
            put(v, choice(priority_name(i as u8 + 1), was, next));
            assert(items(v@) =~= head + level_choices(o@, i + 1));
        }
    }
    assert(items(v@) =~= before + priority_part(nav@, o@));
}

/// The menu of a view's options.
pub fn view_menu(nav: &Nav, opts: &ViewOpts, lists: &[ListView]) -> (r: Vec<Item>)
    ensures
        items(r@) == menu_of(nav@, opts@, lists@),
{
    let mut v: Vec<Item> = Vec::new();
    assert(items(v@) =~= Seq::<ItemView>::empty());
    put_sorts(&mut v, nav, opts);
    put_dues(&mut v, nav, opts);
    put_lists(&mut v, nav, opts, lists);
    put_completed(&mut v, nav, opts);
    put_priorities(&mut v, nav, opts);
    assert(items(v@) =~= menu_of(nav@, opts@, lists@));
    v
}

// -- what it never does -------------------------------------------------------------------------

/// Options that leave something to see: a priority, and a list.
pub open spec fn leaves_some(o: OptsView, lists: nat) -> bool {
    o.priorities.contains(true) && (o.hide_lists.len() == 0 || o.hide_lists.len() < lists)
}

/// What an item sets leaves something to see.
pub open spec fn item_leaves_some(i: ItemView, lists: nat) -> bool {
    i matches ItemView::Choice(_, _, o) ==> leaves_some(o, lists)
}

/// No choice in the menu leaves nothing to see, unless nothing is seen
/// already.
pub proof fn menu_leaves_some(nav: NavView, o: OptsView, lists: Seq<ListView>, i: int)
    requires
        o.priorities.len() == 4,
        leaves_some(o, lists.len()),
        0 <= i < menu_of(nav, o, lists).len(),
    ensures
        item_leaves_some(menu_of(nav, o, lists)[i], lists.len()),
{
    let n = lists.len();
    let a = sort_part(nav, o);
    let b = due_part(nav, o);
    let c = list_part(nav, o, lists);
    let d = completed_part(nav, o);
    lemma_sorts(nav, o, all_sorts(), n);
    lemma_lists(o, lists, n as int);
    lemma_levels(o, 4, n);
    let m = menu_of(nav, o, lists);
    if i < a.len() {
        assert(m[i] == a[i]);
        let s = sort_choices(nav, o, all_sorts());
        if 1 <= i && i < 1 + s.len() {
            assert(a[i] == s[i - 1]);
        }
    } else if i < a.len() + b.len() {
        assert(m[i] == b[i - a.len()]);
    } else if i < a.len() + b.len() + c.len() {
        let j = i - a.len() - b.len();
        assert(m[i] == c[j]);
        let s = list_choices(o, lists, n as int);
        if 1 <= j && j < 1 + s.len() {
            assert(c[j] == s[j - 1]);
        }
    } else if i < a.len() + b.len() + c.len() + d.len() {
        assert(m[i] == d[i - a.len() - b.len() - c.len()]);
    } else {
        let j = i - a.len() - b.len() - c.len() - d.len();
        let e = priority_part(nav, o);
        assert(m[i] == e[j]);
        let s = level_choices(o, 4);
        if 2 <= j && j < 2 + s.len() {
            assert(e[j] == s[j - 2]);
        }
    }
}

proof fn lemma_sorts(nav: NavView, o: OptsView, s: Seq<Sort>, lists: nat)
    requires
        leaves_some(o, lists),
    ensures
        forall|i: int|
            0 <= i < sort_choices(nav, o, s).len() ==> item_leaves_some(
                #[trigger] sort_choices(nav, o, s)[i],
                lists,
            ),
    decreases s.len(),
{
    if s.len() > 0 {
        lemma_sorts(nav, o, s.drop_last(), lists);
        let now = sort_choices(nav, o, s);
        let before = sort_choices(nav, o, s.drop_last());
        assert forall|i: int| 0 <= i < now.len() implies item_leaves_some(
            #[trigger] now[i],
            lists,
        ) by {
            if i < before.len() {
                assert(now[i] == before[i]);
            }
        }
    }
}

proof fn lemma_lists(o: OptsView, lists: Seq<ListView>, n: int)
    requires
        0 <= n <= lists.len(),
        leaves_some(o, lists.len()),
    ensures
        forall|i: int|
            0 <= i < list_choices(o, lists, n).len() ==> item_leaves_some(
                #[trigger] list_choices(o, lists, n)[i],
                lists.len(),
            ),
    decreases n,
{
    if n > 0 {
        lemma_lists(o, lists, n - 1);
        let l = lists[n - 1];
        o.hide_lists.lemma_filter_len(|y: Seq<char>| y != l.href@);
        let now = list_choices(o, lists, n);
        let before = list_choices(o, lists, n - 1);
        assert forall|i: int| 0 <= i < now.len() implies item_leaves_some(
            #[trigger] now[i],
            lists.len(),
        ) by {
            if i < before.len() {
                assert(now[i] == before[i]);
            }
        }
    }
}

proof fn lemma_levels(o: OptsView, upto: int, lists: nat)
    requires
        0 <= upto <= 4,
        o.priorities.len() == 4,
        leaves_some(o, lists),
    ensures
        forall|i: int|
            0 <= i < level_choices(o, upto).len() ==> item_leaves_some(
                #[trigger] level_choices(o, upto)[i],
                lists,
            ),
    decreases upto,
{
    if upto > 0 {
        lemma_levels(o, upto - 1, lists);
        let now = level_choices(o, upto);
        let before = level_choices(o, upto - 1);
        assert forall|i: int| 0 <= i < now.len() implies item_leaves_some(
            #[trigger] now[i],
            lists,
        ) by {
            if i < before.len() {
                assert(now[i] == before[i]);
            }
        }
    }
}

} // verus!
