//! What the menu of a view's options offers, and what choosing sets.

use vstd::prelude::*;

use crate::menus::{
    Item, ItemView, all_dues, all_sorts, completed_part, due_part, items, level_choices,
    list_choices, list_part, menu_of, priority_part, sort_choices, sort_part, view_menu,
};
use crate::nav::{DueFilter, Nav, NavView, OptsView, Sort, ViewOpts};
use crate::task::ListView;

verus! {

/// The menu has a choice of these words, that is so now or not, and that sets
/// these options.
pub open spec fn offers(r: Vec<Item>, words: Seq<char>, on: bool, sets: OptsView) -> bool {
    items(r@).contains(ItemView::Choice(words, on, sets))
}

proof fn lemma_parts(nav: NavView, o: OptsView, lists: Seq<ListView>, x: ItemView)
    ensures
        menu_of(nav, o, lists).contains(x) <==> sort_part(nav, o).contains(x) || due_part(
            nav,
            o,
        ).contains(x) || list_part(nav, o, lists).contains(x) || completed_part(nav, o).contains(x)
            || priority_part(nav, o).contains(x),
{
    let (a, b, c) = (sort_part(nav, o), due_part(nav, o), list_part(nav, o, lists));
    let (d, e) = (completed_part(nav, o), priority_part(nav, o));
    lemma_either(a, b, x);
    lemma_either(a + b, c, x);
    lemma_either(a + b + c, d, x);
    lemma_either(a + b + c + d, e, x);
}

proof fn lemma_either(a: Seq<ItemView>, b: Seq<ItemView>, x: ItemView)
    ensures
        (a + b).contains(x) <==> a.contains(x) || b.contains(x),
{
    let z = a + b;
    if a.contains(x) {
        let i = choose|i: int| 0 <= i < a.len() && a[i] == x;
        assert(z[i] == x);
    }
    if b.contains(x) {
        let i = choose|i: int| 0 <= i < b.len() && b[i] == x;
        assert(z[a.len() + i] == x);
    }
    if z.contains(x) {
        let i = choose|i: int| 0 <= i < z.len() && z[i] == x;
        if i < a.len() {
            assert(a[i] == x);
        } else {
            assert(b[i - a.len()] == x);
        }
    }
}

/// The choice of an order.
spec fn sort_choice(o: OptsView, now: Sort, s: Sort) -> ItemView {
    ItemView::Choice(s.text(), now == s, OptsView { sort: Some(s), ..o })
}

proof fn lemma_sorts(nav: NavView, o: OptsView, s: Seq<Sort>, i: int)
    requires
        0 <= i < s.len(),
        s[i] != Sort::Custom || nav is List || nav is Inbox,
    ensures
        sort_choices(nav, o, s).contains(sort_choice(o, o.sort_of(nav), s[i])),
    decreases s.len(),
{
    let t = s.drop_last();
    let x = sort_choice(o, o.sort_of(nav), s[i]);
    let before = sort_choices(nav, o, t);
    let all = sort_choices(nav, o, s);
    if i < t.len() {
        lemma_sorts(nav, o, t, i);
        let k = choose|k: int| 0 <= k < before.len() && before[k] == x;
        assert(all[k] == x);
    } else {
        assert(all[before.len() as int] == x);
    }
}

/// A view can be sorted by date, priority, name, and when a task was added or
/// changed, and a list and the inbox in the order it was dragged into too.
/// The order it has is marked: its own where none was chosen. Choosing one
/// sets it and nothing else. Completed cannot be sorted.
pub proof fn orders_are_offered(nav: &Nav, opts: &ViewOpts, lists: &[ListView], r: Vec<Item>)
    requires
        call_ensures(view_menu, (nav, opts, lists), r),
        !(*nav is Completed),
    ensures
        ({
            let o = opts@;
            let listed = *nav is List || *nav is Inbox;
            let now = match o.sort {
                Some(s) => s,
                None => if listed {
                    Sort::Custom
                } else {
                    Sort::Due
                },
            };
            &&& listed ==> offers(
                r,
                "Custom order"@,
                now == Sort::Custom,
                OptsView { sort: Some(Sort::Custom), ..o },
            )
            &&& offers(r, "Due date"@, now == Sort::Due, OptsView { sort: Some(Sort::Due), ..o })
            &&& offers(
                r,
                "Priority"@,
                now == Sort::Priority,
                OptsView { sort: Some(Sort::Priority), ..o },
            )
            &&& offers(r, "Name"@, now == Sort::Name, OptsView { sort: Some(Sort::Name), ..o })
            &&& offers(
                r,
                "Date added"@,
                now == Sort::Added,
                OptsView { sort: Some(Sort::Added), ..o },
            )
            &&& offers(
                r,
                "Date modified"@,
                now == Sort::Modified,
                OptsView { sort: Some(Sort::Modified), ..o },
            )
            &&& now != Sort::Custom ==> offers(
                r,
                "Descending"@,
                o.descending,
                OptsView { descending: !o.descending, ..o },
            )
        }),
{
    let (n, o) = (nav@, opts@);
    let now = o.sort_of(n);
    let s = all_sorts();
    let c = sort_choices(n, o, s);
    let head = seq![ItemView::Heading("Sort by"@)];
    let down = ItemView::Choice(
        "Descending"@,
        o.descending,
        OptsView { descending: !o.descending, ..o },
    );
    let tail = if now != Sort::Custom {
        seq![ItemView::Separator, down]
    } else {
        Seq::empty()
    };
    assert(s.len() == 6);
    assert(s[0] == Sort::Custom && s[1] == Sort::Due && s[2] == Sort::Priority && s[3]
        == Sort::Name && s[4] == Sort::Added && s[5] == Sort::Modified);
    assert(sort_part(n, o) == head + c + tail);
    assert forall|x: ItemView| c.contains(x) implies #[trigger] menu_of(n, o, lists@).contains(x) by {
        lemma_either(head, c, x);
        lemma_either(head + c, tail, x);
        lemma_parts(n, o, lists@, x);
    }
    if n is List || n is Inbox {
        lemma_sorts(n, o, s, 0);
    }
    lemma_sorts(n, o, s, 1);
    lemma_sorts(n, o, s, 2);
    lemma_sorts(n, o, s, 3);
    lemma_sorts(n, o, s, 4);
    lemma_sorts(n, o, s, 5);
    assert(menu_of(n, o, lists@).contains(sort_choice(o, now, s[1])));
    assert(menu_of(n, o, lists@).contains(sort_choice(o, now, s[2])));
    assert(menu_of(n, o, lists@).contains(sort_choice(o, now, s[3])));
    assert(menu_of(n, o, lists@).contains(sort_choice(o, now, s[4])));
    assert(menu_of(n, o, lists@).contains(sort_choice(o, now, s[5])));
    if n is List || n is Inbox {
        assert(menu_of(n, o, lists@).contains(sort_choice(o, now, s[0])));
    }
    if now != Sort::Custom {
        assert(tail[1] == down);
        lemma_either(head + c, tail, down);
        lemma_parts(n, o, lists@, down);
    }
}

/// A view that is not made of dates can show a span of them: the one it shows
/// is marked, and choosing one sets it and nothing else.
pub proof fn spans_are_offered(nav: &Nav, opts: &ViewOpts, lists: &[ListView], r: Vec<Item>)
    requires
        call_ensures(view_menu, (nav, opts, lists), r),
        *nav is Inbox || *nav is List || *nav is All || *nav is Repeating,
    ensures
        ({
            let o = opts@;
            &&& offers(r, "Any date"@, o.due is Any, OptsView { due: DueFilter::Any, ..o })
            &&& offers(r, "Due today"@, o.due is Today, OptsView { due: DueFilter::Today, ..o })
            &&& offers(r, "Due this week"@, o.due is Week, OptsView { due: DueFilter::Week, ..o })
            &&& offers(
                r,
                "Due in the next 7 days"@,
                o.due is Seven,
                OptsView { due: DueFilter::Seven, ..o },
            )
            &&& offers(r, "Due this month"@, o.due is Month, OptsView { due: DueFilter::Month, ..o })
            &&& offers(r, "No date"@, o.due is NoDate, OptsView { due: DueFilter::NoDate, ..o })
        }),
{
    let (n, o) = (nav@, opts@);
    let f = |d: DueFilter| ItemView::Choice(d.text(), o.due == d, OptsView { due: d, ..o });
    let v = all_dues();
    let c = v.map_values(f);
    let head = seq![ItemView::Separator, ItemView::Heading("Due date"@)];
    assert(v.len() == 6);
    assert(v[0] == DueFilter::Any && v[1] == DueFilter::Today && v[2] == DueFilter::Week && v[3]
        == DueFilter::Seven && v[4] == DueFilter::Month && v[5] == DueFilter::NoDate);
    assert(due_part(n, o) =~= head + c);
    assert forall|i: int| 0 <= i < 6 implies menu_of(n, o, lists@).contains(#[trigger] f(v[i])) by {
        assert(c[i] == f(v[i]));
        lemma_either(head, c, f(v[i]));
        lemma_parts(n, o, lists@, f(v[i]));
    }
    assert(menu_of(n, o, lists@).contains(f(v[0])) && menu_of(n, o, lists@).contains(f(v[1])));
    assert(menu_of(n, o, lists@).contains(f(v[2])) && menu_of(n, o, lists@).contains(f(v[3])));
    assert(menu_of(n, o, lists@).contains(f(v[4])) && menu_of(n, o, lists@).contains(f(v[5])));
}

/// The inbox, a list and Today can show what is completed.
pub proof fn completed_tasks_are_offered(
    nav: &Nav,
    opts: &ViewOpts,
    lists: &[ListView],
    r: Vec<Item>,
)
    requires
        call_ensures(view_menu, (nav, opts, lists), r),
        *nav is Inbox || *nav is List || *nav is Today,
    ensures
        offers(
            r,
            "Show completed"@,
            opts@.show_completed,
            OptsView { show_completed: !opts@.show_completed, ..opts@ },
        ),
{
    let (n, o) = (nav@, opts@);
    let x = ItemView::Choice(
        "Show completed"@,
        o.show_completed,
        OptsView { show_completed: !o.show_completed, ..o },
    );
    assert(completed_part(n, o)[1] == x);
    lemma_parts(n, o, lists@, x);
}

/// The choice of a priority.
spec fn level_choice(o: OptsView, level: int) -> ItemView {
    ItemView::Choice(
        crate::words::priority_text(level as u8),
        o.priorities[level - 1],
        OptsView { priorities: o.priorities.update(level - 1, !o.priorities[level - 1]), ..o },
    )
}

proof fn lemma_levels(o: OptsView, upto: int, level: int)
    requires
        1 <= level <= upto,
        o.priorities.update(level - 1, !o.priorities[level - 1]).contains(true),
    ensures
        level_choices(o, upto).contains(level_choice(o, level)),
    decreases upto,
{
    let before = level_choices(o, upto - 1);
    let all = level_choices(o, upto);
    let x = level_choice(o, level);
    if level < upto {
        lemma_levels(o, upto - 1, level);
        let k = choose|k: int| 0 <= k < before.len() && before[k] == x;
        assert(all[k] == x);
    } else {
        assert(all[before.len() as int] == x);
    }
}

/// A priority is shown or left out, each by its name, as long as another is
/// shown.
pub proof fn priorities_are_offered(
    nav: &Nav,
    opts: &ViewOpts,
    lists: &[ListView],
    r: Vec<Item>,
    level: int,
    other: int,
)
    requires
        call_ensures(view_menu, (nav, opts, lists), r),
        !(*nav is Completed),
        1 <= level <= 4,
        !opts@.priorities[level - 1] || (1 <= other <= 4 && other != level && opts@.priorities[other
            - 1]),
    ensures
        ({
            let o = opts@;
            offers(
                r,
                if level == 1 {
                    "Priority 1: High"@
                } else if level == 2 {
                    "Priority 2: Medium"@
                } else if level == 3 {
                    "Priority 3: Low"@
                } else {
                    "Priority 4: None"@
                },
                o.priorities[level - 1],
                OptsView { priorities: o.priorities.update(level - 1, !o.priorities[level - 1]), ..o },
            )
        }),
{
    let (n, o) = (nav@, opts@);
    assert(o.priorities.len() == 4);
    let next = o.priorities.update(level - 1, !o.priorities[level - 1]);
    if o.priorities[level - 1] {
        assert(next[other - 1]);
    } else {
        assert(next[level - 1]);
    }
    lemma_levels(o, 4, level);
    let x = level_choice(o, level);
    let head = seq![ItemView::Separator, ItemView::Heading("Priority"@)];
    lemma_either(head, level_choices(o, 4), x);
    lemma_parts(n, o, lists@, x);
}

/// What Completed shows of a list can be left out, as long as another list is
/// shown, and what is left out can be shown again.
pub proof fn lists_are_offered(opts: &ViewOpts, lists: &[ListView], r: Vec<Item>, i: int)
    requires
        call_ensures(view_menu, (&Nav::Completed, opts, lists), r),
        0 <= i < lists@.len(),
    ensures
        ({
            let o = opts@;
            let l = lists@[i];
            let rest = o.hide_lists.filter(|h: Seq<char>| h != l.href@);
            &&& o.hide_lists.contains(l.href@) ==> offers(
                r,
                l.name@,
                false,
                OptsView { hide_lists: rest, ..o },
            )
            &&& !o.hide_lists.contains(l.href@) && rest.len() + 1 < lists@.len() ==> offers(
                r,
                l.name@,
                true,
                OptsView { hide_lists: rest.push(l.href@), ..o },
            )
        }),
{
    let o = opts@;
    let l = lists@[i];
    let hidden = o.hide_lists.contains(l.href@);
    let rest = crate::keyed::without(o.hide_lists, l.href@);
    assert(rest =~= o.hide_lists.filter(|h: Seq<char>| h != l.href@));
    let x = if hidden {
        ItemView::Choice(l.name@, false, OptsView { hide_lists: rest, ..o })
    } else {
        ItemView::Choice(l.name@, true, OptsView { hide_lists: rest.push(l.href@), ..o })
    };
    if hidden || rest.len() + 1 < lists@.len() {
        lemma_lists(o, lists@, lists@.len() as int, i, x);
        let c = list_choices(o, lists@, lists@.len() as int);
        let head = seq![ItemView::Heading("Lists"@)];
        let tail = seq![ItemView::Separator, ItemView::Clear];
        lemma_either(head, c, x);
        lemma_either(head + c, tail, x);
        lemma_parts(NavView::Completed, o, lists@, x);
    }
}

proof fn lemma_lists(o: OptsView, lists: Seq<ListView>, n: int, i: int, x: ItemView)
    requires
        0 <= i < n <= lists.len(),
        ({
            let l = lists[i];
            let rest = crate::keyed::without(o.hide_lists, l.href@);
            if o.hide_lists.contains(l.href@) {
                x == ItemView::Choice(l.name@, false, OptsView { hide_lists: rest, ..o })
            } else {
                rest.len() + 1 < lists.len() && x == ItemView::Choice(
                    l.name@,
                    true,
                    OptsView { hide_lists: rest.push(l.href@), ..o },
                )
            }
        }),
    ensures
        list_choices(o, lists, n).contains(x),
    decreases n,
{
    let before = list_choices(o, lists, n - 1);
    let all = list_choices(o, lists, n);
    if i < n - 1 {
        lemma_lists(o, lists, n - 1, i, x);
        let k = choose|k: int| 0 <= k < before.len() && before[k] == x;
        assert(all[k] == x);
    } else {
        assert(all[before.len() as int] == x);
    }
}

} // verus!
