//! What the operations on tabs and panes lead to, as it can be seen: which tabs there
//! are and in which order, which panes they show and where, what is focused and what is
//! in front. And what each of them leaves alone.

use vstd::prelude::*;

use crate::app::{
    after_close_pane, after_close_tab, after_merge, after_move, after_new_tab, after_reorder,
    after_split, after_tear, close_pane_ends, first_state, lemma_owner, owner, tab_without,
    without_panes, Area, State, TabView,
};
use crate::labels::basename;
use crate::laws::{lemma_graft, lemma_one_leaf, lemma_owner_is, lemma_prune, shown, tab_wf, wf};
use crate::layout::{
    grafted, heir, holds, law_graft_order, law_prune_order, leaves, lemma_place, lemma_some_leaf,
    place, pruned, Axis, Node, PaneId, Ratio,
};
use crate::tiling::{
    apart, border, common_part, law_close_borders, law_heir_is_next_to, law_leaves_are_panes,
    law_split_borders, within, Border,
};

verus! {

/// Whether two states differ in nothing but their tabs, the active one and the panes.
pub open spec fn same_besides_tabs(s: State, t: State) -> bool {
    &&& t.next_id == s.next_id
    &&& t.default_title == s.default_title
    &&& t.editing == s.editing
    &&& t.search == s.search
    &&& t.pane_grip_down == s.pane_grip_down
    &&& t.confirm_quit == s.confirm_quit
    &&& t.quit_confirmed == s.quit_confirmed
}

/// Whether two tabs differ in nothing but their layout and their focus.
pub open spec fn same_tab_besides_panes(a: TabView, b: TabView) -> bool {
    a.last_area == b.last_area && a.color == b.color && a.name == b.name
}

/// Whether a tab is as a new one: one pane, focused, without a name, a colour or a place on
/// the screen.
pub open spec fn is_plain_tab(t: TabView, pane: PaneId) -> bool {
    &&& t.root == Node::Leaf(pane)
    &&& t.focused == pane
    &&& t.last_area == (Area { left: 0, top: 0, right: 0, bottom: 0 })
    &&& t.color is None
    &&& t.name is None
}

/// The border of a new split: along the axis, in two halves.
pub open spec fn new_border(axis: Axis, first: bool) -> Option<Border> {
    Some(Border { axis, ratio: Ratio { bits: 0x3f00_0000 }, first })
}

/// A window opens with one tab of one pane, which is titled by the shell's name, and
/// nothing else going on.
pub proof fn law_window_opens(shell: Seq<char>)
    ensures
        ({
            let s = first_state(shell);
            &&& s.tabs.len() == 1
            &&& is_plain_tab(s.tabs[0], 0)
            &&& s.active == 0
            &&& s.panes.dom() =~= set![0u64]
            &&& s.panes[0] == basename(shell)
            &&& s.default_title == basename(shell)
            &&& s.next_id == 1
            &&& s.editing is None && s.search is None && s.pane_grip_down is None
            &&& !s.confirm_quit && !s.quit_confirmed
        }),
{
}

/// A new tab goes behind all others and to the front, with a fresh pane under the default
/// title. The other tabs stay.
pub proof fn law_new_tab_opens(s: State)
    requires
        0 <= s.next_id <= u64::MAX,
    ensures
        ({
            let t = after_new_tab(s, true);
            let id = s.next_id as PaneId;
            &&& t.tabs.len() == s.tabs.len() + 1
            &&& forall|i: int| 0 <= i < s.tabs.len() ==> #[trigger] t.tabs[i] == s.tabs[i]
            &&& is_plain_tab(t.tabs.last(), id)
            &&& t.active == s.tabs.len()
            &&& t.panes =~= s.panes.insert(id, s.default_title)
            &&& t.next_id == s.next_id + 1
            &&& same_besides_tabs(State { next_id: t.next_id, ..s }, t)
        }),
{
}

proof fn lemma_apart_leaf(n: Node, p: PaneId)
    requires
        !within(n, p),
    ensures
        apart(n, Node::Leaf(p)),
        within(Node::Leaf(p), p),
        leaves(Node::Leaf(p)).no_duplicates(),
{
    lemma_one_leaf(p);
}

/// Splitting puts a fresh pane behind the focused one of the active tab: to its right or
/// below it, as the axis says, with an equal share, and focused. Every border that was
/// there stays, and the other panes see the new one where they see the one that was split.
/// The new pane comes directly behind the old one in the order of the panes. Nothing else
/// changes.
pub proof fn law_split_opens(s: State, axis: Axis, p: PaneId, q: PaneId)
    requires
        wf(s),
        s.tabs.len() > 0,
        0 <= s.next_id <= u64::MAX,
    ensures
        ({
            let t = after_split(s, axis, true);
            let id = s.next_id as PaneId;
            let (old, new) = (s.tabs[s.active], t.tabs[s.active]);
            let order = leaves(new.root);
            &&& border(new.root, old.focused, id) == new_border(axis, true)
            &&& within(new.root, p) <==> within(old.root, p) || p == id
            &&& within(old.root, p) && within(old.root, q) ==> border(new.root, p, q) == border(
                old.root,
                p,
                q,
            )
            &&& within(old.root, p) && p != old.focused ==> border(new.root, p, id) == border(
                old.root,
                p,
                old.focused,
            )
            &&& forall|k: int|
                0 <= k < order.len() && #[trigger] order[k] == id ==> k > 0 && order[k - 1]
                    == old.focused && order.remove(k) == leaves(old.root)
            &&& new.focused == id
            &&& same_tab_besides_panes(old, new)
            &&& t.tabs.len() == s.tabs.len()
            &&& forall|i: int|
                0 <= i < s.tabs.len() && i != s.active ==> #[trigger] t.tabs[i] == s.tabs[i]
            &&& t.active == s.active
            &&& t.panes =~= s.panes.insert(id, s.default_title)
            &&& t.next_id == s.next_id + 1
            &&& same_besides_tabs(State { next_id: t.next_id, ..s }, t)
        }),
{
    let t = after_split(s, axis, true);
    let id = s.next_id as PaneId;
    let (old, new) = (s.tabs[s.active], t.tabs[s.active]);
    assert(tab_wf(old));
    assert(!s.panes.contains_key(id) && !shown(s.tabs, id));
    assert(!holds(old.root, id));
    law_leaves_are_panes(old.root, id);
    law_leaves_are_panes(old.root, old.focused);
    lemma_apart_leaf(old.root, id);
    law_split_borders(old.root, old.focused, Node::Leaf(id), axis, true, p, q);
    law_split_borders(old.root, old.focused, Node::Leaf(id), axis, true, p, id);
    law_split_borders(old.root, old.focused, Node::Leaf(id), axis, true, old.focused, id);
    lemma_beside(old.root, old.focused, id, axis, true);
}

/// A pane that is put beside another comes directly behind it or in front of it, and the
/// others stay in order.
proof fn lemma_beside(n: Node, target: PaneId, new: PaneId, axis: Axis, after: bool)
    requires
        leaves(n).no_duplicates(),
        holds(n, target),
        !holds(n, new),
    ensures
        ({
            let order = leaves(grafted(n, target, Node::Leaf(new), axis, after));
            &&& order.contains(new)
            &&& order.no_duplicates()
            &&& forall|k: int|
                0 <= k < order.len() && #[trigger] order[k] == new ==> order.remove(k) == leaves(n)
                    && (if after {
                    k > 0 && order[k - 1] == target
                } else {
                    k + 1 < order.len() && order[k + 1] == target
                })
        }),
{
    let leaf = Node::Leaf(new);
    let s = leaves(n);
    let i = place(s, target);
    let order = leaves(grafted(n, target, leaf, axis, after));
    lemma_place(s, target);
    lemma_one_leaf(new);
    law_graft_order(n, target, leaf, axis, after);
    lemma_graft(n, target, leaf, axis, after);
    assert(leaves(leaf) =~= seq![new]);
    let at = if after {
        i + 1
    } else {
        i
    };
    assert(order =~= s.insert(at, new));
    assert(order[at] == new);
    assert forall|k: int| 0 <= k < order.len() && #[trigger] order[k] == new implies order.remove(k)
        == s && (if after {
        k > 0 && order[k - 1] == target
    } else {
        k + 1 < order.len() && order[k + 1] == target
    }) by {
        assert(k == at);
        assert(order.remove(at) =~= s);
    }
}

/// A pane that is moved comes to the chosen side of the target, along the axis and with an
/// equal share, and is focused. In the order of the panes it comes directly behind the
/// target when `after` and directly in front of it otherwise, the others keeping theirs.
/// The borders between the other panes stay. Nothing else changes.
pub proof fn law_move_lands(
    s: State,
    src: PaneId,
    target: PaneId,
    axis: Axis,
    after: bool,
    p: PaneId,
    q: PaneId,
)
    requires
        wf(s),
        s.tabs.len() > 0,
        src != target,
        within(s.tabs[s.active].root, src),
        within(s.tabs[s.active].root, target),
    ensures
        ({
            let t = after_move(s, src, target, axis, after);
            let (old, new) = (s.tabs[s.active], t.tabs[s.active]);
            let (before, order) = (leaves(old.root), leaves(new.root));
            &&& border(new.root, target, src) == new_border(axis, after)
            &&& within(new.root, p) <==> within(old.root, p)
            &&& p != src && q != src && within(old.root, p) && within(old.root, q) ==> border(
                new.root,
                p,
                q,
            ) == border(old.root, p, q)
            &&& p != src && p != target && within(old.root, p) ==> border(new.root, p, src)
                == border(old.root, p, target)
            &&& order.contains(src)
            &&& forall|i: int, k: int|
                0 <= i < before.len() && 0 <= k < order.len() && #[trigger] before[i] == src
                    && #[trigger] order[k] == src ==> order.remove(k) == before.remove(i) && (
                if after {
                    k > 0 && order[k - 1] == target
                } else {
                    k + 1 < order.len() && order[k + 1] == target
                })
            &&& new.focused == src
            &&& same_tab_besides_panes(old, new)
            &&& t.tabs.len() == s.tabs.len()
            &&& forall|i: int|
                0 <= i < s.tabs.len() && i != s.active ==> #[trigger] t.tabs[i] == s.tabs[i]
            &&& t.active == s.active
            &&& t.panes == s.panes
            &&& same_besides_tabs(s, t)
        }),
{
    let t = after_move(s, src, target, axis, after);
    let (old, new) = (s.tabs[s.active], t.tabs[s.active]);
    assert(tab_wf(old));
    law_leaves_are_panes(old.root, src);
    law_leaves_are_panes(old.root, target);
    lemma_several(old.root, src, target);
    lemma_prune(old.root, src);
    law_prune_order(old.root, src);
    let rest = pruned(old.root, src)->0;
    law_leaves_are_panes(rest, src);
    law_leaves_are_panes(rest, target);
    assert(holds(rest, target) && !holds(rest, src));
    lemma_apart_leaf(rest, src);
    law_close_borders(old.root, src, p, q);
    law_close_borders(old.root, src, q, p);
    law_close_borders(old.root, src, p, target);
    law_split_borders(rest, target, Node::Leaf(src), axis, after, p, q);
    law_split_borders(rest, target, Node::Leaf(src), axis, after, q, p);
    law_split_borders(rest, target, Node::Leaf(src), axis, after, p, src);
    law_split_borders(rest, target, Node::Leaf(src), axis, after, target, src);
    lemma_beside(rest, target, src, axis, after);
    let before = leaves(old.root);
    lemma_place(before, src);
    assert forall|i: int| 0 <= i < before.len() && #[trigger] before[i] == src implies i == place(
        before,
        src,
    ) by {}
}

/// A tree with two different panes is split.
proof fn lemma_several(n: Node, p: PaneId, q: PaneId)
    requires
        within(n, p),
        within(n, q),
        p != q,
    ensures
        n is Split,
        leaves(n).len() > 1,
{
    match n {
        Node::Leaf(_) => {},
        Node::Split { first, second, .. } => {
            lemma_some_leaf(*first);
            lemma_some_leaf(*second);
        },
    }
}

/// A pane is not moved beside itself, nor beside a pane that is not in its tab.
pub proof fn law_move_refused(s: State, src: PaneId, target: PaneId, axis: Axis, after: bool)
    requires
        src == target || !within(s.tabs[s.active].root, src) || !within(
            s.tabs[s.active].root,
            target,
        ),
    ensures
        after_move(s, src, target, axis, after) == s,
{
    law_leaves_are_panes(s.tabs[s.active].root, src);
    law_leaves_are_panes(s.tabs[s.active].root, target);
}

/// Where tab `i` stands once tab `gone` has left.
pub open spec fn without(i: int, gone: int) -> int {
    if i > gone {
        i - 1
    } else {
        i
    }
}

/// A tab that is merged into another comes to the chosen side of the target pane as a whole,
/// along the axis and with an equal share: its panes keep the borders between them, and so
/// do those of the other tab, which see all of it where they see the target. The tab that
/// took it in is in front, with the focus of the one that came; it keeps its name and its
/// colour. The merged tab is gone, and all others stay in order.
pub proof fn law_merge_lands(
    s: State,
    src: int,
    to: int,
    target: PaneId,
    axis: Axis,
    after: bool,
    p: PaneId,
    q: PaneId,
)
    requires
        wf(s),
        0 <= src < s.tabs.len(),
        0 <= to < s.tabs.len(),
        src != to,
        within(s.tabs[to].root, target),
    ensures
        ({
            let t = after_merge(s, src, target, axis, after);
            let (a, b) = (s.tabs[src], s.tabs[to]);
            let new = t.tabs[without(to, src)];
            &&& within(a.root, p) ==> border(new.root, target, p) == new_border(axis, after)
            &&& within(new.root, p) <==> within(a.root, p) || within(b.root, p)
            &&& within(a.root, p) && within(a.root, q) ==> border(new.root, p, q) == border(
                a.root,
                p,
                q,
            )
            &&& within(b.root, p) && within(b.root, q) ==> border(new.root, p, q) == border(
                b.root,
                p,
                q,
            )
            &&& within(b.root, p) && p != target && within(a.root, q) ==> border(new.root, p, q)
                == border(b.root, p, target)
            &&& new.focused == a.focused
            &&& same_tab_besides_panes(b, new)
            &&& t.active == without(to, src)
            &&& t.tabs.len() == s.tabs.len() - 1
            &&& forall|i: int|
                0 <= i < s.tabs.len() && i != src && i != to ==> #[trigger] t.tabs[without(i, src)]
                    == s.tabs[i]
            &&& t.panes == s.panes
            &&& same_besides_tabs(s, t)
        }),
{
    let (a, b) = (s.tabs[src], s.tabs[to]);
    assert(tab_wf(a) && tab_wf(b));
    law_leaves_are_panes(b.root, target);
    lemma_owner_is(s.tabs, to, target);
    assert forall|r: PaneId| !(#[trigger] within(b.root, r) && within(a.root, r)) by {
        law_leaves_are_panes(a.root, r);
        law_leaves_are_panes(b.root, r);
        if holds(b.root, r) {
            assert(!holds(a.root, r));
        }
    }
    law_split_borders(b.root, target, a.root, axis, after, p, q);
    law_split_borders(b.root, target, a.root, axis, after, target, p);
}

/// A tab is not merged into itself, nor into a pane that is not there.
pub proof fn law_merge_refused(s: State, src: int, target: PaneId, axis: Axis, after: bool)
    requires
        wf(s),
        src >= s.tabs.len() || !shown(s.tabs, target) || (0 <= src && within(
            s.tabs[src].root,
            target,
        )),
    ensures
        after_merge(s, src, target, axis, after) == s,
{
    lemma_owner(s.tabs, target);
    if 0 <= src < s.tabs.len() {
        law_leaves_are_panes(s.tabs[src].root, target);
        if holds(s.tabs[src].root, target) {
            lemma_owner_is(s.tabs, src, target);
        }
    }
    if owner(s.tabs, target) < s.tabs.len() {
        assert(shown(s.tabs, target));
    }
}

/// What a tab is after it has lost one of several panes: the borders between the others
/// stay, and so does the focus, unless it was on that pane. It then goes to the first of
/// the panes that shared its split.
pub open spec fn lost_one(old: TabView, new: TabView, pane: PaneId, p: PaneId, q: PaneId) -> bool {
    let part = common_part(old.root, pane, new.focused);
    &&& within(new.root, p) <==> within(old.root, p) && p != pane
    &&& p != pane && q != pane && within(old.root, p) && within(old.root, q) ==> border(
        new.root,
        p,
        q,
    ) == border(old.root, p, q)
    &&& old.focused != pane ==> new.focused == old.focused
    &&& old.focused == pane ==> part is Split && ((*part->first == Node::Leaf(pane) && new.focused
        == leaves(*part->second)[0]) || (*part->second == Node::Leaf(pane) && new.focused
        == leaves(*part->first)[0]))
    &&& same_tab_besides_panes(old, new)
}

proof fn lemma_lost_one(
    tab: TabView,
    pane: PaneId,
    panes: Map<PaneId, Seq<char>>,
    p: PaneId,
    q: PaneId,
)
    requires
        tab_wf(tab),
        within(tab.root, pane),
        tab.root is Split,
        forall|r: PaneId| r != pane && #[trigger] holds(tab.root, r) ==> panes.contains_key(r),
    ensures
        lost_one(tab, tab_without(tab, pane, panes), pane, p, q),
{
    law_close_borders(tab.root, pane, p, q);
    law_heir_is_next_to(tab.root, pane);
    law_leaves_are_panes(tab.root, pane);
    crate::layout::law_heir(tab.root, pane);
    let next = heir(tab.root, pane)->0;
    assert(holds(tab.root, next));
    assert(panes.contains_key(next));
}

/// A pane that is torn out is in a plain tab of its own at the slot, in front; the tab that
/// it was in has lost it. The other tabs stay, those from the slot on one further.
pub proof fn law_tear_lands(s: State, src: PaneId, slot: int, p: PaneId, q: PaneId)
    requires
        wf(s),
        s.tabs.len() > 0,
        0 <= slot,
        within(s.tabs[s.active].root, src),
        s.tabs[s.active].root is Split,
    ensures
        ({
            let t = after_tear(s, src, slot);
            let at = if slot < s.tabs.len() {
                slot
            } else {
                s.tabs.len() as int
            };
            let moved = |i: int|
                if i < at {
                    i
                } else {
                    i + 1
                };
            &&& is_plain_tab(t.tabs[at], src)
            &&& t.active == at
            &&& t.tabs.len() == s.tabs.len() + 1
            &&& lost_one(s.tabs[s.active], t.tabs[moved(s.active)], src, p, q)
            &&& forall|i: int|
                0 <= i < s.tabs.len() && i != s.active ==> #[trigger] s.tabs[i] == t.tabs[moved(i)]
            &&& t.panes == s.panes
            &&& same_besides_tabs(s, t)
        }),
{
    let tab = s.tabs[s.active];
    assert(tab_wf(tab));
    law_leaves_are_panes(tab.root, src);
    lemma_some_leaf(*tab.root->first);
    lemma_some_leaf(*tab.root->second);
    assert forall|r: PaneId| r != src && #[trigger] holds(tab.root, r) implies s.panes.contains_key(
        r,
    ) by {
        assert(shown(s.tabs, r));
    }
    lemma_lost_one(tab, src, s.panes, p, q);
    let t = after_tear(s, src, slot);
    let at = if slot < s.tabs.len() {
        slot
    } else {
        s.tabs.len() as int
    };
    let lost = s.tabs.update(s.active, tab_without(tab, src, s.panes));
    assert forall|i: int| 0 <= i < s.tabs.len() implies #[trigger] lost[i] == t.tabs[if i < at {
        i
    } else {
        i + 1
    }] by {}
    assert(lost[s.active] == tab_without(tab, src, s.panes));
    assert forall|i: int| 0 <= i < s.tabs.len() && i != s.active implies #[trigger] s.tabs[i]
        == t.tabs[if i < at {
        i
    } else {
        i + 1
    }] by {
        assert(lost[i] == s.tabs[i]);
    }
}

/// A pane is not torn out of a tab where it is not, or where it is alone.
pub proof fn law_tear_refused(s: State, src: PaneId, slot: int)
    requires
        !within(s.tabs[s.active].root, src) || s.tabs[s.active].root is Leaf,
    ensures
        after_tear(s, src, slot) == s,
{
    law_leaves_are_panes(s.tabs[s.active].root, src);
}

/// Closing one of several panes of a tab: the tab has lost it, and its title and a search in
/// it are gone. The other tabs, their order and the active one stay.
pub proof fn law_close_one_of_several(s: State, pane: PaneId, ti: int, p: PaneId, q: PaneId)
    requires
        wf(s),
        0 <= ti < s.tabs.len(),
        within(s.tabs[ti].root, pane),
        s.tabs[ti].root is Split,
    ensures
        ({
            let t = after_close_pane(s, pane);
            &&& lost_one(s.tabs[ti], t.tabs[ti], pane, p, q)
            &&& t.tabs.len() == s.tabs.len()
            &&& forall|i: int|
                0 <= i < s.tabs.len() && i != ti ==> #[trigger] t.tabs[i] == s.tabs[i]
            &&& t.active == s.active
            &&& t.panes =~= s.panes.remove(pane)
            &&& s.search is Some && s.search->0.pane == pane ==> t.search is None
            &&& s.search is Some && s.search->0.pane != pane ==> t.search == s.search
            &&& s.search is None ==> t.search is None
            &&& same_besides_tabs(State { search: t.search, ..s }, t)
            &&& !close_pane_ends(s, pane)
        }),
{
    let tab = s.tabs[ti];
    assert(tab_wf(tab));
    law_leaves_are_panes(tab.root, pane);
    lemma_owner_is(s.tabs, ti, pane);
    assert(shown(s.tabs, pane));
    lemma_some_leaf(*tab.root->first);
    lemma_some_leaf(*tab.root->second);
    let panes = s.panes.remove(pane);
    assert forall|r: PaneId| r != pane && #[trigger] holds(tab.root, r) implies panes.contains_key(
        r,
    ) by {
        assert(shown(s.tabs, r));
    }
    lemma_lost_one(tab, pane, panes, p, q);
}

/// What is left once tab `ti` is gone: the others in order, the active one still in front.
/// Where it was the active one, the tab behind it comes to the front, or else the last one.
pub open spec fn tab_gone(s: State, t: State, ti: int) -> bool {
    &&& t.tabs.len() == s.tabs.len() - 1
    &&& forall|i: int|
        0 <= i < s.tabs.len() && i != ti ==> #[trigger] s.tabs[i] == t.tabs[without(i, ti)]
    &&& t.tabs.len() > 0 && ti != s.active ==> t.active == without(s.active, ti)
    &&& t.tabs.len() > 0 && ti == s.active ==> t.active == (if ti < t.tabs.len() {
        ti
    } else {
        ti - 1
    })
}

/// Closing the only pane of a tab closes the tab. The window ends with the last one.
pub proof fn law_close_only_pane(s: State, pane: PaneId, ti: int)
    requires
        wf(s),
        0 <= ti < s.tabs.len(),
        s.tabs[ti].root == Node::Leaf(pane),
    ensures
        ({
            let t = after_close_pane(s, pane);
            &&& tab_gone(s, t, ti)
            &&& t.panes =~= s.panes.remove(pane)
            &&& s.search is Some && s.search->0.pane == pane ==> t.search is None
            &&& s.search is Some && s.search->0.pane != pane ==> t.search == s.search
            &&& s.search is None ==> t.search is None
            &&& same_besides_tabs(State { search: t.search, ..s }, t)
            &&& close_pane_ends(s, pane) <==> t.tabs.len() == 0
        }),
{
    let tab = s.tabs[ti];
    law_leaves_are_panes(tab.root, pane);
    lemma_owner_is(s.tabs, ti, pane);
    assert(shown(s.tabs, pane));
    assert forall|i: int| 0 <= i < s.tabs.len() && i != ti implies #[trigger] s.tabs[i]
        == after_close_pane(s, pane).tabs[without(i, ti)] by {}
}

/// Closing what is no pane does nothing.
pub proof fn law_close_no_pane(s: State, pane: PaneId)
    requires
        !s.panes.contains_key(pane),
    ensures
        after_close_pane(s, pane) == s,
        !close_pane_ends(s, pane),
{
}

/// Closing a tab closes it with all its panes: their titles and a search in one of them are
/// gone, and no other pane's.
pub proof fn law_close_tab_closes(s: State, ti: int, p: PaneId)
    requires
        wf(s),
        0 <= ti < s.tabs.len(),
    ensures
        ({
            let t = after_close_tab(s, ti);
            let root = s.tabs[ti].root;
            &&& tab_gone(s, t, ti)
            &&& t.panes.contains_key(p) <==> s.panes.contains_key(p) && !within(root, p)
            &&& t.panes.contains_key(p) ==> t.panes[p] == s.panes[p]
            &&& s.search is Some && within(root, s.search->0.pane) ==> t.search is None
            &&& s.search is Some && !within(root, s.search->0.pane) ==> t.search == s.search
            &&& s.search is None ==> t.search is None
            &&& same_besides_tabs(State { search: t.search, ..s }, t)
        }),
{
    let root = s.tabs[ti].root;
    lemma_without_panes(s, leaves(root), p);
    law_leaves_are_panes(root, p);
    if s.search is Some {
        law_leaves_are_panes(root, s.search->0.pane);
    }
    assert forall|i: int| 0 <= i < s.tabs.len() && i != ti implies #[trigger] s.tabs[i]
        == after_close_tab(s, ti).tabs[without(i, ti)] by {}
}

proof fn lemma_without_panes(s: State, gone: Seq<PaneId>, p: PaneId)
    ensures
        ({
            let t = without_panes(s, gone);
            &&& t.panes.contains_key(p) <==> s.panes.contains_key(p) && !gone.contains(p)
            &&& t.panes.contains_key(p) ==> t.panes[p] == s.panes[p]
            &&& s.search is Some && gone.contains(s.search->0.pane) ==> t.search is None
            &&& s.search is Some && !gone.contains(s.search->0.pane) ==> t.search == s.search
            &&& s.search is None ==> t.search is None
            &&& t.tabs == s.tabs && t.active == s.active
            &&& same_besides_tabs(State { search: t.search, ..s }, t)
        }),
    decreases gone.len(),
{
    if gone.len() > 0 {
        let init = gone.drop_last();
        lemma_without_panes(s, init, p);
        assert(gone =~= init.push(gone.last()));
        assert forall|r: PaneId| #[trigger] gone.contains(r) <==> init.contains(r) || r
            == gone.last() by {
            if init.contains(r) {
                let i = choose|i: int| 0 <= i < init.len() && init[i] == r;
                assert(gone[i] == r);
            }
            if gone.contains(r) && r != gone.last() {
                let i = choose|i: int| 0 <= i < gone.len() && gone[i] == r;
                assert(init[i] == r);
            }
            if r == gone.last() {
                assert(gone[gone.len() - 1] == r);
            }
        }
    }
}

/// Moving a tab in the strip changes nothing but the order of the tabs and which one is in
/// front: the moved one. A slot beyond the last tab is the one behind it.
pub proof fn law_reorder_moves_one(s: State, src: int, to: int)
    requires
        0 <= src,
        0 <= to,
    ensures
        ({
            let t = after_reorder(s, src, to);
            &&& t.tabs.len() == s.tabs.len()
            &&& src < s.tabs.len() ==> 0 <= t.active < t.tabs.len() && t.tabs[t.active]
                == s.tabs[src] && t.tabs.remove(t.active) =~= s.tabs.remove(src)
            &&& src < s.tabs.len() && to < src ==> t.active == to
            &&& src < to <= s.tabs.len() && src < s.tabs.len() ==> t.active == to - 1
            &&& src < s.tabs.len() && to == src ==> t.active == src
            &&& to > s.tabs.len() ==> t == after_reorder(s, src, s.tabs.len() as int)
            &&& src >= s.tabs.len() ==> t == s
            &&& t.panes == s.panes
            &&& same_besides_tabs(s, t)
        }),
{
}

} // verus!
