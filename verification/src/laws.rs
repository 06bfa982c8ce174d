//! What every operation on the tabs keeps, and what operations do to each other.

use vstd::prelude::*;

use crate::app::{
    after_close_pane, after_close_tab, after_merge, after_move, after_new_tab,
    after_reorder, after_split, after_tear, close_pane_ends, first_state, fresh_tab,
    lemma_owner, owner, reorder_slot, search_without, tab_without, without_panes,
    without_tab, State, TabView,
};
use crate::dialogs::{after_close_request, after_quit, after_rename};
use crate::frame::{
    after_close_panes, after_command, after_report, command_fits, reported, with_focus,
    PtyEventView,
};
use crate::layout::{
    grafted, heir, holds, law_heir, law_prune_order, law_split_then_close, leaves,
    lemma_place, lemma_place_concat, lemma_some_leaf, pruned, Axis, Node, PaneId,
};
use crate::panes::{
    after_click, after_grip, after_merged, after_moved, after_panes, after_ratios, before_close,
    clicked_pane, closed_pane, law_ratios_keep_panes, PanesInputView,
};
use crate::shortcuts::Command;
use crate::strip::{
    after_color, after_open_new, after_strip, after_strip_action, StripDrop, StripInputView,
};

verus! {

/// A tab shows no pane twice, and its focus is on one of its panes.
pub open spec fn tab_wf(t: TabView) -> bool {
    leaves(t.root).no_duplicates() && holds(t.root, t.focused)
}

/// Every tab is well-formed, and no pane is in two of them.
pub open spec fn tabs_wf(tabs: Seq<TabView>) -> bool {
    &&& forall|i: int| 0 <= i < tabs.len() ==> tab_wf(#[trigger] tabs[i])
    &&& forall|i: int, j: int, p: PaneId|
        #![trigger holds(tabs[i].root, p), holds(tabs[j].root, p)]
        0 <= i < tabs.len() && 0 <= j < tabs.len() && i != j && holds(tabs[i].root, p) ==> !holds(
            tabs[j].root,
            p,
        )
}

/// Whether some tab shows `p`.
pub open spec fn shown(tabs: Seq<TabView>, p: PaneId) -> bool {
    exists|i: int| 0 <= i < tabs.len() && holds(#[trigger] tabs[i].root, p)
}

/// The invariant of the application's state: the panes are those that the tabs
/// show, each in one place; every tab's focus is on one of its panes; fresh ids are
/// fresh; a search is in one of the panes; and while there are tabs, one of them is
/// the active one.
pub open spec fn wf(s: State) -> bool {
    &&& tabs_wf(s.tabs)
    &&& forall|p: PaneId| s.panes.contains_key(p) <==> #[trigger] shown(s.tabs, p)
    &&& forall|p: PaneId| #[trigger] s.panes.contains_key(p) ==> p < s.next_id
    &&& s.search matches Some(f) ==> s.panes.contains_key(f.pane)
    &&& 0 <= s.active
    &&& s.tabs.len() > 0 ==> s.active < s.tabs.len()
}

pub proof fn lemma_no_dup_concat(a: Seq<PaneId>, b: Seq<PaneId>)
    ensures
        (a + b).no_duplicates() <==> {
            &&& a.no_duplicates()
            &&& b.no_duplicates()
            &&& forall|p: PaneId| #[trigger] a.contains(p) ==> !b.contains(p)
        },
{
    let s = a + b;
    if s.no_duplicates() {
        assert forall|i: int, j: int| 0 <= i < a.len() && 0 <= j < a.len() && i != j implies a[i]
            != a[j] by {
            assert(s[i] == a[i] && s[j] == a[j]);
        }
        assert forall|i: int, j: int| 0 <= i < b.len() && 0 <= j < b.len() && i != j implies b[i]
            != b[j] by {
            assert(s[a.len() + i] == b[i] && s[a.len() + j] == b[j]);
        }
        assert forall|p: PaneId| #[trigger] a.contains(p) implies !b.contains(p) by {
            if b.contains(p) {
                let i = choose|i: int| 0 <= i < a.len() && a[i] == p;
                let j = choose|j: int| 0 <= j < b.len() && b[j] == p;
                assert(s[i] == p && s[a.len() + j] == p);
            }
        }
    }
    if a.no_duplicates() && b.no_duplicates() && (forall|p: PaneId| #[trigger]
        a.contains(p) ==> !b.contains(p)) {
        assert forall|i: int, j: int| 0 <= i < s.len() && 0 <= j < s.len() && i != j implies s[i]
            != s[j] by {
            if i < a.len() && j >= a.len() {
                assert(a.contains(a[i]));
                assert(b[j - a.len()] == s[j]);
            }
            if j < a.len() && i >= a.len() {
                assert(a.contains(a[j]));
                assert(b[i - a.len()] == s[i]);
            }
        }
    }
}

/// A graft has the panes of both trees, and shows none twice where the two have
/// none in common.
pub proof fn lemma_graft(n: Node, target: PaneId, new: Node, axis: Axis, after: bool)
    requires
        holds(n, target),
    ensures
        forall|q: PaneId| #[trigger]
            holds(grafted(n, target, new, axis, after), q) <==> holds(n, q) || holds(new, q),
        leaves(n).no_duplicates() && leaves(new).no_duplicates() && (forall|q: PaneId| #[trigger]
            holds(n, q) ==> !holds(new, q)) ==> leaves(
            grafted(n, target, new, axis, after),
        ).no_duplicates(),
    decreases n,
{
    let g = grafted(n, target, new, axis, after);
    match n {
        Node::Leaf(p) => {
            assert(leaves(n)[0] == p);
            let a = if after {
                leaves(n)
            } else {
                leaves(new)
            };
            let b = if after {
                leaves(new)
            } else {
                leaves(n)
            };
            assert(leaves(g) == a + b);
            lemma_no_dup_concat(a, b);
            assert forall|q: PaneId| #[trigger] holds(g, q) <==> holds(n, q) || holds(new, q) by {
                lemma_place_concat(a, b, q);
            }
        },
        Node::Split { first, second, .. } => {
            let a = leaves(*first);
            let b = leaves(*second);
            lemma_place_concat(a, b, target);
            lemma_no_dup_concat(a, b);
            assert forall|q: PaneId| #[trigger] holds(n, q) <==> a.contains(q) || b.contains(q) by {
                lemma_place_concat(a, b, q);
            }
            if holds(*first, target) {
                lemma_graft(*first, target, new, axis, after);
                let f = leaves(grafted(*first, target, new, axis, after));
                lemma_no_dup_concat(f, b);
                assert forall|q: PaneId| #[trigger] holds(g, q) <==> holds(n, q) || holds(new, q) by {
                    lemma_place_concat(f, b, q);
                    assert(holds(grafted(*first, target, new, axis, after), q) <==> f.contains(q));
                }
                assert forall|q: PaneId| #[trigger] f.contains(q) <==> a.contains(q) || holds(
                    new,
                    q,
                ) by {
                    assert(holds(grafted(*first, target, new, axis, after), q) <==> f.contains(q));
                    assert(holds(*first, q) <==> a.contains(q));
                }
                if leaves(n).no_duplicates() && leaves(new).no_duplicates() && (forall|q: PaneId|
                 #[trigger] holds(n, q) ==> !holds(new, q)) {
                    assert forall|q: PaneId| #[trigger] holds(*first, q) implies !holds(new, q) by {
                        assert(holds(n, q));
                    }
                    assert forall|q: PaneId| #[trigger] f.contains(q) implies !b.contains(q) by {
                        if b.contains(q) {
                            assert(holds(n, q));
                        }
                    }
                }
            } else {
                lemma_graft(*second, target, new, axis, after);
                let f = leaves(grafted(*second, target, new, axis, after));
                lemma_no_dup_concat(a, f);
                assert forall|q: PaneId| #[trigger] holds(g, q) <==> holds(n, q) || holds(new, q) by {
                    lemma_place_concat(a, f, q);
                    assert(holds(grafted(*second, target, new, axis, after), q) <==> f.contains(q));
                }
                assert forall|q: PaneId| #[trigger] f.contains(q) <==> b.contains(q) || holds(
                    new,
                    q,
                ) by {
                    assert(holds(grafted(*second, target, new, axis, after), q) <==> f.contains(q));
                    assert(holds(*second, q) <==> b.contains(q));
                }
                if leaves(n).no_duplicates() && leaves(new).no_duplicates() && (forall|q: PaneId|
                 #[trigger] holds(n, q) ==> !holds(new, q)) {
                    assert forall|q: PaneId| #[trigger] holds(*second, q) implies !holds(
                        new,
                        q,
                    ) by {
                        assert(holds(n, q));
                    }
                    assert forall|q: PaneId| #[trigger] a.contains(q) implies !f.contains(q) by {
                        assert(holds(n, q));
                    }
                }
            }
        },
    }
}

/// A pruned tree has all panes but one, and shows none twice.
pub proof fn lemma_prune(n: Node, p: PaneId)
    requires
        holds(n, p),
        leaves(n).no_duplicates(),
        leaves(n).len() > 1,
    ensures
        pruned(n, p) is Some,
        forall|q: PaneId| #[trigger] holds(pruned(n, p)->0, q) <==> holds(n, q) && q != p,
        leaves(pruned(n, p)->0).no_duplicates(),
        leaves(pruned(n, p)->0).len() == leaves(n).len() - 1,
{
    law_prune_order(n, p);
    let s = leaves(n);
    let i = crate::layout::place(s, p);
    lemma_place(s, p);
    let t = leaves(pruned(n, p)->0);
    assert(t == s.remove(i));
    assert forall|q: PaneId| #[trigger] holds(pruned(n, p)->0, q) <==> holds(n, q) && q != p by {
        if t.contains(q) {
            let k = choose|k: int| 0 <= k < t.len() && t[k] == q;
            if k < i {
                assert(s[k] == q);
            } else {
                assert(s[k + 1] == q);
            }
        }
        if s.contains(q) && q != p {
            let k = choose|k: int| 0 <= k < s.len() && s[k] == q;
            if k < i {
                assert(t[k] == q);
            } else {
                assert(t[k - 1] == q);
            }
        }
    }
}

proof fn lemma_tabs_insert(tabs: Seq<TabView>, at: int, t: TabView)
    requires
        tabs_wf(tabs),
        0 <= at <= tabs.len(),
        tab_wf(t),
        forall|p: PaneId| #[trigger] holds(t.root, p) ==> !shown(tabs, p),
    ensures
        tabs_wf(tabs.insert(at, t)),
        forall|p: PaneId| #[trigger]
            shown(tabs.insert(at, t), p) <==> shown(tabs, p) || holds(t.root, p),
{
    let new = tabs.insert(at, t);
    let old_of = |i: int| if i < at { i } else { i - 1 };
    assert forall|i: int| 0 <= i < new.len() implies tab_wf(#[trigger] new[i]) by {
        if i != at {
            assert(new[i] == tabs[old_of(i)]);
        }
    }
    assert forall|i: int, j: int, p: PaneId|
        #![trigger holds(new[i].root, p), holds(new[j].root, p)]
        0 <= i < new.len() && 0 <= j < new.len() && i != j && holds(new[i].root, p) implies !holds(
        new[j].root,
        p,
    ) by {
        if i != at {
            assert(new[i] == tabs[old_of(i)]);
            assert(shown(tabs, p));
        }
        if j != at {
            assert(new[j] == tabs[old_of(j)]);
            if holds(new[j].root, p) {
                assert(shown(tabs, p));
            }
        }
    }
    assert forall|p: PaneId| #[trigger] shown(new, p) <==> shown(tabs, p) || holds(t.root, p) by {
        if shown(new, p) {
            let i = choose|i: int| 0 <= i < new.len() && holds(#[trigger] new[i].root, p);
            if i != at {
                assert(new[i] == tabs[old_of(i)]);
                assert(holds(tabs[old_of(i)].root, p));
            }
        }
        if shown(tabs, p) {
            let i = choose|i: int| 0 <= i < tabs.len() && holds(#[trigger] tabs[i].root, p);
            let k = if i < at {
                i
            } else {
                i + 1
            };
            assert(new[k] == tabs[i]);
            assert(holds(new[k].root, p));
        }
        if holds(t.root, p) {
            assert(new[at] == t);
            assert(holds(new[at].root, p));
        }
    }
}

proof fn lemma_tabs_remove(tabs: Seq<TabView>, at: int)
    requires
        tabs_wf(tabs),
        0 <= at < tabs.len(),
    ensures
        tabs_wf(tabs.remove(at)),
        forall|p: PaneId| #[trigger]
            shown(tabs.remove(at), p) <==> shown(tabs, p) && !holds(tabs[at].root, p),
{
    let new = tabs.remove(at);
    let old_of = |i: int| if i < at { i } else { i + 1 };
    assert forall|i: int| 0 <= i < new.len() implies tab_wf(#[trigger] new[i]) by {
        assert(new[i] == tabs[old_of(i)]);
    }
    assert forall|i: int, j: int, p: PaneId|
        #![trigger holds(new[i].root, p), holds(new[j].root, p)]
        0 <= i < new.len() && 0 <= j < new.len() && i != j && holds(new[i].root, p) implies !holds(
        new[j].root,
        p,
    ) by {
        assert(new[i] == tabs[old_of(i)] && new[j] == tabs[old_of(j)]);
        assert(holds(tabs[old_of(i)].root, p));
        assert(!holds(tabs[old_of(j)].root, p));
    }
    assert forall|p: PaneId| #[trigger]
        shown(new, p) <==> shown(tabs, p) && !holds(tabs[at].root, p) by {
        if shown(new, p) {
            let i = choose|i: int| 0 <= i < new.len() && holds(#[trigger] new[i].root, p);
            assert(new[i] == tabs[old_of(i)]);
            assert(holds(tabs[old_of(i)].root, p));
            assert(!holds(tabs[at].root, p));
        }
        if shown(tabs, p) && !holds(tabs[at].root, p) {
            let i = choose|i: int| 0 <= i < tabs.len() && holds(#[trigger] tabs[i].root, p);
            let k = if i < at {
                i
            } else {
                i - 1
            };
            assert(new[k] == tabs[i]);
            assert(holds(new[k].root, p));
        }
    }
}

proof fn lemma_tabs_update(tabs: Seq<TabView>, at: int, t: TabView)
    requires
        tabs_wf(tabs),
        0 <= at < tabs.len(),
        tab_wf(t),
        forall|p: PaneId| #[trigger]
            holds(t.root, p) ==> !shown(tabs, p) || holds(tabs[at].root, p),
    ensures
        tabs_wf(tabs.update(at, t)),
        forall|p: PaneId| #[trigger]
            shown(tabs.update(at, t), p) <==> (shown(tabs, p) && !holds(tabs[at].root, p)) || holds(
                t.root,
                p,
            ),
{
    lemma_tabs_remove(tabs, at);
    assert forall|p: PaneId| #[trigger] holds(t.root, p) implies !shown(tabs.remove(at), p) by {}
    lemma_tabs_insert(tabs.remove(at), at, t);
    assert(tabs.remove(at).insert(at, t) =~= tabs.update(at, t));
}

pub proof fn lemma_one_leaf(p: PaneId)
    ensures
        forall|q: PaneId| #[trigger] holds(Node::Leaf(p), q) <==> q == p,
        leaves(Node::Leaf(p)).no_duplicates(),
{
    assert(leaves(Node::Leaf(p))[0] == p);
}

/// The tab at `i` is the one that shows `p`.
pub proof fn lemma_owner_is(tabs: Seq<TabView>, i: int, p: PaneId)
    requires
        tabs_wf(tabs),
        0 <= i < tabs.len(),
        holds(tabs[i].root, p),
    ensures
        owner(tabs, p) == i,
{
    lemma_owner(tabs, p);
    let o = owner(tabs, p);
    if o != i {
        assert(o < i);
        assert(holds(tabs[o].root, p));
    }
}

/// A tab that has lost one of several panes is still well-formed, and shows the
/// others.
proof fn lemma_tab_without(tab: TabView, pane: PaneId, panes: Map<PaneId, Seq<char>>)
    requires
        tab_wf(tab),
        holds(tab.root, pane),
        leaves(tab.root).len() > 1,
    ensures
        tab_wf(tab_without(tab, pane, panes)),
        forall|q: PaneId| #[trigger]
            holds(tab_without(tab, pane, panes).root, q) <==> holds(tab.root, q) && q != pane,
{
    lemma_prune(tab.root, pane);
    law_heir(tab.root, pane);
    let rest = pruned(tab.root, pane)->0;
    lemma_some_leaf(rest);
    assert(holds(rest, leaves(rest)[0]));
    assert(tab_without(tab, pane, panes).root == rest);
    assert(holds(rest, tab.focused) <==> tab.focused != pane);
    if let Some(q) = heir(tab.root, pane) {
        assert(holds(rest, q));
    }
}

/// A window that opens meets the invariant.
pub proof fn law_first_state_wf(shell: Seq<char>)
    ensures
        wf(first_state(shell)),
{
    let s = first_state(shell);
    let none = Seq::<TabView>::empty();
    lemma_one_leaf(0);
    lemma_tabs_insert(none, 0, fresh_tab(0));
    assert(none.insert(0, fresh_tab(0)) =~= s.tabs);
    assert(forall|p: PaneId| !shown(none, p));
    assert forall|p: PaneId| s.panes.contains_key(p) <==> #[trigger] shown(s.tabs, p) by {
        assert(shown(s.tabs, p) <==> shown(none, p) || holds(fresh_tab(0).root, p));
    }
}

/// Opening a tab keeps the invariant.
pub proof fn law_new_tab_wf(s: State, started: bool)
    requires
        wf(s),
        0 <= s.next_id <= u64::MAX,
    ensures
        wf(after_new_tab(s, started)),
{
    let t = after_new_tab(s, started);
    let id = s.next_id as PaneId;
    if started {
        lemma_one_leaf(id);
        assert(!s.panes.contains_key(id));
        lemma_tabs_insert(s.tabs, s.tabs.len() as int, fresh_tab(id));
        assert(s.tabs.insert(s.tabs.len() as int, fresh_tab(id)) =~= t.tabs);
        assert forall|p: PaneId| t.panes.contains_key(p) <==> #[trigger] shown(t.tabs, p) by {
            assert(shown(t.tabs, p) <==> shown(s.tabs, p) || holds(fresh_tab(id).root, p));
        }
    }
}

/// Splitting a pane keeps the invariant.
pub proof fn law_split_wf(s: State, axis: Axis, started: bool)
    requires
        wf(s),
        s.tabs.len() > 0,
        0 <= s.next_id <= u64::MAX,
    ensures
        wf(after_split(s, axis, started)),
{
    let t = after_split(s, axis, started);
    let id = s.next_id as PaneId;
    let tab = s.tabs[s.active];
    if started {
        lemma_one_leaf(id);
        assert(!s.panes.contains_key(id) && !shown(s.tabs, id));
        assert(tab_wf(tab));
        assert(!holds(tab.root, id));
        lemma_graft(tab.root, tab.focused, Node::Leaf(id), axis, true);
        let new = t.tabs[s.active];
        assert(tab_wf(new));
        assert forall|p: PaneId| #[trigger] holds(new.root, p) implies !shown(s.tabs, p) || holds(
            tab.root,
            p,
        ) by {}
        lemma_tabs_update(s.tabs, s.active, new);
        assert forall|p: PaneId| t.panes.contains_key(p) <==> #[trigger] shown(t.tabs, p) by {
            assert(t.tabs == s.tabs.update(s.active, new));
            assert(holds(new.root, p) <==> holds(tab.root, p) || p == id);
            if holds(tab.root, p) {
                assert(shown(s.tabs, p));
            }
        }
    }
}

/// Moving a tab in the strip keeps the invariant.
pub proof fn law_reorder_wf(s: State, src: int, to: int)
    requires
        wf(s),
        0 <= src,
        0 <= to,
    ensures
        wf(after_reorder(s, src, to)),
{
    let t = after_reorder(s, src, to);
    if let Some(at) = reorder_slot(s.tabs.len() as int, src, to) {
        let rest = s.tabs.remove(src);
        lemma_tabs_remove(s.tabs, src);
        lemma_tabs_insert(rest, at, s.tabs[src]);
        assert forall|p: PaneId| t.panes.contains_key(p) <==> #[trigger] shown(t.tabs, p) by {
            assert(shown(t.tabs, p) <==> shown(rest, p) || holds(s.tabs[src].root, p));
            if holds(s.tabs[src].root, p) {
                assert(shown(s.tabs, p));
            }
        }
    }
}

/// Merging a tab into a pane of another one keeps the invariant.
pub proof fn law_merge_wf(s: State, src: int, target: PaneId, axis: Axis, after: bool)
    requires
        wf(s),
        0 <= src,
    ensures
        wf(after_merge(s, src, target, axis, after)),
{
    let t = after_merge(s, src, target, axis, after);
    let to = owner(s.tabs, target);
    lemma_owner(s.tabs, target);
    if src < s.tabs.len() && to < s.tabs.len() && to != src {
        let rest = s.tabs.remove(src);
        let at = if src < to {
            to - 1
        } else {
            to
        };
        let gone = s.tabs[src];
        lemma_tabs_remove(s.tabs, src);
        assert(rest[at] == s.tabs[to]);
        assert(tab_wf(gone));
        assert(tab_wf(rest[at]));
        assert forall|q: PaneId| #[trigger] holds(rest[at].root, q) implies !holds(
            gone.root,
            q,
        ) by {
            assert(holds(s.tabs[to].root, q));
        }
        lemma_graft(rest[at].root, target, gone.root, axis, after);
        let new = t.tabs[at];
        assert(holds(gone.root, gone.focused));
        assert(tab_wf(new));
        assert forall|p: PaneId| #[trigger] holds(new.root, p) implies !shown(rest, p) || holds(
            rest[at].root,
            p,
        ) by {
            if holds(gone.root, p) {
                assert(!shown(rest, p));
            }
        }
        lemma_tabs_update(rest, at, new);
        assert forall|p: PaneId| t.panes.contains_key(p) <==> #[trigger] shown(t.tabs, p) by {
            assert(t.tabs == rest.update(at, new));
            assert(holds(new.root, p) <==> holds(rest[at].root, p) || holds(gone.root, p));
            if holds(rest[at].root, p) {
                assert(shown(rest, p));
            }
            if holds(gone.root, p) {
                assert(shown(s.tabs, p));
            }
        }
    }
}

/// Moving a pane within its tab keeps the invariant.
pub proof fn law_move_wf(s: State, src: PaneId, target: PaneId, axis: Axis, after: bool)
    requires
        wf(s),
        s.tabs.len() > 0,
    ensures
        wf(after_move(s, src, target, axis, after)),
{
    let t = after_move(s, src, target, axis, after);
    let tab = s.tabs[s.active];
    assert(tab_wf(tab));
    lemma_some_leaf(tab.root);
    if src != target && holds(tab.root, src) && holds(tab.root, target) && leaves(tab.root).len()
        > 1 {
        lemma_prune(tab.root, src);
        lemma_one_leaf(src);
        let rest = pruned(tab.root, src)->0;
        assert(holds(rest, target));
        assert(!holds(rest, src));
        lemma_graft(rest, target, Node::Leaf(src), axis, after);
        let new = t.tabs[s.active];
        assert(holds(new.root, src));
        assert(tab_wf(new));
        assert forall|p: PaneId| #[trigger] holds(new.root, p) <==> holds(tab.root, p) by {
            assert(holds(rest, p) <==> holds(tab.root, p) && p != src);
        }
        lemma_tabs_update(s.tabs, s.active, new);
        assert forall|p: PaneId| t.panes.contains_key(p) <==> #[trigger] shown(t.tabs, p) by {
            assert(t.tabs == s.tabs.update(s.active, new));
            assert(holds(new.root, p) <==> holds(tab.root, p));
            if holds(tab.root, p) {
                assert(shown(s.tabs, p));
            }
        }
    }
}

/// Tearing a pane out into a tab of its own keeps the invariant.
pub proof fn law_tear_wf(s: State, src: PaneId, insert_at: int)
    requires
        wf(s),
        s.tabs.len() > 0,
        0 <= insert_at,
    ensures
        wf(after_tear(s, src, insert_at)),
{
    let t = after_tear(s, src, insert_at);
    let tab = s.tabs[s.active];
    assert(tab_wf(tab));
    lemma_some_leaf(tab.root);
    if holds(tab.root, src) && leaves(tab.root).len() > 1 {
        let new = tab_without(tab, src, s.panes);
        lemma_tab_without(tab, src, s.panes);
        lemma_tabs_update(s.tabs, s.active, new);
        let rest = s.tabs.update(s.active, new);
        lemma_one_leaf(src);
        assert(!shown(rest, src)) by {
            assert(!holds(new.root, src));
        }
        assert forall|p: PaneId| #[trigger] holds(fresh_tab(src).root, p) implies !shown(
            rest,
            p,
        ) by {}
        lemma_tabs_insert(rest, t.active, fresh_tab(src));
        assert forall|p: PaneId| t.panes.contains_key(p) <==> #[trigger] shown(t.tabs, p) by {
            assert(shown(t.tabs, p) <==> shown(rest, p) || holds(fresh_tab(src).root, p));
            assert(holds(new.root, p) <==> holds(tab.root, p) && p != src);
            if holds(tab.root, p) {
                assert(shown(s.tabs, p));
            }
        }
    }
}

/// Closing a pane keeps the invariant.
pub proof fn law_close_pane_wf(s: State, pane: PaneId)
    requires
        wf(s),
    ensures
        wf(after_close_pane(s, pane)),
{
    let t = after_close_pane(s, pane);
    let ti = owner(s.tabs, pane);
    lemma_owner(s.tabs, pane);
    if s.panes.contains_key(pane) {
        assert(shown(s.tabs, pane));
        assert(ti < s.tabs.len());
        let tab = s.tabs[ti];
        assert(tab_wf(tab));
        lemma_some_leaf(tab.root);
        if leaves(tab.root).len() <= 1 {
            lemma_tabs_remove(s.tabs, ti);
            lemma_only_leaf(tab.root, pane);
            assert forall|p: PaneId| t.panes.contains_key(p) <==> #[trigger] shown(t.tabs, p) by {
                assert(shown(t.tabs, p) <==> shown(s.tabs, p) && !holds(tab.root, p));
            }
        } else {
            let new = tab_without(tab, pane, s.panes.remove(pane));
            lemma_tab_without(tab, pane, s.panes.remove(pane));
            lemma_tabs_update(s.tabs, ti, new);
            assert forall|p: PaneId| t.panes.contains_key(p) <==> #[trigger] shown(t.tabs, p) by {
                assert(t.tabs == s.tabs.update(ti, new));
                assert(holds(new.root, p) <==> holds(tab.root, p) && p != pane);
                if holds(tab.root, p) {
                    assert(shown(s.tabs, p));
                }
            }
        }
    }
}

proof fn lemma_only_leaf(n: Node, p: PaneId)
    requires
        holds(n, p),
        leaves(n).len() <= 1,
    ensures
        forall|q: PaneId| #[trigger] holds(n, q) <==> q == p,
{
}

proof fn lemma_without_panes(s: State, gone: Seq<PaneId>)
    ensures
        without_panes(s, gone).tabs == s.tabs,
        without_panes(s, gone).active == s.active,
        without_panes(s, gone).next_id == s.next_id,
        forall|p: PaneId| #[trigger]
            without_panes(s, gone).panes.contains_key(p) <==> s.panes.contains_key(p)
                && !gone.contains(p),
        without_panes(s, gone).search matches Some(f) ==> s.search == Some(f) && !gone.contains(
            f.pane,
        ),
    decreases gone.len(),
{
    if gone.len() > 0 {
        let init = gone.drop_last();
        lemma_without_panes(s, init);
        if let Some(f) = without_panes(s, gone).search {
            if gone.contains(f.pane) {
                let i = choose|i: int| 0 <= i < gone.len() && gone[i] == f.pane;
                assert(i < init.len() ==> init[i] == f.pane);
            }
        }
        assert forall|p: PaneId| #[trigger]
            without_panes(s, gone).panes.contains_key(p) <==> s.panes.contains_key(p)
                && !gone.contains(p) by {
            assert(gone.contains(p) <==> init.contains(p) || p == gone.last()) by {
                if gone.contains(p) {
                    let i = choose|i: int| 0 <= i < gone.len() && gone[i] == p;
                    if i < init.len() {
                        assert(init[i] == p);
                    }
                }
                if init.contains(p) {
                    let i = choose|i: int| 0 <= i < init.len() && init[i] == p;
                    assert(gone[i] == p);
                }
            }
            assert(without_panes(s, init).panes.contains_key(p) <==> s.panes.contains_key(p)
                && !init.contains(p));
        }
    }
}

/// Closing a tab keeps the invariant.
pub proof fn law_close_tab_wf(s: State, ti: int)
    requires
        wf(s),
        0 <= ti,
    ensures
        wf(after_close_tab(s, ti)),
{
    if ti < s.tabs.len() {
        let t = after_close_tab(s, ti);
        let gone = leaves(s.tabs[ti].root);
        lemma_without_panes(s, gone);
        lemma_tabs_remove(s.tabs, ti);
        assert forall|p: PaneId| t.panes.contains_key(p) <==> #[trigger] shown(t.tabs, p) by {
            assert(without_panes(s, gone).panes.contains_key(p) <==> s.panes.contains_key(p)
                && !gone.contains(p));
            assert(shown(s.tabs.remove(ti), p) <==> shown(s.tabs, p) && !holds(
                s.tabs[ti].root,
                p,
            ));
        }
        assert forall|p: PaneId| #[trigger] t.panes.contains_key(p) implies p < t.next_id by {
            assert(without_panes(s, gone).panes.contains_key(p));
        }
    }
}


/// Whether `s` and `t` have the same panes under the same titles, and show the same
/// ones.
pub open spec fn same_panes(s: State, t: State) -> bool {
    t.panes == s.panes && forall|p: PaneId| #[trigger] shown(t.tabs, p) <==> shown(s.tabs, p)
}

proof fn lemma_same_panes(s: State, t: State)
    requires
        wf(s),
        wf(t),
        t.panes == s.panes,
    ensures
        same_panes(s, t),
{
    assert forall|p: PaneId| #[trigger] shown(t.tabs, p) <==> shown(s.tabs, p) by {
        assert(t.panes.contains_key(p) <==> shown(t.tabs, p));
        assert(s.panes.contains_key(p) <==> shown(s.tabs, p));
    }
}

/// Moving a tab in the strip loses no pane and opens none, and leaves the number of
/// tabs.
pub proof fn law_reorder_keeps_panes(s: State, src: int, to: int)
    requires
        wf(s),
        0 <= src,
        0 <= to,
    ensures
        same_panes(s, after_reorder(s, src, to)),
        after_reorder(s, src, to).tabs.len() == s.tabs.len(),
{
    law_reorder_wf(s, src, to);
    lemma_same_panes(s, after_reorder(s, src, to));
}

/// Merging a tab loses no pane and opens none. There is one tab less, unless nothing
/// happened.
pub proof fn law_merge_keeps_panes(s: State, src: int, target: PaneId, axis: Axis, after: bool)
    requires
        wf(s),
        0 <= src,
    ensures
        same_panes(s, after_merge(s, src, target, axis, after)),
        after_merge(s, src, target, axis, after) == s || after_merge(
            s,
            src,
            target,
            axis,
            after,
        ).tabs.len() == s.tabs.len() - 1,
{
    law_merge_wf(s, src, target, axis, after);
    lemma_owner(s.tabs, target);
    lemma_same_panes(s, after_merge(s, src, target, axis, after));
}

/// Moving a pane within its tab loses no pane and opens none, and leaves the number
/// of tabs.
pub proof fn law_move_keeps_panes(s: State, src: PaneId, target: PaneId, axis: Axis, after: bool)
    requires
        wf(s),
        s.tabs.len() > 0,
    ensures
        same_panes(s, after_move(s, src, target, axis, after)),
        after_move(s, src, target, axis, after).tabs.len() == s.tabs.len(),
{
    law_move_wf(s, src, target, axis, after);
    lemma_same_panes(s, after_move(s, src, target, axis, after));
}

/// Tearing a pane out loses no pane and opens none. There is one tab more, unless
/// nothing happened.
pub proof fn law_tear_keeps_panes(s: State, src: PaneId, insert_at: int)
    requires
        wf(s),
        s.tabs.len() > 0,
        0 <= insert_at,
    ensures
        same_panes(s, after_tear(s, src, insert_at)),
        after_tear(s, src, insert_at) == s || after_tear(s, src, insert_at).tabs.len()
            == s.tabs.len() + 1,
{
    law_tear_wf(s, src, insert_at);
    lemma_same_panes(s, after_tear(s, src, insert_at));
}

/// A tab that is dropped in its own slot, before itself or behind itself, moves
/// nothing.
pub proof fn law_reorder_own_slot(s: State, src: int)
    requires
        0 <= src < s.tabs.len(),
    ensures
        after_reorder(s, src, src) == (State { active: src, ..s }),
        after_reorder(s, src, src + 1) == (State { active: src, ..s }),
{
}

/// A tab that is moved lands where the slot says: the tabs that were before the
/// slot are still before it, and the others behind it, all in their old order.
pub proof fn law_reorder_lands(s: State, src: int, to: int)
    requires
        0 <= src < s.tabs.len(),
        0 <= to <= s.tabs.len(),
    ensures
        to <= src ==> after_reorder(s, src, to).tabs == s.tabs.take(to).push(s.tabs[src])
            + s.tabs.subrange(to, src) + s.tabs.skip(src + 1),
        to > src ==> after_reorder(s, src, to).tabs == s.tabs.take(src) + s.tabs.subrange(
            src + 1,
            to,
        ).push(s.tabs[src]) + s.tabs.skip(to),
        after_reorder(s, src, to).tabs[after_reorder(s, src, to).active] == s.tabs[src],
{
    let t = after_reorder(s, src, to);
    if to <= src {
        assert(t.tabs =~= s.tabs.take(to).push(s.tabs[src]) + s.tabs.subrange(to, src)
            + s.tabs.skip(src + 1));
    } else {
        assert(t.tabs =~= s.tabs.take(src) + s.tabs.subrange(src + 1, to).push(s.tabs[src])
            + s.tabs.skip(to));
    }
}

/// A tab that is moved and moved back leaves the strip as it was.
pub proof fn law_reorder_back(s: State, src: int, to: int)
    requires
        0 <= src < s.tabs.len(),
        0 <= to,
    ensures
        ({
            let t = after_reorder(s, src, to);
            let back = if t.active > src {
                src
            } else {
                src + 1
            };
            after_reorder(t, t.active, back).tabs == s.tabs
        }),
{
    let t = after_reorder(s, src, to);
    let back = if t.active > src {
        src
    } else {
        src + 1
    };
    assert(after_reorder(t, t.active, back).tabs =~= s.tabs);
}

proof fn lemma_heir_of_split(n: Node, target: PaneId, new: PaneId, axis: Axis)
    requires
        holds(n, target),
        !holds(n, new),
    ensures
        heir(grafted(n, target, Node::Leaf(new), axis, true), new) == Some(target),
    decreases n,
{
    let leaf = Node::Leaf(new);
    assert(leaves(leaf)[0] == new);
    let g = grafted(n, target, leaf, axis, true);
    match n {
        Node::Leaf(p) => {
            assert(leaves(n)[0] == p);
            assert(n != leaf);
        },
        Node::Split { first, second, .. } => {
            let a = leaves(*first);
            let b = leaves(*second);
            lemma_place_concat(a, b, target);
            lemma_place_concat(a, b, new);
            assert(*first != leaf && *second != leaf);
            if holds(*first, target) {
                lemma_heir_of_split(*first, target, new, axis);
                lemma_graft(*first, target, leaf, axis, true);
                let f = grafted(*first, target, leaf, axis, true);
                assert(holds(f, new) && holds(f, target));
                lemma_one_leaf(new);
                assert(f != leaf);
            } else {
                lemma_heir_of_split(*second, target, new, axis);
                lemma_graft(*second, target, leaf, axis, true);
                let f = grafted(*second, target, leaf, axis, true);
                assert(holds(f, new) && holds(f, target));
                lemma_one_leaf(new);
                assert(f != leaf);
            }
        },
    }
}

/// Closing a pane that a split has just opened gives back everything as it was, the
/// focus included. Only its id is not used again.
pub proof fn law_split_then_close_pane(s: State, axis: Axis)
    requires
        wf(s),
        s.tabs.len() > 0,
        0 <= s.next_id <= u64::MAX,
    ensures
        after_close_pane(after_split(s, axis, true), s.next_id as PaneId) == (State {
            next_id: s.next_id + 1,
            ..s
        }),
{
    let id = s.next_id as PaneId;
    let t = after_split(s, axis, true);
    let tab = s.tabs[s.active];
    law_split_wf(s, axis, true);
    assert(!s.panes.contains_key(id) && !shown(s.tabs, id));
    assert(tab_wf(tab));
    assert(!holds(tab.root, id));
    law_split_then_close(tab.root, tab.focused, id, axis, true);
    lemma_heir_of_split(tab.root, tab.focused, id, axis);
    let new = t.tabs[s.active];
    lemma_owner_is(t.tabs, s.active, id);
    assert(shown(s.tabs, tab.focused));
    assert(s.panes.contains_key(tab.focused));
    assert(t.panes.remove(id) =~= s.panes);
    law_prune_order(new.root, id);
    lemma_some_leaf(new.root);
    assert(pruned(new.root, id) is Some);
    assert(tab_without(new, id, s.panes) == tab);
    assert(t.tabs.update(s.active, tab) =~= s.tabs);
}

/// Closing a pane that was closed before does nothing.
pub proof fn law_close_twice(s: State, pane: PaneId)
    ensures
        after_close_pane(after_close_pane(s, pane), pane) == after_close_pane(s, pane),
        !close_pane_ends(after_close_pane(s, pane), pane),
{
    assert(!after_close_pane(s, pane).panes.contains_key(pane));
}

/// Closing a pane takes that pane and no other, and leaves the titles of the
/// others.
pub proof fn law_close_pane_takes_one(s: State, pane: PaneId)
    ensures
        after_close_pane(s, pane).panes == s.panes.remove(pane),
{
    if !s.panes.contains_key(pane) {
        assert(s.panes.remove(pane) =~= s.panes);
    }
}

/// The window closes with the last tab, and only then: that a close ends the session
/// is to say that it leaves no tab.
pub proof fn law_close_ends_with_last_tab(s: State, pane: PaneId, ti: int)
    requires
        wf(s),
        s.tabs.len() > 0,
        0 <= ti < s.tabs.len(),
    ensures
        close_pane_ends(s, pane) <==> after_close_pane(s, pane).tabs.len() == 0,
        s.tabs.len() == 1 <==> after_close_tab(s, ti).tabs.len() == 0,
{
    lemma_owner(s.tabs, pane);
    lemma_without_panes(s, leaves(s.tabs[ti].root));
    lemma_some_leaf(s.tabs[ti].root);
    if s.panes.contains_key(pane) {
        assert(shown(s.tabs, pane));
    }
}

/// A close does not touch the other tabs, nor their order. The active tab stays
/// active unless it is the one that went.
pub proof fn law_close_keeps_other_tabs(s: State, ti: int)
    requires
        wf(s),
        0 <= ti < s.tabs.len(),
        s.tabs.len() > 1,
    ensures
        after_close_tab(s, ti).tabs == s.tabs.remove(ti),
        ti != s.active ==> after_close_tab(s, ti).tabs[after_close_tab(s, ti).active]
            == s.tabs[s.active],
{
    lemma_without_panes(s, leaves(s.tabs[ti].root));
}

/// The state in which tab `i` is `tab` instead, with the same panes.
proof fn lemma_retouched(s: State, i: int, tab: TabView, t: State)
    requires
        wf(s),
        0 <= i < s.tabs.len(),
        leaves(tab.root) == leaves(s.tabs[i].root),
        holds(tab.root, tab.focused),
        t.tabs == s.tabs.update(i, tab),
        t.panes == s.panes,
        t.next_id == s.next_id,
        t.active == s.active,
        t.search == s.search,
    ensures
        wf(t),
{
    assert(tab_wf(s.tabs[i]));
    assert forall|p: PaneId| #[trigger] holds(tab.root, p) <==> holds(s.tabs[i].root, p) by {}
    lemma_tabs_update(s.tabs, i, tab);
    assert forall|p: PaneId| t.panes.contains_key(p) <==> #[trigger] shown(t.tabs, p) by {
        if holds(s.tabs[i].root, p) {
            assert(shown(s.tabs, p));
        }
        assert(holds(tab.root, p) <==> holds(s.tabs[i].root, p));
    }
}

/// Focusing a pane of the active tab keeps the invariant.
pub proof fn law_focus_wf(s: State, pane: PaneId)
    requires
        wf(s),
        s.tabs.len() > 0,
        holds(s.tabs[s.active].root, pane),
    ensures
        wf(with_focus(s, pane)),
{
    let tab = TabView { focused: pane, ..s.tabs[s.active] };
    lemma_retouched(s, s.active, tab, with_focus(s, pane));
}

/// Carrying out a shortcut keeps the invariant, whether or not a terminal came up,
/// and wherever in the active tab the neighbouring pane is.
pub proof fn law_command_wf(s: State, command: Command, started: bool, neighbor: Option<PaneId>)
    requires
        wf(s),
        0 <= s.next_id,
        command_fits(s, command),
        neighbor matches Some(p) ==> holds(s.tabs[s.active].root, p),
    ensures
        wf(after_command(s, command, started, neighbor)),
{
    match command {
        Command::NewTab => law_new_tab_wf(s, started),
        Command::SelectTab(_) => {},
        Command::FocusPane(i) => {
            let order = leaves(s.tabs[s.active].root);
            if i < order.len() {
                assert(order.contains(order[i as int]));
                law_focus_wf(s, order[i as int]);
            }
        },
        Command::Split(axis) => law_split_wf(s, axis, started),
        Command::ClosePane => law_close_pane_wf(s, s.tabs[s.active].focused),
        Command::Clear => {},
        Command::Find => {
            let tab = s.tabs[s.active];
            assert(tab_wf(tab));
            assert(shown(s.tabs, tab.focused));
        },
        Command::Move(_) => {
            if let Some(p) = neighbor {
                law_focus_wf(s, p);
            }
        },
    }
}

/// Closing panes one after the other keeps the invariant.
pub proof fn law_close_panes_wf(s: State, panes: Seq<PaneId>)
    requires
        wf(s),
    ensures
        wf(after_close_panes(s, panes)),
    decreases panes.len(),
{
    if panes.len() > 0 {
        law_close_panes_wf(s, panes.drop_last());
        law_close_pane_wf(after_close_panes(s, panes.drop_last()), panes.last());
    }
}

/// Taking in what the terminals report keeps the invariant. It touches no tab, only
/// titles.
pub proof fn law_reports_wf(s: State, events: Seq<(PaneId, PtyEventView)>)
    requires
        wf(s),
    ensures
        wf(reported(s, events).state),
        reported(s, events).state.tabs == s.tabs,
        reported(s, events).state.panes.dom() == s.panes.dom(),
        wf(after_close_panes(reported(s, events).state, reported(s, events).ended)),
    decreases events.len(),
{
    if events.len() > 0 {
        law_reports_wf(s, events.drop_last());
        let r = reported(s, events.drop_last());
        let (id, e) = events.last();
        let t = after_report(r.state, id, e);
        assert(t.panes.dom() =~= r.state.panes.dom());
        assert forall|p: PaneId| t.panes.contains_key(p) <==> #[trigger] shown(t.tabs, p) by {
            assert(t.panes.contains_key(p) <==> r.state.panes.contains_key(p));
        }
        assert(wf(t));
    }
    law_close_panes_wf(reported(s, events).state, reported(s, events).ended);
}

/// Carrying out what the strip asks for keeps the invariant.
pub proof fn law_strip_wf(s: State, input: StripInputView)
    requires
        wf(s),
        s.tabs.len() > 0,
        0 <= s.next_id <= u64::MAX,
        input.front matches Some(i) ==> i < s.tabs.len(),
    ensures
        wf(after_strip(s, input)),
{
    let a = after_open_new(s, input.open_new);
    if let Some(started) = input.open_new {
        law_new_tab_wf(s, started);
    }
    let b = after_color(a, input.color);
    if let Some((i, color)) = input.color {
        if i < a.tabs.len() {
            assert(tab_wf(a.tabs[i as int]));
            lemma_retouched(a, i as int, TabView { color, ..a.tabs[i as int] }, b);
        }
    }
    assert(wf(b) && b.tabs.len() >= s.tabs.len());
    match (input.close, input.dropped, input.front) {
        (Some(ti), _, _) => law_close_tab_wf(b, ti as int),
        (None, Some(StripDrop::Pane { pane, to }), _) => law_tear_wf(b, pane, to as int),
        (None, Some(StripDrop::Tab { src, to }), _) => law_reorder_wf(b, src as int, to as int),
        _ => {},
    }
    let c = after_strip_action(b, input);
    assert(wf(c));
}

/// Carrying out what the panes ask for keeps the invariant.
pub proof fn law_panes_wf(s: State, input: PanesInputView)
    requires
        wf(s),
        s.tabs.len() > 0,
        clicked_pane(input.gestures) matches Some(p) ==> holds(s.tabs[s.active].root, p),
    ensures
        wf(after_panes(s, input)),
{
    let a = after_grip(s, input);
    assert(wf(a));
    let clicked = clicked_pane(input.gestures);
    let b = after_click(a, clicked);
    if let Some(p) = clicked {
        law_focus_wf(a, p);
        assert(b.tabs == with_focus(a, p).tabs);
    }
    assert(wf(b));
    let c = after_ratios(b, input.ratios);
    law_ratios_keep_panes(b.tabs[b.active].root, input.ratios);
    assert(tab_wf(b.tabs[b.active]));
    lemma_retouched(b, b.active, c.tabs[b.active], c);
    let d = after_merged(c, input.merged);
    if let Some((src, at)) = input.merged {
        law_merge_wf(c, src as int, at.target, at.axis, at.after);
        lemma_owner(c.tabs, at.target);
    }
    assert(wf(d) && d.tabs.len() > 0);
    if let Some((src, at)) = input.moved {
        law_move_wf(d, src, at.target, at.axis, at.after);
    }
    let e = before_close(s, input);
    assert(e == after_moved(d, input.moved));
    if let Some(p) = closed_pane(input.gestures) {
        law_close_pane_wf(e, p);
    }
}

/// Deciding the dialogs keeps the invariant.
pub proof fn law_dialogs_wf(s: State, choice: Option<bool>)
    requires
        wf(s),
    ensures
        wf(after_rename(s, choice)),
        wf(after_close_request(s)),
        wf(after_quit(s, choice)),
{
    let t = after_rename(s, choice);
    if let (Some(e), Some(confirm)) = (s.editing, choice) {
        if confirm && e.idx < s.tabs.len() {
            assert(tab_wf(s.tabs[e.idx as int]));
            lemma_retouched(s, e.idx as int, t.tabs[e.idx as int], t);
        }
    }
}

proof fn lemma_without_panes_front(s: State, p: PaneId, rest: Seq<PaneId>)
    ensures
        without_panes(s, seq![p] + rest) == without_panes(
            State { search: search_without(s.search, p), panes: s.panes.remove(p), ..s },
            rest,
        ),
    decreases rest.len(),
{
    let all = seq![p] + rest;
    let t = State { search: search_without(s.search, p), panes: s.panes.remove(p), ..s };
    if rest.len() == 0 {
        assert(all.drop_last() =~= Seq::<PaneId>::empty());
        assert(all.last() == p);
        assert(without_panes(s, all.drop_last()) == s);
    } else {
        assert(all.drop_last() =~= seq![p] + rest.drop_last());
        assert(all.last() == rest.last());
        lemma_without_panes_front(s, p, rest.drop_last());
    }
}

proof fn lemma_close_panes_front(s: State, p: PaneId, rest: Seq<PaneId>)
    ensures
        after_close_panes(s, seq![p] + rest) == after_close_panes(after_close_pane(s, p), rest),
    decreases rest.len(),
{
    let all = seq![p] + rest;
    if rest.len() == 0 {
        assert(all.drop_last() =~= Seq::<PaneId>::empty());
        assert(all.last() == p);
        assert(after_close_panes(s, all.drop_last()) == s);
    } else {
        assert(all.drop_last() =~= seq![p] + rest.drop_last());
        assert(all.last() == rest.last());
        lemma_close_panes_front(s, p, rest.drop_last());
    }
}

/// Closing a tab is closing its panes one after the other.
pub proof fn law_close_tab_is_closing_panes(s: State, ti: int)
    requires
        wf(s),
        0 <= ti < s.tabs.len(),
    ensures
        after_close_panes(s, leaves(s.tabs[ti].root)) == after_close_tab(s, ti),
    decreases leaves(s.tabs[ti].root).len(),
{
    let tab = s.tabs[ti];
    let order = leaves(tab.root);
    lemma_some_leaf(tab.root);
    let p = order[0];
    let rest = order.drop_first();
    assert(order =~= seq![p] + rest);
    assert(tab_wf(tab));
    assert(holds(tab.root, p));
    assert(shown(s.tabs, p));
    lemma_owner_is(s.tabs, ti, p);
    lemma_close_panes_front(s, p, rest);
    lemma_without_panes_front(s, p, rest);
    let gone = State { search: search_without(s.search, p), panes: s.panes.remove(p), ..s };
    if order.len() == 1 {
        assert(rest =~= Seq::<PaneId>::empty());
        assert(after_close_pane(s, p) == without_tab(gone, ti));
        assert(without_panes(gone, rest) == gone);
    } else {
        let t = after_close_pane(s, p);
        law_close_pane_wf(s, p);
        law_prune_order(tab.root, p);
        lemma_place(order, p);
        assert(crate::layout::place(order, p) == 0);
        let new = t.tabs[ti];
        assert(leaves(new.root) == order.remove(0));
        assert(order.remove(0) =~= rest);
        law_close_tab_is_closing_panes(t, ti);
        lemma_without_panes(gone, rest);
        lemma_without_panes(t, rest);
        lemma_same_removal(gone, t, rest);
        let x = without_panes(t, rest);
        let y = without_panes(gone, rest);
        assert(x.tabs.remove(ti) =~= y.tabs.remove(ti));
        assert(without_tab(x, ti) == without_tab(y, ti));
    }
}

/// Taking panes away does not depend on the tabs.
proof fn lemma_same_removal(a: State, b: State, gone: Seq<PaneId>)
    requires
        b == (State { tabs: b.tabs, ..a }),
    ensures
        without_panes(b, gone) == (State { tabs: b.tabs, ..without_panes(a, gone) }),
    decreases gone.len(),
{
    if gone.len() > 0 {
        lemma_same_removal(a, b, gone.drop_last());
    }
}

/// A search goes with its pane: no operation leaves one in a pane that is gone, and
/// closing another pane leaves it.
pub proof fn law_search_goes_with_pane(s: State, pane: PaneId)
    requires
        wf(s),
    ensures
        s.search matches Some(f) ==> {
            if f.pane == pane {
                after_close_pane(s, pane).search is None
            } else {
                after_close_pane(s, pane).search == s.search
            }
        },
{
}

/// A new tab carries nothing over: it has neither a name nor a colour, and it is in
/// front of tabs that are as they were.
pub proof fn law_new_tab_is_plain(s: State)
    requires
        0 <= s.next_id <= u64::MAX,
    ensures
        after_new_tab(s, true).tabs.drop_last() == s.tabs,
        after_new_tab(s, true).tabs.last().name is None,
        after_new_tab(s, true).tabs.last().color is None,
        after_new_tab(s, true).active == s.tabs.len(),
{
    assert(after_new_tab(s, true).tabs.drop_last() =~= s.tabs);
}

/// A terminal that does not come up opens nothing. Only its id is used up.
pub proof fn law_failed_start(s: State, axis: Axis)
    ensures
        after_new_tab(s, false) == (State { next_id: s.next_id + 1, ..s }),
        after_split(s, axis, false) == (State { next_id: s.next_id + 1, ..s }),
{
}

/// Merging a tab of one pane into another tab and tearing that pane out again gives
/// back the other tab's layout, and leaves all the remaining tabs as they were.
pub proof fn law_merge_then_tear(
    s: State,
    src: int,
    pane: PaneId,
    target: PaneId,
    axis: Axis,
    after: bool,
    slot: int,
)
    requires
        wf(s),
        0 <= src < s.tabs.len(),
        s.tabs[src].root == Node::Leaf(pane),
        shown(s.tabs, target),
        target != pane,
        0 <= slot < s.tabs.len(),
    ensures
        ({
            let merged = after_merge(s, src, target, axis, after);
            let torn = after_tear(merged, pane, slot);
            let rest = s.tabs.remove(src);
            &&& torn.tabs.len() == s.tabs.len()
            &&& torn.tabs[slot] == fresh_tab(pane)
            &&& torn.tabs.remove(slot)[merged.active].root == rest[merged.active].root
            &&& forall|i: int|
                0 <= i < rest.len() && i != merged.active ==> #[trigger] torn.tabs.remove(slot)[i]
                    == rest[i]
        }),
{
    let merged = after_merge(s, src, target, axis, after);
    let torn = after_tear(merged, pane, slot);
    let rest = s.tabs.remove(src);
    let to = owner(s.tabs, target);
    lemma_owner(s.tabs, target);
    lemma_one_leaf(pane);
    assert(to < s.tabs.len() && to != src);
    let at = merged.active;
    assert(rest[at] == s.tabs[to]);
    assert(holds(s.tabs[src].root, pane));
    assert(!holds(rest[at].root, pane));
    law_split_then_close(rest[at].root, target, pane, axis, after);
    let tab = merged.tabs[at];
    law_prune_order(tab.root, pane);
    lemma_some_leaf(tab.root);
    assert(leaves(tab.root).len() > 1);
    let new = tab_without(tab, pane, merged.panes);
    assert(new.root == rest[at].root);
    assert(torn.tabs == merged.tabs.update(at, new).insert(slot, fresh_tab(pane)));
    assert(torn.tabs.remove(slot) =~= merged.tabs.update(at, new));
}

} // verus!
