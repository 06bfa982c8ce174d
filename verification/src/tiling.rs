//! What a layout looks like from its panes: for each two of them, the border between
//! them. This is all there is to a layout, and it says what splitting, closing and
//! dragging a border do to it.

use vstd::prelude::*;

use crate::layout::{
    grafted, heir, holds, leaves, lemma_place_concat, lemma_some_leaf, pruned, splits, with_ratio,
    Axis, Node, PaneId, Ratio,
};
use crate::laws::lemma_no_dup_concat;

verus! {

/// Whether pane `p` is one of a tree.
pub open spec fn within(n: Node, p: PaneId) -> bool
    decreases n,
{
    match n {
        Node::Leaf(q) => p == q,
        Node::Split { first, second, .. } => within(*first, p) || within(*second, p),
    }
}

/// The border between two panes: how it runs, how it divides its area, and whether the
/// first of the two panes is on its first side, which is the left or the upper one.
#[verifier::ext_equal]
pub struct Border {
    pub axis: Axis,
    pub ratio: Ratio,
    pub first: bool,
}

/// The border between the panes `p` and `q` of a tree: that of the smallest split that
/// has both.
pub open spec fn border(n: Node, p: PaneId, q: PaneId) -> Option<Border>
    decreases n,
{
    match n {
        Node::Leaf(_) => None,
        Node::Split { axis, ratio, first, second } => if within(*first, p) && within(*second, q) {
            Some(Border { axis, ratio, first: true })
        } else if within(*second, p) && within(*first, q) {
            Some(Border { axis, ratio, first: false })
        } else if within(*first, p) {
            border(*first, p, q)
        } else {
            border(*second, p, q)
        },
    }
}

/// The number of the split whose border is between two panes: splits are counted from the
/// outside in, and those of a first side before those of the second.
pub open spec fn border_number(n: Node, p: PaneId, q: PaneId) -> int
    decreases n,
{
    match n {
        Node::Leaf(_) => 0,
        Node::Split { first, second, .. } => if within(*first, p) && within(*first, q) {
            1 + border_number(*first, p, q)
        } else if within(*second, p) && within(*second, q) {
            1 + splits(*first) + border_number(*second, p, q)
        } else {
            0
        },
    }
}

/// The smallest part of a tree that has both panes.
pub open spec fn common_part(n: Node, p: PaneId, q: PaneId) -> Node
    decreases n,
{
    match n {
        Node::Leaf(_) => n,
        Node::Split { first, second, .. } => if within(*first, p) && within(*first, q) {
            common_part(*first, p, q)
        } else if within(*second, p) && within(*second, q) {
            common_part(*second, p, q)
        } else {
            n
        },
    }
}

/// Whether two trees have no pane in common.
pub open spec fn apart(n: Node, m: Node) -> bool {
    forall|p: PaneId| !(#[trigger] within(n, p) && within(m, p))
}

/// The panes that are listed are those of the tree.
pub proof fn law_leaves_are_panes(n: Node, p: PaneId)
    ensures
        leaves(n).contains(p) <==> within(n, p),
        holds(n, p) <==> within(n, p),
    decreases n,
{
    match n {
        Node::Leaf(q) => {
            assert(leaves(n)[0] == q);
        },
        Node::Split { first, second, .. } => {
            law_leaves_are_panes(*first, p);
            law_leaves_are_panes(*second, p);
            lemma_place_concat(leaves(*first), leaves(*second), p);
        },
    }
}

/// The sides of a split show no pane twice, and none in common.
proof fn lemma_sides(n: Node)
    requires
        n is Split,
        leaves(n).no_duplicates(),
    ensures
        leaves(*n->first).no_duplicates(),
        leaves(*n->second).no_duplicates(),
        apart(*n->first, *n->second),
{
    let (a, b) = (leaves(*n->first), leaves(*n->second));
    lemma_no_dup_concat(a, b);
    assert forall|p: PaneId| !(#[trigger] within(*n->first, p) && within(*n->second, p)) by {
        law_leaves_are_panes(*n->first, p);
        law_leaves_are_panes(*n->second, p);
        if within(*n->first, p) {
            assert(a.contains(p));
        }
    }
}

/// Panes are listed as they are tiled: of any two, the one that is listed first is on the
/// first side of the border between them.
pub proof fn law_listed_as_tiled(n: Node, i: int, j: int)
    requires
        leaves(n).no_duplicates(),
        0 <= i < j < leaves(n).len(),
    ensures
        border(n, leaves(n)[i], leaves(n)[j]) is Some,
        border(n, leaves(n)[i], leaves(n)[j])->0.first,
    decreases n,
{
    let (p, q) = (leaves(n)[i], leaves(n)[j]);
    match n {
        Node::Leaf(_) => {},
        Node::Split { first, second, .. } => {
            lemma_sides(n);
            let (a, b) = (leaves(*first), leaves(*second));
            law_leaves_are_panes(*first, p);
            law_leaves_are_panes(*second, p);
            law_leaves_are_panes(*first, q);
            law_leaves_are_panes(*second, q);
            if j < a.len() {
                assert(a[i] == p && a[j] == q);
                law_listed_as_tiled(*first, i, j);
            } else if i >= a.len() {
                assert(b[i - a.len()] == p && b[j - a.len()] == q);
                law_listed_as_tiled(*second, i - a.len(), j - a.len());
            } else {
                assert(a[i] == p && b[j - a.len()] == q);
            }
        },
    }
}

/// Between two different panes of a tree there is a border, and it is the same from either
/// side.
pub proof fn law_one_border(n: Node, p: PaneId, q: PaneId)
    requires
        leaves(n).no_duplicates(),
        within(n, p),
        within(n, q),
        p != q,
    ensures
        border(n, p, q) is Some,
        border(n, q, p) == Some(Border { first: !border(n, p, q)->0.first, ..border(n, p, q)->0 }),
    decreases n,
{
    match n {
        Node::Leaf(_) => {},
        Node::Split { first, second, .. } => {
            lemma_sides(n);
            assert(!(within(*first, p) && within(*second, p)));
            assert(!(within(*first, q) && within(*second, q)));
            if within(*first, p) && within(*first, q) {
                law_one_border(*first, p, q);
            } else if within(*second, p) && within(*second, q) {
                law_one_border(*second, p, q);
            }
        },
    }
}

/// A border that is made in a split runs the way that was asked for and divides its area
/// in two halves: the pane that makes room is on its first side when `after`, and all that
/// comes in is on the other. Every border that was there stays as it is, and so do those
/// inside what comes in; the rest of the panes see what comes in where they saw the pane
/// that made room.
pub proof fn law_split_borders(
    n: Node,
    target: PaneId,
    new: Node,
    axis: Axis,
    after: bool,
    p: PaneId,
    q: PaneId,
)
    requires
        leaves(n).no_duplicates(),
        leaves(new).no_duplicates(),
        within(n, target),
        apart(n, new),
    ensures
        ({
            let g = grafted(n, target, new, axis, after);
            &&& within(g, p) <==> within(n, p) || within(new, p)
            &&& within(n, p) && within(n, q) ==> border(g, p, q) == border(n, p, q)
            &&& within(new, p) && within(new, q) ==> border(g, p, q) == border(new, p, q)
            &&& within(new, q) ==> border(g, target, q) == Some(
                Border { axis, ratio: Ratio { bits: 0x3f00_0000 }, first: after },
            )
            &&& within(n, p) && p != target && within(new, q) ==> border(g, p, q) == border(
                n,
                p,
                target,
            )
        }),
    decreases n,
{
    let g = grafted(n, target, new, axis, after);
    assert(!(within(n, p) && within(new, p)));
    assert(!(within(n, q) && within(new, q)));
    assert(!(within(n, target) && within(new, target)));
    match n {
        Node::Leaf(_) => {
            if within(new, p) && within(new, q) {
                assert(border(g, p, q) == border(new, p, q));
            }
        },
        Node::Split { first, second, .. } => {
            lemma_sides(n);
            assert(!(within(*first, p) && within(*second, p)));
            assert(!(within(*first, q) && within(*second, q)));
            assert(!(within(*first, target) && within(*second, target)));
            law_leaves_are_panes(*first, target);
            let side = if within(*first, target) {
                *first
            } else {
                *second
            };
            assert forall|r: PaneId| !(#[trigger] within(side, r) && within(new, r)) by {
                assert(!(within(n, r) && within(new, r)));
            }
            law_split_borders(side, target, new, axis, after, p, q);
            law_split_borders(side, target, new, axis, after, q, p);
            law_split_borders(side, target, new, axis, after, target, q);
        },
    }
}

/// Taking a pane out leaves every border between the others as it is.
pub proof fn law_close_borders(n: Node, gone: PaneId, p: PaneId, q: PaneId)
    requires
        leaves(n).no_duplicates(),
        within(n, gone),
        n is Split,
    ensures
        pruned(n, gone) is Some,
        within(pruned(n, gone)->0, p) <==> within(n, p) && p != gone,
        p != gone && q != gone && within(n, p) && within(n, q) ==> border(
            pruned(n, gone)->0,
            p,
            q,
        ) == border(n, p, q),
    decreases n,
{
    lemma_sides(n);
    let (first, second) = (*n->first, *n->second);
    assert(!(within(first, p) && within(second, p)));
    assert(!(within(first, q) && within(second, q)));
    assert(!(within(first, gone) && within(second, gone)));
    law_leaves_are_panes(first, gone);
    let side = if within(first, gone) {
        first
    } else {
        second
    };
    if side is Split {
        law_close_borders(side, gone, p, q);
        law_close_borders(side, gone, q, p);
        let rest = pruned(n, gone)->0;
        let kept = pruned(side, gone)->0;
        if within(first, gone) {
            assert(*rest->first == kept && *rest->second == second);
        } else {
            assert(*rest->first == first && *rest->second == kept);
        }
    } else {
        match side {
            Node::Leaf(r) => {
                assert(within(side, gone));
                assert(r == gone);
            },
            Node::Split { .. } => {},
        }
        assert(pruned(side, gone) is None);
        if within(first, gone) {
            assert(within(first, p) <==> p == gone);
            assert(within(first, q) <==> q == gone);
        } else {
            assert(within(second, p) <==> p == gone);
            assert(within(second, q) <==> q == gone);
        }
    }
}

/// Dragging the border of split number `k` moves that border and no other: it is the one
/// with that number that gets the new ratio, and none runs another way or has its panes on
/// other sides.
pub proof fn law_drag_borders(n: Node, k: nat, r: Ratio, p: PaneId, q: PaneId)
    requires
        leaves(n).no_duplicates(),
        within(n, p),
        within(n, q),
        p != q,
    ensures
        within(with_ratio(n, k, r), p),
        within(with_ratio(n, k, r), q),
        border(with_ratio(n, k, r), p, q) == Some(
            Border {
                ratio: if border_number(n, p, q) == k {
                    r
                } else {
                    border(n, p, q)->0.ratio
                },
                ..border(n, p, q)->0
            },
        ),
        0 <= border_number(n, p, q) < splits(n),
    decreases n,
{
    match n {
        Node::Leaf(_) => {},
        Node::Split { first, second, .. } => {
            lemma_sides(n);
            assert(!(within(*first, p) && within(*second, p)));
            assert(!(within(*first, q) && within(*second, q)));
            if k > 0 && k <= splits(*first) {
                lemma_drag_within(*first, (k - 1) as nat, r, p);
                lemma_drag_within(*first, (k - 1) as nat, r, q);
            } else if k > 0 {
                lemma_drag_within(*second, (k - 1 - splits(*first)) as nat, r, p);
                lemma_drag_within(*second, (k - 1 - splits(*first)) as nat, r, q);
            }
            if within(*first, p) && within(*first, q) {
                if k > 0 {
                    law_drag_borders(*first, (k - 1) as nat, r, p, q);
                } else {
                    law_drag_borders(*first, 0, r, p, q);
                    law_one_border(*first, p, q);
                }
                law_one_border(*first, p, q);
            } else if within(*second, p) && within(*second, q) {
                if k > splits(*first) {
                    law_drag_borders(*second, (k - 1 - splits(*first)) as nat, r, p, q);
                } else {
                    law_drag_borders(*second, 0, r, p, q);
                }
                law_one_border(*second, p, q);
            }
        },
    }
}

proof fn lemma_drag_within(n: Node, k: nat, r: Ratio, p: PaneId)
    ensures
        within(with_ratio(n, k, r), p) <==> within(n, p),
    decreases n,
{
    match n {
        Node::Leaf(_) => {},
        Node::Split { first, second, .. } => {
            if k > 0 && k <= splits(*first) {
                lemma_drag_within(*first, (k - 1) as nat, r, p);
            } else if k > 0 {
                lemma_drag_within(*second, (k - 1 - splits(*first)) as nat, r, p);
            }
        },
    }
}

/// The pane that takes over from another is the first one of those that share its split:
/// the smallest part of the tree with both is that pane and its neighbours, and the heir is
/// the first of these.
pub proof fn law_heir_is_next_to(n: Node, p: PaneId)
    requires
        leaves(n).no_duplicates(),
        within(n, p),
        n is Split,
    ensures
        heir(n, p) is Some,
        ({
            let part = common_part(n, p, heir(n, p)->0);
            &&& part is Split
            &&& (*part->first == Node::Leaf(p) && heir(n, p)->0 == leaves(*part->second)[0]) || (
            *part->second == Node::Leaf(p) && heir(n, p)->0 == leaves(*part->first)[0])
        }),
    decreases n,
{
    lemma_sides(n);
    let (first, second) = (*n->first, *n->second);
    lemma_some_leaf(first);
    lemma_some_leaf(second);
    let (a, b) = (leaves(first)[0], leaves(second)[0]);
    assert(leaves(first).contains(a) && leaves(second).contains(b));
    law_leaves_are_panes(first, a);
    law_leaves_are_panes(second, b);
    law_leaves_are_panes(first, p);
    assert(!(within(first, p) && within(second, p)));
    assert(!(within(first, a) && within(second, a)));
    assert(!(within(first, b) && within(second, b)));
    if first == Node::Leaf(p) || second == Node::Leaf(p) {
    } else if within(first, p) {
        law_heir_is_next_to(first, p);
        lemma_heir_within(first, p);
    } else {
        law_heir_is_next_to(second, p);
        lemma_heir_within(second, p);
    }
}

proof fn lemma_heir_within(n: Node, p: PaneId)
    requires
        leaves(n).no_duplicates(),
        within(n, p),
        n is Split,
    ensures
        heir(n, p) is Some,
        within(n, heir(n, p)->0),
{
    law_leaves_are_panes(n, p);
    crate::layout::law_heir(n, p);
    lemma_some_leaf(*n->first);
    lemma_some_leaf(*n->second);
    law_leaves_are_panes(n, heir(n, p)->0);
}

/// A tree without a pane stays as it is where something is to be put beside that pane, or where
/// that pane is to be taken out; and one with fewer splits where the ratio of another is set.
pub proof fn law_absent_pane(
    n: Node,
    gone: PaneId,
    new: Node,
    axis: Axis,
    after: bool,
    k: nat,
    r: Ratio,
)
    requires
        !within(n, gone),
    ensures
        grafted(n, gone, new, axis, after) == n,
        pruned(n, gone) == Some(n),
        k >= splits(n) ==> with_ratio(n, k, r) == n,
    decreases n,
{
    match n {
        Node::Leaf(_) => {},
        Node::Split { first, second, .. } => {
            law_leaves_are_panes(*first, gone);
            law_leaves_are_panes(*second, gone);
            law_absent_pane(*first, gone, new, axis, after, k, r);
            law_absent_pane(*second, gone, new, axis, after, k, r);
            if k > splits(*first) {
                let left = (k - 1 - splits(*first)) as nat;
                law_absent_pane(*second, gone, new, axis, after, left, r);
            }
        },
    }
}

} // verus!
