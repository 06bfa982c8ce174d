//! A tab's panes as a binary tiling tree.
//!
//! Every inner node splits its area in two along an axis. The fraction that the
//! first side takes is carried along and never computed with here; neither are the
//! rectangles that it leads to.

use vstd::prelude::*;

verus! {

/// The identity of a pane, unique over the whole session.
pub type PaneId = u64;

/// The direction in which a split lays out its two sides.
#[derive(Clone, Copy, Debug, PartialEq, Eq, Structural)]
pub enum Axis {
    /// Side by side.
    Horizontal,
    /// One above the other.
    Vertical,
}

/// A direction to move the focus in.
#[derive(Clone, Copy, Debug, PartialEq, Eq, Structural)]
pub enum Dir {
    Left,
    Right,
    Up,
    Down,
}

/// The fraction of a split that its first side takes, as the bits of a
/// single-precision number.
#[derive(Clone, Copy, Debug, PartialEq, Eq, Structural)]
pub struct Ratio {
    pub bits: u32,
}

/// Two equal sides: the bits of one half.
pub open spec fn even() -> Ratio {
    Ratio { bits: 0x3f00_0000 }
}

/// A pane, or a split of two smaller trees.
#[derive(Debug)]
pub enum Node {
    Leaf(PaneId),
    Split { axis: Axis, ratio: Ratio, first: Box<Node>, second: Box<Node> },
}

/// The panes of a tree, in the order in which they are tiled.
pub open spec fn leaves(n: Node) -> Seq<PaneId>
    decreases n,
{
    match n {
        Node::Leaf(p) => seq![p],
        Node::Split { first, second, .. } => leaves(*first) + leaves(*second),
    }
}

/// How many splits a tree has.
pub open spec fn splits(n: Node) -> nat
    decreases n,
{
    match n {
        Node::Leaf(_) => 0,
        Node::Split { first, second, .. } => 1 + splits(*first) + splits(*second),
    }
}

/// Whether pane `p` is in a tree.
pub open spec fn holds(n: Node, p: PaneId) -> bool {
    leaves(n).contains(p)
}

/// Two trees side by side along `axis`, `new` behind `old` when `after`.
pub open spec fn pair(old: Node, new: Node, axis: Axis, after: bool) -> Node {
    if after {
        Node::Split { axis, ratio: even(), first: Box::new(old), second: Box::new(new) }
    } else {
        Node::Split { axis, ratio: even(), first: Box::new(new), second: Box::new(old) }
    }
}

/// The tree in which pane `target` shares its place with the tree `new`.
pub open spec fn grafted(n: Node, target: PaneId, new: Node, axis: Axis, after: bool) -> Node
    decreases n,
{
    match n {
        Node::Leaf(p) => if p == target {
            pair(n, new, axis, after)
        } else {
            n
        },
        Node::Split { axis: a, ratio, first, second } => if holds(*first, target) {
            Node::Split {
                axis: a,
                ratio,
                first: Box::new(grafted(*first, target, new, axis, after)),
                second,
            }
        } else {
            Node::Split {
                axis: a,
                ratio,
                first,
                second: Box::new(grafted(*second, target, new, axis, after)),
            }
        },
    }
}

/// The tree without pane `p`, whose sibling takes its place; nothing where `p` is
/// all there is.
pub open spec fn pruned(n: Node, p: PaneId) -> Option<Node>
    decreases n,
{
    match n {
        Node::Leaf(q) => if q == p {
            None
        } else {
            Some(n)
        },
        Node::Split { axis, ratio, first, second } => if holds(*first, p) {
            match pruned(*first, p) {
                None => Some(*second),
                Some(f) => Some(Node::Split { axis, ratio, first: Box::new(f), second }),
            }
        } else {
            match pruned(*second, p) {
                None => Some(*first),
                Some(s) => Some(Node::Split { axis, ratio, first, second: Box::new(s) }),
            }
        },
    }
}

/// The pane that takes over when `p` goes: the first one of the sibling that takes
/// its place.
pub open spec fn heir(n: Node, p: PaneId) -> Option<PaneId>
    decreases n,
{
    match n {
        Node::Leaf(_) => None,
        Node::Split { first, second, .. } => if *first == Node::Leaf(p) {
            Some(leaves(*second)[0])
        } else if *second == Node::Leaf(p) {
            Some(leaves(*first)[0])
        } else if holds(*first, p) {
            heir(*first, p)
        } else {
            heir(*second, p)
        },
    }
}

/// The tree whose split number `k` has the ratio `r`. Splits are numbered from
/// zero, each before the splits of its first side, and those before the splits of
/// its second side.
pub open spec fn with_ratio(n: Node, k: nat, r: Ratio) -> Node
    decreases n,
{
    match n {
        Node::Leaf(_) => n,
        Node::Split { axis, ratio, first, second } => if k == 0 {
            Node::Split { axis, ratio: r, first, second }
        } else if k <= splits(*first) {
            Node::Split {
                axis,
                ratio,
                first: Box::new(with_ratio(*first, (k - 1) as nat, r)),
                second,
            }
        } else {
            Node::Split {
                axis,
                ratio,
                first,
                second: Box::new(with_ratio(*second, (k - 1 - splits(*first)) as nat, r)),
            }
        },
    }
}

/// The position of the first `p` in `s`, or the length of `s`.
pub open spec fn place(s: Seq<PaneId>, p: PaneId) -> int
    decreases s.len(),
{
    if s.len() == 0 || s[0] == p {
        0
    } else {
        1 + place(s.drop_first(), p)
    }
}

pub proof fn lemma_place(s: Seq<PaneId>, p: PaneId)
    ensures
        0 <= place(s, p) <= s.len(),
        s.contains(p) <==> place(s, p) < s.len(),
        place(s, p) < s.len() ==> s[place(s, p)] == p,
        forall|i: int| 0 <= i < place(s, p) ==> s[i] != p,
    decreases s.len(),
{
    if s.len() > 0 && s[0] != p {
        let t = s.drop_first();
        lemma_place(t, p);
        assert forall|i: int| 0 <= i < place(s, p) implies s[i] != p by {
            if i > 0 {
                assert(s[i] == t[i - 1]);
            }
        }
        if s.contains(p) {
            let i = choose|i: int| 0 <= i < s.len() && s[i] == p;
            assert(t[i - 1] == p);
        }
    }
}

pub proof fn lemma_place_concat(a: Seq<PaneId>, b: Seq<PaneId>, p: PaneId)
    ensures
        a.contains(p) ==> place(a + b, p) == place(a, p),
        !a.contains(p) ==> place(a + b, p) == a.len() + place(b, p),
        (a + b).contains(p) <==> a.contains(p) || b.contains(p),
    decreases a.len(),
{
    let ab = a + b;
    if a.contains(p) {
        let i = choose|i: int| 0 <= i < a.len() && a[i] == p;
        assert(ab[i] == p);
    }
    if b.contains(p) {
        let i = choose|i: int| 0 <= i < b.len() && b[i] == p;
        assert(ab[a.len() + i] == p);
    }
    if a.len() == 0 {
        assert(ab == b);
    } else {
        let t = a.drop_first();
        lemma_place_concat(t, b, p);
        assert(ab.drop_first() == t + b);
        if a[0] != p {
            if a.contains(p) {
                let i = choose|i: int| 0 <= i < a.len() && a[i] == p;
                assert(t[i - 1] == p);
            }
            if t.contains(p) {
                let i = choose|i: int| 0 <= i < t.len() && t[i] == p;
                assert(a[i + 1] == p);
            }
        }
    }
}

/// A tree has at least one pane.
pub proof fn lemma_some_leaf(n: Node)
    ensures
        leaves(n).len() > 0,
    decreases n,
{
    match n {
        Node::Leaf(_) => {},
        Node::Split { first, second, .. } => {
            lemma_some_leaf(*first);
            lemma_some_leaf(*second);
        },
    }
}

/// Grafting puts the panes of the new tree directly before or behind the pane that
/// makes room, and leaves the order of all others.
pub proof fn law_graft_order(n: Node, target: PaneId, new: Node, axis: Axis, after: bool)
    requires
        holds(n, target),
    ensures
        ({
            let s = leaves(n);
            let i = place(s, target);
            let block = if after {
                seq![target] + leaves(new)
            } else {
                leaves(new) + seq![target]
            };
            leaves(grafted(n, target, new, axis, after)) == s.take(i) + block + s.skip(i + 1)
        }),
    decreases n,
{
    let s = leaves(n);
    let i = place(s, target);
    lemma_place(s, target);
    let g = grafted(n, target, new, axis, after);
    match n {
        Node::Leaf(p) => {
            assert(s[0] == p);
            assert(s.take(0) == Seq::<PaneId>::empty());
            assert(s.skip(1) == Seq::<PaneId>::empty());
            let first = if after { n } else { new };
            let second = if after { new } else { n };
            assert(leaves(g) == leaves(first) + leaves(second));
        },
        Node::Split { first, second, .. } => {
            let a = leaves(*first);
            let b = leaves(*second);
            lemma_place_concat(a, b, target);
            lemma_place(a, target);
            lemma_place(b, target);
            if holds(*first, target) {
                law_graft_order(*first, target, new, axis, after);
                assert(s.take(i) == a.take(i));
                assert(s.skip(i + 1) == a.skip(i + 1) + b);
            } else {
                law_graft_order(*second, target, new, axis, after);
                assert(s.take(i) == a + b.take(i - a.len()));
                assert(s.skip(i + 1) == b.skip(i - a.len() + 1));
            }
        },
    }
}

/// Pruning takes one pane out and leaves the order of all others. Nothing is left
/// only where that pane was alone.
pub proof fn law_prune_order(n: Node, p: PaneId)
    requires
        holds(n, p),
    ensures
        pruned(n, p) is None <==> leaves(n).len() == 1,
        pruned(n, p) matches Some(rest) ==> leaves(rest) == leaves(n).remove(place(leaves(n), p)),
    decreases n,
{
    let s = leaves(n);
    let i = place(s, p);
    lemma_place(s, p);
    match n {
        Node::Leaf(q) => {
            assert(s[0] == q);
        },
        Node::Split { first, second, .. } => {
            let a = leaves(*first);
            let b = leaves(*second);
            lemma_some_leaf(*first);
            lemma_some_leaf(*second);
            lemma_place_concat(a, b, p);
            lemma_place(a, p);
            lemma_place(b, p);
            if holds(*first, p) {
                law_prune_order(*first, p);
                assert(s.remove(i) == a.remove(i) + b);
                if pruned(*first, p) is None {
                    assert(a.remove(i) == Seq::<PaneId>::empty());
                    assert(leaves(pruned(n, p)->0) == s.remove(i));
                }
            } else {
                law_prune_order(*second, p);
                assert(s.remove(i) == a + b.remove(i - a.len()));
                if pruned(*second, p) is None {
                    assert(b.remove(i - a.len()) == Seq::<PaneId>::empty());
                    assert(leaves(pruned(n, p)->0) == s.remove(i));
                }
            }
        },
    }
}

/// Closing a pane that a split has just opened gives back the tree as it was.
pub proof fn law_split_then_close(n: Node, target: PaneId, new: PaneId, axis: Axis, after: bool)
    requires
        holds(n, target),
        !holds(n, new),
    ensures
        holds(grafted(n, target, Node::Leaf(new), axis, after), new),
        pruned(grafted(n, target, Node::Leaf(new), axis, after), new) == Some(n),
    decreases n,
{
    let leaf = Node::Leaf(new);
    assert(leaves(leaf)[0] == new);
    match n {
        Node::Leaf(p) => {
            assert(leaves(n)[0] == p);
            lemma_place_concat(leaves(n), leaves(leaf), new);
            lemma_place_concat(leaves(leaf), leaves(n), new);
            assert(pruned(leaf, new) is None);
            assert(pruned(n, new) == Some(n));
            if after {
                assert(!holds(n, new));
            } else {
                assert(holds(leaf, new));
            }
        },
        Node::Split { first, second, .. } => {
            let a = leaves(*first);
            let b = leaves(*second);
            lemma_place_concat(a, b, target);
            lemma_place_concat(a, b, new);
            if holds(*first, target) {
                law_split_then_close(*first, target, new, axis, after);
                let g = grafted(*first, target, leaf, axis, after);
                lemma_place_concat(leaves(g), b, new);
            } else {
                law_split_then_close(*second, target, new, axis, after);
                let g = grafted(*second, target, leaf, axis, after);
                lemma_place_concat(a, leaves(g), new);
            }
        },
    }
}

/// The pane that takes over is another pane of the tree. There is one unless the
/// pane is alone.
pub proof fn law_heir(n: Node, p: PaneId)
    requires
        holds(n, p),
        leaves(n).no_duplicates(),
    ensures
        heir(n, p) is None <==> leaves(n).len() == 1,
        heir(n, p) matches Some(q) ==> q != p && holds(n, q),
    decreases n,
{
    match n {
        Node::Leaf(_) => {},
        Node::Split { first, second, .. } => {
            let a = leaves(*first);
            let b = leaves(*second);
            let s = a + b;
            lemma_some_leaf(*first);
            lemma_some_leaf(*second);
            lemma_place_concat(a, b, p);
            assert forall|i: int, j: int| 0 <= i < a.len() && 0 <= j < a.len() && i != j implies a[i]
                != a[j] by {
                assert(s[i] == a[i] && s[j] == a[j]);
            }
            assert forall|i: int, j: int| 0 <= i < b.len() && 0 <= j < b.len() && i != j implies b[i]
                != b[j] by {
                assert(s[a.len() + i] == b[i] && s[a.len() + j] == b[j]);
            }
            assert(s[0] == a[0] && s[a.len() as int] == b[0]);
            assert(a.contains(a[0]) && b.contains(b[0]));
            lemma_place_concat(a, b, a[0]);
            lemma_place_concat(a, b, b[0]);
            if *first == Node::Leaf(p) {
                assert(a[0] == p);
            } else if *second == Node::Leaf(p) {
                assert(b[0] == p);
            } else if holds(*first, p) {
                law_heir(*first, p);
                if leaves(*first).len() == 1 {
                    lemma_alone(*first, p);
                }
                if let Some(q) = heir(*first, p) {
                    lemma_place_concat(a, b, q);
                }
            } else {
                law_heir(*second, p);
                if leaves(*second).len() == 1 {
                    lemma_alone(*second, p);
                }
                if let Some(q) = heir(*second, p) {
                    lemma_place_concat(a, b, q);
                }
            }
        },
    }
}

proof fn lemma_alone(n: Node, p: PaneId)
    requires
        holds(n, p),
        leaves(n).len() == 1,
    ensures
        n == Node::Leaf(p),
{
    match n {
        Node::Leaf(q) => {
            assert(leaves(n)[0] == q);
        },
        Node::Split { first, second, .. } => {
            lemma_some_leaf(*first);
            lemma_some_leaf(*second);
        },
    }
}

/// Moving a border changes neither the panes nor their order.
pub proof fn law_ratio_keeps_panes(n: Node, k: nat, r: Ratio)
    ensures
        leaves(with_ratio(n, k, r)) == leaves(n),
        splits(with_ratio(n, k, r)) == splits(n),
    decreases n,
{
    match n {
        Node::Leaf(_) => {},
        Node::Split { first, second, .. } => {
            if k > 0 {
                law_ratio_keeps_panes(*first, (k - 1) as nat, r);
                if k > splits(*first) {
                    law_ratio_keeps_panes(*second, (k - 1 - splits(*first)) as nat, r);
                }
            }
        },
    }
}

proof fn lemma_no_such_split(n: Node, k: nat, r: Ratio)
    requires
        k >= splits(n),
    ensures
        with_ratio(n, k, r) == n,
    decreases n,
{
    match n {
        Node::Leaf(_) => {},
        Node::Split { first, second, .. } => {
            lemma_no_such_split(*second, (k - 1 - splits(*first)) as nat, r);
        },
    }
}

impl Ratio {
    /// Two equal sides.
    pub fn half() -> (r: Ratio)
        ensures
            r == even(),
    {
        Ratio { bits: 0x3f00_0000 }
    }
}

impl Node {
    fn collect(&self, out: &mut Vec<PaneId>)
        ensures
            final(out)@ == old(out)@ + leaves(*self),
        decreases *self,
    {
        match self {
            Node::Leaf(p) => out.push(*p),
            Node::Split { first, second, .. } => {
                first.collect(out);
                second.collect(out);
            },
        }
    }

    fn contains(&self, p: PaneId) -> (r: bool)
        ensures
            r == holds(*self, p),
        decreases *self,
    {
        match self {
            Node::Leaf(q) => {
                assert(leaves(*self)[0] == *q);
                *q == p
            },
            Node::Split { first, second, .. } => {
                proof {
                    lemma_place_concat(leaves(**first), leaves(**second), p);
                }
                first.contains(p) || second.contains(p)
            },
        }
    }

    fn first_pane(&self) -> (r: PaneId)
        ensures
            r == leaves(*self)[0],
        decreases *self,
    {
        match self {
            Node::Leaf(q) => *q,
            Node::Split { first, .. } => {
                proof {
                    lemma_some_leaf(**first);
                }
                first.first_pane()
            },
        }
    }

    fn is_leaf(&self, p: PaneId) -> (r: bool)
        ensures
            r == (*self == Node::Leaf(p)),
    {
        match self {
            Node::Leaf(q) => *q == p,
            Node::Split { .. } => false,
        }
    }

    fn heir(&self, p: PaneId) -> (r: Option<PaneId>)
        ensures
            r == heir(*self, p),
        decreases *self,
    {
        match self {
            Node::Leaf(_) => None,
            Node::Split { first, second, .. } => if first.is_leaf(p) {
                Some(second.first_pane())
            } else if second.is_leaf(p) {
                Some(first.first_pane())
            } else if first.contains(p) {
                first.heir(p)
            } else {
                second.heir(p)
            },
        }
    }

    fn graft(self, target: PaneId, new: Node, axis: Axis, after: bool) -> (r: Node)
        ensures
            r == grafted(self, target, new, axis, after),
        decreases self,
    {
        match self {
            Node::Leaf(p) => if p == target {
                let old = Box::new(Node::Leaf(p));
                let new = Box::new(new);
                if after {
                    Node::Split { axis, ratio: Ratio::half(), first: old, second: new }
                } else {
                    Node::Split { axis, ratio: Ratio::half(), first: new, second: old }
                }
            } else {
                Node::Leaf(p)
            },
            Node::Split { axis: a, ratio, first, second } => if first.contains(target) {
                let first = Box::new((*first).graft(target, new, axis, after));
                Node::Split { axis: a, ratio, first, second }
            } else {
                let second = Box::new((*second).graft(target, new, axis, after));
                Node::Split { axis: a, ratio, first, second }
            },
        }
    }

    fn prune(self, p: PaneId) -> (r: Option<Node>)
        ensures
            r == pruned(self, p),
        decreases self,
    {
        match self {
            Node::Leaf(q) => if q == p {
                None
            } else {
                Some(Node::Leaf(q))
            },
            Node::Split { axis, ratio, first, second } => if first.contains(p) {
                match (*first).prune(p) {
                    None => Some(*second),
                    Some(f) => Some(Node::Split { axis, ratio, first: Box::new(f), second }),
                }
            } else {
                match (*second).prune(p) {
                    None => Some(*first),
                    Some(s) => Some(Node::Split { axis, ratio, first, second: Box::new(s) }),
                }
            },
        }
    }

    /// Sets the ratio of split number `k`. Gives back how far `k` lies beyond the
    /// splits of this tree, if it does.
    fn set_ratio(&mut self, k: usize, r: Ratio) -> (beyond: Option<usize>)
        ensures
            *final(self) == with_ratio(*old(self), k as nat, r),
            beyond == (if k < splits(*old(self)) {
                None
            } else {
                Some((k - splits(*old(self))) as usize)
            }),
        decreases *old(self),
    {
        match self {
            Node::Leaf(_) => Some(k),
            Node::Split { ratio, first, second, .. } => {
                if k == 0 {
                    *ratio = r;
                    return None;
                }
                proof {
                    if k > splits(**first) {
                        lemma_no_such_split(**first, (k - 1) as nat, r);
                    }
                }
                match first.set_ratio(k - 1, r) {
                    None => None,
                    Some(rest) => second.set_ratio(rest, r),
                }
            },
        }
    }
}

/// The layout of a tab.
#[derive(Debug)]
pub struct Tree {
    pub root: Node,
}

impl Tree {
    /// A tree of one pane.
    pub fn new(pane: PaneId) -> (r: Tree)
        ensures
            r.root == Node::Leaf(pane),
    {
        Tree { root: Node::Leaf(pane) }
    }

    /// The panes, in the order in which they are tiled.
    pub fn panes_in_order(&self) -> (r: Vec<PaneId>)
        ensures
            r@ == leaves(self.root),
    {
        let mut out: Vec<PaneId> = Vec::new();
        self.root.collect(&mut out);
        out
    }

    /// Whether a pane is in the tree.
    pub fn contains(&self, pane: PaneId) -> (r: bool)
        ensures
            r == holds(self.root, pane),
    {
        self.root.contains(pane)
    }

    /// The first pane, in the order in which they are tiled.
    pub fn first_pane(&self) -> (r: PaneId)
        ensures
            r == leaves(self.root)[0],
            holds(self.root, r),
    {
        proof {
            lemma_some_leaf(self.root);
        }
        self.root.first_pane()
    }

    /// The pane to focus once `pane` is closed: the first one of the sibling that
    /// takes its place.
    pub fn focus_after_close(&self, pane: PaneId) -> (r: Option<PaneId>)
        ensures
            r == heir(self.root, pane),
    {
        self.root.heir(pane)
    }

    /// Splits pane `target` along `axis` in two equal sides, `new` behind it when
    /// `after`. A tree without `target` stays as it is.
    pub fn split(&mut self, target: PaneId, new: PaneId, axis: Axis, after: bool)
        ensures
            final(self).root == grafted(old(self).root, target, Node::Leaf(new), axis, after),
    {
        self.graft(target, Node::Leaf(new), axis, after);
    }

    /// Splits pane `target` along `axis` in two equal sides, the whole of `other`
    /// behind it when `after`. A tree without `target` stays as it is.
    pub fn attach_subtree(&mut self, target: PaneId, other: Tree, axis: Axis, after: bool)
        ensures
            final(self).root == grafted(old(self).root, target, other.root, axis, after),
    {
        self.graft(target, other.root, axis, after);
    }

    fn graft(&mut self, target: PaneId, new: Node, axis: Axis, after: bool)
        ensures
            final(self).root == grafted(old(self).root, target, new, axis, after),
    {
        let mut root = Node::Leaf(target);
        std::mem::swap(&mut root, &mut self.root);
        self.root = root.graft(target, new, axis, after);
    }

    /// Takes a pane out, its sibling taking its place. A tree without that pane, or
    /// with that pane alone, stays as it is; the result says whether the pane is out.
    pub fn close(&mut self, pane: PaneId) -> (r: bool)
        ensures
            r == (holds(old(self).root, pane) && leaves(old(self).root).len() > 1),
            final(self).root == (if r {
                pruned(old(self).root, pane)->0
            } else {
                old(self).root
            }),
    {
        proof {
            lemma_some_leaf(self.root);
        }
        if !self.root.contains(pane) {
            return false;
        }
        proof {
            law_prune_order(self.root, pane);
        }
        let mut root = Node::Leaf(pane);
        std::mem::swap(&mut root, &mut self.root);
        match root.prune(pane) {
            Some(rest) => {
                self.root = rest;
                true
            },
            None => {
                proof {
                    lemma_alone(old(self).root, pane);
                }
                false
            },
        }
    }

    /// Sets the ratio of split number `node`. Splits are numbered from zero, each
    /// before the splits of its first side, and those before the splits of its
    /// second side; a number that no split has changes nothing.
    pub fn set_ratio(&mut self, node: usize, ratio: Ratio)
        ensures
            final(self).root == with_ratio(old(self).root, node as nat, ratio),
    {
        self.root.set_ratio(node, ratio);
    }
}

} // verus!
