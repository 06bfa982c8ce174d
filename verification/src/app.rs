//! The state of the application: its tabs, each with a layout of panes, and the
//! dialogs that may be open over them.
//!
//! The terminals themselves live outside. What happens to them is said by the
//! results: which pane to start, which ones to drop, what to write to them.

use std::collections::HashMap;
use vstd::prelude::*;

use crate::color::Color32;
use crate::config::opt_view;
use crate::labels::{basename, shell_basename};
use crate::layout::{grafted, heir, holds, leaves, pruned, Axis, Node, PaneId, Tree};

verus! {

broadcast use vstd::std_specs::hash::group_hash_axioms;

/// A rectangle, by the bits of the single-precision numbers of its edges.
#[derive(Clone, Copy, Debug, PartialEq, Eq, Structural)]
pub struct Area {
    pub left: u32,
    pub top: u32,
    pub right: u32,
    pub bottom: u32,
}

/// The rectangle whose edges are all zero.
pub open spec fn no_area() -> Area {
    Area { left: 0, top: 0, right: 0, bottom: 0 }
}

/// One tab: an independent pane layout with its own focused pane.
#[derive(Debug)]
pub struct Tab {
    pub tree: Tree,
    pub focused: PaneId,
    /// Content rectangle of the last frame this tab was drawn, for spatial
    /// navigation.
    pub last_area: Area,
    /// Optional user-assigned colour.
    pub color: Option<Color32>,
    /// Optional custom name; the shell's name stands in for it.
    pub name: Option<String>,
}

/// What a `Tab` holds.
pub struct TabView {
    pub root: Node,
    pub focused: PaneId,
    pub last_area: Area,
    pub color: Option<Color32>,
    pub name: Option<Seq<char>>,
}

impl View for Tab {
    type V = TabView;

    open spec fn view(&self) -> TabView {
        TabView {
            root: self.tree.root,
            focused: self.focused,
            last_area: self.last_area,
            color: self.color,
            name: opt_view(self.name),
        }
    }
}

/// The tab that is being renamed, and what has been typed for it so far.
#[derive(Debug)]
pub struct Editing {
    pub idx: usize,
    pub buf: String,
    /// Whether the text field has been given the keyboard, which happens once.
    pub focused: bool,
}

/// What an `Editing` holds.
pub struct EditingView {
    pub idx: usize,
    pub buf: Seq<char>,
    pub focused: bool,
}

impl View for Editing {
    type V = EditingView;

    open spec fn view(&self) -> EditingView {
        EditingView { idx: self.idx, buf: self.buf@, focused: self.focused }
    }
}

/// Scrollback search in a pane.
#[derive(Debug)]
pub struct Search {
    pub pane: PaneId,
    pub query: String,
    /// Whether the user clicked into the terminal while the search is open, so that
    /// keystrokes go to the shell instead of the search field.
    pub terminal_focused: bool,
    /// The current match, counted from one, and the number of matches.
    pub matches: (usize, usize),
}

/// What a `Search` holds.
pub struct SearchView {
    pub pane: PaneId,
    pub query: Seq<char>,
    pub terminal_focused: bool,
    pub matches: (usize, usize),
}

impl View for Search {
    type V = SearchView;

    open spec fn view(&self) -> SearchView {
        SearchView {
            pane: self.pane,
            query: self.query@,
            terminal_focused: self.terminal_focused,
            matches: self.matches,
        }
    }
}

/// The state of the application.
pub struct Tessera {
    pub tabs: Vec<Tab>,
    pub active: usize,
    /// The titles of all panes across all tabs.
    pub panes: HashMap<PaneId, String>,
    pub next_id: u64,
    pub default_title: String,
    pub editing: Option<Editing>,
    pub search: Option<Search>,
    /// The pane whose drag-grip the pointer is holding down, if any.
    pub pane_grip_down: Option<PaneId>,
    /// Whether the quit confirmation is up.
    pub confirm_quit: bool,
    /// Whether the user has confirmed quitting, so that the close request that
    /// follows is let through.
    pub quit_confirmed: bool,
}

/// What a `Tessera` holds.
#[verifier::ext_equal]
pub struct State {
    pub tabs: Seq<TabView>,
    pub active: int,
    pub panes: Map<PaneId, Seq<char>>,
    pub next_id: int,
    pub default_title: Seq<char>,
    pub editing: Option<EditingView>,
    pub search: Option<SearchView>,
    pub pane_grip_down: Option<PaneId>,
    pub confirm_quit: bool,
    pub quit_confirmed: bool,
}

/// The views of `tabs`, in order.
pub open spec fn tab_views(tabs: Seq<Tab>) -> Seq<TabView> {
    tabs.map_values(|t: Tab| t@)
}

/// `editing`, if there is any, as what it holds.
pub open spec fn editing_view(editing: Option<Editing>) -> Option<EditingView> {
    match editing {
        Some(e) => Some(e@),
        None => None,
    }
}

/// `search`, if there is one, as what it holds.
pub open spec fn search_view(search: Option<Search>) -> Option<SearchView> {
    match search {
        Some(s) => Some(s@),
        None => None,
    }
}

impl View for Tessera {
    type V = State;

    open spec fn view(&self) -> State {
        State {
            tabs: tab_views(self.tabs@),
            active: self.active as int,
            panes: self.panes@.map_values(|t: String| t@),
            next_id: self.next_id as int,
            default_title: self.default_title@,
            editing: editing_view(self.editing),
            search: search_view(self.search),
            pane_grip_down: self.pane_grip_down,
            confirm_quit: self.confirm_quit,
            quit_confirmed: self.quit_confirmed,
        }
    }
}

/// A tab of one pane.
pub open spec fn fresh_tab(pane: PaneId) -> TabView {
    TabView {
        root: Node::Leaf(pane),
        focused: pane,
        last_area: no_area(),
        color: None,
        name: None,
    }
}

/// The position of the first tab that shows `pane`, or the number of tabs.
pub open spec fn owner(tabs: Seq<TabView>, pane: PaneId) -> int
    decreases tabs.len(),
{
    if tabs.len() == 0 || holds(tabs[0].root, pane) {
        0
    } else {
        1 + owner(tabs.drop_first(), pane)
    }
}

pub proof fn lemma_owner(tabs: Seq<TabView>, pane: PaneId)
    ensures
        0 <= owner(tabs, pane) <= tabs.len(),
        owner(tabs, pane) < tabs.len() ==> holds(tabs[owner(tabs, pane)].root, pane),
        forall|i: int| 0 <= i < owner(tabs, pane) ==> !holds(#[trigger] tabs[i].root, pane),
    decreases tabs.len(),
{
    if tabs.len() > 0 && !holds(tabs[0].root, pane) {
        lemma_owner(tabs.drop_first(), pane);
        assert forall|i: int| 0 <= i < owner(tabs, pane) implies !holds(
            #[trigger] tabs[i].root,
            pane,
        ) by {
            if i > 0 {
                assert(tabs[i] == tabs.drop_first()[i - 1]);
            }
        }
    }
}

/// The state once a pane has been asked for, `started` saying whether its terminal
/// came up. Its id is used up either way.
pub open spec fn after_spawn(s: State, started: bool) -> State {
    State {
        next_id: s.next_id + 1,
        panes: if started {
            s.panes.insert(s.next_id as PaneId, s.default_title)
        } else {
            s.panes
        },
        ..s
    }
}

/// The state with a new tab of one fresh pane, in front.
pub open spec fn after_new_tab(s: State, started: bool) -> State {
    let t = after_spawn(s, started);
    if started {
        State {
            tabs: t.tabs.push(fresh_tab(s.next_id as PaneId)),
            active: t.tabs.len() as int,
            ..t
        }
    } else {
        t
    }
}

/// The state with the focused pane of the active tab split along `axis`, and the
/// new pane behind it focused.
pub open spec fn after_split(s: State, axis: Axis, started: bool) -> State {
    let t = after_spawn(s, started);
    let id = s.next_id as PaneId;
    let tab = s.tabs[s.active];
    if started {
        State {
            tabs: t.tabs.update(
                s.active,
                TabView {
                    root: grafted(tab.root, tab.focused, Node::Leaf(id), axis, true),
                    focused: id,
                    ..tab
                },
            ),
            ..t
        }
    } else {
        t
    }
}

/// Where a tab dragged from `src` lands among `len` tabs, given the slot `to` among
/// the tabs as they were before. Nothing where that is where it was.
pub open spec fn reorder_slot(len: int, src: int, to: int) -> Option<int> {
    let slot = if to < len {
        to
    } else {
        len
    };
    let at = if slot > src {
        slot - 1
    } else {
        slot
    };
    if src < len && at != src {
        Some(at)
    } else {
        None
    }
}

/// Where a tab dragged from `src` should be re-inserted given an insertion slot `to`
/// (in terms of the list before removal). `None` for a no-op move (dropped back in
/// its own slot).
pub fn reorder_index(len: usize, src: usize, to: usize) -> (r: Option<usize>)
    ensures
        r is Some <==> reorder_slot(len as int, src as int, to as int) is Some,
        r matches Some(at) ==> reorder_slot(len as int, src as int, to as int) == Some(at as int),
{
    if src >= len {
        return None;
    }
    let to = if to < len {
        to
    } else {
        len
    };
    let insert_at = if to > src {
        to - 1
    } else {
        to
    };
    if insert_at != src {
        Some(insert_at)
    } else {
        None
    }
}

/// The state with tab `src` moved to slot `to`, and in front.
pub open spec fn after_reorder(s: State, src: int, to: int) -> State {
    match reorder_slot(s.tabs.len() as int, src, to) {
        Some(at) => State {
            tabs: s.tabs.remove(src).insert(at, s.tabs[src]),
            active: at,
            ..s
        },
        None => if src < s.tabs.len() {
            State { active: src, ..s }
        } else {
            s
        },
    }
}

/// The state with the whole layout of tab `src` spliced in beside pane `target` of
/// another tab, that tab in front, and tab `src` gone.
pub open spec fn after_merge(
    s: State,
    src: int,
    target: PaneId,
    axis: Axis,
    after: bool,
) -> State {
    let to = owner(s.tabs, target);
    if src >= s.tabs.len() || to >= s.tabs.len() || to == src {
        s
    } else {
        let rest = s.tabs.remove(src);
        let at = if src < to {
            to - 1
        } else {
            to
        };
        State {
            tabs: rest.update(
                at,
                TabView {
                    root: grafted(rest[at].root, target, s.tabs[src].root, axis, after),
                    focused: s.tabs[src].focused,
                    ..rest[at]
                },
            ),
            active: at,
            ..s
        }
    }
}

/// The state with pane `src` of the active tab taken out and put beside pane
/// `target` of that tab, focused.
pub open spec fn after_move(
    s: State,
    src: PaneId,
    target: PaneId,
    axis: Axis,
    after: bool,
) -> State {
    let tab = s.tabs[s.active];
    if src == target || !holds(tab.root, src) || !holds(tab.root, target) || leaves(tab.root).len()
        <= 1 {
        s
    } else {
        State {
            tabs: s.tabs.update(
                s.active,
                TabView {
                    root: grafted(
                        pruned(tab.root, src)->0,
                        target,
                        Node::Leaf(src),
                        axis,
                        after,
                    ),
                    focused: src,
                    ..tab
                },
            ),
            ..s
        }
    }
}

/// The pane to focus in the tree `rest`: the proposed one where it is a pane, else
/// the first of the tree.
pub open spec fn next_focus(
    panes: Map<PaneId, Seq<char>>,
    proposed: Option<PaneId>,
    rest: Node,
) -> PaneId {
    match proposed {
        Some(p) => if panes.contains_key(p) {
            p
        } else {
            leaves(rest)[0]
        },
        None => leaves(rest)[0],
    }
}

/// A tab that has lost `pane` but keeps others. `panes` are those that remain.
pub open spec fn tab_without(tab: TabView, pane: PaneId, panes: Map<PaneId, Seq<char>>) -> TabView {
    let rest = pruned(tab.root, pane)->0;
    TabView {
        root: rest,
        focused: if tab.focused == pane {
            next_focus(panes, heir(tab.root, pane), rest)
        } else {
            tab.focused
        },
        ..tab
    }
}

/// The state with pane `src` of the active tab in a tab of its own at slot
/// `insert_at`, in front.
pub open spec fn after_tear(s: State, src: PaneId, insert_at: int) -> State {
    let tab = s.tabs[s.active];
    if !holds(tab.root, src) || leaves(tab.root).len() <= 1 {
        s
    } else {
        let at = if insert_at < s.tabs.len() {
            insert_at
        } else {
            s.tabs.len() as int
        };
        State {
            tabs: s.tabs.update(s.active, tab_without(tab, src, s.panes)).insert(
                at,
                fresh_tab(src),
            ),
            active: at,
            ..s
        }
    }
}

/// The active tab once tab `gone` has left `len` others.
pub open spec fn active_after(active: int, gone: int, len: int) -> int {
    if active >= len {
        len - 1
    } else if active > gone {
        active - 1
    } else {
        active
    }
}

/// The search, unless it is in `pane`.
pub open spec fn search_without(search: Option<SearchView>, pane: PaneId) -> Option<SearchView> {
    match search {
        Some(s) => if s.pane == pane {
            None
        } else {
            Some(s)
        },
        None => None,
    }
}

/// The state without tab `ti`; its panes are not touched.
pub open spec fn without_tab(s: State, ti: int) -> State {
    let tabs = s.tabs.remove(ti);
    State {
        tabs,
        active: if tabs.len() == 0 {
            s.active
        } else {
            active_after(s.active, ti, tabs.len() as int)
        },
        ..s
    }
}

/// The state without `pane`, and without its tab where it was the last one there.
pub open spec fn after_close_pane(s: State, pane: PaneId) -> State {
    let ti = owner(s.tabs, pane);
    let panes = s.panes.remove(pane);
    if !s.panes.contains_key(pane) {
        s
    } else {
        let t = State { search: search_without(s.search, pane), panes, ..s };
        if ti >= s.tabs.len() {
            t
        } else if leaves(s.tabs[ti].root).len() <= 1 {
            without_tab(t, ti)
        } else {
            State { tabs: s.tabs.update(ti, tab_without(s.tabs[ti], pane, panes)), ..t }
        }
    }
}

/// Whether closing `pane` closes the window: where it was the last pane of the last
/// tab.
pub open spec fn close_pane_ends(s: State, pane: PaneId) -> bool {
    let ti = owner(s.tabs, pane);
    s.panes.contains_key(pane) && ti < s.tabs.len() && leaves(s.tabs[ti].root).len() <= 1
        && s.tabs.len() == 1
}

/// The state without the panes `gone`: neither titles nor a search in one of them.
pub open spec fn without_panes(s: State, gone: Seq<PaneId>) -> State
    decreases gone.len(),
{
    if gone.len() == 0 {
        s
    } else {
        let t = without_panes(s, gone.drop_last());
        State {
            search: search_without(t.search, gone.last()),
            panes: t.panes.remove(gone.last()),
            ..t
        }
    }
}

/// The state without tab `ti` and its panes.
pub open spec fn after_close_tab(s: State, ti: int) -> State {
    if ti >= s.tabs.len() {
        s
    } else {
        without_tab(without_panes(s, leaves(s.tabs[ti].root)), ti)
    }
}

fn plain_tab(pane: PaneId) -> (r: Tab)
    ensures
        r@ == fresh_tab(pane),
{
    Tab {
        tree: Tree::new(pane),
        focused: pane,
        last_area: Area { left: 0, top: 0, right: 0, bottom: 0 },
        color: None,
        name: None,
    }
}

/// The state of a window with one tab of one pane.
pub open spec fn first_state(shell: Seq<char>) -> State {
    State {
        tabs: seq![fresh_tab(0)],
        active: 0,
        panes: Map::empty().insert(0, basename(shell)),
        next_id: 1,
        default_title: basename(shell),
        editing: None,
        search: None,
        pane_grip_down: None,
        confirm_quit: false,
        quit_confirmed: false,
    }
}

impl Tessera {
    /// The first tab fills the window; its pane has the id zero. Panes are titled by
    /// the shell's name.
    pub fn new(shell: &str) -> (r: Tessera)
        ensures
            r@ == first_state(shell@),
    {
        let mut app = Tessera {
            tabs: Vec::new(),
            active: 0,
            panes: HashMap::new(),
            next_id: 0,
            default_title: shell_basename(shell),
            editing: None,
            search: None,
            pane_grip_down: None,
            confirm_quit: false,
            quit_confirmed: false,
        };
        app.new_tab(true);
        assert(app@ =~= first_state(shell@));
        app
    }

    /// Takes note of a pane whose terminal was to be started under the id `next_id`.
    /// Gives its id where it came up.
    pub fn spawn_pane(&mut self, started: bool) -> (r: Option<PaneId>)
        requires
            old(self).next_id < u64::MAX,
        ensures
            final(self)@ == after_spawn(old(self)@, started),
            r == (if started {
                Some(old(self).next_id)
            } else {
                None
            }),
            final(self).tabs == old(self).tabs,
    {
        let id = self.next_id;
        self.next_id = self.next_id + 1;
        if !started {
            return None;
        }
        self.panes.insert(id, self.default_title.clone());
        assert(self@ =~= after_spawn(old(self)@, started));
        Some(id)
    }

    /// Opens a new tab containing a single fresh pane, in front. `started` says
    /// whether the terminal for the pane `next_id` came up.
    pub fn new_tab(&mut self, started: bool)
        requires
            old(self).next_id < u64::MAX,
        ensures
            final(self)@ == after_new_tab(old(self)@, started),
    {
        if let Some(id) = self.spawn_pane(started) {
            self.active = self.tabs.len();
            self.tabs.push(plain_tab(id));
            assert(self@ =~= after_new_tab(old(self)@, started));
        }
    }

    /// Splits the active tab's focused pane along `axis`. `started` says whether the
    /// terminal for the pane `next_id` came up.
    pub fn split(&mut self, axis: Axis, started: bool)
        requires
            old(self).next_id < u64::MAX,
            old(self).active < old(self).tabs@.len(),
        ensures
            final(self)@ == after_split(old(self)@, axis, started),
    {
        if let Some(id) = self.spawn_pane(started) {
            let focused = self.tabs[self.active].focused;
            self.tabs[self.active].tree.split(focused, id, axis, true);
            self.tabs[self.active].focused = id;
            assert(self@ =~= after_split(old(self)@, axis, started));
        }
    }

    fn position(&self, pane: PaneId) -> (r: Option<usize>)
        ensures
            match r {
                Some(i) => i < self.tabs@.len() && i == owner(self@.tabs, pane),
                None => owner(self@.tabs, pane) == self.tabs@.len(),
            },
    {
        let mut i: usize = 0;
        assert(self@.tabs.skip(0) == self@.tabs);
        while i < self.tabs.len()
            invariant
                i <= self.tabs@.len(),
                owner(self@.tabs, pane) == i + owner(self@.tabs.skip(i as int), pane),
            decreases self.tabs@.len() - i,
        {
            assert(self@.tabs.skip(i as int)[0] == self.tabs@[i as int]@);
            if self.tabs[i].tree.contains(pane) {
                return Some(i);
            }
            assert(self@.tabs.skip(i as int).drop_first() == self@.tabs.skip(i + 1));
            i += 1;
        }
        None
    }

    /// Merges the dragged tab `src` into the tab containing `target_pane`, splitting
    /// that pane along `axis` (the dropped panes go after when `after`). The source
    /// tab's whole layout is spliced in and the source tab removed. Nothing happens
    /// where there is no such tab or pane, or where the pane is in the tab itself.
    pub fn merge_tab(&mut self, src: usize, target_pane: PaneId, axis: Axis, after: bool)
        ensures
            final(self)@ == after_merge(old(self)@, src as int, target_pane, axis, after),
    {
        if src >= self.tabs.len() {
            return;
        }
        let to = match self.position(target_pane) {
            Some(to) => to,
            None => {
                return;
            },
        };
        if to == src {
            return;
        }
        let src_tab = self.tabs.remove(src);
        // Removing `src` shifts later positions down by one.
        let at = if src < to {
            to - 1
        } else {
            to
        };
        assert(tab_views(self.tabs@) == old(self)@.tabs.remove(src as int));
        self.tabs[at].tree.attach_subtree(target_pane, src_tab.tree, axis, after);
        self.tabs[at].focused = src_tab.focused;
        self.active = at;
        assert(self@ =~= after_merge(old(self)@, src as int, target_pane, axis, after));
    }

    /// Moves the tab at `src` so it lands at insertion slot `to` (expressed in terms
    /// of the list before removal). The moved tab becomes active.
    pub fn reorder_tab(&mut self, src: usize, to: usize)
        ensures
            final(self)@ == after_reorder(old(self)@, src as int, to as int),
    {
        match reorder_index(self.tabs.len(), src, to) {
            Some(at) => {
                let tab = self.tabs.remove(src);
                self.tabs.insert(at, tab);
                self.active = at;
                assert(self@ =~= after_reorder(old(self)@, src as int, to as int));
            },
            None => {
                if src < self.tabs.len() {
                    self.active = src;
                }
            },
        }
    }

    /// Moves pane `src` so it sits as a split of `target` on the chosen side, within
    /// the active tab. `src` is detached from its current spot (collapsing its old
    /// sibling) and re-inserted next to `target`. Nothing happens where the two are
    /// the same, or are not both in the active tab.
    pub fn move_pane(&mut self, src: PaneId, target: PaneId, axis: Axis, after: bool)
        requires
            old(self).active < old(self).tabs@.len(),
        ensures
            final(self)@ == after_move(old(self)@, src, target, axis, after),
    {
        if src == target {
            return;
        }
        let active = self.active;
        if !self.tabs[active].tree.contains(src) || !self.tabs[active].tree.contains(target) {
            return;
        }
        if !self.tabs[active].tree.close(src) {
            assert(self@ =~= old(self)@);
            return;
        }
        self.tabs[active].tree.split(target, src, axis, after);
        self.tabs[active].focused = src;
        assert(self@ =~= after_move(old(self)@, src, target, axis, after));
    }

    fn refocus(&mut self, ti: usize, pane: PaneId, proposed: Option<PaneId>)
        requires
            ti < old(self).tabs@.len(),
        ensures
            final(self)@ == (State {
                tabs: old(self)@.tabs.update(
                    ti as int,
                    TabView {
                        focused: if old(self)@.tabs[ti as int].focused == pane {
                            next_focus(
                                old(self)@.panes,
                                proposed,
                                old(self)@.tabs[ti as int].root,
                            )
                        } else {
                            old(self)@.tabs[ti as int].focused
                        },
                        ..old(self)@.tabs[ti as int]
                    },
                ),
                ..old(self)@
            }),
    {
        if self.tabs[ti].focused == pane {
            let fallback = self.tabs[ti].tree.first_pane();
            let next = match proposed {
                Some(p) => if self.panes.contains_key(&p) {
                    p
                } else {
                    fallback
                },
                None => fallback,
            };
            self.tabs[ti].focused = next;
        }
        assert(self@.tabs =~= old(self)@.tabs.update(ti as int, self@.tabs[ti as int]));
    }

    /// Tears pane `src` out of the active tab into its own new tab, inserted at strip
    /// slot `insert_at`. The new tab becomes active; the source tab keeps its
    /// remaining panes. Nothing happens where the pane is not in the active tab, or
    /// is alone there.
    pub fn tear_pane_to_tab(&mut self, src: PaneId, insert_at: usize)
        requires
            old(self).active < old(self).tabs@.len(),
        ensures
            final(self)@ == after_tear(old(self)@, src, insert_at as int),
    {
        let active = self.active;
        if !self.tabs[active].tree.contains(src) {
            return;
        }
        let next = self.tabs[active].tree.focus_after_close(src);
        if !self.tabs[active].tree.close(src) {
            assert(self@ =~= old(self)@);
            return;
        }
        // Keep the source tab's focus pointing at a pane it still owns.
        self.refocus(active, src, next);
        let ghost rest = old(self)@.tabs.update(
            active as int,
            tab_without(old(self)@.tabs[active as int], src, old(self)@.panes),
        );
        assert(self@.tabs =~= rest);
        let at = if insert_at < self.tabs.len() {
            insert_at
        } else {
            self.tabs.len()
        };
        self.tabs.insert(at, plain_tab(src));
        assert(tab_views(self.tabs@) =~= rest.insert(at as int, fresh_tab(src)));
        self.active = at;
        assert(self@ =~= after_tear(old(self)@, src, insert_at as int));
    }

    fn drop_search(&mut self, pane: PaneId)
        ensures
            final(self)@ == (State {
                search: search_without(old(self)@.search, pane),
                ..old(self)@
            }),
            final(self).tabs == old(self).tabs,
            final(self).panes == old(self).panes,
    {
        let hit = match &self.search {
            Some(s) => s.pane == pane,
            None => false,
        };
        if hit {
            self.search = None;
        }
    }

    fn remove_tab(&mut self, ti: usize) -> (r: Tab)
        requires
            ti < old(self).tabs@.len(),
        ensures
            final(self)@ == without_tab(old(self)@, ti as int),
            r == old(self).tabs@[ti as int],
    {
        let tab = self.tabs.remove(ti);
        let n = self.tabs.len();
        if n > 0 {
            if self.active >= n {
                self.active = n - 1;
            } else if self.active > ti {
                self.active = self.active - 1;
            }
        }
        assert(self@ =~= without_tab(old(self)@, ti as int));
        tab
    }

    /// Closes a pane, and its tab when it was the last one there. The terminal of the
    /// pane is to be dropped; the result says whether the window is to be closed,
    /// which is where the last tab went. Closing a pane that is gone does nothing.
    pub fn close_pane(&mut self, pane: PaneId) -> (close_window: bool)
        ensures
            final(self)@ == after_close_pane(old(self)@, pane),
            close_window == close_pane_ends(old(self)@, pane),
    {
        if !self.panes.contains_key(&pane) {
            return false;
        }
        self.drop_search(pane);
        let found = self.position(pane);
        let ti = match found {
            Some(ti) => ti,
            None => {
                self.panes.remove(&pane);
                assert(self@ =~= after_close_pane(old(self)@, pane));
                return false;
            },
        };
        proof {
            lemma_owner(self@.tabs, pane);
        }
        let next = self.tabs[ti].tree.focus_after_close(pane);
        let removed = self.tabs[ti].tree.close(pane);
        self.panes.remove(&pane);
        assert(self@.panes =~= old(self)@.panes.remove(pane));
        if !removed {
            assert(self@.tabs =~= old(self)@.tabs);
            self.remove_tab(ti);
            self.tabs.len() == 0
        } else {
            self.refocus(ti, pane, next);
            assert(self@ =~= after_close_pane(old(self)@, pane));
            false
        }
    }

    /// Closes a whole tab: every pane in its tree, then the tab itself. The terminals
    /// of the panes in the result are to be dropped, and the window is to be closed
    /// where it says so, which is where the last tab went.
    pub fn close_tab(&mut self, ti: usize) -> (r: (Vec<PaneId>, bool))
        ensures
            final(self)@ == after_close_tab(old(self)@, ti as int),
            r.0@ == (if ti < old(self).tabs@.len() {
                leaves(old(self)@.tabs[ti as int].root)
            } else {
                Seq::empty()
            }),
            r.1 == (ti < old(self).tabs@.len() && old(self).tabs@.len() == 1),
    {
        if ti >= self.tabs.len() {
            return (Vec::new(), false);
        }
        let gone = self.tabs[ti].tree.panes_in_order();
        let mut i: usize = 0;
        while i < gone.len()
            invariant
                i <= gone@.len(),
                self@ == without_panes(old(self)@, gone@.take(i as int)),
                self.tabs == old(self).tabs,
            decreases gone@.len() - i,
        {
            let pane = gone[i];
            assert(gone@.take(i + 1).drop_last() == gone@.take(i as int));
            self.drop_search(pane);
            self.panes.remove(&pane);
            assert(self@ =~= without_panes(old(self)@, gone@.take(i + 1)));
            i += 1;
        }
        assert(gone@.take(i as int) == gone@);
        self.remove_tab(ti);
        (gone, self.tabs.len() == 0)
    }
}

} // verus!
