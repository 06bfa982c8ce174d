//! The area of the panes: which of them takes the keyboard and the mouse, where a
//! dragged tab or pane would land, and what the frame asks for at its end.

use vstd::prelude::*;

use crate::app::{
    after_close_pane, after_merge, after_move, close_pane_ends, Area, SearchView, State, TabView,
    Tessera,
};
use crate::frame::{if_pane, with_focus};
use crate::layout::{law_ratio_keeps_panes, leaves, with_ratio, Axis, Node, PaneId, Ratio};
use crate::strip::shown_name;

verus! {

broadcast use vstd::std_specs::hash::group_hash_axioms;

/// Whether shortcuts work: not while the rename or the quit dialog is open.
pub open spec fn shortcuts_on(s: State) -> bool {
    s.editing is None && !s.confirm_quit
}

/// Whether the focused pane gets the keyboard. The rename and quit dialogs take it; a
/// search has it until the user clicks into a pane.
pub open spec fn panes_take_keys(s: State) -> bool {
    shortcuts_on(s) && (s.search matches Some(f) ==> f.terminal_focused)
}

/// Where the pointer is on a pane.
#[derive(Clone, Copy, Debug, PartialEq, Eq, Structural)]
pub struct PanePointer {
    pub over_pane: bool,
    pub over_grip: bool,
    pub over_close: bool,
}

/// What a pane shows, and whether the pointer reaches its terminal.
#[derive(Clone, Copy, Debug, PartialEq, Eq, Structural)]
pub struct PaneLook {
    /// Whether the terminal gets the mouse.
    pub mouse: bool,
    /// Whether the drag grip is there.
    pub grip: bool,
    /// Whether the close button is there.
    pub close: bool,
}

/// What a pane shows. The grip is only there where the tab has several panes, under
/// the pointer while nothing is dragged, and on the pane that is being dragged. The
/// terminal does not get the mouse over the grip or the close button, nor while its
/// pane is dragged.
pub open spec fn look_of(
    s: State,
    pane: PaneId,
    several: bool,
    at: PanePointer,
    tab_dragged: bool,
) -> PaneLook {
    let dragged = s.pane_grip_down == Some(pane);
    PaneLook {
        mouse: !((several && at.over_grip) || at.over_close || dragged),
        grip: several && ((at.over_pane && s.pane_grip_down is None) || dragged),
        close: at.over_pane && s.pane_grip_down is None && !tab_dragged && s.editing is None,
    }
}

/// What the pointer does to a pane, its grip and its close button.
#[derive(Clone, Copy, Debug, PartialEq, Eq, Structural)]
pub struct PaneGesture {
    pub pane: PaneId,
    pub clicked: bool,
    pub grip_clicked: bool,
    pub grip_held: bool,
    pub close_clicked: bool,
}

/// The last pane that is clicked, on its terminal or on its grip.
pub open spec fn clicked_pane(gestures: Seq<PaneGesture>) -> Option<PaneId>
    decreases gestures.len(),
{
    if gestures.len() == 0 {
        None
    } else if gestures.last().clicked || gestures.last().grip_clicked {
        Some(gestures.last().pane)
    } else {
        clicked_pane(gestures.drop_last())
    }
}

/// The last pane whose grip is held, or the one from before.
pub open spec fn held_pane(gestures: Seq<PaneGesture>, before: Option<PaneId>) -> Option<PaneId>
    decreases gestures.len(),
{
    if gestures.len() == 0 {
        before
    } else if gestures.last().grip_held {
        Some(gestures.last().pane)
    } else {
        held_pane(gestures.drop_last(), before)
    }
}

/// The last pane whose close button is clicked.
pub open spec fn closed_pane(gestures: Seq<PaneGesture>) -> Option<PaneId>
    decreases gestures.len(),
{
    if gestures.len() == 0 {
        None
    } else if gestures.last().close_clicked {
        Some(gestures.last().pane)
    } else {
        closed_pane(gestures.drop_last())
    }
}

/// The last of `under` that is not `src`: the pane to drop pane `src` on.
pub open spec fn target_pane(under: Seq<PaneId>, src: PaneId) -> Option<PaneId>
    decreases under.len(),
{
    if under.len() == 0 {
        None
    } else if under.last() != src {
        Some(under.last())
    } else {
        target_pane(under.drop_last(), src)
    }
}

/// The pane that the dragged pane `src` would be dropped on: the one under the
/// pointer, unless it is that pane itself. `under` are the panes under the pointer.
pub fn drop_target(under: &Vec<PaneId>, src: PaneId) -> (r: Option<PaneId>)
    ensures
        r == target_pane(under@, src),
{
    let mut found: Option<PaneId> = None;
    let mut i: usize = 0;
    while i < under.len()
        invariant
            i <= under@.len(),
            found == target_pane(under@.take(i as int), src),
        decreases under@.len() - i,
    {
        assert(under@.take(i + 1).drop_last() =~= under@.take(i as int));
        if under[i] != src {
            found = Some(under[i]);
        }
        i += 1;
    }
    assert(under@.take(i as int) =~= under@);
    found
}

/// The edge that is nearest, given the distances to all four, as the axis to split
/// along and whether the dropped pane goes behind. Of equally near ones the first
/// counts: left, right, top, bottom.
pub open spec fn nearest_side(left: u32, right: u32, top: u32, bottom: u32) -> (Axis, bool) {
    if left <= right && left <= top && left <= bottom {
        (Axis::Horizontal, false)
    } else if right <= top && right <= bottom {
        (Axis::Horizontal, true)
    } else if top <= bottom {
        (Axis::Vertical, false)
    } else {
        (Axis::Vertical, true)
    }
}

/// Decides on which side of a pane something is dropped, by the distances to its
/// edges: near the left edge it goes to the left, near the bottom it goes below. The
/// result is the axis to split along, and whether the dropped pane goes behind.
///
/// The distances may be given by the bits of single-precision numbers that are not
/// negative, which are ordered as the numbers are.
pub fn drop_side(left: u32, right: u32, top: u32, bottom: u32) -> (r: (Axis, bool))
    ensures
        r == nearest_side(left, right, top, bottom),
{
    let mut nearest = left;
    if right < nearest {
        nearest = right;
    }
    if top < nearest {
        nearest = top;
    }
    if bottom < nearest {
        nearest = bottom;
    }
    if nearest == left {
        (Axis::Horizontal, false)
    } else if nearest == right {
        (Axis::Horizontal, true)
    } else if nearest == top {
        (Axis::Vertical, false)
    } else {
        (Axis::Vertical, true)
    }
}

/// A rectangle by its corners, over any kind of coordinate.
#[derive(Debug)]
pub struct Bounds<T> {
    pub left: T,
    pub top: T,
    pub right: T,
    pub bottom: T,
}

/// The half of `rect` on one side of its centre `(x, y)`.
pub open spec fn half_of<T>(rect: Bounds<T>, x: T, y: T, axis: Axis, after: bool) -> Bounds<T> {
    match (axis, after) {
        (Axis::Horizontal, false) => Bounds { right: x, ..rect },
        (Axis::Horizontal, true) => Bounds { left: x, ..rect },
        (Axis::Vertical, false) => Bounds { bottom: y, ..rect },
        (Axis::Vertical, true) => Bounds { top: y, ..rect },
    }
}

/// The half of `rect` that a drop would occupy, for the preview. `(x, y)` is its
/// centre.
pub fn drop_half<T: Copy>(rect: Bounds<T>, x: T, y: T, axis: Axis, after: bool) -> (r: Bounds<T>)
    ensures
        r == half_of(rect, x, y, axis, after),
{
    let Bounds { left, top, right, bottom } = rect;
    match (axis, after) {
        (Axis::Horizontal, false) => Bounds { left, top, right: x, bottom },
        (Axis::Horizontal, true) => Bounds { left: x, top, right, bottom },
        (Axis::Vertical, false) => Bounds { left, top, right, bottom: y },
        (Axis::Vertical, true) => Bounds { left, top: y, right, bottom },
    }
}

/// Where something is dropped: the pane, and the side of it.
#[derive(Clone, Copy, Debug, PartialEq, Eq, Structural)]
pub struct DropSpot {
    pub target: PaneId,
    pub axis: Axis,
    pub after: bool,
}

/// What the area of the panes asks for at the end of a frame.
#[derive(Debug)]
pub struct PanesInput {
    pub gestures: Vec<PaneGesture>,
    /// Whether any button of the pointer is down.
    pub any_down: bool,
    /// The borders that were dragged: splits by their number, and the new ratio.
    pub ratios: Vec<(usize, Ratio)>,
    /// The tab that was dropped on a pane, and where.
    pub merged: Option<(usize, DropSpot)>,
    /// The pane that was dropped on another one, and where.
    pub moved: Option<(PaneId, DropSpot)>,
}

/// What a `PanesInput` holds.
pub struct PanesInputView {
    pub gestures: Seq<PaneGesture>,
    pub any_down: bool,
    pub ratios: Seq<(usize, Ratio)>,
    pub merged: Option<(usize, DropSpot)>,
    pub moved: Option<(PaneId, DropSpot)>,
}

impl View for PanesInput {
    type V = PanesInputView;

    open spec fn view(&self) -> PanesInputView {
        PanesInputView {
            gestures: self.gestures@,
            any_down: self.any_down,
            ratios: self.ratios@,
            merged: self.merged,
            moved: self.moved,
        }
    }
}

/// The state once the grip was looked at: a drag ends when no button is held.
pub open spec fn after_grip(s: State, input: PanesInputView) -> State {
    State {
        pane_grip_down: if input.any_down {
            held_pane(input.gestures, s.pane_grip_down)
        } else {
            None
        },
        ..s
    }
}

/// The state once a click on a pane was looked at: it focuses the pane, and during a
/// search hands the keyboard to the terminal.
pub open spec fn after_click(s: State, clicked: Option<PaneId>) -> State {
    match clicked {
        Some(p) => State {
            search: match s.search {
                Some(f) => Some(SearchView { terminal_focused: true, ..f }),
                None => None,
            },
            ..with_focus(s, p)
        },
        None => s,
    }
}

/// A tree once its borders were dragged, in order.
pub open spec fn with_ratios(n: Node, ratios: Seq<(usize, Ratio)>) -> Node
    decreases ratios.len(),
{
    if ratios.len() == 0 {
        n
    } else {
        with_ratio(
            with_ratios(n, ratios.drop_last()),
            ratios.last().0 as nat,
            ratios.last().1,
        )
    }
}

/// The state once the borders in the active tab were dragged.
pub open spec fn after_ratios(s: State, ratios: Seq<(usize, Ratio)>) -> State {
    let tab = s.tabs[s.active];
    State {
        tabs: s.tabs.update(s.active, TabView { root: with_ratios(tab.root, ratios), ..tab }),
        ..s
    }
}

/// The state once a tab was dropped on a pane.
pub open spec fn after_merged(s: State, merged: Option<(usize, DropSpot)>) -> State {
    match merged {
        Some((src, at)) => after_merge(s, src as int, at.target, at.axis, at.after),
        None => s,
    }
}

/// The state once a pane was dropped on another one.
pub open spec fn after_moved(s: State, moved: Option<(PaneId, DropSpot)>) -> State {
    match moved {
        Some((src, at)) => after_move(s, src, at.target, at.axis, at.after),
        None => s,
    }
}

/// The state before a close button takes effect.
pub open spec fn before_close(s: State, input: PanesInputView) -> State {
    let t = after_click(after_grip(s, input), clicked_pane(input.gestures));
    after_moved(after_merged(after_ratios(t, input.ratios), input.merged), input.moved)
}

/// The state once all that the panes ask for has been carried out.
pub open spec fn after_panes(s: State, input: PanesInputView) -> State {
    match closed_pane(input.gestures) {
        Some(p) => after_close_pane(before_close(s, input), p),
        None => before_close(s, input),
    }
}

/// The title of a pane that is dragged: its own, or the shell's where there is no
/// such pane.
pub open spec fn pane_title_of(s: State, pane: PaneId) -> Seq<char> {
    if s.panes.contains_key(pane) {
        s.panes[pane]
    } else {
        s.default_title
    }
}

impl Tessera {
    /// Whether shortcuts work: not while the rename or the quit dialog is open.
    pub fn shortcuts_enabled(&self) -> (r: bool)
        ensures
            r == shortcuts_on(self@),
    {
        self.editing.is_none() && !self.confirm_quit
    }

    /// Whether the focused pane gets the keyboard.
    pub fn panes_focusable(&self) -> (r: bool)
        ensures
            r == panes_take_keys(self@),
    {
        let search_yields = match &self.search {
            Some(f) => f.terminal_focused,
            None => true,
        };
        self.editing.is_none() && !self.confirm_quit && search_yields
    }

    /// The text of the status bar: the active tab's name, or the shell's.
    pub fn status_title(&self) -> (r: String)
        ensures
            r@ == seq!['▌', ' '] + (if self@.active < self@.tabs.len() {
                shown_name(self@.tabs[self@.active], self@.default_title)
            } else {
                self@.default_title
            }),
    {
        let name = if self.active < self.tabs.len() {
            self.tab_name(self.active)
        } else {
            self.default_title.clone()
        };
        let mut r = "▌ ".to_owned();
        proof {
            reveal_strlit("▌ ");
        }
        assert(r@ =~= seq!['▌', ' ']);
        r.append(name.as_str());
        r
    }

    /// The title of a pane that is dragged.
    pub fn pane_title(&self, pane: PaneId) -> (r: String)
        ensures
            r@ == pane_title_of(self@, pane),
    {
        match self.panes.get(&pane) {
            Some(title) => title.clone(),
            None => self.default_title.clone(),
        }
    }

    /// The pane that files dropped on the window are pasted into: the focused one of
    /// the active tab, where it is there.
    pub fn paste_target(&self) -> (r: Option<PaneId>)
        ensures
            r == (if self@.active < self@.tabs.len() {
                if_pane(self@, self@.tabs[self@.active].focused)
            } else {
                None
            }),
    {
        if self.active < self.tabs.len() {
            let pane = self.tabs[self.active].focused;
            if self.panes.contains_key(&pane) {
                return Some(pane);
            }
        }
        None
    }

    /// What a pane shows, and whether its terminal gets the mouse. `several` says
    /// whether its tab has other panes, `tab_dragged` whether a tab is being dragged.
    pub fn pane_look(&self, pane: PaneId, several: bool, at: PanePointer, tab_dragged: bool) -> (r:
        PaneLook)
        ensures
            r == look_of(self@, pane, several, at, tab_dragged),
    {
        let dragged = match self.pane_grip_down {
            Some(p) => p == pane,
            None => false,
        };
        PaneLook {
            mouse: !((several && at.over_grip) || at.over_close || dragged),
            grip: several && ((at.over_pane && self.pane_grip_down.is_none()) || dragged),
            close: at.over_pane && self.pane_grip_down.is_none() && !tab_dragged
                && self.editing.is_none(),
        }
    }

    /// Takes note of where the active tab is drawn.
    pub fn set_area(&mut self, area: Area)
        requires
            old(self).active < old(self).tabs@.len(),
        ensures
            final(self)@ == (State {
                tabs: old(self)@.tabs.update(
                    old(self)@.active,
                    TabView { last_area: area, ..old(self)@.tabs[old(self)@.active] },
                ),
                ..old(self)@
            }),
    {
        let active = self.active;
        self.tabs[active].last_area = area;
        assert(self@.tabs =~= old(self)@.tabs.update(
            active as int,
            TabView { last_area: area, ..old(self)@.tabs[active as int] },
        ));
    }

    fn set_ratios(&mut self, ratios: &Vec<(usize, Ratio)>)
        requires
            old(self).active < old(self).tabs@.len(),
        ensures
            final(self)@ == after_ratios(old(self)@, ratios@),
    {
        let active = self.active;
        let mut i: usize = 0;
        assert(self@ =~= after_ratios(old(self)@, ratios@.take(0)));
        while i < ratios.len()
            invariant
                i <= ratios@.len(),
                active == old(self).active,
                active < self.tabs@.len(),
                active < old(self).tabs@.len(),
                self@ == after_ratios(old(self)@, ratios@.take(i as int)),
            decreases ratios@.len() - i,
        {
            assert(ratios@.take(i + 1).drop_last() =~= ratios@.take(i as int));
            let ghost before = self@;
            self.tabs[active].tree.set_ratio(ratios[i].0, ratios[i].1);
            assert(self@.tabs =~= before.tabs.update(
                active as int,
                TabView {
                    root: with_ratio(
                        before.tabs[active as int].root,
                        ratios@[i as int].0 as nat,
                        ratios@[i as int].1,
                    ),
                    ..before.tabs[active as int]
                },
            ));
            i += 1;
            assert(self@ =~= after_ratios(old(self)@, ratios@.take(i as int)));
        }
        assert(ratios@.take(i as int) =~= ratios@);
    }

    /// Carries out what the panes ask for at the end of a frame, in this order: the
    /// grip, a click, dragged borders, a dropped tab, a dropped pane, a close button.
    /// Gives the pane whose terminal is to be dropped, and whether the window is to be
    /// closed.
    pub fn apply_panes(&mut self, input: &PanesInput) -> (r: (Option<PaneId>, bool))
        requires
            old(self).active < old(self).tabs@.len(),
        ensures
            final(self)@ == after_panes(old(self)@, input@),
            r == (match closed_pane(input@.gestures) {
                Some(p) => (
                    if_pane(before_close(old(self)@, input@), p),
                    close_pane_ends(before_close(old(self)@, input@), p),
                ),
                None => (None::<PaneId>, false),
            }),
    {
        let mut clicked: Option<PaneId> = None;
        let mut held: Option<PaneId> = self.pane_grip_down;
        let mut closed: Option<PaneId> = None;
        let mut i: usize = 0;
        while i < input.gestures.len()
            invariant
                i <= input.gestures@.len(),
                self == old(self),
                clicked == clicked_pane(input.gestures@.take(i as int)),
                held == held_pane(input.gestures@.take(i as int), old(self)@.pane_grip_down),
                closed == closed_pane(input.gestures@.take(i as int)),
            decreases input.gestures@.len() - i,
        {
            assert(input.gestures@.take(i + 1).drop_last() =~= input.gestures@.take(i as int));
            let g = input.gestures[i];
            if g.clicked || g.grip_clicked {
                clicked = Some(g.pane);
            }
            if g.grip_held {
                held = Some(g.pane);
            }
            if g.close_clicked {
                closed = Some(g.pane);
            }
            i += 1;
        }
        assert(input.gestures@.take(i as int) =~= input.gestures@);
        self.pane_grip_down = if input.any_down {
            held
        } else {
            None
        };
        let ghost s1 = after_grip(old(self)@, input@);
        assert(self@ =~= s1);
        if let Some(p) = clicked {
            let active = self.active;
            self.tabs[active].focused = p;
            if let Some(f) = &mut self.search {
                f.terminal_focused = true;
            }
        }
        assert(self@ =~= after_click(s1, clicked));
        self.set_ratios(&input.ratios);
        if let Some((src, at)) = input.merged {
            proof {
                crate::app::lemma_owner(self@.tabs, at.target);
            }
            self.merge_tab(src, at.target, at.axis, at.after);
        }
        if let Some((src, at)) = input.moved {
            self.move_pane(src, at.target, at.axis, at.after);
        }
        assert(self@ == before_close(old(self)@, input@));
        match closed {
            Some(p) => {
                let dropped = if self.panes.contains_key(&p) {
                    Some(p)
                } else {
                    None
                };
                (dropped, self.close_pane(p))
            },
            None => (None, false),
        }
    }
}

/// Dragging borders changes neither the panes of a tab nor their order.
pub proof fn law_ratios_keep_panes(n: Node, ratios: Seq<(usize, Ratio)>)
    ensures
        leaves(with_ratios(n, ratios)) == leaves(n),
    decreases ratios.len(),
{
    if ratios.len() > 0 {
        law_ratios_keep_panes(n, ratios.drop_last());
        law_ratio_keeps_panes(
            with_ratios(n, ratios.drop_last()),
            ratios.last().0 as nat,
            ratios.last().1,
        );
    }
}

/// While a dialog is open no keystroke reaches a terminal, neither by itself nor as a
/// shortcut.
pub proof fn law_dialogs_take_keys(s: State)
    requires
        s.editing is Some || s.confirm_quit,
    ensures
        !shortcuts_on(s),
        !panes_take_keys(s),
{
}

/// A click into a pane during a search hands the keyboard to the terminal, and the
/// search stays.
pub proof fn law_click_during_search(s: State, p: PaneId)
    requires
        s.search is Some,
        shortcuts_on(s),
    ensures
        panes_take_keys(after_click(s, Some(p))),
        after_click(s, Some(p)).search is Some,
        after_click(s, Some(p)).search->0.query == s.search->0.query,
{
}

/// The pane that a click focuses is that of the last gesture that clicked one, on the pane or
/// on its grip.
pub proof fn law_clicked_is_last(gestures: Seq<PaneGesture>)
    ensures
        match clicked_pane(gestures) {
            Some(p) => exists|i: int|
                #![trigger gestures[i]]
                0 <= i < gestures.len() && gestures[i].pane == p && (gestures[i].clicked
                    || gestures[i].grip_clicked) && forall|j: int|
                    i < j < gestures.len() ==> !(#[trigger] gestures[j]).clicked
                        && !gestures[j].grip_clicked,
            None => forall|j: int|
                0 <= j < gestures.len() ==> !(#[trigger] gestures[j]).clicked
                    && !gestures[j].grip_clicked,
        },
    decreases gestures.len(),
{
    if gestures.len() > 0 {
        let init = gestures.drop_last();
        law_clicked_is_last(init);
        assert forall|j: int| 0 <= j < init.len() implies #[trigger] gestures[j] == init[j] by {}
        let last = gestures[gestures.len() - 1];
        if last.clicked || last.grip_clicked {
            assert(gestures.last() == last);
        } else if let Some(p) = clicked_pane(init) {
            let i = choose|i: int|
                #![trigger init[i]]
                0 <= i < init.len() && init[i].pane == p && (init[i].clicked
                    || init[i].grip_clicked) && forall|j: int|
                    i < j < init.len() ==> !(#[trigger] init[j]).clicked && !init[j].grip_clicked;
            assert(gestures[i] == init[i]);
        }
    }
}

/// The pane that is closed is that of the last gesture on a close button.
pub proof fn law_closed_is_last(gestures: Seq<PaneGesture>)
    ensures
        match closed_pane(gestures) {
            Some(p) => exists|i: int|
                #![trigger gestures[i]]
                0 <= i < gestures.len() && gestures[i].pane == p && gestures[i].close_clicked
                    && forall|j: int|
                    i < j < gestures.len() ==> !(#[trigger] gestures[j]).close_clicked,
            None => forall|j: int|
                0 <= j < gestures.len() ==> !(#[trigger] gestures[j]).close_clicked,
        },
    decreases gestures.len(),
{
    if gestures.len() > 0 {
        let init = gestures.drop_last();
        law_closed_is_last(init);
        assert forall|j: int| 0 <= j < init.len() implies #[trigger] gestures[j] == init[j] by {}
        let last = gestures[gestures.len() - 1];
        if last.close_clicked {
            assert(gestures.last() == last);
        } else if let Some(p) = closed_pane(init) {
            let i = choose|i: int|
                #![trigger init[i]]
                0 <= i < init.len() && init[i].pane == p && init[i].close_clicked && forall|j: int|
                    i < j < init.len() ==> !(#[trigger] init[j]).close_clicked;
            assert(gestures[i] == init[i]);
        }
    }
}

/// The pane that is dragged is that of the last gesture that holds a grip, or else the one
/// from before.
pub proof fn law_held_is_last(gestures: Seq<PaneGesture>, before: Option<PaneId>)
    ensures
        ({
            let held = held_pane(gestures, before);
            ||| held == before && forall|j: int|
                0 <= j < gestures.len() ==> !(#[trigger] gestures[j]).grip_held
            ||| exists|i: int|
                #![trigger gestures[i]]
                0 <= i < gestures.len() && held == Some(gestures[i].pane) && gestures[i].grip_held
                    && forall|j: int|
                    i < j < gestures.len() ==> !(#[trigger] gestures[j]).grip_held
        }),
    decreases gestures.len(),
{
    if gestures.len() > 0 {
        let init = gestures.drop_last();
        law_held_is_last(init, before);
        assert forall|j: int| 0 <= j < init.len() implies #[trigger] gestures[j] == init[j] by {}
        let last = gestures[gestures.len() - 1];
        let held = held_pane(init, before);
        if last.grip_held {
            assert(gestures.last() == last);
        } else if !(held == before && forall|j: int|
            0 <= j < init.len() ==> !(#[trigger] init[j]).grip_held) {
            let i = choose|i: int|
                #![trigger init[i]]
                0 <= i < init.len() && held == Some(init[i].pane) && init[i].grip_held
                    && forall|j: int| i < j < init.len() ==> !(#[trigger] init[j]).grip_held;
            assert(gestures[i] == init[i]);
        }
    }
}

/// A pane is dropped on the last one under the pointer that is not the dragged one.
pub proof fn law_target_is_last(under: Seq<PaneId>, src: PaneId)
    ensures
        match target_pane(under, src) {
            Some(p) => p != src && exists|i: int|
                #![trigger under[i]]
                0 <= i < under.len() && under[i] == p && forall|j: int|
                    i < j < under.len() ==> #[trigger] under[j] == src,
            None => forall|j: int| 0 <= j < under.len() ==> #[trigger] under[j] == src,
        },
    decreases under.len(),
{
    if under.len() > 0 {
        let init = under.drop_last();
        law_target_is_last(init, src);
        assert forall|j: int| 0 <= j < init.len() implies #[trigger] under[j] == init[j] by {}
        let last = under[under.len() - 1];
        if last != src {
            assert(under.last() == last);
        } else if let Some(p) = target_pane(init, src) {
            let i = choose|i: int|
                #![trigger init[i]]
                0 <= i < init.len() && init[i] == p && forall|j: int|
                    i < j < init.len() ==> #[trigger] init[j] == src;
            assert(under[i] == init[i]);
        }
    }
}

/// A drop near an edge goes to that side: to the left of the pane near its left edge, to the
/// right near its right one, above it near the top and below it near the bottom.
pub proof fn law_drop_goes_to_nearest(left: u32, right: u32, top: u32, bottom: u32)
    ensures
        ({
            let side = nearest_side(left, right, top, bottom);
            &&& left < right && left < top && left < bottom ==> side == (Axis::Horizontal, false)
            &&& right < left && right < top && right < bottom ==> side == (Axis::Horizontal, true)
            &&& top < left && top < right && top < bottom ==> side == (Axis::Vertical, false)
            &&& bottom < left && bottom < right && bottom < top ==> side == (Axis::Vertical, true)
            &&& side == (Axis::Horizontal, false) ==> left <= right && left <= top && left <= bottom
            &&& side == (Axis::Horizontal, true) ==> right < left && right <= top && right <= bottom
            &&& side == (Axis::Vertical, false) ==> top < left && top < right && top <= bottom
            &&& side == (Axis::Vertical, true) ==> bottom < left && bottom < right && bottom < top
        }),
{
}

/// The two halves of a rectangle along an axis meet at its centre and make up the whole.
pub proof fn law_halves_meet<T>(rect: Bounds<T>, x: T, y: T)
    ensures
        ({
            let (l, r) = (
                half_of(rect, x, y, Axis::Horizontal, false),
                half_of(rect, x, y, Axis::Horizontal, true),
            );
            let (t, b) = (
                half_of(rect, x, y, Axis::Vertical, false),
                half_of(rect, x, y, Axis::Vertical, true),
            );
            &&& l.left == rect.left && l.right == x && r.left == x && r.right == rect.right
            &&& l.top == rect.top && l.bottom == rect.bottom
            &&& r.top == rect.top && r.bottom == rect.bottom
            &&& t.top == rect.top && t.bottom == y && b.top == y && b.bottom == rect.bottom
            &&& t.left == rect.left && t.right == rect.right
            &&& b.left == rect.left && b.right == rect.right
        }),
{
}

/// A pane that is dragged gets no mouse and keeps its grip; a pane gets no mouse over its grip
/// or its close button; a pane that is alone has no grip; and while something is dragged no
/// other pane has one, and none a close button. Under the pointer, with nothing going on, a
/// pane has its close button, and its grip where there are others.
pub proof fn law_pane_look(
    s: State,
    pane: PaneId,
    several: bool,
    at: PanePointer,
    tab_dragged: bool,
)
    ensures
        ({
            let look = look_of(s, pane, several, at, tab_dragged);
            let held = s.pane_grip_down;
            &&& held == Some(pane) ==> !look.mouse && look.grip == several && !look.close
            &&& at.over_close || (several && at.over_grip) ==> !look.mouse
            &&& held != Some(pane) && !at.over_close && !at.over_grip ==> look.mouse
            &&& held != Some(pane) && !at.over_close && !several ==> look.mouse
            &&& !several ==> !look.grip
            &&& held is Some && held != Some(pane) ==> !look.grip && !look.close
            &&& !at.over_pane && held is None ==> !look.grip
            &&& !at.over_pane ==> !look.close
            &&& tab_dragged || s.editing is Some ==> !look.close
            &&& at.over_pane && held is None ==> look.grip == several
            &&& at.over_pane && held is None && !tab_dragged && s.editing is None ==> look.close
        }),
{
}

/// Panes that ask for nothing: no gesture, no border, no drop.
pub open spec fn quiet_panes(any_down: bool) -> PanesInputView {
    PanesInputView {
        gestures: Seq::empty(),
        any_down,
        ratios: Seq::empty(),
        merged: None,
        moved: None,
    }
}

/// Panes that ask for nothing leave everything but a drag, which ends when no button is held.
pub proof fn law_panes_quiet(s: State, any_down: bool)
    requires
        0 <= s.active < s.tabs.len(),
    ensures
        after_panes(s, quiet_panes(any_down)) == (State {
            pane_grip_down: if any_down {
                s.pane_grip_down
            } else {
                None
            },
            ..s
        }),
{
    let t = after_panes(s, quiet_panes(any_down));
    assert(t.tabs =~= s.tabs);
}

/// A click focuses the clicked pane of the active tab, and hands a search's keyboard to the
/// terminals. Nothing else changes.
pub proof fn law_click_focuses(s: State, p: PaneId)
    requires
        0 <= s.active < s.tabs.len(),
    ensures
        ({
            let t = after_click(s, Some(p));
            &&& t.tabs[s.active] == (TabView { focused: p, ..s.tabs[s.active] })
            &&& t.tabs.len() == s.tabs.len()
            &&& forall|i: int|
                0 <= i < s.tabs.len() && i != s.active ==> #[trigger] t.tabs[i] == s.tabs[i]
            &&& s.search is Some ==> t.search == Some(
                SearchView { terminal_focused: true, ..s.search->0 },
            )
            &&& s.search is None ==> t.search is None
            &&& t == (State { tabs: t.tabs, search: t.search, ..s })
        }),
{
}

/// A tab that is dropped on a pane is merged there, on the side of the drop; a pane that is
/// dropped on another is moved there.
pub proof fn law_panes_drops(s: State, src: usize, pane: PaneId, at: DropSpot)
    requires
        0 <= s.active < s.tabs.len(),
    ensures
        after_panes(s, PanesInputView { merged: Some((src, at)), ..quiet_panes(true) })
            == after_merge(s, src as int, at.target, at.axis, at.after),
        after_panes(s, PanesInputView { moved: Some((pane, at)), ..quiet_panes(true) })
            == after_move(s, pane, at.target, at.axis, at.after),
{
    law_panes_quiet(s, true);
    assert(after_ratios(s, Seq::empty()).tabs =~= s.tabs);
    assert(after_ratios(s, Seq::empty()) == s);
}

/// A click on a close button closes that pane after all else was done.
pub proof fn law_panes_close(s: State, input: PanesInputView, p: PaneId)
    requires
        closed_pane(input.gestures) == Some(p),
    ensures
        after_panes(s, input) == after_close_pane(before_close(s, input), p),
{
}

/// A pane's title is its own; what is no pane has the default one.
pub proof fn law_pane_title(s: State, pane: PaneId)
    ensures
        s.panes.contains_key(pane) ==> pane_title_of(s, pane) == s.panes[pane],
        !s.panes.contains_key(pane) ==> pane_title_of(s, pane) == s.default_title,
{
}

/// Keystrokes reach the terminals while no dialog is open and no search has the keyboard.
pub proof fn law_terminals_take_keys(s: State)
    requires
        s.editing is None,
        !s.confirm_quit,
    ensures
        shortcuts_on(s),
        s.search is None ==> panes_take_keys(s),
        s.search is Some ==> panes_take_keys(s) == s.search->0.terminal_focused,
{
}

/// What the panes ask for is done step by step, each on what the step before led to: the drag
/// of a pane, a click, the borders in their order, a tab that was dropped, a pane that was, and
/// a close button at last.
pub proof fn law_panes_steps(s: State, input: PanesInputView)
    requires
        0 <= s.active < s.tabs.len(),
        input.merged is None || input.moved is None,
    ensures
        ({
            let quiet = quiet_panes(true);
            let a = State {
                pane_grip_down: if input.any_down {
                    held_pane(input.gestures, s.pane_grip_down)
                } else {
                    None
                },
                ..s
            };
            let b = after_click(a, clicked_pane(input.gestures));
            let c = after_panes(b, PanesInputView { ratios: input.ratios, ..quiet });
            let d = after_panes(c, PanesInputView { merged: input.merged, ..quiet });
            before_close(s, input) == (if input.moved is Some {
                after_panes(c, PanesInputView { moved: input.moved, ..quiet })
            } else {
                d
            })
        }),
{
    let quiet = quiet_panes(true);
    let a = after_grip(s, input);
    let b = after_click(a, clicked_pane(input.gestures));
    let c = after_ratios(b, input.ratios);
    assert(after_ratios(c, Seq::empty()).tabs =~= c.tabs);
    assert(after_ratios(c, Seq::empty()) == c);
}

/// Dragged borders are set one after the other, each by its number, and of the active tab
/// alone: nothing else of it changes, nor anything else.
pub proof fn law_borders_in_order(
    s: State,
    a: Seq<(usize, Ratio)>,
    b: Seq<(usize, Ratio)>,
    k: usize,
    r: Ratio,
)
    requires
        0 <= s.active < s.tabs.len(),
    ensures
        after_ratios(s, a + b) == after_ratios(after_ratios(s, a), b),
        after_ratios(s, seq![(k, r)]).tabs[s.active].root == with_ratio(
            s.tabs[s.active].root,
            k as nat,
            r,
        ),
        ({
            let t = after_ratios(s, a);
            &&& t == (State { tabs: t.tabs, ..s })
            &&& t.tabs.len() == s.tabs.len()
            &&& t.tabs[s.active] == (TabView {
                root: t.tabs[s.active].root,
                ..s.tabs[s.active]
            })
            &&& forall|i: int|
                0 <= i < s.tabs.len() && i != s.active ==> #[trigger] t.tabs[i] == s.tabs[i]
        }),
{
    let root = s.tabs[s.active].root;
    lemma_ratios_concat(root, a, b);
    assert(after_ratios(s, a + b).tabs =~= after_ratios(after_ratios(s, a), b).tabs);
    let one = seq![(k, r)];
    assert(one.drop_last() =~= Seq::empty());
    assert(with_ratios(root, one.drop_last()) == root);
}

proof fn lemma_ratios_concat(n: Node, a: Seq<(usize, Ratio)>, b: Seq<(usize, Ratio)>)
    ensures
        with_ratios(n, a + b) == with_ratios(with_ratios(n, a), b),
    decreases b.len(),
{
    if b.len() == 0 {
        assert(a + b =~= a);
    } else {
        lemma_ratios_concat(n, a, b.drop_last());
        assert((a + b).drop_last() =~= a + b.drop_last());
        assert((a + b).last() == b.last());
    }
}

} // verus!
