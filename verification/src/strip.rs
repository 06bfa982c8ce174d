//! The tab strip: what a tab looks like, where a dragged tab or pane lands, and what
//! the strip asks for.

use vstd::prelude::*;

use crate::app::{
    after_close_tab, after_new_tab, after_reorder, after_tear, Editing, EditingView, State, TabView,
    Tessera,
};
use crate::color::{rgb, Color32};
use crate::layout::{leaves, PaneId};

verus! {

/// The fill of a tab: the active one stands out, and so does the one under the
/// pointer.
pub open spec fn fill_of(selected: bool, hovered: bool) -> Color32 {
    if selected {
        rgb(40, 46, 62)
    } else if hovered {
        rgb(36, 38, 47)
    } else {
        rgb(28, 29, 36)
    }
}

/// The fill of a tab.
pub fn tab_fill(selected: bool, hovered: bool) -> (r: Color32)
    ensures
        r == fill_of(selected, hovered),
{
    if selected {
        Color32::from_rgb(40, 46, 62)
    } else if hovered {
        Color32::from_rgb(36, 38, 47)
    } else {
        Color32::from_rgb(28, 29, 36)
    }
}

/// How strongly a tab is tinted with its colour.
pub fn tab_tint(selected: bool) -> (alpha: u8)
    ensures
        alpha == (if selected {
            120u8
        } else {
            70u8
        }),
{
    if selected {
        120
    } else {
        70
    }
}

/// The colours that a tab's menu offers, with their names.
pub open spec fn preset_list() -> Seq<(Seq<char>, Color32)> {
    seq![
        ("Red"@, rgb(220, 80, 80)),
        ("Orange"@, rgb(225, 145, 60)),
        ("Yellow"@, rgb(225, 200, 70)),
        ("Green"@, rgb(110, 190, 110)),
        ("Teal"@, rgb(80, 190, 190)),
        ("Blue"@, rgb(90, 150, 235)),
        ("Purple"@, rgb(170, 120, 225)),
        ("Pink"@, rgb(225, 120, 180)),
    ]
}

/// The colours that a tab's menu offers, with their names.
pub fn tab_presets() -> (r: Vec<(&'static str, Color32)>)
    ensures
        r@.map_values(|p: (&'static str, Color32)| (p.0@, p.1)) == preset_list(),
{
    let mut out: Vec<(&'static str, Color32)> = Vec::new();
    out.push(("Red", Color32::from_rgb(220, 80, 80)));
    out.push(("Orange", Color32::from_rgb(225, 145, 60)));
    out.push(("Yellow", Color32::from_rgb(225, 200, 70)));
    out.push(("Green", Color32::from_rgb(110, 190, 110)));
    out.push(("Teal", Color32::from_rgb(80, 190, 190)));
    out.push(("Blue", Color32::from_rgb(90, 150, 235)));
    out.push(("Purple", Color32::from_rgb(170, 120, 225)));
    out.push(("Pink", Color32::from_rgb(225, 120, 180)));
    assert(out@.map_values(|p: (&'static str, Color32)| (p.0@, p.1)) =~= preset_list());
    out
}

/// What the pointer does to a tab.
#[derive(Clone, Copy, Debug, PartialEq, Eq, Structural)]
pub struct TabGesture {
    pub clicked: bool,
    pub double_clicked: bool,
    /// The tab that is being dragged over this one.
    pub dragged_over: Option<usize>,
}

/// Whether a gesture brings tab `i` to the front: a single click does, and so does
/// another tab that is dragged over it, whose drop targets its panes become.
pub open spec fn brings_to_front(g: TabGesture, i: int) -> bool {
    (g.clicked && !g.double_clicked) || (g.dragged_over matches Some(src) && src != i)
}

/// The last of the tabs that a gesture brings to the front.
pub open spec fn front_choice(gestures: Seq<TabGesture>) -> Option<int>
    decreases gestures.len(),
{
    if gestures.len() == 0 {
        None
    } else if brings_to_front(gestures.last(), gestures.len() - 1) {
        Some(gestures.len() - 1)
    } else {
        front_choice(gestures.drop_last())
    }
}

/// The last of the tabs that are double-clicked.
pub open spec fn rename_choice(gestures: Seq<TabGesture>) -> Option<int>
    decreases gestures.len(),
{
    if gestures.len() == 0 {
        None
    } else if gestures.last().double_clicked {
        Some(gestures.len() - 1)
    } else {
        rename_choice(gestures.drop_last())
    }
}

/// `i`, if there is one, as a mathematical integer.
pub open spec fn opt_int(i: Option<usize>) -> Option<int> {
    match i {
        Some(i) => Some(i as int),
        None => None,
    }
}

/// Which tab the gestures bring to the front, and which one they ask to rename.
pub fn strip_choice(gestures: &Vec<TabGesture>) -> (r: (Option<usize>, Option<usize>))
    ensures
        opt_int(r.0) == front_choice(gestures@),
        opt_int(r.1) == rename_choice(gestures@),
{
    let mut front: Option<usize> = None;
    let mut rename: Option<usize> = None;
    let mut i: usize = 0;
    while i < gestures.len()
        invariant
            i <= gestures@.len(),
            opt_int(front) == front_choice(gestures@.take(i as int)),
            opt_int(rename) == rename_choice(gestures@.take(i as int)),
        decreases gestures@.len() - i,
    {
        assert(gestures@.take(i + 1).drop_last() =~= gestures@.take(i as int));
        let g = gestures[i];
        let over = match g.dragged_over {
            Some(src) => src != i,
            None => false,
        };
        if g.double_clicked {
            rename = Some(i);
        }
        if (g.clicked && !g.double_clicked) || over {
            front = Some(i);
        }
        i += 1;
    }
    assert(gestures@.take(i as int) =~= gestures@);
    (front, rename)
}

/// Whether a tab shows its close button: it does under the pointer, while nothing is
/// dragged and no tab is being renamed.
pub fn close_button_shown(
    hovered: bool,
    dragged: Option<usize>,
    grip: Option<PaneId>,
    renaming: bool,
) -> (r: bool)
    ensures
        r == (hovered && dragged is None && grip is None && !renaming),
{
    hovered && dragged.is_none() && grip.is_none() && !renaming
}

/// The slot that a pointer is at: `before` says of each tab whether the pointer is
/// left of its centre, and the first such tab is the one to land before.
pub open spec fn slot_of(before: Seq<bool>) -> int
    decreases before.len(),
{
    if before.len() == 0 || before[0] {
        0
    } else {
        1 + slot_of(before.drop_first())
    }
}

/// The slot of the strip that a pointer is at: the first tab whose centre it is left
/// of, or the end. `before` says of each tab whether it is.
pub fn insertion_slot(before: &Vec<bool>) -> (r: usize)
    ensures
        r == slot_of(before@),
        r <= before@.len(),
{
    let mut i: usize = 0;
    assert(before@.skip(0) =~= before@);
    while i < before.len() && !before[i]
        invariant
            i <= before@.len(),
            slot_of(before@) == i + slot_of(before@.skip(i as int)),
        decreases before@.len() - i,
    {
        assert(before@.skip(i as int).drop_first() =~= before@.skip(i + 1));
        i += 1;
    }
    i
}

/// The slot where a dragged tab or pane would land, if it would. A dragged tab has
/// to be over the strip; a pane may be anywhere above the panes, so that the gap
/// between the bars is no dead zone.
pub open spec fn landing(
    dragged: Option<usize>,
    grip: Option<PaneId>,
    in_strip: bool,
    above_panes: bool,
    before: Seq<bool>,
) -> Option<int> {
    if (dragged is Some || grip is Some) && before.len() > 0 && (in_strip || (grip is Some
        && above_panes)) {
        Some(slot_of(before))
    } else {
        None
    }
}

/// The slot where a dragged tab (`dragged`) or a pane dragged by its grip (`grip`)
/// would land on the strip, for the insertion mark.
pub fn strip_landing(
    dragged: Option<usize>,
    grip: Option<PaneId>,
    in_strip: bool,
    above_panes: bool,
    before: &Vec<bool>,
) -> (r: Option<usize>)
    ensures
        opt_int(r) == landing(dragged, grip, in_strip, above_panes, before@),
{
    if (dragged.is_some() || grip.is_some()) && before.len() > 0 && (in_strip || (grip.is_some()
        && above_panes)) {
        Some(insertion_slot(before))
    } else {
        None
    }
}

/// What is dropped on the strip, and in which slot.
#[derive(Clone, Copy, Debug, PartialEq, Eq, Structural)]
pub enum StripDrop {
    Tab { src: usize, to: usize },
    Pane { pane: PaneId, to: usize },
}

/// What a release at slot `to` drops: the dragged tab, or else the dragged pane.
pub open spec fn drop_of(dragged: Option<usize>, grip: Option<PaneId>, to: usize) -> Option<
    StripDrop,
> {
    match (dragged, grip) {
        (Some(src), _) => Some(StripDrop::Tab { src, to }),
        (None, Some(pane)) => Some(StripDrop::Pane { pane, to }),
        (None, None) => None,
    }
}

/// What a release at slot `to` drops: the dragged tab, or else the dragged pane.
pub fn strip_drop(dragged: Option<usize>, grip: Option<PaneId>, to: usize) -> (r: Option<
    StripDrop,
>)
    ensures
        r == drop_of(dragged, grip, to),
{
    match (dragged, grip) {
        (Some(src), _) => Some(StripDrop::Tab { src, to }),
        (None, Some(pane)) => Some(StripDrop::Pane { pane, to }),
        (None, None) => None,
    }
}

/// What the strip asks for in a frame.
#[derive(Debug)]
pub struct StripInput {
    /// Whether the new-tab button was clicked, and if so whether the terminal for
    /// the pane `next_id` came up.
    pub open_new: Option<bool>,
    /// The tab whose colour was chosen, and the colour.
    pub color: Option<(usize, Option<Color32>)>,
    /// The tab whose close button was clicked.
    pub close: Option<usize>,
    pub dropped: Option<StripDrop>,
    /// The tab to bring to the front.
    pub front: Option<usize>,
    /// The tab to rename, and the name that it shows.
    pub rename: Option<(usize, String)>,
}

/// What a `StripInput` holds.
pub struct StripInputView {
    pub open_new: Option<bool>,
    pub color: Option<(usize, Option<Color32>)>,
    pub close: Option<usize>,
    pub dropped: Option<StripDrop>,
    pub front: Option<usize>,
    pub rename: Option<(usize, Seq<char>)>,
}

impl View for StripInput {
    type V = StripInputView;

    open spec fn view(&self) -> StripInputView {
        StripInputView {
            open_new: self.open_new,
            color: self.color,
            close: self.close,
            dropped: self.dropped,
            front: self.front,
            rename: match self.rename {
                Some((i, name)) => Some((i, name@)),
                None => None,
            },
        }
    }
}

/// The state once a colour was chosen for a tab.
pub open spec fn after_color(s: State, choice: Option<(usize, Option<Color32>)>) -> State {
    match choice {
        Some((i, color)) => if i < s.tabs.len() {
            State { tabs: s.tabs.update(i as int, TabView { color, ..s.tabs[i as int] }), ..s }
        } else {
            s
        },
        None => s,
    }
}

/// The state once the new-tab button was clicked, or not.
pub open spec fn after_open_new(s: State, open_new: Option<bool>) -> State {
    match open_new {
        Some(started) => after_new_tab(s, started),
        None => s,
    }
}

/// The state once a click or a drop on the strip has been carried out: a close wins
/// over a drop, and that over the change of the active tab which a drag brings along.
pub open spec fn after_strip_action(s: State, input: StripInputView) -> State {
    match (input.close, input.dropped, input.front) {
        (Some(ti), _, _) => after_close_tab(s, ti as int),
        (None, Some(StripDrop::Pane { pane, to }), _) => after_tear(s, pane, to as int),
        (None, Some(StripDrop::Tab { src, to }), _) => after_reorder(s, src as int, to as int),
        (None, None, Some(i)) => State { active: i as int, ..s },
        (None, None, None) => s,
    }
}

/// The state once all that the strip asks for has been carried out.
pub open spec fn after_strip(s: State, input: StripInputView) -> State {
    let t = after_color(after_open_new(s, input.open_new), input.color);
    let t = after_strip_action(t, input);
    match input.rename {
        Some((idx, buf)) => State { editing: Some(EditingView { idx, buf, focused: false }), ..t },
        None => t,
    }
}

/// The panes whose terminals are to be dropped after what the strip asks for.
pub open spec fn strip_drops_panes(s: State, input: StripInputView) -> Seq<PaneId> {
    let tabs = after_open_new(s, input.open_new).tabs;
    match input.close {
        Some(ti) => if ti < tabs.len() {
            leaves(tabs[ti as int].root)
        } else {
            Seq::empty()
        },
        None => Seq::empty(),
    }
}

/// Whether the window is to be closed after what the strip asks for.
pub open spec fn strip_ends(s: State, input: StripInputView) -> bool {
    let tabs = after_open_new(s, input.open_new).tabs;
    input.close matches Some(ti) && ti < tabs.len() && tabs.len() == 1
}

/// The name that a tab shows: its own, or the shell's.
pub open spec fn shown_name(tab: TabView, default_title: Seq<char>) -> Seq<char> {
    match tab.name {
        Some(name) => name,
        None => default_title,
    }
}

impl Tessera {
    /// The name that tab `i` shows: its own, or the shell's. A new tab has none of
    /// its own.
    pub fn tab_name(&self, i: usize) -> (r: String)
        requires
            i < self.tabs@.len(),
        ensures
            r@ == shown_name(self@.tabs[i as int], self@.default_title),
    {
        match &self.tabs[i].name {
            Some(name) => name.clone(),
            None => self.default_title.clone(),
        }
    }

    fn set_color(&mut self, choice: Option<(usize, Option<Color32>)>)
        ensures
            final(self)@ == after_color(old(self)@, choice),
            final(self).next_id == old(self).next_id,
    {
        if let Some((i, color)) = choice {
            if i < self.tabs.len() {
                self.tabs[i].color = color;
                assert(self@ =~= after_color(old(self)@, choice));
            }
        }
    }

    /// Carries out what the strip asks for. Gives the panes whose terminals are to be
    /// dropped, and whether the window is to be closed.
    pub fn apply_strip(&mut self, input: StripInput) -> (r: (Vec<PaneId>, bool))
        requires
            input.open_new is Some ==> old(self).next_id < u64::MAX,
            input.close is None && input.dropped is Some && input.dropped->0 is Pane ==> old(
                self,
            ).active < old(self).tabs@.len(),
        ensures
            final(self)@ == after_strip(old(self)@, input@),
            r.0@ == strip_drops_panes(old(self)@, input@),
            r.1 == strip_ends(old(self)@, input@),
    {
        if let Some(started) = input.open_new {
            self.new_tab(started);
        }
        self.set_color(input.color);
        let r = match input.close {
            Some(ti) => self.close_tab(ti),
            None => {
                match input.dropped {
                    Some(StripDrop::Pane { pane, to }) => self.tear_pane_to_tab(pane, to),
                    Some(StripDrop::Tab { src, to }) => self.reorder_tab(src, to),
                    None => {
                        if let Some(i) = input.front {
                            self.active = i;
                        }
                    },
                }
                (Vec::new(), false)
            },
        };
        if let Some((idx, buf)) = input.rename {
            self.editing = Some(Editing { idx, buf, focused: false });
        }
        r
    }
}

/// The three fills: the active tab's, the one under the pointer, and the others'.
pub proof fn law_tab_fills(hovered: bool)
    ensures
        fill_of(true, hovered) == (Color32 { r: 40, g: 46, b: 62, a: 255 }),
        fill_of(false, true) == (Color32 { r: 36, g: 38, b: 47, a: 255 }),
        fill_of(false, false) == (Color32 { r: 28, g: 29, b: 36, a: 255 }),
{
}

/// The colours on offer, by their names.
pub proof fn law_presets()
    ensures
        preset_list().len() == 8,
        preset_list()[0] == ("Red"@, Color32 { r: 220, g: 80, b: 80, a: 255 }),
        preset_list()[1] == ("Orange"@, Color32 { r: 225, g: 145, b: 60, a: 255 }),
        preset_list()[2] == ("Yellow"@, Color32 { r: 225, g: 200, b: 70, a: 255 }),
        preset_list()[3] == ("Green"@, Color32 { r: 110, g: 190, b: 110, a: 255 }),
        preset_list()[4] == ("Teal"@, Color32 { r: 80, g: 190, b: 190, a: 255 }),
        preset_list()[5] == ("Blue"@, Color32 { r: 90, g: 150, b: 235, a: 255 }),
        preset_list()[6] == ("Purple"@, Color32 { r: 170, g: 120, b: 225, a: 255 }),
        preset_list()[7] == ("Pink"@, Color32 { r: 225, g: 120, b: 180, a: 255 }),
{
}

/// The tab that comes to the front is the last one that was clicked once or has another tab
/// dragged over it; there is none only where no tab was.
pub proof fn law_front_is_last_asked(gestures: Seq<TabGesture>)
    ensures
        ({
            let asks = |i: int|
                (gestures[i].clicked && !gestures[i].double_clicked) || (
                gestures[i].dragged_over is Some && gestures[i].dragged_over->0 != i);
            match front_choice(gestures) {
                Some(i) => 0 <= i < gestures.len() && asks(i) && forall|j: int|
                    i < j < gestures.len() ==> !#[trigger] asks(j),
                None => forall|j: int| 0 <= j < gestures.len() ==> !#[trigger] asks(j),
            }
        }),
    decreases gestures.len(),
{
    if gestures.len() > 0 {
        let init = gestures.drop_last();
        law_front_is_last_asked(init);
        let asks = |i: int|
            (gestures[i].clicked && !gestures[i].double_clicked) || (
            gestures[i].dragged_over is Some && gestures[i].dragged_over->0 != i);
        let before = |i: int|
            (init[i].clicked && !init[i].double_clicked) || (init[i].dragged_over is Some
                && init[i].dragged_over->0 != i);
        assert forall|j: int| 0 <= j < init.len() implies #[trigger] asks(j) == before(j) by {
            assert(init[j] == gestures[j]);
        }
        if let Some(i) = front_choice(init) {
            assert(asks(i) == before(i));
        }
    }
}

/// The tab to rename is the last one that was double-clicked.
pub proof fn law_rename_is_last_asked(gestures: Seq<TabGesture>)
    ensures
        match rename_choice(gestures) {
            Some(i) => 0 <= i < gestures.len() && gestures[i].double_clicked && forall|j: int|
                i < j < gestures.len() ==> !(#[trigger] gestures[j]).double_clicked,
            None => forall|j: int|
                0 <= j < gestures.len() ==> !(#[trigger] gestures[j]).double_clicked,
        },
    decreases gestures.len(),
{
    if gestures.len() > 0 {
        let init = gestures.drop_last();
        law_rename_is_last_asked(init);
        assert forall|j: int| 0 <= j < init.len() implies (#[trigger] gestures[j]) == init[j] by {}
    }
}

/// The slot of a pointer is before the first tab whose centre it is left of: it is right of
/// all centres before the slot.
pub proof fn law_slot_is_first(before: Seq<bool>)
    ensures
        0 <= slot_of(before) <= before.len(),
        slot_of(before) < before.len() ==> before[slot_of(before)],
        forall|i: int| 0 <= i < slot_of(before) ==> !#[trigger] before[i],
    decreases before.len(),
{
    if before.len() > 0 && !before[0] {
        let rest = before.drop_first();
        law_slot_is_first(rest);
        assert forall|i: int| 0 <= i < slot_of(before) implies !#[trigger] before[i] by {
            if i > 0 {
                assert(before[i] == rest[i - 1]);
            }
        }
    }
}

/// A tab lands only over the strip, a pane also above the panes; nothing lands where nothing
/// is dragged. Where something lands, it is in the slot of the pointer.
pub proof fn law_landing(
    dragged: Option<usize>,
    grip: Option<PaneId>,
    in_strip: bool,
    above_panes: bool,
    before: Seq<bool>,
)
    ensures
        ({
            let at = landing(dragged, grip, in_strip, above_panes, before);
            &&& dragged is None && grip is None ==> at is None
            &&& grip is None && !in_strip ==> at is None
            &&& !in_strip && !above_panes ==> at is None
            &&& before.len() == 0 ==> at is None
            &&& before.len() > 0 && dragged is Some && in_strip ==> at is Some
            &&& before.len() > 0 && grip is Some && (in_strip || above_panes) ==> at is Some
            &&& at is Some ==> at->0 == slot_of(before)
        }),
{
}

/// What is dropped is what is dragged, in the slot of the release; a tab goes before a pane.
pub proof fn law_drop(dragged: Option<usize>, grip: Option<PaneId>, to: usize)
    ensures
        dragged is Some ==> drop_of(dragged, grip, to) == Some(
            StripDrop::Tab { src: dragged->0, to },
        ),
        dragged is None && grip is Some ==> drop_of(dragged, grip, to) == Some(
            StripDrop::Pane { pane: grip->0, to },
        ),
        dragged is None && grip is None ==> drop_of(dragged, grip, to) is None,
{
}

/// A strip that is asked for nothing.
pub open spec fn no_request() -> StripInputView {
    StripInputView {
        open_new: None,
        color: None,
        close: None,
        dropped: None,
        front: None,
        rename: None,
    }
}

/// A strip that is asked for nothing leaves everything.
pub proof fn law_strip_idle(s: State)
    ensures
        after_strip(s, no_request()) == s,
        strip_drops_panes(s, no_request()).len() == 0,
        !strip_ends(s, no_request()),
{
}

/// A colour that is chosen for a tab becomes that tab's, or is taken from it, and nothing else
/// changes.
pub proof fn law_strip_color(s: State, i: usize, color: Option<Color32>)
    ensures
        ({
            let t = after_strip(s, StripInputView { color: Some((i, color)), ..no_request() });
            &&& t == (State { tabs: t.tabs, ..s })
            &&& t.tabs.len() == s.tabs.len()
            &&& i < s.tabs.len() ==> t.tabs[i as int].color == color
            &&& forall|j: int|
                0 <= j < s.tabs.len() ==> #[trigger] t.tabs[j] == (TabView {
                    color: t.tabs[j].color,
                    ..s.tabs[j]
                }) && (j != i ==> t.tabs[j].color == s.tabs[j].color)
        }),
{
}

/// The button for a new tab opens one, the button on a tab closes that one with the panes in
/// it, and a click brings the clicked tab to the front.
pub proof fn law_strip_buttons(s: State, i: usize, started: bool)
    ensures
        after_strip(s, StripInputView { open_new: Some(started), ..no_request() })
            == after_new_tab(s, started),
        after_strip(s, StripInputView { close: Some(i), ..no_request() }) == after_close_tab(
            s,
            i as int,
        ),
        i < s.tabs.len() ==> strip_drops_panes(s, StripInputView { close: Some(i), ..no_request() })
            == leaves(s.tabs[i as int].root),
        i >= s.tabs.len() ==> strip_drops_panes(
            s,
            StripInputView { close: Some(i), ..no_request() },
        ).len() == 0,
        strip_ends(s, StripInputView { close: Some(i), ..no_request() }) <==> i < s.tabs.len()
            && s.tabs.len() == 1,
        after_strip(s, StripInputView { front: Some(i), ..no_request() }) == (State {
            active: i as int,
            ..s
        }),
{
}

/// A tab that is dropped on the strip is moved to the slot, and a pane is torn out into it.
/// The tab that the drag went over does not come to the front then.
pub proof fn law_strip_drops(s: State, src: usize, pane: PaneId, to: usize, front: Option<usize>)
    ensures
        after_strip(
            s,
            StripInputView {
                dropped: Some(StripDrop::Tab { src, to }),
                front,
                ..no_request()
            },
        ) == after_reorder(s, src as int, to as int),
        after_strip(
            s,
            StripInputView {
                dropped: Some(StripDrop::Pane { pane, to }),
                front,
                ..no_request()
            },
        ) == after_tear(s, pane, to as int),
{
}

/// Closing a tab wins over what is dropped and what comes to the front.
pub proof fn law_strip_close_wins(s: State, input: StripInputView)
    requires
        input.close is Some,
    ensures
        after_strip(s, input) == after_strip(
            s,
            StripInputView { dropped: None, front: None, ..input },
        ),
{
}

/// Asking to rename a tab opens the dialog for it with the name that it shows, and changes
/// nothing else.
pub proof fn law_strip_rename(s: State, i: usize, name: Seq<char>)
    ensures
        ({
            let t = after_strip(s, StripInputView { rename: Some((i, name)), ..no_request() });
            &&& t.editing is Some
            &&& t.editing->0.idx == i
            &&& t.editing->0.buf == name
            &&& !t.editing->0.focused
            &&& t == (State { editing: t.editing, ..s })
        }),
{
}

/// A tab shows its own name, and only where it has none the default.
pub proof fn law_shown_name(tab: TabView, default_title: Seq<char>)
    ensures
        tab.name is Some ==> shown_name(tab, default_title) == tab.name->0,
        tab.name is None ==> shown_name(tab, default_title) == default_title,
{
}

/// What the strip asks for is done step by step: a new tab first, then a colour, then what was
/// closed, dropped or clicked, and a rename last.
pub proof fn law_strip_steps(s: State, input: StripInputView)
    ensures
        ({
            let a = after_strip(s, StripInputView { open_new: input.open_new, ..no_request() });
            let b = after_strip(a, StripInputView { color: input.color, ..no_request() });
            let c = after_strip(
                b,
                StripInputView { open_new: None, color: None, rename: None, ..input },
            );
            &&& after_strip(s, input) == after_strip(
                c,
                StripInputView { rename: input.rename, ..no_request() },
            )
            &&& strip_drops_panes(s, input) == strip_drops_panes(
                b,
                StripInputView { close: input.close, ..no_request() },
            )
            &&& strip_ends(s, input) <==> strip_ends(
                b,
                StripInputView { close: input.close, ..no_request() },
            )
        }),
{
}

} // verus!
