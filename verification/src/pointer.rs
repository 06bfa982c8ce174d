//! The pointer over a terminal: which cell it is at, what a press and a drag do, and
//! where the scrollbar stands.

use vstd::prelude::*;

use crate::keys::{no_mods, Modifiers};
use crate::terminal::{MouseButton, MouseModes};

verus! {

/// The cells of a terminal, in whole points.
#[derive(Clone, Copy, Debug, PartialEq, Eq, Structural)]
pub struct CellGrid {
    pub cell_width: u16,
    pub cell_height: u16,
    pub columns: u16,
    pub lines: u16,
}

impl CellGrid {
    /// There is a cell, and it has an extent.
    pub open spec fn wf(self) -> bool {
        self.cell_width > 0 && self.cell_height > 0 && self.columns > 0 && self.lines > 0
    }
}

/// The lesser of two numbers.
pub open spec fn lesser(a: int, b: int) -> int {
    if a < b {
        a
    } else {
        b
    }
}

/// The cell at a point of the view, as a line and a column. A point beyond the last
/// cell counts as that cell. The lines of the view start at minus the number of lines
/// that it is scrolled back.
pub open spec fn cell_of(x: int, y: int, grid: CellGrid, scrolled: int) -> (int, int) {
    (
        lesser(y / grid.cell_height as int, grid.lines - 1) - scrolled,
        lesser(x / grid.cell_width as int, grid.columns - 1),
    )
}

/// The cell at a point of the view, as a line and a column. `scrolled` is the number of
/// lines that the view is scrolled back.
pub fn cell_at(x: usize, y: usize, grid: CellGrid, scrolled: usize) -> (r: (i32, usize))
    requires
        grid.wf(),
        scrolled <= i32::MAX,
    ensures
        (r.0 as int, r.1 as int) == cell_of(x as int, y as int, grid, scrolled as int),
{
    let column = x / grid.cell_width as usize;
    let column = if column < grid.columns as usize - 1 {
        column
    } else {
        grid.columns as usize - 1
    };
    let line = y / grid.cell_height as usize;
    let line = if line < grid.lines as usize - 1 {
        line
    } else {
        grid.lines as usize - 1
    };
    (line as i32 - scrolled as i32, column)
}

/// Whether a point is on the right half of its cell.
pub fn on_right_half(x: usize, grid: CellGrid) -> (r: bool)
    requires
        grid.wf(),
    ensures
        r == (x as int % grid.cell_width as int > grid.cell_width as int / 2),
        r == (2 * (x as int % grid.cell_width as int) > grid.cell_width),
{
    x % (grid.cell_width as usize) > (grid.cell_width as usize) / 2
}

/// The cell at a point is one of the view.
pub proof fn law_cell_in_view(x: int, y: int, grid: CellGrid, scrolled: int)
    requires
        grid.wf(),
        0 <= x,
        0 <= y,
    ensures
        -scrolled <= cell_of(x, y, grid, scrolled).0 < grid.lines - scrolled,
        0 <= cell_of(x, y, grid, scrolled).1 < grid.columns,
{
    vstd::arithmetic::div_mod::lemma_div_pos_is_pos(x, grid.cell_width as int);
    vstd::arithmetic::div_mod::lemma_div_pos_is_pos(y, grid.cell_height as int);
}

/// What the primary button is in the middle of.
#[derive(Clone, Copy, Debug, PartialEq, Eq, Structural)]
pub enum Gesture {
    Idle,
    /// Text is being selected. `forced` says whether shift or alt took the mouse from the
    /// program for that.
    Selecting { forced: bool },
    /// The program follows the drag.
    Reporting,
}

/// What a gesture asks for.
#[derive(Clone, Copy, Debug, PartialEq, Eq, Structural)]
pub enum PointerAction {
    /// The program is told.
    Report { button: MouseButton, pressed: bool },
    /// A selection starts at the pointer.
    SelectStart,
    /// The selection reaches to the pointer.
    SelectUpdate,
    /// The selection is copied.
    Copy,
    /// The link at the pointer is opened.
    OpenLink,
}

/// The primary button going down, as the program is told of it.
pub open spec fn told_down() -> PointerAction {
    PointerAction::Report { button: MouseButton::Left, pressed: true }
}

/// The primary button going up, as the program is told of it.
pub open spec fn told_up() -> PointerAction {
    PointerAction::Report { button: MouseButton::Left, pressed: false }
}

/// Motion while the primary button is held, as the program is told of it.
pub open spec fn told_motion() -> PointerAction {
    PointerAction::Report { button: MouseButton::LeftMove, pressed: true }
}

/// What a press of the primary button begins. A program that handles the mouse is told,
/// and if it follows drags the gesture is its own; if it only knows clicks, a drag
/// still selects. Shift or alt keep the mouse for the selection.
pub open spec fn pressed_of(modes: MouseModes, mods: Modifiers) -> (Gesture, Seq<PointerAction>) {
    if !modes.reporting() {
        (Gesture::Selecting { forced: false }, seq![PointerAction::SelectStart])
    } else if mods.shift || mods.alt {
        (Gesture::Selecting { forced: true }, seq![PointerAction::SelectStart])
    } else if modes.follows_drag() {
        (Gesture::Reporting, seq![told_down()])
    } else {
        (Gesture::Selecting { forced: false }, seq![told_down(), PointerAction::SelectStart])
    }
}

/// What a motion of the pointer asks for, by what the program asks of the mouse now. It
/// is told of motion without modifiers only. A selection reaches to the pointer, unless
/// the program has come to ask for all motion and the selection was not forced.
pub open spec fn moved_of(gesture: Gesture, modes: MouseModes, mods: Modifiers) -> Seq<
    PointerAction,
> {
    match gesture {
        Gesture::Idle => Seq::empty(),
        Gesture::Selecting { forced } => if modes.motion && mods == no_mods() && !forced {
            seq![told_motion()]
        } else {
            seq![PointerAction::SelectUpdate]
        },
        Gesture::Reporting => if modes.follows_drag() && mods == no_mods() {
            seq![told_motion()]
        } else {
            Seq::empty()
        },
    }
}

/// What letting go of the primary button asks for. A program that handles the mouse now
/// is told, wherever the press was, unless the selection was forced; then nothing else
/// comes of the click. `repeated` says whether it was a double or triple click, which
/// selects a word or a line; `on_link` whether it opens a link. What was selected is
/// copied.
pub open spec fn released_of(
    gesture: Gesture,
    modes: MouseModes,
    repeated: bool,
    on_link: bool,
) -> Seq<PointerAction> {
    let click = if modes.reporting() && gesture != (Gesture::Selecting { forced: true }) {
        seq![told_up()]
    } else if repeated {
        seq![PointerAction::SelectStart]
    } else if on_link {
        seq![PointerAction::OpenLink]
    } else {
        Seq::empty()
    };
    if gesture is Selecting {
        click.push(PointerAction::Copy)
    } else {
        click
    }
}

/// Begins what a press of the primary button begins.
pub fn press(gesture: &mut Gesture, modes: MouseModes, mods: Modifiers) -> (r: Vec<PointerAction>)
    ensures
        (*final(gesture), r@) == pressed_of(modes, mods),
{
    let reporting = modes.click || modes.drag || modes.motion;
    let report = PointerAction::Report { button: MouseButton::Left, pressed: true };
    let mut out: Vec<PointerAction> = Vec::new();
    if !reporting || mods.shift || mods.alt {
        *gesture = Gesture::Selecting { forced: reporting };
        out.push(PointerAction::SelectStart);
    } else if modes.drag || modes.motion {
        *gesture = Gesture::Reporting;
        out.push(report);
    } else {
        *gesture = Gesture::Selecting { forced: false };
        out.push(report);
        out.push(PointerAction::SelectStart);
    }
    assert(out@ =~= pressed_of(modes, mods).1);
    out
}

/// What a motion of the pointer asks for.
pub fn motion(gesture: Gesture, modes: MouseModes, mods: Modifiers) -> (r: Vec<PointerAction>)
    ensures
        r@ == moved_of(gesture, modes, mods),
{
    let bare = mods == Modifiers::none();
    let report = PointerAction::Report { button: MouseButton::LeftMove, pressed: true };
    let mut out: Vec<PointerAction> = Vec::new();
    match gesture {
        Gesture::Idle => {},
        Gesture::Selecting { forced } => if modes.motion && bare && !forced {
            out.push(report);
        } else {
            out.push(PointerAction::SelectUpdate);
        },
        Gesture::Reporting => if (modes.drag || modes.motion) && bare {
            out.push(report);
        },
    }
    assert(out@ =~= moved_of(gesture, modes, mods));
    out
}

/// Ends a gesture, by letting go of the primary button.
pub fn release(gesture: &mut Gesture, modes: MouseModes, repeated: bool, on_link: bool) -> (r: Vec<
    PointerAction,
>)
    ensures
        *final(gesture) == Gesture::Idle,
        r@ == released_of(*old(gesture), modes, repeated, on_link),
{
    let (selecting, forced) = match *gesture {
        Gesture::Selecting { forced } => (true, forced),
        _ => (false, false),
    };
    let mut out: Vec<PointerAction> = Vec::new();
    if (modes.click || modes.drag || modes.motion) && !forced {
        out.push(PointerAction::Report { button: MouseButton::Left, pressed: false });
    } else if repeated {
        out.push(PointerAction::SelectStart);
    } else if on_link {
        out.push(PointerAction::OpenLink);
    }
    if selecting {
        out.push(PointerAction::Copy);
    }
    assert(out@ =~= released_of(*gesture, modes, repeated, on_link));
    *gesture = Gesture::Idle;
    out
}

/// Whether an action tells the program something.
pub open spec fn is_report(a: PointerAction) -> bool {
    a is Report
}

/// Shift and alt keep the mouse for the selection, whatever the program asked for: the
/// press selects, and the program is told nothing, also where they are let go before the
/// button is.
pub proof fn law_modifiers_force_selection(
    modes: MouseModes,
    mods: Modifiers,
    later: Modifiers,
    repeated: bool,
    on_link: bool,
)
    requires
        mods.shift || mods.alt,
    ensures
        ({
            let (gesture, begun) = pressed_of(modes, mods);
            let ended = released_of(gesture, modes, repeated, on_link);
            &&& begun == seq![PointerAction::SelectStart]
            &&& moved_of(gesture, modes, later) == seq![PointerAction::SelectUpdate]
            &&& forall|i: int| 0 <= i < ended.len() ==> !is_report(#[trigger] ended[i])
            &&& ended.last() == PointerAction::Copy
        }),
{
}

/// A program that follows drags gets the whole gesture, and nothing is selected.
pub proof fn law_drag_belongs_to_program(
    modes: MouseModes,
    mods: Modifiers,
    repeated: bool,
    on_link: bool,
)
    requires
        modes.follows_drag(),
        !mods.shift && !mods.alt,
    ensures
        ({
            let (gesture, begun) = pressed_of(modes, mods);
            &&& begun == seq![told_down()]
            &&& moved_of(gesture, modes, no_mods()) == seq![told_motion()]
            &&& moved_of(gesture, modes, mods).all(|a: PointerAction| is_report(a))
            &&& released_of(gesture, modes, repeated, on_link) == seq![told_up()]
        }),
{
}

/// A drag selects, and the selection is copied, unless the program follows drags: also
/// where it only knows clicks.
pub proof fn law_drag_selects(
    modes: MouseModes,
    mods: Modifiers,
    later: Modifiers,
    repeated: bool,
    on_link: bool,
)
    requires
        !modes.follows_drag(),
    ensures
        ({
            let (gesture, begun) = pressed_of(modes, mods);
            &&& begun.last() == PointerAction::SelectStart
            &&& moved_of(gesture, modes, later) == seq![PointerAction::SelectUpdate]
            &&& released_of(gesture, modes, repeated, on_link).last() == PointerAction::Copy
        }),
{
}

/// A click belongs to a program that handles the mouse: letting go of the button is told,
/// and neither opens a link nor selects a word.
pub proof fn law_click_belongs_to_program(
    gesture: Gesture,
    modes: MouseModes,
    repeated: bool,
    on_link: bool,
)
    requires
        modes.reporting(),
        gesture != (Gesture::Selecting { forced: true }),
    ensures
        ({
            let ended = released_of(gesture, modes, repeated, on_link);
            &&& ended[0] == told_up()
            &&& !ended.contains(PointerAction::OpenLink)
            &&& !ended.contains(PointerAction::SelectStart)
        }),
{
}

/// The program is told that the button was let go where it was told that it was
/// pressed, and only there, as long as it asks the same of the mouse.
pub proof fn law_reports_are_paired(
    modes: MouseModes,
    mods: Modifiers,
    repeated: bool,
    on_link: bool,
)
    ensures
        ({
            let (gesture, begun) = pressed_of(modes, mods);
            begun.contains(told_down()) <==> released_of(
                gesture,
                modes,
                repeated,
                on_link,
            ).contains(told_up())
        }),
{
    let (gesture, begun) = pressed_of(modes, mods);
    let ended = released_of(gesture, modes, repeated, on_link);
    if modes.reporting() && !mods.shift && !mods.alt {
        assert(begun[0] == told_down());
        assert(ended[0] == told_up());
    }
}

/// A fraction between zero and one.
#[derive(Clone, Copy, Debug, PartialEq, Eq, Structural)]
pub struct Fraction {
    pub part: usize,
    pub whole: usize,
}

/// The scrollbar of a view of `visible` out of `total` lines that is scrolled back by
/// `offset`: how far along its track it stands, from zero at the oldest line to one at
/// the newest, and how much of the track it takes.
pub open spec fn thumb_of(total: int, visible: int, offset: int) -> ((int, int), (int, int)) {
    if visible >= total {
        ((0, 1), (1, 1))
    } else {
        let above = if total - visible > offset {
            total - visible - offset
        } else {
            0
        };
        ((above, total - visible), (visible, total))
    }
}

/// `f` as a part and a whole.
pub open spec fn fraction_view(f: Fraction) -> (int, int) {
    (f.part as int, f.whole as int)
}

/// The scrollbar of a view, as its position along the track and its share of it.
/// `total` are all lines, `visible` those of the view, and `offset` is how many lines it
/// is scrolled back.
pub fn v_thumb(total: usize, visible: usize, offset: usize) -> (r: (Fraction, Fraction))
    ensures
        (fraction_view(r.0), fraction_view(r.1)) == thumb_of(
            total as int,
            visible as int,
            offset as int,
        ),
{
    if visible >= total {
        return (Fraction { part: 0, whole: 1 }, Fraction { part: 1, whole: 1 });
    }
    let hidden = total - visible;
    let above = if hidden > offset {
        hidden - offset
    } else {
        0
    };
    (Fraction { part: above, whole: hidden }, Fraction { part: visible, whole: total })
}

/// The scrollbar stays on its track: at its end while the view shows the newest line,
/// at its start once it shows the oldest one, and never beyond.
pub proof fn law_thumb_on_track(total: int, visible: int, offset: int)
    requires
        0 <= visible < total,
        0 <= offset,
    ensures
        ({
            let ((part, whole), _) = thumb_of(total, visible, offset);
            &&& 0 <= part <= whole
            &&& whole > 0
            &&& offset == 0 <==> part == whole
            &&& offset >= total - visible <==> part == 0
        }),
{
}

/// Scrolling further back moves the scrollbar towards its start.
pub proof fn law_thumb_moves_up(total: int, visible: int, a: int, b: int)
    requires
        0 <= visible < total,
        0 <= a <= b,
    ensures
        thumb_of(total, visible, b).0.0 <= thumb_of(total, visible, a).0.0,
        thumb_of(total, visible, b).0.1 == thumb_of(total, visible, a).0.1,
{
}

/// A point of the view is inside its cell; one beyond the last cell counts as that one.
pub proof fn law_cell_contains(x: int, y: int, grid: CellGrid, scrolled: int)
    requires
        grid.wf(),
        0 <= x,
        0 <= y,
    ensures
        ({
            let (line, column) = cell_of(x, y, grid, scrolled);
            let (w, h) = (grid.cell_width as int, grid.cell_height as int);
            &&& x < grid.columns * w ==> column * w <= x < column * w + w
            &&& x >= grid.columns * w ==> column == grid.columns - 1
            &&& y < grid.lines * h ==> (line + scrolled) * h <= y < (line + scrolled) * h + h
            &&& y >= grid.lines * h ==> line + scrolled == grid.lines - 1
        }),
{
    lemma_cell_along(x, grid.cell_width as int, grid.columns as int);
    lemma_cell_along(y, grid.cell_height as int, grid.lines as int);
}

proof fn lemma_cell_along(x: int, w: int, n: int)
    requires
        0 <= x,
        w > 0,
        n > 0,
    ensures
        ({
            let i = lesser(x / w, n - 1);
            &&& x < n * w ==> i * w <= x < i * w + w
            &&& x >= n * w ==> i == n - 1
        }),
{
    let q = x / w;
    vstd::arithmetic::div_mod::lemma_fundamental_div_mod(x, w);
    vstd::arithmetic::div_mod::lemma_mod_bound(x, w);
    assert(w * q == q * w) by (nonlinear_arith);
    if x < n * w {
        assert(q < n) by (nonlinear_arith)
            requires
                q * w <= x,
                x < n * w,
                w > 0,
        ;
    } else {
        assert(q >= n) by (nonlinear_arith)
            requires
                x < q * w + w,
                x >= n * w,
                w > 0,
        ;
    }
}

/// What letting go of the button does where no program handles the mouse: a repeated click
/// selects, else a click on a link opens it; what was selected is copied at last.
pub proof fn law_plain_release(gesture: Gesture, modes: MouseModes, repeated: bool, on_link: bool)
    requires
        !modes.click && !modes.drag && !modes.motion,
    ensures
        ({
            let ended = released_of(gesture, modes, repeated, on_link);
            &&& repeated <==> ended.contains(PointerAction::SelectStart)
            &&& !repeated && on_link <==> ended.contains(PointerAction::OpenLink)
            &&& gesture is Selecting <==> ended.contains(PointerAction::Copy)
            &&& gesture is Selecting ==> ended.last() == PointerAction::Copy
            &&& ended.len() == (if repeated || on_link {
                1int
            } else {
                0
            }) + (if gesture is Selecting {
                1int
            } else {
                0
            })
        }),
{
    let ended = released_of(gesture, modes, repeated, on_link);
    if repeated {
        assert(ended[0] == PointerAction::SelectStart);
    } else if on_link {
        assert(ended[0] == PointerAction::OpenLink);
    }
    if gesture is Selecting {
        assert(ended[ended.len() - 1] == PointerAction::Copy);
    }
}

/// A pointer that moves while no button is held asks for nothing. A selection follows it,
/// unless the program asks for all motion by now.
pub proof fn law_motion(gesture: Gesture, modes: MouseModes, mods: Modifiers)
    ensures
        gesture is Idle ==> moved_of(gesture, modes, mods).len() == 0,
        gesture is Selecting && !modes.motion ==> moved_of(gesture, modes, mods)
            == seq![PointerAction::SelectUpdate],
        gesture is Selecting && mods != no_mods() ==> moved_of(gesture, modes, mods)
            == seq![PointerAction::SelectUpdate],
        gesture is Reporting && mods != no_mods() ==> moved_of(gesture, modes, mods).len() == 0,
        gesture is Reporting && !modes.drag && !modes.motion ==> moved_of(
            gesture,
            modes,
            mods,
        ).len() == 0,
{
}

/// The share of the track that the scrollbar takes is that of the lines that are seen, and
/// it takes all of it where all are.
pub proof fn law_thumb_share(total: int, visible: int, offset: int)
    requires
        0 <= visible,
        0 <= offset,
    ensures
        visible < total ==> thumb_of(total, visible, offset).1 == (visible, total),
        visible >= total ==> thumb_of(total, visible, offset) == ((0int, 1int), (1int, 1int)),
        visible < total && offset <= total - visible ==> thumb_of(total, visible, offset).0 == (
            total - visible - offset,
            total - visible,
        ),
{
}

/// What a press begins, by what the program asks of the mouse and by what is held: it selects
/// where the program asks for nothing, or where shift or alt is held, which then forces it. A
/// program that follows drags gets it alone, and one that knows clicks only is told as well.
pub proof fn law_press(modes: MouseModes, mods: Modifiers)
    ensures
        ({
            let asks = modes.click || modes.drag || modes.motion;
            let kept = mods.shift || mods.alt;
            let down = PointerAction::Report { button: MouseButton::Left, pressed: true };
            let selecting = |forced: bool| Gesture::Selecting { forced };
            let done = pressed_of(modes, mods);
            &&& !asks ==> done == (selecting(false), seq![PointerAction::SelectStart])
            &&& asks && kept ==> done == (selecting(true), seq![PointerAction::SelectStart])
            &&& !kept && (modes.drag || modes.motion) ==> done == (Gesture::Reporting, seq![down])
            &&& !kept && modes.click && !modes.drag && !modes.motion ==> done == (
                selecting(false),
                seq![down, PointerAction::SelectStart],
            )
        }),
{
}

/// How a program is told of the primary button: of a motion as of a press of the moving button.
pub proof fn law_told()
    ensures
        told_up() == (PointerAction::Report { button: MouseButton::Left, pressed: false }),
        told_motion() == (PointerAction::Report { button: MouseButton::LeftMove, pressed: true }),
{
}

} // verus!
