//! What a terminal widget decides: how the mouse is reported to a program, what the
//! wheel and a drag do, stepping through the matches of a search, and clearing.

use vstd::prelude::*;

use crate::keys::{alt_mod, among, command_mod, contains, shift_mod, Modifiers};
use crate::text::{decimal, decimal_text};

verus! {

/// What a program has asked of the mouse.
#[derive(Clone, Copy, Debug, PartialEq, Eq, Structural)]
pub struct MouseModes {
    /// It wants to know of clicks.
    pub click: bool,
    /// It wants to know of motion while a button is held.
    pub drag: bool,
    /// It wants to know of all motion.
    pub motion: bool,
    /// It reads the extended reports, in decimal.
    pub sgr: bool,
    /// It reads positions in UTF-8.
    pub utf8: bool,
}

impl MouseModes {
    /// Whether the program handles the mouse itself.
    pub open spec fn reporting(self) -> bool {
        self.click || self.drag || self.motion
    }

    /// Whether the program follows a drag.
    pub open spec fn follows_drag(self) -> bool {
        self.drag || self.motion
    }
}

/// A button of the mouse, or its motion while a button is held.
#[derive(Clone, Copy, Debug, PartialEq, Eq, Structural)]
pub enum MouseButton {
    Left,
    Middle,
    Right,
    LeftMove,
    MiddleMove,
    RightMove,
    NoneMove,
    ScrollUp,
    ScrollDown,
    Other,
}

/// The number that a report has for a button.
pub open spec fn button_code(button: MouseButton) -> u8 {
    match button {
        MouseButton::Left => 0,
        MouseButton::Middle => 1,
        MouseButton::Right => 2,
        MouseButton::LeftMove => 32,
        MouseButton::MiddleMove => 33,
        MouseButton::RightMove => 34,
        MouseButton::NoneMove => 35,
        MouseButton::ScrollUp => 64,
        MouseButton::ScrollDown => 65,
        MouseButton::Other => 99,
    }
}

/// The number that a report has for the modifiers that are held.
pub open spec fn modifier_code(mods: Modifiers) -> int {
    (if among(mods, shift_mod()) {
        4int
    } else {
        0
    }) + (if among(mods, alt_mod()) {
        8int
    } else {
        0
    }) + (if among(mods, command_mod()) {
        16int
    } else {
        0
    })
}

/// `n` in decimal, with a minus sign where it is negative.
pub open spec fn signed_decimal(n: int) -> Seq<char> {
    if n < 0 {
        seq!['-'] + decimal((-n) as nat)
    } else {
        decimal(n as nat)
    }
}

/// An extended report: the number of the button, the column and the line from one, all
/// in decimal, and whether the button is down.
pub open spec fn sgr_report(code: int, line: int, column: int, pressed: bool) -> Seq<char> {
    seq!['\u{1b}', '[', '<'] + decimal(code as nat) + seq![';'] + decimal((column + 1) as nat)
        + seq![';'] + signed_decimal(line + 1) + seq![
        if pressed {
            'M'
        } else {
            'm'
        },
    ]
}

/// A position in a plain report: one byte, or two in UTF-8 where it is large. Of a line of
/// the scrollback, which is negative, the lowest byte counts.
pub open spec fn position_bytes(pos: int, utf8: bool) -> Seq<u8> {
    if utf8 && pos >= 95 {
        let n = pos + 33;
        seq![(0xc0 + n / 64) as u8, (0x80 + n % 64) as u8]
    } else {
        seq![(pos % 256 + 33) as u8]
    }
}

/// Whether a plain report has a byte for a position: there is none for the lines of the
/// scrollback just above the screen, and for those any multiple of 256 above them.
pub open spec fn has_byte(pos: int) -> bool {
    pos >= 0 || pos % 256 < 223
}

/// The first position that a plain report has no room for.
pub open spec fn report_limit(utf8: bool) -> int {
    if utf8 {
        2015
    } else {
        223
    }
}

/// A plain report, where there is room for the position.
pub open spec fn plain_report(code: int, line: int, column: int, utf8: bool) -> Option<Seq<u8>> {
    if line >= report_limit(utf8) || column >= report_limit(utf8) {
        None
    } else {
        Some(
            seq![0x1bu8, 0x5b, 0x4d, (32 + code) as u8] + position_bytes(column, utf8)
                + position_bytes(line, utf8),
        )
    }
}

/// What is written to a program that handles the mouse.
#[derive(Debug)]
pub enum MouseReport {
    /// An extended report.
    Text(String),
    /// A plain report.
    Bytes(Vec<u8>),
    /// There is no way to report the position.
    Nothing,
}

/// What a `MouseReport` holds.
pub enum MouseReportView {
    Text(Seq<char>),
    Bytes(Seq<u8>),
    Nothing,
}

impl View for MouseReport {
    type V = MouseReportView;

    open spec fn view(&self) -> MouseReportView {
        match *self {
            MouseReport::Text(t) => MouseReportView::Text(t@),
            MouseReport::Bytes(b) => MouseReportView::Bytes(b@),
            MouseReport::Nothing => MouseReportView::Nothing,
        }
    }
}

/// What is written to a program that handles the mouse. A plain report does not say
/// which button was let go.
pub open spec fn report_of(
    modes: MouseModes,
    button: MouseButton,
    mods: Modifiers,
    line: int,
    column: int,
    pressed: bool,
) -> MouseReportView {
    let held = modifier_code(mods);
    if modes.sgr {
        MouseReportView::Text(sgr_report(button_code(button) + held, line, column, pressed))
    } else {
        let code = if pressed {
            button_code(button) + held
        } else {
            3 + held
        };
        match plain_report(code, line, column, modes.utf8) {
            Some(bytes) => MouseReportView::Bytes(bytes),
            None => MouseReportView::Nothing,
        }
    }
}

fn code_of(button: MouseButton) -> (r: u8)
    ensures
        r == button_code(button),
{
    match button {
        MouseButton::Left => 0,
        MouseButton::Middle => 1,
        MouseButton::Right => 2,
        MouseButton::LeftMove => 32,
        MouseButton::MiddleMove => 33,
        MouseButton::RightMove => 34,
        MouseButton::NoneMove => 35,
        MouseButton::ScrollUp => 64,
        MouseButton::ScrollDown => 65,
        MouseButton::Other => 99,
    }
}

fn held_code(mods: Modifiers) -> (r: u8)
    ensures
        r == modifier_code(mods),
        r <= 28,
{
    let mut code: u8 = 0;
    if contains(mods, Modifiers::shift()) {
        code += 4;
    }
    if contains(mods, Modifiers::alt()) {
        code += 8;
    }
    if contains(mods, Modifiers::command()) {
        code += 16;
    }
    code
}

fn signed_text(n: i32) -> (r: String)
    ensures
        r@ == signed_decimal(n as int),
{
    if n < 0 {
        let mut out = "-".to_owned();
        proof {
            reveal_strlit("-");
        }
        assert(out@ =~= seq!['-']);
        let m: usize = if n == i32::MIN {
            0x8000_0000
        } else {
            (-n) as usize
        };
        out.append(decimal_text(m).as_str());
        out
    } else {
        decimal_text(n as usize)
    }
}

fn push_position(out: &mut Vec<u8>, pos: i32, utf8: bool)
    requires
        pos < report_limit(utf8),
        has_byte(pos as int),
    ensures
        final(out)@ == old(out)@ + position_bytes(pos as int, utf8),
{
    if utf8 && pos >= 95 {
        let n: i32 = pos + 33;
        out.push((0xc0 + n / 64) as u8);
        out.push((0x80 + n % 64) as u8);
    } else {
        // Any multiple of 256 that makes the sum positive does.
        let n: i64 = (pos as i64 + 0x1_0000_0000) % 256 + 33;
        out.push(n as u8);
    }
    assert(out@ =~= old(out)@ + position_bytes(pos as int, utf8));
}

/// Encodes what the mouse did for a program that handles it. The position is a line
/// and a column from zero; the lines of the scrollback are negative.
pub fn mouse_report(
    modes: MouseModes,
    button: MouseButton,
    mods: Modifiers,
    line: i32,
    column: usize,
    pressed: bool,
) -> (r: MouseReport)
    requires
        modes.sgr ==> line < i32::MAX && column < usize::MAX,
        modes.sgr || has_byte(line as int) || column >= report_limit(modes.utf8),
    ensures
        r@ == report_of(modes, button, mods, line as int, column as int, pressed),
{
    let held = held_code(mods);
    let code: u8 = if pressed || modes.sgr {
        code_of(button) + held
    } else {
        3 + held
    };
    if modes.sgr {
        proof {
            reveal_strlit("\x1b[<");
            reveal_strlit(";");
            reveal_strlit("M");
            reveal_strlit("m");
        }
        let mut out = "\x1b[<".to_owned();
        assert(out@ =~= seq!['\u{1b}', '[', '<']);
        out.append(decimal_text(code as usize).as_str());
        out.append(";");
        assert(";"@ =~= seq![';']);
        out.append(decimal_text(column + 1).as_str());
        out.append(";");
        out.append(signed_text(line + 1).as_str());
        if pressed {
            out.append("M");
            assert("M"@ =~= seq!['M']);
        } else {
            out.append("m");
            assert("m"@ =~= seq!['m']);
        }
        assert(out@ =~= sgr_report(code as int, line as int, column as int, pressed));
        return MouseReport::Text(out);
    }
    let limit: i32 = if modes.utf8 {
        2015
    } else {
        223
    };
    if line >= limit || column >= limit as usize {
        return MouseReport::Nothing;
    }
    let mut out: Vec<u8> = Vec::new();
    out.push(0x1b);
    out.push(0x5b);
    out.push(0x4d);
    out.push(32 + code);
    assert(out@ =~= seq![0x1bu8, 0x5b, 0x4d, (32 + code) as u8]);
    push_position(&mut out, column as i32, modes.utf8);
    push_position(&mut out, line, modes.utf8);
    MouseReport::Bytes(out)
}

/// A large position is written as UTF-8 writes that character: two bytes, the first of
/// which leads a pair and the second of which continues it, and which hold the
/// position.
pub proof fn law_position_is_utf8(pos: int)
    requires
        95 <= pos < report_limit(true),
    ensures
        ({
            let b = position_bytes(pos, true);
            &&& b.len() == 2
            &&& 0xc2 <= b[0] <= 0xdf
            &&& 0x80 <= b[1] <= 0xbf
            &&& (b[0] - 0xc0) * 64 + (b[1] - 0x80) == pos + 33
        }),
{
    let n = pos + 33;
    assert(128 <= n < 2048);
    assert(2 <= n / 64 <= 31);
}

/// A position can be read back from what is written of it.
pub proof fn law_position_roundtrip(a: int, b: int, utf8: bool)
    requires
        0 <= a < report_limit(utf8),
        0 <= b < report_limit(utf8),
        position_bytes(a, utf8) == position_bytes(b, utf8),
    ensures
        a == b,
{
    let x = position_bytes(a, utf8);
    let y = position_bytes(b, utf8);
    assert(x.len() == y.len());
    assert(x[0] == y[0]);
    if utf8 && a >= 95 {
        law_position_is_utf8(a);
        law_position_is_utf8(b);
        assert(x[1] == y[1]);
    } else {
        assert(x.len() == 1 && y.len() == 1);
        assert(x[0] == a + 33);
        assert(y[0] == b + 33);
    }
}

/// What turning the wheel does.
#[derive(Clone, Copy, Debug, PartialEq, Eq, Structural)]
pub enum WheelAction {
    Nothing,
    /// The program is told of a press of this button, so many times.
    Report { button: MouseButton, times: u32 },
    /// The view is scrolled by so many lines, towards older ones where positive.
    Scroll(i32),
}

/// What turning the wheel by `lines` does: a program that handles the mouse gets it,
/// unless shift keeps it for the scrollback.
pub open spec fn wheel_of(lines: int, modes: MouseModes, shift: bool) -> WheelAction {
    if lines == 0 {
        WheelAction::Nothing
    } else if modes.reporting() && !shift {
        if lines > 0 {
            WheelAction::Report { button: MouseButton::ScrollUp, times: lines as u32 }
        } else {
            WheelAction::Report { button: MouseButton::ScrollDown, times: (-lines) as u32 }
        }
    } else {
        WheelAction::Scroll(lines as i32)
    }
}

/// What turning the wheel by `lines` does, towards older lines where positive.
pub fn wheel(lines: i32, modes: MouseModes, shift: bool) -> (r: WheelAction)
    ensures
        r == wheel_of(lines as int, modes, shift),
{
    if lines == 0 {
        WheelAction::Nothing
    } else if (modes.click || modes.drag || modes.motion) && !shift {
        if lines > 0 {
            WheelAction::Report { button: MouseButton::ScrollUp, times: lines as u32 }
        } else if lines == i32::MIN {
            WheelAction::Report { button: MouseButton::ScrollDown, times: 0x8000_0000 }
        } else {
            WheelAction::Report { button: MouseButton::ScrollDown, times: (-lines) as u32 }
        }
    } else {
        WheelAction::Scroll(lines)
    }
}

/// `n` times the key that moves the cursor up or down.
pub open spec fn arrow_keys(n: nat, up: bool) -> Seq<u8>
    decreases n,
{
    if n == 0 {
        Seq::empty()
    } else {
        arrow_keys((n - 1) as nat, up) + seq![
            0x1bu8,
            0x4f,
            if up {
                0x41
            } else {
                0x42
            },
        ]
    }
}

/// What scrolling does where the alternate screen turns it into arrow keys: one for
/// each line, up towards older lines. There is nothing to write for no line.
pub fn scroll_keys(delta: i32) -> (r: Vec<u8>)
    requires
        delta > i32::MIN,
    ensures
        r@ == arrow_keys(
            if delta < 0 {
                (-delta) as nat
            } else {
                delta as nat
            },
            delta > 0,
        ),
{
    let up = delta > 0;
    let n: i32 = if delta < 0 {
        -delta
    } else {
        delta
    };
    let key: u8 = if up {
        0x41
    } else {
        0x42
    };
    let mut out: Vec<u8> = Vec::new();
    let mut i: i32 = 0;
    while i < n
        invariant
            0 <= i <= n,
            key == (if up {
                0x41u8
            } else {
                0x42u8
            }),
            out@ == arrow_keys(i as nat, up),
        decreases n - i,
    {
        let ghost before = out@;
        out.push(0x1b);
        out.push(0x4f);
        out.push(key);
        i += 1;
        assert(out@ =~= before + seq![0x1bu8, 0x4f, key]);
    }
    out
}

/// The matches of a search, of which one is the current one. They are counted from the
/// newest.
#[derive(Clone, Copy, Debug, PartialEq, Eq, Structural)]
pub struct Matches {
    pub total: usize,
    pub index: usize,
}

impl Matches {
    /// The current match is one of the matches, or the first where there is none.
    pub open spec fn wf(self) -> bool {
        if self.total == 0 {
            self.index == 0
        } else {
            self.index < self.total
        }
    }

    /// The next match: towards newer ones where `forward`, else towards older ones. It
    /// goes round at either end.
    pub open spec fn stepped(self, forward: bool) -> Matches {
        if self.total == 0 {
            self
        } else if forward {
            Matches { index: ((self.index + self.total - 1) % self.total as int) as usize, ..self }
        } else {
            Matches { index: ((self.index + 1) % self.total as int) as usize, ..self }
        }
    }

    /// The current match, counted from one, and the number of matches.
    pub open spec fn counts(self) -> (usize, usize) {
        if self.total == 0 {
            (0, 0)
        } else {
            ((self.index + 1) as usize, self.total)
        }
    }

    /// No matches.
    pub fn none() -> (r: Matches)
        ensures
            r == (Matches { total: 0, index: 0 }),
            r.wf(),
    {
        Matches { total: 0, index: 0 }
    }

    /// Goes to the next match: towards newer ones where `forward`, else towards older
    /// ones.
    pub fn step(&mut self, forward: bool)
        requires
            old(self).wf(),
        ensures
            *final(self) == old(self).stepped(forward),
            final(self).wf(),
    {
        if self.total == 0 {
            return;
        }
        let n = self.total;
        let i = self.index;
        self.index = if forward {
            if i == 0 {
                n - 1
            } else {
                i - 1
            }
        } else if i == n - 1 {
            0
        } else {
            i + 1
        };
        proof {
            lemma_step(i as int, n as int);
        }
    }
}

proof fn lemma_step(i: int, n: int)
    requires
        0 <= i < n,
    ensures
        (i + n - 1) % n == (if i == 0 {
            n - 1
        } else {
            i - 1
        }),
        (i + 1) % n == (if i == n - 1 {
            0
        } else {
            i + 1
        }),
{
    if i == 0 {
        vstd::arithmetic::div_mod::lemma_small_mod((n - 1) as nat, n as nat);
    } else {
        vstd::arithmetic::div_mod::lemma_mod_add_multiples_vanish(i - 1, n);
        vstd::arithmetic::div_mod::lemma_small_mod((i - 1) as nat, n as nat);
        assert((n + (i - 1)) % n == i - 1);
    }
    if i == n - 1 {
        vstd::arithmetic::div_mod::lemma_mod_self_0(n);
    } else {
        vstd::arithmetic::div_mod::lemma_small_mod((i + 1) as nat, n as nat);
    }
}

/// The matches after a search for `query`: none for an empty query, those that were
/// found where it was run anew (`found`), else the next one.
pub open spec fn searched(
    m: Matches,
    query: Seq<char>,
    forward: bool,
    found: Option<usize>,
) -> Matches {
    if query.len() == 0 {
        Matches { total: 0, index: 0 }
    } else {
        match found {
            Some(total) => Matches { total, index: 0 },
            None => m.stepped(forward),
        }
    }
}

/// Carries out a search: `found` is the number of matches where the scrollback was
/// searched anew, which starts at the newest match; otherwise the next match becomes
/// the current one, towards newer ones where `forward`. Gives the current match,
/// counted from one, and the number of matches.
pub fn search(m: &mut Matches, query: &str, forward: bool, found: Option<usize>) -> (r: (
    usize,
    usize,
))
    requires
        old(m).wf(),
    ensures
        *final(m) == searched(*old(m), query@, forward, found),
        final(m).wf(),
        r == final(m).counts(),
{
    if query.unicode_len() == 0 {
        *m = Matches::none();
        return (0, 0);
    }
    match found {
        Some(total) => {
            *m = Matches { total, index: 0 };
        },
        None => m.step(forward),
    }
    if m.total == 0 {
        (0, 0)
    } else {
        (m.index + 1, m.total)
    }
}

/// A step to an older match and one to a newer match undo each other.
pub proof fn law_steps_undo(m: Matches)
    requires
        m.wf(),
    ensures
        m.stepped(true).stepped(false) == m,
        m.stepped(false).stepped(true) == m,
{
    if m.total > 0 {
        let n = m.total as int;
        lemma_step(m.index as int, n);
        lemma_step(m.stepped(true).index as int, n);
        lemma_step(m.stepped(false).index as int, n);
    }
}

/// `n` steps in one direction.
pub open spec fn stepped_times(m: Matches, forward: bool, n: nat) -> Matches
    decreases n,
{
    if n == 0 {
        m
    } else {
        stepped_times(m, forward, (n - 1) as nat).stepped(forward)
    }
}

/// As many steps as there are matches, in either direction, lead back to where they began.
pub proof fn law_steps_go_round(m: Matches, forward: bool)
    requires
        m.wf(),
    ensures
        stepped_times(m, forward, m.total as nat) == m,
{
    if m.total > 0 {
        if forward {
            lemma_steps_newer(m, m.total as nat);
        } else {
            lemma_steps_older(m, m.total as nat);
        }
    }
}

proof fn lemma_steps_older(m: Matches, k: nat)
    requires
        m.wf(),
        m.total > 0,
        k <= m.total,
    ensures
        stepped_times(m, false, k) == (Matches {
            index: (if m.index + k < m.total {
                m.index + k
            } else {
                m.index + k - m.total
            }) as usize,
            ..m
        }),
    decreases k,
{
    if k > 0 {
        lemma_steps_older(m, (k - 1) as nat);
        let before = stepped_times(m, false, (k - 1) as nat);
        lemma_step(before.index as int, m.total as int);
    }
}

proof fn lemma_steps_newer(m: Matches, k: nat)
    requires
        m.wf(),
        m.total > 0,
        k <= m.total,
    ensures
        stepped_times(m, true, k) == (Matches {
            index: (if k <= m.index {
                m.index - k
            } else {
                m.index - k + m.total
            }) as usize,
            ..m
        }),
    decreases k,
{
    if k > 0 {
        lemma_steps_newer(m, (k - 1) as nat);
        let before = stepped_times(m, true, (k - 1) as nat);
        lemma_step(before.index as int, m.total as int);
    }
}

/// The counter never counts beyond the matches: it shows nothing of nothing, or one of
/// the matches.
pub proof fn law_counts_in_range(m: Matches)
    requires
        m.wf(),
    ensures
        m.counts().0 <= m.counts().1,
        m.counts().0 == 0 <==> m.counts().1 == 0,
{
}

/// The numbers of the buttons.
pub proof fn law_button_codes()
    ensures
        button_code(MouseButton::Left) == 0,
        button_code(MouseButton::Middle) == 1,
        button_code(MouseButton::Right) == 2,
        button_code(MouseButton::LeftMove) == 32,
        button_code(MouseButton::MiddleMove) == 33,
        button_code(MouseButton::RightMove) == 34,
        button_code(MouseButton::NoneMove) == 35,
        button_code(MouseButton::ScrollUp) == 64,
        button_code(MouseButton::ScrollDown) == 65,
        button_code(MouseButton::Other) == 99,
{
}

/// Shift counts four, alt eight, and control and command sixteen, once.
pub proof fn law_modifier_codes(mods: Modifiers)
    ensures
        modifier_code(mods) % 4 == 0,
        0 <= modifier_code(mods) <= 28,
        modifier_code(mods) / 4 % 2 == 1 <==> mods.shift,
        modifier_code(mods) / 8 % 2 == 1 <==> mods.alt,
        modifier_code(mods) / 16 == 1 <==> mods.ctrl || mods.command || mods.mac_cmd,
{
}

/// An extended report: the button and the modifiers, then the column, then the line, both
/// counted from one, and a capital letter while the button is down.
pub proof fn law_extended_report(
    modes: MouseModes,
    button: MouseButton,
    mods: Modifiers,
    line: int,
    column: int,
)
    requires
        modes.sgr,
        line >= 0,
        column >= 0,
    ensures
        ({
            let body = seq!['\u{1b}', '[', '<'] + decimal(
                (button_code(button) + modifier_code(mods)) as nat,
            ) + seq![';'] + decimal((column + 1) as nat) + seq![';'] + decimal((line + 1) as nat);
            &&& report_of(modes, button, mods, line, column, true) == MouseReportView::Text(
                body.push('M'),
            )
            &&& report_of(modes, button, mods, line, column, false) == MouseReportView::Text(
                body.push('m'),
            )
        }),
{
    let body = seq!['\u{1b}', '[', '<'] + decimal(
        (button_code(button) + modifier_code(mods)) as nat,
    ) + seq![';'] + decimal((column + 1) as nat) + seq![';'] + decimal((line + 1) as nat);
    let code = button_code(button) + modifier_code(mods);
    assert(sgr_report(code, line, column, true) =~= body.push('M'));
    assert(sgr_report(code, line, column, false) =~= body.push('m'));
}

/// A plain report of a position that each has one byte: six bytes, the column before the
/// line, everything counted from 33, and the button from 32. That a button was let go is
/// reported without saying which. Beyond these positions there is no plain report.
pub proof fn law_plain_report(
    modes: MouseModes,
    button: MouseButton,
    mods: Modifiers,
    line: int,
    column: int,
)
    requires
        !modes.sgr,
        !modes.utf8,
        line >= 0,
        column >= 0,
    ensures
        ({
            let down = report_of(modes, button, mods, line, column, true);
            let up = report_of(modes, button, mods, line, column, false);
            let held = modifier_code(mods);
            &&& line >= 223 || column >= 223 ==> down == MouseReportView::Nothing && up
                == MouseReportView::Nothing
            &&& line < 223 && column < 223 ==> down == MouseReportView::Bytes(
                seq![
                    0x1bu8,
                    0x5b,
                    0x4d,
                    (32 + button_code(button) + held) as u8,
                    (column + 33) as u8,
                    (line + 33) as u8,
                ],
            ) && up == MouseReportView::Bytes(
                seq![
                    0x1bu8,
                    0x5b,
                    0x4d,
                    (35 + held) as u8,
                    (column + 33) as u8,
                    (line + 33) as u8,
                ],
            )
        }),
{
    if line < 223 && column < 223 {
        let held = modifier_code(mods);
        let code = button_code(button) + held;
        assert(plain_report(code, line, column, false)->0 =~= seq![
            0x1bu8,
            0x5b,
            0x4d,
            (32 + code) as u8,
            (column + 33) as u8,
            (line + 33) as u8,
        ]);
        assert(plain_report(3 + held, line, column, false)->0 =~= seq![
            0x1bu8,
            0x5b,
            0x4d,
            (35 + held) as u8,
            (column + 33) as u8,
            (line + 33) as u8,
        ]);
    }
}

/// A plain report in UTF-8 goes further, and is the same for small positions.
pub proof fn law_wide_report(code: int, line: int, column: int)
    requires
        line >= 0,
        column >= 0,
    ensures
        plain_report(code, line, column, true) is Some <==> line < 2015 && column < 2015,
        line < 95 && column < 95 ==> plain_report(code, line, column, true) == plain_report(
            code,
            line,
            column,
            false,
        ),
{
}

/// What the wheel does: nothing for no line; one press for each line to a program that
/// handles the mouse, of the button for the way it turned; else the view scrolls by as many
/// lines, also while shift is held.
pub proof fn law_wheel(lines: i32, modes: MouseModes, shift: bool)
    requires
        lines > i32::MIN,
    ensures
        ({
            let told = modes.click || modes.drag || modes.motion;
            let done = wheel_of(lines as int, modes, shift);
            &&& lines == 0 ==> done == WheelAction::Nothing
            &&& lines != 0 && (shift || !told) ==> done == WheelAction::Scroll(lines)
            &&& lines > 0 && !shift && told ==> done == (WheelAction::Report {
                button: MouseButton::ScrollUp,
                times: lines as u32,
            })
            &&& lines < 0 && !shift && told ==> done == (WheelAction::Report {
                button: MouseButton::ScrollDown,
                times: (0 - lines) as u32,
            })
        }),
{
}

/// One cursor key for each line: three bytes, the last of which says up or down.
pub proof fn law_arrow_keys(n: nat, up: bool)
    ensures
        arrow_keys(n, up).len() == 3 * n,
        forall|j: int|
            0 <= j < 3 * n ==> #[trigger] arrow_keys(n, up)[j] == (if j % 3 == 0 {
                0x1bu8
            } else if j % 3 == 1 {
                0x4f
            } else if up {
                0x41
            } else {
                0x42
            }),
    decreases n,
{
    if n > 0 {
        law_arrow_keys((n - 1) as nat, up);
    }
}

/// Which way a step goes: towards newer matches the number goes down, towards older ones up,
/// and from either end on to the other.
pub proof fn law_step_direction(m: Matches)
    requires
        m.wf(),
        m.total > 0,
    ensures
        m.index > 0 ==> m.stepped(true).index == m.index - 1,
        m.index == 0 ==> m.stepped(true).index == m.total - 1,
        m.index < m.total - 1 ==> m.stepped(false).index == m.index + 1,
        m.index == m.total - 1 ==> m.stepped(false).index == 0,
        m.stepped(true).total == m.total,
        m.stepped(false).total == m.total,
{
    lemma_step(m.index as int, m.total as int);
}

/// A new search starts at the first match, and an empty query has none. The current match
/// is counted from one.
pub proof fn law_search_counts(m: Matches, query: Seq<char>, forward: bool, total: usize)
    ensures
        query.len() == 0 ==> searched(m, query, forward, Some(total)).counts() == (0usize, 0usize)
            && searched(m, query, forward, None).counts() == (0usize, 0usize),
        query.len() > 0 && total > 0 ==> searched(m, query, forward, Some(total)).counts() == (
            1usize,
            total,
        ),
        query.len() > 0 && total == 0 ==> searched(m, query, forward, Some(total)).counts() == (
            0usize,
            0usize,
        ),
        query.len() > 0 ==> searched(m, query, forward, None) == m.stepped(forward),
        m.wf() && m.total > 0 ==> m.counts() == ((m.index + 1) as usize, m.total),
{
}

/// A number is written in decimal, and one below zero with a minus sign before it.
pub proof fn law_signed_decimal(n: nat)
    ensures
        signed_decimal(n as int) == decimal(n),
        n > 0 ==> signed_decimal(0 - n) == seq!['-'] + decimal(n),
{
}

/// Of a line of the scrollback a plain report has the lowest byte: lines that are 256 apart
/// are reported alike.
pub proof fn law_scrollback_position(pos: int, utf8: bool)
    requires
        pos < 0,
    ensures
        position_bytes(pos, utf8) == position_bytes(pos % 256, false),
        position_bytes(pos, utf8) == position_bytes(pos - 256, utf8),
{
}

/// A program handles the mouse where it asks for any of it, and follows drags where it asks for
/// motion, with a button held or always.
pub proof fn law_mouse_modes(modes: MouseModes)
    ensures
        modes.reporting() <==> modes.click || modes.drag || modes.motion,
        modes.follows_drag() <==> modes.drag || modes.motion,
{
}

} // verus!
