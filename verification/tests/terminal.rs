use tessera::keys::Modifiers;
use tessera::paste::bracket;
use tessera::pointer::{
    cell_at, motion, on_right_half, press, release, v_thumb, CellGrid, Fraction, Gesture,
    PointerAction,
};
use tessera::terminal::{
    mouse_report, scroll_keys, search, wheel, Matches, MouseButton, MouseModes, MouseReport,
    WheelAction,
};
use tessera::typing::{
    key_bytes, term_name, uses_clipboard, Clearing, CLEAR_SCREEN, INTERRUPT, QUOTE_NEXT,
};

const QUIET: MouseModes = MouseModes {
    click: false,
    drag: false,
    motion: false,
    sgr: false,
    utf8: false,
};

fn text(r: MouseReport) -> String {
    match r {
        MouseReport::Text(t) => t,
        other => panic!("{:?}", other),
    }
}

fn bytes(r: MouseReport) -> Vec<u8> {
    match r {
        MouseReport::Bytes(b) => b,
        other => panic!("{:?}", other),
    }
}

#[test]
fn extended_reports() {
    let modes = MouseModes { sgr: true, ..QUIET };
    let none = Modifiers::none();
    let left = MouseButton::Left;
    assert_eq!(text(mouse_report(modes, left, none, 0, 0, true)), "\x1b[<0;1;1M");
    assert_eq!(text(mouse_report(modes, left, none, 41, 9, false)), "\x1b[<0;10;42m");
    assert_eq!(text(mouse_report(modes, left, none, -5, 2, true)), "\x1b[<0;3;-4M");
    let all = Modifiers::shift().plus(Modifiers::alt()).plus(Modifiers::command());
    let up = MouseButton::ScrollUp;
    assert_eq!(text(mouse_report(modes, up, all, 0, 300, true)), "\x1b[<92;301;1M");
    // Control counts as command does.
    let ctrl = Modifiers::ctrl();
    assert_eq!(text(mouse_report(modes, left, ctrl, 0, 0, true)), "\x1b[<16;1;1M");
}

#[test]
fn plain_reports() {
    let none = Modifiers::none();
    let left = MouseButton::Left;
    assert_eq!(bytes(mouse_report(QUIET, left, none, 0, 0, true)), b"\x1b[M !!");
    // A release does not say which button.
    let right = MouseButton::Right;
    assert_eq!(bytes(mouse_report(QUIET, right, none, 2, 1, false)), b"\x1b[M#\"#");
    let last = bytes(mouse_report(QUIET, left, none, 222, 222, true));
    assert_eq!(last[4..], [255, 255]);
    assert!(matches!(mouse_report(QUIET, left, none, 0, 223, true), MouseReport::Nothing));
    assert!(matches!(mouse_report(QUIET, left, none, 223, 0, true), MouseReport::Nothing));
    assert!(matches!(mouse_report(QUIET, left, none, i32::MAX, 0, true), MouseReport::Nothing));
    // Of a line of the scrollback the lowest byte counts, where there is room for it.
    for (line, byte) in [(-34, 255), (-100, 189), (-256, 33), (-300, 245)] {
        let got = bytes(mouse_report(QUIET, left, none, line, 0, true));
        assert_eq!(got, vec![0x1b, b'[', b'M', 32, 33, byte]);
        assert_eq!(byte, 33 + line as u8);
    }
    let utf8 = MouseModes { utf8: true, ..QUIET };
    for pos in [0usize, 94, 95, 500, 2014] {
        let b = bytes(mouse_report(utf8, left, none, 0, pos, true));
        let c = char::from_u32(33 + pos as u32).unwrap().to_string();
        assert_eq!(&b[4..b.len() - 1], c.as_bytes());
    }
    assert!(matches!(mouse_report(utf8, left, none, 0, 2015, true), MouseReport::Nothing));
}

#[test]
fn button_codes() {
    let modes = MouseModes { sgr: true, ..QUIET };
    for (button, code) in [
        (MouseButton::Left, 0),
        (MouseButton::Middle, 1),
        (MouseButton::Right, 2),
        (MouseButton::LeftMove, 32),
        (MouseButton::MiddleMove, 33),
        (MouseButton::RightMove, 34),
        (MouseButton::NoneMove, 35),
        (MouseButton::ScrollUp, 64),
        (MouseButton::ScrollDown, 65),
        (MouseButton::Other, 99),
    ] {
        let r = text(mouse_report(modes, button, Modifiers::none(), 0, 0, true));
        assert_eq!(r, format!("\x1b[<{};1;1M", code));
    }
}

#[test]
fn the_wheel() {
    let clicks = MouseModes { click: true, ..QUIET };
    assert_eq!(wheel(0, clicks, false), WheelAction::Nothing);
    assert_eq!(wheel(3, QUIET, false), WheelAction::Scroll(3));
    let up = WheelAction::Report { button: MouseButton::ScrollUp, times: 3 };
    assert_eq!(wheel(3, clicks, false), up);
    let down = WheelAction::Report { button: MouseButton::ScrollDown, times: 2 };
    assert_eq!(wheel(-2, clicks, false), down);
    assert_eq!(wheel(-2, clicks, true), WheelAction::Scroll(-2));
    let most = WheelAction::Report { button: MouseButton::ScrollDown, times: 1 << 31 };
    assert_eq!(wheel(i32::MIN, clicks, false), most);
    assert_eq!(scroll_keys(2), b"\x1bOA\x1bOA");
    assert_eq!(scroll_keys(-1), b"\x1bOB");
    assert!(scroll_keys(0).is_empty());
}

#[test]
fn stepping_through_matches() {
    let mut m = Matches::none();
    assert_eq!(search(&mut m, "x", false, None), (0, 0));
    assert_eq!(search(&mut m, "x", false, Some(3)), (1, 3));
    assert_eq!(search(&mut m, "x", false, None), (2, 3));
    assert_eq!(search(&mut m, "x", false, None), (3, 3));
    assert_eq!(search(&mut m, "x", false, None), (1, 3));
    assert_eq!(search(&mut m, "x", true, None), (3, 3));
    for forward in [true, false] {
        let start = m;
        for _ in 0..start.total {
            m.step(forward);
        }
        assert_eq!(m, start); // once round, in either direction
    }
    assert_eq!(search(&mut m, "y", true, Some(0)), (0, 0));
    assert_eq!(search(&mut m, "y", true, Some(2)), (1, 2));
    assert_eq!(search(&mut m, "", true, None), (0, 0));
    assert_eq!(m, Matches { total: 0, index: 0 });
}

#[test]
fn clearing_waits_for_the_redraw() {
    let mut c = Clearing { pending: false };
    assert!(!c.finish());
    assert_eq!(c.begin(), CLEAR_SCREEN);
    assert!(c.finish());
    assert!(!c.finish());
    assert_eq!((CLEAR_SCREEN, INTERRUPT, QUOTE_NEXT), (12, 3, 22));
}

const GRID: CellGrid = CellGrid { cell_width: 8, cell_height: 16, columns: 80, lines: 24 };

#[test]
fn cells() {
    assert_eq!(cell_at(0, 0, GRID, 0), (0, 0));
    assert_eq!(cell_at(8, 15, GRID, 0), (0, 1));
    assert_eq!(cell_at(7, 16, GRID, 0), (1, 0));
    assert_eq!(cell_at(99999, 99999, GRID, 0), (23, 79));
    assert_eq!(cell_at(0, 32, GRID, 10), (-8, 0));
    assert!(!on_right_half(4, GRID) && on_right_half(5, GRID) && !on_right_half(8, GRID));
}

fn whole_drag(modes: MouseModes, mods: Modifiers) -> Vec<PointerAction> {
    let mut g = Gesture::Idle;
    let mut all = press(&mut g, modes, mods);
    all.extend(motion(g, modes, mods));
    all.extend(release(&mut g, modes, false, false));
    assert_eq!(g, Gesture::Idle);
    all
}

fn told(button: MouseButton, pressed: bool) -> PointerAction {
    PointerAction::Report { button, pressed }
}

#[test]
fn a_drag_selects_and_copies() {
    let local = vec![
        PointerAction::SelectStart,
        PointerAction::SelectUpdate,
        PointerAction::Copy,
    ];
    assert_eq!(whole_drag(QUIET, Modifiers::none()), local);
    // Shift and alt force it whatever the program asked for.
    let busy = MouseModes { motion: true, sgr: true, ..QUIET };
    assert_eq!(whole_drag(busy, Modifiers::shift()), local);
    assert_eq!(whole_drag(busy, Modifiers::alt()), local);
}

#[test]
fn a_drag_selects_when_the_program_tracks_only_clicks() {
    let modes = MouseModes { click: true, sgr: true, ..QUIET };
    assert_eq!(
        whole_drag(modes, Modifiers::none()),
        vec![
            told(MouseButton::Left, true),
            PointerAction::SelectStart,
            PointerAction::SelectUpdate,
            told(MouseButton::Left, false),
            PointerAction::Copy,
        ]
    );
}

#[test]
fn programs_that_track_motion_receive_the_drag() {
    let reports = vec![
        told(MouseButton::Left, true),
        told(MouseButton::LeftMove, true),
        told(MouseButton::Left, false),
    ];
    let motion = MouseModes { motion: true, ..QUIET };
    assert_eq!(whole_drag(motion, Modifiers::none()), reports);
    let drag = MouseModes { drag: true, ..QUIET };
    assert_eq!(whole_drag(drag, Modifiers::none()), reports);
}

#[test]
fn clicks_on_words_and_links() {
    let mut g = Gesture::Selecting { forced: false };
    assert_eq!(
        release(&mut g, QUIET, true, true),
        vec![PointerAction::SelectStart, PointerAction::Copy]
    );
    assert_eq!(release(&mut g, QUIET, false, true), vec![PointerAction::OpenLink]);
    assert!(release(&mut g, QUIET, false, false).is_empty());
    assert!(motion(Gesture::Idle, QUIET, Modifiers::none()).is_empty());
    // A forced selection that ends on a link is still not the program's.
    let clicks = MouseModes { click: true, ..QUIET };
    press(&mut g, clicks, Modifiers::shift());
    assert_eq!(
        release(&mut g, clicks, false, true),
        vec![PointerAction::OpenLink, PointerAction::Copy]
    );
}

#[test]
fn clicks_belong_to_programs_that_ask_for_them() {
    let up = told(MouseButton::Left, false);
    for modes in [
        MouseModes { click: true, ..QUIET },
        MouseModes { drag: true, ..QUIET },
        MouseModes { motion: true, ..QUIET },
    ] {
        // A release without a press in this pane.
        let mut g = Gesture::Idle;
        assert_eq!(release(&mut g, modes, false, false), vec![up]);
        // Neither a link nor a word.
        assert_eq!(release(&mut g, modes, false, true), vec![up]);
        assert_eq!(release(&mut g, modes, true, false), vec![up]);
    }
    let clicks = MouseModes { click: true, ..QUIET };
    let mut g = Gesture::Idle;
    press(&mut g, clicks, Modifiers::command());
    assert_eq!(release(&mut g, clicks, false, true), vec![up, PointerAction::Copy]);
}

#[test]
fn programs_may_change_their_mind_in_a_drag() {
    let motion_mode = MouseModes { motion: true, ..QUIET };
    let moved = vec![told(MouseButton::LeftMove, true)];
    // Begun as a selection, while the program did not care for the mouse.
    let mut g = Gesture::Idle;
    press(&mut g, QUIET, Modifiers::none());
    assert_eq!(motion(g, motion_mode, Modifiers::none()), moved);
    assert_eq!(motion(g, motion_mode, Modifiers::ctrl()), vec![PointerAction::SelectUpdate]);
    assert_eq!(
        release(&mut g, motion_mode, false, false),
        vec![told(MouseButton::Left, false), PointerAction::Copy]
    );
    // Begun as the program's own.
    press(&mut g, motion_mode, Modifiers::none());
    assert!(motion(g, motion_mode, Modifiers::ctrl()).is_empty());
    assert!(motion(g, QUIET, Modifiers::none()).is_empty());
    assert!(release(&mut g, QUIET, false, false).is_empty());
    // A forced selection stays one.
    press(&mut g, motion_mode, Modifiers::shift());
    assert_eq!(motion(g, motion_mode, Modifiers::none()), vec![PointerAction::SelectUpdate]);
}

fn value(f: Fraction) -> f32 {
    f.part as f32 / f.whole as f32
}

#[test]
fn thumb_size_is_visible_over_total() {
    let (_, size) = v_thumb(400, 100, 0);
    assert!((value(size) - 0.25).abs() < 1e-6);
}

#[test]
fn at_bottom_offset_zero_thumb_is_at_the_end() {
    // An offset of zero means that the view is pinned to the newest output.
    let (pos, _) = v_thumb(400, 100, 0);
    assert!((value(pos) - 1.0).abs() < 1e-6);
}

#[test]
fn scrolled_to_the_top_thumb_is_at_the_start() {
    // The largest offset is the history: the oldest line is in view.
    let (pos, _) = v_thumb(400, 100, 300);
    assert!(value(pos).abs() < 1e-6);
}

#[test]
fn halfway_scrolled_thumb_is_centered() {
    // Half of the lines of history scrolled back.
    let (pos, _) = v_thumb(400, 100, 150);
    assert!((value(pos) - 0.5).abs() < 1e-6);
}

#[test]
fn a_thumb_without_history_fills_the_track() {
    let (pos, size) = v_thumb(50, 100, 3);
    assert_eq!((value(pos), value(size)), (0.0, 1.0));
    let (pos, _) = v_thumb(400, 100, 9999);
    assert_eq!(value(pos), 0.0);
}

#[test]
fn copy_and_paste_keys() {
    let cmd = Modifiers::command();
    assert!(uses_clipboard(true, cmd));
    assert!(!uses_clipboard(false, cmd));
    assert!(uses_clipboard(false, cmd.plus(Modifiers::shift())));
    assert!(uses_clipboard(false, Modifiers::ctrl().plus(Modifiers::shift())));
    assert_eq!(bracket("a\nb", false), "a\nb");
    assert_eq!(bracket("a\nb", true), "\x1b[200~a\nb\x1b[201~");
}

#[test]
fn containing_modifiers_is_that_of_egui() {
    for m in 0..32u8 {
        let held = Modifiers {
            alt: m & 1 != 0,
            ctrl: m & 2 != 0,
            shift: m & 4 != 0,
            mac_cmd: m & 8 != 0,
            command: m & 16 != 0,
        };
        let egui_held = egui::Modifiers {
            alt: held.alt,
            ctrl: held.ctrl,
            shift: held.shift,
            mac_cmd: held.mac_cmd,
            command: held.command,
        };
        let both = egui::Modifiers::COMMAND | egui::Modifiers::SHIFT;
        assert_eq!(uses_clipboard(false, held), egui_held.contains(both));
    }
}

#[test]
fn what_keys_send() {
    let none = Modifiers::none();
    let sent = |key: egui::Key, mods, app| key_bytes(key.name(), mods, app);
    assert_eq!(sent(egui::Key::Enter, none, false).unwrap(), "\r");
    assert_eq!(sent(egui::Key::Backspace, none, false).unwrap(), "\x7f");
    assert_eq!(sent(egui::Key::ArrowUp, none, false).unwrap(), "\x1b[A");
    assert_eq!(sent(egui::Key::ArrowUp, none, true).unwrap(), "\x1bOA");
    assert_eq!(sent(egui::Key::Delete, none, false).unwrap(), "\x1b[3~");
    assert_eq!(sent(egui::Key::F1, none, false).unwrap(), "\x1bOP");
    assert_eq!(sent(egui::Key::F12, none, false).unwrap(), "\x1b[24~");
    assert_eq!(sent(egui::Key::C, Modifiers::ctrl(), false).unwrap(), "\x03");
    assert_eq!(sent(egui::Key::Z, Modifiers::ctrl(), false).unwrap(), "\x1a");
    assert_eq!(sent(egui::Key::C, none, false), None);
    assert_eq!(sent(egui::Key::C, Modifiers::alt(), false), None);
    assert_eq!(sent(egui::Key::Num1, Modifiers::ctrl(), false), None);
}

#[test]
fn the_kind_of_terminal() {
    assert_eq!(term_name(None), "xterm-256color");
    assert_eq!(term_name(Some(String::new())), "xterm-256color");
    assert_eq!(term_name(Some("screen".to_string())), "screen");
}
