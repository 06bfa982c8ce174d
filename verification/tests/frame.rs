use tessera::app::{Area, Editing, Search, Tessera};
use tessera::color::Color32;
use tessera::dialogs::{dialog_choice, SearchBar, SearchInput, SearchStep};
use tessera::frame::{starts_terminal, PtyAction, PtyEvent};
use tessera::keys::{Keybinds, Modifiers};
use tessera::layout::{Axis, Dir, PaneId, Ratio};
use tessera::panes::{
    drop_half, drop_side, drop_target, Bounds, DropSpot, PaneGesture, PanePointer, PanesInput,
};
use tessera::shortcuts::{handle_shortcuts, Command, Input, InputEvent};
use tessera::strip::{
    close_button_shown, insertion_slot, strip_choice, strip_drop, strip_landing, tab_fill,
    tab_presets, tab_tint, StripDrop, StripInput, TabGesture,
};

fn layout(app: &Tessera) -> Vec<Vec<PaneId>> {
    app.tabs.iter().map(|t| t.tree.panes_in_order()).collect()
}

/// Tabs of the panes [0, 2] and [1], the first in front.
fn two_tabs() -> Tessera {
    let mut app = Tessera::new("/bin/zsh");
    app.new_tab(true);
    app.active = 0;
    app.split(Axis::Horizontal, true);
    app
}

fn press(key: &str, mods: Modifiers) -> InputEvent {
    InputEvent::Key { key: key.to_string(), pressed: true, mods }
}

fn commands(events: Vec<InputEvent>) -> (Vec<Command>, Vec<bool>) {
    let mut input = Input::new(events);
    let c = handle_shortcuts(&mut input, &Keybinds::default());
    (c, input.kept)
}

fn held_cmd() -> Modifiers {
    // What a Mac reports for the Command key.
    Modifiers { mac_cmd: true, ..Modifiers::command() }
}

#[test]
fn cmd_d_and_cmd_shift_d_coexist() {
    let (c, kept) = commands(vec![press("D", held_cmd())]);
    assert_eq!(c, vec![Command::Split(Axis::Horizontal)]);
    assert_eq!(kept, vec![false]);
    let (c, _) = commands(vec![press("D", held_cmd().plus(Modifiers::shift()))]);
    assert_eq!(c, vec![Command::Split(Axis::Vertical)]);
    // Both at once come as split down, then split right.
    let (c, kept) = commands(vec![
        press("D", held_cmd()),
        press("D", held_cmd().plus(Modifiers::shift())),
    ]);
    assert_eq!(c, vec![Command::Split(Axis::Vertical), Command::Split(Axis::Horizontal)]);
    assert_eq!(kept, vec![false, false]);
    // More alt is no match.
    let (c, kept) = commands(vec![press("D", held_cmd().plus(Modifiers::alt()))]);
    assert!(c.is_empty());
    assert_eq!(kept, vec![true]);
}

#[test]
fn default_shortcuts() {
    for (key, command) in [
        ("T", Command::NewTab),
        ("W", Command::ClosePane),
        ("K", Command::Clear),
        ("F", Command::Find),
        ("1", Command::SelectTab(0)),
        ("9", Command::SelectTab(8)),
    ] {
        assert_eq!(commands(vec![press(key, held_cmd())]).0, vec![command]);
        assert!(commands(vec![press(key, Modifiers::none())]).0.is_empty());
    }
    for (key, dir) in [
        ("Left", Dir::Left),
        ("Right", Dir::Right),
        ("Up", Dir::Up),
        ("Down", Dir::Down),
    ] {
        let mods = held_cmd().plus(Modifiers::alt());
        assert_eq!(commands(vec![press(key, mods)]).0, vec![Command::Move(dir)]);
        // The fixed shortcuts do not mind shift.
        let mods = mods.plus(Modifiers::shift());
        assert_eq!(commands(vec![press(key, mods)]).0, vec![Command::Move(dir)]);
    }
}

#[test]
fn only_presses_are_taken() {
    let release = InputEvent::Key { key: "T".to_string(), pressed: false, mods: held_cmd() };
    let (c, kept) = commands(vec![release, InputEvent::Other, InputEvent::Text]);
    assert!(c.is_empty());
    assert_eq!(kept, vec![true, true, true]);
}

#[test]
fn alt_numbers_take_the_composed_text() {
    let (c, kept) = commands(vec![
        press("3", Modifiers::alt()),
        InputEvent::Text,
        press("A", Modifiers::none()),
    ]);
    assert_eq!(c, vec![Command::FocusPane(2)]);
    assert_eq!(kept, vec![false, false, true]);
    // A command number does not.
    let (_, kept) = commands(vec![press("3", held_cmd()), InputEvent::Text]);
    assert_eq!(kept, vec![false, true]);
}

#[test]
fn alt_bindings_take_the_composed_text() {
    let mut binds = Keybinds::default();
    binds.find = tessera::keys::parse_keyspec("alt+t").unwrap();
    let mut input = Input::new(vec![press("T", Modifiers::alt()), InputEvent::Text]);
    assert_eq!(handle_shortcuts(&mut input, &binds), vec![Command::Find]);
    assert_eq!(input.kept, vec![false, false]);
    let mut input = Input::new(vec![press("U", Modifiers::alt()), InputEvent::Text]);
    assert!(!input.consume_keyspec(&binds.find));
    assert_eq!(input.kept, vec![true, true]);
}

#[test]
fn every_press_counts_once() {
    // A number with both modifiers is first of all a tab number.
    let both = held_cmd().plus(Modifiers::alt());
    let (c, _) = commands(vec![press("2", both)]);
    assert_eq!(c, vec![Command::SelectTab(1)]);
    // Two presses of one key in a frame are one command.
    let (c, kept) = commands(vec![press("T", held_cmd()), press("T", held_cmd())]);
    assert_eq!(c, vec![Command::NewTab]);
    assert_eq!(kept, vec![false, false]);
}

/// All sets of modifiers that can be held.
fn all_mods() -> Vec<Modifiers> {
    (0..32u8)
        .map(|m| Modifiers {
            alt: m & 1 != 0,
            ctrl: m & 2 != 0,
            shift: m & 4 != 0,
            mac_cmd: m & 8 != 0,
            command: m & 16 != 0,
        })
        .collect()
}

fn egui_mods(m: Modifiers) -> egui::Modifiers {
    egui::Modifiers {
        alt: m.alt,
        ctrl: m.ctrl,
        shift: m.shift,
        mac_cmd: m.mac_cmd,
        command: m.command,
    }
}

#[test]
fn matching_is_that_of_egui() {
    for held in all_mods() {
        for pattern in all_mods() {
            let spec = tessera::keys::KeySpec { mods: pattern, key: "A".to_string() };
            let hit = Input::new(vec![press("A", held)]).consume_keyspec(&spec);
            assert_eq!(hit, egui_mods(held).matches_exact(egui_mods(pattern)));
            let hit = Input::new(vec![press("A", held)]).consume_shortcut(pattern, "A");
            assert_eq!(hit, egui_mods(held).matches_logically(egui_mods(pattern)));
        }
    }
}

#[test]
fn number_and_arrow_keys_have_these_names() {
    assert_eq!(egui::Key::Num1.name(), "1");
    assert_eq!(egui::Key::Num9.name(), "9");
    assert_eq!(egui::Key::ArrowLeft.name(), "Left");
    assert_eq!(egui::Key::ArrowRight.name(), "Right");
    assert_eq!(egui::Key::ArrowUp.name(), "Up");
    assert_eq!(egui::Key::ArrowDown.name(), "Down");
}

#[test]
fn running_commands() {
    let mut app = two_tabs();
    let none = app.run_command(Command::SelectTab(1), false, None);
    assert_eq!((none.dropped, none.cleared, none.close_window), (None, None, false));
    assert_eq!(app.active, 1);
    app.run_command(Command::SelectTab(5), false, None);
    assert_eq!(app.active, 1);
    app.run_command(Command::SelectTab(0), false, None);
    app.run_command(Command::FocusPane(0), false, None);
    assert_eq!(app.tabs[0].focused, 0);
    app.run_command(Command::FocusPane(7), false, None);
    assert_eq!(app.tabs[0].focused, 0);
    app.run_command(Command::Move(Dir::Right), false, Some(2));
    assert_eq!(app.tabs[0].focused, 2);
    app.run_command(Command::Move(Dir::Right), false, None);
    assert_eq!(app.tabs[0].focused, 2);
    assert_eq!(app.run_command(Command::Clear, false, None).cleared, Some(2));
    app.run_command(Command::Find, false, None);
    let f = app.search.as_ref().unwrap();
    assert_eq!((f.pane, f.query.as_str(), f.terminal_focused, f.matches), (2, "", false, (0, 0)));
    app.run_command(Command::Split(Axis::Vertical), true, None);
    assert_eq!(layout(&app), vec![vec![0, 2, 3], vec![1]]);
    app.run_command(Command::NewTab, true, None);
    assert_eq!(app.active, 2);
    let e = app.run_command(Command::ClosePane, false, None);
    assert_eq!((e.dropped, e.close_window), (Some(4), false));
    assert_eq!(layout(&app), vec![vec![0, 2, 3], vec![1]]);
    assert!(starts_terminal(Command::NewTab) && starts_terminal(Command::Split(Axis::Vertical)));
    assert!(!starts_terminal(Command::Find));
}

#[test]
fn closing_the_last_pane_by_shortcut_ends_the_session() {
    let mut app = Tessera::new("sh");
    let e = app.run_command(Command::ClosePane, false, None);
    assert!(e.close_window && app.tabs.is_empty());
}

#[test]
fn terminals_report() {
    let mut app = two_tabs();
    let d = app.drain_pty_events(&vec![
        (0, PtyEvent::Title("vim".to_string())),
        (1, PtyEvent::PtyWrite("ack".to_string())),
        (9, PtyEvent::PtyWrite("lost".to_string())),
        (9, PtyEvent::Title("lost".to_string())),
        (2, PtyEvent::Other),
    ]);
    assert_eq!(app.panes[&0], "vim");
    assert_eq!(app.panes.len(), 3);
    let text = format!("{:?}", d.actions);
    assert_eq!(
        text,
        "[FinishClear(0), Write(1, \"ack\"), FinishClear(1), FinishClear(2)]"
    );
    assert!(matches!(d.actions[1], PtyAction::Write(1, _)));
    assert!(d.ended.is_empty() && !d.close_window);
    app.drain_pty_events(&vec![(0, PtyEvent::ResetTitle)]);
    assert_eq!(app.panes[&0], "zsh");
}

#[test]
fn shells_that_end_close_their_panes() {
    let mut app = two_tabs();
    let d = app.drain_pty_events(&vec![
        (1, PtyEvent::Exit),
        (1, PtyEvent::ChildExit),
        (0, PtyEvent::ChildExit),
        (0, PtyEvent::Title("late".to_string())),
    ]);
    assert_eq!(d.ended, vec![1, 1, 0]);
    assert!(!d.close_window);
    assert_eq!(layout(&app), vec![vec![2]]);
    let d = app.drain_pty_events(&vec![(2, PtyEvent::Exit)]);
    assert!(d.close_window && app.tabs.is_empty());
}

fn idle_strip() -> StripInput {
    StripInput { open_new: None, color: None, close: None, dropped: None, front: None, rename: None }
}

#[test]
fn the_strip() {
    let mut app = two_tabs();
    let red = Color32::from_rgb(220, 80, 80);
    app.apply_strip(StripInput { color: Some((1, Some(red))), front: Some(1), ..idle_strip() });
    assert_eq!(app.tabs[1].color, Some(red));
    assert_eq!(app.active, 1);
    assert_eq!(app.active_accent(), red);
    app.apply_strip(StripInput { color: Some((9, Some(red))), ..idle_strip() });
    // A drop wins over the change of the active tab.
    let dropped = Some(StripDrop::Tab { src: 1, to: 0 });
    app.apply_strip(StripInput { dropped, front: Some(1), ..idle_strip() });
    assert_eq!(layout(&app), vec![vec![1], vec![0, 2]]);
    assert_eq!(app.active, 0);
    app.active = 1;
    let dropped = Some(StripDrop::Pane { pane: 2, to: 0 });
    app.apply_strip(StripInput { dropped, ..idle_strip() });
    assert_eq!(layout(&app), vec![vec![2], vec![1], vec![0]]);
    // A close wins over everything.
    let dropped = Some(StripDrop::Tab { src: 0, to: 3 });
    let r = app.apply_strip(StripInput { close: Some(1), dropped, front: Some(2), ..idle_strip() });
    assert_eq!(r, (vec![1], false));
    assert_eq!(layout(&app), vec![vec![2], vec![0]]);
    app.apply_strip(StripInput { open_new: Some(true), ..idle_strip() });
    assert_eq!(layout(&app), vec![vec![2], vec![0], vec![3]]);
    assert_eq!(app.active, 2);
    let rename = Some((1, "zsh".to_string()));
    app.apply_strip(StripInput { rename, ..idle_strip() });
    let e = app.editing.as_ref().unwrap();
    assert_eq!((e.idx, e.buf.as_str(), e.focused), (1, "zsh", false));
}

#[test]
fn closing_the_only_tab_from_the_strip_ends_the_session() {
    let mut app = Tessera::new("sh");
    assert_eq!(app.apply_strip(StripInput { close: Some(0), ..idle_strip() }), (vec![0], true));
    let mut app = Tessera::new("sh");
    let open_new = Some(true);
    let r = app.apply_strip(StripInput { open_new, close: Some(0), ..idle_strip() });
    assert_eq!(r, (vec![0], false));
}

#[test]
fn gestures_on_tabs() {
    let idle = TabGesture { clicked: false, double_clicked: false, dragged_over: None };
    let click = TabGesture { clicked: true, ..idle };
    let double = TabGesture { clicked: true, double_clicked: true, ..idle };
    assert_eq!(strip_choice(&vec![]), (None, None));
    assert_eq!(strip_choice(&vec![idle, click, idle]), (Some(1), None));
    assert_eq!(strip_choice(&vec![double, idle]), (None, Some(0)));
    // Spring-loaded: another tab that is dragged over a tab brings it to the front.
    let over = |src| TabGesture { dragged_over: Some(src), ..idle };
    assert_eq!(strip_choice(&vec![idle, over(0)]), (Some(1), None));
    assert_eq!(strip_choice(&vec![over(0), idle]), (None, None));
    assert_eq!(strip_choice(&vec![click, over(0)]), (Some(1), None));
}

#[test]
fn landing_on_the_strip() {
    assert_eq!(insertion_slot(&vec![]), 0);
    assert_eq!(insertion_slot(&vec![true, true]), 0);
    assert_eq!(insertion_slot(&vec![false, true]), 1);
    assert_eq!(insertion_slot(&vec![false, false]), 2);
    let at = vec![false, true];
    assert_eq!(strip_landing(None, None, true, true, &at), None);
    assert_eq!(strip_landing(Some(0), None, true, false, &at), Some(1));
    assert_eq!(strip_landing(Some(0), None, false, true, &at), None);
    assert_eq!(strip_landing(None, Some(4), false, true, &at), Some(1));
    assert_eq!(strip_landing(None, Some(4), false, false, &at), None);
    assert_eq!(strip_landing(None, Some(4), true, true, &vec![]), None);
    assert_eq!(strip_drop(Some(1), Some(4), 2), Some(StripDrop::Tab { src: 1, to: 2 }));
    assert_eq!(strip_drop(None, Some(4), 2), Some(StripDrop::Pane { pane: 4, to: 2 }));
    assert_eq!(strip_drop(None, None, 2), None);
}

#[test]
fn how_tabs_look() {
    assert_eq!(tab_fill(true, true), Color32::from_rgb(40, 46, 62));
    assert_eq!(tab_fill(false, true), Color32::from_rgb(36, 38, 47));
    assert_eq!(tab_fill(false, false), Color32::from_rgb(28, 29, 36));
    assert_eq!((tab_tint(true), tab_tint(false)), (120, 70));
    assert_eq!(tab_presets().len(), 8);
    assert_eq!(tab_presets()[4], ("Teal", Color32::from_rgb(80, 190, 190)));
    assert!(close_button_shown(true, None, None, false));
    assert!(!close_button_shown(false, None, None, false));
    assert!(!close_button_shown(true, Some(0), None, false));
    assert!(!close_button_shown(true, None, Some(0), false));
    assert!(!close_button_shown(true, None, None, true));
    let mut app = two_tabs();
    app.tabs[1].name = Some("logs".to_string());
    assert_eq!((app.tab_name(0), app.tab_name(1)), ("zsh".to_string(), "logs".to_string()));
    assert_eq!(app.status_title(), "▌ zsh");
    app.active = 1;
    assert_eq!(app.status_title(), "▌ logs");
}

#[test]
fn renaming_a_tab() {
    let mut app = two_tabs();
    let edit = |buf: &str| Some(Editing { idx: 1, buf: buf.to_string(), focused: false });
    app.editing = edit("  build \t");
    assert!(app.rename_takes_focus() && !app.rename_takes_focus());
    app.finish_rename(None);
    assert!(app.editing.is_some());
    app.finish_rename(Some(true));
    assert!(app.editing.is_none());
    assert_eq!(app.tabs[1].name.as_deref(), Some("build"));
    app.editing = edit("other");
    app.finish_rename(Some(false));
    assert_eq!(app.tabs[1].name.as_deref(), Some("build"));
    app.editing = edit("   ");
    app.finish_rename(Some(true));
    assert_eq!(app.tabs[1].name, None);
    app.editing = Some(Editing { idx: 9, buf: "x".to_string(), focused: true });
    app.finish_rename(Some(true));
    assert!(app.editing.is_none() && app.tabs[0].name.is_none());
    assert!(!app.rename_takes_focus());
}

#[test]
fn accents() {
    let mut app = two_tabs();
    let accent = Color32::from_rgb(102, 161, 255);
    let teal = Color32::from_rgb(80, 190, 190);
    assert_eq!((app.active_accent(), app.rename_accent()), (accent, accent));
    app.tabs[1].color = Some(teal);
    app.editing = Some(Editing { idx: 1, buf: String::new(), focused: true });
    assert_eq!((app.active_accent(), app.rename_accent()), (accent, teal));
    app.editing = Some(Editing { idx: 5, buf: String::new(), focused: true });
    assert_eq!(app.rename_accent(), accent);
}

#[test]
fn what_dialogs_decide() {
    assert_eq!(dialog_choice(false, false, false, false), None);
    assert_eq!(dialog_choice(true, false, false, false), Some(true));
    assert_eq!(dialog_choice(true, true, false, false), Some(false));
    assert_eq!(dialog_choice(false, true, true, false), Some(true));
    assert_eq!(dialog_choice(true, false, true, true), Some(false));
}

#[test]
fn quitting_asks_first() {
    let mut app = two_tabs();
    assert!(!app.finish_quit(Some(true)));
    assert!(!app.quit_confirmed);
    assert!(app.hold_close());
    assert!(app.confirm_quit && !app.shortcuts_enabled() && !app.panes_focusable());
    assert!(!app.finish_quit(None));
    assert!(!app.finish_quit(Some(false)));
    assert!(!app.confirm_quit && app.shortcuts_enabled());
    assert!(app.hold_close());
    assert!(app.finish_quit(Some(true)));
    assert!(app.confirm_quit);
    assert!(!app.hold_close());
    // Nothing to protect, nothing to ask.
    let mut app = Tessera::new("sh");
    app.close_pane(0);
    assert!(!app.hold_close() && !app.confirm_quit);
}

fn idle_search() -> SearchInput {
    SearchInput {
        gained_focus: false,
        changed: false,
        enter: false,
        shift: false,
        escape: false,
        older: false,
        newer: false,
        close: false,
    }
}

fn run(app: &mut Tessera, input: SearchInput) -> Option<(String, bool, bool)> {
    match app.search_input(input) {
        SearchStep::Run { query, forward, reset, .. } => Some((query, forward, reset)),
        _ => None,
    }
}

#[test]
fn searching() {
    let mut app = two_tabs();
    assert_eq!(app.check_search(), SearchBar::Hidden);
    app.run_command(Command::Find, false, None);
    assert_eq!(app.check_search(), SearchBar::Shown);
    assert!(app.search_takes_focus(false) && !app.search_takes_focus(true));
    assert!(!app.panes_focusable() && app.shortcuts_enabled());
    app.search.as_mut().unwrap().query = "err".to_string();
    let q = "err".to_string();
    assert_eq!(run(&mut app, idle_search()), None);
    let changed = SearchInput { changed: true, ..idle_search() };
    assert_eq!(run(&mut app, changed), Some((q.clone(), false, true)));
    let enter = SearchInput { enter: true, ..idle_search() };
    assert_eq!(run(&mut app, enter), Some((q.clone(), false, false)));
    let back = SearchInput { shift: true, ..enter };
    assert_eq!(run(&mut app, back), Some((q.clone(), true, false)));
    let older = SearchInput { older: true, ..back };
    assert_eq!(run(&mut app, older), Some((q.clone(), false, false)));
    let newer = SearchInput { newer: true, ..older };
    assert_eq!(run(&mut app, newer), Some((q.clone(), true, false)));
    assert!(app.search_fails());
    app.set_matches((2, 5));
    assert!(!app.search_fails());
    assert_eq!(app.search.as_ref().unwrap().matches, (2, 5));
    // With the terminal focused, Enter and Escape belong to the shell.
    app.search.as_mut().unwrap().terminal_focused = true;
    assert!(app.panes_focusable());
    assert_eq!(run(&mut app, enter), None);
    let escape = SearchInput { escape: true, ..idle_search() };
    assert_eq!(run(&mut app, escape), None);
    assert!(app.search.is_some());
    let gained = SearchInput { gained_focus: true, enter: true, ..idle_search() };
    assert!(run(&mut app, gained).is_some());
    assert!(matches!(app.search_input(escape), SearchStep::Close(2)));
    assert!(app.search.is_none());
    assert!(matches!(app.search_input(escape), SearchStep::Stay));
    assert!(!app.search_fails() && !app.search_takes_focus(false));
}

#[test]
fn a_search_goes_with_its_pane() {
    let mut app = two_tabs();
    app.run_command(Command::Find, false, None);
    app.active = 1;
    assert_eq!(app.check_search(), SearchBar::Gone(Some(2)));
    assert!(app.search.is_none());
    app.search = Some(Search {
        pane: 77,
        query: String::new(),
        terminal_focused: false,
        matches: (0, 0),
    });
    assert_eq!(app.check_search(), SearchBar::Gone(None));
    app.active = 0;
    app.run_command(Command::Find, false, None);
    app.close_pane(2);
    assert!(app.search.is_none());
}

#[test]
fn how_panes_look() {
    let mut app = two_tabs();
    let away = PanePointer { over_pane: false, over_grip: false, over_close: false };
    let on = PanePointer { over_pane: true, ..away };
    let look = |app: &Tessera, several, at, tab_dragged| {
        let l = app.pane_look(0, several, at, tab_dragged);
        (l.mouse, l.grip, l.close)
    };
    assert_eq!(look(&app, true, away, false), (true, false, false));
    assert_eq!(look(&app, true, on, false), (true, true, true));
    assert_eq!(look(&app, false, on, false), (true, false, true));
    assert_eq!(look(&app, true, on, true), (true, true, false));
    let grip = PanePointer { over_grip: true, ..on };
    assert_eq!(look(&app, true, grip, false), (false, true, true));
    assert_eq!(look(&app, false, grip, false), (true, false, true));
    let close = PanePointer { over_close: true, ..on };
    assert_eq!(look(&app, true, close, false).0, false);
    app.pane_grip_down = Some(0);
    assert_eq!(look(&app, true, away, false), (false, true, false));
    app.pane_grip_down = Some(2);
    assert_eq!(look(&app, true, on, false), (true, false, false));
}

fn idle_panes() -> PanesInput {
    PanesInput { gestures: vec![], any_down: false, ratios: vec![], merged: None, moved: None }
}

fn gesture(pane: PaneId) -> PaneGesture {
    PaneGesture {
        pane,
        clicked: false,
        grip_clicked: false,
        grip_held: false,
        close_clicked: false,
    }
}

#[test]
fn clicking_panes() {
    let mut app = two_tabs();
    app.run_command(Command::Find, false, None);
    let gestures = vec![PaneGesture { clicked: true, ..gesture(0) }, gesture(2)];
    assert_eq!(app.apply_panes(&PanesInput { gestures, ..idle_panes() }), (None, false));
    assert_eq!(app.tabs[0].focused, 0);
    assert!(app.search.as_ref().unwrap().terminal_focused && app.panes_focusable());
    let gestures = vec![PaneGesture { grip_clicked: true, ..gesture(2) }];
    app.apply_panes(&PanesInput { gestures, ..idle_panes() });
    assert_eq!(app.tabs[0].focused, 2);
}

#[test]
fn holding_a_grip() {
    let mut app = two_tabs();
    let held = || vec![PaneGesture { grip_held: true, ..gesture(2) }];
    app.apply_panes(&PanesInput { gestures: held(), any_down: true, ..idle_panes() });
    assert_eq!(app.pane_grip_down, Some(2));
    // It is remembered after the pointer has left the pane, until the button lifts.
    app.apply_panes(&PanesInput { any_down: true, ..idle_panes() });
    assert_eq!(app.pane_grip_down, Some(2));
    app.apply_panes(&idle_panes());
    assert_eq!(app.pane_grip_down, None);
    app.apply_panes(&PanesInput { gestures: held(), ..idle_panes() });
    assert_eq!(app.pane_grip_down, None);
}

#[test]
fn dropping_and_closing() {
    let mut app = two_tabs();
    let spot = |target, after| DropSpot { target, axis: Axis::Vertical, after };
    app.apply_panes(&PanesInput { moved: Some((2, spot(0, false))), ..idle_panes() });
    assert_eq!(layout(&app), vec![vec![2, 0], vec![1]]);
    app.apply_panes(&PanesInput { merged: Some((1, spot(2, true))), ..idle_panes() });
    assert_eq!(layout(&app), vec![vec![2, 1, 0]]);
    let ratios = vec![(0, Ratio { bits: 5 })];
    app.apply_panes(&PanesInput { ratios, ..idle_panes() });
    assert!(format!("{:?}", app.tabs[0].tree).contains("bits: 5"));
    let closing = |p| PanesInput {
        gestures: vec![PaneGesture { close_clicked: true, ..gesture(p) }],
        ..idle_panes()
    };
    assert_eq!(app.apply_panes(&closing(1)), (Some(1), false));
    assert_eq!(app.apply_panes(&closing(1)), (None, false));
    assert_eq!(app.apply_panes(&closing(2)), (Some(2), false));
    assert_eq!(app.apply_panes(&closing(0)), (Some(0), true));
}

#[test]
fn where_drops_go() {
    assert_eq!(drop_target(&vec![1, 2], 2), Some(1));
    assert_eq!(drop_target(&vec![2], 2), None);
    assert_eq!(drop_target(&vec![], 2), None);
    assert_eq!(drop_side(1, 9, 5, 5), (Axis::Horizontal, false));
    assert_eq!(drop_side(9, 1, 5, 5), (Axis::Horizontal, true));
    assert_eq!(drop_side(5, 5, 1, 9), (Axis::Vertical, false));
    assert_eq!(drop_side(5, 5, 9, 1), (Axis::Vertical, true));
    // In the middle the left side counts.
    assert_eq!(drop_side(5, 5, 5, 5), (Axis::Horizontal, false));
    assert_eq!(drop_side(6, 5, 5, 5), (Axis::Horizontal, true));
    assert_eq!(drop_side(6, 6, 5, 5), (Axis::Vertical, false));
}

#[test]
fn drop_sides_by_the_bits_of_fractions() {
    // Fractions of the way, as the distances to the left and to the right edge.
    for i in 0..=20 {
        for j in 0..=20 {
            let (fx, fy) = (i as f32 / 20.0, j as f32 / 20.0);
            let (l, r, t, b) = (fx, 1.0 - fx, fy, 1.0 - fy);
            let nearest = l.min(r).min(t).min(b);
            let want = if nearest == l {
                (Axis::Horizontal, false)
            } else if nearest == r {
                (Axis::Horizontal, true)
            } else if nearest == t {
                (Axis::Vertical, false)
            } else {
                (Axis::Vertical, true)
            };
            let got = drop_side(l.to_bits(), r.to_bits(), t.to_bits(), b.to_bits());
            assert_eq!(got, want);
        }
    }
}

#[test]
fn halves() {
    let all = || Bounds { left: 0.0f32, top: 10.0, right: 100.0, bottom: 30.0 };
    let half = |axis, after| {
        let b = drop_half(all(), 50.0, 20.0, axis, after);
        (b.left, b.top, b.right, b.bottom)
    };
    assert_eq!(half(Axis::Horizontal, false), (0.0, 10.0, 50.0, 30.0));
    assert_eq!(half(Axis::Horizontal, true), (50.0, 10.0, 100.0, 30.0));
    assert_eq!(half(Axis::Vertical, false), (0.0, 10.0, 100.0, 20.0));
    assert_eq!(half(Axis::Vertical, true), (0.0, 20.0, 100.0, 30.0));
}

#[test]
fn small_things_of_a_frame() {
    let mut app = two_tabs();
    assert_eq!(app.paste_target(), Some(2));
    app.tabs[0].focused = 99;
    assert_eq!(app.paste_target(), None);
    assert_eq!(app.pane_title(0), "zsh");
    app.panes.insert(0, "htop".to_string());
    assert_eq!(app.pane_title(0), "htop");
    assert_eq!(app.pane_title(99), "zsh");
    let area = Area { left: 1, top: 2, right: 3, bottom: 4 };
    app.set_area(area);
    assert_eq!(app.tabs[0].last_area, area);
    app.active = 9;
    assert_eq!(app.paste_target(), None);
    assert_eq!(app.status_title(), "▌ zsh");
}
