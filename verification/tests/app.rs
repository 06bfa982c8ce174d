use tessera::app::{reorder_index, Tessera};
use tessera::labels::{
    match_counter, quit_detail, shell_basename, shell_quote, tab_label, truncate,
};
use tessera::layout::{Axis, PaneId, Ratio, Tree};
use tessera::paste::paste_text;

#[test]
fn shell_quote_wraps_and_escapes() {
    assert_eq!(shell_quote("/tmp/plain.png"), "'/tmp/plain.png'");
    assert_eq!(
        shell_quote("/tmp/with space/img.png"),
        "'/tmp/with space/img.png'"
    );
    assert_eq!(shell_quote("/tmp/it's.png"), r"'/tmp/it'\''s.png'");
}

fn apply(list: &[u64], src: usize, to: usize) -> Vec<u64> {
    let mut v = list.to_vec();
    if let Some(at) = reorder_index(v.len(), src, to) {
        let x = v.remove(src);
        v.insert(at, x);
    }
    v
}

#[test]
fn drag_tab3_to_front_makes_it_first() {
    // [1,2,3], drag tab 3 (idx 2) before tab 1 (slot 0) -> [3,1,2]
    assert_eq!(apply(&[1, 2, 3], 2, 0), vec![3, 1, 2]);
}

#[test]
fn drag_tab2_to_end_makes_it_last() {
    // [1,2,3], drag tab 2 (idx 1) after tab 3 (slot 3) -> [1,3,2]
    assert_eq!(apply(&[1, 2, 3], 1, 3), vec![1, 3, 2]);
}

#[test]
fn drop_in_same_slot_is_a_noop() {
    assert_eq!(reorder_index(3, 1, 1), None); // before itself
    assert_eq!(reorder_index(3, 1, 2), None); // after itself
    assert_eq!(apply(&[1, 2, 3], 1, 1), vec![1, 2, 3]);
}

#[test]
fn reorder_index_clamps() {
    assert_eq!(reorder_index(3, 0, 99), Some(2));
    assert_eq!(reorder_index(3, 3, 0), None);
    assert_eq!(reorder_index(0, 0, 0), None);
    assert_eq!(reorder_index(3, 2, 99), None);
}

/// The panes of each tab, in order.
fn layout(app: &Tessera) -> Vec<Vec<PaneId>> {
    app.tabs.iter().map(|t| t.tree.panes_in_order()).collect()
}

/// Tabs of the panes [0, 3], [1] and [2], the second in front.
fn three_tabs() -> Tessera {
    let mut app = Tessera::new("/bin/zsh");
    app.new_tab(true);
    app.new_tab(true);
    app.active = 0;
    app.split(Axis::Horizontal, true);
    app.active = 1;
    assert_eq!(layout(&app), vec![vec![0, 3], vec![1], vec![2]]);
    app
}

#[test]
fn a_window_opens_with_one_pane() {
    let app = Tessera::new("/usr/local/bin/fish");
    assert_eq!(layout(&app), vec![vec![0]]);
    assert_eq!((app.active, app.next_id), (0, 1));
    assert_eq!(app.default_title, "fish");
    assert_eq!(app.panes[&0], "fish");
    assert_eq!(app.tabs[0].focused, 0);
    assert!(app.tabs[0].name.is_none() && app.tabs[0].color.is_none());
}

#[test]
fn a_terminal_that_fails_opens_nothing() {
    let mut app = Tessera::new("sh");
    app.new_tab(false);
    app.split(Axis::Vertical, false);
    assert_eq!(app.spawn_pane(false), None);
    assert_eq!(layout(&app), vec![vec![0]]);
    assert_eq!(app.next_id, 4);
    assert_eq!(app.panes.len(), 1);
}

#[test]
fn splits_put_the_new_pane_behind_and_focus_it() {
    let mut app = Tessera::new("sh");
    app.split(Axis::Horizontal, true);
    app.split(Axis::Vertical, true);
    assert_eq!(layout(&app), vec![vec![0, 1, 2]]);
    assert_eq!(app.tabs[0].focused, 2);
    app.tabs[0].focused = 0;
    app.split(Axis::Vertical, true);
    assert_eq!(layout(&app), vec![vec![0, 3, 1, 2]]);
}

#[test]
fn closing_a_fresh_split_restores_the_tab() {
    let mut app = three_tabs();
    app.active = 0;
    app.tabs[0].focused = 0;
    let before = format!("{:?}", app.tabs);
    app.split(Axis::Vertical, true);
    assert!(!app.close_pane(4));
    assert_eq!(format!("{:?}", app.tabs), before);
    assert_eq!(app.next_id, 5);
}

#[test]
fn closing_panes_and_tabs() {
    let mut app = three_tabs();
    app.active = 2;
    // The last pane of a tab takes the tab with it.
    assert!(!app.close_pane(1));
    assert_eq!(layout(&app), vec![vec![0, 3], vec![2]]);
    assert_eq!(app.active, 1);
    // A second report of the same pane does nothing.
    assert!(!app.close_pane(1));
    // The focus goes to the sibling.
    app.tabs[0].focused = 3;
    assert!(!app.close_pane(3));
    assert_eq!(app.tabs[0].focused, 0);
    assert_eq!(layout(&app), vec![vec![0], vec![2]]);
    assert_eq!(app.close_tab(7), (vec![], false));
    assert_eq!(app.close_tab(1), (vec![2], false));
    assert_eq!(app.active, 0);
    // The last tab closes the window.
    assert!(app.close_pane(0));
    assert!(app.tabs.is_empty() && app.panes.is_empty());
}

#[test]
fn closing_a_tab_takes_all_its_panes() {
    let mut app = three_tabs();
    assert_eq!(app.close_tab(0), (vec![0, 3], false));
    assert_eq!(layout(&app), vec![vec![1], vec![2]]);
    assert_eq!(app.active, 0);
    let mut ids: Vec<PaneId> = app.panes.keys().copied().collect();
    ids.sort();
    assert_eq!(ids, vec![1, 2]);
    app.close_tab(0);
    assert_eq!(app.close_tab(0), (vec![2], true));
}

#[test]
fn closing_a_tab_is_closing_its_panes() {
    let mut whole = three_tabs();
    let mut single = three_tabs();
    whole.close_tab(0);
    for p in [0, 3] {
        single.close_pane(p);
    }
    assert_eq!(format!("{:?}", whole.tabs), format!("{:?}", single.tabs));
    assert_eq!(whole.active, single.active);
    assert_eq!(whole.panes, single.panes);
}

#[test]
fn merging_a_tab_into_a_pane() {
    let mut app = three_tabs();
    app.merge_tab(0, 2, Axis::Vertical, false);
    assert_eq!(layout(&app), vec![vec![1], vec![0, 3, 2]]);
    assert_eq!(app.active, 1);
    assert_eq!(app.tabs[1].focused, 3);
    assert_eq!(app.panes.len(), 4);
    app.merge_tab(1, 1, Axis::Horizontal, true);
    assert_eq!(layout(&app), vec![vec![1, 0, 3, 2]]);
    // Not into itself, not into nothing, and not from nowhere.
    app.merge_tab(0, 1, Axis::Horizontal, true);
    app.merge_tab(0, 99, Axis::Horizontal, true);
    app.merge_tab(5, 1, Axis::Horizontal, true);
    assert_eq!(layout(&app), vec![vec![1, 0, 3, 2]]);
}

#[test]
fn reordering_tabs() {
    let mut app = three_tabs();
    app.reorder_tab(2, 0);
    assert_eq!(layout(&app), vec![vec![2], vec![0, 3], vec![1]]);
    assert_eq!(app.active, 0);
    // And back again.
    app.reorder_tab(0, 3);
    assert_eq!(layout(&app), vec![vec![0, 3], vec![1], vec![2]]);
    assert_eq!(app.active, 2);
    app.reorder_tab(1, 2);
    assert_eq!(app.active, 1);
    app.reorder_tab(9, 0);
    assert_eq!(app.active, 1);
    assert_eq!(layout(&app), vec![vec![0, 3], vec![1], vec![2]]);
}

#[test]
fn moving_panes() {
    let mut app = three_tabs();
    app.active = 0;
    app.move_pane(0, 3, Axis::Vertical, true);
    assert_eq!(layout(&app)[0], vec![3, 0]);
    assert_eq!(app.tabs[0].focused, 0);
    app.move_pane(0, 0, Axis::Vertical, true);
    app.move_pane(0, 1, Axis::Vertical, true);
    app.move_pane(1, 0, Axis::Vertical, true);
    assert_eq!(layout(&app), vec![vec![3, 0], vec![1], vec![2]]);
}

#[test]
fn tearing_panes_out() {
    let mut app = three_tabs();
    app.active = 0;
    app.tear_pane_to_tab(3, 99);
    assert_eq!(layout(&app), vec![vec![0], vec![1], vec![2], vec![3]]);
    assert_eq!(app.active, 3);
    assert_eq!(app.tabs[0].focused, 0);
    // A pane that is alone stays, and so does one of another tab.
    app.tear_pane_to_tab(3, 0);
    app.tear_pane_to_tab(0, 0);
    assert_eq!(app.active, 3);
    assert_eq!(app.tabs.len(), 4);
}

#[test]
fn trees() {
    let mut t = Tree::new(7);
    assert!(!t.close(7) && !t.close(8));
    t.split(7, 8, Axis::Horizontal, false);
    t.split(7, 9, Axis::Vertical, true);
    t.split(99, 10, Axis::Vertical, true);
    assert_eq!(t.panes_in_order(), vec![8, 7, 9]);
    assert_eq!(t.first_pane(), 8);
    assert!(t.contains(9) && !t.contains(10));
    assert_eq!(t.focus_after_close(7), Some(9));
    assert_eq!(t.focus_after_close(8), Some(7));
    assert_eq!(Tree::new(1).focus_after_close(1), None);
    let mut other = Tree::new(20);
    other.split(20, 21, Axis::Vertical, true);
    t.attach_subtree(7, other, Axis::Horizontal, true);
    assert_eq!(t.panes_in_order(), vec![8, 7, 20, 21, 9]);
    assert!(t.close(7));
    assert_eq!(t.panes_in_order(), vec![8, 20, 21, 9]);
    assert_eq!(Ratio::half().bits, 0.5f32.to_bits());
}

#[test]
fn ratios_are_set_by_number() {
    let mut t = Tree::new(0);
    t.split(0, 1, Axis::Horizontal, true);
    t.split(0, 2, Axis::Vertical, true);
    t.split(1, 3, Axis::Vertical, true);
    for k in 0..4 {
        t.set_ratio(k, Ratio { bits: k as u32 });
    }
    let text = format!("{:?}", t);
    // Number zero is the root, then the first side, then the second; there is no fourth.
    let order: Vec<&str> = text
        .match_indices("bits: ")
        .map(|(at, _)| &text[at + 6..at + 7])
        .collect();
    assert_eq!(order, vec!["0", "1", "2"]);
    assert_eq!(t.panes_in_order(), vec![0, 2, 1, 3]);
}

#[test]
fn titles() {
    assert_eq!(shell_basename("/bin/zsh"), "zsh");
    assert_eq!(shell_basename("fish"), "fish");
    assert_eq!(shell_basename("/opt/odd/"), "/opt/odd/");
    assert_eq!(shell_basename(""), "");
    assert_eq!(truncate("short", 5), "short");
    assert_eq!(truncate("longer", 5), "long…");
    assert_eq!(truncate("ab", 1), "…");
    assert_eq!(truncate("ab", 0), "…");
    assert_eq!(truncate("", 0), "");
    assert_eq!(truncate("äöüäöü", 4), "äöü…");
    assert_eq!(tab_label(0, "zsh"), "1  zsh");
    assert_eq!(
        tab_label(9, "abcdefghijklmnopqrstuvwxyz"),
        "10  abcdefghijklmnopqrstuvw…"
    );
}

#[test]
fn what_quitting_says() {
    assert_eq!(quit_detail(1, 1), "The open shell will be terminated");
    assert_eq!(quit_detail(3, 1), "All 3 open shells will be terminated");
    assert_eq!(quit_detail(12, 4), "All 12 open shells across 4 tabs will be terminated");
    assert_eq!(match_counter("", 0, 0), "");
    assert_eq!(match_counter("x", 3, 20), "3 / 20");
}

#[test]
fn pasting_dropped_files() {
    let path = |s: &str| Some(s.to_string());
    let files = vec![path("/a b"), None, path("/it's")];
    assert_eq!(paste_text(&files, false).unwrap(), r"'/a b' '/it'\''s'");
    assert_eq!(
        paste_text(&files, true).unwrap(),
        "\x1b[200~'/a b' '/it'\\''s'\x1b[201~"
    );
    assert_eq!(paste_text(&vec![None], true), None);
    assert_eq!(paste_text(&vec![], false), None);
    assert_eq!(paste_text(&vec![path("")], false).unwrap(), "''");
}

#[test]
fn merging_and_tearing_out_again() {
    let mut app = three_tabs();
    let before = format!("{:?}", app.tabs[0].tree);
    app.merge_tab(1, 3, Axis::Vertical, false);
    assert_eq!(layout(&app), vec![vec![0, 1, 3], vec![2]]);
    app.tear_pane_to_tab(1, 1);
    assert_eq!(layout(&app), vec![vec![0, 3], vec![1], vec![2]]);
    assert_eq!(format!("{:?}", app.tabs[0].tree), before);
}

#[test]
fn a_new_tab_carries_nothing_over() {
    let mut app = Tessera::new("sh");
    app.tabs[0].name = Some("build".to_string());
    app.new_tab(true);
    assert_eq!((app.tab_name(0), app.tab_name(1)), ("build".to_string(), "sh".to_string()));
    assert!(app.tabs[1].color.is_none());
}
