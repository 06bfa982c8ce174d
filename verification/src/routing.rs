//! What shortcuts and the reports of the terminals lead to, as it can be seen.

use vstd::prelude::*;

use crate::app::{after_close_pane, close_pane_ends, State};
use crate::frame::{
    after_close_panes, after_command, after_report, close_panes_ends, command_effect,
    report_actions, reported, PtyActionView, PtyEventView,
};
use crate::laws::{law_close_ends_with_last_tab, shown, tab_wf, wf};
use crate::layout::{leaves, Axis, Dir, PaneId};
use crate::outcomes::{
    is_plain_tab, law_close_no_pane, law_new_tab_opens, law_split_opens, new_border,
    same_besides_tabs, same_tab_besides_panes,
};
use crate::shortcuts::Command;
use crate::tiling::{border, law_leaves_are_panes, within};

verus! {

/// Whether nothing but the focus of the active tab differs, which is on `pane` in `t`.
pub open spec fn focus_went_to(s: State, t: State, pane: PaneId) -> bool {
    let (old, new) = (s.tabs[s.active], t.tabs[s.active]);
    &&& new.focused == pane
    &&& new.root == old.root
    &&& same_tab_besides_panes(old, new)
    &&& t.tabs.len() == s.tabs.len()
    &&& forall|i: int| 0 <= i < s.tabs.len() && i != s.active ==> #[trigger] t.tabs[i] == s.tabs[i]
    &&& t.active == s.active
    &&& t.panes == s.panes
    &&& same_besides_tabs(s, t)
}

/// The command for pane number `i` focuses the pane of the active tab that has `i` panes
/// before it, where there is one; where there is none nothing happens.
pub proof fn law_focus_by_number(s: State, i: usize, started: bool, neighbor: Option<PaneId>)
    requires
        0 <= s.active < s.tabs.len(),
        leaves(s.tabs[s.active].root).no_duplicates(),
    ensures
        ({
            let t = after_command(s, Command::FocusPane(i), started, neighbor);
            let order = leaves(s.tabs[s.active].root);
            let pane = t.tabs[s.active].focused;
            &&& i < order.len() ==> {
                &&& focus_went_to(s, t, pane)
                &&& order.contains(pane)
                &&& forall|j: int| 0 <= j < order.len() && #[trigger] order[j] == pane ==> j == i
            }
            &&& i >= order.len() ==> t == s
        }),
{
    let order = leaves(s.tabs[s.active].root);
    if i < order.len() {
        assert(order.contains(order[i as int]));
    }
}

/// The command for tab number `i` brings that tab to the front and changes nothing else;
/// where there is none nothing happens.
pub proof fn law_select_by_number(s: State, i: usize, started: bool, neighbor: Option<PaneId>)
    ensures
        ({
            let t = after_command(s, Command::SelectTab(i), started, neighbor);
            &&& i < s.tabs.len() ==> t.active == i
            &&& i >= s.tabs.len() ==> t.active == s.active
            &&& t.tabs == s.tabs
            &&& t.panes == s.panes
            &&& same_besides_tabs(s, t)
        }),
{
}

/// The command to split puts a fresh pane to the right of the focused one, or below it, as
/// its axis says, and focuses it.
pub proof fn law_split_command(s: State, axis: Axis, neighbor: Option<PaneId>)
    requires
        wf(s),
        s.tabs.len() > 0,
        0 <= s.next_id <= u64::MAX,
    ensures
        ({
            let t = after_command(s, Command::Split(axis), true, neighbor);
            let id = s.next_id as PaneId;
            let (old, new) = (s.tabs[s.active], t.tabs[s.active]);
            &&& border(new.root, old.focused, id) == new_border(axis, true)
            &&& new.focused == id
            &&& forall|p: PaneId| #[trigger]
                within(new.root, p) <==> within(old.root, p) || p == id
            &&& t.tabs.len() == s.tabs.len()
            &&& t.active == s.active
            &&& t.panes =~= s.panes.insert(id, s.default_title)
        }),
{
    let t = after_command(s, Command::Split(axis), true, neighbor);
    let id = s.next_id as PaneId;
    let (old, new) = (s.tabs[s.active], t.tabs[s.active]);
    law_split_opens(s, axis, id, id);
    assert forall|p: PaneId| #[trigger] within(new.root, p) <==> within(old.root, p) || p
        == id by {
        law_split_opens(s, axis, p, p);
    }
}

/// The command for a new tab opens one behind the others, in front.
pub proof fn law_new_tab_command(s: State, neighbor: Option<PaneId>)
    requires
        0 <= s.next_id <= u64::MAX,
    ensures
        ({
            let t = after_command(s, Command::NewTab, true, neighbor);
            &&& t.tabs.len() == s.tabs.len() + 1
            &&& is_plain_tab(t.tabs.last(), s.next_id as PaneId)
            &&& t.active == s.tabs.len()
            &&& forall|i: int| 0 <= i < s.tabs.len() ==> #[trigger] t.tabs[i] == s.tabs[i]
        }),
{
    law_new_tab_opens(s);
}

/// The command to close takes the focused pane of the active tab away, and no other. Its
/// terminal is the one to be dropped, and the window ends where no tab is left.
pub proof fn law_close_command(s: State, started: bool, neighbor: Option<PaneId>, p: PaneId)
    requires
        wf(s),
        s.tabs.len() > 0,
    ensures
        ({
            let t = after_command(s, Command::ClosePane, started, neighbor);
            let pane = s.tabs[s.active].focused;
            let e = command_effect(s, Command::ClosePane);
            &&& t.panes.contains_key(p) <==> s.panes.contains_key(p) && p != pane
            &&& t.panes.contains_key(p) ==> t.panes[p] == s.panes[p]
            &&& shown(t.tabs, p) <==> shown(s.tabs, p) && p != pane
            &&& e.dropped == Some(pane)
            &&& e.cleared is None
            &&& e.close_window <==> t.tabs.len() == 0
        }),
{
    let tab = s.tabs[s.active];
    assert(tab_wf(tab));
    assert(shown(s.tabs, tab.focused));
    law_leaves_are_panes(tab.root, tab.focused);
    law_close_ends_with_last_tab(s, tab.focused, s.active);
    crate::laws::law_close_pane_wf(s, tab.focused);
    let t = after_command(s, Command::ClosePane, started, neighbor);
    crate::laws::law_close_pane_takes_one(s, tab.focused);
    assert(shown(t.tabs, p) <==> t.panes.contains_key(p));
    assert(shown(s.tabs, p) <==> s.panes.contains_key(p));
}

/// The command to search opens a search for nothing yet in the focused pane, with the
/// keyboard; it changes nothing else.
pub proof fn law_find_command(s: State, started: bool, neighbor: Option<PaneId>)
    ensures
        ({
            let t = after_command(s, Command::Find, started, neighbor);
            &&& t.search is Some
            &&& t.search->0.pane == s.tabs[s.active].focused
            &&& t.search->0.query.len() == 0
            &&& !t.search->0.terminal_focused
            &&& t.search->0.matches == (0usize, 0usize)
            &&& t == (State { search: t.search, ..s })
        }),
{
}

/// The command to clear is about the terminal of the focused pane, and the state stays.
pub proof fn law_clear_command(s: State, started: bool, neighbor: Option<PaneId>)
    requires
        wf(s),
        s.tabs.len() > 0,
    ensures
        after_command(s, Command::Clear, started, neighbor) == s,
        command_effect(s, Command::Clear).cleared == Some(s.tabs[s.active].focused),
        command_effect(s, Command::Clear).dropped is None,
        !command_effect(s, Command::Clear).close_window,
{
    let tab = s.tabs[s.active];
    assert(tab_wf(tab));
    assert(shown(s.tabs, tab.focused));
}

/// The command to move focuses the neighbour, where there is one, and changes nothing else.
pub proof fn law_move_command(s: State, dir: Dir, started: bool, neighbor: Option<PaneId>)
    requires
        0 <= s.active < s.tabs.len(),
    ensures
        ({
            let t = after_command(s, Command::Move(dir), started, neighbor);
            &&& neighbor is Some ==> focus_went_to(s, t, neighbor->0)
            &&& neighbor is None ==> t == s
        }),
{
}

/// Only the commands to close and to clear ask anything of a terminal.
pub proof fn law_quiet_commands(s: State, command: Command)
    requires
        !(command is ClosePane) && !(command is Clear),
    ensures
        command_effect(s, command).dropped is None,
        command_effect(s, command).cleared is None,
        !command_effect(s, command).close_window,
{
}

/// A title that a pane reports becomes its own, and asking for the default gives it that.
/// No other pane's changes, nor anything else; and a report of what is no pane changes
/// nothing.
pub proof fn law_report_titles(s: State, id: PaneId, e: PtyEventView, p: PaneId)
    ensures
        ({
            let t = after_report(s, id, e);
            &&& t == (State { panes: t.panes, ..s })
            &&& t.panes.dom() =~= s.panes.dom()
            &&& p != id ==> t.panes[p] == s.panes[p]
            &&& s.panes.contains_key(id) ==> t.panes[id] == match e {
                PtyEventView::Title(title) => title,
                PtyEventView::ResetTitle => s.default_title,
                _ => s.panes[id],
            }
            &&& !s.panes.contains_key(id) ==> t == s
        }),
{
}

/// A terminal that reports anything gets a waiting clear finished, last; one that asks for
/// text gets that text first. Nothing is done to any other, nor to what is no pane.
pub proof fn law_report_actions(s: State, id: PaneId, e: PtyEventView)
    ensures
        ({
            let done = report_actions(s, id, e);
            &&& !s.panes.contains_key(id) ==> done.len() == 0
            &&& s.panes.contains_key(id) ==> done.len() > 0 && done.last()
                == PtyActionView::FinishClear(id)
            &&& s.panes.contains_key(id) && e is PtyWrite ==> done.len() == 2 && done[0]
                == PtyActionView::Write(id, e->PtyWrite_0)
            &&& s.panes.contains_key(id) && !(e is PtyWrite) ==> done.len() == 1
        }),
{
}

/// Reports are taken in one after the other: those of two batches come to the same as those
/// of both.
pub proof fn law_reports_in_order(
    s: State,
    a: Seq<(PaneId, PtyEventView)>,
    b: Seq<(PaneId, PtyEventView)>,
)
    ensures
        ({
            let (x, all) = (reported(s, a), reported(s, a + b));
            let y = reported(x.state, b);
            &&& all.state == y.state
            &&& all.actions =~= x.actions + y.actions
            &&& all.ended =~= x.ended + y.ended
        }),
    decreases b.len(),
{
    if b.len() == 0 {
        assert(a + b =~= a);
    } else {
        law_reports_in_order(s, a, b.drop_last());
        assert((a + b).drop_last() =~= a + b.drop_last());
        assert((a + b).last() == b.last());
    }
}

/// One report: its title, its actions, and whether its shell ended, which is where it says
/// so in either way.
pub proof fn law_one_report(s: State, id: PaneId, e: PtyEventView)
    ensures
        ({
            let r = reported(s, seq![(id, e)]);
            &&& r.state == after_report(s, id, e)
            &&& r.actions =~= report_actions(s, id, e)
            &&& r.ended =~= if e is Exit || e is ChildExit {
                seq![id]
            } else {
                Seq::empty()
            }
        }),
{
    let one = seq![(id, e)];
    assert(one.drop_last() =~= Seq::<(PaneId, PtyEventView)>::empty());
    reveal_with_fuel(reported, 2);
}

/// Closing panes one after the other takes away those and no others.
pub proof fn law_closed_panes(s: State, gone: Seq<PaneId>, p: PaneId)
    ensures
        after_close_panes(s, gone).panes.contains_key(p) <==> s.panes.contains_key(p)
            && !gone.contains(p),
        after_close_panes(s, gone).panes.contains_key(p) ==> after_close_panes(s, gone).panes[p]
            == s.panes[p],
    decreases gone.len(),
{
    if gone.len() > 0 {
        let init = gone.drop_last();
        law_closed_panes(s, init, p);
        crate::laws::law_close_pane_takes_one(after_close_panes(s, init), gone.last());
        assert(gone =~= init.push(gone.last()));
        if init.contains(p) {
            let i = choose|i: int| 0 <= i < init.len() && init[i] == p;
            assert(gone[i] == p);
        }
        if gone.contains(p) && p != gone.last() {
            let i = choose|i: int| 0 <= i < gone.len() && gone[i] == p;
            assert(init[i] == p);
        }
        if p == gone.last() {
            assert(gone[gone.len() - 1] == p);
        }
    }
}

/// A terminal that does not come up uses up an id, and the state stays otherwise.
pub proof fn law_failed_start_command(s: State, axis: Axis, neighbor: Option<PaneId>)
    ensures
        after_command(s, Command::NewTab, false, neighbor) == (State {
            next_id: s.next_id + 1,
            ..s
        }),
        after_command(s, Command::Split(axis), false, neighbor) == (State {
            next_id: s.next_id + 1,
            ..s
        }),
{
}

/// Closing panes one after the other is closing one lot and then the next, and a lot of one is
/// that pane.
pub proof fn law_close_panes_in_order(s: State, a: Seq<PaneId>, b: Seq<PaneId>, p: PaneId)
    ensures
        after_close_panes(s, a + b) == after_close_panes(after_close_panes(s, a), b),
        close_panes_ends(s, a + b) <==> close_panes_ends(s, a) || close_panes_ends(
            after_close_panes(s, a),
            b,
        ),
        after_close_panes(s, seq![p]) == after_close_pane(s, p),
        close_panes_ends(s, seq![p]) == close_pane_ends(s, p),
    decreases b.len(),
{
    if b.len() == 0 {
        assert(a + b =~= a);
    } else {
        law_close_panes_in_order(s, a, b.drop_last(), p);
        assert((a + b).drop_last() =~= a + b.drop_last());
        assert((a + b).last() == b.last());
    }
    assert(seq![p].drop_last() =~= Seq::<PaneId>::empty());
    reveal_with_fuel(after_close_panes, 2);
    reveal_with_fuel(close_panes_ends, 2);
}

/// Closing panes one after the other ends the window where no tab is left in the end.
pub proof fn law_window_ends_with_last_tab(s: State, panes: Seq<PaneId>)
    requires
        wf(s),
        s.tabs.len() > 0,
    ensures
        close_panes_ends(s, panes) <==> after_close_panes(s, panes).tabs.len() == 0,
    decreases panes.len(),
{
    if panes.len() > 0 {
        let init = panes.drop_last();
        law_window_ends_with_last_tab(s, init);
        crate::laws::law_close_panes_wf(s, init);
        let t = after_close_panes(s, init);
        if t.tabs.len() > 0 {
            law_close_ends_with_last_tab(t, panes.last(), 0);
        } else {
            assert(!shown(t.tabs, panes.last()));
            law_close_no_pane(t, panes.last());
        }
    }
}

} // verus!
