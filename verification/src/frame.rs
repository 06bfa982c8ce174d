//! What happens to the state in a frame: what the terminals report, what the
//! shortcuts, the tab strip, the dialogs and the panes ask for.

use vstd::prelude::*;

use crate::app::{
    after_close_pane, after_new_tab, after_split, close_pane_ends, Search, SearchView, State,
    TabView, Tessera,
};
use crate::layout::{leaves, PaneId};
use crate::shortcuts::Command;

verus! {

broadcast use vstd::std_specs::hash::group_hash_axioms;

/// What a terminal reports.
#[derive(Debug)]
pub enum PtyEvent {
    Title(String),
    ResetTitle,
    /// Text to write back to it.
    PtyWrite(String),
    Exit,
    ChildExit,
    /// Anything else, output among it.
    Other,
}

/// What a `PtyEvent` holds.
pub enum PtyEventView {
    Title(Seq<char>),
    ResetTitle,
    PtyWrite(Seq<char>),
    Exit,
    ChildExit,
    Other,
}

impl View for PtyEvent {
    type V = PtyEventView;

    open spec fn view(&self) -> PtyEventView {
        match *self {
            PtyEvent::Title(t) => PtyEventView::Title(t@),
            PtyEvent::ResetTitle => PtyEventView::ResetTitle,
            PtyEvent::PtyWrite(t) => PtyEventView::PtyWrite(t@),
            PtyEvent::Exit => PtyEventView::Exit,
            PtyEvent::ChildExit => PtyEventView::ChildExit,
            PtyEvent::Other => PtyEventView::Other,
        }
    }
}

/// Something to do to a terminal.
#[derive(Debug)]
pub enum PtyAction {
    /// Write text to it.
    Write(PaneId, String),
    /// Finish a clear that waits for the shell to redraw.
    FinishClear(PaneId),
}

/// What a `PtyAction` holds.
pub enum PtyActionView {
    Write(PaneId, Seq<char>),
    FinishClear(PaneId),
}

impl View for PtyAction {
    type V = PtyActionView;

    open spec fn view(&self) -> PtyActionView {
        match *self {
            PtyAction::Write(id, t) => PtyActionView::Write(id, t@),
            PtyAction::FinishClear(id) => PtyActionView::FinishClear(id),
        }
    }
}

/// The state once pane `id` has reported `e`: a title is taken over where there is
/// such a pane.
pub open spec fn after_report(s: State, id: PaneId, e: PtyEventView) -> State {
    if !s.panes.contains_key(id) {
        s
    } else {
        match e {
            PtyEventView::Title(t) => State { panes: s.panes.insert(id, t), ..s },
            PtyEventView::ResetTitle => State { panes: s.panes.insert(id, s.default_title), ..s },
            _ => s,
        }
    }
}

/// What to do to the terminals once pane `id` has reported `e`. A terminal that
/// reports anything has redrawn, so a clear that waits for it is finished.
pub open spec fn report_actions(s: State, id: PaneId, e: PtyEventView) -> Seq<PtyActionView> {
    if !s.panes.contains_key(id) {
        Seq::empty()
    } else {
        match e {
            PtyEventView::PtyWrite(t) => seq![
                PtyActionView::Write(id, t),
                PtyActionView::FinishClear(id),
            ],
            _ => seq![PtyActionView::FinishClear(id)],
        }
    }
}

/// What comes of reports.
#[verifier::ext_equal]
pub struct Reported {
    pub state: State,
    pub actions: Seq<PtyActionView>,
    /// The panes whose shells ended.
    pub ended: Seq<PaneId>,
}

/// What comes of reports, in order.
pub open spec fn reported(s: State, events: Seq<(PaneId, PtyEventView)>) -> Reported
    decreases events.len(),
{
    if events.len() == 0 {
        Reported { state: s, actions: Seq::empty(), ended: Seq::empty() }
    } else {
        let r = reported(s, events.drop_last());
        let (id, e) = events.last();
        Reported {
            state: after_report(r.state, id, e),
            actions: r.actions + report_actions(r.state, id, e),
            ended: if e is Exit || e is ChildExit {
                r.ended.push(id)
            } else {
                r.ended
            },
        }
    }
}

/// The state once panes were closed one after the other.
pub open spec fn after_close_panes(s: State, panes: Seq<PaneId>) -> State
    decreases panes.len(),
{
    if panes.len() == 0 {
        s
    } else {
        after_close_pane(after_close_panes(s, panes.drop_last()), panes.last())
    }
}

/// Whether closing panes one after the other closes the window.
pub open spec fn close_panes_ends(s: State, panes: Seq<PaneId>) -> bool
    decreases panes.len(),
{
    if panes.len() == 0 {
        false
    } else {
        close_panes_ends(s, panes.drop_last()) || close_pane_ends(
            after_close_panes(s, panes.drop_last()),
            panes.last(),
        )
    }
}

/// The views of reports, each with its pane.
pub open spec fn report_views(events: Seq<(PaneId, PtyEvent)>) -> Seq<(PaneId, PtyEventView)> {
    events.map_values(|e: (PaneId, PtyEvent)| (e.0, e.1@))
}

/// The views of `actions`, in order.
pub open spec fn action_views(actions: Seq<PtyAction>) -> Seq<PtyActionView> {
    actions.map_values(|a: PtyAction| a@)
}

/// What is to be done once the reports of the terminals are taken in.
#[derive(Debug)]
pub struct Drained {
    /// What to do to the terminals, in order.
    pub actions: Vec<PtyAction>,
    /// The panes whose shells ended: their terminals are to be dropped then. One may
    /// be named twice, or be gone already.
    pub ended: Vec<PaneId>,
    /// Whether the window is to be closed.
    pub close_window: bool,
}

/// The state in which pane `pane` of the active tab is focused.
pub open spec fn with_focus(s: State, pane: PaneId) -> State {
    State {
        tabs: s.tabs.update(s.active, TabView { focused: pane, ..s.tabs[s.active] }),
        ..s
    }
}

/// A search that has just been opened.
pub open spec fn fresh_search(pane: PaneId) -> SearchView {
    SearchView { pane, query: Seq::empty(), terminal_focused: false, matches: (0, 0) }
}

/// The state once a shortcut was carried out. `started` says whether a terminal that
/// was to be started came up, `neighbor` which pane lies in the direction to move in.
pub open spec fn after_command(
    s: State,
    command: Command,
    started: bool,
    neighbor: Option<PaneId>,
) -> State {
    let tab = s.tabs[s.active];
    match command {
        Command::NewTab => after_new_tab(s, started),
        Command::SelectTab(i) => if i < s.tabs.len() {
            State { active: i as int, ..s }
        } else {
            s
        },
        Command::FocusPane(i) => if i < leaves(tab.root).len() {
            with_focus(s, leaves(tab.root)[i as int])
        } else {
            s
        },
        Command::Split(axis) => after_split(s, axis, started),
        Command::ClosePane => after_close_pane(s, tab.focused),
        Command::Clear => s,
        Command::Find => State { search: Some(fresh_search(tab.focused)), ..s },
        Command::Move(_) => match neighbor {
            Some(p) => with_focus(s, p),
            None => s,
        },
    }
}

/// Whether a command can be carried out: one on the active tab needs one, and a new
/// pane needs an id.
pub open spec fn command_fits(s: State, command: Command) -> bool {
    match command {
        Command::NewTab => s.next_id < u64::MAX,
        Command::SelectTab(_) => true,
        Command::Split(_) => s.next_id < u64::MAX && s.active < s.tabs.len(),
        _ => s.active < s.tabs.len(),
    }
}

/// What is to be done to the terminals once a shortcut was carried out.
#[derive(Clone, Copy, Debug, PartialEq, Eq, Structural)]
pub struct Effect {
    /// The pane whose terminal is to be dropped.
    pub dropped: Option<PaneId>,
    /// The pane whose terminal is to be cleared.
    pub cleared: Option<PaneId>,
    /// Whether the window is to be closed.
    pub close_window: bool,
}

/// `pane`, where it is one of the panes.
pub open spec fn if_pane(s: State, pane: PaneId) -> Option<PaneId> {
    if s.panes.contains_key(pane) {
        Some(pane)
    } else {
        None
    }
}

/// What is to be done to the terminals once a shortcut was carried out.
pub open spec fn command_effect(s: State, command: Command) -> Effect {
    let focused = s.tabs[s.active].focused;
    match command {
        Command::ClosePane => Effect {
            dropped: if_pane(s, focused),
            cleared: None,
            close_window: close_pane_ends(s, focused),
        },
        Command::Clear => Effect {
            dropped: None,
            cleared: if_pane(s, focused),
            close_window: false,
        },
        _ => Effect { dropped: None, cleared: None, close_window: false },
    }
}

/// Whether a command starts a terminal, for the pane `next_id`.
pub fn starts_terminal(command: Command) -> (r: bool)
    ensures
        r == (command is NewTab || command is Split),
{
    match command {
        Command::NewTab | Command::Split(_) => true,
        _ => false,
    }
}

impl Tessera {
    fn take_report(&mut self, id: PaneId, event: &PtyEvent, actions: &mut Vec<PtyAction>)
        ensures
            final(self)@ == after_report(old(self)@, id, event@),
            action_views(final(actions)@) == action_views(old(actions)@) + report_actions(
                old(self)@,
                id,
                event@,
            ),
    {
        if !self.panes.contains_key(&id) {
            assert(action_views(actions@) + Seq::<PtyActionView>::empty() =~= action_views(
                actions@,
            ));
            return;
        }
        let ghost before = action_views(actions@);
        match event {
            PtyEvent::Title(t) => {
                self.panes.insert(id, t.clone());
                assert(self@ =~= after_report(old(self)@, id, event@));
            },
            PtyEvent::ResetTitle => {
                self.panes.insert(id, self.default_title.clone());
                assert(self@ =~= after_report(old(self)@, id, event@));
            },
            PtyEvent::PtyWrite(t) => {
                actions.push(PtyAction::Write(id, t.clone()));
                assert(action_views(actions@) =~= before.push(PtyActionView::Write(id, t@)));
            },
            _ => {},
        }
        let ghost between = action_views(actions@);
        actions.push(PtyAction::FinishClear(id));
        assert(action_views(actions@) =~= between.push(PtyActionView::FinishClear(id)));
        assert(action_views(actions@) =~= before + report_actions(old(self)@, id, event@));
    }

    /// Takes in what the terminals have reported, and closes the panes whose shells
    /// ended.
    pub fn drain_pty_events(&mut self, events: &Vec<(PaneId, PtyEvent)>) -> (r: Drained)
        ensures
            ({
                let all = reported(old(self)@, report_views(events@));
                &&& final(self)@ == after_close_panes(all.state, all.ended)
                &&& action_views(r.actions@) == all.actions
                &&& r.ended@ == all.ended
                &&& r.close_window == close_panes_ends(all.state, all.ended)
            }),
    {
        let mut actions: Vec<PtyAction> = Vec::new();
        let mut ended: Vec<PaneId> = Vec::new();
        let mut i: usize = 0;
        assert(action_views(actions@) =~= Seq::empty());
        while i < events.len()
            invariant
                i <= events@.len(),
                (Reported { state: self@, actions: action_views(actions@), ended: ended@ })
                    == reported(old(self)@, report_views(events@).take(i as int)),
            decreases events@.len() - i,
        {
            let ghost upto = report_views(events@).take(i + 1);
            assert(upto.drop_last() =~= report_views(events@).take(i as int));
            assert(upto.last() == (events@[i as int].0, events@[i as int].1@));
            let id = events[i].0;
            self.take_report(id, &events[i].1, &mut actions);
            match &events[i].1 {
                PtyEvent::Exit | PtyEvent::ChildExit => {
                    ended.push(id);
                },
                _ => {},
            }
            i += 1;
        }
        assert(report_views(events@).take(i as int) =~= report_views(events@));
        let ghost all = reported(old(self)@, report_views(events@));
        let mut close_window = false;
        let mut i: usize = 0;
        while i < ended.len()
            invariant
                i <= ended@.len(),
                self@ == after_close_panes(all.state, ended@.take(i as int)),
                close_window == close_panes_ends(all.state, ended@.take(i as int)),
            decreases ended@.len() - i,
        {
            assert(ended@.take(i + 1).drop_last() =~= ended@.take(i as int));
            if self.close_pane(ended[i]) {
                close_window = true;
            }
            i += 1;
        }
        assert(ended@.take(i as int) =~= ended@);
        Drained { actions, ended, close_window }
    }

    /// Carries out a shortcut. `started` says whether the terminal that the command
    /// starts came up, `neighbor` which pane lies in the direction that it moves in.
    pub fn run_command(&mut self, command: Command, started: bool, neighbor: Option<PaneId>) -> (r:
        Effect)
        requires
            command_fits(old(self)@, command),
        ensures
            final(self)@ == after_command(old(self)@, command, started, neighbor),
            r == command_effect(old(self)@, command),
    {
        let mut effect = Effect { dropped: None, cleared: None, close_window: false };
        match command {
            Command::NewTab => self.new_tab(started),
            Command::SelectTab(i) => {
                if i < self.tabs.len() {
                    self.active = i;
                }
            },
            Command::FocusPane(i) => {
                let order = self.tabs[self.active].tree.panes_in_order();
                if i < order.len() {
                    self.focus(order[i]);
                }
            },
            Command::Split(axis) => self.split(axis, started),
            Command::ClosePane => {
                let pane = self.tabs[self.active].focused;
                if self.panes.contains_key(&pane) {
                    effect.dropped = Some(pane);
                }
                effect.close_window = self.close_pane(pane);
            },
            Command::Clear => {
                let pane = self.tabs[self.active].focused;
                if self.panes.contains_key(&pane) {
                    effect.cleared = Some(pane);
                }
            },
            Command::Find => {
                let pane = self.tabs[self.active].focused;
                self.search = Some(
                    Search {
                        pane,
                        query: String::new(),
                        terminal_focused: false,
                        matches: (0, 0),
                    },
                );
                assert(self@.search->0.query =~= Seq::empty());
            },
            Command::Move(_) => {
                if let Some(p) = neighbor {
                    self.focus(p);
                }
            },
        }
        effect
    }

    fn focus(&mut self, pane: PaneId)
        requires
            old(self).active < old(self).tabs@.len(),
        ensures
            final(self)@ == with_focus(old(self)@, pane),
    {
        let active = self.active;
        self.tabs[active].focused = pane;
        assert(self@ =~= with_focus(old(self)@, pane));
    }
}

/// What is done to a terminal is done where there is such a pane, and only there.
pub proof fn law_if_pane(s: State, pane: PaneId)
    ensures
        s.panes.contains_key(pane) ==> if_pane(s, pane) == Some(pane),
        !s.panes.contains_key(pane) ==> if_pane(s, pane) is None,
{
}

} // verus!
