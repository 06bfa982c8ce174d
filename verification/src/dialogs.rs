//! The dialogs over the window: renaming a tab, confirming to quit, and searching
//! the scrollback.

use vstd::prelude::*;

use crate::app::{State, SearchView, TabView, Tessera};
use crate::color::{accent, Color32};
use crate::config::{some_unless_empty, unless_empty};
use crate::layout::{holds, PaneId};
use crate::text::{to_chars, to_text, trim, trimmed};

verus! {

broadcast use vstd::std_specs::hash::group_hash_axioms;

/// What a dialog with a confirming and a cancelling button decides: being dismissed
/// counts most, then the Enter key, then the cancelling button.
pub open spec fn choice_of(
    confirm: bool,
    cancel: bool,
    enter: bool,
    dismissed: bool,
) -> Option<bool> {
    if dismissed {
        Some(false)
    } else if enter {
        Some(true)
    } else if cancel {
        Some(false)
    } else if confirm {
        Some(true)
    } else {
        None
    }
}

/// What a dialog decides: `Some(true)` to go ahead, `Some(false)` not to, `None`
/// while it is undecided. `confirm` and `cancel` say whether the buttons were
/// clicked, `enter` whether the Enter key was pressed, `dismissed` whether Escape or
/// a click on the backdrop closes it.
pub fn dialog_choice(confirm: bool, cancel: bool, enter: bool, dismissed: bool) -> (r: Option<bool>)
    ensures
        r == choice_of(confirm, cancel, enter, dismissed),
{
    let mut action: Option<bool> = None;
    if confirm {
        action = Some(true);
    }
    if cancel {
        action = Some(false);
    }
    if enter {
        action = Some(true);
    }
    if dismissed {
        Some(false)
    } else {
        action
    }
}

/// The accent of a tab: its colour, or the default where it has none.
pub open spec fn accent_of(color: Option<Color32>) -> Color32 {
    match color {
        Some(c) => c,
        None => accent(),
    }
}

/// The accent of tab `i`, or the default where there is no such tab.
pub open spec fn tab_accent(tabs: Seq<TabView>, i: int) -> Color32 {
    if 0 <= i < tabs.len() {
        accent_of(tabs[i].color)
    } else {
        accent()
    }
}

/// The accent of the tab that is being renamed, or the default.
pub open spec fn rename_accent_of(s: State) -> Color32 {
    match s.editing {
        Some(e) => tab_accent(s.tabs, e.idx as int),
        None => accent(),
    }
}

/// The state once the rename dialog was decided: what was typed, trimmed, becomes the
/// tab's name, and nothing typed restores the default.
pub open spec fn after_rename(s: State, choice: Option<bool>) -> State {
    match (s.editing, choice) {
        (Some(e), Some(confirm)) => State {
            tabs: if confirm && e.idx < s.tabs.len() {
                s.tabs.update(
                    e.idx as int,
                    TabView {
                        name: unless_empty(trimmed(e.buf)),
                        ..s.tabs[e.idx as int]
                    },
                )
            } else {
                s.tabs
            },
            editing: None,
            ..s
        },
        _ => s,
    }
}

/// Whether a request to close the window is held back: it is, unless the user has
/// confirmed, or all shells are gone.
pub open spec fn close_held(s: State) -> bool {
    !s.quit_confirmed && s.tabs.len() > 0
}

/// The state once the window was asked to close.
pub open spec fn after_close_request(s: State) -> State {
    if close_held(s) {
        State { confirm_quit: true, ..s }
    } else {
        s
    }
}

/// The state once the quit dialog was decided. A dialog that is not up decides
/// nothing.
pub open spec fn after_quit(s: State, choice: Option<bool>) -> State {
    match (s.confirm_quit, choice) {
        (true, Some(true)) => State { quit_confirmed: true, ..s },
        (true, Some(false)) => State { confirm_quit: false, ..s },
        _ => s,
    }
}

/// Whether the search bar can stay: its pane is there, and in the active tab.
pub open spec fn search_stays(s: State) -> bool {
    s.search matches Some(f) && s.panes.contains_key(f.pane) && holds(
        s.tabs[s.active].root,
        f.pane,
    )
}

/// What the search bar does in a frame.
#[derive(Clone, Copy, Debug, PartialEq, Eq, Structural)]
pub enum SearchBar {
    /// There is none.
    Hidden,
    /// It went with its pane, or with the pane's tab. The highlights of that pane
    /// are to be cleared, where there still is one.
    Gone(Option<PaneId>),
    /// It is shown.
    Shown,
}

/// What the search bar does in a frame.
pub open spec fn search_bar_of(s: State) -> SearchBar {
    match s.search {
        None => SearchBar::Hidden,
        Some(f) => if search_stays(s) {
            SearchBar::Shown
        } else if s.panes.contains_key(f.pane) {
            SearchBar::Gone(Some(f.pane))
        } else {
            SearchBar::Gone(None)
        },
    }
}

/// What the user does to the search bar in a frame.
#[derive(Clone, Copy, Debug, PartialEq, Eq, Structural)]
pub struct SearchInput {
    /// Whether the field got the keyboard.
    pub gained_focus: bool,
    /// Whether the query was edited.
    pub changed: bool,
    pub enter: bool,
    pub shift: bool,
    pub escape: bool,
    /// Whether the buttons were clicked.
    pub older: bool,
    pub newer: bool,
    pub close: bool,
}

/// Whether the terminal has the keyboard once `input` is taken in.
pub open spec fn on_terminal(f: SearchView, input: SearchInput) -> bool {
    f.terminal_focused && !input.gained_focus
}

/// Whether the search bar closes: by its button, or by Escape while the field has
/// the keyboard. With the terminal focused Escape belongs to the shell.
pub open spec fn search_closes(f: SearchView, input: SearchInput) -> bool {
    input.close || (input.escape && !on_terminal(f, input))
}

/// The search to run, as whether it goes to newer matches and whether it starts
/// anew: a button counts most, then Enter, which steps to an older match or with
/// shift to a newer one while the field has the keyboard, then a new query.
pub open spec fn search_run(f: SearchView, input: SearchInput) -> Option<(bool, bool)> {
    if input.newer {
        Some((true, false))
    } else if input.older {
        Some((false, false))
    } else if input.enter && !on_terminal(f, input) {
        Some((input.shift, false))
    } else if input.changed {
        Some((false, true))
    } else {
        None
    }
}

/// What comes of a frame of the search bar.
#[derive(Debug)]
pub enum SearchStep {
    Stay,
    /// The bar is closed; the highlights of this pane are to be cleared.
    Close(PaneId),
    /// The pane is to be searched; the counts go to `set_matches`.
    Run { pane: PaneId, query: String, forward: bool, reset: bool },
}

/// What a `SearchStep` holds.
pub enum SearchStepView {
    Stay,
    Close(PaneId),
    Run { pane: PaneId, query: Seq<char>, forward: bool, reset: bool },
}

impl View for SearchStep {
    type V = SearchStepView;

    open spec fn view(&self) -> SearchStepView {
        match *self {
            SearchStep::Stay => SearchStepView::Stay,
            SearchStep::Close(pane) => SearchStepView::Close(pane),
            SearchStep::Run { pane, query, forward, reset } => SearchStepView::Run {
                pane,
                query: query@,
                forward,
                reset,
            },
        }
    }
}

/// What comes of a frame of the search bar.
pub open spec fn search_step_of(s: State, input: SearchInput) -> SearchStepView {
    match s.search {
        None => SearchStepView::Stay,
        Some(f) => if search_closes(f, input) {
            SearchStepView::Close(f.pane)
        } else {
            match search_run(f, input) {
                Some((forward, reset)) => SearchStepView::Run {
                    pane: f.pane,
                    query: f.query,
                    forward,
                    reset,
                },
                None => SearchStepView::Stay,
            }
        },
    }
}

/// The state after a frame of the search bar.
pub open spec fn after_search_step(s: State, input: SearchInput) -> State {
    match s.search {
        None => s,
        Some(f) => State {
            search: if search_closes(f, input) {
                None
            } else {
                Some(SearchView { terminal_focused: on_terminal(f, input), ..f })
            },
            ..s
        },
    }
}

/// Whether the query is there and matches nothing.
pub open spec fn no_matches(f: SearchView) -> bool {
    f.matches.1 == 0 && f.query.len() > 0
}

impl Tessera {
    /// The accent of the active tab, or the default where it has no colour.
    pub fn active_accent(&self) -> (r: Color32)
        ensures
            r == tab_accent(self@.tabs, self@.active),
    {
        self.accent_at(self.active)
    }

    fn accent_at(&self, i: usize) -> (r: Color32)
        ensures
            r == tab_accent(self@.tabs, i as int),
    {
        if i < self.tabs.len() {
            if let Some(c) = self.tabs[i].color {
                return c;
            }
        }
        Color32::from_rgb(102, 161, 255)
    }

    /// The accent of the tab that is being renamed, or the default.
    pub fn rename_accent(&self) -> (r: Color32)
        ensures
            r == rename_accent_of(self@),
    {
        match &self.editing {
            Some(e) => self.accent_at(e.idx),
            None => Color32::from_rgb(102, 161, 255),
        }
    }

    /// Whether the rename field is to be given the keyboard, which happens once.
    pub fn rename_takes_focus(&mut self) -> (r: bool)
        ensures
            r == (old(self)@.editing is Some && !old(self)@.editing->0.focused),
            final(self)@ == (State {
                editing: match old(self)@.editing {
                    Some(e) => Some(crate::app::EditingView { focused: true, ..e }),
                    None => None,
                },
                ..old(self)@
            }),
    {
        match &mut self.editing {
            Some(e) => {
                let first = !e.focused;
                e.focused = true;
                first
            },
            None => false,
        }
    }

    /// Carries out what the rename dialog decided: `Some(true)` names the tab by what
    /// was typed, trimmed, or by the default where that is nothing; `Some(false)`
    /// leaves it. Either way the dialog is closed.
    pub fn finish_rename(&mut self, choice: Option<bool>)
        ensures
            final(self)@ == after_rename(old(self)@, choice),
    {
        let confirm = match choice {
            Some(confirm) => confirm,
            None => {
                return;
            },
        };
        let (idx, name) = match &self.editing {
            Some(e) => {
                let chars = to_chars(e.buf.as_str());
                let name = to_text(trim(chars.as_slice()));
                (e.idx, some_unless_empty(name.as_str()))
            },
            None => {
                return;
            },
        };
        if confirm && idx < self.tabs.len() {
            self.tabs[idx].name = name;
        }
        self.editing = None;
        assert(self@ =~= after_rename(old(self)@, choice));
    }

    /// Answers a request to close the window: whether it is to be held back. The quit
    /// dialog goes up then. The request passes once the dialog was confirmed, or
    /// when no tab is left and so no shell to protect.
    pub fn hold_close(&mut self) -> (held: bool)
        ensures
            held == close_held(old(self)@),
            final(self)@ == after_close_request(old(self)@),
    {
        if !self.quit_confirmed && self.tabs.len() > 0 {
            self.confirm_quit = true;
            true
        } else {
            false
        }
    }

    /// Carries out what the quit dialog decided: whether the window is to be closed
    /// now. Where it was confirmed the dialog stays up for the frames that remain,
    /// and the close request that follows passes; where it was cancelled it is gone.
    pub fn finish_quit(&mut self, choice: Option<bool>) -> (close_window: bool)
        ensures
            final(self)@ == after_quit(old(self)@, choice),
            close_window == (old(self)@.confirm_quit && choice == Some(true)),
    {
        if !self.confirm_quit {
            return false;
        }
        match choice {
            Some(true) => {
                self.quit_confirmed = true;
                true
            },
            Some(false) => {
                self.confirm_quit = false;
                false
            },
            None => false,
        }
    }

    /// Looks after the search bar at the start of a frame: it goes where its pane is
    /// gone, or is not in the active tab.
    pub fn check_search(&mut self) -> (r: SearchBar)
        requires
            old(self).search is Some && old(self).panes@.contains_key(
                old(self).search->0.pane,
            ) ==> old(self).active < old(self).tabs@.len(),
        ensures
            r == search_bar_of(old(self)@),
            final(self)@ == (if r is Gone {
                State { search: None, ..old(self)@ }
            } else {
                old(self)@
            }),
    {
        let pane = match &self.search {
            Some(f) => f.pane,
            None => {
                return SearchBar::Hidden;
            },
        };
        if !self.panes.contains_key(&pane) {
            self.search = None;
            return SearchBar::Gone(None);
        }
        if !self.tabs[self.active].tree.contains(pane) {
            self.search = None;
            return SearchBar::Gone(Some(pane));
        }
        SearchBar::Shown
    }

    /// Takes in what the user did to the search bar.
    pub fn search_input(&mut self, input: SearchInput) -> (r: SearchStep)
        ensures
            r@ == search_step_of(old(self)@, input),
            final(self)@ == after_search_step(old(self)@, input),
    {
        let (pane, on_terminal) = match &mut self.search {
            Some(f) => {
                if input.gained_focus {
                    f.terminal_focused = false;
                }
                (f.pane, f.terminal_focused)
            },
            None => {
                return SearchStep::Stay;
            },
        };
        if input.close || (input.escape && !on_terminal) {
            self.search = None;
            return SearchStep::Close(pane);
        }
        let mut action: Option<(bool, bool)> = None;
        if input.changed {
            action = Some((false, true));
        }
        if input.enter && !on_terminal {
            action = Some((input.shift, false));
        }
        if input.older {
            action = Some((false, false));
        }
        if input.newer {
            action = Some((true, false));
        }
        match (action, &self.search) {
            (Some((forward, reset)), Some(f)) => SearchStep::Run {
                pane,
                query: f.query.clone(),
                forward,
                reset,
            },
            _ => SearchStep::Stay,
        }
    }

    /// Takes in the result of a search: the current match, counted from one, and the
    /// number of matches.
    pub fn set_matches(&mut self, matches: (usize, usize))
        ensures
            final(self)@ == (State {
                search: match old(self)@.search {
                    Some(f) => Some(SearchView { matches, ..f }),
                    None => None,
                },
                ..old(self)@
            }),
    {
        if let Some(f) = &mut self.search {
            f.matches = matches;
        }
    }

    /// Whether the search has a query that matches nothing.
    pub fn search_fails(&self) -> (r: bool)
        ensures
            r == (self@.search is Some && no_matches(self@.search->0)),
    {
        match &self.search {
            Some(f) => f.matches.1 == 0 && f.query.as_str().unicode_len() > 0,
            None => false,
        }
    }

    /// Whether the search field is to take the keyboard: it owns it unless the user
    /// clicked into the terminal.
    pub fn search_takes_focus(&self, has_focus: bool) -> (r: bool)
        ensures
            r == (self@.search is Some && !self@.search->0.terminal_focused && !has_focus),
    {
        match &self.search {
            Some(f) => !f.terminal_focused && !has_focus,
            None => false,
        }
    }
}

/// A close request ends the session only where the user agreed or nothing is left to
/// protect. Held back, it asks: the dialog is up, and only confirming it lets the next
/// request pass, while cancelling it has the next one held again.
pub proof fn law_quit_needs_consent(s: State)
    requires
        close_held(s),
    ensures
        after_close_request(s).confirm_quit,
        close_held(after_close_request(s)),
        !close_held(after_quit(after_close_request(s), Some(true))),
        close_held(after_quit(after_close_request(s), Some(false))),
        after_quit(after_close_request(s), Some(false)) == (State { confirm_quit: false, ..s }),
        after_quit(after_close_request(s), None) == after_close_request(s),
{
}

/// The quit dialog does not touch what it protects, whatever is decided: tabs, panes
/// and search stay.
pub proof fn law_quit_keeps_session(s: State, choice: Option<bool>)
    ensures
        after_quit(after_close_request(s), choice).tabs == s.tabs,
        after_quit(after_close_request(s), choice).panes == s.panes,
        after_quit(after_close_request(s), choice).active == s.active,
        after_quit(after_close_request(s), choice).search == s.search,
        after_quit(after_close_request(s), choice).editing == s.editing,
{
}

/// Cancelling a rename, or dismissing it, leaves every tab as it was.
pub proof fn law_rename_cancelled(s: State)
    ensures
        after_rename(s, Some(false)) == (State { editing: None, ..s }),
{
}

/// Renaming a tab touches no other tab, and of that one nothing but the name.
pub proof fn law_rename_one_tab(s: State, i: int)
    requires
        0 <= i < s.tabs.len(),
    ensures
        after_rename(s, Some(true)).tabs.len() == s.tabs.len(),
        ({
            let t = after_rename(s, Some(true)).tabs[i];
            if s.editing is Some && s.editing->0.idx == i {
                t == (TabView { name: t.name, ..s.tabs[i] })
            } else {
                t == s.tabs[i]
            }
        }),
{
}

/// What a dialog decides: nothing where nothing was done; Escape or a click beside it always
/// cancels; Enter confirms otherwise; and of the buttons the cancelling one counts more.
pub proof fn law_dialog_choice(confirm: bool, cancel: bool, enter: bool)
    ensures
        choice_of(confirm, cancel, enter, true) == Some(false),
        choice_of(confirm, cancel, true, false) == Some(true),
        choice_of(confirm, true, false, false) == Some(false),
        choice_of(true, false, false, false) == Some(true),
        choice_of(false, false, false, false) is None,
{
}

/// The accent of a tab is its colour, and blue where it has none or there is no such tab.
pub proof fn law_accents(s: State, i: int)
    ensures
        ({
            let blue = Color32 { r: 102, g: 161, b: 255, a: 255 };
            &&& 0 <= i < s.tabs.len() && s.tabs[i].color is Some ==> tab_accent(s.tabs, i)
                == s.tabs[i].color->0
            &&& 0 <= i < s.tabs.len() && s.tabs[i].color is None ==> tab_accent(s.tabs, i) == blue
            &&& !(0 <= i < s.tabs.len()) ==> tab_accent(s.tabs, i) == blue
            &&& s.editing is None ==> rename_accent_of(s) == blue
            &&& s.editing is Some && s.editing->0.idx == i ==> rename_accent_of(s) == tab_accent(
                s.tabs,
                i,
            )
        }),
{
}

/// Confirming a rename names the tab by what was typed, without blanks around it, or by nothing
/// where that is nothing, and closes the dialog. An undecided dialog stays.
pub proof fn law_rename_names(s: State)
    requires
        s.editing is Some,
    ensures
        ({
            let e = s.editing->0;
            let t = after_rename(s, Some(true));
            &&& t.editing is None
            &&& e.idx < s.tabs.len() && trimmed(e.buf).len() > 0 ==> t.tabs[e.idx as int].name
                == Some(trimmed(e.buf))
            &&& e.idx < s.tabs.len() && trimmed(e.buf).len() == 0 ==> t.tabs[e.idx as int].name
                is None
            &&& t == (State { tabs: t.tabs, editing: None, ..s })
            &&& after_rename(s, None) == s
        }),
{
}

/// A request to close is held back while there are tabs and the user has not agreed.
pub proof fn law_close_held(s: State)
    ensures
        s.tabs.len() == 0 ==> !close_held(s) && after_close_request(s) == s,
        s.quit_confirmed ==> !close_held(s) && after_close_request(s) == s,
        s.tabs.len() > 0 && !s.quit_confirmed ==> close_held(s) && after_close_request(s) == (
        State { confirm_quit: true, ..s }),
{
}

/// A quit dialog that is not up decides nothing.
pub proof fn law_no_quit_dialog(s: State, choice: Option<bool>)
    requires
        !s.confirm_quit,
    ensures
        after_quit(s, choice) == s,
{
}

/// The search bar is shown while its pane is in the active tab, and goes otherwise; the
/// highlights are to be cleared where the pane is still there.
pub proof fn law_search_bar(s: State)
    ensures
        s.search is None ==> search_bar_of(s) == SearchBar::Hidden,
        s.search is Some && s.panes.contains_key(s.search->0.pane) && holds(
            s.tabs[s.active].root,
            s.search->0.pane,
        ) ==> search_bar_of(s) == SearchBar::Shown,
        s.search is Some && s.panes.contains_key(s.search->0.pane) && !holds(
            s.tabs[s.active].root,
            s.search->0.pane,
        ) ==> search_bar_of(s) == SearchBar::Gone(Some(s.search->0.pane)),
        s.search is Some && !s.panes.contains_key(s.search->0.pane) ==> search_bar_of(s)
            == SearchBar::Gone(None),
{
}

/// Nothing done to the search bar.
pub open spec fn no_search_input() -> SearchInput {
    SearchInput {
        gained_focus: false,
        changed: false,
        enter: false,
        shift: false,
        escape: false,
        older: false,
        newer: false,
        close: false,
    }
}

/// What each way of using the search bar does, while its field has the keyboard: Enter steps to
/// an older match and with shift to a newer one, the buttons step their way, an edited query
/// is searched for anew, Escape and the button close the bar.
pub proof fn law_search_keys(s: State, shift: bool)
    requires
        s.search is Some,
        !s.search->0.terminal_focused,
    ensures
        ({
            let f = s.search->0;
            let run = |forward: bool, reset: bool|
                SearchStepView::Run { pane: f.pane, query: f.query, forward, reset };
            let none = no_search_input();
            &&& search_step_of(s, none) == SearchStepView::Stay
            &&& search_step_of(s, SearchInput { enter: true, shift, ..none }) == run(shift, false)
            &&& search_step_of(s, SearchInput { older: true, shift, ..none }) == run(false, false)
            &&& search_step_of(s, SearchInput { newer: true, shift, ..none }) == run(true, false)
            &&& search_step_of(s, SearchInput { changed: true, shift, ..none }) == run(false, true)
            &&& search_step_of(s, SearchInput { escape: true, shift, ..none })
                == SearchStepView::Close(f.pane)
            &&& search_step_of(s, SearchInput { close: true, shift, ..none })
                == SearchStepView::Close(f.pane)
        }),
{
}

/// With the terminal focused, Enter and Escape belong to the shell; the buttons still work. The
/// field that gets the keyboard back has them again.
pub proof fn law_search_beside_terminal(s: State, input: SearchInput)
    requires
        s.search is Some,
        s.search->0.terminal_focused,
    ensures
        !input.gained_focus ==> search_step_of(s, input) == search_step_of(
            s,
            SearchInput { enter: false, escape: false, ..input },
        ),
        input.gained_focus ==> search_step_of(s, input) == search_step_of(
            State {
                search: Some(SearchView { terminal_focused: false, ..s.search->0 }),
                ..s
            },
            input,
        ),
        input.close ==> search_step_of(s, input) == SearchStepView::Close(s.search->0.pane),
{
}

/// A search bar that is closed is gone; one that stays keeps its pane, its query and its counts,
/// and the terminal has the keyboard as before, unless the field got it. Nothing else changes.
pub proof fn law_search_step(s: State, input: SearchInput)
    ensures
        ({
            let t = after_search_step(s, input);
            &&& t == (State { search: t.search, ..s })
            &&& s.search is None ==> t.search is None && search_step_of(s, input)
                == SearchStepView::Stay
            &&& s.search is Some ==> (t.search is None <==> search_step_of(s, input) is Close)
            &&& t.search is Some ==> {
                &&& t.search->0.pane == s.search->0.pane
                &&& t.search->0.query == s.search->0.query
                &&& t.search->0.matches == s.search->0.matches
                &&& t.search->0.terminal_focused == (s.search->0.terminal_focused
                    && !input.gained_focus)
            }
        }),
{
}

/// A search fails where something is searched for and nothing is found.
pub proof fn law_search_fails(f: SearchView)
    ensures
        f.query.len() == 0 ==> !no_matches(f),
        f.matches.1 > 0 ==> !no_matches(f),
        f.query.len() > 0 && f.matches.1 == 0 ==> no_matches(f),
{
}

/// Which of several things done to the search bar counts: closing most, then the button for
/// newer matches, then that for older ones, then Enter, and an edited query least.
pub proof fn law_search_precedence(s: State, input: SearchInput)
    requires
        s.search is Some,
        !s.search->0.terminal_focused,
    ensures
        ({
            let none = no_search_input();
            let step = search_step_of(s, input);
            let closing = input.close || input.escape;
            &&& closing ==> step == search_step_of(s, SearchInput { close: true, ..none })
            &&& !closing && input.newer ==> step == search_step_of(
                s,
                SearchInput { newer: true, ..none },
            )
            &&& !closing && !input.newer && input.older ==> step == search_step_of(
                s,
                SearchInput { older: true, ..none },
            )
            &&& !closing && !input.newer && !input.older && input.enter ==> step
                == search_step_of(s, SearchInput { enter: true, shift: input.shift, ..none })
            &&& !closing && !input.newer && !input.older && !input.enter ==> step
                == search_step_of(s, SearchInput { changed: input.changed, ..none })
        }),
{
}

} // verus!
