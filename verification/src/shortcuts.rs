//! The shortcuts of the window: which key presses they take before a terminal sees
//! them, and what they ask for.

use vstd::prelude::*;

use crate::keys::{
    alt_mod, command_mod, either, exact_match, loose_match, matches_exact, matches_logically,
    KeySpec, KeySpecView, Keybinds, KeybindsView, Modifiers,
};
use crate::layout::{Axis, Dir};
use crate::text::{digit, same_text};

verus! {

/// Something that was typed in this frame.
#[derive(Debug)]
pub enum InputEvent {
    /// A key, by the name that `egui` has for it, going down or up.
    Key { key: String, pressed: bool, mods: Modifiers },
    /// Text that was typed.
    Text,
    /// Any other event.
    Other,
}

/// What an `InputEvent` holds.
pub enum EventView {
    Key { key: Seq<char>, pressed: bool, mods: Modifiers },
    Text,
    Other,
}

impl View for InputEvent {
    type V = EventView;

    open spec fn view(&self) -> EventView {
        match *self {
            InputEvent::Key { key, pressed, mods } => EventView::Key { key: key@, pressed, mods },
            InputEvent::Text => EventView::Text,
            InputEvent::Other => EventView::Other,
        }
    }
}

/// The events of a frame, and which of them are left for the terminals.
#[derive(Debug)]
pub struct Input {
    pub events: Vec<InputEvent>,
    /// For each event, whether it is left.
    pub kept: Vec<bool>,
}

/// What an `Input` holds: the events, each with whether it is left.
#[verifier::ext_equal]
pub struct InputView {
    pub events: Seq<EventView>,
    pub kept: Seq<bool>,
}

impl View for Input {
    type V = InputView;

    open spec fn view(&self) -> InputView {
        InputView { events: self.events@.map_values(|e: InputEvent| e@), kept: self.kept@ }
    }
}

impl InputView {
    /// Every event is either left or not.
    pub open spec fn wf(self) -> bool {
        self.kept.len() == self.events.len()
    }

    /// Whether an event that `taken` holds of is left.
    pub open spec fn any(self, taken: spec_fn(EventView) -> bool) -> bool {
        exists|i: int|
            0 <= i < self.events.len() && #[trigger] self.kept[i] && taken(self.events[i])
    }

    /// The input without the events that `taken` holds of.
    pub open spec fn without(self, taken: spec_fn(EventView) -> bool) -> InputView {
        InputView {
            kept: Seq::new(self.kept.len(), |i: int| self.kept[i] && !taken(self.events[i])),
            ..self
        }
    }
}

/// All of `events`, none of them taken yet.
pub open spec fn fresh_input(events: Seq<EventView>) -> InputView {
    InputView { events, kept: Seq::new(events.len(), |i: int| true) }
}

/// The presses of the key `key` with the modifiers that `mods` asks for, alt and
/// shift exactly.
pub open spec fn exact_press(mods: Modifiers, key: Seq<char>) -> spec_fn(EventView) -> bool {
    |e: EventView|
        e matches EventView::Key { key: k, pressed, mods: held } && pressed && k == key
            && exact_match(held, mods)
}

/// The presses of the key `key` with the modifiers that `mods` asks for, and
/// possibly more alt or shift.
pub open spec fn loose_press(mods: Modifiers, key: Seq<char>) -> spec_fn(EventView) -> bool {
    |e: EventView|
        e matches EventView::Key { key: k, pressed, mods: held } && pressed && k == key
            && loose_match(held, mods)
}

/// Typed text.
pub open spec fn typed_text() -> spec_fn(EventView) -> bool {
    |e: EventView| e is Text
}

/// Whether `spec` is pressed.
pub open spec fn spec_hit(input: InputView, spec: KeySpecView) -> bool {
    input.any(exact_press(spec.mods, spec.key))
}

/// The input once the presses of `spec` are taken. With an alt-modified binding the
/// text that the press composed goes too.
pub open spec fn spec_taken(input: InputView, spec: KeySpecView) -> InputView {
    let rest = input.without(exact_press(spec.mods, spec.key));
    if spec_hit(input, spec) && spec.mods.alt {
        rest.without(typed_text())
    } else {
        rest
    }
}

/// Which events are to be taken.
enum Wanted<'a> {
    /// The presses of a key with these modifiers, alt and shift exactly.
    Exact { mods: Modifiers, key: &'a str },
    /// The presses of a key with these modifiers, more alt or shift allowed.
    Loose { mods: Modifiers, key: &'a str },
    /// Typed text.
    Text,
}

impl<'a> Wanted<'a> {
    /// The events that are meant.
    spec fn holds_of(self) -> spec_fn(EventView) -> bool {
        match self {
            Wanted::Exact { mods, key } => exact_press(mods, key@),
            Wanted::Loose { mods, key } => loose_press(mods, key@),
            Wanted::Text => typed_text(),
        }
    }

    /// Whether an event is meant.
    fn describes(&self, event: &InputEvent) -> (r: bool)
        ensures
            r == (self.holds_of())(event@),
    {
        match (self, event) {
            (Wanted::Exact { mods, key }, InputEvent::Key { key: k, pressed, mods: held }) => {
                *pressed && same_text(k.as_str(), key) && matches_exact(*held, *mods)
            },
            (Wanted::Loose { mods, key }, InputEvent::Key { key: k, pressed, mods: held }) => {
                *pressed && same_text(k.as_str(), key) && matches_logically(*held, *mods)
            },
            (Wanted::Text, InputEvent::Text) => true,
            _ => false,
        }
    }
}

impl Input {
    /// All of `events`, none of them taken yet.
    pub fn new(events: Vec<InputEvent>) -> (r: Input)
        ensures
            r@ == fresh_input(events@.map_values(|e: InputEvent| e@)),
            r@.wf(),
    {
        let mut kept: Vec<bool> = Vec::new();
        let mut i: usize = 0;
        while i < events.len()
            invariant
                i <= events@.len(),
                kept@ == Seq::new(i as nat, |j: int| true),
            decreases events@.len() - i,
        {
            kept.push(true);
            i += 1;
            assert(kept@ =~= Seq::new(i as nat, |j: int| true));
        }
        let r = Input { events, kept };
        assert(r@ =~= fresh_input(events@.map_values(|e: InputEvent| e@)));
        r
    }

    /// Takes the events that `wanted` describes. Says whether there was one left.
    fn take(&mut self, wanted: Wanted) -> (hit: bool)
        requires
            old(self)@.wf(),
        ensures
            final(self)@ == old(self)@.without(wanted.holds_of()),
            hit == old(self)@.any(wanted.holds_of()),
            final(self)@.wf(),
    {
        let ghost taken = wanted.holds_of();
        let mut hit = false;
        let mut i: usize = 0;
        while i < self.events.len()
            invariant
                i <= self.events@.len(),
                self.events == old(self).events,
                self@.wf(),
                old(self)@.wf(),
                taken == wanted.holds_of(),
                forall|j: int|
                    0 <= j < i ==> #[trigger] self@.kept[j] == (old(self)@.kept[j] && !taken(
                        self@.events[j],
                    )),
                forall|j: int|
                    i <= j < self@.kept.len() ==> #[trigger] self@.kept[j] == old(self)@.kept[j],
                hit == exists|j: int|
                    0 <= j < i && #[trigger] old(self)@.kept[j] && taken(self@.events[j]),
            decreases self.events@.len() - i,
        {
            assert(self@.events[i as int] == self.events@[i as int]@);
            assert(self@.kept[i as int] == old(self)@.kept[i as int]);
            let is_match = wanted.describes(&self.events[i]);
            if self.kept[i] && is_match {
                assert(old(self)@.kept[i as int]);
                hit = true;
                self.kept[i] = false;
            }
            i += 1;
        }
        assert(self@ =~= old(self)@.without(taken));
        hit
    }

    /// Takes the key presses that exactly match `spec`, modifiers included, so that
    /// they trigger the action and stay hidden from the terminal. Says whether there
    /// was one. Exact matching lets Cmd+D and Cmd+Shift+D coexist.
    ///
    /// An alt-modified press also comes with composed text on a Mac (Alt+T types
    /// "†"), which is taken as well.
    pub fn consume_keyspec(&mut self, spec: &KeySpec) -> (hit: bool)
        requires
            old(self)@.wf(),
        ensures
            final(self)@ == spec_taken(old(self)@, spec@),
            hit == spec_hit(old(self)@, spec@),
            final(self)@.wf(),
    {
        let hit = self.take(Wanted::Exact { mods: spec.mods, key: spec.key.as_str() });
        if hit && spec.mods.alt {
            self.drop_text();
        }
        hit
    }

    /// Takes the presses of a key with these modifiers, more alt or shift allowed.
    /// Says whether there was one.
    pub fn consume_shortcut(&mut self, mods: Modifiers, key: &str) -> (hit: bool)
        requires
            old(self)@.wf(),
        ensures
            final(self)@ == old(self)@.without(loose_press(mods, key@)),
            hit == old(self)@.any(loose_press(mods, key@)),
            final(self)@.wf(),
    {
        self.take(Wanted::Loose { mods, key })
    }

    /// Takes all typed text.
    pub fn drop_text(&mut self)
        requires
            old(self)@.wf(),
        ensures
            final(self)@ == old(self)@.without(typed_text()),
            final(self)@.wf(),
    {
        self.take(Wanted::Text);
    }
}

/// What a shortcut asks for.
#[derive(Clone, Copy, Debug, PartialEq, Eq, Structural)]
pub enum Command {
    /// Open a tab.
    NewTab,
    /// Bring the tab with this position to the front.
    SelectTab(usize),
    /// Focus the pane with this position in the active tab.
    FocusPane(usize),
    /// Split the focused pane.
    Split(Axis),
    /// Close the focused pane.
    ClosePane,
    /// Clear the scrollback and the screen of the focused pane.
    Clear,
    /// Search the scrollback of the focused pane.
    Find,
    /// Move the focus to the neighbouring pane.
    Move(Dir),
}

/// The input that is left, and what the shortcuts that were taken from it ask for,
/// in order.
#[verifier::ext_equal]
pub struct Taken {
    pub input: InputView,
    pub commands: Seq<Command>,
}

/// `commands`, with `command` behind them where `hit`.
pub open spec fn asked(commands: Seq<Command>, hit: bool, command: Command) -> Seq<Command> {
    if hit {
        commands.push(command)
    } else {
        commands
    }
}

/// Then a rebindable shortcut.
pub open spec fn bound(t: Taken, spec: KeySpecView, command: Command) -> Taken {
    Taken {
        input: spec_taken(t.input, spec),
        commands: asked(t.commands, spec_hit(t.input, spec), command),
    }
}

/// Then a fixed shortcut.
pub open spec fn fixed(t: Taken, mods: Modifiers, key: Seq<char>, command: Command) -> Taken {
    Taken {
        input: t.input.without(loose_press(mods, key)),
        commands: asked(t.commands, t.input.any(loose_press(mods, key)), command),
    }
}

/// The name of the key that counts as number `i` from zero: "1" for zero.
pub open spec fn number_key(i: nat) -> Seq<char> {
    seq![digit(i + 1)]
}

/// Then Cmd with the first `n` number keys: switch to that tab.
pub open spec fn tab_numbers(t: Taken, n: nat) -> Taken
    decreases n,
{
    if n == 0 {
        t
    } else {
        let i = (n - 1) as nat;
        fixed(tab_numbers(t, i), command_mod(), number_key(i), Command::SelectTab(i as usize))
    }
}

/// Then Alt with the first `n` number keys: focus that pane.
pub open spec fn pane_numbers(t: Taken, n: nat) -> Taken
    decreases n,
{
    if n == 0 {
        t
    } else {
        let i = (n - 1) as nat;
        fixed(pane_numbers(t, i), alt_mod(), number_key(i), Command::FocusPane(i as usize))
    }
}

/// Then Alt with the number keys, and where one was pressed, no text: on a Mac such
/// a press composes a character.
pub open spec fn pane_switches(t: Taken) -> Taken {
    let u = pane_numbers(t, 9);
    if u.commands.len() > t.commands.len() {
        Taken { input: u.input.without(typed_text()), ..u }
    } else {
        u
    }
}

/// Then the rebindable shortcuts on the focused pane. A split down comes before a
/// split right.
pub open spec fn pane_shortcuts(t: Taken, binds: KeybindsView) -> Taken {
    let t = bound(t, binds.split_down, Command::Split(Axis::Vertical));
    let t = bound(t, binds.split_right, Command::Split(Axis::Horizontal));
    let t = bound(t, binds.close_pane, Command::ClosePane);
    let t = bound(t, binds.clear, Command::Clear);
    bound(t, binds.find, Command::Find)
}

/// Then Cmd+Alt with the arrow keys: move the focus.
pub open spec fn moves(t: Taken) -> Taken {
    let mods = either(command_mod(), alt_mod());
    let t = fixed(t, mods, "Left"@, Command::Move(Dir::Left));
    let t = fixed(t, mods, "Right"@, Command::Move(Dir::Right));
    let t = fixed(t, mods, "Up"@, Command::Move(Dir::Up));
    fixed(t, mods, "Down"@, Command::Move(Dir::Down))
}

/// All the shortcuts, in their order: each sees what those before it have left.
pub open spec fn shortcuts_of(input: InputView, binds: KeybindsView) -> Taken {
    let t = Taken { input, commands: Seq::empty() };
    let t = tab_numbers(bound(t, binds.new_tab, Command::NewTab), 9);
    moves(pane_shortcuts(pane_switches(t), binds))
}

fn number_key_name(i: usize) -> (r: &'static str)
    requires
        i < 9,
    ensures
        r@ == number_key(i as nat),
{
    proof {
        reveal_strlit("1");
        reveal_strlit("2");
        reveal_strlit("3");
        reveal_strlit("4");
        reveal_strlit("5");
        reveal_strlit("6");
        reveal_strlit("7");
        reveal_strlit("8");
        reveal_strlit("9");
    }
    let r = match i {
        0 => "1",
        1 => "2",
        2 => "3",
        3 => "4",
        4 => "5",
        5 => "6",
        6 => "7",
        7 => "8",
        _ => "9",
    };
    assert(r@ =~= number_key(i as nat));
    r
}

fn take_bound(input: &mut Input, commands: &mut Vec<Command>, spec: &KeySpec, command: Command)
    requires
        old(input)@.wf(),
    ensures
        (Taken { input: final(input)@, commands: final(commands)@ }) == bound(
            Taken { input: old(input)@, commands: old(commands)@ },
            spec@,
            command,
        ),
        final(input)@.wf(),
{
    if input.consume_keyspec(spec) {
        commands.push(command);
    }
}

fn take_fixed(
    input: &mut Input,
    commands: &mut Vec<Command>,
    mods: Modifiers,
    key: &str,
    command: Command,
)
    requires
        old(input)@.wf(),
    ensures
        (Taken { input: final(input)@, commands: final(commands)@ }) == fixed(
            Taken { input: old(input)@, commands: old(commands)@ },
            mods,
            key@,
            command,
        ),
        final(input)@.wf(),
{
    if input.consume_shortcut(mods, key) {
        commands.push(command);
    }
}

/// Takes the shortcuts out of the input before the terminals see it, and says what
/// they ask for, in order.
pub fn handle_shortcuts(input: &mut Input, binds: &Keybinds) -> (commands: Vec<Command>)
    requires
        old(input)@.wf(),
    ensures
        (Taken { input: final(input)@, commands: commands@ }) == shortcuts_of(
            old(input)@,
            binds@,
        ),
        final(input)@.wf(),
{
    let mut commands: Vec<Command> = Vec::new();
    // New tab (rebindable); jump to a tab by number (fixed).
    take_bound(input, &mut commands, &binds.new_tab, Command::NewTab);
    let ghost t0 = Taken { input: input@, commands: commands@ };
    let mut i: usize = 0;
    while i < 9
        invariant
            i <= 9,
            input@.wf(),
            (Taken { input: input@, commands: commands@ }) == tab_numbers(t0, i as nat),
        decreases 9 - i,
    {
        let key = number_key_name(i);
        take_fixed(input, &mut commands, Modifiers::command(), key, Command::SelectTab(i));
        i += 1;
    }
    // Alt and a number: focus a pane within the active tab.
    let before = commands.len();
    let ghost t1 = Taken { input: input@, commands: commands@ };
    let mut i: usize = 0;
    while i < 9
        invariant
            i <= 9,
            input@.wf(),
            (Taken { input: input@, commands: commands@ }) == pane_numbers(t1, i as nat),
        decreases 9 - i,
    {
        let key = number_key_name(i);
        take_fixed(input, &mut commands, Modifiers::alt(), key, Command::FocusPane(i));
        i += 1;
    }
    if commands.len() > before {
        input.drop_text();
    }
    take_bound(input, &mut commands, &binds.split_down, Command::Split(Axis::Vertical));
    take_bound(input, &mut commands, &binds.split_right, Command::Split(Axis::Horizontal));
    take_bound(input, &mut commands, &binds.close_pane, Command::ClosePane);
    take_bound(input, &mut commands, &binds.clear, Command::Clear);
    take_bound(input, &mut commands, &binds.find, Command::Find);
    let arrows = Modifiers::command().plus(Modifiers::alt());
    take_fixed(input, &mut commands, arrows, "Left", Command::Move(Dir::Left));
    take_fixed(input, &mut commands, arrows, "Right", Command::Move(Dir::Right));
    take_fixed(input, &mut commands, arrows, "Up", Command::Move(Dir::Up));
    take_fixed(input, &mut commands, arrows, "Down", Command::Move(Dir::Down));
    commands
}

/// Whether `e` is a key going down.
pub open spec fn is_press(e: EventView) -> bool {
    e matches EventView::Key { pressed, .. } && pressed
}

/// Whether `b` is left of `a`: the same events, and what is missing are key presses
/// and text.
pub open spec fn left_of(a: InputView, b: InputView) -> bool {
    &&& b.events == a.events
    &&& b.kept.len() == a.kept.len()
    &&& forall|i: int|
        0 <= i < a.kept.len() ==> {
            &&& #[trigger] b.kept[i] ==> a.kept[i]
            &&& a.kept[i] && !b.kept[i] ==> is_press(a.events[i]) || a.events[i] is Text
        }
}

proof fn lemma_left_trans(a: InputView, b: InputView, c: InputView)
    requires
        left_of(a, b),
        left_of(b, c),
    ensures
        left_of(a, c),
{
    assert forall|i: int| 0 <= i < a.kept.len() implies {
        &&& #[trigger] c.kept[i] ==> a.kept[i]
        &&& a.kept[i] && !c.kept[i] ==> is_press(a.events[i]) || a.events[i] is Text
    } by {
        assert(b.kept[i] ==> a.kept[i]);
    }
}

proof fn lemma_bound_left(t: Taken, spec: KeySpecView, command: Command)
    requires
        t.input.wf(),
    ensures
        left_of(t.input, bound(t, spec, command).input),
        bound(t, spec, command).input.wf(),
        !spec_hit(bound(t, spec, command).input, spec),
{
}

proof fn lemma_fixed_left(t: Taken, mods: Modifiers, key: Seq<char>, command: Command)
    requires
        t.input.wf(),
    ensures
        left_of(t.input, fixed(t, mods, key, command).input),
        fixed(t, mods, key, command).input.wf(),
{
}

proof fn lemma_numbers_left(t: Taken, n: nat)
    requires
        t.input.wf(),
    ensures
        left_of(t.input, tab_numbers(t, n).input),
        tab_numbers(t, n).input.wf(),
        left_of(t.input, pane_numbers(t, n).input),
        pane_numbers(t, n).input.wf(),
    decreases n,
{
    if n > 0 {
        let i = (n - 1) as nat;
        lemma_numbers_left(t, i);
        let a = tab_numbers(t, i);
        lemma_fixed_left(a, command_mod(), number_key(i), Command::SelectTab(i as usize));
        lemma_left_trans(t.input, a.input, tab_numbers(t, n).input);
        let b = pane_numbers(t, i);
        lemma_fixed_left(b, alt_mod(), number_key(i), Command::FocusPane(i as usize));
        lemma_left_trans(t.input, b.input, pane_numbers(t, n).input);
    }
}

proof fn lemma_moves_left(t: Taken)
    requires
        t.input.wf(),
    ensures
        left_of(t.input, moves(t).input),
        moves(t).input.wf(),
{
    let mods = either(command_mod(), alt_mod());
    lemma_fixed_left(t, mods, "Left"@, Command::Move(Dir::Left));
    let a = fixed(t, mods, "Left"@, Command::Move(Dir::Left));
    lemma_fixed_left(a, mods, "Right"@, Command::Move(Dir::Right));
    let b = fixed(a, mods, "Right"@, Command::Move(Dir::Right));
    lemma_fixed_left(b, mods, "Up"@, Command::Move(Dir::Up));
    let c = fixed(b, mods, "Up"@, Command::Move(Dir::Up));
    lemma_fixed_left(c, mods, "Down"@, Command::Move(Dir::Down));
    lemma_left_trans(t.input, a.input, b.input);
    lemma_left_trans(t.input, b.input, c.input);
    lemma_left_trans(t.input, c.input, moves(t).input);
}

proof fn lemma_still_gone(a: InputView, b: InputView, spec: KeySpecView)
    requires
        left_of(a, b),
        a.wf(),
        !spec_hit(a, spec),
    ensures
        !spec_hit(b, spec),
{
    let taken = exact_press(spec.mods, spec.key);
    if b.any(taken) {
        let i = choose|i: int|
            0 <= i < b.events.len() && #[trigger] b.kept[i] && taken(b.events[i]);
        assert(a.kept[i]);
    }
}

/// The terminals get none of the presses that a binding stands for. What they do not
/// get are key presses and text: a key that goes up, or any other event, is never
/// taken from them.
pub proof fn law_shortcuts_hidden(input: InputView, binds: KeybindsView)
    requires
        input.wf(),
    ensures
        ({
            let rest = shortcuts_of(input, binds).input;
            &&& left_of(input, rest)
            &&& !spec_hit(rest, binds.new_tab)
            &&& !spec_hit(rest, binds.split_down)
            &&& !spec_hit(rest, binds.split_right)
            &&& !spec_hit(rest, binds.close_pane)
            &&& !spec_hit(rest, binds.clear)
            &&& !spec_hit(rest, binds.find)
        }),
{
    let rest = shortcuts_of(input, binds).input;
    let start = Taken { input, commands: Seq::empty() };
    let t0 = bound(start, binds.new_tab, Command::NewTab);
    lemma_bound_left(start, binds.new_tab, Command::NewTab);
    let t1 = tab_numbers(t0, 9);
    lemma_numbers_left(t0, 9);
    let t2 = pane_switches(t1);
    lemma_numbers_left(t1, 9);
    assert(left_of(pane_numbers(t1, 9).input, t2.input));
    lemma_left_trans(t1.input, pane_numbers(t1, 9).input, t2.input);
    let a = bound(t2, binds.split_down, Command::Split(Axis::Vertical));
    lemma_bound_left(t2, binds.split_down, Command::Split(Axis::Vertical));
    let b = bound(a, binds.split_right, Command::Split(Axis::Horizontal));
    lemma_bound_left(a, binds.split_right, Command::Split(Axis::Horizontal));
    let c = bound(b, binds.close_pane, Command::ClosePane);
    lemma_bound_left(b, binds.close_pane, Command::ClosePane);
    let d = bound(c, binds.clear, Command::Clear);
    lemma_bound_left(c, binds.clear, Command::Clear);
    let e = bound(d, binds.find, Command::Find);
    lemma_bound_left(d, binds.find, Command::Find);
    lemma_moves_left(e);
    lemma_still_gone(e.input, rest, binds.find);
    lemma_left_trans(d.input, e.input, rest);
    lemma_still_gone(d.input, rest, binds.clear);
    lemma_left_trans(c.input, d.input, rest);
    lemma_still_gone(c.input, rest, binds.close_pane);
    lemma_left_trans(b.input, c.input, rest);
    lemma_still_gone(b.input, rest, binds.split_right);
    lemma_left_trans(a.input, b.input, rest);
    lemma_still_gone(a.input, rest, binds.split_down);
    lemma_left_trans(t2.input, a.input, rest);
    lemma_left_trans(t1.input, t2.input, rest);
    lemma_left_trans(t0.input, t1.input, rest);
    lemma_still_gone(t0.input, rest, binds.new_tab);
    lemma_left_trans(input, t0.input, rest);
}

/// Exact matching tells bindings apart that differ in shift or alt: no press of a
/// key is a press of both. So Cmd+D and Cmd+Shift+D can coexist.
pub proof fn law_exact_presses_apart(a: KeySpecView, b: KeySpecView, e: EventView)
    requires
        a.mods.shift != b.mods.shift || a.mods.alt != b.mods.alt,
    ensures
        !(exact_press(a.mods, a.key)(e) && exact_press(b.mods, b.key)(e)),
{
}

/// Where nothing was pressed, no shortcut asks for anything, and all is left for the
/// terminals.
pub proof fn law_no_press_no_command(input: InputView, binds: KeybindsView)
    requires
        input.wf(),
        forall|i: int|
            0 <= i < input.events.len() && #[trigger] input.kept[i] ==> !is_press(
                input.events[i],
            ),
    ensures
        shortcuts_of(input, binds) == (Taken { input, commands: Seq::empty() }),
{
    let t = Taken { input, commands: Seq::empty() };
    assert forall|spec: KeySpecView, command: Command| #[trigger]
        bound(t, spec, command) == t by {
        assert(!input.any(exact_press(spec.mods, spec.key)));
        assert(input.without(exact_press(spec.mods, spec.key)) =~= input);
    }
    assert forall|mods: Modifiers, key: Seq<char>, command: Command| #[trigger]
        fixed(t, mods, key, command) == t by {
        assert(!input.any(loose_press(mods, key)));
        assert(input.without(loose_press(mods, key)) =~= input);
    }
    lemma_no_numbers(t, 9);
}

proof fn lemma_no_numbers(t: Taken, n: nat)
    requires
        forall|mods: Modifiers, key: Seq<char>, command: Command| #[trigger]
            fixed(t, mods, key, command) == t,
    ensures
        tab_numbers(t, n) == t,
        pane_numbers(t, n) == t,
    decreases n,
{
    if n > 0 {
        lemma_no_numbers(t, (n - 1) as nat);
    }
}

} // verus!
