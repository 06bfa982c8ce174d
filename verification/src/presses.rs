//! What each key press of a frame asks for.

use vstd::prelude::*;

use crate::keys::{
    alt_mod, command_mod, either, exact_match, loose_match, KeySpecView, KeybindsView, Modifiers,
};
use crate::layout::{Axis, Dir};
use crate::shortcuts::{
    asked, bound, exact_press, fixed, fresh_input, loose_press, moves, number_key, pane_numbers,
    pane_shortcuts, pane_switches, shortcuts_of, spec_hit, tab_numbers, typed_text, Command,
    EventView, InputView, Taken,
};

verus! {

/// The number of shortcuts.
pub open spec fn shortcut_count() -> int {
    28
}

/// What shortcut `r` asks for, by its turn.
pub open spec fn command_at(r: int) -> Command {
    if r == 0 {
        Command::NewTab
    } else if r <= 9 {
        Command::SelectTab((r - 1) as usize)
    } else if r <= 18 {
        Command::FocusPane((r - 10) as usize)
    } else if r == 19 {
        Command::Split(Axis::Vertical)
    } else if r == 20 {
        Command::Split(Axis::Horizontal)
    } else if r == 21 {
        Command::ClosePane
    } else if r == 22 {
        Command::Clear
    } else if r == 23 {
        Command::Find
    } else if r == 24 {
        Command::Move(Dir::Left)
    } else if r == 25 {
        Command::Move(Dir::Right)
    } else if r == 26 {
        Command::Move(Dir::Up)
    } else {
        Command::Move(Dir::Down)
    }
}

/// Whether `key` is the number key of `d`.
pub open spec fn is_number(key: Seq<char>, d: int) -> bool {
    key.len() == 1 && key[0] as int == '0' as int + d
}

/// Whether shortcut `r` wants a press of `key` while `held` are held.
pub open spec fn wants_press(binds: KeybindsView, r: int, key: Seq<char>, held: Modifiers) -> bool {
    let arrows = held.alt && held.command;
    if r == 0 {
        key == binds.new_tab.key && exact_match(held, binds.new_tab.mods)
    } else if r <= 9 {
        held.command && is_number(key, r)
    } else if r <= 18 {
        held.alt && !held.ctrl && !held.command && is_number(key, r - 9)
    } else if r == 19 {
        key == binds.split_down.key && exact_match(held, binds.split_down.mods)
    } else if r == 20 {
        key == binds.split_right.key && exact_match(held, binds.split_right.mods)
    } else if r == 21 {
        key == binds.close_pane.key && exact_match(held, binds.close_pane.mods)
    } else if r == 22 {
        key == binds.clear.key && exact_match(held, binds.clear.mods)
    } else if r == 23 {
        key == binds.find.key && exact_match(held, binds.find.mods)
    } else if r == 24 {
        arrows && key == "Left"@
    } else if r == 25 {
        arrows && key == "Right"@
    } else if r == 26 {
        arrows && key == "Up"@
    } else {
        arrows && key == "Down"@
    }
}

/// Whether shortcut `r` wants an event: it wants keys going down only.
pub open spec fn wants(binds: KeybindsView, r: int, e: EventView) -> bool {
    match e {
        EventView::Key { key, pressed, mods } => pressed && wants_press(binds, r, key, mods),
        _ => false,
    }
}

/// Whether a shortcut before `r` wants an event.
pub open spec fn wanted_before(binds: KeybindsView, r: int, e: EventView) -> bool {
    exists|q: int| 0 <= q < r && #[trigger] wants(binds, q, e)
}

/// Whether event `i` goes to shortcut `r`: that is the first that wants it.
pub open spec fn goes_to(input: InputView, binds: KeybindsView, i: int, r: int) -> bool {
    &&& 0 <= i < input.events.len()
    &&& input.kept[i]
    &&& wants(binds, r, input.events[i])
    &&& !wanted_before(binds, r, input.events[i])
}

/// Whether some event goes to shortcut `r`.
pub open spec fn is_hit(input: InputView, binds: KeybindsView, r: int) -> bool {
    exists|i: int| #[trigger] goes_to(input, binds, i, r)
}

/// Whether a press that goes to shortcut `r` types a character besides: one with alt.
pub open spec fn also_types(binds: KeybindsView, r: int) -> bool {
    if r == 0 {
        binds.new_tab.mods.alt
    } else if 10 <= r <= 18 {
        true
    } else if r == 19 {
        binds.split_down.mods.alt
    } else if r == 20 {
        binds.split_right.mods.alt
    } else if r == 21 {
        binds.close_pane.mods.alt
    } else if r == 22 {
        binds.clear.mods.alt
    } else if r == 23 {
        binds.find.mods.alt
    } else {
        false
    }
}

/// Whether a shortcut between `from` and `to` is hit whose press types a character.
pub open spec fn typed_between(input: InputView, binds: KeybindsView, from: int, to: int) -> bool {
    exists|q: int| from <= q < to && #[trigger] is_hit(input, binds, q) && also_types(binds, q)
}

/// Whether `commands` is what the shortcuts before `r` ask for, in the order of their turns.
pub open spec fn asked_before(
    commands: Seq<Command>,
    input: InputView,
    binds: KeybindsView,
    r: int,
) -> bool
    decreases r,
{
    if r <= 0 {
        commands.len() == 0
    } else if is_hit(input, binds, r - 1) {
        commands.len() > 0 && commands.last() == command_at(r - 1) && asked_before(
            commands.drop_last(),
            input,
            binds,
            r - 1,
        )
    } else {
        asked_before(commands, input, binds, r - 1)
    }
}

/// Whether `t` is what is left of `input` once the shortcuts before `r` had their turn; those
/// before `texts` have taken the text as well that their presses type.
spec fn stage(t: Taken, input: InputView, binds: KeybindsView, r: int, texts: int) -> bool {
    &&& t.input.events == input.events
    &&& t.input.wf()
    &&& forall|i: int|
        0 <= i < input.events.len() ==> #[trigger] t.input.kept[i] == (input.kept[i]
            && !wanted_before(binds, r, input.events[i]) && !(input.events[i] is Text
            && typed_between(input, binds, 0, texts)))
    &&& asked_before(t.commands, input, binds, r)
}

/// One more shortcut has its turn.
proof fn lemma_turn(
    t: Taken,
    u: Taken,
    input: InputView,
    binds: KeybindsView,
    r: int,
    texts: int,
    taken: spec_fn(EventView) -> bool,
)
    requires
        input.wf(),
        0 <= texts <= r,
        stage(t, input, binds, r, texts),
        forall|e: EventView| #[trigger] taken(e) <==> wants(binds, r, e),
        u.input == t.input.without(taken),
        u.commands == asked(t.commands, t.input.any(taken), command_at(r)),
    ensures
        stage(u, input, binds, r + 1, texts),
        t.input.any(taken) <==> is_hit(input, binds, r),
{
    assert forall|i: int| 0 <= i < input.events.len() implies #[trigger] u.input.kept[i] == (
    input.kept[i] && !wanted_before(binds, r + 1, input.events[i]) && !(input.events[i] is Text
        && typed_between(input, binds, 0, texts))) by {
        let e = input.events[i];
        assert(u.input.kept[i] == (t.input.kept[i] && !taken(e)));
        if wanted_before(binds, r + 1, e) {
            let q = choose|q: int| 0 <= q < r + 1 && #[trigger] wants(binds, q, e);
            if q < r {
                assert(wanted_before(binds, r, e));
            }
        }
        if wanted_before(binds, r, e) {
            let q = choose|q: int| 0 <= q < r && #[trigger] wants(binds, q, e);
            assert(0 <= q < r + 1);
        }
        if taken(e) {
            assert(wants(binds, r, e));
        }
    }
    if t.input.any(taken) {
        let i = choose|i: int|
            0 <= i < t.input.events.len() && #[trigger] t.input.kept[i] && taken(
                t.input.events[i],
            );
        assert(goes_to(input, binds, i, r));
        assert(u.commands.drop_last() =~= t.commands);
    }
    if is_hit(input, binds, r) {
        let i = choose|i: int| #[trigger] goes_to(input, binds, i, r);
        assert(t.input.kept[i]);
        assert(taken(t.input.events[i]));
    }
}

/// The shortcuts up to `to` have taken the text that their presses type.
proof fn lemma_text_taken(
    t: Taken,
    u: Taken,
    input: InputView,
    binds: KeybindsView,
    r: int,
    texts: int,
    drop: bool,
)
    requires
        input.wf(),
        0 <= texts <= r,
        stage(t, input, binds, r, texts),
        drop <==> typed_between(input, binds, texts, r),
        u.commands == t.commands,
        u.input == (if drop {
            t.input.without(typed_text())
        } else {
            t.input
        }),
    ensures
        stage(u, input, binds, r, r),
{
    if typed_between(input, binds, 0, r) {
        let q = choose|q: int|
            0 <= q < r && #[trigger] is_hit(input, binds, q) && also_types(binds, q);
        if q < texts {
            assert(typed_between(input, binds, 0, texts));
        } else {
            assert(typed_between(input, binds, texts, r));
        }
    }
    if typed_between(input, binds, 0, texts) {
        let q = choose|q: int|
            0 <= q < texts && #[trigger] is_hit(input, binds, q) && also_types(binds, q);
        assert(typed_between(input, binds, 0, r));
    }
    if typed_between(input, binds, texts, r) {
        let q = choose|q: int|
            texts <= q < r && #[trigger] is_hit(input, binds, q) && also_types(binds, q);
        assert(typed_between(input, binds, 0, r));
    }
    assert forall|i: int| 0 <= i < input.events.len() implies #[trigger] u.input.kept[i] == (
    input.kept[i] && !wanted_before(binds, r, input.events[i]) && !(input.events[i] is Text
        && typed_between(input, binds, 0, r))) by {
        assert(t.input.kept[i] == t.input.kept[i]);
    }
}

/// A rebindable shortcut has its turn.
proof fn lemma_bound_turn(
    t: Taken,
    input: InputView,
    binds: KeybindsView,
    r: int,
    spec: KeySpecView,
)
    requires
        input.wf(),
        0 <= r,
        stage(t, input, binds, r, r),
        forall|key: Seq<char>, held: Modifiers| #[trigger]
            wants_press(binds, r, key, held) <==> key == spec.key && exact_match(held, spec.mods),
        also_types(binds, r) == spec.mods.alt,
    ensures
        stage(bound(t, spec, command_at(r)), input, binds, r + 1, r + 1),
{
    let taken = exact_press(spec.mods, spec.key);
    let mid = Taken {
        input: t.input.without(taken),
        commands: asked(t.commands, t.input.any(taken), command_at(r)),
    };
    lemma_turn(t, mid, input, binds, r, r, taken);
    let drop = spec_hit(t.input, spec) && spec.mods.alt;
    assert(drop <==> typed_between(input, binds, r, r + 1));
    lemma_text_taken(mid, bound(t, spec, command_at(r)), input, binds, r + 1, r, drop);
}

/// A fixed shortcut has its turn.
proof fn lemma_fixed_turn(
    t: Taken,
    input: InputView,
    binds: KeybindsView,
    r: int,
    texts: int,
    mods: Modifiers,
    name: Seq<char>,
)
    requires
        input.wf(),
        0 <= texts <= r,
        stage(t, input, binds, r, texts),
        forall|key: Seq<char>, held: Modifiers| #[trigger]
            wants_press(binds, r, key, held) <==> key == name && loose_match(held, mods),
    ensures
        stage(fixed(t, mods, name, command_at(r)), input, binds, r + 1, texts),
{
    let taken = loose_press(mods, name);
    lemma_turn(t, fixed(t, mods, name, command_at(r)), input, binds, r, texts, taken);
}

/// A shortcut that types nothing leaves the text.
proof fn lemma_no_text(t: Taken, input: InputView, binds: KeybindsView, r: int)
    requires
        input.wf(),
        0 <= r,
        stage(t, input, binds, r + 1, r),
        !also_types(binds, r),
    ensures
        stage(t, input, binds, r + 1, r + 1),
{
    assert(!typed_between(input, binds, r, r + 1));
    lemma_text_taken(t, t, input, binds, r + 1, r, false);
}

proof fn lemma_number_key(key: Seq<char>, d: int)
    requires
        1 <= d <= 9,
    ensures
        is_number(key, d) <==> key == number_key((d - 1) as nat),
{
    assert(number_key((d - 1) as nat)[0] as int == '0' as int + d);
    if is_number(key, d) {
        assert(key =~= number_key((d - 1) as nat));
    }
}

proof fn lemma_tab_turns(t: Taken, input: InputView, binds: KeybindsView, n: nat)
    requires
        input.wf(),
        n <= 9,
        stage(t, input, binds, 1, 1),
    ensures
        stage(tab_numbers(t, n), input, binds, n as int + 1, n as int + 1),
    decreases n,
{
    if n > 0 {
        let i = (n - 1) as nat;
        lemma_tab_turns(t, input, binds, i);
        assert forall|key: Seq<char>, held: Modifiers| #[trigger]
            wants_press(binds, n as int, key, held) <==> key == number_key(i) && loose_match(
                held,
                command_mod(),
            ) by {
            lemma_number_key(key, n as int);
        }
        lemma_fixed_turn(
            tab_numbers(t, i),
            input,
            binds,
            n as int,
            n as int,
            command_mod(),
            number_key(i),
        );
        lemma_no_text(tab_numbers(t, n), input, binds, n as int);
    }
}

proof fn lemma_pane_turns(t: Taken, input: InputView, binds: KeybindsView, n: nat)
    requires
        input.wf(),
        n <= 9,
        stage(t, input, binds, 10, 10),
    ensures
        stage(pane_numbers(t, n), input, binds, n as int + 10, 10),
        pane_numbers(t, n).commands.len() >= t.commands.len(),
        pane_numbers(t, n).commands.len() > t.commands.len() <==> typed_between(
            input,
            binds,
            10,
            n as int + 10,
        ),
    decreases n,
{
    if n > 0 {
        let i = (n - 1) as nat;
        let r = n as int + 9;
        lemma_pane_turns(t, input, binds, i);
        assert forall|key: Seq<char>, held: Modifiers| #[trigger]
            wants_press(binds, r, key, held) <==> key == number_key(i) && loose_match(
                held,
                alt_mod(),
            ) by {
            lemma_number_key(key, n as int);
        }
        let before = pane_numbers(t, i);
        lemma_fixed_turn(before, input, binds, r, 10, alt_mod(), number_key(i));
        lemma_turn(
            before,
            pane_numbers(t, n),
            input,
            binds,
            r,
            10,
            loose_press(alt_mod(), number_key(i)),
        );
        if typed_between(input, binds, 10, r + 1) {
            let q = choose|q: int|
                10 <= q < r + 1 && #[trigger] is_hit(input, binds, q) && also_types(binds, q);
            if q < r {
                assert(typed_between(input, binds, 10, r));
            }
        }
        if typed_between(input, binds, 10, r) {
            let q = choose|q: int|
                10 <= q < r && #[trigger] is_hit(input, binds, q) && also_types(binds, q);
            assert(typed_between(input, binds, 10, r + 1));
        }
    }
}

proof fn lemma_last_turns(t: Taken, input: InputView, binds: KeybindsView)
    requires
        input.wf(),
        stage(t, input, binds, 19, 19),
    ensures
        stage(moves(pane_shortcuts(t, binds)), input, binds, 28, 28),
{
    let a = bound(t, binds.split_down, Command::Split(Axis::Vertical));
    lemma_bound_turn(t, input, binds, 19, binds.split_down);
    let b = bound(a, binds.split_right, Command::Split(Axis::Horizontal));
    lemma_bound_turn(a, input, binds, 20, binds.split_right);
    let c = bound(b, binds.close_pane, Command::ClosePane);
    lemma_bound_turn(b, input, binds, 21, binds.close_pane);
    let d = bound(c, binds.clear, Command::Clear);
    lemma_bound_turn(c, input, binds, 22, binds.clear);
    let e = bound(d, binds.find, Command::Find);
    lemma_bound_turn(d, input, binds, 23, binds.find);
    let mods = either(command_mod(), alt_mod());
    lemma_fixed_turn(e, input, binds, 24, 24, mods, "Left"@);
    let f = fixed(e, mods, "Left"@, Command::Move(Dir::Left));
    lemma_no_text(f, input, binds, 24);
    lemma_fixed_turn(f, input, binds, 25, 25, mods, "Right"@);
    let g = fixed(f, mods, "Right"@, Command::Move(Dir::Right));
    lemma_no_text(g, input, binds, 25);
    lemma_fixed_turn(g, input, binds, 26, 26, mods, "Up"@);
    let h = fixed(g, mods, "Up"@, Command::Move(Dir::Up));
    lemma_no_text(h, input, binds, 26);
    lemma_fixed_turn(h, input, binds, 27, 27, mods, "Down"@);
    lemma_no_text(fixed(h, mods, "Down"@, Command::Move(Dir::Down)), input, binds, 27);
}

proof fn lemma_all_turns(input: InputView, binds: KeybindsView)
    requires
        input.wf(),
    ensures
        stage(shortcuts_of(input, binds), input, binds, 28, 28),
{
    let start = Taken { input, commands: Seq::empty() };
    assert(stage(start, input, binds, 0, 0));
    lemma_bound_turn(start, input, binds, 0, binds.new_tab);
    let t = bound(start, binds.new_tab, Command::NewTab);
    lemma_tab_turns(t, input, binds, 9);
    let u = tab_numbers(t, 9);
    lemma_pane_turns(u, input, binds, 9);
    let v = pane_numbers(u, 9);
    lemma_text_taken(
        v,
        pane_switches(u),
        input,
        binds,
        19,
        10,
        v.commands.len() > u.commands.len(),
    );
    lemma_last_turns(pane_switches(u), input, binds);
}

/// Every press goes to the first shortcut that wants it, and the shortcuts that got one ask
/// for what they stand for, each once, in the order of their turns.
pub proof fn law_presses_ask(input: InputView, binds: KeybindsView)
    requires
        input.wf(),
    ensures
        asked_before(shortcuts_of(input, binds).commands, input, binds, shortcut_count()),
{
    lemma_all_turns(input, binds);
}

/// A shortcut asks for what it stands for just where a press goes to it.
pub proof fn law_hit_is_asked(
    commands: Seq<Command>,
    input: InputView,
    binds: KeybindsView,
    n: int,
    r: int,
)
    requires
        asked_before(commands, input, binds, n),
        0 <= r < n <= shortcut_count(),
    ensures
        commands.contains(command_at(r)) <==> is_hit(input, binds, r),
    decreases n,
{
    lemma_asked_below(commands, input, binds, n);
    if is_hit(input, binds, n - 1) {
        let last = commands.len() - 1;
        assert(commands[last] == command_at(n - 1));
        if r < n - 1 {
            let init = commands.drop_last();
            law_hit_is_asked(init, input, binds, n - 1, r);
            if commands.contains(command_at(r)) {
                let k = choose|k: int| 0 <= k < commands.len() && commands[k] == command_at(r);
                assert(k < last);
                assert(init[k] == command_at(r));
            }
            if init.contains(command_at(r)) {
                let k = choose|k: int| 0 <= k < init.len() && init[k] == command_at(r);
                assert(commands[k] == command_at(r));
            }
        }
    } else if r < n - 1 {
        law_hit_is_asked(commands, input, binds, n - 1, r);
    } else {
        lemma_asked_below(commands, input, binds, n - 1);
    }
}

/// What the shortcuts before `n` ask for is what one of them stands for.
proof fn lemma_asked_below(commands: Seq<Command>, input: InputView, binds: KeybindsView, n: int)
    requires
        asked_before(commands, input, binds, n),
        n <= shortcut_count(),
    ensures
        forall|k: int|
            0 <= k < commands.len() ==> exists|q: int|
                0 <= q < n && #[trigger] commands[k] == #[trigger] command_at(q),
        forall|r: int| n <= r < shortcut_count() ==> !commands.contains(#[trigger] command_at(r)),
    decreases n,
{
    if n > 0 {
        if is_hit(input, binds, n - 1) {
            let init = commands.drop_last();
            lemma_asked_below(init, input, binds, n - 1);
            assert forall|k: int| 0 <= k < commands.len() implies exists|q: int|
                0 <= q < n && #[trigger] commands[k] == #[trigger] command_at(q) by {
                if k < init.len() {
                    assert(commands[k] == init[k]);
                    let q = choose|q: int|
                        0 <= q < n - 1 && #[trigger] init[k] == #[trigger] command_at(q);
                    assert(commands[k] == command_at(q));
                } else {
                    assert(commands[k] == command_at(n - 1));
                }
            }
        } else {
            lemma_asked_below(commands, input, binds, n - 1);
        }
    }
    assert forall|r: int| n <= r < shortcut_count() implies !commands.contains(
        #[trigger] command_at(r),
    ) by {
        if commands.contains(command_at(r)) {
            let k = choose|k: int| 0 <= k < commands.len() && commands[k] == command_at(r);
            let q = choose|q: int|
                0 <= q < n && #[trigger] commands[k] == #[trigger] command_at(q);
            assert(q != r);
        }
    }
}

/// What is left for the terminals: every event that no shortcut wants. Typed text goes only
/// where a press with alt went to a shortcut, since that press typed it.
pub proof fn law_presses_leave(input: InputView, binds: KeybindsView, i: int)
    requires
        input.wf(),
        0 <= i < input.events.len(),
    ensures
        shortcuts_of(input, binds).input.events == input.events,
        shortcuts_of(input, binds).input.kept[i] <==> input.kept[i] && !wanted_before(
            binds,
            shortcut_count(),
            input.events[i],
        ) && !(input.events[i] is Text && typed_between(input, binds, 0, shortcut_count())),
{
    lemma_all_turns(input, binds);
}

/// At the start of a frame every event is there, in order, and none is taken yet.
pub proof fn law_fresh_input(events: Seq<EventView>, i: int)
    requires
        0 <= i < events.len(),
    ensures
        fresh_input(events).wf(),
        fresh_input(events).events == events,
        fresh_input(events).kept[i],
{
}

} // verus!
