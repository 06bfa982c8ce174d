//! Keyboard shortcuts: what a binding is, how one is written, and which key
//! presses it takes.

use vstd::prelude::*;

use crate::case::{
    ascii_upper, is_ascii_text, lemma_titled_ascii, lower_text, titled, to_lowercase, to_title,
};
use crate::keynames::{
    any_name, find_listed, is_letter, key_from_name, key_name_list, key_names, key_of_name,
    law_key_names_any_case, law_names_apart, law_no_key_found, law_second_names_found, lemma_name,
    lemma_second_name, lemma_single, lemma_spelling, lemma_unlisted, letter, listed, name_count,
    name_view, respell, second_names, spelling,
};
use crate::number::{ascii_lower, ascii_lowered, is_digit, lower};
use crate::text::{
    find, is_tight, joined, lemma_find, lemma_split_joined, lemma_trimmed, same_text, split,
    split_at_each, texts, to_chars, to_text, trim, trim_end, trim_start, trimmed, views,
};

verus! {

/// The modifier keys that are held, or that a binding asks for.
#[derive(Clone, Copy, Debug, PartialEq, Eq, Structural)]
pub struct Modifiers {
    pub alt: bool,
    pub ctrl: bool,
    pub shift: bool,
    /// The Command key of a Mac.
    pub mac_cmd: bool,
    /// The Command key on a Mac, the control key elsewhere.
    pub command: bool,
}

/// No modifier.
pub open spec fn no_mods() -> Modifiers {
    Modifiers { alt: false, ctrl: false, shift: false, mac_cmd: false, command: false }
}

/// The modifier `alt` alone.
pub open spec fn alt_mod() -> Modifiers {
    Modifiers { alt: true, ..no_mods() }
}

/// The modifier `ctrl` alone.
pub open spec fn ctrl_mod() -> Modifiers {
    Modifiers { ctrl: true, ..no_mods() }
}

/// The modifier `shift` alone.
pub open spec fn shift_mod() -> Modifiers {
    Modifiers { shift: true, ..no_mods() }
}

/// The modifier `command` alone.
pub open spec fn command_mod() -> Modifiers {
    Modifiers { command: true, ..no_mods() }
}

/// The modifiers that are in `a` or in `b`.
pub open spec fn either(a: Modifiers, b: Modifiers) -> Modifiers {
    Modifiers {
        alt: a.alt || b.alt,
        ctrl: a.ctrl || b.ctrl,
        shift: a.shift || b.shift,
        mac_cmd: a.mac_cmd || b.mac_cmd,
        command: a.command || b.command,
    }
}

/// Whether the control and command keys of `held` are those that `pattern` asks
/// for. A pattern with `mac_cmd` wants that key and the control key as it says. A
/// pattern without control and command wants neither; otherwise it wants those
/// that it names, and does not mind the other.
pub open spec fn cmd_ctrl_match(held: Modifiers, pattern: Modifiers) -> bool {
    if pattern.mac_cmd {
        held.mac_cmd && pattern.ctrl == held.ctrl
    } else if !pattern.ctrl && !pattern.command {
        !held.ctrl && !held.command
    } else {
        (pattern.ctrl ==> held.ctrl) && (pattern.command ==> held.command)
    }
}

/// Whether `held` is what `pattern` asks for, alt and shift exactly.
pub open spec fn exact_match(held: Modifiers, pattern: Modifiers) -> bool {
    pattern.alt == held.alt && pattern.shift == held.shift && cmd_ctrl_match(held, pattern)
}

/// Whether `held` is what `pattern` asks for, with more alt or shift allowed.
pub open spec fn loose_match(held: Modifiers, pattern: Modifiers) -> bool {
    (pattern.alt ==> held.alt) && (pattern.shift ==> held.shift) && cmd_ctrl_match(held, pattern)
}

impl Modifiers {
    /// No modifier.
    pub fn none() -> (r: Modifiers)
        ensures
            r == no_mods(),
    {
        Modifiers { alt: false, ctrl: false, shift: false, mac_cmd: false, command: false }
    }

    /// The modifier `alt` alone.
    pub fn alt() -> (r: Modifiers)
        ensures
            r == alt_mod(),
    {
        Modifiers { alt: true, ctrl: false, shift: false, mac_cmd: false, command: false }
    }

    /// The modifier `ctrl` alone.
    pub fn ctrl() -> (r: Modifiers)
        ensures
            r == ctrl_mod(),
    {
        Modifiers { alt: false, ctrl: true, shift: false, mac_cmd: false, command: false }
    }

    /// The modifier `shift` alone.
    pub fn shift() -> (r: Modifiers)
        ensures
            r == shift_mod(),
    {
        Modifiers { alt: false, ctrl: false, shift: true, mac_cmd: false, command: false }
    }

    /// The modifier `command` alone.
    pub fn command() -> (r: Modifiers)
        ensures
            r == command_mod(),
    {
        Modifiers { alt: false, ctrl: false, shift: false, mac_cmd: false, command: true }
    }

    /// The modifiers of both.
    pub fn plus(self, other: Modifiers) -> (r: Modifiers)
        ensures
            r == either(self, other),
    {
        Modifiers {
            alt: self.alt || other.alt,
            ctrl: self.ctrl || other.ctrl,
            shift: self.shift || other.shift,
            mac_cmd: self.mac_cmd || other.mac_cmd,
            command: self.command || other.command,
        }
    }
}

/// Calls `egui::Modifiers::matches_exact` on the same modifiers: alt and shift
/// have to be as the pattern says, control and command have to match.
#[verifier::external_body]
pub(crate) fn matches_exact(held: Modifiers, pattern: Modifiers) -> (r: bool)
    ensures
        r == exact_match(held, pattern),
{
    let Modifiers { alt, ctrl, shift, mac_cmd, command } = held;
    let held = egui::Modifiers { alt, ctrl, shift, mac_cmd, command };
    let Modifiers { alt, ctrl, shift, mac_cmd, command } = pattern;
    held.matches_exact(egui::Modifiers { alt, ctrl, shift, mac_cmd, command })
}

/// Calls `egui::Modifiers::matches_logically` on the same modifiers: alt and shift
/// have to be held where the pattern has them, control and command have to match.
#[verifier::external_body]
pub(crate) fn matches_logically(held: Modifiers, pattern: Modifiers) -> (r: bool)
    ensures
        r == loose_match(held, pattern),
{
    let Modifiers { alt, ctrl, shift, mac_cmd, command } = held;
    let held = egui::Modifiers { alt, ctrl, shift, mac_cmd, command };
    let Modifiers { alt, ctrl, shift, mac_cmd, command } = pattern;
    held.matches_logically(egui::Modifiers { alt, ctrl, shift, mac_cmd, command })
}

/// Whether the modifiers that `query` asks for are among those held. Control and
/// command stand for each other, and so do command and the Command key of a Mac.
pub open spec fn among(held: Modifiers, query: Modifiers) -> bool {
    let ctrl = held.ctrl || held.command;
    let cmd = held.mac_cmd || held.command;
    &&& query.alt ==> held.alt
    &&& query.shift ==> held.shift
    &&& if ctrl && (query.ctrl || query.command) {
        query.mac_cmd ==> cmd
    } else if cmd && (query.mac_cmd || query.command) {
        !query.ctrl
    } else {
        !query.ctrl && !query.command && !query.mac_cmd
    }
}

/// Calls `egui::Modifiers::contains` on the same modifiers: those of the query have to
/// be held, where control and command stand for each other.
#[verifier::external_body]
pub(crate) fn contains(held: Modifiers, query: Modifiers) -> (r: bool)
    ensures
        r == among(held, query),
{
    let Modifiers { alt, ctrl, shift, mac_cmd, command } = held;
    let held = egui::Modifiers { alt, ctrl, shift, mac_cmd, command };
    let Modifiers { alt, ctrl, shift, mac_cmd, command } = query;
    held.contains(egui::Modifiers { alt, ctrl, shift, mac_cmd, command })
}

/// A keybinding: the modifiers that must be held, and the name of the key.
#[derive(Debug)]
pub struct KeySpec {
    pub mods: Modifiers,
    /// The name that `egui` has for the key, such as "T" or "Enter".
    pub key: String,
}

/// What a `KeySpec` holds.
pub struct KeySpecView {
    pub mods: Modifiers,
    pub key: Seq<char>,
}

impl View for KeySpec {
    type V = KeySpecView;

    open spec fn view(&self) -> KeySpecView {
        KeySpecView { mods: self.mods, key: self.key@ }
    }
}

impl Clone for KeySpec {
    fn clone(&self) -> (r: KeySpec)
        ensures
            r@ == self@,
    {
        KeySpec { mods: self.mods, key: self.key.clone() }
    }
}

/// The rebindable shortcuts. The numbered tab and pane switches and the arrow
/// navigation stay fixed.
#[derive(Debug)]
pub struct Keybinds {
    pub new_tab: KeySpec,
    pub split_right: KeySpec,
    pub split_down: KeySpec,
    pub close_pane: KeySpec,
    pub find: KeySpec,
    pub clear: KeySpec,
}

/// What a `Keybinds` holds.
pub struct KeybindsView {
    pub new_tab: KeySpecView,
    pub split_right: KeySpecView,
    pub split_down: KeySpecView,
    pub close_pane: KeySpecView,
    pub find: KeySpecView,
    pub clear: KeySpecView,
}

impl View for Keybinds {
    type V = KeybindsView;

    open spec fn view(&self) -> KeybindsView {
        KeybindsView {
            new_tab: self.new_tab@,
            split_right: self.split_right@,
            split_down: self.split_down@,
            close_pane: self.close_pane@,
            find: self.find@,
            clear: self.clear@,
        }
    }
}

impl Clone for Keybinds {
    fn clone(&self) -> (r: Keybinds)
        ensures
            r@ == self@,
    {
        Keybinds {
            new_tab: self.new_tab.clone(),
            split_right: self.split_right.clone(),
            split_down: self.split_down.clone(),
            close_pane: self.close_pane.clone(),
            find: self.find.clone(),
            clear: self.clear.clone(),
        }
    }
}

/// The bindings that hold where the config names no others.
pub open spec fn default_keybinds() -> KeybindsView {
    KeybindsView {
        new_tab: KeySpecView { mods: command_mod(), key: "T"@ },
        split_right: KeySpecView { mods: command_mod(), key: "D"@ },
        split_down: KeySpecView { mods: either(command_mod(), shift_mod()), key: "D"@ },
        close_pane: KeySpecView { mods: command_mod(), key: "W"@ },
        find: KeySpecView { mods: command_mod(), key: "F"@ },
        clear: KeySpecView { mods: command_mod(), key: "K"@ },
    }
}

impl Default for Keybinds {
    fn default() -> (r: Keybinds)
        ensures
            r@ == default_keybinds(),
    {
        let cmd = Modifiers::command();
        Keybinds {
            new_tab: KeySpec { mods: cmd, key: "T".to_owned() },
            split_right: KeySpec { mods: cmd, key: "D".to_owned() },
            split_down: KeySpec { mods: cmd.plus(Modifiers::shift()), key: "D".to_owned() },
            close_pane: KeySpec { mods: cmd, key: "W".to_owned() },
            find: KeySpec { mods: cmd, key: "F".to_owned() },
            clear: KeySpec { mods: cmd, key: "K".to_owned() },
        }
    }
}

/// The modifier that a lower-case word names.
pub open spec fn modifier_word(word: Seq<char>) -> Option<Modifiers> {
    if word == "cmd"@ || word == "command"@ || word == "super"@ || word == "win"@ || word
        == "meta"@ {
        Some(command_mod())
    } else if word == "ctrl"@ || word == "control"@ {
        Some(ctrl_mod())
    } else if word == "alt"@ || word == "opt"@ || word == "option"@ {
        Some(alt_mod())
    } else if word == "shift"@ {
        Some(shift_mod())
    } else {
        None
    }
}

/// The modifiers that lower-case words name together, if each of them names one.
pub open spec fn modifier_words(words: Seq<Seq<char>>) -> Option<Modifiers>
    decreases words.len(),
{
    if words.len() == 0 {
        Some(no_mods())
    } else {
        match (modifier_words(words.drop_last()), modifier_word(words.last())) {
            (Some(mods), Some(m)) => Some(either(mods, m)),
            _ => None,
        }
    }
}

/// The modifier that a lower-case word names.
pub fn modifier_named(word: &str) -> (r: Option<Modifiers>)
    ensures
        r == modifier_word(word@),
{
    if same_text(word, "cmd") || same_text(word, "command") || same_text(word, "super")
        || same_text(word, "win") || same_text(word, "meta") {
        Some(Modifiers::command())
    } else if same_text(word, "ctrl") || same_text(word, "control") {
        Some(Modifiers::ctrl())
    } else if same_text(word, "alt") || same_text(word, "opt") || same_text(word, "option") {
        Some(Modifiers::alt())
    } else if same_text(word, "shift") {
        Some(Modifiers::shift())
    } else {
        None
    }
}

/// The pieces of a written keybinding: each trimmed, the empty ones left out.
pub open spec fn tokens(pieces: Seq<Seq<char>>) -> Seq<Seq<char>>
    decreases pieces.len(),
{
    if pieces.len() == 0 {
        Seq::empty()
    } else {
        let rest = tokens(pieces.drop_last());
        let last = trimmed(pieces.last());
        if last.len() == 0 {
            rest
        } else {
            rest.push(last)
        }
    }
}

/// The lower-case forms of `words`.
pub open spec fn lower_all(words: Seq<Seq<char>>) -> Seq<Seq<char>> {
    words.map_values(|w: Seq<char>| lower_text(w))
}

/// The key that a token names: a letter or a digit is the key that types it. Anything
/// else is the own name of a key, in whatever case; or a second name, in the spelling that
/// it has, which is one of several words, in lower case, or in title case.
pub open spec fn key_of_token(tok: Seq<char>) -> Option<Seq<char>> {
    let low = ascii_lowered(tok);
    if tok.len() == 1 && (is_letter(tok[0]) || is_digit(tok[0])) {
        Some(seq![ascii_upper(tok[0])])
    } else if listed(key_name_list(), low) is Some {
        listed(key_name_list(), low)
    } else if spelling(low) is Some {
        key_of_name(spelling(low)->0)
    } else if key_of_name(low) is Some {
        key_of_name(low)
    } else if tok.len() == 0 {
        None
    } else {
        key_of_name(titled(low))
    }
}

/// The binding made of modifiers and a key, if both are there.
pub open spec fn binding(mods: Option<Modifiers>, key: Option<Seq<char>>) -> Option<KeySpecView> {
    match (mods, key) {
        (Some(mods), Some(key)) => Some(KeySpecView { mods, key }),
        _ => None,
    }
}

/// The binding that a text such as "cmd+shift+d" writes: the last token is the
/// key, the others are modifiers.
pub open spec fn keyspec_of(s: Seq<char>) -> Option<KeySpecView> {
    let toks = tokens(split(s, '+'));
    if toks.len() == 0 {
        None
    } else {
        binding(
            modifier_words(lower_all(toks.drop_last())),
            key_of_token(toks.last()),
        )
    }
}

/// `spec`, if there is one, as what it holds.
pub open spec fn spec_view(spec: Option<KeySpec>) -> Option<KeySpecView> {
    match spec {
        Some(s) => Some(s@),
        None => None,
    }
}

/// Finds the key that a token names, in whatever case, so that "enter", "esc" and
/// "pageup" work too.
pub fn parse_key(tok: &str) -> (r: Option<String>)
    ensures
        name_view(r) == key_of_token(tok@),
        r matches Some(key) ==> key_name_list().contains(key@),
{
    let chars = to_chars(tok);
    if chars.len() == 1 && (letter(chars[0]) || ('0' <= chars[0] && chars[0] <= '9')) {
        assert(tok@ =~= seq![tok@[0]]);
        proof {
            if is_digit(tok@[0]) {
                lemma_single(tok@[0]);
            }
        }
        return key_from_name(tok);
    }
    let low = lower(chars.as_slice());
    let name = find_listed(&key_names(), low.as_slice());
    if name.is_some() {
        return name;
    }
    if let Some(spelt) = respell(low.as_slice()) {
        return key_from_name(spelt);
    }
    let text = to_text(low.as_slice());
    let name = key_from_name(text.as_str());
    if name.is_some() {
        return name;
    }
    if low.len() == 0 {
        return None;
    }
    let title = to_title(low.as_slice());
    let title = to_text(title.as_slice());
    key_from_name(title.as_str())
}

/// Makes a binding of lower-case modifier words and a key.
pub fn bind(words: &Vec<String>, key: Option<String>) -> (r: Option<KeySpec>)
    ensures
        spec_view(r) == binding(modifier_words(texts(words@)), name_view(key)),
{
    let mut mods = Modifiers::none();
    let mut i: usize = 0;
    while i < words.len()
        invariant
            i <= words@.len(),
            modifier_words(texts(words@).take(i as int)) == Some(mods),
        decreases words@.len() - i,
    {
        let ghost upto = texts(words@).take(i + 1);
        assert(upto.drop_last() == texts(words@).take(i as int));
        assert(upto.last() == words@[i as int]@);
        match modifier_named(words[i].as_str()) {
            Some(m) => {
                mods = mods.plus(m);
            },
            None => {
                proof {
                    lemma_unknown_word(texts(words@), i as int);
                }
                return None;
            },
        }
        i += 1;
    }
    assert(texts(words@).take(i as int) == texts(words@));
    match key {
        Some(key) => Some(KeySpec { mods, key }),
        None => None,
    }
}

/// One word that names no modifier spoils the whole.
pub proof fn lemma_unknown_word(words: Seq<Seq<char>>, i: int)
    requires
        0 <= i < words.len(),
        modifier_word(words[i]) is None,
    ensures
        modifier_words(words) is None,
    decreases words.len(),
{
    if i < words.len() - 1 {
        lemma_unknown_word(words.drop_last(), i);
    }
}

fn read_tokens(s: &[char]) -> (r: Vec<String>)
    ensures
        texts(r@) == tokens(split(s@, '+')),
{
    let pieces = split_at_each(s, '+');
    let mut out: Vec<String> = Vec::new();
    let mut i: usize = 0;
    assert(texts(out@) == tokens(views(pieces@).take(0)));
    while i < pieces.len()
        invariant
            i <= pieces@.len(),
            texts(out@) == tokens(views(pieces@).take(i as int)),
        decreases pieces@.len() - i,
    {
        let ghost upto = views(pieces@).take(i + 1);
        assert(upto.drop_last() == views(pieces@).take(i as int));
        assert(upto.last() == pieces@[i as int]@);
        let piece = trim(pieces[i]);
        if piece.len() > 0 {
            let ghost before = out@;
            out.push(to_text(piece));
            assert(texts(out@) == texts(before).push(piece@));
        }
        i += 1;
    }
    assert(views(pieces@).take(i as int) == views(pieces@));
    out
}

/// Parses a keybinding like "cmd+shift+d". Modifier aliases: cmd / command / super
/// / win / meta, ctrl / control, alt / opt / option, shift. The final token is the key
/// (a letter, digit, or a key name like "Enter"). Case-insensitive. Returns `None` on
/// any unrecognised token.
pub fn parse_keyspec(s: &str) -> (r: Option<KeySpec>)
    ensures
        spec_view(r) == keyspec_of(s@),
{
    let chars = to_chars(s);
    let mut toks = read_tokens(chars.as_slice());
    let ghost all = texts(toks@);
    match toks.pop() {
        None => None,
        Some(key_tok) => {
            assert(texts(toks@) == all.drop_last());
            assert(key_tok@ == all.last());
            let mut words: Vec<String> = Vec::new();
            let mut i: usize = 0;
            while i < toks.len()
                invariant
                    i <= toks@.len(),
                    texts(words@) == lower_all(texts(toks@)).take(i as int),
                decreases toks@.len() - i,
            {
                let ghost before = texts(words@);
                words.push(to_lowercase(toks[i].as_str()));
                assert(texts(words@) == before.push(lower_text(texts(toks@)[i as int])));
                i += 1;
                assert(texts(words@) == lower_all(texts(toks@)).take(i as int));
            }
            assert(texts(words@) == lower_all(texts(toks@)));
            bind(&words, parse_key(key_tok.as_str()))
        },
    }
}

/// Every key is named by its own name, in whatever case.
pub proof fn law_key_by_its_name(tok: Seq<char>, i: int)
    requires
        0 <= i < key_name_list().len(),
        ascii_lowered(tok) == ascii_lowered(key_name_list()[i]),
    ensures
        key_of_token(tok) == Some(key_name_list()[i]),
{
    law_key_names_any_case(i);
    lemma_same_lower(tok, key_name_list()[i]);
    if tok.len() == 1 {
        lemma_name(i);
        assert(key_name_list()[i] =~= seq![ascii_upper(tok[0])]);
    }
}

/// A second name of a key names it too, in whatever case.
pub proof fn law_key_by_second_name(tok: Seq<char>, i: int)
    requires
        0 <= i < second_names().len(),
        ascii_lowered(tok) == ascii_lowered(second_names()[i].0),
    ensures
        key_of_token(tok) == Some(second_names()[i].1),
{
    let w = second_names()[i].0;
    let low = ascii_lowered(w);
    let n = i + 107;
    lemma_name(n);
    assert(any_name(n) == w);
    law_key_in_any_case(tok, w);
    assert forall|j: int| 0 <= j < key_name_list().len() implies ascii_lowered(
        #[trigger] key_name_list()[j],
    ) != low by {
        assert(any_name(j) == key_name_list()[j]);
        if ascii_lowered(key_name_list()[j]) == low {
            law_names_apart(n, j);
        }
    }
    lemma_unlisted(key_name_list(), low);
    law_second_names_found(i);
    lemma_second_name(n);
    lemma_lower_twice(w);
    if spelling(low) is None {
        if w.len() == 1 {
            assert(low =~= w);
        } else {
            assert(low[0] == ascii_lower(w[0]));
            assert forall|j: int| 0 <= j < name_count() implies #[trigger] any_name(j) != low by {
                lemma_name(j);
            }
            law_no_key_found(low);
            assert forall|k: int| 0 <= k < low.len() implies #[trigger] low[k] <= '\u{7f}' by {
                assert(low[k] == ascii_lower(w[k]));
            }
            lemma_titled_ascii(low);
            assert(titled(low) =~= w) by {
                assert forall|k: int| 0 <= k < w.len() implies titled(low)[k] == w[k] by {
                    assert(low[k] == ascii_lower(w[k]));
                }
            }
        }
    }
}

/// An ASCII token that is no name of a key, in whatever case, names none.
pub proof fn law_unknown_key(tok: Seq<char>)
    requires
        is_ascii_text(tok),
        forall|i: int|
            0 <= i < name_count() ==> ascii_lowered(#[trigger] any_name(i)) != ascii_lowered(tok),
    ensures
        key_of_token(tok) is None,
{
    let low = ascii_lowered(tok);
    lemma_name(0);
    lemma_lower_twice(tok);
    assert forall|i: int| 0 <= i < tok.len() implies #[trigger] low[i] <= '\u{7f}' by {
        assert(tok[i] <= '\u{7f}');
        assert(low[i] == ascii_lower(tok[i]));
    }
    assert(!(tok.len() == 1 && (is_letter(tok[0]) || is_digit(tok[0])))) by {
        if tok.len() == 1 && (is_letter(tok[0]) || is_digit(tok[0])) {
            let sign = seq![ascii_upper(tok[0])];
            lemma_single(ascii_upper(tok[0]));
            let i = choose|i: int| 0 <= i < key_name_list().len() && key_name_list()[i] == sign;
            assert(any_name(i) == sign);
            assert(ascii_lowered(sign) =~= low);
        }
    }
    assert forall|i: int| 0 <= i < key_name_list().len() implies ascii_lowered(
        #[trigger] key_name_list()[i],
    ) != low by {
        assert(any_name(i) == key_name_list()[i]);
    }
    lemma_unlisted(key_name_list(), low);
    if spelling(low) is Some {
        lemma_spelling(low);
    }
    lemma_no_key(low, tok);
    if tok.len() > 0 {
        lemma_titled_ascii(low);
        lemma_no_key(titled(low), tok);
    }
}

/// A text that is like one that is no name, but for the case, is no name.
proof fn lemma_no_key(name: Seq<char>, tok: Seq<char>)
    requires
        ascii_lowered(name) == ascii_lowered(tok),
        !(tok.len() == 1 && is_letter(tok[0])),
        forall|i: int|
            0 <= i < name_count() ==> ascii_lowered(#[trigger] any_name(i)) != ascii_lowered(tok),
    ensures
        key_of_name(name) is None,
{
    lemma_same_lower(name, tok);
    assert forall|i: int| 0 <= i < name_count() implies #[trigger] any_name(i) != name by {
        assert(ascii_lowered(any_name(i)) != ascii_lowered(tok));
    }
    law_no_key_found(name);
}

proof fn lemma_lower_twice(s: Seq<char>)
    ensures
        ascii_lowered(ascii_lowered(s)) == ascii_lowered(s),
{
    assert(ascii_lowered(ascii_lowered(s)) =~= ascii_lowered(s));
}

/// The case of a token makes no difference to the key that it names.
pub proof fn law_key_in_any_case(a: Seq<char>, b: Seq<char>)
    requires
        ascii_lowered(a) == ascii_lowered(b),
    ensures
        key_of_token(a) == key_of_token(b),
{
    lemma_same_lower(a, b);
}

/// Texts that are the same in lower case have the same length, and at each place
/// characters that are the same in lower case.
proof fn lemma_same_lower(a: Seq<char>, b: Seq<char>)
    requires
        ascii_lowered(a) == ascii_lowered(b),
    ensures
        a.len() == b.len(),
        forall|i: int| 0 <= i < a.len() ==> ascii_lower(#[trigger] a[i]) == ascii_lower(b[i]),
{
    assert(ascii_lowered(a).len() == a.len());
    assert(ascii_lowered(b).len() == b.len());
    assert forall|i: int| 0 <= i < a.len() implies ascii_lower(#[trigger] a[i]) == ascii_lower(
        b[i],
    ) by {
        assert(ascii_lowered(a)[i] == ascii_lower(a[i]));
        assert(ascii_lowered(b)[i] == ascii_lower(b[i]));
    }
}

/// The case of the modifiers makes no difference, nor does that of the key: texts whose
/// tokens differ in nothing else write the same binding.
pub proof fn law_case_makes_no_difference(a: Seq<char>, b: Seq<char>)
    requires
        tokens(split(a, '+')).len() > 0,
        tokens(split(b, '+')).len() > 0,
        lower_all(tokens(split(a, '+')).drop_last()) == lower_all(
            tokens(split(b, '+')).drop_last(),
        ),
        ascii_lowered(tokens(split(a, '+')).last()) == ascii_lowered(
            tokens(split(b, '+')).last(),
        ),
    ensures
        keyspec_of(a) == keyspec_of(b),
{
    law_key_in_any_case(tokens(split(a, '+')).last(), tokens(split(b, '+')).last());
}

/// `words`, each with its ASCII letters in lower case.
pub open spec fn ascii_lowered_all(words: Seq<Seq<char>>) -> Seq<Seq<char>> {
    words.map_values(|w: Seq<char>| ascii_lowered(w))
}

/// The case of a whole text makes no difference to the binding that it writes.
pub proof fn law_binding_in_any_case(a: Seq<char>, b: Seq<char>)
    requires
        is_ascii_text(a),
        ascii_lowered(a) == ascii_lowered(b),
    ensures
        keyspec_of(a) == keyspec_of(b),
{
    lemma_same_lower(a, b);
    assert(is_ascii_text(b)) by {
        assert forall|i: int| 0 <= i < b.len() implies #[trigger] b[i] <= '\u{7f}' by {
            assert(a[i] <= '\u{7f}');
        }
    }
    let (x, y) = (tokens(split(a, '+')), tokens(split(b, '+')));
    lemma_split_lower(a);
    lemma_split_lower(b);
    lemma_tokens_lower(split(a, '+'));
    lemma_tokens_lower(split(b, '+'));
    assert(ascii_lowered_all(x) == ascii_lowered_all(y));
    assert(x.len() == ascii_lowered_all(x).len() == y.len());
    assert forall|i: int| 0 <= i < x.len() implies ascii_lowered(#[trigger] x[i]) == ascii_lowered(
        y[i],
    ) by {
        assert(ascii_lowered_all(x)[i] == ascii_lowered_all(y)[i]);
    }
    if x.len() > 0 {
        lemma_ascii_split(a);
        lemma_ascii_split(b);
        lemma_ascii_tokens(split(a, '+'));
        lemma_ascii_tokens(split(b, '+'));
        assert(lower_all(x.drop_last()) =~= lower_all(y.drop_last())) by {
            assert forall|i: int| 0 <= i < x.len() - 1 implies lower_all(x.drop_last())[i]
                == lower_all(y.drop_last())[i] by {
                assert(x.drop_last()[i] == x[i]);
                assert(y.drop_last()[i] == y[i]);
                assert(is_ascii_text(x[i]));
                assert(is_ascii_text(y[i]));
            }
        }
        law_case_makes_no_difference(a, b);
    }
}

proof fn lemma_find_lower(s: Seq<char>)
    ensures
        find(ascii_lowered(s), '+') == find(s, '+'),
    decreases s.len(),
{
    if s.len() > 0 && s[0] != '+' {
        assert(ascii_lowered(s)[0] == ascii_lower(s[0]));
        assert(ascii_lowered(s).drop_first() =~= ascii_lowered(s.drop_first()));
        lemma_find_lower(s.drop_first());
    }
}

proof fn lemma_split_lower(s: Seq<char>)
    ensures
        split(ascii_lowered(s), '+') == ascii_lowered_all(split(s, '+')),
    decreases s.len(),
{
    let i = find(s, '+');
    lemma_find_lower(s);
    lemma_find(s, '+');
    if i < s.len() {
        lemma_split_lower(s.skip(i + 1));
        assert(ascii_lowered(s).take(i) =~= ascii_lowered(s.take(i)));
        assert(ascii_lowered(s).skip(i + 1) =~= ascii_lowered(s.skip(i + 1)));
    }
    assert(split(ascii_lowered(s), '+') =~= ascii_lowered_all(split(s, '+')));
}

proof fn lemma_trim_start_lower(s: Seq<char>)
    ensures
        trim_start(ascii_lowered(s)) == ascii_lowered(trim_start(s)),
    decreases s.len(),
{
    if s.len() > 0 {
        assert(ascii_lowered(s)[0] == ascii_lower(s[0]));
        assert(ascii_lowered(s).drop_first() =~= ascii_lowered(s.drop_first()));
        lemma_trim_start_lower(s.drop_first());
    }
}

proof fn lemma_trim_end_lower(s: Seq<char>)
    ensures
        trim_end(ascii_lowered(s)) == ascii_lowered(trim_end(s)),
    decreases s.len(),
{
    if s.len() > 0 {
        assert(ascii_lowered(s).last() == ascii_lower(s.last()));
        assert(ascii_lowered(s).drop_last() =~= ascii_lowered(s.drop_last()));
        lemma_trim_end_lower(s.drop_last());
    }
}

proof fn lemma_tokens_lower(pieces: Seq<Seq<char>>)
    ensures
        tokens(ascii_lowered_all(pieces)) == ascii_lowered_all(tokens(pieces)),
    decreases pieces.len(),
{
    if pieces.len() > 0 {
        lemma_tokens_lower(pieces.drop_last());
        lemma_trim_start_lower(pieces.last());
        lemma_trim_end_lower(trim_start(pieces.last()));
        assert(ascii_lowered_all(pieces).drop_last() =~= ascii_lowered_all(pieces.drop_last()));
        assert(trimmed(ascii_lowered(pieces.last())).len() == trimmed(pieces.last()).len());
    }
    assert(tokens(ascii_lowered_all(pieces)) =~= ascii_lowered_all(tokens(pieces)));
}

/// Whether every one of `words` is an ASCII text.
pub open spec fn all_ascii(words: Seq<Seq<char>>) -> bool {
    forall|i: int| 0 <= i < words.len() ==> is_ascii_text(#[trigger] words[i])
}

proof fn lemma_ascii_split(s: Seq<char>)
    requires
        is_ascii_text(s),
    ensures
        all_ascii(split(s, '+')),
    decreases s.len(),
{
    let i = find(s, '+');
    lemma_find(s, '+');
    if i < s.len() {
        let rest = s.skip(i + 1);
        assert forall|j: int| 0 <= j < rest.len() implies #[trigger] rest[j] <= '\u{7f}' by {
            assert(rest[j] == s[i + 1 + j]);
        }
        lemma_ascii_split(rest);
    }
}

proof fn lemma_ascii_trim_start(s: Seq<char>)
    requires
        is_ascii_text(s),
    ensures
        is_ascii_text(trim_start(s)),
    decreases s.len(),
{
    if s.len() > 0 {
        let rest = s.drop_first();
        assert forall|j: int| 0 <= j < rest.len() implies #[trigger] rest[j] <= '\u{7f}' by {
            assert(rest[j] == s[j + 1]);
        }
        lemma_ascii_trim_start(rest);
    }
}

proof fn lemma_ascii_trim_end(s: Seq<char>)
    requires
        is_ascii_text(s),
    ensures
        is_ascii_text(trim_end(s)),
    decreases s.len(),
{
    if s.len() > 0 {
        lemma_ascii_trim_end(s.drop_last());
    }
}

proof fn lemma_ascii_tokens(pieces: Seq<Seq<char>>)
    requires
        all_ascii(pieces),
    ensures
        all_ascii(tokens(pieces)),
    decreases pieces.len(),
{
    if pieces.len() > 0 {
        assert(all_ascii(pieces.drop_last()));
        lemma_ascii_tokens(pieces.drop_last());
        assert(is_ascii_text(pieces[pieces.len() - 1]));
        lemma_ascii_trim_start(pieces.last());
        lemma_ascii_trim_end(trim_start(pieces.last()));
    }
}

/// Tokens that are written with plus signs between them are read back, where none of them
/// holds a plus sign, or white space at an end.
pub proof fn law_tokens_read_back(toks: Seq<Seq<char>>)
    requires
        toks.len() > 0,
        forall|i: int|
            0 <= i < toks.len() ==> is_tight(#[trigger] toks[i]) && !toks[i].contains('+'),
    ensures
        tokens(split(joined(toks, seq!['+']), '+')) == toks,
{
    lemma_split_joined(toks, '+');
    lemma_tight_tokens(toks);
}

proof fn lemma_tight_tokens(toks: Seq<Seq<char>>)
    requires
        forall|i: int| 0 <= i < toks.len() ==> is_tight(#[trigger] toks[i]),
    ensures
        tokens(toks) == toks,
    decreases toks.len(),
{
    if toks.len() > 0 {
        let last = toks.last();
        lemma_tight_tokens(toks.drop_last());
        assert(is_tight(toks[toks.len() - 1]));
        assert(Seq::<char>::empty() + last + Seq::<char>::empty() =~= last);
        lemma_trimmed(Seq::empty(), last, Seq::empty());
        assert(toks.drop_last().push(last) =~= toks);
    } else {
        assert(tokens(toks) =~= toks);
    }
}

/// A text without a key, or with a modifier that is not known, writes no binding.
pub proof fn law_unknown_token(s: Seq<char>, i: int)
    requires
        ({
            let toks = tokens(split(s, '+'));
            ||| toks.len() == 0
            ||| 0 <= i < toks.len() - 1 && modifier_word(lower_text(toks[i])) is None
            ||| key_of_token(toks.last()) is None
        }),
    ensures
        keyspec_of(s) is None,
{
    let toks = tokens(split(s, '+'));
    let words = lower_all(toks.drop_last());
    if toks.len() > 0 && 0 <= i < toks.len() - 1 && modifier_word(lower_text(toks[i])) is None {
        assert(words[i] == lower_text(toks[i]));
        lemma_unknown_word(words, i);
    }
}

/// Each modifier by the words that name it, and no other word names one.
pub proof fn law_modifier_names(word: Seq<char>)
    ensures
        ({
            let none = Modifiers {
                alt: false,
                ctrl: false,
                shift: false,
                mac_cmd: false,
                command: false,
            };
            let command = word == "cmd"@ || word == "command"@ || word == "super"@ || word
                == "win"@ || word == "meta"@;
            let ctrl = word == "ctrl"@ || word == "control"@;
            let alt = word == "alt"@ || word == "opt"@ || word == "option"@;
            let shift = word == "shift"@;
            &&& modifier_word(word) is Some <==> command || ctrl || alt || shift
            &&& command ==> modifier_word(word) == Some(Modifiers { command: true, ..none })
            &&& ctrl ==> modifier_word(word) == Some(Modifiers { ctrl: true, ..none })
            &&& alt ==> modifier_word(word) == Some(Modifiers { alt: true, ..none })
            &&& shift ==> modifier_word(word) == Some(Modifiers { shift: true, ..none })
        }),
{
    reveal_strlit("cmd");
    reveal_strlit("command");
    reveal_strlit("super");
    reveal_strlit("win");
    reveal_strlit("meta");
    reveal_strlit("ctrl");
    reveal_strlit("control");
    reveal_strlit("alt");
    reveal_strlit("opt");
    reveal_strlit("option");
    reveal_strlit("shift");
    assert("cmd"@.len() == 3);
    assert("command"@.len() == 7);
    assert("super"@.len() == 5);
    assert("win"@.len() == 3);
    assert("meta"@.len() == 4);
    assert("ctrl"@.len() == 4);
    assert("control"@.len() == 7);
    assert("alt"@.len() == 3);
    assert("opt"@.len() == 3);
    assert("option"@.len() == 6);
    assert("shift"@.len() == 5);
    assert("cmd"@[0] == 'c' && "win"@[0] == 'w' && "alt"@[0] == 'a' && "opt"@[0] == 'o');
    assert("meta"@[0] == 'm' && "ctrl"@[0] == 'c');
    assert("super"@[1] == 'u' && "shift"@[1] == 'h');
    assert("command"@[2] == 'm' && "control"@[2] == 'n');
}

/// Words name modifiers together where each of them names one, and then all those that one
/// of them names.
pub proof fn law_modifiers_together(words: Seq<Seq<char>>)
    ensures
        modifier_words(words) is Some <==> forall|i: int|
            0 <= i < words.len() ==> modifier_word(#[trigger] words[i]) is Some,
        modifier_words(words) matches Some(m) ==> {
            &&& m.alt <==> exists|i: int|
                0 <= i < words.len() && modifier_word(#[trigger] words[i])->0.alt
            &&& m.ctrl <==> exists|i: int|
                0 <= i < words.len() && modifier_word(#[trigger] words[i])->0.ctrl
            &&& m.shift <==> exists|i: int|
                0 <= i < words.len() && modifier_word(#[trigger] words[i])->0.shift
            &&& m.command <==> exists|i: int|
                0 <= i < words.len() && modifier_word(#[trigger] words[i])->0.command
            &&& !m.mac_cmd
        },
    decreases words.len(),
{
    if words.len() > 0 {
        let init = words.drop_last();
        law_modifiers_together(init);
        let last = words[words.len() - 1];
        assert(words.last() == last);
        assert forall|i: int| 0 <= i < init.len() implies #[trigger] words[i] == init[i] by {}
        if modifier_words(words) is Some {
            let m = modifier_words(words)->0;
            let before = modifier_words(init)->0;
            if before.alt {
                let i = choose|i: int|
                    0 <= i < init.len() && modifier_word(#[trigger] init[i])->0.alt;
                assert(words[i] == init[i]);
            }
            if before.ctrl {
                let i = choose|i: int|
                    0 <= i < init.len() && modifier_word(#[trigger] init[i])->0.ctrl;
                assert(words[i] == init[i]);
            }
            if before.shift {
                let i = choose|i: int|
                    0 <= i < init.len() && modifier_word(#[trigger] init[i])->0.shift;
                assert(words[i] == init[i]);
            }
            if before.command {
                let i = choose|i: int|
                    0 <= i < init.len() && modifier_word(#[trigger] init[i])->0.command;
                assert(words[i] == init[i]);
            }
        }
        if forall|i: int| 0 <= i < words.len() ==> modifier_word(#[trigger] words[i]) is Some {
            assert forall|i: int| 0 <= i < init.len() implies modifier_word(
                #[trigger] init[i],
            ) is Some by {
                assert(words[i] == init[i]);
            }
            assert(modifier_word(last) is Some);
        }
    }
}

/// The bindings that hold where the config names no others.
pub proof fn law_default_bindings()
    ensures
        ({
            let cmd = Modifiers {
                alt: false,
                ctrl: false,
                shift: false,
                mac_cmd: false,
                command: true,
            };
            let d = default_keybinds();
            &&& d.new_tab == (KeySpecView { mods: cmd, key: "T"@ })
            &&& d.split_right == (KeySpecView { mods: cmd, key: "D"@ })
            &&& d.split_down == (KeySpecView { mods: Modifiers { shift: true, ..cmd }, key: "D"@ })
            &&& d.close_pane == (KeySpecView { mods: cmd, key: "W"@ })
            &&& d.find == (KeySpecView { mods: cmd, key: "F"@ })
            &&& d.clear == (KeySpecView { mods: cmd, key: "K"@ })
        }),
{
}

/// Which held modifiers a binding goes with. One without control and command wants neither
/// held; one with command alone does not mind control, nor one with control alone command.
pub proof fn law_binding_matches(held: Modifiers, pattern: Modifiers)
    requires
        !pattern.mac_cmd,
    ensures
        exact_match(held, pattern) <==> loose_match(held, pattern) && held.alt == pattern.alt
            && held.shift == pattern.shift,
        pattern.alt && !held.alt ==> !loose_match(held, pattern),
        pattern.shift && !held.shift ==> !loose_match(held, pattern),
        pattern.ctrl && !held.ctrl ==> !loose_match(held, pattern),
        pattern.command && !held.command ==> !loose_match(held, pattern),
        !pattern.ctrl && !pattern.command && (held.ctrl || held.command) ==> !loose_match(
            held,
            pattern,
        ),
        loose_match(pattern, pattern),
        loose_match(held, pattern) ==> loose_match(Modifiers { alt: true, ..held }, pattern)
            && loose_match(Modifiers { shift: true, ..held }, pattern) && loose_match(
            Modifiers { mac_cmd: !held.mac_cmd, ..held },
            pattern,
        ),
        loose_match(held, pattern) && pattern.command ==> loose_match(
            Modifiers { ctrl: true, ..held },
            pattern,
        ),
        loose_match(held, pattern) && pattern.ctrl ==> loose_match(
            Modifiers { command: true, ..held },
            pattern,
        ),
{
}

/// A binding is read back from its tokens with plus signs between them: the last one is the
/// key, and those before it are the modifiers.
pub proof fn law_binding_reads_back(toks: Seq<Seq<char>>)
    requires
        toks.len() > 0,
        forall|i: int|
            0 <= i < toks.len() ==> is_tight(#[trigger] toks[i]) && !toks[i].contains('+'),
        forall|i: int|
            0 <= i < toks.len() - 1 ==> modifier_word(lower_text(#[trigger] toks[i])) is Some,
        key_of_token(toks.last()) is Some,
    ensures
        ({
            let spec = keyspec_of(joined(toks, seq!['+']));
            &&& spec is Some
            &&& spec->0.key == key_of_token(toks.last())->0
            &&& spec->0.mods.alt <==> exists|i: int|
                0 <= i < toks.len() - 1 && modifier_word(lower_text(#[trigger] toks[i]))->0.alt
            &&& spec->0.mods.ctrl <==> exists|i: int|
                0 <= i < toks.len() - 1 && modifier_word(lower_text(#[trigger] toks[i]))->0.ctrl
            &&& spec->0.mods.shift <==> exists|i: int|
                0 <= i < toks.len() - 1 && modifier_word(lower_text(#[trigger] toks[i]))->0.shift
            &&& spec->0.mods.command <==> exists|i: int|
                0 <= i < toks.len() - 1 && modifier_word(lower_text(#[trigger] toks[i]))->0.command
            &&& !spec->0.mods.mac_cmd
        }),
{
    law_tokens_read_back(toks);
    let words = lower_all(toks.drop_last());
    law_modifiers_together(words);
    assert(words.len() == toks.len() - 1);
    assert forall|i: int| 0 <= i < words.len() implies #[trigger] words[i] == lower_text(
        toks[i],
    ) by {}
    assert forall|i: int| 0 <= i < toks.len() - 1 implies lower_text(#[trigger] toks[i])
        == words[i] by {}
}

/// Pieces between plus signs that are blank are no tokens.
pub proof fn law_blank_pieces(a: Seq<Seq<char>>, blank: Seq<char>, b: Seq<Seq<char>>)
    requires
        trimmed(blank).len() == 0,
    ensures
        tokens(a.push(blank) + b) == tokens(a) + tokens(b),
    decreases b.len(),
{
    if b.len() == 0 {
        assert(a.push(blank) + b =~= a.push(blank));
        assert(a.push(blank).drop_last() =~= a);
        assert(tokens(a) + tokens(b) =~= tokens(a));
    } else {
        law_blank_pieces(a, blank, b.drop_last());
        assert((a.push(blank) + b).drop_last() =~= a.push(blank) + b.drop_last());
        assert(tokens(a.push(blank) + b) =~= tokens(a) + tokens(b));
    }
}

/// A pattern with the Command key of a Mac wants that key held, and control just as it says.
pub proof fn law_mac_pattern_matches(held: Modifiers, pattern: Modifiers)
    requires
        pattern.mac_cmd,
    ensures
        loose_match(held, pattern) ==> held.mac_cmd,
        loose_match(held, pattern) ==> held.ctrl == pattern.ctrl,
        loose_match(pattern, pattern),
        loose_match(held, pattern) ==> loose_match(
            Modifiers { command: !held.command, ..held },
            pattern,
        ),
        exact_match(held, pattern) <==> loose_match(held, pattern) && held.alt == pattern.alt
            && held.shift == pattern.shift,
{
}

} // verus!
