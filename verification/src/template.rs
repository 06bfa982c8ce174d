//! The config that a first run leaves for the user to edit.

use vstd::prelude::*;

use crate::case::{ascii_upper, lower_text};
use crate::config::{
    default_settings, entry_effect, is_idle_line, law_entry_line, law_idle_config,
    law_value_between_blanks, lemma_comment_from, lemma_default_numbers, lemma_keys_apart,
    line_effect, lines_effect, normal_theme, parsed, uncommented, SettingsView,
};
use crate::keys::{
    command_mod, default_keybinds, either, keyspec_of, law_tokens_read_back, lower_all,
    modifier_word, modifier_words, no_mods, shift_mod, KeySpecView,
};
use crate::text::{
    all_white, is_tight, is_white, join, joined, lemma_split_joined, lemma_trimmed_first, split,
    texts,
};
use crate::theme::theme_list;

verus! {

/// What the template says of itself.
pub open spec fn template_head() -> Seq<Seq<char>> {
    seq![
        "# Tessera config. Uncomment a line to change it; `#` starts a comment."@,
        "# Themes: default, catppuccin-mocha, dracula, nord, tokyo-night,"@,
        "#         gruvbox-dark, solarized-dark."@,
        ""@,
    ]
}

/// What the template says of the keybindings.
pub open spec fn template_middle() -> Seq<Seq<char>> {
    seq![
        ""@,
        "# Keybindings. Modifiers: cmd / ctrl / alt (opt) / shift, then a key."@,
        "# (Tab/pane switching with Cmd/Opt+1-9 and Cmd+Alt+arrows are fixed.)"@,
    ]
}

/// The template's settings, without the hash in front of them.
pub open spec fn template_settings() -> Seq<Seq<char>> {
    seq![
        "font-family      = \"JetBrains Mono\""@,
        "font-size        = 14"@,
        "theme            = catppuccin-mocha"@,
        "window-padding-x = 8"@,
        "window-padding-y = 8"@,
        "shell            = /bin/zsh"@,
        "background       = #1e1e2e"@,
        "foreground       = #cdd6f4"@,
    ]
}

/// The template's keybindings, without the hash in front of them.
pub open spec fn template_keybinds() -> Seq<Seq<char>> {
    seq![
        "keybind-new-tab     = cmd+t"@,
        "keybind-split-right = cmd+d"@,
        "keybind-split-down  = cmd+shift+d"@,
        "keybind-close-pane  = cmd+w"@,
        "keybind-find        = cmd+f"@,
        "keybind-clear       = cmd+k"@,
    ]
}

/// `lines`, each as a comment.
pub open spec fn commented(lines: Seq<Seq<char>>) -> Seq<Seq<char>> {
    lines.map_values(|line: Seq<char>| "# "@ + line)
}

/// The lines of the template. The last is empty: a line break ends the one before it.
pub open spec fn template_lines() -> Seq<Seq<char>> {
    template_head() + commented(template_settings()) + template_middle() + commented(
        template_keybinds(),
    ) + seq![""@]
}

/// The text of the template.
pub open spec fn template_text() -> Seq<char> {
    joined(template_lines(), "\n"@)
}

fn head_lines() -> (r: Vec<String>)
    ensures
        texts(r@) == template_head(),
{
    let mut out: Vec<String> = Vec::new();
    out.push("# Tessera config. Uncomment a line to change it; `#` starts a comment.".to_owned());
    out.push("# Themes: default, catppuccin-mocha, dracula, nord, tokyo-night,".to_owned());
    out.push("#         gruvbox-dark, solarized-dark.".to_owned());
    out.push("".to_owned());
    assert(texts(out@) == template_head());
    out
}

fn middle_lines() -> (r: Vec<String>)
    ensures
        texts(r@) == template_middle(),
{
    let mut out: Vec<String> = Vec::new();
    out.push("".to_owned());
    out.push("# Keybindings. Modifiers: cmd / ctrl / alt (opt) / shift, then a key.".to_owned());
    out.push("# (Tab/pane switching with Cmd/Opt+1-9 and Cmd+Alt+arrows are fixed.)".to_owned());
    assert(texts(out@) == template_middle());
    out
}

fn setting_lines() -> (r: Vec<String>)
    ensures
        texts(r@) == template_settings(),
{
    let mut out: Vec<String> = Vec::new();
    out.push("font-family      = \"JetBrains Mono\"".to_owned());
    out.push("font-size        = 14".to_owned());
    out.push("theme            = catppuccin-mocha".to_owned());
    out.push("window-padding-x = 8".to_owned());
    out.push("window-padding-y = 8".to_owned());
    out.push("shell            = /bin/zsh".to_owned());
    out.push("background       = #1e1e2e".to_owned());
    out.push("foreground       = #cdd6f4".to_owned());
    assert(texts(out@) == template_settings());
    out
}

fn keybind_lines() -> (r: Vec<String>)
    ensures
        texts(r@) == template_keybinds(),
{
    let mut out: Vec<String> = Vec::new();
    out.push("keybind-new-tab     = cmd+t".to_owned());
    out.push("keybind-split-right = cmd+d".to_owned());
    out.push("keybind-split-down  = cmd+shift+d".to_owned());
    out.push("keybind-close-pane  = cmd+w".to_owned());
    out.push("keybind-find        = cmd+f".to_owned());
    out.push("keybind-clear       = cmd+k".to_owned());
    assert(texts(out@) == template_keybinds());
    out
}

fn comment_out(lines: Vec<String>) -> (r: Vec<String>)
    ensures
        texts(r@) == commented(texts(lines@)),
{
    let mut out: Vec<String> = Vec::new();
    let mut i: usize = 0;
    while i < lines.len()
        invariant
            i <= lines@.len(),
            texts(out@) == commented(texts(lines@)).take(i as int),
        decreases lines@.len() - i,
    {
        let mut line = "# ".to_owned();
        line.append(lines[i].as_str());
        let ghost before = texts(out@);
        out.push(line);
        assert(texts(out@) == before.push("# "@ + texts(lines@)[i as int]));
        i += 1;
        assert(texts(out@) == commented(texts(lines@)).take(i as int));
    }
    assert(texts(out@) == commented(texts(lines@)));
    out
}

/// The commented config that a first run leaves for the user to edit.
pub fn template() -> (r: String)
    ensures
        r@ == template_text(),
{
    let mut lines = head_lines();
    let mut settings = comment_out(setting_lines());
    let mut middle = middle_lines();
    let mut keybinds = comment_out(keybind_lines());
    lines.append(&mut settings);
    lines.append(&mut middle);
    lines.append(&mut keybinds);
    lines.push(String::new());
    proof {
        reveal_strlit("");
        assert(""@ =~= Seq::<char>::empty());
    }
    assert(texts(lines@) == template_lines());
    join(&lines, "\n")
}

/// Whether a line is one of a text of idle lines: a comment or empty, without a line
/// break in it.
spec fn stays_idle(line: Seq<char>) -> bool {
    (line.len() == 0 || line[0] == '#') && !line.contains('\n')
}

proof fn lemma_notes_idle(i: int)
    ensures
        0 <= i < template_head().len() ==> stays_idle(template_head()[i]),
        0 <= i < template_middle().len() ==> stays_idle(template_middle()[i]),
        stays_idle(""@),
{
    reveal_strlit("# Tessera config. Uncomment a line to change it; `#` starts a comment.");
    reveal_strlit("# Themes: default, catppuccin-mocha, dracula, nord, tokyo-night,");
    reveal_strlit("#         gruvbox-dark, solarized-dark.");
    reveal_strlit("");
    reveal_strlit("# Keybindings. Modifiers: cmd / ctrl / alt (opt) / shift, then a key.");
    reveal_strlit("# (Tab/pane switching with Cmd/Opt+1-9 and Cmd+Alt+arrows are fixed.)");
}

proof fn lemma_entries_one_line(i: int)
    ensures
        0 <= i < template_settings().len() ==> !template_settings()[i].contains('\n'),
        0 <= i < template_keybinds().len() ==> !template_keybinds()[i].contains('\n'),
{
    reveal_strlit("font-family      = \"JetBrains Mono\"");
    reveal_strlit("font-size        = 14");
    reveal_strlit("theme            = catppuccin-mocha");
    reveal_strlit("window-padding-x = 8");
    reveal_strlit("window-padding-y = 8");
    reveal_strlit("shell            = /bin/zsh");
    reveal_strlit("background       = #1e1e2e");
    reveal_strlit("foreground       = #cdd6f4");
    reveal_strlit("keybind-new-tab     = cmd+t");
    reveal_strlit("keybind-split-right = cmd+d");
    reveal_strlit("keybind-split-down  = cmd+shift+d");
    reveal_strlit("keybind-close-pane  = cmd+w");
    reveal_strlit("keybind-find        = cmd+f");
    reveal_strlit("keybind-clear       = cmd+k");
}

proof fn lemma_commented_idle(line: Seq<char>)
    requires
        !line.contains('\n'),
    ensures
        stays_idle("# "@ + line),
{
    reveal_strlit("# ");
    let all = "# "@ + line;
    if all.contains('\n') {
        let i = choose|i: int| 0 <= i < all.len() && all[i] == '\n';
        assert(line[i - 2] == '\n');
    }
}

proof fn lemma_template_line(i: int)
    requires
        0 <= i < template_lines().len(),
    ensures
        stays_idle(template_lines()[i]),
{
    let (a, b) = (template_head(), template_settings());
    let (c, d) = (template_middle(), template_keybinds());
    let (x, y, z) = (i - a.len(), i - a.len() - b.len(), i - a.len() - b.len() - c.len());
    lemma_notes_idle(i);
    lemma_notes_idle(y);
    lemma_entries_one_line(x);
    lemma_entries_one_line(z);
    if 0 <= x < b.len() {
        lemma_commented_idle(b[x]);
    }
    if 0 <= z < d.len() {
        lemma_commented_idle(d[z]);
    }
}

/// The template changes nothing: it gives the defaults, and no warning.
pub proof fn law_template_is_idle()
    ensures
        parsed(template_text()) == (default_settings(), Seq::<Seq<char>>::empty()),
{
    let lines = template_lines();
    assert forall|i: int| 0 <= i < lines.len() implies !(#[trigger] lines[i]).contains('\n')
        && is_idle_line(lines[i]) by {
        lemma_template_line(i);
        if lines[i].len() > 0 {
            lemma_trimmed_first(lines[i]);
        }
    }
    reveal_strlit("\n");
    assert("\n"@ =~= seq!['\n']);
    lemma_split_joined(lines, '\n');
    law_idle_config(template_text());
}

/// An entry whose value holds neither white space nor a quote does what its key and its
/// value say.
proof fn lemma_entry(
    s: SettingsView,
    n: nat,
    line: Seq<char>,
    key: Seq<char>,
    gap: Seq<char>,
    val: Seq<char>,
)
    requires
        line == key + gap + seq!['=', ' '] + val,
        is_tight(key),
        key[0] != '#',
        !key.contains('='),
        all_white(gap),
        val.len() > 0,
        val[0] != '"',
        forall|i: int| 0 <= i < val.len() ==> !is_white(#[trigger] val[i]),
    ensures
        line_effect(s, n, line) == entry_effect(s, n, key, val),
{
    let none = Seq::<char>::empty();
    let rest = seq![' '] + val;
    assert(line =~= none + key + gap + seq!['='] + rest);
    law_entry_line(s, n, none, key, gap, rest);
    lemma_comment_from(val, 0);
    assert(uncommented(val) =~= val);
    assert(!is_white(val[val.len() - 1]));
    assert(rest =~= seq![' '] + val + none);
    law_value_between_blanks(seq![' '], val, none);
}

/// What is written with plus signs between the modifiers and a letter is the binding of
/// these.
proof fn lemma_binding(words: Seq<Seq<char>>, letter: char)
    requires
        'a' <= letter <= 'z',
        forall|i: int|
            0 <= i < words.len() ==> is_tight(#[trigger] words[i]) && !words[i].contains('+')
                && lower_text(words[i]) == words[i],
        modifier_words(words) is Some,
    ensures
        keyspec_of(joined(words.push(seq![letter]), seq!['+'])) == Some(
            KeySpecView { mods: modifier_words(words)->0, key: seq![ascii_upper(letter)] },
        ),
{
    let toks = words.push(seq![letter]);
    law_tokens_read_back(toks);
    assert(toks.drop_last() =~= words);
    assert(lower_all(words) =~= words);
}

proof fn lemma_words()
    ensures
        is_tight("cmd"@) && !"cmd"@.contains('+') && lower_text("cmd"@) == "cmd"@,
        is_tight("shift"@) && !"shift"@.contains('+') && lower_text("shift"@) == "shift"@,
        modifier_words(seq!["cmd"@]) == Some(command_mod()),
        modifier_words(seq!["cmd"@, "shift"@]) == Some(either(command_mod(), shift_mod())),
{
    reveal_strlit("cmd");
    reveal_strlit("command");
    reveal_strlit("super");
    reveal_strlit("win");
    reveal_strlit("meta");
    reveal_strlit("ctrl");
    reveal_strlit("control");
    reveal_strlit("alt");
    reveal_strlit("opt");
    reveal_strlit("option");
    reveal_strlit("shift");
    assert(lower_text("cmd"@) =~= "cmd"@);
    assert(lower_text("shift"@) =~= "shift"@);
    assert("shift"@.len() == 5 && "cmd"@.len() == 3 && "command"@.len() == 7 && "super"@.len() == 5
        && "win"@.len() == 3 && "meta"@.len() == 4 && "ctrl"@.len() == 4 && "control"@.len() == 7
        && "alt"@.len() == 3 && "opt"@.len() == 3 && "option"@.len() == 6);
    assert("shift"@[1] != "super"@[1]);
    assert(modifier_word("cmd"@) == Some(command_mod()));
    assert(modifier_word("shift"@) == Some(shift_mod()));
    let (none, one, two) = (Seq::<Seq<char>>::empty(), seq!["cmd"@], seq!["cmd"@, "shift"@]);
    assert(one.drop_last() =~= none);
    assert(two.drop_last() =~= one);
    assert(modifier_words(none) == Some(no_mods()));
    assert(modifier_words(one) == Some(command_mod()));
}

/// A letter with the command key.
proof fn lemma_cmd(val: Seq<char>, letter: char)
    requires
        'a' <= letter <= 'z',
        val == "cmd"@ + seq!['+', letter],
    ensures
        keyspec_of(val) == Some(
            KeySpecView { mods: command_mod(), key: seq![ascii_upper(letter)] },
        ),
{
    lemma_words();
    let words = seq!["cmd"@];
    lemma_binding(words, letter);
    let toks = words.push(seq![letter]);
    reveal_with_fuel(joined, 3);
    assert(toks.drop_last() =~= words);
    assert(joined(toks, seq!['+']) =~= val);
}

/// A letter with the command key and the shift key.
proof fn lemma_cmd_shift(val: Seq<char>, letter: char)
    requires
        'a' <= letter <= 'z',
        val == "cmd"@ + seq!['+'] + "shift"@ + seq!['+', letter],
    ensures
        keyspec_of(val) == Some(
            KeySpecView {
                mods: either(command_mod(), shift_mod()),
                key: seq![ascii_upper(letter)],
            },
        ),
{
    lemma_words();
    let words = seq!["cmd"@, "shift"@];
    lemma_binding(words, letter);
    let toks = words.push(seq![letter]);
    reveal_with_fuel(joined, 4);
    assert(toks.drop_last() =~= words);
    assert(words.drop_last() =~= seq!["cmd"@]);
    assert(joined(toks, seq!['+']) =~= val);
}

/// Whether a line is accepted, and leaves the keybindings alone.
#[verifier::opaque]
spec fn accepted(s: SettingsView, n: nat, line: Seq<char>) -> bool {
    line_effect(s, n, line).1 is None && line_effect(s, n, line).0.keybinds == s.keybinds
}

/// Whether a line is accepted, and says what holds anyway.
#[verifier::opaque]
spec fn says_nothing_new(s: SettingsView, n: nat, line: Seq<char>) -> bool {
    line_effect(s, n, line) == (s, None::<Seq<char>>)
}

proof fn lemma_font_family(s: SettingsView, n: nat)
    ensures
        accepted(s, n, "font-family      = \"JetBrains Mono\""@),
{
    reveal(accepted);
    reveal_strlit("font-family      = \"JetBrains Mono\"");
    reveal_strlit("font-family");
    let (none, gap) = (Seq::<char>::empty(), seq![' ', ' ', ' ', ' ', ' ', ' ']);
    let line = "font-family      = \"JetBrains Mono\""@;
    let rest = line.skip(18);
    assert(line =~= none + "font-family"@ + gap + seq!['='] + rest);
    law_entry_line(s, n, none, "font-family"@, gap, rest);
}

proof fn lemma_font_size(s: SettingsView, n: nat)
    ensures
        accepted(s, n, "font-size        = 14"@),
{
    reveal(accepted);
    reveal_strlit("font-size        = 14");
    reveal_strlit("font-size");
    reveal_strlit("14");
    let gap = seq![' ', ' ', ' ', ' ', ' ', ' ', ' ', ' '];
    let (line, key, val) = ("font-size        = 14"@, "font-size"@, "14"@);
    assert(line =~= key + gap + seq!['=', ' '] + val);
    lemma_entry(s, n, line, key, gap, val);
    lemma_default_numbers();
    lemma_keys_apart();
}

proof fn lemma_theme(s: SettingsView, n: nat)
    ensures
        accepted(s, n, "theme            = catppuccin-mocha"@),
{
    reveal(accepted);
    reveal_strlit("theme            = catppuccin-mocha");
    reveal_strlit("theme");
    reveal_strlit("catppuccin-mocha");
    let gap = seq![' ', ' ', ' ', ' ', ' ', ' ', ' ', ' ', ' ', ' ', ' ', ' '];
    let (line, key, val) = ("theme            = catppuccin-mocha"@, "theme"@, "catppuccin-mocha"@);
    assert(line =~= key + gap + seq!['=', ' '] + val);
    lemma_entry(s, n, line, key, gap, val);
    assert(normal_theme("catppuccin-mocha"@) =~= "catppuccin-mocha"@);
    assert(theme_list()[1] == "catppuccin-mocha"@);
    lemma_keys_apart();
}

proof fn lemma_window_padding_x(s: SettingsView, n: nat)
    ensures
        accepted(s, n, "window-padding-x = 8"@),
{
    reveal(accepted);
    reveal_strlit("window-padding-x = 8");
    reveal_strlit("window-padding-x");
    reveal_strlit("8");
    let gap = seq![' '];
    let (line, key, val) = ("window-padding-x = 8"@, "window-padding-x"@, "8"@);
    assert(line =~= key + gap + seq!['=', ' '] + val);
    lemma_entry(s, n, line, key, gap, val);
    lemma_default_numbers();
    lemma_keys_apart();
}

proof fn lemma_window_padding_y(s: SettingsView, n: nat)
    ensures
        accepted(s, n, "window-padding-y = 8"@),
{
    reveal(accepted);
    reveal_strlit("window-padding-y = 8");
    reveal_strlit("window-padding-y");
    reveal_strlit("8");
    let gap = seq![' '];
    let (line, key, val) = ("window-padding-y = 8"@, "window-padding-y"@, "8"@);
    assert(line =~= key + gap + seq!['=', ' '] + val);
    lemma_entry(s, n, line, key, gap, val);
    lemma_default_numbers();
    lemma_keys_apart();
}

proof fn lemma_shell(s: SettingsView, n: nat)
    ensures
        accepted(s, n, "shell            = /bin/zsh"@),
{
    reveal(accepted);
    reveal_strlit("shell            = /bin/zsh");
    reveal_strlit("shell");
    reveal_strlit("/bin/zsh");
    let gap = seq![' ', ' ', ' ', ' ', ' ', ' ', ' ', ' ', ' ', ' ', ' ', ' '];
    let (line, key, val) = ("shell            = /bin/zsh"@, "shell"@, "/bin/zsh"@);
    assert(line =~= key + gap + seq!['=', ' '] + val);
    lemma_entry(s, n, line, key, gap, val);
    lemma_keys_apart();
}

proof fn lemma_background(s: SettingsView, n: nat)
    ensures
        accepted(s, n, "background       = #1e1e2e"@),
{
    reveal(accepted);
    reveal_strlit("background       = #1e1e2e");
    reveal_strlit("background");
    reveal_strlit("#1e1e2e");
    let gap = seq![' ', ' ', ' ', ' ', ' ', ' ', ' '];
    let (line, key, val) = ("background       = #1e1e2e"@, "background"@, "#1e1e2e"@);
    assert(line =~= key + gap + seq!['=', ' '] + val);
    lemma_entry(s, n, line, key, gap, val);
    lemma_keys_apart();
}

proof fn lemma_foreground(s: SettingsView, n: nat)
    ensures
        accepted(s, n, "foreground       = #cdd6f4"@),
{
    reveal(accepted);
    reveal_strlit("foreground       = #cdd6f4");
    reveal_strlit("foreground");
    reveal_strlit("#cdd6f4");
    let gap = seq![' ', ' ', ' ', ' ', ' ', ' ', ' '];
    let (line, key, val) = ("foreground       = #cdd6f4"@, "foreground"@, "#cdd6f4"@);
    assert(line =~= key + gap + seq!['=', ' '] + val);
    lemma_entry(s, n, line, key, gap, val);
    lemma_keys_apart();
}

proof fn lemma_keybind_new_tab(s: SettingsView, n: nat)
    requires
        s.keybinds == default_keybinds(),
    ensures
        says_nothing_new(s, n, "keybind-new-tab     = cmd+t"@),
{
    reveal(says_nothing_new);
    reveal_strlit("keybind-new-tab     = cmd+t");
    reveal_strlit("keybind-new-tab");
    reveal_strlit("cmd+t");
    reveal_strlit("cmd");
    reveal_strlit("T");
    let gap = seq![' ', ' ', ' ', ' ', ' '];
    let (line, key, val) = ("keybind-new-tab     = cmd+t"@, "keybind-new-tab"@, "cmd+t"@);
    assert(line =~= key + gap + seq!['=', ' '] + val);
    lemma_entry(s, n, line, key, gap, val);
    assert("cmd+t"@ =~= "cmd"@ + seq!['+', 't']);
    lemma_cmd("cmd+t"@, 't');
    assert("T"@ =~= seq!['T']);
    lemma_keys_apart();
}

proof fn lemma_keybind_split_right(s: SettingsView, n: nat)
    requires
        s.keybinds == default_keybinds(),
    ensures
        says_nothing_new(s, n, "keybind-split-right = cmd+d"@),
{
    reveal(says_nothing_new);
    reveal_strlit("keybind-split-right = cmd+d");
    reveal_strlit("keybind-split-right");
    reveal_strlit("cmd+d");
    reveal_strlit("cmd");
    reveal_strlit("D");
    let gap = seq![' '];
    let (line, key, val) = ("keybind-split-right = cmd+d"@, "keybind-split-right"@, "cmd+d"@);
    assert(line =~= key + gap + seq!['=', ' '] + val);
    lemma_entry(s, n, line, key, gap, val);
    assert("cmd+d"@ =~= "cmd"@ + seq!['+', 'd']);
    lemma_cmd("cmd+d"@, 'd');
    assert("D"@ =~= seq!['D']);
    lemma_keys_apart();
}

proof fn lemma_keybind_split_down(s: SettingsView, n: nat)
    requires
        s.keybinds == default_keybinds(),
    ensures
        says_nothing_new(s, n, "keybind-split-down  = cmd+shift+d"@),
{
    reveal(says_nothing_new);
    reveal_strlit("keybind-split-down  = cmd+shift+d");
    reveal_strlit("keybind-split-down");
    reveal_strlit("cmd+shift+d");
    reveal_strlit("cmd");
    reveal_strlit("shift");
    reveal_strlit("D");
    let gap = seq![' ', ' '];
    let line = "keybind-split-down  = cmd+shift+d"@;
    let (key, val) = ("keybind-split-down"@, "cmd+shift+d"@);
    assert(line =~= key + gap + seq!['=', ' '] + val);
    lemma_entry(s, n, line, key, gap, val);
    assert("cmd+shift+d"@ =~= "cmd"@ + seq!['+'] + "shift"@ + seq!['+', 'd']);
    lemma_cmd_shift("cmd+shift+d"@, 'd');
    assert("D"@ =~= seq!['D']);
    lemma_keys_apart();
}

proof fn lemma_keybind_close_pane(s: SettingsView, n: nat)
    requires
        s.keybinds == default_keybinds(),
    ensures
        says_nothing_new(s, n, "keybind-close-pane  = cmd+w"@),
{
    reveal(says_nothing_new);
    reveal_strlit("keybind-close-pane  = cmd+w");
    reveal_strlit("keybind-close-pane");
    reveal_strlit("cmd+w");
    reveal_strlit("cmd");
    reveal_strlit("W");
    let gap = seq![' ', ' '];
    let (line, key, val) = ("keybind-close-pane  = cmd+w"@, "keybind-close-pane"@, "cmd+w"@);
    assert(line =~= key + gap + seq!['=', ' '] + val);
    lemma_entry(s, n, line, key, gap, val);
    assert("cmd+w"@ =~= "cmd"@ + seq!['+', 'w']);
    lemma_cmd("cmd+w"@, 'w');
    assert("W"@ =~= seq!['W']);
    lemma_keys_apart();
}

proof fn lemma_keybind_find(s: SettingsView, n: nat)
    requires
        s.keybinds == default_keybinds(),
    ensures
        says_nothing_new(s, n, "keybind-find        = cmd+f"@),
{
    reveal(says_nothing_new);
    reveal_strlit("keybind-find        = cmd+f");
    reveal_strlit("keybind-find");
    reveal_strlit("cmd+f");
    reveal_strlit("cmd");
    reveal_strlit("F");
    let gap = seq![' ', ' ', ' ', ' ', ' ', ' ', ' ', ' '];
    let (line, key, val) = ("keybind-find        = cmd+f"@, "keybind-find"@, "cmd+f"@);
    assert(line =~= key + gap + seq!['=', ' '] + val);
    lemma_entry(s, n, line, key, gap, val);
    assert("cmd+f"@ =~= "cmd"@ + seq!['+', 'f']);
    lemma_cmd("cmd+f"@, 'f');
    assert("F"@ =~= seq!['F']);
    lemma_keys_apart();
}

proof fn lemma_keybind_clear(s: SettingsView, n: nat)
    requires
        s.keybinds == default_keybinds(),
    ensures
        says_nothing_new(s, n, "keybind-clear       = cmd+k"@),
{
    reveal(says_nothing_new);
    reveal_strlit("keybind-clear       = cmd+k");
    reveal_strlit("keybind-clear");
    reveal_strlit("cmd+k");
    reveal_strlit("cmd");
    reveal_strlit("K");
    let gap = seq![' ', ' ', ' ', ' ', ' ', ' ', ' '];
    let (line, key, val) = ("keybind-clear       = cmd+k"@, "keybind-clear"@, "cmd+k"@);
    assert(line =~= key + gap + seq!['=', ' '] + val);
    lemma_entry(s, n, line, key, gap, val);
    assert("cmd+k"@ =~= "cmd"@ + seq!['+', 'k']);
    lemma_cmd("cmd+k"@, 'k');
    assert("K"@ =~= seq!['K']);
    lemma_keys_apart();
}

/// Each setting of the template, without its hash, is accepted, and leaves the
/// keybindings alone.
pub proof fn law_template_settings_accepted(s: SettingsView, n: nat, i: int)
    requires
        0 <= i < template_settings().len(),
    ensures
        line_effect(s, n, template_settings()[i]).1 is None,
        line_effect(s, n, template_settings()[i]).0.keybinds == s.keybinds,
{
    lemma_font_family(s, n);
    lemma_font_size(s, n);
    lemma_theme(s, n);
    lemma_window_padding_x(s, n);
    lemma_window_padding_y(s, n);
    lemma_shell(s, n);
    lemma_background(s, n);
    lemma_foreground(s, n);
    assert(accepted(s, n, template_settings()[i]));
    reveal(accepted);
}

/// Each keybinding of the template, without its hash, is accepted, and is the one that
/// holds anyway.
pub proof fn law_template_keybinds_are_defaults(s: SettingsView, n: nat, i: int)
    requires
        0 <= i < template_keybinds().len(),
        s.keybinds == default_keybinds(),
    ensures
        line_effect(s, n, template_keybinds()[i]) == (s, None::<Seq<char>>),
{
    lemma_keybind_new_tab(s, n);
    lemma_keybind_split_right(s, n);
    lemma_keybind_split_down(s, n);
    lemma_keybind_close_pane(s, n);
    lemma_keybind_find(s, n);
    lemma_keybind_clear(s, n);
    assert(says_nothing_new(s, n, template_keybinds()[i]));
    reveal(says_nothing_new);
}

/// Whether a line can stand in the template after some of its hashes are taken away.
pub open spec fn is_template_line(line: Seq<char>) -> bool {
    is_idle_line(line) || template_settings().contains(line) || template_keybinds().contains(line)
}

/// Whichever of the template's entries are uncommented, no warning comes of it, and the
/// keybindings stay the default ones.
pub proof fn law_uncommented_template(text: Seq<char>)
    requires
        forall|i: int|
            0 <= i < split(text, '\n').len() ==> is_template_line(
                #[trigger] split(text, '\n')[i],
            ),
    ensures
        parsed(text).1 == Seq::<Seq<char>>::empty(),
        parsed(text).0.keybinds == default_keybinds(),
{
    lemma_template_lines(split(text, '\n'), split(text, '\n').len());
}

proof fn lemma_template_lines(lines: Seq<Seq<char>>, n: nat)
    requires
        n <= lines.len(),
        forall|i: int| 0 <= i < lines.len() ==> is_template_line(#[trigger] lines[i]),
    ensures
        lines_effect(lines, n).1 == Seq::<Seq<char>>::empty(),
        lines_effect(lines, n).0.keybinds == default_keybinds(),
    decreases n,
{
    if n > 0 {
        lemma_template_lines(lines, (n - 1) as nat);
        let s = lines_effect(lines, (n - 1) as nat).0;
        let line = lines[n - 1];
        assert(is_template_line(line));
        let effect = line_effect(s, n, line);
        assert(effect.1 is None && effect.0.keybinds == s.keybinds) by {
            let (a, b) = (template_settings(), template_keybinds());
            if a.contains(line) {
                let i = choose|i: int| 0 <= i < a.len() && a[i] == line;
                law_template_settings_accepted(s, n, i);
            } else if b.contains(line) {
                let i = choose|i: int| 0 <= i < b.len() && b[i] == line;
                law_template_keybinds_are_defaults(s, n, i);
            }
        }
    }
}

} // verus!
