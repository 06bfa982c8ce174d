//! User settings, from a `key = value` config file.
//!
//! The file lives at `$XDG_CONFIG_HOME/tessera/config` (or
//! `~/.config/tessera/config`). Every key is optional; anything missing keeps its
//! built-in default. Unknown keys, bad values and malformed lines are reported and
//! skipped, but never abort startup: a broken config still gives you a terminal. A line
//! that starts with `#` is a comment, and so is what follows a blank and a `#` behind a
//! value.
//!
//! Supported keys:
//!   font-family       name of an installed font (e.g. "JetBrains Mono")
//!   font-size         point size (default 14)
//!   theme             one of the bundled themes (default "default")
//!   window-padding-x  horizontal breathing room inside each pane (default 8)
//!   window-padding-y  vertical breathing room inside each pane (default 8)
//!   shell             program to launch in each pane (default $SHELL)
//!   background        "#rrggbb" override on top of the theme
//!   foreground        "#rrggbb" override on top of the theme
//!   keybind-...       the rebindable shortcuts

use vstd::prelude::*;
use vstd::slice::slice_subrange;

use crate::case::{is_ascii_text, lower_text, to_lowercase};
use crate::color::{hex_color, parse_hex};
use crate::keys::{
    default_keybinds, keyspec_of, parse_keyspec, spec_view, KeySpec, KeySpecView, Keybinds,
    KeybindsView,
};
use crate::number::{ascii_lower, digits, is_number, is_plain_number, Number};
use crate::template::{template, template_text};
use crate::text::{
    all_white, decimal, decimal_text, digits_value, find, find_from, is_tight, is_white,
    law_decimal_reads_back, lemma_find, lemma_find_behind, lemma_find_in_front,
    lemma_split_between, lemma_split_whole, lemma_trim_end_behind, lemma_trim_start_white,
    lemma_trimmed, lemma_trimmed_trim_end, spells, split, split_at_each, texts, to_chars, to_text,
    trim, trim_end, trim_start, trimmed, views, white,
};
use crate::theme::{
    is_bundled, theme_colors, theme_list, theme_palette, ColorPalette, PaletteView,
};

verus! {

/// Parsed, ready-to-apply user settings.
#[derive(Debug)]
pub struct Settings {
    pub font_family: Option<String>,
    pub font_size: Number,
    pub theme: String,
    pub padding: (Number, Number),
    pub shell: Option<String>,
    pub background: Option<String>,
    pub foreground: Option<String>,
    pub keybinds: Keybinds,
}

/// What a `Settings` holds.
pub struct SettingsView {
    pub font_family: Option<Seq<char>>,
    pub font_size: Seq<char>,
    pub theme: Seq<char>,
    pub padding: (Seq<char>, Seq<char>),
    pub shell: Option<Seq<char>>,
    pub background: Option<Seq<char>>,
    pub foreground: Option<Seq<char>>,
    pub keybinds: KeybindsView,
}

/// `text`, if there is one, as a sequence of characters.
pub open spec fn opt_view(text: Option<String>) -> Option<Seq<char>> {
    match text {
        Some(t) => Some(t@),
        None => None,
    }
}

impl View for Settings {
    type V = SettingsView;

    open spec fn view(&self) -> SettingsView {
        SettingsView {
            font_family: opt_view(self.font_family),
            font_size: self.font_size@,
            theme: self.theme@,
            padding: (self.padding.0@, self.padding.1@),
            shell: opt_view(self.shell),
            background: opt_view(self.background),
            foreground: opt_view(self.foreground),
            keybinds: self.keybinds@,
        }
    }
}

/// The settings that hold where the config says nothing.
pub open spec fn default_settings() -> SettingsView {
    SettingsView {
        font_family: None,
        font_size: "14"@,
        theme: "default"@,
        padding: ("8"@, "8"@),
        shell: None,
        background: None,
        foreground: None,
        keybinds: default_keybinds(),
    }
}

/// The default numbers are spelt as numbers.
pub(crate) proof fn lemma_default_numbers()
    ensures
        is_number("14"@),
        is_number("8"@),
{
    reveal_strlit("14");
    reveal_strlit("8");
    reveal_with_fuel(digits, 3);
    assert("14"@.drop_first().drop_first().len() == 0);
    assert("8"@.drop_first().len() == 0);
    assert(is_plain_number("14"@));
    assert(is_plain_number("8"@));
}

impl Default for Settings {
    fn default() -> (r: Settings)
        ensures
            r@ == default_settings(),
    {
        proof {
            lemma_default_numbers();
        }
        Settings {
            font_family: None,
            font_size: Number::new("14").unwrap(),
            theme: "default".to_owned(),
            padding: (Number::new("8").unwrap(), Number::new("8").unwrap()),
            shell: None,
            background: None,
            foreground: None,
            keybinds: Keybinds::default(),
        }
    }
}

/// `val` without one pair of surrounding double quotes.
pub open spec fn unquoted(val: Seq<char>) -> Seq<char> {
    if val.len() >= 2 && val[0] == '"' && val.last() == '"' {
        val.subrange(1, val.len() - 1)
    } else {
        val
    }
}

/// Strips a single pair of surrounding double quotes, if present.
pub fn unquote(val: &str) -> (r: &str)
    ensures
        r@ == unquoted(val@),
{
    let n = val.unicode_len();
    if n >= 2 && val.get_char(0) == '"' && val.get_char(n - 1) == '"' {
        val.substring_char(1, n - 1)
    } else {
        val
    }
}

/// How much of `v` is a quoted part that it starts with, the quotes included: nothing
/// where no quote opens it, or none closes it.
pub open spec fn quoted_len(v: Seq<char>) -> int {
    if v.len() > 0 && v[0] == '"' && find(v.skip(1), '"') < v.len() - 1 {
        find(v.skip(1), '"') + 2
    } else {
        0
    }
}

/// Whether a comment starts at `i`: a `#` behind white space, which is neither the
/// first character nor in the quoted part.
pub open spec fn comment_at(v: Seq<char>, i: int) -> bool {
    0 < i < v.len() && quoted_len(v) <= i && v[i] == '#' && is_white(v[i - 1])
}

/// Where the first comment at or after `from` starts, or the length of `v` where there
/// is none.
pub open spec fn comment_from(v: Seq<char>, from: int) -> int
    decreases v.len() - from,
{
    if from >= v.len() || comment_at(v, from) {
        from
    } else {
        comment_from(v, from + 1)
    }
}

/// `v` without the comment behind it.
pub open spec fn uncommented(v: Seq<char>) -> Seq<char> {
    v.take(comment_from(v, 0))
}

/// What `comment_from` gives is where a comment starts, or the end, and no comment
/// starts before it.
pub proof fn lemma_comment_from(v: Seq<char>, from: int)
    requires
        0 <= from <= v.len(),
    ensures
        from <= comment_from(v, from) <= v.len(),
        comment_from(v, from) < v.len() ==> comment_at(v, comment_from(v, from)),
        forall|i: int| from <= i < comment_from(v, from) ==> !comment_at(v, i),
    decreases v.len() - from,
{
    if from < v.len() && !comment_at(v, from) {
        lemma_comment_from(v, from + 1);
    }
}

/// Strips a trailing comment. A `#` that the value starts with is no comment, because
/// it is also the prefix of a colour; nor is one between quotes, or inside a word.
pub fn uncomment(v: &[char]) -> (r: &[char])
    ensures
        r@ == uncommented(v@),
{
    let mut quoted: usize = 0;
    if v.len() > 0 && v[0] == '"' {
        let close = find_from(v, 1, '"');
        if close < v.len() {
            quoted = close + 1;
        }
    }
    assert(quoted == quoted_len(v@));
    let mut i: usize = 0;
    while i < v.len() && !(i > 0 && i >= quoted && v[i] == '#' && white(v[i - 1]))
        invariant
            i <= v@.len(),
            quoted == quoted_len(v@),
            comment_from(v@, 0) == comment_from(v@, i as int),
        decreases v@.len() - i,
    {
        i += 1;
    }
    assert(v@.subrange(0, i as int) == v@.take(i as int));
    slice_subrange(v, 0, i)
}

/// The value that stands behind an equals sign: without blanks around it, a comment
/// behind it, and quotes around what is left.
pub open spec fn value_of(rest: Seq<char>) -> Seq<char> {
    unquoted(trimmed(uncommented(trimmed(rest))))
}

/// `val`, unless it is empty.
pub open spec fn unless_empty(val: Seq<char>) -> Option<Seq<char>> {
    if val.len() == 0 {
        None
    } else {
        Some(val)
    }
}

/// The text, unless it is empty.
pub fn some_unless_empty(val: &str) -> (r: Option<String>)
    ensures
        opt_view(r) == unless_empty(val@),
{
    if val.is_empty() {
        None
    } else {
        Some(val.to_owned())
    }
}

/// `s` with a hyphen for every space and underscore.
pub open spec fn hyphenated(s: Seq<char>) -> Seq<char> {
    s.map_values(|c: char| if c == ' ' || c == '_' { '-' } else { c })
}

/// Puts a hyphen for every space and underscore.
pub fn hyphenate(s: &str) -> (r: String)
    ensures
        r@ == hyphenated(s@),
{
    let chars = to_chars(s);
    let mut out = String::new();
    let mut i: usize = 0;
    while i < chars.len()
        invariant
            i <= chars@.len(),
            out@ == hyphenated(chars@).take(i as int),
        decreases chars@.len() - i,
    {
        let c = chars[i];
        out.push(if c == ' ' || c == '_' { '-' } else { c });
        i += 1;
        assert(out@ == hyphenated(chars@).take(i as int));
    }
    assert(hyphenated(chars@).take(i as int) == hyphenated(chars@));
    out
}

/// The form in which theme names are compared.
pub open spec fn normal_theme(val: Seq<char>) -> Seq<char> {
    hyphenated(lower_text(val))
}

/// Theme names are matched leniently: case-insensitive, spaces or underscores
/// treated as hyphens. So "Catppuccin Mocha" == "catppuccin-mocha".
pub fn normalize_theme(val: &str) -> (r: String)
    ensures
        r@ == normal_theme(val@),
{
    let low = to_lowercase(val);
    hyphenate(low.as_str())
}

/// The start of a warning about line `n`.
pub open spec fn at_line(n: nat) -> Seq<char> {
    "line "@ + decimal(n)
}

/// The warning that `complaint` is about line `n`.
pub open spec fn warning(n: nat, complaint: Seq<char>) -> Seq<char> {
    at_line(n) + complaint
}

/// The warning about a line that is no `key = value`.
pub open spec fn shape_warning(n: nat, line: Seq<char>) -> Seq<char> {
    warning(n, ": expected `key = value`, got `"@ + line + "`"@)
}

/// The warning about a key that is not known.
pub open spec fn key_warning(n: nat, key: Seq<char>) -> Seq<char> {
    warning(n, ": unknown key `"@ + key + "`"@)
}

/// The warning about a value that should be a number.
pub open spec fn number_warning(n: nat, key: Seq<char>, val: Seq<char>) -> Seq<char> {
    warning(n, ": `"@ + key + "` needs a number, got `"@ + val + "`"@)
}

/// The warning about a value that should be a keybinding.
pub open spec fn bind_warning(n: nat, val: Seq<char>) -> Seq<char> {
    warning(n, ": couldn't parse keybinding `"@ + val + "`"@)
}

/// The warning about a value that should be a colour.
pub open spec fn color_warning(n: nat, key: Seq<char>, val: Seq<char>) -> Seq<char> {
    warning(n, ": `"@ + key + "` needs a colour like `#rrggbb`, got `"@ + val + "`"@)
}

/// The warning about a theme that is not bundled.
pub open spec fn theme_warning(n: nat, val: Seq<char>) -> Seq<char> {
    warning(n, ": unknown theme `"@ + val + "`"@)
}

fn line_start(n: usize) -> (r: String)
    ensures
        r@ == at_line(n as nat),
{
    let mut out = "line ".to_owned();
    out.append(decimal_text(n).as_str());
    out
}

fn warn_shape(n: usize, line: &str) -> (r: String)
    ensures
        r@ == shape_warning(n as nat, line@),
{
    let mut out = line_start(n);
    out.append(": expected `key = value`, got `");
    out.append(line);
    out.append("`");
    out
}

fn warn_key(n: usize, key: &str) -> (r: String)
    ensures
        r@ == key_warning(n as nat, key@),
{
    let mut out = line_start(n);
    out.append(": unknown key `");
    out.append(key);
    out.append("`");
    out
}

/// `old`, or `val` where that spells a number.
pub open spec fn number_or(old: Seq<char>, val: Seq<char>) -> Seq<char> {
    if is_number(val) {
        val
    } else {
        old
    }
}

/// The warning that a value for a numeric key earns.
pub open spec fn number_note(n: nat, key: Seq<char>, val: Seq<char>) -> Option<Seq<char>> {
    if is_number(val) {
        None
    } else {
        Some(number_warning(n, key, val))
    }
}

/// Parses a number into `target`, warning (and keeping what it was) on failure.
pub fn set_num(target: &mut Number, val: &str, key: &str, line: usize) -> (r: Option<String>)
    ensures
        final(target)@ == number_or(old(target)@, val@),
        opt_view(r) == number_note(line as nat, key@, val@),
{
    match Number::new(val) {
        Some(n) => {
            *target = n;
            None
        },
        None => {
            let mut out = line_start(line);
            out.append(": `");
            out.append(key);
            out.append("` needs a number, got `");
            out.append(val);
            out.append("`");
            Some(out)
        },
    }
}

/// `old`, or the binding that `val` writes.
pub open spec fn bind_or(old: KeySpecView, val: Seq<char>) -> KeySpecView {
    match keyspec_of(val) {
        Some(spec) => spec,
        None => old,
    }
}

/// The warning that a value for a keybinding earns.
pub open spec fn bind_note(n: nat, val: Seq<char>) -> Option<Seq<char>> {
    match keyspec_of(val) {
        Some(_) => None,
        None => Some(bind_warning(n, val)),
    }
}

/// Takes over the binding that was found for `val`, warning (and keeping what was
/// there) where none was.
pub fn take_bind(target: &mut KeySpec, found: Option<KeySpec>, val: &str, line: usize) -> (r:
    Option<String>)
    ensures
        final(target)@ == (match spec_view(found) {
            Some(spec) => spec,
            None => old(target)@,
        }),
        opt_view(r) == (match spec_view(found) {
            Some(_) => None,
            None => Some(bind_warning(line as nat, val@)),
        }),
{
    match found {
        Some(spec) => {
            *target = spec;
            None
        },
        None => {
            let mut out = line_start(line);
            out.append(": couldn't parse keybinding `");
            out.append(val);
            out.append("`");
            Some(out)
        },
    }
}

/// Parses a keybinding into `target`, warning (and keeping what it was) on failure.
pub fn set_bind(target: &mut KeySpec, val: &str, line: usize) -> (r: Option<String>)
    ensures
        final(target)@ == bind_or(old(target)@, val@),
        opt_view(r) == bind_note(line as nat, val@),
{
    take_bind(target, parse_keyspec(val), val, line)
}

/// Whether a value can be taken for a colour: it is one, or empty, which unsets it.
pub open spec fn takes_color(val: Seq<char>) -> bool {
    val.len() == 0 || hex_color(val) is Some
}

/// `old`, or what `val` makes of a colour.
pub open spec fn color_or(old: Option<Seq<char>>, val: Seq<char>) -> Option<Seq<char>> {
    if takes_color(val) {
        unless_empty(val)
    } else {
        old
    }
}

/// The warning that a value for a colour earns.
pub open spec fn color_note(n: nat, key: Seq<char>, val: Seq<char>) -> Option<Seq<char>> {
    if takes_color(val) {
        None
    } else {
        Some(color_warning(n, key, val))
    }
}

/// Takes over a colour, warning (and keeping what was there) where the value is none. An
/// empty value leaves the theme's own.
pub fn set_color(target: &mut Option<String>, val: &str, key: &str, line: usize) -> (r: Option<
    String,
>)
    ensures
        opt_view(*final(target)) == color_or(opt_view(*old(target)), val@),
        opt_view(r) == color_note(line as nat, key@, val@),
{
    if val.is_empty() || parse_hex(val).is_some() {
        *target = some_unless_empty(val);
        None
    } else {
        let mut out = line_start(line);
        out.append(": `");
        out.append(key);
        out.append("` needs a colour like `#rrggbb`, got `");
        out.append(val);
        out.append("`");
        Some(out)
    }
}

/// `old`, or the bundled theme that `val` names.
pub open spec fn theme_or(old: Seq<char>, val: Seq<char>) -> Seq<char> {
    if theme_list().contains(normal_theme(val)) {
        normal_theme(val)
    } else {
        old
    }
}

/// The warning that a value for the theme earns.
pub open spec fn theme_note(n: nat, val: Seq<char>) -> Option<Seq<char>> {
    if theme_list().contains(normal_theme(val)) {
        None
    } else {
        Some(theme_warning(n, val))
    }
}

/// Takes over a theme's name, warning (and keeping what was there) where no bundled
/// theme has it.
pub fn set_theme(target: &mut String, val: &str, line: usize) -> (r: Option<String>)
    ensures
        final(target)@ == theme_or(old(target)@, val@),
        opt_view(r) == theme_note(line as nat, val@),
{
    let name = normalize_theme(val);
    if is_bundled(name.as_str()) {
        *target = name;
        None
    } else {
        let mut out = line_start(line);
        out.append(": unknown theme `");
        out.append(val);
        out.append("`");
        Some(out)
    }
}

/// What one `key = value` does to the settings, and the warning it earns.
pub open spec fn entry_effect(s: SettingsView, n: nat, key: Seq<char>, val: Seq<char>) -> (
    SettingsView,
    Option<Seq<char>>,
) {
    let binds = s.keybinds;
    if key == "font-family"@ {
        (SettingsView { font_family: unless_empty(val), ..s }, None)
    } else if key == "font-size"@ {
        (SettingsView { font_size: number_or(s.font_size, val), ..s }, number_note(n, key, val))
    } else if key == "theme"@ {
        (SettingsView { theme: theme_or(s.theme, val), ..s }, theme_note(n, val))
    } else if key == "window-padding-x"@ {
        (
            SettingsView { padding: (number_or(s.padding.0, val), s.padding.1), ..s },
            number_note(n, key, val),
        )
    } else if key == "window-padding-y"@ {
        (
            SettingsView { padding: (s.padding.0, number_or(s.padding.1, val)), ..s },
            number_note(n, key, val),
        )
    } else if key == "shell"@ || key == "command"@ {
        (SettingsView { shell: unless_empty(val), ..s }, None)
    } else if key == "background"@ {
        (
            SettingsView { background: color_or(s.background, val), ..s },
            color_note(n, key, val),
        )
    } else if key == "foreground"@ {
        (
            SettingsView { foreground: color_or(s.foreground, val), ..s },
            color_note(n, key, val),
        )
    } else if key == "keybind-new-tab"@ {
        (
            SettingsView {
                keybinds: KeybindsView { new_tab: bind_or(binds.new_tab, val), ..binds },
                ..s
            },
            bind_note(n, val),
        )
    } else if key == "keybind-split-right"@ {
        (
            SettingsView {
                keybinds: KeybindsView { split_right: bind_or(binds.split_right, val), ..binds },
                ..s
            },
            bind_note(n, val),
        )
    } else if key == "keybind-split-down"@ {
        (
            SettingsView {
                keybinds: KeybindsView { split_down: bind_or(binds.split_down, val), ..binds },
                ..s
            },
            bind_note(n, val),
        )
    } else if key == "keybind-close-pane"@ {
        (
            SettingsView {
                keybinds: KeybindsView { close_pane: bind_or(binds.close_pane, val), ..binds },
                ..s
            },
            bind_note(n, val),
        )
    } else if key == "keybind-find"@ {
        (
            SettingsView {
                keybinds: KeybindsView { find: bind_or(binds.find, val), ..binds },
                ..s
            },
            bind_note(n, val),
        )
    } else if key == "keybind-clear"@ {
        (
            SettingsView {
                keybinds: KeybindsView { clear: bind_or(binds.clear, val), ..binds },
                ..s
            },
            bind_note(n, val),
        )
    } else {
        (s, Some(key_warning(n, key)))
    }
}

/// What one line does to the settings, and the warning it earns. Blank lines and
/// lines that start with `#` do nothing.
pub open spec fn line_effect(s: SettingsView, n: nat, raw: Seq<char>) -> (
    SettingsView,
    Option<Seq<char>>,
) {
    let line = trimmed(raw);
    let eq = find(line, '=');
    if line.len() == 0 || line[0] == '#' {
        (s, None)
    } else if eq >= line.len() {
        (s, Some(shape_warning(n, line)))
    } else {
        entry_effect(s, n, trimmed(line.take(eq)), value_of(line.skip(eq + 1)))
    }
}

/// The settings and warnings after the first `n` of `lines`.
pub open spec fn lines_effect(lines: Seq<Seq<char>>, n: nat) -> (SettingsView, Seq<Seq<char>>)
    decreases n,
{
    if n == 0 {
        (default_settings(), Seq::empty())
    } else {
        let (s, warnings) = lines_effect(lines, (n - 1) as nat);
        let (s, warning) = line_effect(s, n, lines[n - 1]);
        match warning {
            Some(w) => (s, warnings.push(w)),
            None => (s, warnings),
        }
    }
}

/// The settings and warnings that a config text gives.
pub open spec fn parsed(text: Seq<char>) -> (SettingsView, Seq<Seq<char>>) {
    let lines = split(text, '\n');
    lines_effect(lines, lines.len())
}

fn apply_entry(s: &mut Settings, line: usize, key: &[char], val: &str) -> (r: Option<String>)
    ensures
        (final(s)@, opt_view(r)) == entry_effect(old(s)@, line as nat, key@, val@),
{
    let name = to_text(key);
    if spells(key, "font-family") {
        s.font_family = some_unless_empty(val);
        None
    } else if spells(key, "font-size") {
        set_num(&mut s.font_size, val, name.as_str(), line)
    } else if spells(key, "theme") {
        set_theme(&mut s.theme, val, line)
    } else if spells(key, "window-padding-x") {
        set_num(&mut s.padding.0, val, name.as_str(), line)
    } else if spells(key, "window-padding-y") {
        set_num(&mut s.padding.1, val, name.as_str(), line)
    } else if spells(key, "shell") || spells(key, "command") {
        s.shell = some_unless_empty(val);
        None
    } else if spells(key, "background") {
        set_color(&mut s.background, val, name.as_str(), line)
    } else if spells(key, "foreground") {
        set_color(&mut s.foreground, val, name.as_str(), line)
    } else if spells(key, "keybind-new-tab") {
        set_bind(&mut s.keybinds.new_tab, val, line)
    } else if spells(key, "keybind-split-right") {
        set_bind(&mut s.keybinds.split_right, val, line)
    } else if spells(key, "keybind-split-down") {
        set_bind(&mut s.keybinds.split_down, val, line)
    } else if spells(key, "keybind-close-pane") {
        set_bind(&mut s.keybinds.close_pane, val, line)
    } else if spells(key, "keybind-find") {
        set_bind(&mut s.keybinds.find, val, line)
    } else if spells(key, "keybind-clear") {
        set_bind(&mut s.keybinds.clear, val, line)
    } else {
        Some(warn_key(line, name.as_str()))
    }
}

fn apply_line(s: &mut Settings, line: usize, raw: &[char]) -> (r: Option<String>)
    ensures
        (final(s)@, opt_view(r)) == line_effect(old(s)@, line as nat, raw@),
{
    let body = trim(raw);
    // Blank lines and whole-line `#` comments are skipped.
    if body.len() == 0 || body[0] == '#' {
        return None;
    }
    let eq = find_from(body, 0, '=');
    assert(body@.skip(0) == body@);
    if eq == body.len() {
        let text = to_text(body);
        return Some(warn_shape(line, text.as_str()));
    }
    let key = trim(slice_subrange(body, 0, eq));
    let val = trim(uncomment(trim(slice_subrange(body, eq + 1, body.len()))));
    assert(body@.subrange(0, eq as int) == body@.take(eq as int));
    assert(body@.subrange(eq + 1, body@.len() as int) == body@.skip(eq + 1));
    let val = to_text(val);
    apply_entry(s, line, key, unquote(val.as_str()))
}

/// Parses config text into `Settings`, collecting human-readable warnings for
/// anything that makes no sense.
pub fn parse(text: &str) -> (r: (Settings, Vec<String>))
    ensures
        (r.0@, texts(r.1@)) == parsed(text@),
{
    let chars = to_chars(text);
    let lines = split_at_each(chars.as_slice(), '\n');
    let mut s = Settings::default();
    let mut warnings: Vec<String> = Vec::new();
    let mut i: usize = 0;
    assert(texts(warnings@) == Seq::<Seq<char>>::empty());
    while i < lines.len()
        invariant
            i <= lines@.len(),
            (s@, texts(warnings@)) == lines_effect(views(lines@), i as nat),
        decreases lines@.len() - i,
    {
        let ghost before = texts(warnings@);
        let note = apply_line(&mut s, i + 1, lines[i]);
        assert(views(lines@)[i as int] == lines@[i as int]@);
        i += 1;
        if let Some(w) = note {
            warnings.push(w);
            assert(texts(warnings@) == before.push(w@));
        }
    }
    (s, warnings)
}

/// The colour `over` where that is a well-formed one, else `color`.
pub open spec fn overridden(color: Seq<char>, over: Option<Seq<char>>) -> Seq<char> {
    match over {
        Some(c) => if hex_color(c) is Some {
            c
        } else {
            color
        },
        None => color,
    }
}

/// The colours that settings ask for, on top of the terminal's own palette `base`.
pub open spec fn palette_of(s: SettingsView, base: PaletteView) -> PaletteView {
    let colors = theme_colors(s.theme, base);
    PaletteView {
        background: overridden(colors.background, s.background),
        foreground: overridden(colors.foreground, s.foreground),
        ..colors
    }
}

/// Where the config file is: a directory, and the names that lead on from it.
#[derive(Debug)]
pub struct ConfigPath {
    /// The directory, in the encoding of the environment.
    pub dir: Vec<u8>,
    /// The names to join to it, one after the other.
    pub segments: Vec<String>,
}

/// What a `ConfigPath` holds.
pub struct ConfigPathView {
    pub dir: Seq<u8>,
    pub segments: Seq<Seq<char>>,
}

impl View for ConfigPath {
    type V = ConfigPathView;

    open spec fn view(&self) -> ConfigPathView {
        ConfigPathView { dir: self.dir@, segments: texts(self.segments@) }
    }
}

/// `bytes`, if there are any, as a sequence.
pub open spec fn opt_bytes(bytes: Option<Vec<u8>>) -> Option<Seq<u8>> {
    match bytes {
        Some(b) => Some(b@),
        None => None,
    }
}

/// `path`, if there is one, as what it holds.
pub open spec fn opt_path(path: Option<ConfigPath>) -> Option<ConfigPathView> {
    match path {
        Some(p) => Some(p@),
        None => None,
    }
}

/// Where the config file is, by the values of `XDG_CONFIG_HOME` and `HOME`.
pub open spec fn config_location(xdg: Option<Seq<u8>>, home: Option<Seq<u8>>) -> Option<
    ConfigPathView,
> {
    if xdg is Some && xdg->0.len() > 0 {
        Some(ConfigPathView { dir: xdg->0, segments: seq!["tessera"@, "config"@] })
    } else {
        match home {
            Some(dir) => Some(
                ConfigPathView { dir, segments: seq![".config"@, "tessera"@, "config"@] },
            ),
            None => None,
        }
    }
}

/// `$XDG_CONFIG_HOME/tessera/config`, falling back to `~/.config/tessera/config`.
pub fn config_path(xdg: Option<Vec<u8>>, home: Option<Vec<u8>>) -> (r: Option<ConfigPath>)
    ensures
        opt_path(r) == config_location(opt_bytes(xdg), opt_bytes(home)),
{
    if let Some(dir) = xdg {
        if dir.len() > 0 {
            let segments = vec!["tessera".to_owned(), "config".to_owned()];
            assert(texts(segments@) == seq!["tessera"@, "config"@]);
            return Some(ConfigPath { dir, segments });
        }
    }
    match home {
        Some(dir) => {
            let segments = vec![".config".to_owned(), "tessera".to_owned(), "config".to_owned()];
            assert(texts(segments@) == seq![".config"@, "tessera"@, "config"@]);
            Some(ConfigPath { dir, segments })
        },
        None => None,
    }
}

/// A config file that is there to be opened, once `template` is written to it.
#[derive(Debug)]
pub struct ConfigFile {
    pub path: ConfigPath,
    /// What to write to the file first, where there is none yet.
    pub template: Option<String>,
}

/// The config file to open, with a commented template to write there first if the
/// file doesn't exist yet. `None` only where no config directory is known.
pub fn ensure_file(path: Option<ConfigPath>, exists: bool) -> (r: Option<ConfigFile>)
    ensures
        match r {
            Some(file) => {
                &&& path == Some(file.path)
                &&& opt_view(file.template) == (if exists {
                    None
                } else {
                    Some(template_text())
                })
            },
            None => path is None,
        },
{
    match path {
        Some(path) => {
            let template = if exists {
                None
            } else {
                Some(template())
            };
            Some(ConfigFile { path, template })
        },
        None => None,
    }
}

/// What came of reading the config file.
#[derive(Debug)]
pub enum ConfigRead {
    /// No config directory is known.
    Nowhere,
    /// The text of the file.
    Text(String),
    /// There is no file.
    Missing,
    /// There is a file, but it cannot be read as text.
    Unreadable,
}

/// Settings, and what is to be done on account of how they came about.
#[derive(Debug)]
pub struct Loaded {
    pub settings: Settings,
    /// The messages to print.
    pub messages: Vec<String>,
    /// What to write to the config file, for the user to edit.
    pub template: Option<String>,
}

/// The messages that warnings are printed as.
pub open spec fn messages_of(warnings: Seq<Seq<char>>) -> Seq<Seq<char>> {
    warnings.map_values(|w: Seq<char>| "tessera: config: "@ + w)
}

fn as_messages(warnings: &Vec<String>) -> (r: Vec<String>)
    ensures
        texts(r@) == messages_of(texts(warnings@)),
{
    let mut out: Vec<String> = Vec::new();
    let mut i: usize = 0;
    while i < warnings.len()
        invariant
            i <= warnings@.len(),
            texts(out@) == messages_of(texts(warnings@)).take(i as int),
        decreases warnings@.len() - i,
    {
        let mut m = "tessera: config: ".to_owned();
        m.append(warnings[i].as_str());
        let ghost before = texts(out@);
        out.push(m);
        assert(texts(out@) == before.push("tessera: config: "@ + texts(warnings@)[i as int]));
        i += 1;
        assert(texts(out@) == messages_of(texts(warnings@)).take(i as int));
    }
    assert(texts(out@) == messages_of(texts(warnings@)));
    out
}

impl Settings {
    /// The settings by what came of reading the config file, with the messages to
    /// print. No file gives all defaults, and a commented template to write there
    /// for discoverability. A file that cannot be read gives all defaults too, and is
    /// left alone.
    pub fn load(read: ConfigRead) -> (r: Loaded)
        ensures
            r.settings@ == match read {
                ConfigRead::Text(text) => parsed(text@).0,
                _ => default_settings(),
            },
            texts(r.messages@) == match read {
                ConfigRead::Text(text) => messages_of(parsed(text@).1),
                _ => Seq::empty(),
            },
            opt_view(r.template) == match read {
                ConfigRead::Missing => Some(template_text()),
                _ => None,
            },
    {
        let messages: Vec<String> = Vec::new();
        assert(texts(messages@) == Seq::<Seq<char>>::empty());
        match read {
            ConfigRead::Text(text) => {
                let (settings, warnings) = parse(text.as_str());
                Loaded { settings, messages: as_messages(&warnings), template: None }
            },
            ConfigRead::Missing => Loaded {
                settings: Settings::default(),
                messages,
                template: Some(template()),
            },
            ConfigRead::Nowhere | ConfigRead::Unreadable => Loaded {
                settings: Settings::default(),
                messages,
                template: None,
            },
        }
    }

    /// The ANSI colour palette for the chosen theme, with `background` /
    /// `foreground` overrides applied on top. `base` is the terminal's own palette,
    /// for themes that are not bundled.
    pub fn palette(&self, base: ColorPalette) -> (r: ColorPalette)
        ensures
            r@ == palette_of(self@, base@),
    {
        let mut p = theme_palette(self.theme.as_str(), base);
        if let Some(bg) = &self.background {
            if parse_hex(bg.as_str()).is_some() {
                p.background = bg.clone();
            }
        }
        if let Some(fg) = &self.foreground {
            if parse_hex(fg.as_str()).is_some() {
                p.foreground = fg.clone();
            }
        }
        p
    }
}

/// Whether a line is blank or a comment.
pub open spec fn is_idle_line(raw: Seq<char>) -> bool {
    trimmed(raw).len() == 0 || trimmed(raw)[0] == '#'
}

/// A line that earns a warning changes nothing: a broken config still gives you a
/// terminal, with what was set before.
pub proof fn law_rejected_line(s: SettingsView, n: nat, raw: Seq<char>)
    ensures
        line_effect(s, n, raw).1 is Some ==> line_effect(s, n, raw).0 == s,
{
}

/// A config of blank lines and comments gives the defaults, and no warning.
pub proof fn law_idle_config(text: Seq<char>)
    requires
        forall|i: int|
            0 <= i < split(text, '\n').len() ==> is_idle_line(#[trigger] split(text, '\n')[i]),
    ensures
        parsed(text) == (default_settings(), Seq::<Seq<char>>::empty()),
{
    lemma_idle_lines(split(text, '\n'), split(text, '\n').len());
}

proof fn lemma_idle_lines(lines: Seq<Seq<char>>, n: nat)
    requires
        n <= lines.len(),
        forall|i: int| 0 <= i < lines.len() ==> is_idle_line(#[trigger] lines[i]),
    ensures
        lines_effect(lines, n) == (default_settings(), Seq::<Seq<char>>::empty()),
    decreases n,
{
    if n > 0 {
        lemma_idle_lines(lines, (n - 1) as nat);
        assert(is_idle_line(lines[n - 1]));
    }
}

/// Whether a complaint is told apart from the line number in front of it.
pub open spec fn is_complaint(complaint: Seq<char>) -> bool {
    complaint.len() > 0 && complaint[0] == ':'
}

/// Whether `a` about line `n` and `b` about line `m` are the same but for that number.
pub open spec fn same_complaint(a: Seq<char>, n: nat, b: Seq<char>, m: nat) -> bool {
    exists|c: Seq<char>| is_complaint(c) && a == #[trigger] warning(n, c) && b == warning(m, c)
}

/// Where a line stands makes no difference to what it does, only to the number in the
/// warning that it earns.
pub proof fn law_line_anywhere(s: SettingsView, n: nat, m: nat, raw: Seq<char>)
    ensures
        line_effect(s, n, raw).0 == line_effect(s, m, raw).0,
        match (line_effect(s, n, raw).1, line_effect(s, m, raw).1) {
            (Some(a), Some(b)) => same_complaint(a, n, b, m),
            (None, None) => true,
            _ => false,
        },
{
    let line = trimmed(raw);
    let eq = find(line, '=');
    if line.len() > 0 && line[0] != '#' {
        if eq >= line.len() {
            reveal_strlit(": expected `key = value`, got `");
            let c = ": expected `key = value`, got `"@ + line + "`"@;
            assert(is_complaint(c));
            assert(shape_warning(n, line) == warning(n, c));
        } else {
            lemma_entry_anywhere(s, n, m, trimmed(line.take(eq)), value_of(line.skip(eq + 1)));
        }
    }
}

proof fn lemma_entry_anywhere(
    s: SettingsView,
    n: nat,
    m: nat,
    key: Seq<char>,
    val: Seq<char>,
)
    ensures
        entry_effect(s, n, key, val).0 == entry_effect(s, m, key, val).0,
        match (entry_effect(s, n, key, val).1, entry_effect(s, m, key, val).1) {
            (Some(a), Some(b)) => same_complaint(a, n, b, m),
            (None, None) => true,
            _ => false,
        },
{
    reveal_strlit(": unknown key `");
    reveal_strlit(": `");
    reveal_strlit(": couldn't parse keybinding `");
    reveal_strlit(": unknown theme `");
    let c1 = ": unknown key `"@ + key + "`"@;
    let c2 = ": `"@ + key + "` needs a number, got `"@ + val + "`"@;
    let c3 = ": couldn't parse keybinding `"@ + val + "`"@;
    let c4 = ": `"@ + key + "` needs a colour like `#rrggbb`, got `"@ + val + "`"@;
    let c5 = ": unknown theme `"@ + val + "`"@;
    assert(is_complaint(c1) && is_complaint(c2) && is_complaint(c3) && is_complaint(c4)
        && is_complaint(c5));
    assert(same_complaint(key_warning(n, key), n, key_warning(m, key), m)) by {
        assert(key_warning(n, key) == warning(n, c1));
    }
    assert(same_complaint(number_warning(n, key, val), n, number_warning(m, key, val), m)) by {
        assert(number_warning(n, key, val) == warning(n, c2));
    }
    assert(same_complaint(bind_warning(n, val), n, bind_warning(m, val), m)) by {
        assert(bind_warning(n, val) == warning(n, c3));
    }
    assert(same_complaint(color_warning(n, key, val), n, color_warning(m, key, val), m)) by {
        assert(color_warning(n, key, val) == warning(n, c4));
    }
    assert(same_complaint(theme_warning(n, val), n, theme_warning(m, val), m)) by {
        assert(theme_warning(n, val) == warning(n, c5));
    }
}

/// Whether `a` is a warning about a line behind the first `i`, and `b` the same warning
/// about the line after that one.
pub open spec fn moved_down(a: Seq<char>, b: Seq<char>, i: int) -> bool {
    exists|n: nat| n > i && #[trigger] same_complaint(a, n, b, n + 1)
}

/// A blank line or a comment put in front of line `i` (from zero) changes nothing but the
/// numbers of the lines behind it: the settings are the same, the warnings are as many,
/// those of the lines before it are the same, and those of the lines behind it differ in
/// their line numbers, which are one more.
pub proof fn law_idle_line_between_lines(lines: Seq<Seq<char>>, i: int, idle: Seq<char>)
    requires
        0 <= i <= lines.len(),
        is_idle_line(idle),
    ensures
        ({
            let (s, a) = lines_effect(lines, lines.len());
            let (t, b) = lines_effect(lines.insert(i, idle), lines.len() + 1);
            let k = lines_effect(lines, i as nat).1.len();
            &&& s == t
            &&& a.len() == b.len()
            &&& k <= a.len()
            &&& forall|j: int| 0 <= j < k ==> #[trigger] a[j] == b[j]
            &&& forall|j: int| k <= j < a.len() ==> moved_down(#[trigger] a[j], b[j], i)
        }),
{
    lemma_idle_inserted(lines, i, idle, lines.len());
}

proof fn lemma_same_lines(a: Seq<Seq<char>>, b: Seq<Seq<char>>, n: nat)
    requires
        n <= a.len(),
        n <= b.len(),
        forall|j: int| 0 <= j < n ==> #[trigger] a[j] == b[j],
    ensures
        lines_effect(a, n) == lines_effect(b, n),
    decreases n,
{
    if n > 0 {
        lemma_same_lines(a, b, (n - 1) as nat);
        assert(a[n - 1] == b[n - 1]);
    }
}

proof fn lemma_idle_inserted(lines: Seq<Seq<char>>, i: int, idle: Seq<char>, n: nat)
    requires
        0 <= i <= n <= lines.len(),
        is_idle_line(idle),
    ensures
        ({
            let (s, a) = lines_effect(lines, n);
            let (t, b) = lines_effect(lines.insert(i, idle), n + 1);
            let k = lines_effect(lines, i as nat).1.len();
            &&& s == t
            &&& a.len() == b.len()
            &&& k <= a.len()
            &&& forall|j: int| 0 <= j < k ==> #[trigger] a[j] == b[j]
            &&& forall|j: int| k <= j < a.len() ==> moved_down(#[trigger] a[j], b[j], i)
        }),
    decreases n,
{
    let more = lines.insert(i, idle);
    if n == i {
        lemma_same_lines(lines, more, n);
        assert(more[i] == idle);
    } else {
        let before = (n - 1) as nat;
        lemma_idle_inserted(lines, i, idle, before);
        let (s, a) = lines_effect(lines, before);
        let (t, b) = lines_effect(more, n);
        let line = lines[n - 1];
        assert(more[n as int] == line);
        law_line_anywhere(s, n, n + 1, line);
        let (c, d) = (line_effect(s, n, line).1, line_effect(s, n + 1, line).1);
        if c is Some {
            assert(same_complaint(c->0, n, d->0, n + 1));
            let (x, y) = (a.push(c->0), b.push(d->0));
            let k = lines_effect(lines, i as nat).1.len();
            assert forall|j: int| 0 <= j < k implies #[trigger] x[j] == y[j] by {
                assert(a[j] == b[j]);
            }
            assert forall|j: int| k <= j < x.len() implies moved_down(#[trigger] x[j], y[j], i) by {
                if j < a.len() {
                    assert(moved_down(a[j], b[j], i));
                }
            }
        }
    }
}

/// The same of a text: a blank line or a comment between two others.
pub proof fn law_idle_line_between(a: Seq<char>, idle: Seq<char>, b: Seq<char>)
    requires
        is_idle_line(idle),
        !idle.contains('\n'),
    ensures
        ({
            let i = split(a, '\n').len();
            let (s, v) = parsed(a + seq!['\n'] + b);
            let (t, w) = parsed(a + seq!['\n'] + idle + seq!['\n'] + b);
            let k = parsed(a).1.len();
            &&& s == t
            &&& v.len() == w.len()
            &&& k <= v.len()
            &&& forall|j: int| 0 <= j < k ==> #[trigger] v[j] == w[j]
            &&& forall|j: int| k <= j < v.len() ==> moved_down(#[trigger] v[j], w[j], i as int)
        }),
{
    let (x, y) = (split(a, '\n'), split(b, '\n'));
    let i = x.len() as int;
    lemma_split_between(a, b, '\n');
    lemma_split_between(a + seq!['\n'] + idle, b, '\n');
    lemma_split_between(a, idle, '\n');
    lemma_split_whole(idle, '\n');
    assert(x + seq![idle] + y =~= (x + y).insert(i, idle));
    law_idle_line_between_lines(x + y, i, idle);
    lemma_same_lines(x, x + y, x.len());
}

/// No more warnings come than there are lines, and each line is warned of on its own:
/// a line adds at most one warning behind those of the lines before it.
pub proof fn law_one_warning_per_line(lines: Seq<Seq<char>>, n: nat)
    requires
        n < lines.len(),
    ensures
        lines_effect(lines, n + 1).1.len() <= lines_effect(lines, n).1.len() + 1,
        lines_effect(lines, n + 1).1.take(lines_effect(lines, n).1.len() as int) == lines_effect(
            lines,
            n,
        ).1,
{
    let before = lines_effect(lines, n).1;
    assert(lines_effect(lines, n + 1).1.take(before.len() as int) =~= before);
}

/// An entry changes nothing but the setting that its key names.
pub proof fn law_entry_touches_one(s: SettingsView, n: nat, key: Seq<char>, val: Seq<char>)
    ensures
        ({
            let t = entry_effect(s, n, key, val).0;
            &&& key != "font-family"@ ==> t.font_family == s.font_family
            &&& key != "font-size"@ ==> t.font_size == s.font_size
            &&& key != "theme"@ ==> t.theme == s.theme
            &&& key != "window-padding-x"@ ==> t.padding.0 == s.padding.0
            &&& key != "window-padding-y"@ ==> t.padding.1 == s.padding.1
            &&& key != "shell"@ && key != "command"@ ==> t.shell == s.shell
            &&& key != "background"@ ==> t.background == s.background
            &&& key != "foreground"@ ==> t.foreground == s.foreground
            &&& key != "keybind-new-tab"@ ==> t.keybinds.new_tab == s.keybinds.new_tab
            &&& key != "keybind-split-right"@ ==> t.keybinds.split_right == s.keybinds.split_right
            &&& key != "keybind-split-down"@ ==> t.keybinds.split_down == s.keybinds.split_down
            &&& key != "keybind-close-pane"@ ==> t.keybinds.close_pane == s.keybinds.close_pane
            &&& key != "keybind-find"@ ==> t.keybinds.find == s.keybinds.find
            &&& key != "keybind-clear"@ ==> t.keybinds.clear == s.keybinds.clear
        }),
{
}

/// The name of the setting that a key is for, which two keys may share.
pub open spec fn setting_of(key: Seq<char>) -> Seq<char> {
    if key == "command"@ {
        "shell"@
    } else {
        key
    }
}

/// The keys of a config are different words.
pub(crate) proof fn lemma_keys_apart()
    ensures
        "font-size"@ != "font-family"@,
        "theme"@ != "font-family"@,
        "theme"@ != "font-size"@,
        "window-padding-x"@ != "font-family"@,
        "window-padding-x"@ != "font-size"@,
        "window-padding-x"@ != "theme"@,
        "window-padding-y"@ != "font-family"@,
        "window-padding-y"@ != "font-size"@,
        "window-padding-y"@ != "theme"@,
        "window-padding-y"@ != "window-padding-x"@,
        "shell"@ != "font-family"@,
        "shell"@ != "font-size"@,
        "shell"@ != "theme"@,
        "shell"@ != "window-padding-x"@,
        "shell"@ != "window-padding-y"@,
        "command"@ != "font-family"@,
        "command"@ != "font-size"@,
        "command"@ != "theme"@,
        "command"@ != "window-padding-x"@,
        "command"@ != "window-padding-y"@,
        "command"@ != "shell"@,
        "background"@ != "font-family"@,
        "background"@ != "font-size"@,
        "background"@ != "theme"@,
        "background"@ != "window-padding-x"@,
        "background"@ != "window-padding-y"@,
        "background"@ != "shell"@,
        "background"@ != "command"@,
        "foreground"@ != "font-family"@,
        "foreground"@ != "font-size"@,
        "foreground"@ != "theme"@,
        "foreground"@ != "window-padding-x"@,
        "foreground"@ != "window-padding-y"@,
        "foreground"@ != "shell"@,
        "foreground"@ != "command"@,
        "foreground"@ != "background"@,
        "keybind-new-tab"@ != "font-family"@,
        "keybind-new-tab"@ != "font-size"@,
        "keybind-new-tab"@ != "theme"@,
        "keybind-new-tab"@ != "window-padding-x"@,
        "keybind-new-tab"@ != "window-padding-y"@,
        "keybind-new-tab"@ != "shell"@,
        "keybind-new-tab"@ != "command"@,
        "keybind-new-tab"@ != "background"@,
        "keybind-new-tab"@ != "foreground"@,
        "keybind-split-right"@ != "font-family"@,
        "keybind-split-right"@ != "font-size"@,
        "keybind-split-right"@ != "theme"@,
        "keybind-split-right"@ != "window-padding-x"@,
        "keybind-split-right"@ != "window-padding-y"@,
        "keybind-split-right"@ != "shell"@,
        "keybind-split-right"@ != "command"@,
        "keybind-split-right"@ != "background"@,
        "keybind-split-right"@ != "foreground"@,
        "keybind-split-right"@ != "keybind-new-tab"@,
        "keybind-split-down"@ != "font-family"@,
        "keybind-split-down"@ != "font-size"@,
        "keybind-split-down"@ != "theme"@,
        "keybind-split-down"@ != "window-padding-x"@,
        "keybind-split-down"@ != "window-padding-y"@,
        "keybind-split-down"@ != "shell"@,
        "keybind-split-down"@ != "command"@,
        "keybind-split-down"@ != "background"@,
        "keybind-split-down"@ != "foreground"@,
        "keybind-split-down"@ != "keybind-new-tab"@,
        "keybind-split-down"@ != "keybind-split-right"@,
        "keybind-close-pane"@ != "font-family"@,
        "keybind-close-pane"@ != "font-size"@,
        "keybind-close-pane"@ != "theme"@,
        "keybind-close-pane"@ != "window-padding-x"@,
        "keybind-close-pane"@ != "window-padding-y"@,
        "keybind-close-pane"@ != "shell"@,
        "keybind-close-pane"@ != "command"@,
        "keybind-close-pane"@ != "background"@,
        "keybind-close-pane"@ != "foreground"@,
        "keybind-close-pane"@ != "keybind-new-tab"@,
        "keybind-close-pane"@ != "keybind-split-right"@,
        "keybind-close-pane"@ != "keybind-split-down"@,
        "keybind-find"@ != "font-family"@,
        "keybind-find"@ != "font-size"@,
        "keybind-find"@ != "theme"@,
        "keybind-find"@ != "window-padding-x"@,
        "keybind-find"@ != "window-padding-y"@,
        "keybind-find"@ != "shell"@,
        "keybind-find"@ != "command"@,
        "keybind-find"@ != "background"@,
        "keybind-find"@ != "foreground"@,
        "keybind-find"@ != "keybind-new-tab"@,
        "keybind-find"@ != "keybind-split-right"@,
        "keybind-find"@ != "keybind-split-down"@,
        "keybind-find"@ != "keybind-close-pane"@,
        "keybind-clear"@ != "font-family"@,
        "keybind-clear"@ != "font-size"@,
        "keybind-clear"@ != "theme"@,
        "keybind-clear"@ != "window-padding-x"@,
        "keybind-clear"@ != "window-padding-y"@,
        "keybind-clear"@ != "shell"@,
        "keybind-clear"@ != "command"@,
        "keybind-clear"@ != "background"@,
        "keybind-clear"@ != "foreground"@,
        "keybind-clear"@ != "keybind-new-tab"@,
        "keybind-clear"@ != "keybind-split-right"@,
        "keybind-clear"@ != "keybind-split-down"@,
        "keybind-clear"@ != "keybind-close-pane"@,
        "keybind-clear"@ != "keybind-find"@,
{
    reveal_strlit("font-family");
    reveal_strlit("font-size");
    reveal_strlit("theme");
    reveal_strlit("window-padding-x");
    reveal_strlit("window-padding-y");
    reveal_strlit("shell");
    reveal_strlit("command");
    reveal_strlit("background");
    reveal_strlit("foreground");
    reveal_strlit("keybind-new-tab");
    reveal_strlit("keybind-split-right");
    reveal_strlit("keybind-split-down");
    reveal_strlit("keybind-close-pane");
    reveal_strlit("keybind-find");
    reveal_strlit("keybind-clear");
    assert("font-family"@.len() == 11);
    assert("font-size"@.len() == 9);
    assert("theme"@.len() == 5);
    assert("window-padding-x"@.len() == 16);
    assert("window-padding-y"@.len() == 16);
    assert("shell"@.len() == 5);
    assert("command"@.len() == 7);
    assert("background"@.len() == 10);
    assert("foreground"@.len() == 10);
    assert("keybind-new-tab"@.len() == 15);
    assert("keybind-split-right"@.len() == 19);
    assert("keybind-split-down"@.len() == 18);
    assert("keybind-close-pane"@.len() == 18);
    assert("keybind-find"@.len() == 12);
    assert("keybind-clear"@.len() == 13);
    assert("theme"@[0] != "shell"@[0]);
    assert("window-padding-x"@[15] != "window-padding-y"@[15]);
    assert("background"@[0] != "foreground"@[0]);
    assert("keybind-split-down"@[8] != "keybind-close-pane"@[8]);
}

/// Whether a key is one of the keybindings.
pub open spec fn is_bind_key(key: Seq<char>) -> bool {
    key == "keybind-new-tab"@ || key == "keybind-split-right"@ || key == "keybind-split-down"@
        || key == "keybind-close-pane"@ || key == "keybind-find"@ || key == "keybind-clear"@
}

/// Which entries are accepted: a size or a padding that is a number, a bundled theme, a
/// colour or nothing, a keybinding that can be read, and any font or shell. No other key
/// is. What was set before makes no difference.
pub proof fn law_entry_accepted(s: SettingsView, n: nat, key: Seq<char>, val: Seq<char>)
    ensures
        entry_effect(s, n, key, val).1 is None <==> {
            ||| key == "font-family"@ || key == "shell"@ || key == "command"@
            ||| (key == "font-size"@ || key == "window-padding-x"@ || key == "window-padding-y"@)
                && is_number(val)
            ||| key == "theme"@ && theme_list().contains(normal_theme(val))
            ||| (key == "background"@ || key == "foreground"@) && (val.len() == 0 || hex_color(val)
                is Some)
            ||| is_bind_key(key) && keyspec_of(val) is Some
        },
{
    lemma_keys_apart();
}

/// What an accepted entry sets: the setting that its key names, to the value that stands
/// there. An empty font, shell or colour unsets it.
pub proof fn law_entry_sets(s: SettingsView, n: nat, key: Seq<char>, val: Seq<char>)
    requires
        entry_effect(s, n, key, val).1 is None,
    ensures
        ({
            let t = entry_effect(s, n, key, val).0;
            let some = if val.len() == 0 {
                None
            } else {
                Some(val)
            };
            &&& key == "font-family"@ ==> t.font_family == some
            &&& key == "font-size"@ ==> t.font_size == val
            &&& key == "theme"@ ==> t.theme == normal_theme(val)
            &&& key == "window-padding-x"@ ==> t.padding.0 == val
            &&& key == "window-padding-y"@ ==> t.padding.1 == val
            &&& key == "shell"@ || key == "command"@ ==> t.shell == some
            &&& key == "background"@ ==> t.background == some
            &&& key == "foreground"@ ==> t.foreground == some
            &&& key == "keybind-new-tab"@ ==> Some(t.keybinds.new_tab) == keyspec_of(val)
            &&& key == "keybind-split-right"@ ==> Some(t.keybinds.split_right) == keyspec_of(val)
            &&& key == "keybind-split-down"@ ==> Some(t.keybinds.split_down) == keyspec_of(val)
            &&& key == "keybind-close-pane"@ ==> Some(t.keybinds.close_pane) == keyspec_of(val)
            &&& key == "keybind-find"@ ==> Some(t.keybinds.find) == keyspec_of(val)
            &&& key == "keybind-clear"@ ==> Some(t.keybinds.clear) == keyspec_of(val)
        }),
{
    lemma_keys_apart();
}

/// Accepted entries for two different settings can stand in either order.
pub proof fn law_entries_in_either_order(
    s: SettingsView,
    n: nat,
    m: nat,
    a: Seq<char>,
    x: Seq<char>,
    b: Seq<char>,
    y: Seq<char>,
)
    requires
        setting_of(a) != setting_of(b),
        entry_effect(s, n, a, x).1 is None,
        entry_effect(s, m, b, y).1 is None,
    ensures
        entry_effect(entry_effect(s, n, a, x).0, m, b, y) == entry_effect(
            entry_effect(s, m, b, y).0,
            n,
            a,
            x,
        ),
{
    let (u, v) = (entry_effect(s, n, a, x).0, entry_effect(s, m, b, y).0);
    lemma_accepted_anywhere(s, u, m, b, y);
    lemma_accepted_anywhere(s, v, n, a, x);
    let (f, g) = (entry_effect(u, m, b, y).0, entry_effect(v, n, a, x).0);
    lemma_two_entries(s, u, f, n, m, a, x, b, y);
    lemma_two_entries(s, v, g, m, n, b, y, a, x);
    assert(f.keybinds == g.keybinds);
    assert(f.padding == g.padding);
    assert(f == g);
}

proof fn lemma_accepted_anywhere(
    s: SettingsView,
    t: SettingsView,
    n: nat,
    key: Seq<char>,
    val: Seq<char>,
)
    requires
        entry_effect(s, n, key, val).1 is None,
    ensures
        entry_effect(t, n, key, val).1 is None,
{
    law_entry_accepted(s, n, key, val);
    law_entry_accepted(t, n, key, val);
}

/// What one field is after two entries, by the keys of the entries that name it.
spec fn settled<T>(old: T, a: bool, x: T, b: bool, y: T) -> T {
    if b {
        y
    } else if a {
        x
    } else {
        old
    }
}

proof fn lemma_two_entries(
    s: SettingsView,
    u: SettingsView,
    f: SettingsView,
    n: nat,
    m: nat,
    a: Seq<char>,
    x: Seq<char>,
    b: Seq<char>,
    y: Seq<char>,
)
    requires
        setting_of(a) != setting_of(b),
        u == entry_effect(s, n, a, x).0,
        f == entry_effect(u, m, b, y).0,
        entry_effect(s, n, a, x).1 is None,
        entry_effect(u, m, b, y).1 is None,
    ensures
        ({
            let (p, q) = (unless_empty(x), unless_empty(y));
            let (c, d) = (keyspec_of(x), keyspec_of(y));
            let k = "font-family"@;
            &&& f.font_family == settled(s.font_family, a == k, p, b == k, q)
            &&& f.font_size == settled(s.font_size, a == "font-size"@, x, b == "font-size"@, y)
            &&& f.theme == settled(
                s.theme,
                a == "theme"@,
                normal_theme(x),
                b == "theme"@,
                normal_theme(y),
            )
            &&& f.padding.0 == settled(
                s.padding.0,
                a == "window-padding-x"@,
                x,
                b == "window-padding-x"@,
                y,
            )
            &&& f.padding.1 == settled(
                s.padding.1,
                a == "window-padding-y"@,
                x,
                b == "window-padding-y"@,
                y,
            )
            &&& f.shell == settled(
                s.shell,
                a == "shell"@ || a == "command"@,
                p,
                b == "shell"@ || b == "command"@,
                q,
            )
            &&& f.background == settled(s.background, a == "background"@, p, b == "background"@, q)
            &&& f.foreground == settled(s.foreground, a == "foreground"@, p, b == "foreground"@, q)
            &&& Some(f.keybinds.new_tab) == settled(
                Some(s.keybinds.new_tab),
                a == "keybind-new-tab"@,
                c,
                b == "keybind-new-tab"@,
                d,
            )
            &&& Some(f.keybinds.split_right) == settled(
                Some(s.keybinds.split_right),
                a == "keybind-split-right"@,
                c,
                b == "keybind-split-right"@,
                d,
            )
            &&& Some(f.keybinds.split_down) == settled(
                Some(s.keybinds.split_down),
                a == "keybind-split-down"@,
                c,
                b == "keybind-split-down"@,
                d,
            )
            &&& Some(f.keybinds.close_pane) == settled(
                Some(s.keybinds.close_pane),
                a == "keybind-close-pane"@,
                c,
                b == "keybind-close-pane"@,
                d,
            )
            &&& Some(f.keybinds.find) == settled(
                Some(s.keybinds.find),
                a == "keybind-find"@,
                c,
                b == "keybind-find"@,
                d,
            )
            &&& Some(f.keybinds.clear) == settled(
                Some(s.keybinds.clear),
                a == "keybind-clear"@,
                c,
                b == "keybind-clear"@,
                d,
            )
        }),
{
    law_entry_touches_one(s, n, a, x);
    law_entry_touches_one(u, m, b, y);
    law_entry_sets(s, n, a, x);
    law_entry_sets(u, m, b, y);
}

/// The last line for a key counts: where it is accepted, what an earlier one said
/// makes no difference.
pub proof fn law_last_entry_wins(
    s: SettingsView,
    n: nat,
    m: nat,
    key: Seq<char>,
    first: Seq<char>,
    last: Seq<char>,
)
    requires
        entry_effect(s, m, key, last).1 is None,
    ensures
        entry_effect(entry_effect(s, n, key, first).0, m, key, last) == entry_effect(
            s,
            m,
            key,
            last,
        ),
{
}

/// An override that is no well-formed colour leaves the theme's own, and one that is
/// takes its place. No other colour is touched by either.
pub proof fn law_override(s: SettingsView, base: PaletteView)
    ensures
        s.background is None || hex_color(s.background->0) is None ==> palette_of(
            s,
            base,
        ).background == theme_colors(s.theme, base).background,
        s.background is Some && hex_color(s.background->0) is Some ==> palette_of(
            s,
            base,
        ).background == s.background->0,
        s.foreground is None || hex_color(s.foreground->0) is None ==> palette_of(
            s,
            base,
        ).foreground == theme_colors(s.theme, base).foreground,
        s.foreground is Some && hex_color(s.foreground->0) is Some ==> palette_of(
            s,
            base,
        ).foreground == s.foreground->0,
        palette_of(s, base) == (PaletteView {
            background: palette_of(s, base).background,
            foreground: palette_of(s, base).foreground,
            ..theme_colors(s.theme, base)
        }),
{
}

/// Whether a character separates the words of a theme's name.
pub open spec fn is_separator(c: char) -> bool {
    c == ' ' || c == '_' || c == '-'
}

/// Blanks, underscores and hyphens in a theme's name are all the same.
pub proof fn law_separators_alike(a: Seq<char>, b: Seq<char>)
    requires
        lower_text(a).len() == lower_text(b).len(),
        forall|i: int|
            0 <= i < lower_text(a).len() ==> #[trigger] lower_text(a)[i] == lower_text(b)[i] || (
            is_separator(lower_text(a)[i]) && is_separator(lower_text(b)[i])),
    ensures
        normal_theme(a) == normal_theme(b),
{
    assert(normal_theme(a) =~= normal_theme(b));
}

/// A theme's name in its normal form has neither blanks nor underscores, so that putting
/// hyphens for them changes nothing more; and for an ASCII name the normal form is its own.
pub proof fn law_normal_theme(val: Seq<char>)
    ensures
        forall|i: int|
            0 <= i < normal_theme(val).len() ==> #[trigger] normal_theme(val)[i] != ' '
                && normal_theme(val)[i] != '_',
        hyphenated(normal_theme(val)) == normal_theme(val),
        is_ascii_text(val) ==> normal_theme(normal_theme(val)) == normal_theme(val),
{
    assert(hyphenated(normal_theme(val)) =~= normal_theme(val));
    if is_ascii_text(val) {
        let norm = normal_theme(val);
        assert forall|i: int| 0 <= i < norm.len() implies #[trigger] norm[i] <= '\u{7f}' by {
            assert(val[i] <= '\u{7f}');
        }
        assert(normal_theme(norm) =~= norm) by {
            assert forall|i: int| 0 <= i < norm.len() implies normal_theme(norm)[i] == norm[i] by {
                assert(val[i] <= '\u{7f}');
            }
        }
    }
}

/// ASCII names of themes that differ only in case, or in which of blank, underscore and
/// hyphen separates their words, are the same name.
pub proof fn law_theme_names_alike(a: Seq<char>, b: Seq<char>)
    requires
        is_ascii_text(a),
        a.len() == b.len(),
        forall|i: int|
            0 <= i < a.len() ==> ascii_lower(#[trigger] a[i]) == ascii_lower(b[i]) || (is_separator(
                a[i],
            ) && is_separator(b[i])),
    ensures
        normal_theme(a) == normal_theme(b),
{
    assert forall|i: int| 0 <= i < b.len() implies #[trigger] b[i] <= '\u{7f}' by {
        assert(a[i] <= '\u{7f}');
    }
    assert forall|i: int| 0 <= i < a.len() implies normal_theme(a)[i] == normal_theme(b)[i] by {
        assert(ascii_lower(a[i]) == ascii_lower(b[i]) || (is_separator(a[i]) && is_separator(
            b[i],
        )));
    }
    assert(normal_theme(a) =~= normal_theme(b));
}

/// Whether settings make sense: numbers are numbers, the theme is a bundled one, and
/// what is there for a colour is one.
pub open spec fn settings_sound(s: SettingsView) -> bool {
    &&& is_number(s.font_size)
    &&& is_number(s.padding.0)
    &&& is_number(s.padding.1)
    &&& theme_list().contains(s.theme)
    &&& s.background is Some ==> hex_color(s.background->0) is Some
    &&& s.foreground is Some ==> hex_color(s.foreground->0) is Some
    &&& s.font_family is Some ==> s.font_family->0.len() > 0
    &&& s.shell is Some ==> s.shell->0.len() > 0
}

/// Whatever a config says, the settings that come of it make sense.
pub proof fn law_settings_sound(text: Seq<char>)
    ensures
        settings_sound(parsed(text).0),
{
    lemma_lines_sound(split(text, '\n'), split(text, '\n').len());
}

proof fn lemma_entry_sound(s: SettingsView, n: nat, key: Seq<char>, val: Seq<char>)
    requires
        settings_sound(s),
    ensures
        settings_sound(entry_effect(s, n, key, val).0),
{
}

proof fn lemma_lines_sound(lines: Seq<Seq<char>>, n: nat)
    ensures
        settings_sound(lines_effect(lines, n).0),
    decreases n,
{
    if n == 0 {
        lemma_default_numbers();
        assert(theme_list()[0] == "default"@);
    } else {
        lemma_lines_sound(lines, (n - 1) as nat);
        let s = lines_effect(lines, (n - 1) as nat).0;
        let line = trimmed(lines[n - 1]);
        let eq = find(line, '=');
        lemma_entry_sound(s, n, trimmed(line.take(eq)), value_of(line.skip(eq + 1)));
        assert(settings_sound(line_effect(s, n, lines[n - 1]).0));
    }
}

/// Sound settings have their overrides in their palette.
pub proof fn law_sound_overrides(s: SettingsView, base: PaletteView)
    requires
        settings_sound(s),
    ensures
        s.background is Some ==> palette_of(s, base).background == s.background->0,
        s.foreground is Some ==> palette_of(s, base).foreground == s.foreground->0,
{
}

/// A line with a key and an equals sign sets the key to the value behind the sign,
/// whatever blanks are around the key.
pub proof fn law_entry_line(
    s: SettingsView,
    n: nat,
    indent: Seq<char>,
    key: Seq<char>,
    gap: Seq<char>,
    rest: Seq<char>,
)
    requires
        all_white(indent),
        is_tight(key),
        key[0] != '#',
        !key.contains('='),
        all_white(gap),
    ensures
        line_effect(s, n, indent + key + gap + seq!['='] + rest) == entry_effect(
            s,
            n,
            key,
            value_of(rest),
        ),
{
    let raw = indent + key + gap + seq!['='] + rest;
    let head = key + gap + seq!['='];
    assert(raw =~= indent + (head + rest));
    lemma_trim_start_white(indent, head + rest);
    assert((head + rest)[0] == key[0]);
    assert(trim_start(head + rest) == head + rest);
    lemma_trim_end_behind(head, rest);
    let line = head + trim_end(rest);
    assert(trimmed(raw) == line);
    let front = key + gap;
    assert(!front.contains('=')) by {
        if front.contains('=') {
            let i = choose|i: int| 0 <= i < front.len() && front[i] == '=';
            if i < key.len() {
                assert(key[i] == '=');
            } else {
                assert(front[i] == gap[i - key.len()]);
                assert(is_white(gap[i - key.len()]));
            }
        }
    }
    assert(line =~= front + (seq!['='] + trim_end(rest)));
    lemma_find_behind(front, seq!['='] + trim_end(rest), '=');
    assert(line.take(front.len() as int) =~= Seq::<char>::empty() + key + gap);
    lemma_trimmed(Seq::empty(), key, gap);
    assert(line.skip(front.len() as int + 1) =~= trim_end(rest));
    lemma_trimmed_trim_end(rest);
}

/// A value is what stands between blanks.
pub proof fn law_value_between_blanks(front: Seq<char>, val: Seq<char>, back: Seq<char>)
    requires
        all_white(front),
        is_tight(val),
        uncommented(val) == val,
        all_white(back),
    ensures
        value_of(front + val + back) == unquoted(val),
{
    lemma_trimmed(front, val, back);
    lemma_trimmed(Seq::empty(), val, Seq::empty());
    assert(Seq::<char>::empty() + val + Seq::<char>::empty() =~= val);
}

/// A comment behind a value is no part of it.
pub proof fn law_comment_behind_value(
    front: Seq<char>,
    val: Seq<char>,
    gap: Seq<char>,
    comment: Seq<char>,
)
    requires
        all_white(front),
        is_tight(val),
        uncommented(val) == val,
        val[0] == '"' ==> quoted_len(val) > 0,
        all_white(gap),
        gap.len() > 0,
    ensures
        value_of(front + val + gap + seq!['#'] + comment) == unquoted(val),
{
    let head = val + gap + seq!['#'];
    let rest = front + val + gap + seq!['#'] + comment;
    assert(rest =~= front + (head + comment));
    lemma_trim_start_white(front, head + comment);
    assert((head + comment)[0] == val[0]);
    assert(trim_start(head + comment) == head + comment);
    lemma_trim_end_behind(head, comment);
    let v = head + trim_end(comment);
    assert(trimmed(rest) == v);
    let at = val.len() + gap.len();
    let tail = gap + seq!['#'] + trim_end(comment);
    assert(v =~= val + tail);
    assert(quoted_len(v) == quoted_len(val)) by {
        if val[0] == '"' {
            assert(v.skip(1) =~= val.skip(1) + tail);
            lemma_find_in_front(val.skip(1), tail, '"');
        }
    }
    lemma_comment_from(val, 0);
    assert(comment_from(val, 0) == val.len()) by {
        assert(uncommented(val).len() == val.len());
    }
    if quoted_len(val) > 0 {
        lemma_find(val.skip(1), '"');
    }
    assert forall|i: int| 0 <= i < at implies !comment_at(v, i) by {
        if i < val.len() {
            assert(!comment_at(val, i));
        } else {
            assert(v[i] == gap[i - val.len()]);
            assert(is_white(gap[i - val.len()]));
        }
    }
    assert(is_white(gap[gap.len() - 1]));
    assert(v[at - 1] == gap[gap.len() - 1]);
    assert(comment_at(v, at as int));
    lemma_comment_from(v, 0);
    assert(v.take(at as int) =~= Seq::<char>::empty() + val + gap);
    lemma_trimmed(Seq::empty(), val, gap);
}

/// One pair of quotes around a value is no part of it, and nothing else goes.
pub proof fn law_unquoted(inner: Seq<char>, val: Seq<char>)
    ensures
        unquoted(seq!['"'] + inner + seq!['"']) == inner,
        val.len() < 2 ==> unquoted(val) == val,
        val.len() > 0 && (val[0] != '"' || val.last() != '"') ==> unquoted(val) == val,
{
    let q = seq!['"'] + inner + seq!['"'];
    assert(unquoted(q) =~= inner);
}

/// A hash starts a comment only behind a blank: one inside a word, and one that a value
/// starts with, belong to the value.
pub proof fn law_hash_in_value(v: Seq<char>)
    requires
        forall|i: int| 0 < i < v.len() && #[trigger] v[i] == '#' ==> !is_white(v[i - 1]),
    ensures
        uncommented(v) == v,
{
    lemma_comment_from(v, 0);
    assert(v.take(v.len() as int) =~= v);
}

/// What stands between quotes is a value as it is, blanks and hashes included.
pub proof fn law_quoted_value(inner: Seq<char>)
    requires
        !inner.contains('"'),
    ensures
        value_of(seq!['"'] + inner + seq!['"']) == inner,
{
    let v = seq!['"'] + inner + seq!['"'];
    assert(v.skip(1) =~= inner + seq!['"']);
    lemma_find_behind(inner, seq!['"'], '"');
    assert(quoted_len(v) == v.len());
    lemma_comment_from(v, 0);
    assert(uncommented(v) =~= v);
    lemma_trimmed(Seq::empty(), v, Seq::empty());
    assert(Seq::<char>::empty() + v + Seq::<char>::empty() =~= v);
    law_unquoted(inner, v);
}

/// A line that is no comment and has no equals sign changes nothing, and is complained of.
pub proof fn law_line_without_sign(s: SettingsView, n: nat, raw: Seq<char>)
    requires
        trimmed(raw).len() > 0,
        trimmed(raw)[0] != '#',
        !trimmed(raw).contains('='),
    ensures
        line_effect(s, n, raw).0 == s,
        line_effect(s, n, raw).1 == Some(
            "line "@ + decimal(n) + (": expected `key = value`, got `"@ + trimmed(raw) + "`"@),
        ),
{
    lemma_find(trimmed(raw), '=');
}

/// Whether a warning is about line `n` and ends with `what` in backquotes.
pub open spec fn warns_of(w: Seq<char>, n: nat, what: Seq<char>) -> bool {
    let head = 5 + decimal(n).len();
    let tail = w.len() - what.len() - 2;
    &&& head < tail
    &&& w.take(5) == seq!['l', 'i', 'n', 'e', ' ']
    &&& digits_value(w.subrange(5, head as int)) == n
    &&& w[head as int] == ':'
    &&& w[tail] == '`'
    &&& w.subrange(tail + 1, w.len() - 1) == what
    &&& w.last() == '`'
}

proof fn lemma_warns(n: nat, a: Seq<char>, what: Seq<char>)
    requires
        a.len() > 1,
        a[0] == ':',
        a.last() == '`',
    ensures
        warns_of(warning(n, a + what + "`"@), n, what),
{
    reveal_strlit("`");
    reveal_strlit("line ");
    assert("`"@ =~= seq!['`']);
    assert("line "@ =~= seq!['l', 'i', 'n', 'e', ' ']);
    law_decimal_reads_back(n);
    let w = warning(n, a + what + "`"@);
    let head = 5 + decimal(n).len();
    let tail = w.len() - what.len() - 2;
    assert(w.take(5) =~= "line "@);
    assert(w.subrange(5, head as int) =~= decimal(n));
    assert(w[head as int] == a[0]);
    assert(w[tail] == a.last());
    assert(w.subrange(tail + 1, w.len() - 1) =~= what);
}

/// A warning names the line, and what was wrong with it: the value, or the key where that is
/// not known.
pub proof fn law_warning_names_line(s: SettingsView, n: nat, key: Seq<char>, val: Seq<char>)
    requires
        entry_effect(s, n, key, val).1 is Some,
    ensures
        warns_of(entry_effect(s, n, key, val).1->0, n, val) || warns_of(
            entry_effect(s, n, key, val).1->0,
            n,
            key,
        ),
        setting_of(key) == key && !is_bind_key(key) && key != "font-size"@ && key != "theme"@
            && key != "window-padding-x"@ && key != "window-padding-y"@ && key != "background"@
            && key != "foreground"@ ==> warns_of(entry_effect(s, n, key, val).1->0, n, key),
{
    lemma_keys_apart();
    reveal_strlit(": unknown key `");
    reveal_strlit(": `");
    reveal_strlit("` needs a number, got `");
    reveal_strlit(": couldn't parse keybinding `");
    reveal_strlit("` needs a colour like `#rrggbb`, got `");
    reveal_strlit(": unknown theme `");
    lemma_warns(n, ": unknown key `"@, key);
    lemma_warns(n, ": unknown theme `"@, val);
    lemma_warns(n, ": couldn't parse keybinding `"@, val);
    lemma_warns(n, ": `"@ + key + "` needs a number, got `"@, val);
    lemma_warns(n, ": `"@ + key + "` needs a colour like `#rrggbb`, got `"@, val);
}

/// The config file is below `XDG_CONFIG_HOME` where that is set to something, else in the
/// home directory, and nowhere without either.
pub proof fn law_config_location(xdg: Seq<u8>, home: Option<Seq<u8>>, dir: Seq<u8>)
    ensures
        xdg.len() > 0 ==> config_location(Some(xdg), home) == Some(
            ConfigPathView { dir: xdg, segments: seq!["tessera"@, "config"@] },
        ),
        xdg.len() == 0 ==> config_location(Some(xdg), home) == config_location(None, home),
        config_location(None, Some(dir)) == Some(
            ConfigPathView { dir, segments: seq![".config"@, "tessera"@, "config"@] },
        ),
        config_location(None, None) is None,
{
}

/// Every warning is printed, in order, with the program's name before it.
pub proof fn law_messages(warnings: Seq<Seq<char>>)
    ensures
        messages_of(warnings).len() == warnings.len(),
        forall|i: int|
            0 <= i < warnings.len() ==> #[trigger] messages_of(warnings)[i]
                == "tessera: config: "@ + warnings[i],
{
}

/// What holds where the config says nothing.
pub proof fn law_default_settings()
    ensures
        ({
            let s = default_settings();
            &&& s.font_family is None && s.shell is None
            &&& s.background is None && s.foreground is None
            &&& s.font_size == "14"@
            &&& s.theme == "default"@
            &&& s.padding == ("8"@, "8"@)
            &&& s.keybinds == default_keybinds()
        }),
{
}

/// The normal form of an ASCII theme name: letters in lower case, hyphens for blanks and
/// underscores, and all else as it was.
pub proof fn law_normal_theme_characters(val: Seq<char>, i: int)
    requires
        is_ascii_text(val),
        0 <= i < val.len(),
    ensures
        normal_theme(val).len() == val.len(),
        val[i] == ' ' || val[i] == '_' ==> normal_theme(val)[i] == '-',
        'A' <= val[i] <= 'Z' ==> normal_theme(val)[i] as int == val[i] as int + 32,
        val[i] != ' ' && val[i] != '_' && !('A' <= val[i] <= 'Z') ==> normal_theme(val)[i]
            == val[i],
{
}

/// What the warnings say.
pub proof fn law_warning_texts(s: SettingsView, n: nat, key: Seq<char>, val: Seq<char>)
    ensures
        ({
            let told = entry_effect(s, n, key, val).1;
            let line = "line "@ + decimal(n);
            let number = key == "font-size"@ || key == "window-padding-x"@ || key
                == "window-padding-y"@;
            let color = key == "background"@ || key == "foreground"@;
            &&& number && told is Some ==> told->0 == line + (": `"@ + key
                + "` needs a number, got `"@ + val + "`"@)
            &&& color && told is Some ==> told->0 == line + (": `"@ + key
                + "` needs a colour like `#rrggbb`, got `"@ + val + "`"@)
            &&& key == "theme"@ && told is Some ==> told->0 == line + (": unknown theme `"@ + val
                + "`"@)
            &&& is_bind_key(key) && told is Some ==> told->0 == line + (
            ": couldn't parse keybinding `"@ + val + "`"@)
            &&& told is Some && !number && !color && key != "theme"@ && !is_bind_key(key)
                ==> told->0 == line + (": unknown key `"@ + key + "`"@)
        }),
{
    lemma_keys_apart();
}

} // verus!
