//! What the keyboard sends to a shell, and clearing its screen.

use vstd::prelude::*;

use crate::keys::{among, command_mod, contains, either, shift_mod, Modifiers};
use crate::text::same_text;

verus! {

/// Whether the keys for copy and paste are meant for the terminal rather than for the
/// shell: on a Mac always, elsewhere only together with shift, since control with C and
/// V belongs to the shell.
pub open spec fn clipboard_keys(mac: bool, mods: Modifiers) -> bool {
    mac || among(mods, either(command_mod(), shift_mod()))
}

/// Whether the keys for copy and paste are meant for the terminal. If not, the shell is
/// sent the control character that they stand for.
pub fn uses_clipboard(mac: bool, mods: Modifiers) -> (r: bool)
    ensures
        r == clipboard_keys(mac, mods),
{
    mac || contains(mods, Modifiers::command().plus(Modifiers::shift()))
}

/// The control character that interrupts a shell, which control with C stands for.
pub const INTERRUPT: u8 = 0x03;

/// The control character that control with V stands for.
pub const QUOTE_NEXT: u8 = 0x16;

/// The control character that has a shell clear its screen and redraw its prompt.
pub const CLEAR_SCREEN: u8 = 0x0c;

/// Whether a clear waits for the shell to redraw.
#[derive(Clone, Copy, Debug, PartialEq, Eq, Structural)]
pub struct Clearing {
    pub pending: bool,
}

impl Clearing {
    /// Begins a clear: gives what is to be sent to the shell, which clears the screen
    /// and redraws.
    pub fn begin(&mut self) -> (r: u8)
        ensures
            r == CLEAR_SCREEN,
            final(self).pending,
    {
        self.pending = true;
        CLEAR_SCREEN
    }

    /// Finishes a clear once the shell has redrawn: whether the scrollback is to be
    /// dropped, into which the redraw has moved the old screen.
    pub fn finish(&mut self) -> (r: bool)
        ensures
            r == old(self).pending,
            !final(self).pending,
    {
        let pending = self.pending;
        self.pending = false;
        pending
    }
}

/// The kind of terminal that a shell is told it runs in: the inherited one, or a
/// ubiquitous one where there is none.
pub open spec fn term_of(inherited: Option<Seq<char>>) -> Seq<char> {
    match inherited {
        Some(name) => if name.len() > 0 {
            name
        } else {
            "xterm-256color"@
        },
        None => "xterm-256color"@,
    }
}

/// The kind of terminal that a shell is told it runs in, so that launches from a desktop
/// do not leave it without one.
pub fn term_name(inherited: Option<String>) -> (r: String)
    ensures
        r@ == term_of(crate::config::opt_view(inherited)),
{
    if let Some(name) = inherited {
        if name.as_str().unicode_len() > 0 {
            return name;
        }
    }
    "xterm-256color".to_owned()
}

/// What a key sends that moves the cursor: its final letter.
pub open spec fn cursor_letter(key: Seq<char>) -> Option<char> {
    if key == "Up"@ {
        Some('A')
    } else if key == "Down"@ {
        Some('B')
    } else if key == "Right"@ {
        Some('C')
    } else if key == "Left"@ {
        Some('D')
    } else if key == "Home"@ {
        Some('H')
    } else if key == "End"@ {
        Some('F')
    } else {
        None
    }
}

/// What a key sends that edits or pages: its number.
pub open spec fn tilde_digit(key: Seq<char>) -> Option<char> {
    if key == "Insert"@ {
        Some('2')
    } else if key == "Delete"@ {
        Some('3')
    } else if key == "PageUp"@ {
        Some('5')
    } else if key == "PageDown"@ {
        Some('6')
    } else {
        None
    }
}

/// What a key sends by a single control character.
pub open spec fn control_key(key: Seq<char>) -> Option<char> {
    if key == "Enter"@ {
        Some('\r')
    } else if key == "Tab"@ {
        Some('\t')
    } else if key == "Backspace"@ {
        Some('\u{7f}')
    } else if key == "Escape"@ {
        Some('\u{1b}')
    } else {
        None
    }
}

/// What a function key sends.
pub open spec fn function_key(key: Seq<char>) -> Option<Seq<char>> {
    if key == "F1"@ {
        Some("\x1bOP"@)
    } else if key == "F2"@ {
        Some("\x1bOQ"@)
    } else if key == "F3"@ {
        Some("\x1bOR"@)
    } else if key == "F4"@ {
        Some("\x1bOS"@)
    } else if key == "F5"@ {
        Some("\x1b[15~"@)
    } else if key == "F6"@ {
        Some("\x1b[17~"@)
    } else if key == "F7"@ {
        Some("\x1b[18~"@)
    } else if key == "F8"@ {
        Some("\x1b[19~"@)
    } else if key == "F9"@ {
        Some("\x1b[20~"@)
    } else if key == "F10"@ {
        Some("\x1b[21~"@)
    } else if key == "F11"@ {
        Some("\x1b[23~"@)
    } else if key == "F12"@ {
        Some("\x1b[24~"@)
    } else {
        None
    }
}

/// What control with a key sends: the control character of its letter.
pub open spec fn control_letter(key: Seq<char>) -> Option<char> {
    if key.len() == 1 && 'A' <= key[0] <= 'Z' {
        Some((key[0] as u32 - 64) as char)
    } else {
        None
    }
}

/// What a key sends by itself, if it does: what it types comes as text otherwise.
/// `app_cursor` says whether the program asked for the other form of the cursor keys.
pub open spec fn key_text(key: Seq<char>, mods: Modifiers, app_cursor: bool) -> Option<Seq<char>> {
    match (cursor_letter(key), tilde_digit(key), control_key(key), control_letter(key)) {
        (Some(c), _, _, _) => Some(
            seq![
                '\u{1b}',
                if app_cursor {
                    'O'
                } else {
                    '['
                },
                c,
            ],
        ),
        (None, Some(d), _, _) => Some(seq!['\u{1b}', '[', d, '~']),
        (None, None, Some(c), _) => Some(seq![c]),
        (None, None, None, Some(c)) => if mods.ctrl {
            Some(seq![c])
        } else {
            None
        },
        (None, None, None, None) => function_key(key),
    }
}

fn function_bytes(key: &str) -> (r: Option<String>)
    ensures
        crate::config::opt_view(r) == function_key(key@),
{
    if same_text(key, "F1") {
        Some("\x1bOP".to_owned())
    } else if same_text(key, "F2") {
        Some("\x1bOQ".to_owned())
    } else if same_text(key, "F3") {
        Some("\x1bOR".to_owned())
    } else if same_text(key, "F4") {
        Some("\x1bOS".to_owned())
    } else if same_text(key, "F5") {
        Some("\x1b[15~".to_owned())
    } else if same_text(key, "F6") {
        Some("\x1b[17~".to_owned())
    } else if same_text(key, "F7") {
        Some("\x1b[18~".to_owned())
    } else if same_text(key, "F8") {
        Some("\x1b[19~".to_owned())
    } else if same_text(key, "F9") {
        Some("\x1b[20~".to_owned())
    } else if same_text(key, "F10") {
        Some("\x1b[21~".to_owned())
    } else if same_text(key, "F11") {
        Some("\x1b[23~".to_owned())
    } else if same_text(key, "F12") {
        Some("\x1b[24~".to_owned())
    } else {
        None
    }
}

fn cursor_key(key: &str) -> (r: Option<char>)
    ensures
        r == cursor_letter(key@),
{
    if same_text(key, "Up") {
        Some('A')
    } else if same_text(key, "Down") {
        Some('B')
    } else if same_text(key, "Right") {
        Some('C')
    } else if same_text(key, "Left") {
        Some('D')
    } else if same_text(key, "Home") {
        Some('H')
    } else if same_text(key, "End") {
        Some('F')
    } else {
        None
    }
}

fn paging_key(key: &str) -> (r: Option<char>)
    ensures
        r == tilde_digit(key@),
{
    if same_text(key, "Insert") {
        Some('2')
    } else if same_text(key, "Delete") {
        Some('3')
    } else if same_text(key, "PageUp") {
        Some('5')
    } else if same_text(key, "PageDown") {
        Some('6')
    } else {
        None
    }
}

fn single_key(key: &str) -> (r: Option<char>)
    ensures
        r == control_key(key@),
{
    if same_text(key, "Enter") {
        Some('\r')
    } else if same_text(key, "Tab") {
        Some('\t')
    } else if same_text(key, "Backspace") {
        Some('\u{7f}')
    } else if same_text(key, "Escape") {
        Some('\u{1b}')
    } else {
        None
    }
}

fn letter_key(key: &str) -> (r: Option<char>)
    ensures
        r == control_letter(key@),
{
    if key.unicode_len() == 1 {
        let c = key.get_char(0);
        if 'A' <= c && c <= 'Z' {
            let code: u8 = c as u8 - 64;
            return Some(code as char);
        }
    }
    None
}

/// What a key, by the name that `egui` has for it, sends to the shell by itself, if it
/// does: what it types comes as text otherwise.
pub fn key_bytes(key: &str, mods: Modifiers, app_cursor: bool) -> (r: Option<String>)
    ensures
        crate::config::opt_view(r) == key_text(key@, mods, app_cursor),
{
    let mut out = String::new();
    if let Some(c) = cursor_key(key) {
        out.push('\u{1b}');
        out.push(
            if app_cursor {
                'O'
            } else {
                '['
            },
        );
        out.push(c);
    } else if let Some(d) = paging_key(key) {
        out.push('\u{1b}');
        out.push('[');
        out.push(d);
        out.push('~');
    } else if let Some(c) = single_key(key) {
        out.push(c);
    } else if let Some(c) = letter_key(key) {
        if !mods.ctrl {
            return None;
        }
        out.push(c);
    } else {
        return function_bytes(key);
    }
    assert(out@ =~= key_text(key@, mods, app_cursor)->0);
    Some(out)
}

/// The names of the keys that send something by themselves, each told from the others.
pub(crate) proof fn lemma_key_names()
    ensures
        "Up"@ != "Down"@,
        "Up"@ != "Right"@,
        "Up"@ != "Left"@,
        "Up"@ != "Home"@,
        "Up"@ != "End"@,
        "Up"@ != "Insert"@,
        "Up"@ != "Delete"@,
        "Up"@ != "PageUp"@,
        "Up"@ != "PageDown"@,
        "Up"@ != "Enter"@,
        "Up"@ != "Tab"@,
        "Up"@ != "Backspace"@,
        "Up"@ != "Escape"@,
        "Up"@ != "F1"@,
        "Up"@ != "F2"@,
        "Up"@ != "F3"@,
        "Up"@ != "F4"@,
        "Up"@ != "F5"@,
        "Up"@ != "F6"@,
        "Up"@ != "F7"@,
        "Up"@ != "F8"@,
        "Up"@ != "F9"@,
        "Up"@ != "F10"@,
        "Up"@ != "F11"@,
        "Up"@ != "F12"@,
        "Down"@ != "Right"@,
        "Down"@ != "Left"@,
        "Down"@ != "Home"@,
        "Down"@ != "End"@,
        "Down"@ != "Insert"@,
        "Down"@ != "Delete"@,
        "Down"@ != "PageUp"@,
        "Down"@ != "PageDown"@,
        "Down"@ != "Enter"@,
        "Down"@ != "Tab"@,
        "Down"@ != "Backspace"@,
        "Down"@ != "Escape"@,
        "Down"@ != "F1"@,
        "Down"@ != "F2"@,
        "Down"@ != "F3"@,
        "Down"@ != "F4"@,
        "Down"@ != "F5"@,
        "Down"@ != "F6"@,
        "Down"@ != "F7"@,
        "Down"@ != "F8"@,
        "Down"@ != "F9"@,
        "Down"@ != "F10"@,
        "Down"@ != "F11"@,
        "Down"@ != "F12"@,
        "Right"@ != "Left"@,
        "Right"@ != "Home"@,
        "Right"@ != "End"@,
        "Right"@ != "Insert"@,
        "Right"@ != "Delete"@,
        "Right"@ != "PageUp"@,
        "Right"@ != "PageDown"@,
        "Right"@ != "Enter"@,
        "Right"@ != "Tab"@,
        "Right"@ != "Backspace"@,
        "Right"@ != "Escape"@,
        "Right"@ != "F1"@,
        "Right"@ != "F2"@,
        "Right"@ != "F3"@,
        "Right"@ != "F4"@,
        "Right"@ != "F5"@,
        "Right"@ != "F6"@,
        "Right"@ != "F7"@,
        "Right"@ != "F8"@,
        "Right"@ != "F9"@,
        "Right"@ != "F10"@,
        "Right"@ != "F11"@,
        "Right"@ != "F12"@,
        "Left"@ != "Home"@,
        "Left"@ != "End"@,
        "Left"@ != "Insert"@,
        "Left"@ != "Delete"@,
        "Left"@ != "PageUp"@,
        "Left"@ != "PageDown"@,
        "Left"@ != "Enter"@,
        "Left"@ != "Tab"@,
        "Left"@ != "Backspace"@,
        "Left"@ != "Escape"@,
        "Left"@ != "F1"@,
        "Left"@ != "F2"@,
        "Left"@ != "F3"@,
        "Left"@ != "F4"@,
        "Left"@ != "F5"@,
        "Left"@ != "F6"@,
        "Left"@ != "F7"@,
        "Left"@ != "F8"@,
        "Left"@ != "F9"@,
        "Left"@ != "F10"@,
        "Left"@ != "F11"@,
        "Left"@ != "F12"@,
        "Home"@ != "End"@,
        "Home"@ != "Insert"@,
        "Home"@ != "Delete"@,
        "Home"@ != "PageUp"@,
        "Home"@ != "PageDown"@,
        "Home"@ != "Enter"@,
        "Home"@ != "Tab"@,
        "Home"@ != "Backspace"@,
        "Home"@ != "Escape"@,
        "Home"@ != "F1"@,
        "Home"@ != "F2"@,
        "Home"@ != "F3"@,
        "Home"@ != "F4"@,
        "Home"@ != "F5"@,
        "Home"@ != "F6"@,
        "Home"@ != "F7"@,
        "Home"@ != "F8"@,
        "Home"@ != "F9"@,
        "Home"@ != "F10"@,
        "Home"@ != "F11"@,
        "Home"@ != "F12"@,
        "End"@ != "Insert"@,
        "End"@ != "Delete"@,
        "End"@ != "PageUp"@,
        "End"@ != "PageDown"@,
        "End"@ != "Enter"@,
        "End"@ != "Tab"@,
        "End"@ != "Backspace"@,
        "End"@ != "Escape"@,
        "End"@ != "F1"@,
        "End"@ != "F2"@,
        "End"@ != "F3"@,
        "End"@ != "F4"@,
        "End"@ != "F5"@,
        "End"@ != "F6"@,
        "End"@ != "F7"@,
        "End"@ != "F8"@,
        "End"@ != "F9"@,
        "End"@ != "F10"@,
        "End"@ != "F11"@,
        "End"@ != "F12"@,
        "Insert"@ != "Delete"@,
        "Insert"@ != "PageUp"@,
        "Insert"@ != "PageDown"@,
        "Insert"@ != "Enter"@,
        "Insert"@ != "Tab"@,
        "Insert"@ != "Backspace"@,
        "Insert"@ != "Escape"@,
        "Insert"@ != "F1"@,
        "Insert"@ != "F2"@,
        "Insert"@ != "F3"@,
        "Insert"@ != "F4"@,
        "Insert"@ != "F5"@,
        "Insert"@ != "F6"@,
        "Insert"@ != "F7"@,
        "Insert"@ != "F8"@,
        "Insert"@ != "F9"@,
        "Insert"@ != "F10"@,
        "Insert"@ != "F11"@,
        "Insert"@ != "F12"@,
        "Delete"@ != "PageUp"@,
        "Delete"@ != "PageDown"@,
        "Delete"@ != "Enter"@,
        "Delete"@ != "Tab"@,
        "Delete"@ != "Backspace"@,
        "Delete"@ != "Escape"@,
        "Delete"@ != "F1"@,
        "Delete"@ != "F2"@,
        "Delete"@ != "F3"@,
        "Delete"@ != "F4"@,
        "Delete"@ != "F5"@,
        "Delete"@ != "F6"@,
        "Delete"@ != "F7"@,
        "Delete"@ != "F8"@,
        "Delete"@ != "F9"@,
        "Delete"@ != "F10"@,
        "Delete"@ != "F11"@,
        "Delete"@ != "F12"@,
        "PageUp"@ != "PageDown"@,
        "PageUp"@ != "Enter"@,
        "PageUp"@ != "Tab"@,
        "PageUp"@ != "Backspace"@,
        "PageUp"@ != "Escape"@,
        "PageUp"@ != "F1"@,
        "PageUp"@ != "F2"@,
        "PageUp"@ != "F3"@,
        "PageUp"@ != "F4"@,
        "PageUp"@ != "F5"@,
        "PageUp"@ != "F6"@,
        "PageUp"@ != "F7"@,
        "PageUp"@ != "F8"@,
        "PageUp"@ != "F9"@,
        "PageUp"@ != "F10"@,
        "PageUp"@ != "F11"@,
        "PageUp"@ != "F12"@,
        "PageDown"@ != "Enter"@,
        "PageDown"@ != "Tab"@,
        "PageDown"@ != "Backspace"@,
        "PageDown"@ != "Escape"@,
        "PageDown"@ != "F1"@,
        "PageDown"@ != "F2"@,
        "PageDown"@ != "F3"@,
        "PageDown"@ != "F4"@,
        "PageDown"@ != "F5"@,
        "PageDown"@ != "F6"@,
        "PageDown"@ != "F7"@,
        "PageDown"@ != "F8"@,
        "PageDown"@ != "F9"@,
        "PageDown"@ != "F10"@,
        "PageDown"@ != "F11"@,
        "PageDown"@ != "F12"@,
        "Enter"@ != "Tab"@,
        "Enter"@ != "Backspace"@,
        "Enter"@ != "Escape"@,
        "Enter"@ != "F1"@,
        "Enter"@ != "F2"@,
        "Enter"@ != "F3"@,
        "Enter"@ != "F4"@,
        "Enter"@ != "F5"@,
        "Enter"@ != "F6"@,
        "Enter"@ != "F7"@,
        "Enter"@ != "F8"@,
        "Enter"@ != "F9"@,
        "Enter"@ != "F10"@,
        "Enter"@ != "F11"@,
        "Enter"@ != "F12"@,
        "Tab"@ != "Backspace"@,
        "Tab"@ != "Escape"@,
        "Tab"@ != "F1"@,
        "Tab"@ != "F2"@,
        "Tab"@ != "F3"@,
        "Tab"@ != "F4"@,
        "Tab"@ != "F5"@,
        "Tab"@ != "F6"@,
        "Tab"@ != "F7"@,
        "Tab"@ != "F8"@,
        "Tab"@ != "F9"@,
        "Tab"@ != "F10"@,
        "Tab"@ != "F11"@,
        "Tab"@ != "F12"@,
        "Backspace"@ != "Escape"@,
        "Backspace"@ != "F1"@,
        "Backspace"@ != "F2"@,
        "Backspace"@ != "F3"@,
        "Backspace"@ != "F4"@,
        "Backspace"@ != "F5"@,
        "Backspace"@ != "F6"@,
        "Backspace"@ != "F7"@,
        "Backspace"@ != "F8"@,
        "Backspace"@ != "F9"@,
        "Backspace"@ != "F10"@,
        "Backspace"@ != "F11"@,
        "Backspace"@ != "F12"@,
        "Escape"@ != "F1"@,
        "Escape"@ != "F2"@,
        "Escape"@ != "F3"@,
        "Escape"@ != "F4"@,
        "Escape"@ != "F5"@,
        "Escape"@ != "F6"@,
        "Escape"@ != "F7"@,
        "Escape"@ != "F8"@,
        "Escape"@ != "F9"@,
        "Escape"@ != "F10"@,
        "Escape"@ != "F11"@,
        "Escape"@ != "F12"@,
        "F1"@ != "F2"@,
        "F1"@ != "F3"@,
        "F1"@ != "F4"@,
        "F1"@ != "F5"@,
        "F1"@ != "F6"@,
        "F1"@ != "F7"@,
        "F1"@ != "F8"@,
        "F1"@ != "F9"@,
        "F1"@ != "F10"@,
        "F1"@ != "F11"@,
        "F1"@ != "F12"@,
        "F2"@ != "F3"@,
        "F2"@ != "F4"@,
        "F2"@ != "F5"@,
        "F2"@ != "F6"@,
        "F2"@ != "F7"@,
        "F2"@ != "F8"@,
        "F2"@ != "F9"@,
        "F2"@ != "F10"@,
        "F2"@ != "F11"@,
        "F2"@ != "F12"@,
        "F3"@ != "F4"@,
        "F3"@ != "F5"@,
        "F3"@ != "F6"@,
        "F3"@ != "F7"@,
        "F3"@ != "F8"@,
        "F3"@ != "F9"@,
        "F3"@ != "F10"@,
        "F3"@ != "F11"@,
        "F3"@ != "F12"@,
        "F4"@ != "F5"@,
        "F4"@ != "F6"@,
        "F4"@ != "F7"@,
        "F4"@ != "F8"@,
        "F4"@ != "F9"@,
        "F4"@ != "F10"@,
        "F4"@ != "F11"@,
        "F4"@ != "F12"@,
        "F5"@ != "F6"@,
        "F5"@ != "F7"@,
        "F5"@ != "F8"@,
        "F5"@ != "F9"@,
        "F5"@ != "F10"@,
        "F5"@ != "F11"@,
        "F5"@ != "F12"@,
        "F6"@ != "F7"@,
        "F6"@ != "F8"@,
        "F6"@ != "F9"@,
        "F6"@ != "F10"@,
        "F6"@ != "F11"@,
        "F6"@ != "F12"@,
        "F7"@ != "F8"@,
        "F7"@ != "F9"@,
        "F7"@ != "F10"@,
        "F7"@ != "F11"@,
        "F7"@ != "F12"@,
        "F8"@ != "F9"@,
        "F8"@ != "F10"@,
        "F8"@ != "F11"@,
        "F8"@ != "F12"@,
        "F9"@ != "F10"@,
        "F9"@ != "F11"@,
        "F9"@ != "F12"@,
        "F10"@ != "F11"@,
        "F10"@ != "F12"@,
        "F11"@ != "F12"@,
        "Up"@.len() != 1,
        "Down"@.len() != 1,
        "Right"@.len() != 1,
        "Left"@.len() != 1,
        "Home"@.len() != 1,
        "End"@.len() != 1,
        "Insert"@.len() != 1,
        "Delete"@.len() != 1,
        "PageUp"@.len() != 1,
        "PageDown"@.len() != 1,
        "Enter"@.len() != 1,
        "Tab"@.len() != 1,
        "Backspace"@.len() != 1,
        "Escape"@.len() != 1,
        "F1"@.len() != 1,
        "F2"@.len() != 1,
        "F3"@.len() != 1,
        "F4"@.len() != 1,
        "F5"@.len() != 1,
        "F6"@.len() != 1,
        "F7"@.len() != 1,
        "F8"@.len() != 1,
        "F9"@.len() != 1,
        "F10"@.len() != 1,
        "F11"@.len() != 1,
        "F12"@.len() != 1,
{
    reveal_strlit("Up");
    reveal_strlit("Down");
    reveal_strlit("Right");
    reveal_strlit("Left");
    reveal_strlit("Home");
    reveal_strlit("End");
    reveal_strlit("Insert");
    reveal_strlit("Delete");
    reveal_strlit("PageUp");
    reveal_strlit("PageDown");
    reveal_strlit("Enter");
    reveal_strlit("Tab");
    reveal_strlit("Backspace");
    reveal_strlit("Escape");
    reveal_strlit("F1");
    reveal_strlit("F2");
    reveal_strlit("F3");
    reveal_strlit("F4");
    reveal_strlit("F5");
    reveal_strlit("F6");
    reveal_strlit("F7");
    reveal_strlit("F8");
    reveal_strlit("F9");
    reveal_strlit("F10");
    reveal_strlit("F11");
    reveal_strlit("F12");
    assert("Up"@.len() == 2);
    assert("Down"@.len() == 4);
    assert("Right"@.len() == 5);
    assert("Left"@.len() == 4);
    assert("Home"@.len() == 4);
    assert("End"@.len() == 3);
    assert("Insert"@.len() == 6);
    assert("Delete"@.len() == 6);
    assert("PageUp"@.len() == 6);
    assert("PageDown"@.len() == 8);
    assert("Enter"@.len() == 5);
    assert("Tab"@.len() == 3);
    assert("Backspace"@.len() == 9);
    assert("Escape"@.len() == 6);
    assert("F1"@.len() == 2);
    assert("F2"@.len() == 2);
    assert("F3"@.len() == 2);
    assert("F4"@.len() == 2);
    assert("F5"@.len() == 2);
    assert("F6"@.len() == 2);
    assert("F7"@.len() == 2);
    assert("F8"@.len() == 2);
    assert("F9"@.len() == 2);
    assert("F10"@.len() == 3);
    assert("F11"@.len() == 3);
    assert("F12"@.len() == 3);
    assert("Up"@[0] != "F1"@[0]);
    assert("Up"@[0] != "F2"@[0]);
    assert("Up"@[0] != "F3"@[0]);
    assert("Up"@[0] != "F4"@[0]);
    assert("Up"@[0] != "F5"@[0]);
    assert("Up"@[0] != "F6"@[0]);
    assert("Up"@[0] != "F7"@[0]);
    assert("Up"@[0] != "F8"@[0]);
    assert("Up"@[0] != "F9"@[0]);
    assert("Down"@[0] != "Left"@[0]);
    assert("Down"@[0] != "Home"@[0]);
    assert("Right"@[0] != "Enter"@[0]);
    assert("Left"@[0] != "Home"@[0]);
    assert("End"@[0] != "Tab"@[0]);
    assert("End"@[0] != "F10"@[0]);
    assert("End"@[0] != "F11"@[0]);
    assert("End"@[0] != "F12"@[0]);
    assert("Insert"@[0] != "Delete"@[0]);
    assert("Insert"@[0] != "PageUp"@[0]);
    assert("Insert"@[0] != "Escape"@[0]);
    assert("Delete"@[0] != "PageUp"@[0]);
    assert("Delete"@[0] != "Escape"@[0]);
    assert("PageUp"@[0] != "Escape"@[0]);
    assert("Tab"@[0] != "F10"@[0]);
    assert("Tab"@[0] != "F11"@[0]);
    assert("Tab"@[0] != "F12"@[0]);
    assert("F1"@[1] != "F2"@[1]);
    assert("F1"@[1] != "F3"@[1]);
    assert("F1"@[1] != "F4"@[1]);
    assert("F1"@[1] != "F5"@[1]);
    assert("F1"@[1] != "F6"@[1]);
    assert("F1"@[1] != "F7"@[1]);
    assert("F1"@[1] != "F8"@[1]);
    assert("F1"@[1] != "F9"@[1]);
    assert("F2"@[1] != "F3"@[1]);
    assert("F2"@[1] != "F4"@[1]);
    assert("F2"@[1] != "F5"@[1]);
    assert("F2"@[1] != "F6"@[1]);
    assert("F2"@[1] != "F7"@[1]);
    assert("F2"@[1] != "F8"@[1]);
    assert("F2"@[1] != "F9"@[1]);
    assert("F3"@[1] != "F4"@[1]);
    assert("F3"@[1] != "F5"@[1]);
    assert("F3"@[1] != "F6"@[1]);
    assert("F3"@[1] != "F7"@[1]);
    assert("F3"@[1] != "F8"@[1]);
    assert("F3"@[1] != "F9"@[1]);
    assert("F4"@[1] != "F5"@[1]);
    assert("F4"@[1] != "F6"@[1]);
    assert("F4"@[1] != "F7"@[1]);
    assert("F4"@[1] != "F8"@[1]);
    assert("F4"@[1] != "F9"@[1]);
    assert("F5"@[1] != "F6"@[1]);
    assert("F5"@[1] != "F7"@[1]);
    assert("F5"@[1] != "F8"@[1]);
    assert("F5"@[1] != "F9"@[1]);
    assert("F6"@[1] != "F7"@[1]);
    assert("F6"@[1] != "F8"@[1]);
    assert("F6"@[1] != "F9"@[1]);
    assert("F7"@[1] != "F8"@[1]);
    assert("F7"@[1] != "F9"@[1]);
    assert("F8"@[1] != "F9"@[1]);
    assert("F10"@[2] != "F11"@[2]);
    assert("F10"@[2] != "F12"@[2]);
    assert("F11"@[2] != "F12"@[2]);
}

/// What the cursor keys send, in the form that the program asked for.
pub proof fn law_cursor_keys(mods: Modifiers, app: bool)
    ensures
        ({
            let lead = if app {
                'O'
            } else {
                '['
            };
            &&& key_text("Up"@, mods, app) == Some(seq!['\u{1b}', lead, 'A'])
            &&& key_text("Down"@, mods, app) == Some(seq!['\u{1b}', lead, 'B'])
            &&& key_text("Right"@, mods, app) == Some(seq!['\u{1b}', lead, 'C'])
            &&& key_text("Left"@, mods, app) == Some(seq!['\u{1b}', lead, 'D'])
            &&& key_text("Home"@, mods, app) == Some(seq!['\u{1b}', lead, 'H'])
            &&& key_text("End"@, mods, app) == Some(seq!['\u{1b}', lead, 'F'])
        }),
{
    lemma_key_names();
}

/// What the keys for editing and paging send, and those with a control character.
pub proof fn law_editing_keys(mods: Modifiers, app: bool)
    ensures
        key_text("Insert"@, mods, app) == Some(seq!['\u{1b}', '[', '2', '~']),
        key_text("Delete"@, mods, app) == Some(seq!['\u{1b}', '[', '3', '~']),
        key_text("PageUp"@, mods, app) == Some(seq!['\u{1b}', '[', '5', '~']),
        key_text("PageDown"@, mods, app) == Some(seq!['\u{1b}', '[', '6', '~']),
        key_text("Enter"@, mods, app) == Some(seq!['\r']),
        key_text("Tab"@, mods, app) == Some(seq!['\t']),
        key_text("Backspace"@, mods, app) == Some(seq!['\u{7f}']),
        key_text("Escape"@, mods, app) == Some(seq!['\u{1b}']),
{
    lemma_key_names();
}

/// What the function keys send.
pub proof fn law_function_keys(mods: Modifiers, app: bool)
    ensures
        key_text("F1"@, mods, app) == Some(seq!['\u{1b}', 'O', 'P']),
        key_text("F2"@, mods, app) == Some(seq!['\u{1b}', 'O', 'Q']),
        key_text("F3"@, mods, app) == Some(seq!['\u{1b}', 'O', 'R']),
        key_text("F4"@, mods, app) == Some(seq!['\u{1b}', 'O', 'S']),
        key_text("F5"@, mods, app) == Some(seq!['\u{1b}', '[', '1', '5', '~']),
        key_text("F6"@, mods, app) == Some(seq!['\u{1b}', '[', '1', '7', '~']),
        key_text("F7"@, mods, app) == Some(seq!['\u{1b}', '[', '1', '8', '~']),
        key_text("F8"@, mods, app) == Some(seq!['\u{1b}', '[', '1', '9', '~']),
        key_text("F9"@, mods, app) == Some(seq!['\u{1b}', '[', '2', '0', '~']),
        key_text("F10"@, mods, app) == Some(seq!['\u{1b}', '[', '2', '1', '~']),
        key_text("F11"@, mods, app) == Some(seq!['\u{1b}', '[', '2', '3', '~']),
        key_text("F12"@, mods, app) == Some(seq!['\u{1b}', '[', '2', '4', '~']),
{
    lemma_key_names();
    reveal_strlit("\x1bOP");
    reveal_strlit("\x1bOQ");
    reveal_strlit("\x1bOR");
    reveal_strlit("\x1bOS");
    reveal_strlit("\x1b[15~");
    reveal_strlit("\x1b[17~");
    reveal_strlit("\x1b[18~");
    reveal_strlit("\x1b[19~");
    reveal_strlit("\x1b[20~");
    reveal_strlit("\x1b[21~");
    reveal_strlit("\x1b[23~");
    reveal_strlit("\x1b[24~");
    assert("\x1bOP"@ =~= seq!['\u{1b}', 'O', 'P']);
    assert("\x1bOQ"@ =~= seq!['\u{1b}', 'O', 'Q']);
    assert("\x1bOR"@ =~= seq!['\u{1b}', 'O', 'R']);
    assert("\x1bOS"@ =~= seq!['\u{1b}', 'O', 'S']);
    assert("\x1b[15~"@ =~= seq!['\u{1b}', '[', '1', '5', '~']);
    assert("\x1b[17~"@ =~= seq!['\u{1b}', '[', '1', '7', '~']);
    assert("\x1b[18~"@ =~= seq!['\u{1b}', '[', '1', '8', '~']);
    assert("\x1b[19~"@ =~= seq!['\u{1b}', '[', '1', '9', '~']);
    assert("\x1b[20~"@ =~= seq!['\u{1b}', '[', '2', '0', '~']);
    assert("\x1b[21~"@ =~= seq!['\u{1b}', '[', '2', '1', '~']);
    assert("\x1b[23~"@ =~= seq!['\u{1b}', '[', '2', '3', '~']);
    assert("\x1b[24~"@ =~= seq!['\u{1b}', '[', '2', '4', '~']);
}

/// Control with a letter sends the control character of that letter, A the first of them;
/// without control a letter sends nothing by itself.
pub proof fn law_control_letters(c: char, mods: Modifiers, app: bool)
    requires
        'A' <= c <= 'Z',
    ensures
        mods.ctrl ==> key_text(seq![c], mods, app) == Some(
            seq![(c as int - 'A' as int + 1) as char],
        ),
        !mods.ctrl ==> key_text(seq![c], mods, app) is None,
{
    lemma_key_names();
    assert(seq![c].len() == 1);
}

/// The keys for copy and paste are the terminal's own on a Mac, and elsewhere together with
/// shift, where control or command is held.
pub proof fn law_clipboard_keys(mods: Modifiers)
    ensures
        clipboard_keys(true, mods),
        clipboard_keys(false, mods) <==> mods.shift && (mods.ctrl || mods.command || mods.mac_cmd),
{
}

/// A shell is told the kind of terminal that was inherited, if there is a name for it.
pub proof fn law_term_name(name: Seq<char>)
    ensures
        name.len() > 0 ==> term_of(Some(name)) == name,
        name.len() == 0 ==> term_of(Some(name)) == "xterm-256color"@,
        term_of(None) == "xterm-256color"@,
{
}

} // verus!
