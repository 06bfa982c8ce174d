use tessera::case::to_title;
use tessera::config::parse;
use tessera::keynames::{find_listed, letter, respell};
use tessera::keys::{bind, modifier_named, parse_key, parse_keyspec, Modifiers};
use tessera::launch::{default_working_dir, help_text, wants_help, Config};
use tessera::text::{decimal_text, find_from, join, split_at_each, to_chars, to_text, trim, white};

#[test]
fn keys_are_found_under_their_own_name() {
    for key in egui::Key::ALL {
        assert_eq!(parse_key(key.name()).as_deref(), Some(key.name()));
        for tok in [key.name().to_lowercase(), key.name().to_uppercase()] {
            assert_eq!(parse_key(&tok).as_deref(), Some(key.name()), "{}", tok);
        }
    }
}

#[test]
fn the_names_of_all_keys() {
    let words = [
        "Down", "Left", "Right", "Up", "Escape", "Tab", "Backspace", "Enter", "Insert", "Delete",
        "Home", "End", "PageUp", "PageDown", "Copy", "Cut", "Paste", "Space", "Colon", "Comma",
        "Minus", "Period", "Plus", "Equals", "Semicolon", "OpenBracket", "CloseBracket",
        "OpenCurlyBracket", "CloseCurlyBracket", "Backtick", "Backslash", "Slash", "Pipe",
        "Questionmark", "Exclamationmark", "Quote",
    ];
    let mut names: Vec<String> = words.iter().map(|w| w.to_string()).collect();
    names.extend(('0'..='9').map(|c| c.to_string()));
    names.extend(('A'..='Z').map(|c| c.to_string()));
    names.extend((1..=35).map(|n| format!("F{}", n)));
    assert_eq!(names, egui::Key::ALL.iter().map(|k| k.name()).collect::<Vec<_>>());
    let found = find_listed(&names, &to_chars("opencurlybracket"));
    assert_eq!(found.as_deref(), Some("OpenCurlyBracket"));
    assert_eq!(find_listed(&names, &to_chars("OpenCurlyBracket")), None);
    assert_eq!(find_listed(&vec![], &to_chars("a")), None);
}

#[test]
fn second_names_of_keys() {
    let mut all: Vec<(String, String)> = [
        ("⏷", "Down"),
        ("ArrowDown", "Down"),
        ("⏴", "Left"),
        ("ArrowLeft", "Left"),
        ("⏵", "Right"),
        ("ArrowRight", "Right"),
        ("⏶", "Up"),
        ("ArrowUp", "Up"),
        ("Esc", "Escape"),
        ("Return", "Enter"),
        ("Help", "Insert"),
        (":", "Colon"),
        (",", "Comma"),
        ("-", "Minus"),
        ("−", "Minus"),
        (".", "Period"),
        ("=", "Equals"),
        ("Equal", "Equals"),
        ("NumpadEqual", "Equals"),
        (";", "Semicolon"),
        ("\\", "Backslash"),
        ("/", "Slash"),
        ("|", "Pipe"),
        ("?", "Questionmark"),
        ("!", "Exclamationmark"),
        ("[", "OpenBracket"),
        ("]", "CloseBracket"),
        ("{", "OpenCurlyBracket"),
        ("}", "CloseCurlyBracket"),
        ("`", "Backtick"),
        ("Backquote", "Backtick"),
        ("Grave", "Backtick"),
        ("'", "Quote"),
    ]
    .iter()
    .map(|(spelt, key)| (spelt.to_string(), key.to_string()))
    .collect();
    for d in 0..10 {
        all.push((format!("Digit{}", d), d.to_string()));
        all.push((format!("Numpad{}", d), d.to_string()));
    }
    for (spelt, key) in &all {
        assert_eq!(egui::Key::from_name(spelt).unwrap().name(), key);
        for tok in [spelt.clone(), spelt.to_lowercase(), spelt.to_uppercase()] {
            assert_eq!(parse_key(&tok).as_ref(), Some(key), "{}", tok);
        }
    }
    // Two that no token can be: a blank is trimmed, and a plus sign separates.
    assert_eq!(parse_key(" ").as_deref(), Some("Space"));
    assert_eq!(parse_key("+").as_deref(), Some("Plus"));
    assert_eq!(respell(&to_chars("arrowleft")), Some("ArrowLeft"));
    assert_eq!(respell(&to_chars("ArrowLeft")), None);
    assert_eq!(respell(&to_chars("esc")), None);
    assert!(letter('q') && letter('Q') && !letter('1') && !letter('é'));
}

#[test]
fn texts_that_name_no_key() {
    for tok in [
        "", "notakey", "F0", "F36", "F1 ", "Digit", "Digit10", "Numpad", "Num0", "Key", "Page",
        "\"", "~", "@", "é", "⏵⏵", "aa", "00", "Space ", "Backspac",
    ] {
        assert_eq!(parse_key(tok), None, "{}", tok);
        assert_eq!(egui::Key::from_name(tok), None, "{}", tok);
    }
}

#[test]
fn whatever_name_a_key_is_found_under_case_makes_no_difference() {
    for name in [
        "Down", "Esc", "Return", "Help", "Equal", "Equals", "NumpadEqual", "Backquote", "Grave",
        "Digit0", "Numpad7", "F35", "ArrowLeft", "⏷", "−", "-", "[", "a", "Z", "5",
    ] {
        let key = egui::Key::from_name(name).unwrap().name();
        for tok in [name.to_string(), name.to_lowercase(), name.to_uppercase()] {
            assert_eq!(parse_key(&tok).as_deref(), Some(key), "{}", tok);
        }
    }
}

#[test]
fn key_names_tell_keys_apart() {
    let mut names: Vec<&str> = egui::Key::ALL.iter().map(|k| k.name()).collect();
    names.sort();
    names.dedup();
    assert_eq!(names.len(), egui::Key::ALL.len());
}

#[test]
fn letters_and_digits_are_keys() {
    for c in 'a'..='z' {
        let upper = c.to_ascii_uppercase().to_string();
        assert_eq!(parse_key(&c.to_string()), Some(upper.clone()));
        assert_eq!(parse_key(&upper), Some(upper));
    }
    for c in '0'..='9' {
        assert_eq!(parse_key(&c.to_string()), Some(c.to_string()));
    }
}

#[test]
fn key_words_in_any_of_these_cases() {
    for (tok, key) in [
        ("enter", egui::Key::Enter),
        ("ENTER", egui::Key::Enter),
        ("esc", egui::Key::Escape),
        ("space", egui::Key::Space),
        ("tab", egui::Key::Tab),
        ("f12", egui::Key::F12),
        ("left", egui::Key::ArrowLeft),
        ("PageUp", egui::Key::PageUp),
        ("pageup", egui::Key::PageUp),
        ("PAGEDOWN", egui::Key::PageDown),
        ("-", egui::Key::Minus),
    ] {
        assert_eq!(parse_key(tok).as_deref(), Some(key.name()), "{}", tok);
    }
    let (a, b) = (parse_keyspec("cmd+pageup").unwrap(), parse_keyspec("cmd+PageUp").unwrap());
    assert_eq!((a.mods, a.key.as_str()), (Modifiers::command(), egui::Key::PageUp.name()));
    assert_eq!((a.mods, a.key), (b.mods, b.key));
    assert_eq!(parse_key("page up"), None);
    assert_eq!(parse_key(""), None);
    assert_eq!(parse_key("ß"), None);
}

#[test]
fn modifiers_in_any_case() {
    for (word, m) in [
        ("cmd", Modifiers::command()),
        ("Command", Modifiers::command()),
        ("SUPER", Modifiers::command()),
        ("win", Modifiers::command()),
        ("meta", Modifiers::command()),
        ("ctrl", Modifiers::ctrl()),
        ("Control", Modifiers::ctrl()),
        ("alt", Modifiers::alt()),
        ("opt", Modifiers::alt()),
        ("OPTION", Modifiers::alt()),
        ("Shift", Modifiers::shift()),
    ] {
        let k = parse_keyspec(&format!("{}+x", word)).unwrap();
        assert_eq!((k.mods, k.key.as_str()), (m, "X"), "{}", word);
    }
    assert_eq!(modifier_named("Cmd"), None);
    assert_eq!(modifier_named("hyper"), None);
}

#[test]
fn keybindings_are_lenient_about_blanks() {
    let k = parse_keyspec("  Cmd + Shift +  d ").unwrap();
    assert_eq!(k.mods, Modifiers::command().plus(Modifiers::shift()));
    assert_eq!(k.key, "D");
    // Empty pieces do not count, so a trailing plus leaves the last word as the key.
    assert_eq!(parse_keyspec("ctrl++a+").unwrap().key, "A");
    assert!(parse_keyspec("").is_none());
    assert!(parse_keyspec(" + + ").is_none());
    assert!(parse_keyspec("d+cmd").is_none());
    let k = parse_keyspec("cmd+cmd+ctrl+d").unwrap();
    assert_eq!(k.mods, Modifiers::command().plus(Modifiers::ctrl()));
    assert_eq!(parse_keyspec("d").unwrap().mods, Modifiers::none());
}

#[test]
fn binding_words_and_a_key() {
    let words = vec!["cmd".to_string(), "alt".to_string()];
    let k = bind(&words, Some("Q".to_string())).unwrap();
    assert_eq!(k.mods, Modifiers::command().plus(Modifiers::alt()));
    assert_eq!(k.key, "Q");
    assert!(bind(&words, None).is_none());
    assert!(bind(&vec!["CMD".to_string()], Some("Q".to_string())).is_none());
}

#[test]
fn titles_follow_unicode() {
    let title = |s: &str| to_title(&to_chars(s)).into_iter().collect::<String>();
    assert_eq!(title("eNTER"), "Enter");
    assert_eq!(title("ßX"), "SSx");
    assert_eq!(title("éÀ"), "Éà");
    assert_eq!(title("xΣ"), "Xσ");
    assert_eq!(title(""), "");
}

#[test]
fn blanks_are_those_of_unicode() {
    for c in (0..=0x10ffffu32).filter_map(char::from_u32) {
        assert_eq!(white(c), c.is_whitespace(), "{:?}", c);
    }
    let (s, _) = parse("\u{a0}shell\u{3000}=\u{2003}x\u{85}");
    assert_eq!(s.shell.as_deref(), Some("x"));
}

#[test]
fn text_helpers() {
    let chars = to_chars(" a,b ,, ");
    assert_eq!(to_text(trim(&chars)), "a,b ,,");
    assert_eq!(split_at_each(&chars, ',').len(), 4);
    assert_eq!(find_from(&chars, 0, ','), 2);
    assert_eq!(find_from(&chars, 3, ','), 5);
    assert_eq!(find_from(&chars, 0, 'z'), chars.len());
    assert_eq!(decimal_text(0), "0");
    assert_eq!(decimal_text(90210), "90210");
    assert_eq!(join(&vec!["a".to_string(), "b".to_string()], "--"), "a--b");
    assert_eq!(join(&vec![], "--"), "");
}

#[test]
fn what_to_run() {
    let s = |x: &str| Some(x.to_string());
    let c = Config::resolve(s("tmux"), vec!["new".to_string()], s("/bin/fish"), s("/bin/sh"));
    assert_eq!((c.shell.as_str(), c.args), ("tmux", vec!["new".to_string()]));
    let c = Config::resolve(None, vec![], s("/bin/fish"), s("/bin/sh"));
    assert_eq!((c.shell.as_str(), c.args), ("/bin/fish", vec!["-l".to_string()]));
    assert_eq!(Config::resolve(None, vec![], None, s("/bin/sh")).shell, "/bin/sh");
    assert_eq!(Config::resolve(None, vec![], None, None).shell, "/bin/zsh");
    assert!(wants_help(&s("-h")) && wants_help(&s("--help")));
    assert!(!wants_help(&s("help")) && !wants_help(&None));
}

#[test]
fn where_shells_start() {
    assert_eq!(default_working_dir(Some("/work"), false, Some("/home")), Some("/work"));
    assert_eq!(default_working_dir(Some("/"), true, Some("/home")), Some("/home"));
    assert_eq!(default_working_dir(None, false, Some("/home")), Some("/home"));
    assert_eq!(default_working_dir(Some("/"), true, None), None);
}

#[test]
fn help_lists_the_themes() {
    let text = help_text();
    assert!(text.starts_with("Tessera - terminal with native, draggable pane splitting\n\nUSAGE:\n"));
    assert!(text.contains(
        "themes: default, catppuccin-mocha, dracula, nord, tokyo-night, gruvbox-dark, solarized-dark\n\nTMUX:"
    ));
    assert!(text.contains("\n  Cmd+Shift+D    split down (panes stacked)\n"));
    assert!(text.ends_with("run inside tmux for tmux-native splits"));
}
