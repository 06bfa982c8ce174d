use tessera::color::{darken, elevate, indexed_color, parse_hex, surfaces, Color32};
use tessera::config::{
    config_path, ensure_file, normalize_theme, parse, set_bind, set_color, set_num, set_theme,
    some_unless_empty, uncomment, unquote, ConfigRead, Settings,
};
use tessera::keys::parse_keyspec;
use tessera::number::{lower, Number};
use tessera::template::template;
use tessera::text::{to_chars, to_text};
use tessera::theme::{is_bundled, theme_palette, themes, ColorPalette};

fn value(n: &Number) -> f32 {
    n.as_str().parse::<f32>().unwrap()
}

#[test]
fn lowering_ascii_only() {
    assert_eq!(to_text(&lower(&to_chars("PageUP Ä1"))), "pageup Ä1");
}

fn base() -> ColorPalette {
    let c = |n: u32| format!("#{:06x}", n);
    ColorPalette {
        foreground: c(1),
        background: c(2),
        black: c(3),
        red: c(4),
        green: c(5),
        yellow: c(6),
        blue: c(7),
        magenta: c(8),
        cyan: c(9),
        white: c(10),
        bright_black: c(11),
        bright_red: c(12),
        bright_green: c(13),
        bright_yellow: c(14),
        bright_blue: c(15),
        bright_magenta: c(16),
        bright_cyan: c(17),
        bright_white: c(18),
    }
}

#[test]
fn parses_known_keys() {
    let (s, warns) = parse(
        "font-family = \"JetBrains Mono\"\nfont-size = 16\ntheme = Catppuccin Mocha\nwindow-padding-x = 4\n",
    );
    assert_eq!(s.font_family.as_deref(), Some("JetBrains Mono"));
    assert_eq!(value(&s.font_size), 16.0);
    assert_eq!(s.theme, "catppuccin-mocha"); // normalized
    assert_eq!(value(&s.padding.0), 4.0);
    assert!(warns.is_empty());
}

#[test]
fn comments_and_blanks_are_ignored() {
    let (s, warns) = parse("# a comment\n\n   \nfont-size = 12\n");
    assert_eq!(value(&s.font_size), 12.0);
    assert!(warns.is_empty());
}

#[test]
fn hash_in_value_is_not_a_comment() {
    let (s, _) = parse("background = #1e1e2e\n");
    assert_eq!(s.background.as_deref(), Some("#1e1e2e"));
    assert!(parse_hex("#1e1e2e").is_some());
}

#[test]
fn unknown_key_and_bad_number_warn_but_keep_defaults() {
    let (s, warns) = parse("wat = 3\nfont-size = big\n");
    assert_eq!(value(&s.font_size), 14.0); // unchanged
    assert_eq!(warns.len(), 2);
}

#[test]
fn bad_hex_is_rejected() {
    assert!(parse_hex("#xyz").is_none());
    assert!(parse_hex("1e1e2e").is_none()); // missing '#'
    assert!(parse_hex("#fff").is_none()); // too short
}

#[test]
fn parses_keybindings() {
    let cmd_shift_d = parse_keyspec("cmd+shift+d").unwrap();
    assert_eq!(cmd_shift_d.key, egui::Key::D.name());
    assert!(cmd_shift_d.mods.command && cmd_shift_d.mods.shift && !cmd_shift_d.mods.alt);

    // Aliases + case-insensitivity.
    let opt_enter = parse_keyspec("Option+Enter").unwrap();
    assert_eq!(opt_enter.key, egui::Key::Enter.name());
    assert!(opt_enter.mods.alt);

    // A bare key with no modifiers is allowed.
    assert_eq!(parse_keyspec("f5").unwrap().key, egui::Key::F5.name());
}

#[test]
fn rejects_bad_keybindings() {
    assert!(parse_keyspec("cmd+").is_none()); // no key
    assert!(parse_keyspec("hyper+d").is_none()); // unknown modifier
    assert!(parse_keyspec("cmd+notakey").is_none()); // unknown key
}

#[test]
fn keybind_overrides_default() {
    let (s, warns) = parse("keybind-find = ctrl+s\n");
    assert_eq!(s.keybinds.find.key, egui::Key::S.name());
    assert!(s.keybinds.find.mods.ctrl);
    assert!(warns.is_empty());
    // An unparseable bind warns and keeps the default (Cmd+F).
    let (s, warns) = parse("keybind-find = wat\n");
    assert_eq!(s.keybinds.find.key, egui::Key::F.name());
    assert_eq!(warns.len(), 1);
}

#[test]
fn defaults_without_a_config() {
    let (s, warns) = parse("");
    assert!(warns.is_empty());
    assert_eq!(s.font_family, None);
    assert_eq!(value(&s.font_size), 14.0);
    assert_eq!(s.theme, "default");
    assert_eq!((value(&s.padding.0), value(&s.padding.1)), (8.0, 8.0));
    assert_eq!((s.shell, s.background, s.foreground), (None, None, None));
    assert_eq!(s.keybinds.new_tab.key, "T");
    assert!(s.keybinds.split_down.mods.shift && s.keybinds.split_down.mods.command);
    assert!(!s.keybinds.split_right.mods.shift);
}

#[test]
fn every_key_is_read() {
    let (s, warns) = parse(
        "shell = /bin/zsh\nbackground = #000000\nforeground=#ffffff\nwindow-padding-y = 2.5\n\
         keybind-new-tab = ctrl+n\nkeybind-split-right = alt+r\nkeybind-split-down = alt+shift+r\n\
         keybind-close-pane = ctrl+q\nkeybind-clear = f9\n",
    );
    assert!(warns.is_empty());
    assert_eq!(s.shell.as_deref(), Some("/bin/zsh"));
    assert_eq!(s.background.as_deref(), Some("#000000"));
    assert_eq!(s.foreground.as_deref(), Some("#ffffff"));
    assert_eq!(value(&s.padding.1), 2.5);
    assert_eq!(s.keybinds.new_tab.key, "N");
    assert!(s.keybinds.split_right.mods.alt && s.keybinds.split_right.key == "R");
    assert!(s.keybinds.split_down.mods.shift);
    assert_eq!(s.keybinds.close_pane.key, "Q");
    assert_eq!(s.keybinds.clear.key, "F9");
    let (s, _) = parse("command = fish");
    assert_eq!(s.shell.as_deref(), Some("fish"));
}

#[test]
fn warnings_name_the_line() {
    let (_, warns) = parse(
        "# fine\nno equals sign\nwat = 3\r\nfont-size = big\nkeybind-find = hyper+x\n",
    );
    assert_eq!(
        warns,
        vec![
            "line 2: expected `key = value`, got `no equals sign`",
            "line 3: unknown key `wat`",
            "line 4: `font-size` needs a number, got `big`",
            "line 5: couldn't parse keybinding `hyper+x`",
        ]
    );
}

#[test]
fn only_the_first_equals_sign_splits() {
    let (s, warns) = parse("shell = a=b=c");
    assert!(warns.is_empty());
    assert_eq!(s.shell.as_deref(), Some("a=b=c"));
}

#[test]
fn a_comment_behind_a_value_is_no_part_of_it() {
    let (s, warns) = parse("background       = #1e1e2e   # optional, overrides the theme\n");
    assert!(warns.is_empty());
    assert_eq!(s.background.as_deref(), Some("#1e1e2e"));
    assert_eq!(s.palette(base()).background, "#1e1e2e");
    let (s, warns) = parse(
        "font-size = 9 # points\nfont-family = \"C # Mono\" # quoted\nshell = a#b\t#c\n\
         theme = nord #dark\nkeybind-find = ctrl+s # search\n",
    );
    assert!(warns.is_empty());
    assert_eq!(value(&s.font_size), 9.0);
    assert_eq!(s.font_family.as_deref(), Some("C # Mono"));
    assert_eq!(s.shell.as_deref(), Some("a#b"));
    assert_eq!(s.theme, "nord");
    assert_eq!(s.keybinds.find.key, "S");
}

#[test]
fn where_a_comment_starts() {
    for (text, want) in [
        ("", ""),
        ("#", "#"),
        ("# x", "# x"),
        ("a #", "a "),
        ("a # b # c", "a "),
        ("a#b", "a#b"),
        ("#1 #2", "#1 "),
        ("\"a # b\" # c", "\"a # b\" "),
        ("\"a # b", "\"a "), // the quote is never closed
        ("\"\" # \"", "\"\" "),
        ("x\u{3000}#y", "x\u{3000}"),
    ] {
        assert_eq!(to_text(uncomment(&to_chars(text))), want, "{}", text);
    }
}

#[test]
fn the_sample_config_of_the_manual() {
    let (s, warns) = parse(
        "font-family      = \"JetBrains Mono\"\nfont-size        = 14\n\
         theme            = catppuccin-mocha\nwindow-padding-x = 8\nwindow-padding-y = 8\n\
         shell            = /bin/zsh\nbackground       = #1e1e2e   # optional, overrides the theme\n\
         foreground       = #cdd6f4\n\n# Rebind the discrete shortcuts:\n\
         keybind-new-tab     = cmd+t\nkeybind-split-down  = cmd+shift+d\n",
    );
    assert!(warns.is_empty());
    assert_eq!(s.theme, "catppuccin-mocha");
    assert_eq!(s.background.as_deref(), Some("#1e1e2e"));
    assert_eq!(s.foreground.as_deref(), Some("#cdd6f4"));
    assert!(s.keybinds.split_down.mods.shift);
}

#[test]
fn bad_values_are_reported_and_skipped() {
    let (s, warns) = parse("background = nothex\n");
    assert_eq!(warns, vec!["line 1: `background` needs a colour like `#rrggbb`, got `nothex`"]);
    assert_eq!(s.background, None);
    let (s, warns) = parse(
        "foreground = #ffffff\nforeground = #fff\ntheme = Nord\ntheme = no such theme\ntheme =\n",
    );
    assert_eq!(
        warns,
        vec![
            "line 2: `foreground` needs a colour like `#rrggbb`, got `#fff`",
            "line 4: unknown theme `no such theme`",
            "line 5: unknown theme ``",
        ]
    );
    assert_eq!(s.foreground.as_deref(), Some("#ffffff"));
    assert_eq!(s.theme, "nord");
    // An empty colour is the theme's own.
    let (s, warns) = parse("background = #000000\nbackground = \"\"\n");
    assert!(warns.is_empty());
    assert_eq!(s.background, None);
}

#[test]
fn empty_values_unset() {
    let (s, warns) = parse("shell = /bin/sh\nshell =\nfont-family = \"\"\n");
    assert!(warns.is_empty());
    assert_eq!(s.shell, None);
    assert_eq!(s.font_family, None);
}

#[test]
fn the_last_line_for_a_key_counts() {
    let (s, warns) = parse("font-size = 9\nfont-size = 10\nfont-size = ten\n");
    assert_eq!(value(&s.font_size), 10.0);
    assert_eq!(warns.len(), 1);
}

#[test]
fn the_template_changes_nothing() {
    let (s, warns) = parse(&template());
    assert!(warns.is_empty());
    assert_eq!(value(&s.font_size), 14.0);
    assert_eq!(s.theme, "default");
    assert_eq!(s.shell, None);
    assert!(template().starts_with(
        "# Tessera config. Uncomment a line to change it; `#` starts a comment.\n# Themes: default,"
    ));
    assert!(template().contains("solarized-dark.\n\n# font-family      = \"JetBrains Mono\"\n# font"));
    assert!(template().contains("# foreground       = #cdd6f4\n\n# Keybindings. Modifiers: cmd"));
    assert!(template().ends_with("# keybind-clear       = cmd+k\n"));
    assert_eq!(template().lines().count(), 21);
}

#[test]
fn the_template_uncommented_is_a_config() {
    let text: String = template()
        .lines()
        .filter(|l| l.contains(" = "))
        .map(|l| format!("{}\n", l.trim_start_matches("# ")))
        .collect();
    let (s, warns) = parse(&text);
    assert!(warns.is_empty());
    let d = Settings::default();
    assert_eq!(s.font_family.as_deref(), Some("JetBrains Mono"));
    assert_eq!(value(&s.font_size), value(&d.font_size));
    assert_eq!(s.theme, "catppuccin-mocha");
    assert_eq!(s.background.as_deref(), Some("#1e1e2e"));
    for (a, b) in [
        (&s.keybinds.new_tab, &d.keybinds.new_tab),
        (&s.keybinds.split_right, &d.keybinds.split_right),
        (&s.keybinds.split_down, &d.keybinds.split_down),
        (&s.keybinds.close_pane, &d.keybinds.close_pane),
        (&s.keybinds.find, &d.keybinds.find),
        (&s.keybinds.clear, &d.keybinds.clear),
    ] {
        assert_eq!(a.mods, b.mods);
        assert_eq!(a.key, b.key);
    }
}

#[test]
fn quotes_are_stripped_in_pairs() {
    assert_eq!(unquote("\"a b\""), "a b");
    assert_eq!(unquote("\"a"), "\"a");
    assert_eq!(unquote("a\""), "a\"");
    assert_eq!(unquote("\""), "\"");
    assert_eq!(unquote("\"\""), "");
    assert_eq!(unquote("\"\"x\"\""), "\"x\"");
    assert_eq!(some_unless_empty(""), None);
    assert_eq!(some_unless_empty("x").as_deref(), Some("x"));
}

#[test]
fn theme_names_are_lenient() {
    assert_eq!(normalize_theme("Catppuccin Mocha"), "catppuccin-mocha");
    assert_eq!(normalize_theme("TOKYO_NIGHT"), "tokyo-night");
    assert_eq!(normalize_theme("ÄÖ_Ü"), "äö-ü");
    for name in ["Catppuccin Mocha", "catppuccin_mocha", "CATPPUCCIN-MOCHA"] {
        let norm = normalize_theme(name);
        assert_eq!(norm, "catppuccin-mocha");
        assert_eq!(normalize_theme(&norm), norm);
        assert!(is_bundled(&norm) && !is_bundled(name));
    }
    // A word-final sigma is not the letter's usual lower case.
    assert_eq!(normalize_theme("ΟΔΟΣ"), "οδος");
}

#[test]
fn numbers_are_those_that_parse() {
    for text in [
        "1", "-1", "+1", "1.", ".5", "1.5", "1e3", "1E+3", "1e-3", ".5e1", "5.e1", "inf", "-INF",
        "Infinity", "NaN", "+nan", "007", "", "-", "+", ".", "e", "1e", "1e+", "e5", ".e5", "1.2.3",
        "1 ", " 1", "0x10", "1_000", "infinit", "nanx", "--1", "1f", "١", "1e5.0",
    ] {
        assert_eq!(Number::new(text).is_some(), text.parse::<f32>().is_ok(), "{}", text);
    }
    let n = Number::new("-2.5e1").unwrap();
    assert_eq!(value(&n.clone()), -25.0);
}

#[test]
fn setters_keep_the_old_value_on_failure() {
    let mut n = Number::new("3").unwrap();
    assert_eq!(set_num(&mut n, "4", "font-size", 1), None);
    assert_eq!(n.as_str(), "4");
    assert!(set_num(&mut n, "x", "font-size", 7).unwrap().starts_with("line 7"));
    assert_eq!(n.as_str(), "4");
    let mut k = parse_keyspec("ctrl+a").unwrap();
    assert_eq!(set_bind(&mut k, "alt+b", 1), None);
    assert_eq!(k.key, "B");
    assert!(set_bind(&mut k, "", 2).is_some());
    assert_eq!(k.key, "B");
    let mut c = Some("#000000".to_string());
    assert_eq!(set_color(&mut c, "#0a0b0c", "background", 1), None);
    assert_eq!(c.as_deref(), Some("#0a0b0c"));
    assert!(set_color(&mut c, "teal", "background", 2).is_some());
    assert_eq!(c.as_deref(), Some("#0a0b0c"));
    assert_eq!(set_color(&mut c, "", "background", 3), None);
    assert_eq!(c, None);
    let mut t = "default".to_string();
    assert_eq!(set_theme(&mut t, "Tokyo Night", 1), None);
    assert_eq!(t, "tokyo-night");
    assert!(set_theme(&mut t, "tokyo", 2).is_some());
    assert_eq!(t, "tokyo-night");
}

#[test]
fn hex_colours() {
    assert_eq!(parse_hex("#010aFf"), Some(Color32 { r: 1, g: 10, b: 255, a: 255 }));
    for bad in ["#+f0000", "#+1+2+3", "", "#", "#1234567", "#12345", "#-10000", "#12 456", "#ééé", "#1é234", "##12345"] {
        assert_eq!(parse_hex(bad), None, "{}", bad);
    }
}

#[test]
fn palettes_and_overrides() {
    let (mut s, _) = parse("theme = nord\nbackground = #010203\n");
    s.foreground = Some("red".to_string());
    let p = s.palette(base());
    assert_eq!(p.background, "#010203");
    assert_eq!(p.foreground, "#d8dee9"); // not a colour, so the theme's own
    assert_eq!(p.red, "#bf616a");
    s.theme = "no such theme".to_string();
    assert_eq!(s.palette(base()).bright_white, base().bright_white);
}

#[test]
fn bundled_themes_are_well_formed() {
    assert_eq!(
        themes(),
        vec![
            "default",
            "catppuccin-mocha",
            "dracula",
            "nord",
            "tokyo-night",
            "gruvbox-dark",
            "solarized-dark",
        ]
    );
    for name in themes() {
        let p = theme_palette(&name, base());
        for c in [
            &p.foreground, &p.background, &p.black, &p.red, &p.green, &p.yellow, &p.blue,
            &p.magenta, &p.cyan, &p.white, &p.bright_black, &p.bright_red, &p.bright_green,
            &p.bright_yellow, &p.bright_blue, &p.bright_magenta, &p.bright_cyan, &p.bright_white,
        ] {
            assert!(parse_hex(c).is_some(), "{} {}", name, c);
        }
        assert_eq!(p.background == base().background, name == "default");
    }
    assert_eq!(theme_palette("dracula", base()).yellow, "#f1fa8c");
    assert_eq!(theme_palette("solarized-dark", base()).background, "#002b36");
}

#[test]
fn darkening_rounds_as_single_precision_does() {
    for v in 0..=255u8 {
        for (percent, factor) in [(55u8, 0.55f32), (82u8, 0.82f32)] {
            let want = (v as f32 * factor).round().clamp(0.0, 255.0) as u8;
            let got = darken(Color32::from_rgb(v, 0, 255), percent);
            assert_eq!(got.r, want);
            assert_eq!(got.g, 0);
        }
    }
}

#[test]
fn numbered_colours() {
    let c = |r, g, b| Some(Color32::from_rgb(r, g, b));
    assert_eq!(indexed_color(15), None);
    assert_eq!(indexed_color(16), c(0, 0, 0));
    assert_eq!(indexed_color(17), c(0, 0, 95));
    assert_eq!(indexed_color(110), c(135, 175, 215));
    assert_eq!(indexed_color(231), c(255, 255, 255));
    assert_eq!(indexed_color(232), c(8, 8, 8));
    assert_eq!(indexed_color(255), c(238, 238, 238));
}

#[test]
fn an_idle_line_moves_line_numbers_only() {
    let (before, after) = ("wat = 1\nfont-size = 9", "theme = x\nshell = sh\nno sign");
    let (s, v) = parse(&format!("{}\n{}", before, after));
    for idle in ["", "  ", "# font-size = 3"] {
        let (t, w) = parse(&format!("{}\n{}\n{}", before, idle, after));
        assert_eq!((s.font_size.as_str(), &s.shell), (t.font_size.as_str(), &t.shell));
        assert_eq!(v.len(), w.len());
        assert_eq!(v[0], w[0]);
        assert_eq!(v[1].replace("line 3:", "line 4:"), w[1]);
        assert_eq!(v[2].replace("line 5:", "line 6:"), w[2]);
    }
}

#[test]
fn surfaces_come_from_the_background() {
    let s = surfaces("#646464");
    assert_eq!(s.term_bg, Color32::from_rgb(100, 100, 100));
    assert_eq!(s.window_bg, Color32::from_rgb(55, 55, 55));
    assert_eq!(s.bar_bg, Color32::from_rgb(82, 82, 82));
    assert_eq!(surfaces("teal").term_bg, Color32::from_rgb(0x18, 0x18, 0x18));
    assert_eq!(elevate(Color32::from_rgb(250, 0, 100), 10), Color32::from_rgb(255, 10, 110));
}

#[test]
fn the_config_path() {
    let b = |s: &str| Some(s.as_bytes().to_vec());
    let p = config_path(b("/x"), b("/home/me")).unwrap();
    assert_eq!((p.dir, p.segments), (b"/x".to_vec(), vec!["tessera".to_string(), "config".into()]));
    for xdg in [None, b("")] {
        let p = config_path(xdg, b("/home/me")).unwrap();
        assert_eq!(p.dir, b"/home/me".to_vec());
        assert_eq!(p.segments, vec![".config", "tessera", "config"]);
    }
    assert!(config_path(None, None).is_none());
    assert!(config_path(b(""), None).is_none());
}

#[test]
fn the_template_is_written_once() {
    let path = || config_path(None, Some(b"/h".to_vec()));
    assert_eq!(ensure_file(path(), false).unwrap().template.as_deref(), Some(template().as_str()));
    assert_eq!(ensure_file(path(), true).unwrap().template, None);
    assert!(ensure_file(None, false).is_none());
}

#[test]
fn loading() {
    let l = Settings::load(ConfigRead::Text("wat = 1\nfont-size = 9".to_string()));
    assert_eq!(l.messages, vec!["tessera: config: line 1: unknown key `wat`"]);
    assert_eq!(value(&l.settings.font_size), 9.0);
    assert_eq!(l.template, None);
    let l = Settings::load(ConfigRead::Missing);
    assert_eq!(l.template.as_deref(), Some(template().as_str()));
    assert!(l.messages.is_empty());
    // What is there but cannot be read is not written over.
    for read in [ConfigRead::Nowhere, ConfigRead::Unreadable] {
        let l = Settings::load(read);
        assert_eq!(l.template, None);
        assert!(l.messages.is_empty());
        assert_eq!(value(&l.settings.font_size), 14.0);
        assert_eq!(l.settings.theme, "default");
    }
}
