//! The bundled colour themes.

use vstd::prelude::*;

use crate::text::{same_text, texts};

verus! {

/// The colours of a terminal: text, background, and the sixteen ANSI colours, each
/// as "#rrggbb".
#[derive(Debug)]
pub struct ColorPalette {
    pub foreground: String,
    pub background: String,
    pub black: String,
    pub red: String,
    pub green: String,
    pub yellow: String,
    pub blue: String,
    pub magenta: String,
    pub cyan: String,
    pub white: String,
    pub bright_black: String,
    pub bright_red: String,
    pub bright_green: String,
    pub bright_yellow: String,
    pub bright_blue: String,
    pub bright_magenta: String,
    pub bright_cyan: String,
    pub bright_white: String,
}

/// What a `ColorPalette` holds.
pub struct PaletteView {
    pub foreground: Seq<char>,
    pub background: Seq<char>,
    pub black: Seq<char>,
    pub red: Seq<char>,
    pub green: Seq<char>,
    pub yellow: Seq<char>,
    pub blue: Seq<char>,
    pub magenta: Seq<char>,
    pub cyan: Seq<char>,
    pub white: Seq<char>,
    pub bright_black: Seq<char>,
    pub bright_red: Seq<char>,
    pub bright_green: Seq<char>,
    pub bright_yellow: Seq<char>,
    pub bright_blue: Seq<char>,
    pub bright_magenta: Seq<char>,
    pub bright_cyan: Seq<char>,
    pub bright_white: Seq<char>,
}

impl View for ColorPalette {
    type V = PaletteView;

    open spec fn view(&self) -> PaletteView {
        PaletteView {
            foreground: self.foreground@,
            background: self.background@,
            black: self.black@,
            red: self.red@,
            green: self.green@,
            yellow: self.yellow@,
            blue: self.blue@,
            magenta: self.magenta@,
            cyan: self.cyan@,
            white: self.white@,
            bright_black: self.bright_black@,
            bright_red: self.bright_red@,
            bright_green: self.bright_green@,
            bright_yellow: self.bright_yellow@,
            bright_blue: self.bright_blue@,
            bright_magenta: self.bright_magenta@,
            bright_cyan: self.bright_cyan@,
            bright_white: self.bright_white@,
        }
    }
}

/// The names of the bundled themes.
pub open spec fn theme_list() -> Seq<Seq<char>> {
    seq![
        "default"@,
        "catppuccin-mocha"@,
        "dracula"@,
        "nord"@,
        "tokyo-night"@,
        "gruvbox-dark"@,
        "solarized-dark"@,
    ]
}

/// Lists the names of the bundled themes.
pub fn themes() -> (r: Vec<String>)
    ensures
        texts(r@) == theme_list(),
{
    let mut out: Vec<String> = Vec::new();
    out.push("default".to_owned());
    out.push("catppuccin-mocha".to_owned());
    out.push("dracula".to_owned());
    out.push("nord".to_owned());
    out.push("tokyo-night".to_owned());
    out.push("gruvbox-dark".to_owned());
    out.push("solarized-dark".to_owned());
    assert(texts(out@) == theme_list());
    out
}

/// Whether a bundled theme has the name.
pub fn is_bundled(name: &str) -> (r: bool)
    ensures
        r == theme_list().contains(name@),
{
    let all = themes();
    let mut i: usize = 0;
    while i < all.len()
        invariant
            i <= all@.len(),
            texts(all@) == theme_list(),
            forall|j: int| 0 <= j < i ==> #[trigger] theme_list()[j] != name@,
        decreases all@.len() - i,
    {
        assert(theme_list()[i as int] == all@[i as int]@);
        if same_text(all[i].as_str(), name) {
            return true;
        }
        i += 1;
    }
    assert(theme_list().len() == all@.len());
    false
}

/// The colours of the theme "catppuccin-mocha".
pub open spec fn catppuccin_mocha() -> PaletteView {
    PaletteView {
        foreground: "#cdd6f4"@,
        background: "#1e1e2e"@,
        black: "#45475a"@,
        red: "#f38ba8"@,
        green: "#a6e3a1"@,
        yellow: "#f9e2af"@,
        blue: "#89b4fa"@,
        magenta: "#f5c2e7"@,
        cyan: "#94e2d5"@,
        white: "#bac2de"@,
        bright_black: "#585b70"@,
        bright_red: "#f38ba8"@,
        bright_green: "#a6e3a1"@,
        bright_yellow: "#f9e2af"@,
        bright_blue: "#89b4fa"@,
        bright_magenta: "#f5c2e7"@,
        bright_cyan: "#94e2d5"@,
        bright_white: "#a6adc8"@,
    }
}

/// The colours of the theme "dracula".
pub open spec fn dracula() -> PaletteView {
    PaletteView {
        foreground: "#f8f8f2"@,
        background: "#282a36"@,
        black: "#21222c"@,
        red: "#ff5555"@,
        green: "#50fa7b"@,
        yellow: "#f1fa8c"@,
        blue: "#bd93f9"@,
        magenta: "#ff79c6"@,
        cyan: "#8be9fd"@,
        white: "#f8f8f2"@,
        bright_black: "#6272a4"@,
        bright_red: "#ff6e6e"@,
        bright_green: "#69ff94"@,
        bright_yellow: "#ffffa5"@,
        bright_blue: "#d6acff"@,
        bright_magenta: "#ff92df"@,
        bright_cyan: "#a4ffff"@,
        bright_white: "#ffffff"@,
    }
}

/// The colours of the theme "nord".
pub open spec fn nord() -> PaletteView {
    PaletteView {
        foreground: "#d8dee9"@,
        background: "#2e3440"@,
        black: "#3b4252"@,
        red: "#bf616a"@,
        green: "#a3be8c"@,
        yellow: "#ebcb8b"@,
        blue: "#81a1c1"@,
        magenta: "#b48ead"@,
        cyan: "#88c0d0"@,
        white: "#e5e9f0"@,
        bright_black: "#4c566a"@,
        bright_red: "#bf616a"@,
        bright_green: "#a3be8c"@,
        bright_yellow: "#ebcb8b"@,
        bright_blue: "#81a1c1"@,
        bright_magenta: "#b48ead"@,
        bright_cyan: "#8fbcbb"@,
        bright_white: "#eceff4"@,
    }
}

/// The colours of the theme "tokyo-night".
pub open spec fn tokyo_night() -> PaletteView {
    PaletteView {
        foreground: "#c0caf5"@,
        background: "#1a1b26"@,
        black: "#15161e"@,
        red: "#f7768e"@,
        green: "#9ece6a"@,
        yellow: "#e0af68"@,
        blue: "#7aa2f7"@,
        magenta: "#bb9af7"@,
        cyan: "#7dcfff"@,
        white: "#a9b1d6"@,
        bright_black: "#414868"@,
        bright_red: "#f7768e"@,
        bright_green: "#9ece6a"@,
        bright_yellow: "#e0af68"@,
        bright_blue: "#7aa2f7"@,
        bright_magenta: "#bb9af7"@,
        bright_cyan: "#7dcfff"@,
        bright_white: "#c0caf5"@,
    }
}

/// The colours of the theme "gruvbox-dark".
pub open spec fn gruvbox_dark() -> PaletteView {
    PaletteView {
        foreground: "#ebdbb2"@,
        background: "#282828"@,
        black: "#282828"@,
        red: "#cc241d"@,
        green: "#98971a"@,
        yellow: "#d79921"@,
        blue: "#458588"@,
        magenta: "#b16286"@,
        cyan: "#689d6a"@,
        white: "#a89984"@,
        bright_black: "#928374"@,
        bright_red: "#fb4934"@,
        bright_green: "#b8bb26"@,
        bright_yellow: "#fabd2f"@,
        bright_blue: "#83a598"@,
        bright_magenta: "#d3869b"@,
        bright_cyan: "#8ec07c"@,
        bright_white: "#ebdbb2"@,
    }
}

/// The colours of the theme "solarized-dark".
pub open spec fn solarized_dark() -> PaletteView {
    PaletteView {
        foreground: "#839496"@,
        background: "#002b36"@,
        black: "#073642"@,
        red: "#dc322f"@,
        green: "#859900"@,
        yellow: "#b58900"@,
        blue: "#268bd2"@,
        magenta: "#d33682"@,
        cyan: "#2aa198"@,
        white: "#eee8d5"@,
        bright_black: "#586e75"@,
        bright_red: "#cb4b16"@,
        bright_green: "#586e75"@,
        bright_yellow: "#657b83"@,
        bright_blue: "#839496"@,
        bright_magenta: "#6c71c4"@,
        bright_cyan: "#93a1a1"@,
        bright_white: "#fdf6e3"@,
    }
}

/// The colours of the theme called `name`; those of `base` for "default" and for a
/// name that no theme has.
pub open spec fn theme_colors(name: Seq<char>, base: PaletteView) -> PaletteView {
    if name == "catppuccin-mocha"@ {
        catppuccin_mocha()
    } else if name == "dracula"@ {
        dracula()
    } else if name == "nord"@ {
        nord()
    } else if name == "tokyo-night"@ {
        tokyo_night()
    } else if name == "gruvbox-dark"@ {
        gruvbox_dark()
    } else if name == "solarized-dark"@ {
        solarized_dark()
    } else {
        base
    }
}

fn catppuccin_mocha_palette() -> (r: ColorPalette)
    ensures
        r@ == catppuccin_mocha(),
{
    ColorPalette {
        foreground: "#cdd6f4".to_owned(),
        background: "#1e1e2e".to_owned(),
        black: "#45475a".to_owned(),
        red: "#f38ba8".to_owned(),
        green: "#a6e3a1".to_owned(),
        yellow: "#f9e2af".to_owned(),
        blue: "#89b4fa".to_owned(),
        magenta: "#f5c2e7".to_owned(),
        cyan: "#94e2d5".to_owned(),
        white: "#bac2de".to_owned(),
        bright_black: "#585b70".to_owned(),
        bright_red: "#f38ba8".to_owned(),
        bright_green: "#a6e3a1".to_owned(),
        bright_yellow: "#f9e2af".to_owned(),
        bright_blue: "#89b4fa".to_owned(),
        bright_magenta: "#f5c2e7".to_owned(),
        bright_cyan: "#94e2d5".to_owned(),
        bright_white: "#a6adc8".to_owned(),
    }
}

fn dracula_palette() -> (r: ColorPalette)
    ensures
        r@ == dracula(),
{
    ColorPalette {
        foreground: "#f8f8f2".to_owned(),
        background: "#282a36".to_owned(),
        black: "#21222c".to_owned(),
        red: "#ff5555".to_owned(),
        green: "#50fa7b".to_owned(),
        yellow: "#f1fa8c".to_owned(),
        blue: "#bd93f9".to_owned(),
        magenta: "#ff79c6".to_owned(),
        cyan: "#8be9fd".to_owned(),
        white: "#f8f8f2".to_owned(),
        bright_black: "#6272a4".to_owned(),
        bright_red: "#ff6e6e".to_owned(),
        bright_green: "#69ff94".to_owned(),
        bright_yellow: "#ffffa5".to_owned(),
        bright_blue: "#d6acff".to_owned(),
        bright_magenta: "#ff92df".to_owned(),
        bright_cyan: "#a4ffff".to_owned(),
        bright_white: "#ffffff".to_owned(),
    }
}

fn nord_palette() -> (r: ColorPalette)
    ensures
        r@ == nord(),
{
    ColorPalette {
        foreground: "#d8dee9".to_owned(),
        background: "#2e3440".to_owned(),
        black: "#3b4252".to_owned(),
        red: "#bf616a".to_owned(),
        green: "#a3be8c".to_owned(),
        yellow: "#ebcb8b".to_owned(),
        blue: "#81a1c1".to_owned(),
        magenta: "#b48ead".to_owned(),
        cyan: "#88c0d0".to_owned(),
        white: "#e5e9f0".to_owned(),
        bright_black: "#4c566a".to_owned(),
        bright_red: "#bf616a".to_owned(),
        bright_green: "#a3be8c".to_owned(),
        bright_yellow: "#ebcb8b".to_owned(),
        bright_blue: "#81a1c1".to_owned(),
        bright_magenta: "#b48ead".to_owned(),
        bright_cyan: "#8fbcbb".to_owned(),
        bright_white: "#eceff4".to_owned(),
    }
}

fn tokyo_night_palette() -> (r: ColorPalette)
    ensures
        r@ == tokyo_night(),
{
    ColorPalette {
        foreground: "#c0caf5".to_owned(),
        background: "#1a1b26".to_owned(),
        black: "#15161e".to_owned(),
        red: "#f7768e".to_owned(),
        green: "#9ece6a".to_owned(),
        yellow: "#e0af68".to_owned(),
        blue: "#7aa2f7".to_owned(),
        magenta: "#bb9af7".to_owned(),
        cyan: "#7dcfff".to_owned(),
        white: "#a9b1d6".to_owned(),
        bright_black: "#414868".to_owned(),
        bright_red: "#f7768e".to_owned(),
        bright_green: "#9ece6a".to_owned(),
        bright_yellow: "#e0af68".to_owned(),
        bright_blue: "#7aa2f7".to_owned(),
        bright_magenta: "#bb9af7".to_owned(),
        bright_cyan: "#7dcfff".to_owned(),
        bright_white: "#c0caf5".to_owned(),
    }
}

fn gruvbox_dark_palette() -> (r: ColorPalette)
    ensures
        r@ == gruvbox_dark(),
{
    ColorPalette {
        foreground: "#ebdbb2".to_owned(),
        background: "#282828".to_owned(),
        black: "#282828".to_owned(),
        red: "#cc241d".to_owned(),
        green: "#98971a".to_owned(),
        yellow: "#d79921".to_owned(),
        blue: "#458588".to_owned(),
        magenta: "#b16286".to_owned(),
        cyan: "#689d6a".to_owned(),
        white: "#a89984".to_owned(),
        bright_black: "#928374".to_owned(),
        bright_red: "#fb4934".to_owned(),
        bright_green: "#b8bb26".to_owned(),
        bright_yellow: "#fabd2f".to_owned(),
        bright_blue: "#83a598".to_owned(),
        bright_magenta: "#d3869b".to_owned(),
        bright_cyan: "#8ec07c".to_owned(),
        bright_white: "#ebdbb2".to_owned(),
    }
}

fn solarized_dark_palette() -> (r: ColorPalette)
    ensures
        r@ == solarized_dark(),
{
    ColorPalette {
        foreground: "#839496".to_owned(),
        background: "#002b36".to_owned(),
        black: "#073642".to_owned(),
        red: "#dc322f".to_owned(),
        green: "#859900".to_owned(),
        yellow: "#b58900".to_owned(),
        blue: "#268bd2".to_owned(),
        magenta: "#d33682".to_owned(),
        cyan: "#2aa198".to_owned(),
        white: "#eee8d5".to_owned(),
        bright_black: "#586e75".to_owned(),
        bright_red: "#cb4b16".to_owned(),
        bright_green: "#586e75".to_owned(),
        bright_yellow: "#657b83".to_owned(),
        bright_blue: "#839496".to_owned(),
        bright_magenta: "#6c71c4".to_owned(),
        bright_cyan: "#93a1a1".to_owned(),
        bright_white: "#fdf6e3".to_owned(),
    }
}

/// Maps a normalized theme name to its palette. Unknown names fall back to `base`,
/// the terminal's own palette.
pub fn theme_palette(name: &str, base: ColorPalette) -> (r: ColorPalette)
    ensures
        r@ == theme_colors(name@, base@),
{
    if same_text(name, "catppuccin-mocha") {
        catppuccin_mocha_palette()
    } else if same_text(name, "dracula") {
        dracula_palette()
    } else if same_text(name, "nord") {
        nord_palette()
    } else if same_text(name, "tokyo-night") {
        tokyo_night_palette()
    } else if same_text(name, "gruvbox-dark") {
        gruvbox_dark_palette()
    } else if same_text(name, "solarized-dark") {
        solarized_dark_palette()
    } else {
        base
    }
}

/// The names of the themes are different words.
proof fn lemma_themes_apart()
    ensures
        "catppuccin-mocha"@ != "default"@,
        "dracula"@ != "default"@,
        "dracula"@ != "catppuccin-mocha"@,
        "nord"@ != "default"@,
        "nord"@ != "catppuccin-mocha"@,
        "nord"@ != "dracula"@,
        "tokyo-night"@ != "default"@,
        "tokyo-night"@ != "catppuccin-mocha"@,
        "tokyo-night"@ != "dracula"@,
        "tokyo-night"@ != "nord"@,
        "gruvbox-dark"@ != "default"@,
        "gruvbox-dark"@ != "catppuccin-mocha"@,
        "gruvbox-dark"@ != "dracula"@,
        "gruvbox-dark"@ != "nord"@,
        "gruvbox-dark"@ != "tokyo-night"@,
        "solarized-dark"@ != "default"@,
        "solarized-dark"@ != "catppuccin-mocha"@,
        "solarized-dark"@ != "dracula"@,
        "solarized-dark"@ != "nord"@,
        "solarized-dark"@ != "tokyo-night"@,
        "solarized-dark"@ != "gruvbox-dark"@,
{
    reveal_strlit("default");
    reveal_strlit("catppuccin-mocha");
    reveal_strlit("dracula");
    reveal_strlit("nord");
    reveal_strlit("tokyo-night");
    reveal_strlit("gruvbox-dark");
    reveal_strlit("solarized-dark");
    assert("default"@.len() == 7);
    assert("catppuccin-mocha"@.len() == 16);
    assert("dracula"@.len() == 7);
    assert("nord"@.len() == 4);
    assert("tokyo-night"@.len() == 11);
    assert("gruvbox-dark"@.len() == 12);
    assert("solarized-dark"@.len() == 14);
    assert("dracula"@[1] != "default"@[1]);
}

/// The colours of Catppuccin Mocha, whatever the terminal's own are.
pub proof fn law_colors_of_catppuccin_mocha(base: PaletteView)
    ensures
        ({
            let p = theme_colors("catppuccin-mocha"@, base);
            &&& p.foreground == "#cdd6f4"@
            &&& p.background == "#1e1e2e"@
            &&& p.black == "#45475a"@
            &&& p.red == "#f38ba8"@
            &&& p.green == "#a6e3a1"@
            &&& p.yellow == "#f9e2af"@
            &&& p.blue == "#89b4fa"@
            &&& p.magenta == "#f5c2e7"@
            &&& p.cyan == "#94e2d5"@
            &&& p.white == "#bac2de"@
            &&& p.bright_black == "#585b70"@
            &&& p.bright_red == "#f38ba8"@
            &&& p.bright_green == "#a6e3a1"@
            &&& p.bright_yellow == "#f9e2af"@
            &&& p.bright_blue == "#89b4fa"@
            &&& p.bright_magenta == "#f5c2e7"@
            &&& p.bright_cyan == "#94e2d5"@
            &&& p.bright_white == "#a6adc8"@
        }),
{
    lemma_themes_apart();
}

/// The colours of Dracula, whatever the terminal's own are.
pub proof fn law_colors_of_dracula(base: PaletteView)
    ensures
        ({
            let p = theme_colors("dracula"@, base);
            &&& p.foreground == "#f8f8f2"@
            &&& p.background == "#282a36"@
            &&& p.black == "#21222c"@
            &&& p.red == "#ff5555"@
            &&& p.green == "#50fa7b"@
            &&& p.yellow == "#f1fa8c"@
            &&& p.blue == "#bd93f9"@
            &&& p.magenta == "#ff79c6"@
            &&& p.cyan == "#8be9fd"@
            &&& p.white == "#f8f8f2"@
            &&& p.bright_black == "#6272a4"@
            &&& p.bright_red == "#ff6e6e"@
            &&& p.bright_green == "#69ff94"@
            &&& p.bright_yellow == "#ffffa5"@
            &&& p.bright_blue == "#d6acff"@
            &&& p.bright_magenta == "#ff92df"@
            &&& p.bright_cyan == "#a4ffff"@
            &&& p.bright_white == "#ffffff"@
        }),
{
    lemma_themes_apart();
}

/// The colours of Nord, whatever the terminal's own are.
pub proof fn law_colors_of_nord(base: PaletteView)
    ensures
        ({
            let p = theme_colors("nord"@, base);
            &&& p.foreground == "#d8dee9"@
            &&& p.background == "#2e3440"@
            &&& p.black == "#3b4252"@
            &&& p.red == "#bf616a"@
            &&& p.green == "#a3be8c"@
            &&& p.yellow == "#ebcb8b"@
            &&& p.blue == "#81a1c1"@
            &&& p.magenta == "#b48ead"@
            &&& p.cyan == "#88c0d0"@
            &&& p.white == "#e5e9f0"@
            &&& p.bright_black == "#4c566a"@
            &&& p.bright_red == "#bf616a"@
            &&& p.bright_green == "#a3be8c"@
            &&& p.bright_yellow == "#ebcb8b"@
            &&& p.bright_blue == "#81a1c1"@
            &&& p.bright_magenta == "#b48ead"@
            &&& p.bright_cyan == "#8fbcbb"@
            &&& p.bright_white == "#eceff4"@
        }),
{
    lemma_themes_apart();
}

/// The colours of Tokyo Night, whatever the terminal's own are.
pub proof fn law_colors_of_tokyo_night(base: PaletteView)
    ensures
        ({
            let p = theme_colors("tokyo-night"@, base);
            &&& p.foreground == "#c0caf5"@
            &&& p.background == "#1a1b26"@
            &&& p.black == "#15161e"@
            &&& p.red == "#f7768e"@
            &&& p.green == "#9ece6a"@
            &&& p.yellow == "#e0af68"@
            &&& p.blue == "#7aa2f7"@
            &&& p.magenta == "#bb9af7"@
            &&& p.cyan == "#7dcfff"@
            &&& p.white == "#a9b1d6"@
            &&& p.bright_black == "#414868"@
            &&& p.bright_red == "#f7768e"@
            &&& p.bright_green == "#9ece6a"@
            &&& p.bright_yellow == "#e0af68"@
            &&& p.bright_blue == "#7aa2f7"@
            &&& p.bright_magenta == "#bb9af7"@
            &&& p.bright_cyan == "#7dcfff"@
            &&& p.bright_white == "#c0caf5"@
        }),
{
    lemma_themes_apart();
}

/// The colours of Gruvbox Dark, whatever the terminal's own are.
pub proof fn law_colors_of_gruvbox_dark(base: PaletteView)
    ensures
        ({
            let p = theme_colors("gruvbox-dark"@, base);
            &&& p.foreground == "#ebdbb2"@
            &&& p.background == "#282828"@
            &&& p.black == "#282828"@
            &&& p.red == "#cc241d"@
            &&& p.green == "#98971a"@
            &&& p.yellow == "#d79921"@
            &&& p.blue == "#458588"@
            &&& p.magenta == "#b16286"@
            &&& p.cyan == "#689d6a"@
            &&& p.white == "#a89984"@
            &&& p.bright_black == "#928374"@
            &&& p.bright_red == "#fb4934"@
            &&& p.bright_green == "#b8bb26"@
            &&& p.bright_yellow == "#fabd2f"@
            &&& p.bright_blue == "#83a598"@
            &&& p.bright_magenta == "#d3869b"@
            &&& p.bright_cyan == "#8ec07c"@
            &&& p.bright_white == "#ebdbb2"@
        }),
{
    lemma_themes_apart();
}

/// The colours of Solarized Dark, whatever the terminal's own are.
pub proof fn law_colors_of_solarized_dark(base: PaletteView)
    ensures
        ({
            let p = theme_colors("solarized-dark"@, base);
            &&& p.foreground == "#839496"@
            &&& p.background == "#002b36"@
            &&& p.black == "#073642"@
            &&& p.red == "#dc322f"@
            &&& p.green == "#859900"@
            &&& p.yellow == "#b58900"@
            &&& p.blue == "#268bd2"@
            &&& p.magenta == "#d33682"@
            &&& p.cyan == "#2aa198"@
            &&& p.white == "#eee8d5"@
            &&& p.bright_black == "#586e75"@
            &&& p.bright_red == "#cb4b16"@
            &&& p.bright_green == "#586e75"@
            &&& p.bright_yellow == "#657b83"@
            &&& p.bright_blue == "#839496"@
            &&& p.bright_magenta == "#6c71c4"@
            &&& p.bright_cyan == "#93a1a1"@
            &&& p.bright_white == "#fdf6e3"@
        }),
{
    lemma_themes_apart();
}

/// The default theme, and any that is not bundled, leave the terminal's own colours.
pub proof fn law_colors_without_theme(name: Seq<char>, base: PaletteView)
    requires
        name == "default"@ || !theme_list().contains(name),
    ensures
        theme_colors(name, base) == base,
{
    lemma_themes_apart();
    let l = theme_list();
    assert(l[1] == "catppuccin-mocha"@ && l[2] == "dracula"@ && l[3] == "nord"@);
    assert(l[4] == "tokyo-night"@ && l[5] == "gruvbox-dark"@ && l[6] == "solarized-dark"@);
    assert(l.contains(l[1]) && l.contains(l[2]) && l.contains(l[3]));
    assert(l.contains(l[4]) && l.contains(l[5]) && l.contains(l[6]));
}

/// The bundled themes, in the order in which they are listed.
pub proof fn law_bundled_themes()
    ensures
        theme_list().len() == 7,
        theme_list()[0] == "default"@,
        theme_list()[1] == "catppuccin-mocha"@,
        theme_list()[2] == "dracula"@,
        theme_list()[3] == "nord"@,
        theme_list()[4] == "tokyo-night"@,
        theme_list()[5] == "gruvbox-dark"@,
        theme_list()[6] == "solarized-dark"@,
{
}

} // verus!
