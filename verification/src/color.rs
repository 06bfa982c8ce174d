//! Colours, and the surfaces derived from a theme's background.

use vstd::prelude::*;

use crate::text::to_chars;

verus! {

/// A colour by its channels, the last of them the opacity.
#[derive(Clone, Copy, Debug, PartialEq, Eq, Structural)]
pub struct Color32 {
    pub r: u8,
    pub g: u8,
    pub b: u8,
    pub a: u8,
}

/// The opaque colour of three channels.
pub open spec fn rgb(r: u8, g: u8, b: u8) -> Color32 {
    Color32 { r, g, b, a: 255 }
}

impl Color32 {
    /// The opaque colour of three channels.
    pub fn from_rgb(r: u8, g: u8, b: u8) -> (c: Color32)
        ensures
            c == rgb(r, g, b),
    {
        Color32 { r, g, b, a: 255 }
    }
}

/// The accent of a tab without a colour of its own.
pub open spec fn accent() -> Color32 {
    rgb(102, 161, 255)
}

/// The pane background where a theme's own cannot be read.
pub open spec fn default_term_bg() -> Color32 {
    rgb(0x18, 0x18, 0x18)
}

/// The value of a hexadecimal digit.
pub open spec fn hex_digit(c: char) -> Option<u8> {
    if '0' <= c <= '9' {
        Some((c as u32 - '0' as u32) as u8)
    } else if 'a' <= c <= 'f' {
        Some((c as u32 - 'a' as u32 + 10) as u8)
    } else if 'A' <= c <= 'F' {
        Some((c as u32 - 'A' as u32 + 10) as u8)
    } else {
        None
    }
}

/// The channel that two hexadecimal digits spell.
pub open spec fn hex_pair(hi: char, lo: char) -> Option<u8> {
    match (hex_digit(hi), hex_digit(lo)) {
        (Some(h), Some(l)) => Some((h * 16 + l) as u8),
        _ => None,
    }
}

/// The colour that `#rrggbb` spells; nothing for any other text.
pub open spec fn hex_color(s: Seq<char>) -> Option<Color32> {
    if s.len() == 7 && s[0] == '#' {
        match (hex_pair(s[1], s[2]), hex_pair(s[3], s[4]), hex_pair(s[5], s[6])) {
            (Some(r), Some(g), Some(b)) => Some(rgb(r, g, b)),
            _ => None,
        }
    } else {
        None
    }
}

fn read_digit(c: char) -> (r: Option<u8>)
    ensures
        r == hex_digit(c),
        r matches Some(d) ==> d < 16,
{
    if '0' <= c && c <= '9' {
        Some(c as u8 - 48)
    } else if 'a' <= c && c <= 'f' {
        Some(c as u8 - 97 + 10)
    } else if 'A' <= c && c <= 'F' {
        Some(c as u8 - 65 + 10)
    } else {
        None
    }
}

fn read_pair(hi: char, lo: char) -> (r: Option<u8>)
    ensures
        r == hex_pair(hi, lo),
{
    match (read_digit(hi), read_digit(lo)) {
        (Some(h), Some(l)) => Some(h * 16 + l),
        _ => None,
    }
}

/// Parses "#rrggbb" into a colour: a hash and six hexadecimal digits. `None` for
/// anything malformed.
pub fn parse_hex(hex: &str) -> (r: Option<Color32>)
    ensures
        r == hex_color(hex@),
{
    let h = to_chars(hex);
    if h.len() != 7 || h[0] != '#' {
        return None;
    }
    match (read_pair(h[1], h[2]), read_pair(h[3], h[4]), read_pair(h[5], h[6])) {
        (Some(r), Some(g), Some(b)) => Some(Color32::from_rgb(r, g, b)),
        _ => None,
    }
}

/// `percent` hundredths of `v`, to the nearest whole number, halves upwards, and
/// at most 255.
pub open spec fn scaled(v: u8, percent: u8) -> int {
    let n = (v * percent + 50) / 100;
    if n < 255 {
        n
    } else {
        255
    }
}

fn scale(v: u8, percent: u8) -> (r: u8)
    ensures
        r == scaled(v, percent),
{
    assert(v * percent <= 255 * 255) by (nonlinear_arith)
        requires
            v <= 255,
            percent <= 255,
    ;
    let n: u32 = (v as u32 * percent as u32 + 50) / 100;
    if n < 255 {
        n as u8
    } else {
        255
    }
}

/// Scales a colour toward black to `percent` hundredths of itself (0 = black,
/// 100 = unchanged).
pub fn darken(c: Color32, percent: u8) -> (r: Color32)
    ensures
        r.r == scaled(c.r, percent),
        r.g == scaled(c.g, percent),
        r.b == scaled(c.b, percent),
        r.a == 255,
{
    Color32::from_rgb(scale(c.r, percent), scale(c.g, percent), scale(c.b, percent))
}

/// `v` raised by `amount`, at most 255.
pub open spec fn raised(v: u8, amount: u8) -> int {
    if v + amount < 255 {
        v + amount
    } else {
        255
    }
}

/// Nudges a colour a few steps lighter, to lift a surface above the bars.
pub fn elevate(c: Color32, amount: u8) -> (r: Color32)
    ensures
        r.r == raised(c.r, amount),
        r.g == raised(c.g, amount),
        r.b == raised(c.b, amount),
        r.a == 255,
{
    Color32::from_rgb(
        c.r.saturating_add(amount),
        c.g.saturating_add(amount),
        c.b.saturating_add(amount),
    )
}

/// One of the six levels of a channel in the colour cube.
pub open spec fn cube_level(n: int) -> u8 {
    if n == 0 {
        0
    } else {
        (n * 40 + 55) as u8
    }
}

/// The colour that a terminal has for a number that is not one of the first sixteen,
/// which a theme sets: a cube of six levels for each channel, and then a ramp of greys.
pub open spec fn indexed_rgb(i: u8) -> Option<Color32> {
    if i < 16 {
        None
    } else if i < 232 {
        let n = i - 16;
        Some(rgb(cube_level(n / 36), cube_level(n / 6 % 6), cube_level(n % 6)))
    } else {
        let grey = ((i - 232) * 10 + 8) as u8;
        Some(rgb(grey, grey, grey))
    }
}

fn level(n: u8) -> (r: u8)
    requires
        n < 6,
    ensures
        r == cube_level(n as int),
{
    if n == 0 {
        0
    } else {
        n * 40 + 55
    }
}

/// The colour of a number beyond the sixteen that a theme sets.
pub fn indexed_color(i: u8) -> (r: Option<Color32>)
    ensures
        r == indexed_rgb(i),
{
    if i < 16 {
        None
    } else if i < 232 {
        let n: u8 = i - 16;
        Some(Color32::from_rgb(level(n / 36), level(n / 6 % 6), level(n % 6)))
    } else {
        let grey: u8 = (i - 232) * 10 + 8;
        Some(Color32::from_rgb(grey, grey, grey))
    }
}

/// The window's surfaces.
#[derive(Clone, Copy, Debug, PartialEq, Eq, Structural)]
pub struct Surfaces {
    /// Pane cards, and the padding behind the terminal.
    pub term_bg: Color32,
    /// The gutter and the gaps between panes.
    pub window_bg: Color32,
    /// The tab strip and the status bar.
    pub bar_bg: Color32,
    /// Menus and tooltips.
    pub menu_bg: Color32,
}

/// Derives the window's surfaces from a theme's background.
pub fn surfaces(background: &str) -> (r: Surfaces)
    ensures
        r.term_bg == match hex_color(background@) {
            Some(c) => c,
            None => default_term_bg(),
        },
        r.window_bg.r == scaled(r.term_bg.r, 55),
        r.window_bg.g == scaled(r.term_bg.g, 55),
        r.window_bg.b == scaled(r.term_bg.b, 55),
        r.window_bg.a == 255,
        r.bar_bg.r == scaled(r.term_bg.r, 82),
        r.bar_bg.g == scaled(r.term_bg.g, 82),
        r.bar_bg.b == scaled(r.term_bg.b, 82),
        r.bar_bg.a == 255,
        r.menu_bg.r == raised(r.bar_bg.r, 10),
        r.menu_bg.g == raised(r.bar_bg.g, 10),
        r.menu_bg.b == raised(r.bar_bg.b, 10),
        r.menu_bg.a == 255,
{
    let term_bg = match parse_hex(background) {
        Some(c) => c,
        None => Color32::from_rgb(0x18, 0x18, 0x18),
    };
    let bar_bg = darken(term_bg, 82);
    Surfaces { term_bg, window_bg: darken(term_bg, 55), bar_bg, menu_bg: elevate(bar_bg, 10) }
}

/// The hexadecimal digit of `n`, in upper case or in lower case.
pub open spec fn hex_char(n: int, upper: bool) -> char {
    if n < 10 {
        ('0' as int + n) as char
    } else if upper {
        ('A' as int + n - 10) as char
    } else {
        ('a' as int + n - 10) as char
    }
}

/// Two hexadecimal digits spell a channel, the first of them its sixteens, in either case.
pub proof fn law_channel_reads_back(n: u8, a: bool, b: bool)
    ensures
        hex_pair(hex_char(n as int / 16, a), hex_char(n as int % 16, b)) == Some(n),
{
    let (h, l) = (n as int / 16, n as int % 16);
    assert(0 <= h < 16 && 0 <= l < 16 && h * 16 + l == n);
    assert(hex_digit(hex_char(h, a)) == Some(h as u8));
    assert(hex_digit(hex_char(l, b)) == Some(l as u8));
}

/// Every colour is read back from what spells it: red, then green, then blue.
pub proof fn law_color_reads_back(r: u8, g: u8, b: u8, up: spec_fn(int) -> bool)
    ensures
        hex_color(
            seq![
                '#',
                hex_char(r as int / 16, up(1)),
                hex_char(r as int % 16, up(2)),
                hex_char(g as int / 16, up(3)),
                hex_char(g as int % 16, up(4)),
                hex_char(b as int / 16, up(5)),
                hex_char(b as int % 16, up(6)),
            ],
        ) == Some(Color32 { r, g, b, a: 255 }),
{
    law_channel_reads_back(r, up(1), up(2));
    law_channel_reads_back(g, up(3), up(4));
    law_channel_reads_back(b, up(5), up(6));
}

/// Only a hash and six hexadecimal digits spell a colour.
pub proof fn law_only_hex_is_color(s: Seq<char>)
    ensures
        hex_color(s) is Some <==> s.len() == 7 && s[0] == '#' && forall|i: int|
            1 <= i < 7 ==> '0' <= #[trigger] s[i] <= '9' || 'a' <= s[i] <= 'f' || 'A' <= s[i]
                <= 'F',
{
    if s.len() == 7 && s[0] == '#' {
        if hex_color(s) is Some {
            assert forall|i: int| 1 <= i < 7 implies '0' <= #[trigger] s[i] <= '9' || 'a' <= s[i]
                <= 'f' || 'A' <= s[i] <= 'F' by {
                assert(i == 1 || i == 2 || i == 3 || i == 4 || i == 5 || i == 6);
            }
        } else {
            assert(hex_digit(s[1]) is None || hex_digit(s[2]) is None || hex_digit(s[3]) is None
                || hex_digit(s[4]) is None || hex_digit(s[5]) is None || hex_digit(s[6]) is None);
        }
    }
}

/// A scaled channel is within half a step of the exact value, unless that is too large. So
/// nothing of it is black, and all of it is itself.
pub proof fn law_scaled_is_nearest(v: u8, percent: u8)
    ensures
        0 <= scaled(v, percent) <= 255,
        scaled(v, percent) < 255 ==> -50 <= v * percent - 100 * scaled(v, percent) < 50,
        scaled(v, percent) == 255 ==> v * percent >= 25450,
        scaled(v, 0) == 0,
        scaled(v, 100) == v,
        percent <= 100 ==> scaled(v, percent) <= v,
{
    let n = v * percent;
    assert(0 <= n) by (nonlinear_arith)
        requires
            n == v * percent,
            v >= 0,
            percent >= 0,
    ;
    assert(percent <= 100 ==> n <= v * 100) by (nonlinear_arith)
        requires
            n == v * percent,
            v >= 0,
    ;
}

/// A raised channel is higher by just the amount, as far as there is room.
pub proof fn law_raised(v: u8, amount: u8)
    ensures
        v <= raised(v, amount) <= 255,
        raised(v, amount) <= v + amount,
        raised(v, amount) < v + amount ==> raised(v, amount) == 255,
{
}

/// The levels of a channel in the colour cube.
pub open spec fn levels() -> Seq<u8> {
    seq![0, 95, 135, 175, 215, 255]
}

/// The colours by number: the first sixteen are a theme's, then comes a cube of levels of
/// red, green and blue, blue changing fastest, and then greys from dark to light.
pub proof fn law_color_numbers(r: int, g: int, b: int, n: int)
    requires
        0 <= r < 6,
        0 <= g < 6,
        0 <= b < 6,
        0 <= n < 24,
    ensures
        forall|i: u8| indexed_rgb(i) is None <==> i < 16,
        indexed_rgb((16 + 36 * r + 6 * g + b) as u8) == Some(
            Color32 { r: levels()[r], g: levels()[g], b: levels()[b], a: 255 },
        ),
        indexed_rgb((232 + n) as u8) == Some(
            Color32 {
                r: (8 + 10 * n) as u8,
                g: (8 + 10 * n) as u8,
                b: (8 + 10 * n) as u8,
                a: 255,
            },
        ),
{
    let m = 36 * r + 6 * g + b;
    assert(m / 36 == r && m / 6 == 6 * r + g && m % 6 == b);
    assert((6 * r + g) % 6 == g);
    assert(cube_level(r) == levels()[r] && cube_level(g) == levels()[g] && cube_level(b)
        == levels()[b]);
}

/// The background of the panes where a theme's own cannot be read: a dark grey.
pub proof fn law_default_background()
    ensures
        default_term_bg() == (Color32 { r: 24, g: 24, b: 24, a: 255 }),
{
}

} // verus!
