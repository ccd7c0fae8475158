//! Terminal color palette configuration
//!
//! Provides 16 ANSI colors plus foreground, background, cursor, and selection colors.
//! Includes popular preset themes for power users.
use vstd::prelude::*;
use vstd::utf8::encode_utf8;
use crate::text::{str_to_lowercase, lowered, str_to_string, chars_of};
use super::keybinds::{chars_are, without_separators};

verus! {

/// Leading `#` bytes removed.
pub open spec fn without_hashes(b: Seq<u8>) -> Seq<u8>
    decreases b.len(),
{
    if b.len() > 0 && b[0] == 0x23 {
        without_hashes(b.skip(1))
    } else {
        b
    }
}

/// The value of an ASCII hexadecimal digit.
pub open spec fn hex_value(x: u8) -> Option<u8> {
    if 0x30 <= x <= 0x39 {
        Some((x - 0x30) as u8)
    } else if 0x61 <= x <= 0x66 {
        Some((x - 0x61 + 10) as u8)
    } else if 0x41 <= x <= 0x46 {
        Some((x - 0x41 + 10) as u8)
    } else {
        None
    }
}

/// What `u8::from_str_radix(_, 16)` gives for a two-byte string: two hex
/// digits, or a `+` sign and one digit.
pub open spec fn hex_byte_pair(a: u8, b: u8) -> Option<u8> {
    match (hex_value(a), hex_value(b)) {
        (Some(x), Some(y)) => Some((x * 16 + y) as u8),
        (None, Some(y)) => if a == 0x2b { Some(y) } else { None },
        _ => None,
    }
}

/// Whether a byte continues a multi-byte UTF-8 character.
pub open spec fn is_continuation(x: u8) -> bool {
    0x80 <= x < 0xc0
}

/// The strings whose color components can be cut out: after the leading
/// `#`s, six bytes must not split a character at positions 2 and 4.
pub open spec fn hex_color_sliceable(b: Seq<u8>) -> bool {
    let r = without_hashes(b);
    r.len() == 6 ==> !is_continuation(r[2]) && !is_continuation(r[4])
}

/// The color of a hex string like "#1a1b26" or "1a1b26" (as UTF-8 bytes):
/// six bytes after the leading `#`s, each pair a hexadecimal byte.
pub open spec fn hex_color(b: Seq<u8>) -> Option<(u8, u8, u8)> {
    let r = without_hashes(b);
    if r.len() != 6 {
        None
    } else {
        match (hex_byte_pair(r[0], r[1]), hex_byte_pair(r[2], r[3]), hex_byte_pair(r[4], r[5])) {
            (Some(x), Some(y), Some(z)) => Some((x, y, z)),
            _ => None,
        }
    }
}

fn hex_value_of(x: u8) -> (r: Option<u8>)
    ensures
        r == hex_value(x),
{
    if 0x30 <= x && x <= 0x39 {
        Some(x - 0x30)
    } else if 0x61 <= x && x <= 0x66 {
        Some(x - 0x61 + 10)
    } else if 0x41 <= x && x <= 0x46 {
        Some(x - 0x41 + 10)
    } else {
        None
    }
}

fn hex_byte_pair_of(a: u8, b: u8) -> (r: Option<u8>)
    ensures
        r == hex_byte_pair(a, b),
{
    match (hex_value_of(a), hex_value_of(b)) {
        (Some(x), Some(y)) => Some(x * 16 + y),
        (None, Some(y)) => if a == 0x2b { Some(y) } else { None },
        _ => None,
    }
}

/// Whether the color components of a hex string can be cut out (what
/// `parse_hex_color` needs)
pub fn hex_color_is_sliceable(s: &str) -> (r: bool)
    ensures
        r == hex_color_sliceable(encode_utf8(s@)),
{
    let b = s.as_bytes();
    let mut k: usize = 0;
    assert(b@.skip(0) =~= b@);
    while k < b.len() && b[k] == 0x23
        invariant
            k <= b@.len(),
            without_hashes(b@) == without_hashes(b@.skip(k as int)),
        decreases b@.len() - k,
    {
        assert(b@.skip(k as int).skip(1) =~= b@.skip(k + 1));
        k += 1;
    }
    let ghost rest = b@.skip(k as int);
    assert(without_hashes(rest) == rest);
    if b.len() - k != 6 {
        return true;
    }
    assert(rest[2] == b@[k + 2] && rest[4] == b@[k + 4]);
    !(0x80 <= b[k + 2] && b[k + 2] < 0xc0) && !(0x80 <= b[k + 4] && b[k + 4] < 0xc0)
}

/// Parse a hex color string like "#1a1b26" or "1a1b26" into RGB components
pub fn parse_hex_color(s: &str) -> (r: Option<(u8, u8, u8)>)
    requires
        hex_color_sliceable(encode_utf8(s@)),
    ensures
        r == hex_color(encode_utf8(s@)),
{
    let b = s.as_bytes();
    let mut k: usize = 0;
    assert(b@.skip(0) =~= b@);
    while k < b.len() && b[k] == 0x23
        invariant
            k <= b@.len(),
            without_hashes(b@) == without_hashes(b@.skip(k as int)),
        decreases b@.len() - k,
    {
        assert(b@.skip(k as int).skip(1) =~= b@.skip(k + 1));
        k += 1;
    }
    let ghost rest = b@.skip(k as int);
    assert(without_hashes(rest) == rest);
    if b.len() - k != 6 {
        return None;
    }
    let r = hex_byte_pair_of(b[k], b[k + 1]);
    let g = hex_byte_pair_of(b[k + 2], b[k + 3]);
    let bl = hex_byte_pair_of(b[k + 4], b[k + 5]);
    match (r, g, bl) {
        (Some(x), Some(y), Some(z)) => Some((x, y, z)),
        _ => None,
    }
}

/// A color as one number: `0xRRGGBB`.
pub open spec fn rgb_value(r: u8, g: u8, b: u8) -> u32 {
    (r * 65536 + g * 256 + b) as u32
}

/// Convert RGB to u32 for X11/rendering
pub fn rgb_to_u32(r: u8, g: u8, b: u8) -> (v: u32)
    ensures
        v == rgb_value(r, g, b),
{
    let v = ((r as u32) << 16) | ((g as u32) << 8) | (b as u32);
    assert(v == r * 65536 + g * 256 + b) by (bit_vector)
        requires
            v == ((r as u32) << 16) | ((g as u32) << 8) | (b as u32),
    ;
    v
}

/// A color that can be specified as hex string or RGB tuple
#[derive(Debug, Clone, PartialEq)]
pub enum Color {
    Hex(String),
    Rgb { r: u8, g: u8, b: u8 },
}

/// Mathematical model of a color.
pub enum ColorView {
    Hex(Seq<char>),
    Rgb(u8, u8, u8),
}

impl View for Color {
    type V = ColorView;

    open spec fn view(&self) -> ColorView {
        match self {
            Color::Hex(s) => ColorView::Hex(s@),
            Color::Rgb { r, g, b } => ColorView::Rgb(*r, *g, *b),
        }
    }
}

/// Whether the color can be converted without cutting a character apart.
pub open spec fn color_convertible(c: ColorView) -> bool {
    match c {
        ColorView::Hex(s) => hex_color_sliceable(encode_utf8(s)),
        ColorView::Rgb(..) => true,
    }
}

/// The RGB components of a color; a hex string that does not parse is black.
pub open spec fn color_rgb(c: ColorView) -> (u8, u8, u8) {
    match c {
        ColorView::Hex(s) => match hex_color(encode_utf8(s)) {
            Some(t) => t,
            None => (0, 0, 0),
        },
        ColorView::Rgb(r, g, b) => (r, g, b),
    }
}

impl Color {
    pub fn hex(s: &str) -> (r: Self)
        ensures
            r@ == ColorView::Hex(s@),
    {
        Color::Hex(str_to_string(s))
    }

    pub fn rgb(r: u8, g: u8, b: u8) -> (c: Self)
        ensures
            c@ == ColorView::Rgb(r, g, b),
    {
        Color::Rgb { r, g, b }
    }

    /// Whether the color can be converted (what `to_rgb` needs)
    pub fn is_convertible(&self) -> (r: bool)
        ensures
            r == color_convertible(self@),
    {
        match self {
            Color::Hex(s) => hex_color_is_sliceable(s.as_str()),
            Color::Rgb { .. } => true,
        }
    }

    /// Convert to RGB tuple
    pub fn to_rgb(&self) -> (r: (u8, u8, u8))
        requires
            color_convertible(self@),
        ensures
            r == color_rgb(self@),
    {
        match self {
            Color::Hex(s) => match parse_hex_color(s.as_str()) {
                Some(t) => t,
                None => (0, 0, 0),
            },
            Color::Rgb { r, g, b } => (*r, *g, *b),
        }
    }

    /// Convert to u32 for X11/rendering
    pub fn to_u32(&self) -> (v: u32)
        requires
            color_convertible(self@),
        ensures
            v == rgb_value(color_rgb(self@).0, color_rgb(self@).1, color_rgb(self@).2),
    {
        let (r, g, b) = self.to_rgb();
        rgb_to_u32(r, g, b)
    }

    /// A copy of the color.
    pub fn copy_of(&self) -> (r: Self)
        ensures
            r@ == self@,
    {
        match self {
            Color::Hex(s) => Color::Hex(s.clone()),
            Color::Rgb { r, g, b } => Color::Rgb { r: *r, g: *g, b: *b },
        }
    }
}

impl Default for Color {
    fn default() -> (r: Self)
        ensures
            r@ == ColorView::Hex("#ffffff"@),
    {
        Color::hex("#ffffff")
    }
}

/// Terminal color palette with 16 ANSI colors and UI colors
#[derive(Debug, Clone)]
pub struct ColorPalette {
    pub foreground: Color,
    pub background: Color,
    pub cursor: Color,
    pub cursor_text: Color,
    pub selection: Color,
    pub selection_text: Color,
    pub black: Color,
    pub red: Color,
    pub green: Color,
    pub yellow: Color,
    pub blue: Color,
    pub magenta: Color,
    pub cyan: Color,
    pub white: Color,
    pub bright_black: Color,
    pub bright_red: Color,
    pub bright_green: Color,
    pub bright_yellow: Color,
    pub bright_blue: Color,
    pub bright_magenta: Color,
    pub bright_cyan: Color,
    pub bright_white: Color,
}

/// Mathematical model of a palette.
pub struct ColorPaletteView {
    pub foreground: ColorView,
    pub background: ColorView,
    pub cursor: ColorView,
    pub cursor_text: ColorView,
    pub selection: ColorView,
    pub selection_text: ColorView,
    pub black: ColorView,
    pub red: ColorView,
    pub green: ColorView,
    pub yellow: ColorView,
    pub blue: ColorView,
    pub magenta: ColorView,
    pub cyan: ColorView,
    pub white: ColorView,
    pub bright_black: ColorView,
    pub bright_red: ColorView,
    pub bright_green: ColorView,
    pub bright_yellow: ColorView,
    pub bright_blue: ColorView,
    pub bright_magenta: ColorView,
    pub bright_cyan: ColorView,
    pub bright_white: ColorView,
}

impl View for ColorPalette {
    type V = ColorPaletteView;

    open spec fn view(&self) -> ColorPaletteView {
        ColorPaletteView {
            foreground: self.foreground@,
            background: self.background@,
            cursor: self.cursor@,
            cursor_text: self.cursor_text@,
            selection: self.selection@,
            selection_text: self.selection_text@,
            black: self.black@,
            red: self.red@,
            green: self.green@,
            yellow: self.yellow@,
            blue: self.blue@,
            magenta: self.magenta@,
            cyan: self.cyan@,
            white: self.white@,
            bright_black: self.bright_black@,
            bright_red: self.bright_red@,
            bright_green: self.bright_green@,
            bright_yellow: self.bright_yellow@,
            bright_blue: self.bright_blue@,
            bright_magenta: self.bright_magenta@,
            bright_cyan: self.bright_cyan@,
            bright_white: self.bright_white@,
        }
    }
}

/// The ANSI color with index `index` (0-15); the foreground for any other index.
pub open spec fn ansi_color(p: ColorPaletteView, index: u8) -> ColorView {
    if index == 0 {
        p.black
    } else if index == 1 {
        p.red
    } else if index == 2 {
        p.green
    } else if index == 3 {
        p.yellow
    } else if index == 4 {
        p.blue
    } else if index == 5 {
        p.magenta
    } else if index == 6 {
        p.cyan
    } else if index == 7 {
        p.white
    } else if index == 8 {
        p.bright_black
    } else if index == 9 {
        p.bright_red
    } else if index == 10 {
        p.bright_green
    } else if index == 11 {
        p.bright_yellow
    } else if index == 12 {
        p.bright_blue
    } else if index == 13 {
        p.bright_magenta
    } else if index == 14 {
        p.bright_cyan
    } else if index == 15 {
        p.bright_white
    } else {
        p.foreground
    }
}

/// The colors of the Tokyo Night theme.
pub open spec fn tokyo_night_colors() -> ColorPaletteView {
    ColorPaletteView {
        foreground: ColorView::Hex("#c0caf5"@),
        background: ColorView::Hex("#1a1b26"@),
        cursor: ColorView::Hex("#c0caf5"@),
        cursor_text: ColorView::Hex("#1a1b26"@),
        selection: ColorView::Hex("#33467c"@),
        selection_text: ColorView::Hex("#c0caf5"@),
        black: ColorView::Hex("#15161e"@),
        red: ColorView::Hex("#f7768e"@),
        green: ColorView::Hex("#9ece6a"@),
        yellow: ColorView::Hex("#e0af68"@),
        blue: ColorView::Hex("#7aa2f7"@),
        magenta: ColorView::Hex("#bb9af7"@),
        cyan: ColorView::Hex("#7dcfff"@),
        white: ColorView::Hex("#a9b1d6"@),
        bright_black: ColorView::Hex("#414868"@),
        bright_red: ColorView::Hex("#f7768e"@),
        bright_green: ColorView::Hex("#9ece6a"@),
        bright_yellow: ColorView::Hex("#e0af68"@),
        bright_blue: ColorView::Hex("#7aa2f7"@),
        bright_magenta: ColorView::Hex("#bb9af7"@),
        bright_cyan: ColorView::Hex("#7dcfff"@),
        bright_white: ColorView::Hex("#c0caf5"@),
    }
}

/// The colors of the Catppuccin Mocha theme.
pub open spec fn catppuccin_mocha_colors() -> ColorPaletteView {
    ColorPaletteView {
        foreground: ColorView::Hex("#cdd6f4"@),
        background: ColorView::Hex("#1e1e2e"@),
        cursor: ColorView::Hex("#f5e0dc"@),
        cursor_text: ColorView::Hex("#1e1e2e"@),
        selection: ColorView::Hex("#45475a"@),
        selection_text: ColorView::Hex("#cdd6f4"@),
        black: ColorView::Hex("#45475a"@),
        red: ColorView::Hex("#f38ba8"@),
        green: ColorView::Hex("#a6e3a1"@),
        yellow: ColorView::Hex("#f9e2af"@),
        blue: ColorView::Hex("#89b4fa"@),
        magenta: ColorView::Hex("#f5c2e7"@),
        cyan: ColorView::Hex("#94e2d5"@),
        white: ColorView::Hex("#bac2de"@),
        bright_black: ColorView::Hex("#585b70"@),
        bright_red: ColorView::Hex("#f38ba8"@),
        bright_green: ColorView::Hex("#a6e3a1"@),
        bright_yellow: ColorView::Hex("#f9e2af"@),
        bright_blue: ColorView::Hex("#89b4fa"@),
        bright_magenta: ColorView::Hex("#f5c2e7"@),
        bright_cyan: ColorView::Hex("#94e2d5"@),
        bright_white: ColorView::Hex("#a6adc8"@),
    }
}

/// The colors of the Gruvbox Dark theme.
pub open spec fn gruvbox_dark_colors() -> ColorPaletteView {
    ColorPaletteView {
        foreground: ColorView::Hex("#ebdbb2"@),
        background: ColorView::Hex("#282828"@),
        cursor: ColorView::Hex("#ebdbb2"@),
        cursor_text: ColorView::Hex("#282828"@),
        selection: ColorView::Hex("#504945"@),
        selection_text: ColorView::Hex("#ebdbb2"@),
        black: ColorView::Hex("#282828"@),
        red: ColorView::Hex("#cc241d"@),
        green: ColorView::Hex("#98971a"@),
        yellow: ColorView::Hex("#d79921"@),
        blue: ColorView::Hex("#458588"@),
        magenta: ColorView::Hex("#b16286"@),
        cyan: ColorView::Hex("#689d6a"@),
        white: ColorView::Hex("#a89984"@),
        bright_black: ColorView::Hex("#928374"@),
        bright_red: ColorView::Hex("#fb4934"@),
        bright_green: ColorView::Hex("#b8bb26"@),
        bright_yellow: ColorView::Hex("#fabd2f"@),
        bright_blue: ColorView::Hex("#83a598"@),
        bright_magenta: ColorView::Hex("#d3869b"@),
        bright_cyan: ColorView::Hex("#8ec07c"@),
        bright_white: ColorView::Hex("#ebdbb2"@),
    }
}

/// The colors of the Dracula theme.
pub open spec fn dracula_colors() -> ColorPaletteView {
    ColorPaletteView {
        foreground: ColorView::Hex("#f8f8f2"@),
        background: ColorView::Hex("#282a36"@),
        cursor: ColorView::Hex("#f8f8f2"@),
        cursor_text: ColorView::Hex("#282a36"@),
        selection: ColorView::Hex("#44475a"@),
        selection_text: ColorView::Hex("#f8f8f2"@),
        black: ColorView::Hex("#21222c"@),
        red: ColorView::Hex("#ff5555"@),
        green: ColorView::Hex("#50fa7b"@),
        yellow: ColorView::Hex("#f1fa8c"@),
        blue: ColorView::Hex("#bd93f9"@),
        magenta: ColorView::Hex("#ff79c6"@),
        cyan: ColorView::Hex("#8be9fd"@),
        white: ColorView::Hex("#f8f8f2"@),
        bright_black: ColorView::Hex("#6272a4"@),
        bright_red: ColorView::Hex("#ff6e6e"@),
        bright_green: ColorView::Hex("#69ff94"@),
        bright_yellow: ColorView::Hex("#ffffa5"@),
        bright_blue: ColorView::Hex("#d6acff"@),
        bright_magenta: ColorView::Hex("#ff92df"@),
        bright_cyan: ColorView::Hex("#a4ffff"@),
        bright_white: ColorView::Hex("#ffffff"@),
    }
}

/// The colors of the Nord theme.
pub open spec fn nord_colors() -> ColorPaletteView {
    ColorPaletteView {
        foreground: ColorView::Hex("#d8dee9"@),
        background: ColorView::Hex("#2e3440"@),
        cursor: ColorView::Hex("#d8dee9"@),
        cursor_text: ColorView::Hex("#2e3440"@),
        selection: ColorView::Hex("#434c5e"@),
        selection_text: ColorView::Hex("#d8dee9"@),
        black: ColorView::Hex("#3b4252"@),
        red: ColorView::Hex("#bf616a"@),
        green: ColorView::Hex("#a3be8c"@),
        yellow: ColorView::Hex("#ebcb8b"@),
        blue: ColorView::Hex("#81a1c1"@),
        magenta: ColorView::Hex("#b48ead"@),
        cyan: ColorView::Hex("#88c0d0"@),
        white: ColorView::Hex("#e5e9f0"@),
        bright_black: ColorView::Hex("#4c566a"@),
        bright_red: ColorView::Hex("#bf616a"@),
        bright_green: ColorView::Hex("#a3be8c"@),
        bright_yellow: ColorView::Hex("#ebcb8b"@),
        bright_blue: ColorView::Hex("#81a1c1"@),
        bright_magenta: ColorView::Hex("#b48ead"@),
        bright_cyan: ColorView::Hex("#8fbcbb"@),
        bright_white: ColorView::Hex("#eceff4"@),
    }
}

/// The colors of the Solarized Dark theme.
pub open spec fn solarized_dark_colors() -> ColorPaletteView {
    ColorPaletteView {
        foreground: ColorView::Hex("#839496"@),
        background: ColorView::Hex("#002b36"@),
        cursor: ColorView::Hex("#839496"@),
        cursor_text: ColorView::Hex("#002b36"@),
        selection: ColorView::Hex("#073642"@),
        selection_text: ColorView::Hex("#93a1a1"@),
        black: ColorView::Hex("#073642"@),
        red: ColorView::Hex("#dc322f"@),
        green: ColorView::Hex("#859900"@),
        yellow: ColorView::Hex("#b58900"@),
        blue: ColorView::Hex("#268bd2"@),
        magenta: ColorView::Hex("#d33682"@),
        cyan: ColorView::Hex("#2aa198"@),
        white: ColorView::Hex("#eee8d5"@),
        bright_black: ColorView::Hex("#002b36"@),
        bright_red: ColorView::Hex("#cb4b16"@),
        bright_green: ColorView::Hex("#586e75"@),
        bright_yellow: ColorView::Hex("#657b83"@),
        bright_blue: ColorView::Hex("#839496"@),
        bright_magenta: ColorView::Hex("#6c71c4"@),
        bright_cyan: ColorView::Hex("#93a1a1"@),
        bright_white: ColorView::Hex("#fdf6e3"@),
    }
}

/// The colors of the One Dark (Atom) theme.
pub open spec fn one_dark_colors() -> ColorPaletteView {
    ColorPaletteView {
        foreground: ColorView::Hex("#abb2bf"@),
        background: ColorView::Hex("#282c34"@),
        cursor: ColorView::Hex("#528bff"@),
        cursor_text: ColorView::Hex("#282c34"@),
        selection: ColorView::Hex("#3e4451"@),
        selection_text: ColorView::Hex("#abb2bf"@),
        black: ColorView::Hex("#282c34"@),
        red: ColorView::Hex("#e06c75"@),
        green: ColorView::Hex("#98c379"@),
        yellow: ColorView::Hex("#e5c07b"@),
        blue: ColorView::Hex("#61afef"@),
        magenta: ColorView::Hex("#c678dd"@),
        cyan: ColorView::Hex("#56b6c2"@),
        white: ColorView::Hex("#abb2bf"@),
        bright_black: ColorView::Hex("#5c6370"@),
        bright_red: ColorView::Hex("#e06c75"@),
        bright_green: ColorView::Hex("#98c379"@),
        bright_yellow: ColorView::Hex("#e5c07b"@),
        bright_blue: ColorView::Hex("#61afef"@),
        bright_magenta: ColorView::Hex("#c678dd"@),
        bright_cyan: ColorView::Hex("#56b6c2"@),
        bright_white: ColorView::Hex("#ffffff"@),
    }
}

/// The preset a normalized name (lower case, without `-` and `_`) names.
pub open spec fn preset_for_name(n: Seq<char>) -> Option<ColorPaletteView> {
    if n == "tokyonight"@ {
        Some(tokyo_night_colors())
    } else if n == "catppuccinmocha"@ || n == "catppuccin"@ {
        Some(catppuccin_mocha_colors())
    } else if n == "gruvboxdark"@ || n == "gruvbox"@ {
        Some(gruvbox_dark_colors())
    } else if n == "dracula"@ {
        Some(dracula_colors())
    } else if n == "nord"@ {
        Some(nord_colors())
    } else if n == "solarizeddark"@ || n == "solarized"@ {
        Some(solarized_dark_colors())
    } else if n == "onedark"@ || n == "atom"@ {
        Some(one_dark_colors())
    } else {
        None
    }
}

/// The model of an optional palette.
pub open spec fn opt_palette_view(p: Option<ColorPalette>) -> Option<ColorPaletteView> {
    match p {
        Some(x) => Some(x@),
        None => None,
    }
}

impl ColorPalette {
    /// Get ANSI color by index (0-15)
    pub fn ansi(&self, index: u8) -> (r: &Color)
        ensures
            r@ == ansi_color(self@, index),
    {
        if index == 0 {
            &self.black
        } else if index == 1 {
            &self.red
        } else if index == 2 {
            &self.green
        } else if index == 3 {
            &self.yellow
        } else if index == 4 {
            &self.blue
        } else if index == 5 {
            &self.magenta
        } else if index == 6 {
            &self.cyan
        } else if index == 7 {
            &self.white
        } else if index == 8 {
            &self.bright_black
        } else if index == 9 {
            &self.bright_red
        } else if index == 10 {
            &self.bright_green
        } else if index == 11 {
            &self.bright_yellow
        } else if index == 12 {
            &self.bright_blue
        } else if index == 13 {
            &self.bright_magenta
        } else if index == 14 {
            &self.bright_cyan
        } else if index == 15 {
            &self.bright_white
        } else {
            &self.foreground
        }
    }

    /// Tokyo Night theme (default)
    pub fn tokyo_night() -> (r: Self)
        ensures
            r@ == tokyo_night_colors(),
    {
        ColorPalette {
            foreground: Color::hex("#c0caf5"),
            background: Color::hex("#1a1b26"),
            cursor: Color::hex("#c0caf5"),
            cursor_text: Color::hex("#1a1b26"),
            selection: Color::hex("#33467c"),
            selection_text: Color::hex("#c0caf5"),
            black: Color::hex("#15161e"),
            red: Color::hex("#f7768e"),
            green: Color::hex("#9ece6a"),
            yellow: Color::hex("#e0af68"),
            blue: Color::hex("#7aa2f7"),
            magenta: Color::hex("#bb9af7"),
            cyan: Color::hex("#7dcfff"),
            white: Color::hex("#a9b1d6"),
            bright_black: Color::hex("#414868"),
            bright_red: Color::hex("#f7768e"),
            bright_green: Color::hex("#9ece6a"),
            bright_yellow: Color::hex("#e0af68"),
            bright_blue: Color::hex("#7aa2f7"),
            bright_magenta: Color::hex("#bb9af7"),
            bright_cyan: Color::hex("#7dcfff"),
            bright_white: Color::hex("#c0caf5"),
        }
    }

    /// Catppuccin Mocha theme
    pub fn catppuccin_mocha() -> (r: Self)
        ensures
            r@ == catppuccin_mocha_colors(),
    {
        ColorPalette {
            foreground: Color::hex("#cdd6f4"),
            background: Color::hex("#1e1e2e"),
            cursor: Color::hex("#f5e0dc"),
            cursor_text: Color::hex("#1e1e2e"),
            selection: Color::hex("#45475a"),
            selection_text: Color::hex("#cdd6f4"),
            black: Color::hex("#45475a"),
            red: Color::hex("#f38ba8"),
            green: Color::hex("#a6e3a1"),
            yellow: Color::hex("#f9e2af"),
            blue: Color::hex("#89b4fa"),
            magenta: Color::hex("#f5c2e7"),
            cyan: Color::hex("#94e2d5"),
            white: Color::hex("#bac2de"),
            bright_black: Color::hex("#585b70"),
            bright_red: Color::hex("#f38ba8"),
            bright_green: Color::hex("#a6e3a1"),
            bright_yellow: Color::hex("#f9e2af"),
            bright_blue: Color::hex("#89b4fa"),
            bright_magenta: Color::hex("#f5c2e7"),
            bright_cyan: Color::hex("#94e2d5"),
            bright_white: Color::hex("#a6adc8"),
        }
    }

    /// Gruvbox Dark theme
    pub fn gruvbox_dark() -> (r: Self)
        ensures
            r@ == gruvbox_dark_colors(),
    {
        ColorPalette {
            foreground: Color::hex("#ebdbb2"),
            background: Color::hex("#282828"),
            cursor: Color::hex("#ebdbb2"),
            cursor_text: Color::hex("#282828"),
            selection: Color::hex("#504945"),
            selection_text: Color::hex("#ebdbb2"),
            black: Color::hex("#282828"),
            red: Color::hex("#cc241d"),
            green: Color::hex("#98971a"),
            yellow: Color::hex("#d79921"),
            blue: Color::hex("#458588"),
            magenta: Color::hex("#b16286"),
            cyan: Color::hex("#689d6a"),
            white: Color::hex("#a89984"),
            bright_black: Color::hex("#928374"),
            bright_red: Color::hex("#fb4934"),
            bright_green: Color::hex("#b8bb26"),
            bright_yellow: Color::hex("#fabd2f"),
            bright_blue: Color::hex("#83a598"),
            bright_magenta: Color::hex("#d3869b"),
            bright_cyan: Color::hex("#8ec07c"),
            bright_white: Color::hex("#ebdbb2"),
        }
    }

    /// Dracula theme
    pub fn dracula() -> (r: Self)
        ensures
            r@ == dracula_colors(),
    {
        ColorPalette {
            foreground: Color::hex("#f8f8f2"),
            background: Color::hex("#282a36"),
            cursor: Color::hex("#f8f8f2"),
            cursor_text: Color::hex("#282a36"),
            selection: Color::hex("#44475a"),
            selection_text: Color::hex("#f8f8f2"),
            black: Color::hex("#21222c"),
            red: Color::hex("#ff5555"),
            green: Color::hex("#50fa7b"),
            yellow: Color::hex("#f1fa8c"),
            blue: Color::hex("#bd93f9"),
            magenta: Color::hex("#ff79c6"),
            cyan: Color::hex("#8be9fd"),
            white: Color::hex("#f8f8f2"),
            bright_black: Color::hex("#6272a4"),
            bright_red: Color::hex("#ff6e6e"),
            bright_green: Color::hex("#69ff94"),
            bright_yellow: Color::hex("#ffffa5"),
            bright_blue: Color::hex("#d6acff"),
            bright_magenta: Color::hex("#ff92df"),
            bright_cyan: Color::hex("#a4ffff"),
            bright_white: Color::hex("#ffffff"),
        }
    }

    /// Nord theme
    pub fn nord() -> (r: Self)
        ensures
            r@ == nord_colors(),
    {
        ColorPalette {
            foreground: Color::hex("#d8dee9"),
            background: Color::hex("#2e3440"),
            cursor: Color::hex("#d8dee9"),
            cursor_text: Color::hex("#2e3440"),
            selection: Color::hex("#434c5e"),
            selection_text: Color::hex("#d8dee9"),
            black: Color::hex("#3b4252"),
            red: Color::hex("#bf616a"),
            green: Color::hex("#a3be8c"),
            yellow: Color::hex("#ebcb8b"),
            blue: Color::hex("#81a1c1"),
            magenta: Color::hex("#b48ead"),
            cyan: Color::hex("#88c0d0"),
            white: Color::hex("#e5e9f0"),
            bright_black: Color::hex("#4c566a"),
            bright_red: Color::hex("#bf616a"),
            bright_green: Color::hex("#a3be8c"),
            bright_yellow: Color::hex("#ebcb8b"),
            bright_blue: Color::hex("#81a1c1"),
            bright_magenta: Color::hex("#b48ead"),
            bright_cyan: Color::hex("#8fbcbb"),
            bright_white: Color::hex("#eceff4"),
        }
    }

    /// Solarized Dark theme
    pub fn solarized_dark() -> (r: Self)
        ensures
            r@ == solarized_dark_colors(),
    {
        ColorPalette {
            foreground: Color::hex("#839496"),
            background: Color::hex("#002b36"),
            cursor: Color::hex("#839496"),
            cursor_text: Color::hex("#002b36"),
            selection: Color::hex("#073642"),
            selection_text: Color::hex("#93a1a1"),
            black: Color::hex("#073642"),
            red: Color::hex("#dc322f"),
            green: Color::hex("#859900"),
            yellow: Color::hex("#b58900"),
            blue: Color::hex("#268bd2"),
            magenta: Color::hex("#d33682"),
            cyan: Color::hex("#2aa198"),
            white: Color::hex("#eee8d5"),
            bright_black: Color::hex("#002b36"),
            bright_red: Color::hex("#cb4b16"),
            bright_green: Color::hex("#586e75"),
            bright_yellow: Color::hex("#657b83"),
            bright_blue: Color::hex("#839496"),
            bright_magenta: Color::hex("#6c71c4"),
            bright_cyan: Color::hex("#93a1a1"),
            bright_white: Color::hex("#fdf6e3"),
        }
    }

    /// One Dark theme (Atom)
    pub fn one_dark() -> (r: Self)
        ensures
            r@ == one_dark_colors(),
    {
        ColorPalette {
            foreground: Color::hex("#abb2bf"),
            background: Color::hex("#282c34"),
            cursor: Color::hex("#528bff"),
            cursor_text: Color::hex("#282c34"),
            selection: Color::hex("#3e4451"),
            selection_text: Color::hex("#abb2bf"),
            black: Color::hex("#282c34"),
            red: Color::hex("#e06c75"),
            green: Color::hex("#98c379"),
            yellow: Color::hex("#e5c07b"),
            blue: Color::hex("#61afef"),
            magenta: Color::hex("#c678dd"),
            cyan: Color::hex("#56b6c2"),
            white: Color::hex("#abb2bf"),
            bright_black: Color::hex("#5c6370"),
            bright_red: Color::hex("#e06c75"),
            bright_green: Color::hex("#98c379"),
            bright_yellow: Color::hex("#e5c07b"),
            bright_blue: Color::hex("#61afef"),
            bright_magenta: Color::hex("#c678dd"),
            bright_cyan: Color::hex("#56b6c2"),
            bright_white: Color::hex("#ffffff"),
        }
    }

    /// The preset a normalized name (lower case, without `-` and `_`) names.
    pub fn from_normalized_name(n: &Vec<char>) -> (r: Option<Self>)
        ensures
            opt_palette_view(r) == preset_for_name(n@),
    {
        if chars_are(n, "tokyonight") {
            Some(Self::tokyo_night())
        } else if chars_are(n, "catppuccinmocha") || chars_are(n, "catppuccin") {
            Some(Self::catppuccin_mocha())
        } else if chars_are(n, "gruvboxdark") || chars_are(n, "gruvbox") {
            Some(Self::gruvbox_dark())
        } else if chars_are(n, "dracula") {
            Some(Self::dracula())
        } else if chars_are(n, "nord") {
            Some(Self::nord())
        } else if chars_are(n, "solarizeddark") || chars_are(n, "solarized") {
            Some(Self::solarized_dark())
        } else if chars_are(n, "onedark") || chars_are(n, "atom") {
            Some(Self::one_dark())
        } else {
            None
        }
    }

    /// Get a preset by name (any case, `-` and `_` ignored)
    pub fn from_preset(name: &str) -> (r: Option<Self>)
        ensures
            opt_palette_view(r) == preset_for_name(without_separators(lowered(name@))),
    {
        let lower = chars_of(str_to_lowercase(name).as_str());
        let mut n: Vec<char> = Vec::new();
        let mut i: usize = 0;
        while i < lower.len()
            invariant
                i <= lower@.len(),
                n@ == without_separators(lower@.take(i as int)),
            decreases lower@.len() - i,
        {
            let c = lower[i];
            proof {
                reveal(Seq::filter);
                assert(lower@.take(i + 1).drop_last() =~= lower@.take(i as int));
            }
            if c != '-' && c != '_' {
                n.push(c);
            }
            i += 1;
        }
        assert(lower@.take(i as int) =~= lower@);
        Self::from_normalized_name(&n)
    }

    /// List available preset names
    pub fn preset_names() -> (r: Vec<&'static str>)
        ensures
            r@.len() == 7,
            r@[0]@ == "tokyo-night"@,
            r@[1]@ == "catppuccin-mocha"@,
            r@[2]@ == "gruvbox-dark"@,
            r@[3]@ == "dracula"@,
            r@[4]@ == "nord"@,
            r@[5]@ == "solarized-dark"@,
            r@[6]@ == "one-dark"@,
    {
        vec!["tokyo-night", "catppuccin-mocha", "gruvbox-dark", "dracula", "nord", "solarized-dark", "one-dark"]
    }

    /// A copy of the palette.
    pub fn copy_of(&self) -> (r: Self)
        ensures
            r@ == self@,
    {
        ColorPalette {
            foreground: self.foreground.copy_of(),
            background: self.background.copy_of(),
            cursor: self.cursor.copy_of(),
            cursor_text: self.cursor_text.copy_of(),
            selection: self.selection.copy_of(),
            selection_text: self.selection_text.copy_of(),
            black: self.black.copy_of(),
            red: self.red.copy_of(),
            green: self.green.copy_of(),
            yellow: self.yellow.copy_of(),
            blue: self.blue.copy_of(),
            magenta: self.magenta.copy_of(),
            cyan: self.cyan.copy_of(),
            white: self.white.copy_of(),
            bright_black: self.bright_black.copy_of(),
            bright_red: self.bright_red.copy_of(),
            bright_green: self.bright_green.copy_of(),
            bright_yellow: self.bright_yellow.copy_of(),
            bright_blue: self.bright_blue.copy_of(),
            bright_magenta: self.bright_magenta.copy_of(),
            bright_cyan: self.bright_cyan.copy_of(),
            bright_white: self.bright_white.copy_of(),
        }
    }
}

impl Default for ColorPalette {
    fn default() -> (r: Self)
        ensures
            r@ == tokyo_night_colors(),
    {
        Self::tokyo_night()
    }
}

} // verus!
