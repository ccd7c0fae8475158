//! Configuration: colors, keybindings and the settings that the terminal logic reads.
use vstd::prelude::*;
use crate::text::{str_to_string, lowered};
use colors::{preset_for_name, tokyo_night_colors, ColorPaletteView, ColorView};
use keybinds::{without_separators, chars_are};
use crate::text::chars_of;

pub mod colors;
pub mod keybinds;
pub mod runtime;

pub use colors::{Color, ColorPalette};
pub use keybinds::{Action, Keybind, KeybindConfig, KeybindSet, Modifiers};

verus! {

/// General settings
#[derive(Debug, Clone)]
pub struct GeneralConfig {
    /// Shell to execute
    pub shell: String,
    /// Arguments to pass to the shell
    pub shell_args: Vec<String>,
    /// Working directory (none: inherit from the parent)
    pub working_directory: Option<String>,
    /// Use VSync-based rendering
    pub vsync: bool,
    /// Log level: "error", "warn", "info", "debug", "trace"
    pub log_level: String,
}

impl GeneralConfig {
    /// The default settings, for the shell named by the environment's
    /// `SHELL` (when it is set): that shell, or else `/bin/sh`.
    pub fn with_shell(shell_env: Option<String>) -> (r: Self)
        ensures
            r.shell@ == (match shell_env {
                Some(s) => s@,
                None => "/bin/sh"@,
            }),
            r.shell_args@.len() == 0,
            r.working_directory is None,
            !r.vsync,
            r.log_level@ == "info"@,
    {
        let shell = match shell_env {
            Some(s) => s,
            None => str_to_string("/bin/sh"),
        };
        GeneralConfig {
            shell,
            shell_args: Vec::new(),
            working_directory: None,
            vsync: false,
            log_level: str_to_string("info"),
        }
    }
}

/// Terminal behavior settings
#[derive(Debug, Clone)]
pub struct TerminalConfig {
    /// Scrollback buffer size (lines)
    pub scrollback_lines: usize,
    /// Lines to scroll per mouse wheel tick
    pub scroll_lines: usize,
    /// Enable bracketed paste mode
    pub bracketed_paste: bool,
    /// Allow applications to write to the clipboard (OSC 52)
    pub clipboard_write: bool,
    /// Allow applications to read the clipboard (OSC 52)
    pub clipboard_read: bool,
    /// Close the window when the shell exits
    pub close_on_exit: bool,
    /// Keep the window open after the shell exits
    pub hold_on_exit: bool,
    /// TERM environment variable
    pub term: String,
}

impl Default for TerminalConfig {
    fn default() -> (r: Self)
        ensures
            r.scrollback_lines == 10000,
            r.scroll_lines == 3,
            r.bracketed_paste,
            r.clipboard_write,
            !r.clipboard_read,
            r.close_on_exit,
            !r.hold_on_exit,
            r.term@ == "xterm-256color"@,
    {
        TerminalConfig {
            scrollback_lines: 10000,
            scroll_lines: 3,
            bracketed_paste: true,
            clipboard_write: true,
            // Security: reading is disabled by default
            clipboard_read: false,
            close_on_exit: true,
            hold_on_exit: false,
            term: str_to_string("xterm-256color"),
        }
    }
}

/// Mouse behavior settings
#[derive(Debug, Clone)]
pub struct MouseConfig {
    /// Copy the selection to the primary selection when it is made
    pub copy_on_select: bool,
    /// Paste the primary selection on middle click
    pub middle_click_paste: bool,
    /// What a right click does ("paste", "menu", "none")
    pub right_click: String,
    /// Characters that count as part of a word besides letters and digits
    pub word_chars: String,
    /// Detect URLs under the pointer
    pub url_detection: bool,
    /// Modifier that opens a URL on click
    pub url_modifier: Option<String>,
}

impl Default for MouseConfig {
    fn default() -> (r: Self)
        ensures
            r.copy_on_select,
            r.middle_click_paste,
            r.right_click@ == "paste"@,
            r.word_chars@ == "-_"@,
            r.url_detection,
            r.url_modifier matches Some(m) && m@ == "ctrl"@,
    {
        MouseConfig {
            copy_on_select: true,
            middle_click_paste: true,
            right_click: str_to_string("paste"),
            word_chars: str_to_string("-_"),
            url_detection: true,
            url_modifier: Some(str_to_string("ctrl")),
        }
    }
}

/// Bell settings
#[derive(Debug, Clone)]
pub struct BellConfig {
    /// Flash the window
    pub visual: bool,
    /// How long the flash lasts
    pub visual_duration_ms: u32,
    /// Play a sound
    pub audio: bool,
    /// Command that plays the sound
    pub audio_command: Option<String>,
}

impl Default for BellConfig {
    fn default() -> (r: Self)
        ensures
            r.visual,
            r.visual_duration_ms == 100,
            !r.audio,
            r.audio_command is None,
    {
        BellConfig { visual: true, visual_duration_ms: 100, audio: false, audio_command: None }
    }
}

/// Color settings: a named preset, or the palette given field by field
#[derive(Debug, Clone)]
pub struct ColorsConfig {
    /// Preset name
    pub preset: Option<String>,
    /// Custom colors; over a known preset, those other than the default
    /// palette's override it
    pub palette: ColorPalette,
}

impl Default for ColorsConfig {
    fn default() -> (r: Self)
        ensures
            r.preset matches Some(p) && p@ == "tokyo-night"@,
            r.palette@ == tokyo_night_colors(),
    {
        ColorsConfig { preset: Some(str_to_string("tokyo-night")), palette: ColorPalette::default() }
    }
}

/// A color of the preset, unless the settings give one other than the
/// default palette's.
pub open spec fn overlaid(base: ColorView, given: ColorView, default: ColorView) -> ColorView {
    if given != default {
        given
    } else {
        base
    }
}

/// A preset with the settings' overrides on top: every color that the
/// settings give other than the default palette's.
pub open spec fn palette_overlaid(preset: ColorPaletteView, given: ColorPaletteView) -> ColorPaletteView {
    let d = tokyo_night_colors();
    ColorPaletteView {
        foreground: overlaid(preset.foreground, given.foreground, d.foreground),
        background: overlaid(preset.background, given.background, d.background),
        cursor: overlaid(preset.cursor, given.cursor, d.cursor),
        cursor_text: overlaid(preset.cursor_text, given.cursor_text, d.cursor_text),
        selection: overlaid(preset.selection, given.selection, d.selection),
        selection_text: overlaid(preset.selection_text, given.selection_text, d.selection_text),
        black: overlaid(preset.black, given.black, d.black),
        red: overlaid(preset.red, given.red, d.red),
        green: overlaid(preset.green, given.green, d.green),
        yellow: overlaid(preset.yellow, given.yellow, d.yellow),
        blue: overlaid(preset.blue, given.blue, d.blue),
        magenta: overlaid(preset.magenta, given.magenta, d.magenta),
        cyan: overlaid(preset.cyan, given.cyan, d.cyan),
        white: overlaid(preset.white, given.white, d.white),
        bright_black: overlaid(preset.bright_black, given.bright_black, d.bright_black),
        bright_red: overlaid(preset.bright_red, given.bright_red, d.bright_red),
        bright_green: overlaid(preset.bright_green, given.bright_green, d.bright_green),
        bright_yellow: overlaid(preset.bright_yellow, given.bright_yellow, d.bright_yellow),
        bright_blue: overlaid(preset.bright_blue, given.bright_blue, d.bright_blue),
        bright_magenta: overlaid(preset.bright_magenta, given.bright_magenta, d.bright_magenta),
        bright_cyan: overlaid(preset.bright_cyan, given.bright_cyan, d.bright_cyan),
        bright_white: overlaid(preset.bright_white, given.bright_white, d.bright_white),
    }
}

/// The palette that color settings select: the named preset, with the
/// overrides on top, when the name is known; the given palette otherwise.
pub open spec fn resolved_palette(preset: Option<Seq<char>>, palette: ColorPaletteView) -> ColorPaletteView {
    match preset {
        Some(name) => match preset_for_name(without_separators(lowered(name))) {
            Some(p) => palette_overlaid(p, palette),
            None => palette,
        },
        None => palette,
    }
}

/// Whether two colors are written the same way.
fn same_color(a: &Color, b: &Color) -> (r: bool)
    ensures
        r == (a@ == b@),
{
    match (a, b) {
        (Color::Hex(x), Color::Hex(y)) => {
            let xs = chars_of(x.as_str());
            chars_are(&xs, y.as_str())
        },
        (Color::Rgb { r: r1, g: g1, b: b1 }, Color::Rgb { r: r2, g: g2, b: b2 }) => {
            *r1 == *r2 && *g1 == *g2 && *b1 == *b2
        },
        _ => false,
    }
}

/// The preset's color, or the given one where it is not the default's.
fn overlay_color(base: Color, given: &Color, default: &Color) -> (r: Color)
    ensures
        r@ == overlaid(base@, given@, default@),
{
    if same_color(given, default) {
        base
    } else {
        given.copy_of()
    }
}

/// The preset with the overrides of `given` on top.
fn with_overrides(preset: ColorPalette, given: &ColorPalette) -> (r: ColorPalette)
    ensures
        r@ == palette_overlaid(preset@, given@),
{
    let d = ColorPalette::default();
    ColorPalette {
            foreground: overlay_color(preset.foreground, &given.foreground, &d.foreground),
            background: overlay_color(preset.background, &given.background, &d.background),
            cursor: overlay_color(preset.cursor, &given.cursor, &d.cursor),
            cursor_text: overlay_color(preset.cursor_text, &given.cursor_text, &d.cursor_text),
            selection: overlay_color(preset.selection, &given.selection, &d.selection),
            selection_text: overlay_color(preset.selection_text, &given.selection_text, &d.selection_text),
            black: overlay_color(preset.black, &given.black, &d.black),
            red: overlay_color(preset.red, &given.red, &d.red),
            green: overlay_color(preset.green, &given.green, &d.green),
            yellow: overlay_color(preset.yellow, &given.yellow, &d.yellow),
            blue: overlay_color(preset.blue, &given.blue, &d.blue),
            magenta: overlay_color(preset.magenta, &given.magenta, &d.magenta),
            cyan: overlay_color(preset.cyan, &given.cyan, &d.cyan),
            white: overlay_color(preset.white, &given.white, &d.white),
            bright_black: overlay_color(preset.bright_black, &given.bright_black, &d.bright_black),
            bright_red: overlay_color(preset.bright_red, &given.bright_red, &d.bright_red),
            bright_green: overlay_color(preset.bright_green, &given.bright_green, &d.bright_green),
            bright_yellow: overlay_color(preset.bright_yellow, &given.bright_yellow, &d.bright_yellow),
            bright_blue: overlay_color(preset.bright_blue, &given.bright_blue, &d.bright_blue),
            bright_magenta: overlay_color(preset.bright_magenta, &given.bright_magenta, &d.bright_magenta),
            bright_cyan: overlay_color(preset.bright_cyan, &given.bright_cyan, &d.bright_cyan),
            bright_white: overlay_color(preset.bright_white, &given.bright_white, &d.bright_white),
    }
}

impl ColorsConfig {
    /// The palette to use.
    pub fn resolve(&self) -> (r: ColorPalette)
        ensures
            r@ == resolved_palette(
                match self.preset {
                    Some(p) => Some(p@),
                    None => None,
                },
                self.palette@,
            ),
    {
        match &self.preset {
            Some(preset_name) => {
                match ColorPalette::from_preset(preset_name.as_str()) {
                    Some(preset) => {
                        return with_overrides(preset, &self.palette);
                    },
                    None => {},
                }
            },
            None => {},
        }
        self.palette.copy_of()
    }
}

} // verus!
