use vstd::prelude::*;
use crate::text::{char_width, unicode_char_width};

verus! {

/// Cell color representation
#[derive(Debug, Clone, Copy, PartialEq, Eq, Structural)]
pub enum CellColor {
    /// Default foreground/background
    Default,
    /// Indexed color (0-255): 0-7 standard, 8-15 bright,
    /// 16-231 6x6x6 cube, 232-255 grayscale
    Indexed(u8),
    /// True color RGB
    Rgb(u8, u8, u8),
}

/// Underline rendering style
#[derive(Debug, Clone, Copy, PartialEq, Eq, Structural)]
pub enum UnderlineStyle {
    Off,
    Single,
    Double,
    Curly,
    Dotted,
    Dashed,
}

impl Default for UnderlineStyle {
    fn default() -> (r: Self)
        ensures
            r == UnderlineStyle::Off,
    {
        UnderlineStyle::Off
    }
}

/// Cell rendering attributes
#[derive(Debug, Clone, Copy, PartialEq, Eq, Structural)]
pub struct CellAttrs {
    pub bold: bool,
    pub dim: bool,
    pub italic: bool,
    pub underline: UnderlineStyle,
    pub blink: bool,
    pub inverse: bool,
    pub hidden: bool,
    pub strikethrough: bool,
    /// Hyperlink ID for OSC 8 (0 = no hyperlink)
    pub hyperlink_id: u16,
}

/// The attributes of a freshly reset cell: everything off, no hyperlink.
pub open spec fn plain_attrs() -> CellAttrs {
    CellAttrs {
        bold: false,
        dim: false,
        italic: false,
        underline: UnderlineStyle::Off,
        blink: false,
        inverse: false,
        hidden: false,
        strikethrough: false,
        hyperlink_id: 0,
    }
}

impl Default for CellAttrs {
    fn default() -> (r: Self)
        ensures
            r == plain_attrs(),
    {
        CellAttrs {
            bold: false,
            dim: false,
            italic: false,
            underline: UnderlineStyle::Off,
            blink: false,
            inverse: false,
            hidden: false,
            strikethrough: false,
            hyperlink_id: 0,
        }
    }
}

impl CellAttrs {
    /// Reset all attributes to default
    pub fn reset(&mut self)
        ensures
            *final(self) == plain_attrs(),
    {
        *self = CellAttrs::default();
    }
}

/// Mathematical model of a cell.
pub struct CellView {
    pub c: char,
    pub extra: Option<Seq<char>>,
    pub attrs: CellAttrs,
    pub fg: CellColor,
    pub bg: CellColor,
}

/// A single cell in the terminal grid
#[derive(Debug)]
pub struct Cell {
    /// Primary character
    pub c: char,
    /// Extra characters for combining chars / grapheme clusters
    pub extra: Option<Box<Vec<char>>>,
    /// Cell rendering attributes
    pub attrs: CellAttrs,
    /// Foreground color
    pub fg: CellColor,
    /// Background color
    pub bg: CellColor,
}

impl View for Cell {
    type V = CellView;

    open spec fn view(&self) -> CellView {
        CellView {
            c: self.c,
            extra: match self.extra {
                Some(v) => Some(v@),
                None => None,
            },
            attrs: self.attrs,
            fg: self.fg,
            bg: self.bg,
        }
    }
}

/// The blank cell: a space with default colors and no attributes.
pub open spec fn blank_cell() -> CellView {
    CellView { c: ' ', extra: None, attrs: plain_attrs(), fg: CellColor::Default, bg: CellColor::Default }
}

/// A cell holding `c` with default colors and attributes.
pub open spec fn char_cell(c: char) -> CellView {
    CellView { c: c, ..blank_cell() }
}

/// Whether a cell counts as empty: a space, no extra characters, default
/// attributes and colors.
pub open spec fn cell_is_empty(v: CellView) -> bool {
    v.c == ' ' && v.extra is None && v.attrs == plain_attrs() && v.fg == CellColor::Default && v.bg
        == CellColor::Default
}

impl Default for Cell {
    fn default() -> (r: Self)
        ensures
            r@ == blank_cell(),
    {
        Cell {
            c: ' ',
            extra: None,
            attrs: CellAttrs::default(),
            fg: CellColor::Default,
            bg: CellColor::Default,
        }
    }
}

impl Cell {
    /// Create a new cell with the given character
    pub fn new(c: char) -> (r: Self)
        ensures
            r@ == char_cell(c),
    {
        Cell { c, extra: None, attrs: CellAttrs::default(), fg: CellColor::Default, bg: CellColor::Default }
    }

    /// Reset cell to default (space with default colors)
    pub fn reset(&mut self)
        ensures
            final(self)@ == blank_cell(),
    {
        self.c = ' ';
        self.extra = None;
        self.attrs = CellAttrs::default();
        self.fg = CellColor::Default;
        self.bg = CellColor::Default;
    }

    /// Get the width of this cell (1 for normal, 2 for wide chars)
    pub fn width(&self) -> (r: usize)
        ensures
            r == match unicode_char_width(self.c) {
                Some(w) => w,
                None => 1,
            },
            (self.c as u32) < 0xa0 ==> r == 1,
    {
        match char_width(self.c) {
            Some(w) => w,
            None => 1,
        }
    }

    /// Check if this cell is empty (space with default attrs)
    pub fn is_empty(&self) -> (r: bool)
        ensures
            r == cell_is_empty(self@),
    {
        self.c == ' ' && self.extra.is_none() && self.attrs == CellAttrs::default() && self.fg
            == CellColor::Default && self.bg == CellColor::Default
    }

    /// A copy of this cell with the same contents.
    pub fn duplicate(&self) -> (r: Cell)
        ensures
            r@ == self@,
    {
        let extra = match &self.extra {
            Some(v) => {
                let mut copy: Vec<char> = Vec::new();
                let mut i: usize = 0;
                while i < v.len()
                    invariant
                        i <= v@.len(),
                        copy@ == v@.subrange(0, i as int),
                    decreases v@.len() - i,
                {
                    copy.push(v[i]);
                    i += 1;
                }
                assert(copy@ == v@);
                Some(Box::new(copy))
            },
            None => None,
        };
        Cell { c: self.c, extra, attrs: self.attrs, fg: self.fg, bg: self.bg }
    }
}

} // verus!
