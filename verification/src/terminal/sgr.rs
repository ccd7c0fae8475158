//! SGR (Select Graphic Rendition): how CSI ... m parameters change the pen.
use vstd::prelude::*;
use super::cell::{CellAttrs, CellColor, UnderlineStyle, plain_attrs};

verus! {

/// The attributes and colors that new characters are drawn with.
#[derive(Debug, Clone, Copy, PartialEq, Eq, Structural)]
pub struct Pen {
    pub attrs: CellAttrs,
    pub fg: CellColor,
    pub bg: CellColor,
}

/// The first value of a parameter, or 0 when it has none.
pub open spec fn first_or_zero(p: Seq<u16>) -> u16 {
    if p.len() > 0 { p[0] } else { 0 }
}

/// The underline style selected by the sub-parameter of SGR 4.
pub open spec fn underline_for(sub: u16) -> UnderlineStyle {
    match sub {
        0 => UnderlineStyle::Off,
        1 => UnderlineStyle::Single,
        2 => UnderlineStyle::Double,
        3 => UnderlineStyle::Curly,
        4 => UnderlineStyle::Dotted,
        5 => UnderlineStyle::Dashed,
        _ => UnderlineStyle::Single,
    }
}

/// The effect of one SGR code (other than 38 and 48) on the pen; `param` is
/// the whole parameter, sub-parameters included.
pub open spec fn sgr_code(pen: Pen, code: u16, param: Seq<u16>) -> Pen {
    let a = pen.attrs;
    if code == 0 {
        Pen {
            attrs: CellAttrs { hyperlink_id: a.hyperlink_id, ..plain_attrs() },
            fg: CellColor::Default,
            bg: CellColor::Default,
        }
    } else if code == 1 {
        Pen { attrs: CellAttrs { bold: true, ..a }, ..pen }
    } else if code == 2 {
        Pen { attrs: CellAttrs { dim: true, ..a }, ..pen }
    } else if code == 3 {
        Pen { attrs: CellAttrs { italic: true, ..a }, ..pen }
    } else if code == 4 {
        Pen {
            attrs: CellAttrs {
                underline: if param.len() > 1 { underline_for(param[1]) } else { UnderlineStyle::Single },
                ..a
            },
            ..pen
        }
    } else if code == 5 {
        Pen { attrs: CellAttrs { blink: true, ..a }, ..pen }
    } else if code == 7 {
        Pen { attrs: CellAttrs { inverse: true, ..a }, ..pen }
    } else if code == 8 {
        Pen { attrs: CellAttrs { hidden: true, ..a }, ..pen }
    } else if code == 9 {
        Pen { attrs: CellAttrs { strikethrough: true, ..a }, ..pen }
    } else if code == 21 {
        Pen { attrs: CellAttrs { underline: UnderlineStyle::Double, ..a }, ..pen }
    } else if code == 22 {
        Pen { attrs: CellAttrs { bold: false, dim: false, ..a }, ..pen }
    } else if code == 23 {
        Pen { attrs: CellAttrs { italic: false, ..a }, ..pen }
    } else if code == 24 {
        Pen { attrs: CellAttrs { underline: UnderlineStyle::Off, ..a }, ..pen }
    } else if code == 25 {
        Pen { attrs: CellAttrs { blink: false, ..a }, ..pen }
    } else if code == 27 {
        Pen { attrs: CellAttrs { inverse: false, ..a }, ..pen }
    } else if code == 28 {
        Pen { attrs: CellAttrs { hidden: false, ..a }, ..pen }
    } else if code == 29 {
        Pen { attrs: CellAttrs { strikethrough: false, ..a }, ..pen }
    } else if 30 <= code <= 37 {
        Pen { fg: CellColor::Indexed((code - 30) as u8), ..pen }
    } else if code == 39 {
        Pen { fg: CellColor::Default, ..pen }
    } else if 40 <= code <= 47 {
        Pen { bg: CellColor::Indexed((code - 40) as u8), ..pen }
    } else if code == 49 {
        Pen { bg: CellColor::Default, ..pen }
    } else if 90 <= code <= 97 {
        Pen { fg: CellColor::Indexed((code - 90 + 8) as u8), ..pen }
    } else if 100 <= code <= 107 {
        Pen { bg: CellColor::Indexed((code - 100 + 8) as u8), ..pen }
    } else {
        pen
    }
}

/// The first value of parameter `i` (`None` when there is no such parameter
/// or it has no value).
pub open spec fn value_at(params: Seq<Seq<u16>>, i: int) -> Option<u16> {
    if 0 <= i < params.len() && params[i].len() > 0 {
        Some(params[i][0])
    } else {
        None
    }
}

/// The position after consuming parameter `i` (parameters are consumed even
/// when they hold no value; nothing is consumed past the end).
pub open spec fn after(params: Seq<Seq<u16>>, i: int) -> int {
    if i < params.len() { i + 1 } else { i }
}

/// An extended color starting at parameter `i` (the parameters after 38 or
/// 48): `2;r;g;b` or `5;n`, each value taken modulo 256. Returns the color,
/// if one was read completely, and the position after what was consumed.
pub open spec fn color_at(params: Seq<Seq<u16>>, i: int) -> (Option<CellColor>, int) {
    match value_at(params, i) {
        None => (None, after(params, i)),
        Some(mode) => {
            if mode == 2 {
                match value_at(params, i + 1) {
                    None => (None, after(params, i + 1)),
                    Some(r) => match value_at(params, i + 2) {
                        None => (None, after(params, i + 2)),
                        Some(g) => match value_at(params, i + 3) {
                            None => (None, after(params, i + 3)),
                            Some(b) => (
                                Some(CellColor::Rgb((r % 256) as u8, (g % 256) as u8, (b % 256) as u8)),
                                i + 4,
                            ),
                        },
                    },
                }
            } else if mode == 5 {
                match value_at(params, i + 1) {
                    None => (None, after(params, i + 1)),
                    Some(n) => (Some(CellColor::Indexed((n % 256) as u8)), i + 2),
                }
            } else {
                (None, i + 1)
            }
        },
    }
}

/// The pen after applying the SGR parameters from position `i` on.
pub open spec fn sgr_from(pen: Pen, params: Seq<Seq<u16>>, i: int) -> Pen
    decreases params.len() - i,
{
    if i < 0 || i >= params.len() {
        pen
    } else {
        let code = first_or_zero(params[i]);
        if code == 38 || code == 48 {
            let (c, next) = color_at(params, i + 1);
            let p2 = match c {
                Some(color) => if code == 38 { Pen { fg: color, ..pen } } else { Pen { bg: color, ..pen } },
                None => pen,
            };
            if next > i {
                sgr_from(p2, params, next)
            } else {
                p2
            }
        } else {
            sgr_from(sgr_code(pen, code, params[i]), params, i + 1)
        }
    }
}

/// The pen after applying a whole SGR parameter list.
pub open spec fn sgr_applied(pen: Pen, params: Seq<Seq<u16>>) -> Pen {
    sgr_from(pen, params, 0)
}

/// The views of a parameter list.
pub open spec fn params_view(params: Seq<Vec<u16>>) -> Seq<Seq<u16>> {
    params.map_values(|p: Vec<u16>| p@)
}

fn value_of(params: &Vec<Vec<u16>>, i: usize) -> (r: Option<u16>)
    ensures
        r == value_at(params_view(params@), i as int),
{
    if i < params.len() && params[i].len() > 0 {
        Some(params[i][0])
    } else {
        None
    }
}

/// The position after parameter `j` of a list of `len` parameters.
fn step_past(len: usize, j: usize) -> (r: usize)
    requires
        j <= len,
    ensures
        r as int == (if j < len { j + 1 } else { j as int }),
{
    if j < len { j + 1 } else { j }
}

/// Parse an extended color starting at parameter `i`.
fn parse_color(params: &Vec<Vec<u16>>, i: usize) -> (r: (Option<CellColor>, usize))
    requires
        i <= params@.len(),
    ensures
        r.0 == color_at(params_view(params@), i as int).0,
        r.1 == color_at(params_view(params@), i as int).1,
{
    let len = params.len();
    match value_of(params, i) {
        None => (None, step_past(len, i)),
        Some(mode) => {
            if mode == 2 {
                match value_of(params, i + 1) {
                    None => (None, step_past(len, i + 1)),
                    Some(r) => {
                        match value_of(params, i + 2) {
                            None => (None, step_past(len, i + 2)),
                            Some(g) => {
                                match value_of(params, i + 3) {
                                    None => (None, step_past(len, i + 3)),
                                    Some(b) => (
                                        Some(CellColor::Rgb((r % 256) as u8, (g % 256) as u8, (b % 256) as u8)),
                                        i + 4,
                                    ),
                                }
                            },
                        }
                    },
                }
            } else if mode == 5 {
                match value_of(params, i + 1) {
                    None => (None, step_past(len, i + 1)),
                    Some(n) => (Some(CellColor::Indexed((n % 256) as u8)), i + 2),
                }
            } else {
                (None, i + 1)
            }
        },
    }
}

fn underline_style(sub: u16) -> (r: UnderlineStyle)
    ensures
        r == underline_for(sub),
{
    match sub {
        0 => UnderlineStyle::Off,
        1 => UnderlineStyle::Single,
        2 => UnderlineStyle::Double,
        3 => UnderlineStyle::Curly,
        4 => UnderlineStyle::Dotted,
        5 => UnderlineStyle::Dashed,
        _ => UnderlineStyle::Single,
    }
}

/// Apply one SGR code (other than 38 and 48).
fn apply_code(pen: Pen, code: u16, param: &Vec<u16>) -> (r: Pen)
    ensures
        r == sgr_code(pen, code, param@),
{
    let a = pen.attrs;
    if code == 0 {
        // Reset all attributes (but preserve hyperlink)
        Pen {
            attrs: CellAttrs { hyperlink_id: a.hyperlink_id, ..CellAttrs::default() },
            fg: CellColor::Default,
            bg: CellColor::Default,
        }
    } else if code == 1 {
        Pen { attrs: CellAttrs { bold: true, ..a }, ..pen }
    } else if code == 2 {
        Pen { attrs: CellAttrs { dim: true, ..a }, ..pen }
    } else if code == 3 {
        Pen { attrs: CellAttrs { italic: true, ..a }, ..pen }
    } else if code == 4 {
        // Underline - check for subparameter
        let style = if param.len() > 1 { underline_style(param[1]) } else { UnderlineStyle::Single };
        Pen { attrs: CellAttrs { underline: style, ..a }, ..pen }
    } else if code == 5 {
        Pen { attrs: CellAttrs { blink: true, ..a }, ..pen }
    } else if code == 7 {
        Pen { attrs: CellAttrs { inverse: true, ..a }, ..pen }
    } else if code == 8 {
        Pen { attrs: CellAttrs { hidden: true, ..a }, ..pen }
    } else if code == 9 {
        Pen { attrs: CellAttrs { strikethrough: true, ..a }, ..pen }
    } else if code == 21 {
        Pen { attrs: CellAttrs { underline: UnderlineStyle::Double, ..a }, ..pen }
    } else if code == 22 {
        Pen { attrs: CellAttrs { bold: false, dim: false, ..a }, ..pen }
    } else if code == 23 {
        Pen { attrs: CellAttrs { italic: false, ..a }, ..pen }
    } else if code == 24 {
        Pen { attrs: CellAttrs { underline: UnderlineStyle::Off, ..a }, ..pen }
    } else if code == 25 {
        Pen { attrs: CellAttrs { blink: false, ..a }, ..pen }
    } else if code == 27 {
        Pen { attrs: CellAttrs { inverse: false, ..a }, ..pen }
    } else if code == 28 {
        Pen { attrs: CellAttrs { hidden: false, ..a }, ..pen }
    } else if code == 29 {
        Pen { attrs: CellAttrs { strikethrough: false, ..a }, ..pen }
    } else if 30 <= code && code <= 37 {
        Pen { fg: CellColor::Indexed((code - 30) as u8), ..pen }
    } else if code == 39 {
        Pen { fg: CellColor::Default, ..pen }
    } else if 40 <= code && code <= 47 {
        Pen { bg: CellColor::Indexed((code - 40) as u8), ..pen }
    } else if code == 49 {
        Pen { bg: CellColor::Default, ..pen }
    } else if 90 <= code && code <= 97 {
        Pen { fg: CellColor::Indexed((code - 90 + 8) as u8), ..pen }
    } else if 100 <= code && code <= 107 {
        Pen { bg: CellColor::Indexed((code - 100 + 8) as u8), ..pen }
    } else {
        pen
    }
}

/// Apply SGR (Select Graphic Rendition) parameters to a pen.
pub fn apply_sgr(pen: Pen, params: &Vec<Vec<u16>>) -> (r: Pen)
    ensures
        r == sgr_applied(pen, params_view(params@)),
{
    let ghost ps = params_view(params@);
    let mut p = pen;
    let mut i: usize = 0;
    while i < params.len()
        invariant
            i <= params@.len(),
            ps == params_view(params@),
            sgr_applied(pen, ps) == sgr_from(p, ps, i as int),
        decreases params@.len() - i,
    {
        let code = if params[i].len() > 0 { params[i][0] } else { 0 };
        assert(ps[i as int] == params@[i as int]@);
        if code == 38 || code == 48 {
            let (c, next) = parse_color(params, i + 1);
            match c {
                Some(color) => {
                    if code == 38 {
                        p = Pen { fg: color, ..p };
                    } else {
                        p = Pen { bg: color, ..p };
                    }
                },
                None => {},
            }
            i = next;
        } else {
            p = apply_code(p, code, &params[i]);
            i += 1;
        }
    }
    p
}

/// SGR 0 resets the pen to plain attributes and default colors, keeping only
/// the active hyperlink.
pub proof fn lemma_sgr_reset(pen: Pen)
    ensures
        sgr_applied(pen, seq![seq![0u16]]) == (Pen {
            attrs: CellAttrs { hyperlink_id: pen.attrs.hyperlink_id, ..plain_attrs() },
            fg: CellColor::Default,
            bg: CellColor::Default,
        }),
{
    let ps = seq![seq![0u16]];
    assert(first_or_zero(ps[0]) == 0);
    assert(sgr_from(sgr_code(pen, 0, ps[0]), ps, 1) == sgr_code(pen, 0, ps[0]));
}

/// No SGR sequence changes the active hyperlink of the pen.
pub proof fn lemma_sgr_keeps_hyperlink(pen: Pen, params: Seq<Seq<u16>>)
    ensures
        sgr_applied(pen, params).attrs.hyperlink_id == pen.attrs.hyperlink_id,
{
    lemma_sgr_from_keeps_hyperlink(pen, params, 0);
}

proof fn lemma_sgr_from_keeps_hyperlink(pen: Pen, params: Seq<Seq<u16>>, i: int)
    ensures
        sgr_from(pen, params, i).attrs.hyperlink_id == pen.attrs.hyperlink_id,
    decreases params.len() - i,
{
    if 0 <= i < params.len() {
        let code = first_or_zero(params[i]);
        if code == 38 || code == 48 {
            let (c, next) = color_at(params, i + 1);
            let p2 = match c {
                Some(color) => if code == 38 { Pen { fg: color, ..pen } } else { Pen { bg: color, ..pen } },
                None => pen,
            };
            if next > i {
                lemma_sgr_from_keeps_hyperlink(p2, params, next);
            }
        } else {
            lemma_sgr_from_keeps_hyperlink(sgr_code(pen, code, params[i]), params, i + 1);
        }
    }
}

/// The color codes of SGR: 30-37 and 90-97 choose a normal or bright
/// foreground color (0-7, 8-15), 39 the default foreground; 40-47 and
/// 100-107 the background likewise, 49 the default background. A
/// foreground code leaves the background and the attributes alone, and a
/// background code the foreground and the attributes.
pub proof fn lemma_sgr_color_codes(pen: Pen, code: u16)
    ensures
        ({
            let p = sgr_applied(pen, seq![seq![code]]);
            &&& 30 <= code <= 37 ==> p == Pen { fg: CellColor::Indexed((code - 30) as u8), ..pen }
            &&& 90 <= code <= 97 ==> p == Pen { fg: CellColor::Indexed((code - 82) as u8), ..pen }
            &&& code == 39 ==> p == Pen { fg: CellColor::Default, ..pen }
            &&& 40 <= code <= 47 ==> p == Pen { bg: CellColor::Indexed((code - 40) as u8), ..pen }
            &&& 100 <= code <= 107 ==> p == Pen { bg: CellColor::Indexed((code - 92) as u8), ..pen }
            &&& code == 49 ==> p == Pen { bg: CellColor::Default, ..pen }
            &&& ((30 <= code <= 39 && code != 38) || 90 <= code <= 97) ==> p.bg == pen.bg && p.attrs == pen.attrs
            &&& ((40 <= code <= 49 && code != 48) || 100 <= code <= 107) ==> p.fg == pen.fg && p.attrs == pen.attrs
        }),
{
    let ps = seq![seq![code]];
    assert(first_or_zero(ps[0]) == code);
    if code != 38 && code != 48 {
        assert(sgr_from(sgr_code(pen, code, ps[0]), ps, 1) == sgr_code(pen, code, ps[0]));
    }
}

/// The attribute codes of SGR: 1 bold, 2 dim, 3 italic, 4 underline
/// (single unless a sub-parameter chooses), 5 blink, 7 inverse, 8 hidden,
/// 9 strikethrough and 21 double underline switch an attribute on; 22
/// (bold and dim), 23, 24, 25, 27, 28 and 29 switch them off. Each leaves
/// the colors and the other attributes alone.
pub proof fn lemma_sgr_attribute_codes(pen: Pen, code: u16)
    ensures
        ({
            let p = sgr_applied(pen, seq![seq![code]]);
            let a = pen.attrs;
            &&& code == 1 ==> p == Pen { attrs: CellAttrs { bold: true, ..a }, ..pen }
            &&& code == 2 ==> p == Pen { attrs: CellAttrs { dim: true, ..a }, ..pen }
            &&& code == 3 ==> p == Pen { attrs: CellAttrs { italic: true, ..a }, ..pen }
            &&& code == 4 ==> p == Pen { attrs: CellAttrs { underline: UnderlineStyle::Single, ..a }, ..pen }
            &&& code == 5 ==> p == Pen { attrs: CellAttrs { blink: true, ..a }, ..pen }
            &&& code == 7 ==> p == Pen { attrs: CellAttrs { inverse: true, ..a }, ..pen }
            &&& code == 8 ==> p == Pen { attrs: CellAttrs { hidden: true, ..a }, ..pen }
            &&& code == 9 ==> p == Pen { attrs: CellAttrs { strikethrough: true, ..a }, ..pen }
            &&& code == 21 ==> p == Pen { attrs: CellAttrs { underline: UnderlineStyle::Double, ..a }, ..pen }
            &&& code == 22 ==> p == Pen { attrs: CellAttrs { bold: false, dim: false, ..a }, ..pen }
            &&& code == 23 ==> p == Pen { attrs: CellAttrs { italic: false, ..a }, ..pen }
            &&& code == 24 ==> p == Pen { attrs: CellAttrs { underline: UnderlineStyle::Off, ..a }, ..pen }
            &&& code == 25 ==> p == Pen { attrs: CellAttrs { blink: false, ..a }, ..pen }
            &&& code == 27 ==> p == Pen { attrs: CellAttrs { inverse: false, ..a }, ..pen }
            &&& code == 28 ==> p == Pen { attrs: CellAttrs { hidden: false, ..a }, ..pen }
            &&& code == 29 ==> p == Pen { attrs: CellAttrs { strikethrough: false, ..a }, ..pen }
        }),
{
    let ps = seq![seq![code]];
    assert(first_or_zero(ps[0]) == code);
    if code != 38 && code != 48 {
        assert(sgr_from(sgr_code(pen, code, ps[0]), ps, 1) == sgr_code(pen, code, ps[0]));
    }
}

} // verus!
