//! The xterm 256-color palette beyond the 16 configurable colors.
use vstd::prelude::*;

verus! {

/// The level of one component of the 6x6x6 color cube: 0, then 95 to 255
/// in steps of 40.
pub open spec fn cube_level(n: u8) -> u8 {
    if n > 0 { (n * 40 + 55) as u8 } else { 0 }
}

/// The red, green and blue (0-255) of an indexed color from 16 on: indexes
/// 16-231 form the color cube, 232-255 a gray ramp from 8 to 238. The first
/// 16 come from the palette instead.
pub open spec fn indexed_rgb(idx: u8) -> Option<(u8, u8, u8)> {
    if idx < 16 {
        None
    } else if idx < 232 {
        let i = (idx - 16) as u8;
        Some((cube_level(((i / 36) % 6) as u8), cube_level(((i / 6) % 6) as u8), cube_level((i % 6) as u8)))
    } else {
        let level = ((idx - 232) * 10 + 8) as u8;
        Some((level, level, level))
    }
}

fn cube_level_of(n: u8) -> (r: u8)
    requires
        n < 6,
    ensures
        r == cube_level(n),
{
    if n > 0 { n * 40 + 55 } else { 0 }
}

/// The color of an index from 16 on (the first 16 are the palette's)
pub fn indexed_color(idx: u8) -> (r: Option<(u8, u8, u8)>)
    ensures
        r == indexed_rgb(idx),
{
    if idx < 16 {
        None
    } else if idx < 232 {
        // 216 color cube
        let i = idx - 16;
        let r = cube_level_of((i / 36) % 6);
        let g = cube_level_of((i / 6) % 6);
        let b = cube_level_of(i % 6);
        Some((r, g, b))
    } else {
        // Grayscale
        let level = (idx - 232) * 10 + 8;
        Some((level, level, level))
    }
}

} // verus!
