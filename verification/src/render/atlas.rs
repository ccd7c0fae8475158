//! Glyph atlas: glyph bitmaps packed into one texture, row by row
use vstd::prelude::*;

verus! {

/// Font variant
#[derive(Debug, Clone, Copy, PartialEq, Eq, Hash, Structural)]
pub enum FontStyle {
    Regular,
    Bold,
    Italic,
    BoldItalic,
}

/// Key for glyph cache lookup
#[derive(Debug, Clone, Copy, PartialEq, Eq, Hash, Structural)]
pub struct GlyphKey {
    pub c: char,
    pub style: FontStyle,
}

/// Cached glyph information in the atlas
#[derive(Debug, Clone, Copy, PartialEq, Eq, Structural)]
pub struct GlyphEntry {
    /// X position in atlas texture
    pub x: u32,
    /// Y position in atlas texture
    pub y: u32,
    /// Width of glyph bitmap
    pub width: u32,
    /// Height of glyph bitmap
    pub height: u32,
    /// Horizontal offset from cursor position
    pub bearing_x: i32,
    /// Vertical offset from baseline
    pub bearing_y: i32,
}

/// Glyph atlas texture manager (one byte of coverage per pixel)
pub struct GlyphAtlas {
    data: Vec<u8>,
    width: u32,
    height: u32,
    cursor_x: u32,
    cursor_y: u32,
    row_height: u32,
    cache: Vec<(GlyphKey, GlyphEntry)>,
    dirty: bool,
}

/// Mathematical model of the atlas.
pub struct AtlasView {
    pub data: Seq<u8>,
    pub width: u32,
    pub height: u32,
    pub cursor_x: u32,
    pub cursor_y: u32,
    pub row_height: u32,
    pub cache: Seq<(GlyphKey, GlyphEntry)>,
    pub dirty: bool,
}

impl View for GlyphAtlas {
    type V = AtlasView;

    closed spec fn view(&self) -> AtlasView {
        AtlasView {
            data: self.data@,
            width: self.width,
            height: self.height,
            cursor_x: self.cursor_x,
            cursor_y: self.cursor_y,
            row_height: self.row_height,
            cache: self.cache@,
            dirty: self.dirty,
        }
    }
}

/// The first cached entry for `key`.
pub open spec fn cached(cache: Seq<(GlyphKey, GlyphEntry)>, key: GlyphKey) -> Option<GlyphEntry>
    decreases cache.len(),
{
    if cache.len() == 0 {
        None
    } else {
        match cached(cache.drop_last(), key) {
            Some(e) => Some(e),
            None => if cache.last().0 == key { Some(cache.last().1) } else { None },
        }
    }
}

/// Where the next glyph of `w` x `h` pixels goes: on the current row when
/// it fits (with a pixel of padding), else at the start of the next row;
/// `None` when the atlas has no room left below.
pub open spec fn placement(a: AtlasView, w: u32, h: u32) -> Option<(u32, u32)> {
    let wraps = a.cursor_x + w + 1 > a.width;
    let x: int = if wraps { 1 } else { a.cursor_x as int };
    let y: int = if wraps { a.cursor_y + a.row_height + 1 } else { a.cursor_y as int };
    if y + h + 1 > a.height {
        None
    } else {
        Some((x as u32, y as u32))
    }
}

/// `data` with `src` copied over it from position `start` on.
pub open spec fn copied(data: Seq<u8>, start: int, src: Seq<u8>) -> Seq<u8> {
    Seq::new(data.len(), |i: int| if start <= i < start + src.len() { src[i - start] } else { data[i] })
}

/// The atlas data with the first `rows` rows of a `w`-pixel wide bitmap
/// copied to `x`, `y` (row `r` of the bitmap to the `w` bytes from
/// `(y + r) * width + x`).
pub open spec fn blitted(data: Seq<u8>, width: u32, x: u32, y: u32, w: u32, rows: nat, bitmap: Seq<u8>) -> Seq<u8>
    decreases rows,
{
    if rows == 0 {
        data
    } else {
        let r = (rows - 1) as int;
        copied(
            blitted(data, width, x, y, w, (rows - 1) as nat, bitmap),
            (y + r) * width + x,
            bitmap.subrange(r * w, r * w + w),
        )
    }
}

/// Whether a glyph of `w` x `h` pixels placed at `x`, `y` ends inside the
/// atlas data.
pub open spec fn fits_data(a: AtlasView, x: u32, y: u32, w: u32, h: u32) -> bool {
    (y + h - 1) * a.width + x + w <= a.width * a.height
}

impl AtlasView {
    /// The atlas's invariant: a byte per pixel, and the packing position
    /// inside the texture.
    pub open spec fn wf(self) -> bool {
        &&& self.data.len() == self.width * self.height
        &&& self.width * self.height <= u32::MAX
    }

    /// The atlas after placing a glyph of `w` x `h` pixels (not empty) with
    /// bitmap `bitmap`, when it has room.
    pub open spec fn placed(self, key: GlyphKey, w: u32, h: u32, bx: i32, by: i32, bitmap: Seq<u8>) -> (AtlasView, Option<GlyphEntry>) {
        match placement(self, w, h) {
            None => {
                let wraps = self.cursor_x + w + 1 > self.width;
                if wraps {
                    (AtlasView {
                        cursor_x: 1,
                        cursor_y: (self.cursor_y + self.row_height + 1) as u32,
                        row_height: 0,
                        ..self
                    }, None)
                } else {
                    (self, None)
                }
            },
            Some((x, y)) => {
                let row_height = if self.cursor_x + w + 1 > self.width { 0 } else { self.row_height };
                let entry = GlyphEntry { x, y, width: w, height: h, bearing_x: bx, bearing_y: by };
                (AtlasView {
                    data: blitted(self.data, self.width, x, y, w, h as nat, bitmap),
                    cursor_x: (x + w + 1) as u32,
                    cursor_y: y,
                    row_height: if row_height >= h { row_height } else { h },
                    cache: self.cache.push((key, entry)),
                    dirty: true,
                    ..self
                }, Some(entry))
            },
        }
    }
}

impl GlyphAtlas {
    /// The atlas's invariant.
    pub open spec fn wf(&self) -> bool {
        self@.wf()
    }

    /// Create a new glyph atlas of `width` x `height` pixels
    pub fn new(width: u32, height: u32) -> (r: Self)
        requires
            width * height <= u32::MAX,
        ensures
            r.wf(),
            r@ == (AtlasView {
                data: Seq::new((width * height) as nat, |i: int| 0u8),
                width,
                height,
                cursor_x: 1,
                cursor_y: 1,
                row_height: 0,
                cache: Seq::empty(),
                dirty: false,
            }),
    {
        let n = (width * height) as usize;
        let mut data: Vec<u8> = Vec::new();
        let mut i: usize = 0;
        while i < n
            invariant
                i <= n,
                data@ == Seq::new(i as nat, |j: int| 0u8),
            decreases n - i,
        {
            data.push(0);
            i += 1;
            assert(data@ =~= Seq::new(i as nat, |j: int| 0u8));
        }
        let r = GlyphAtlas {
            data,
            width,
            height,
            // 1 pixel padding
            cursor_x: 1,
            cursor_y: 1,
            row_height: 0,
            cache: Vec::new(),
            dirty: false,
        };
        assert(r@.cache =~= Seq::<(GlyphKey, GlyphEntry)>::empty());
        r
    }

    /// Get atlas dimensions
    pub fn size(&self) -> (r: (u32, u32))
        ensures
            r == (self@.width, self@.height),
    {
        (self.width, self.height)
    }

    /// Get atlas data
    pub fn data(&self) -> (r: &Vec<u8>)
        ensures
            r@ == self@.data,
    {
        &self.data
    }

    /// Check if atlas needs GPU upload
    pub fn is_dirty(&self) -> (r: bool)
        ensures
            r == self@.dirty,
    {
        self.dirty
    }

    /// Mark atlas as uploaded
    pub fn clear_dirty(&mut self)
        requires
            old(self).wf(),
        ensures
            final(self).wf(),
            final(self)@ == (AtlasView { dirty: false, ..old(self)@ }),
    {
        self.dirty = false;
    }

    /// The cached entry of a glyph
    pub fn get(&self, key: GlyphKey) -> (r: Option<GlyphEntry>)
        ensures
            r == cached(self@.cache, key),
    {
        let mut i: usize = 0;
        while i < self.cache.len()
            invariant
                i <= self.cache@.len(),
                cached(self.cache@.take(i as int), key) is None,
            decreases self.cache@.len() - i,
        {
            proof {
                assert(self.cache@.take(i + 1).drop_last() =~= self.cache@.take(i as int));
            }
            if self.cache[i].0 == key {
                let e = self.cache[i].1;
                proof {
                    lemma_cached_prefix(self.cache@, key, i + 1);
                }
                return Some(e);
            }
            i += 1;
        }
        assert(self.cache@.take(i as int) =~= self.cache@);
        None
    }

    /// Remember a glyph without a bitmap (such as a space)
    pub fn insert_empty(&mut self, key: GlyphKey) -> (r: GlyphEntry)
        requires
            old(self).wf(),
        ensures
            final(self).wf(),
            r == (GlyphEntry { x: 0, y: 0, width: 0, height: 0, bearing_x: 0, bearing_y: 0 }),
            final(self)@ == (AtlasView { cache: old(self)@.cache.push((key, r)), ..old(self)@ }),
    {
        let entry = GlyphEntry { x: 0, y: 0, width: 0, height: 0, bearing_x: 0, bearing_y: 0 };
        self.cache.push((key, entry));
        entry
    }

    /// Whether a glyph of `glyph_width` x `glyph_height` pixels (not empty)
    /// can be handed to `insert`: the packing position stays within 32 bits
    /// and, where the glyph is placed, all its rows lie inside the texture.
    pub fn insert_fits(&self, glyph_width: u32, glyph_height: u32) -> (r: bool)
        requires
            self.wf(),
        ensures
            r == (glyph_width >= 1 && glyph_height >= 1 && self@.cursor_x + glyph_width + 1 <= u32::MAX
                && glyph_width + 2 <= u32::MAX && self@.cursor_y + self@.row_height + 1 + glyph_height + 1
                <= u32::MAX && (placement(self@, glyph_width, glyph_height) matches Some((x, y)) ==> fits_data(
                self@,
                x,
                y,
                glyph_width,
                glyph_height,
            ))),
    {
        if glyph_width < 1 || glyph_height < 1 {
            return false;
        }
        let w = glyph_width as u128;
        let h = glyph_height as u128;
        let cx = self.cursor_x as u128;
        let cy = self.cursor_y as u128;
        let rh = self.row_height as u128;
        let width = self.width as u128;
        let height = self.height as u128;
        let max = u32::MAX as u128;
        if cx + w + 1 > max || w + 2 > max || cy + rh + 1 + h + 1 > max {
            return false;
        }
        let wraps = cx + w + 1 > width;
        let x: u128 = if wraps { 1 } else { cx };
        let y: u128 = if wraps { cy + rh + 1 } else { cy };
        if y + h + 1 > height {
            return true;
        }
        assert((y + h - 1) * width <= 0x4_0000_0000 * 0x1_0000_0000) by (nonlinear_arith)
            requires
                y + h - 1 <= 0x4_0000_0000,
                width <= 0x1_0000_0000,
        {}
        assert(width * height <= 0x1_0000_0000 * 0x1_0000_0000) by (nonlinear_arith)
            requires
                height <= 0x1_0000_0000,
                width <= 0x1_0000_0000,
        {}
        (y + h - 1) * width + x + w <= width * height
    }

    /// Place a rasterized glyph of `glyph_width` x `glyph_height` pixels
    /// (coverage bytes row by row in `bitmap`); its entry, or `None` when
    /// the atlas is full
    pub fn insert(
        &mut self,
        key: GlyphKey,
        glyph_width: u32,
        glyph_height: u32,
        bearing_x: i32,
        bearing_y: i32,
        bitmap: &Vec<u8>,
    ) -> (r: Option<GlyphEntry>)
        requires
            old(self).wf(),
            glyph_width >= 1,
            glyph_height >= 1,
            bitmap@.len() >= glyph_width * glyph_height,
            old(self)@.cursor_x + glyph_width + 1 <= u32::MAX,
            glyph_width + 2 <= u32::MAX,
            old(self)@.cursor_y + old(self)@.row_height + 1 + glyph_height + 1 <= u32::MAX,
            placement(old(self)@, glyph_width, glyph_height) matches Some((x, y)) ==> fits_data(
                old(self)@,
                x,
                y,
                glyph_width,
                glyph_height,
            ),
        ensures
            final(self).wf(),
            (final(self)@, r) == old(self)@.placed(key, glyph_width, glyph_height, bearing_x, bearing_y, bitmap@),
    {
        // Move to the next row when the glyph does not fit on this one
        if self.cursor_x + glyph_width + 1 > self.width {
            self.cursor_x = 1;
            self.cursor_y = self.cursor_y + self.row_height + 1;
            self.row_height = 0;
        }
        // No room left below
        if self.cursor_y + glyph_height + 1 > self.height {
            return None;
        }
        let atlas_x = self.cursor_x;
        let atlas_y = self.cursor_y;
        assert(self.width >= 1) by (nonlinear_arith)
            requires
                (atlas_y + glyph_height - 1) * self.width + atlas_x + glyph_width <= self.width * self.height,
                glyph_width >= 1,
        {
            if self.width == 0 {
                assert(self.width * self.height == 0);
            }
        }
        self.blit(atlas_x, atlas_y, glyph_width, glyph_height, bitmap);
        self.cursor_x = atlas_x + glyph_width + 1;
        self.row_height = if self.row_height >= glyph_height { self.row_height } else { glyph_height };
        self.dirty = true;
        let entry = GlyphEntry {
            x: atlas_x,
            y: atlas_y,
            width: glyph_width,
            height: glyph_height,
            bearing_x,
            bearing_y,
        };
        self.cache.push((key, entry));
        proof {
            lemma_blitted_len(old(self)@.data, old(self)@.width, atlas_x, atlas_y, glyph_width, glyph_height as nat, bitmap@);
        }
        Some(entry)
    }

    /// Copy a `w` x `h` bitmap to `x`, `y`, row by row.
    fn blit(&mut self, x: u32, y: u32, w: u32, h: u32, bitmap: &Vec<u8>)
        requires
            old(self).data@.len() == old(self).width * old(self).height,
            old(self).width * old(self).height <= u32::MAX,
            old(self).width >= 1,
            h >= 1,
            (y + h - 1) * old(self).width + x + w <= old(self).width * old(self).height,
            bitmap@.len() >= w * h,
        ensures
            final(self).data@ == blitted(old(self).data@, old(self).width, x, y, w, h as nat, bitmap@),
            final(self).width == old(self).width,
            final(self).height == old(self).height,
            final(self).cursor_x == old(self).cursor_x,
            final(self).cursor_y == old(self).cursor_y,
            final(self).row_height == old(self).row_height,
            final(self).cache@ == old(self).cache@,
            final(self).dirty == old(self).dirty,
    {
        let width = self.width;
        let total = self.width * self.height;
        let mut r: u32 = 0;
        while r < h
            invariant
                r <= h,
                h >= 1,
                width == self.width,
                self.width == old(self).width,
                self.height == old(self).height,
                self.cursor_x == old(self).cursor_x,
                self.cursor_y == old(self).cursor_y,
                self.row_height == old(self).row_height,
                self.cache@ == old(self).cache@,
                self.dirty == old(self).dirty,
                width >= 1,
                total == width * old(self).height,
                self.data@.len() == total,
                self.data.len() == total,
                (y + h - 1) * width + x + w <= total,
                bitmap@.len() >= w * h,
                self.data@ == blitted(old(self).data@, width, x, y, w, r as nat, bitmap@),
            decreases h - r,
        {
            assert((y + r) * width + x + w <= total && y + r <= total) by (nonlinear_arith)
                requires
                    r <= h - 1,
                    width >= 1,
                    (y + h - 1) * width + x + w <= total,
            {
                assert((y + r) * width <= (y + h - 1) * width);
                assert(y + r <= (y + r) * width);
            }
            assert(r * w + w <= w * h) by (nonlinear_arith)
                requires
                    r < h,
            {
                assert(r * w + w == (r + 1) * w);
                assert((r + 1) * w <= h * w);
            }
            assert(r * w + w <= bitmap.len());
            let dst = (y + r) * width + x;
            let src = (r as usize) * (w as usize);
            let ghost before = self.data@;
            let mut c: u32 = 0;
            while c < w
                invariant
                    c <= w,
                    dst + w <= self.data.len(),
                    self.data.len() <= u32::MAX,
                    src + w <= bitmap.len(),
                    src == r * w,
                    self.data@.len() == before.len(),
                    self.width == old(self).width,
                    self.height == old(self).height,
                    self.cursor_x == old(self).cursor_x,
                    self.cursor_y == old(self).cursor_y,
                    self.row_height == old(self).row_height,
                    self.cache@ == old(self).cache@,
                    self.dirty == old(self).dirty,
                    self.data@ == copied(before, dst as int, bitmap@.subrange(src as int, src + c)),
                decreases w - c,
            {
                let v = bitmap[src + c as usize];
                self.data.set((dst + c) as usize, v);
                c += 1;
                assert(self.data@ =~= copied(before, dst as int, bitmap@.subrange(src as int, src + c)));
            }
            r += 1;
        }
    }

    /// Clear the atlas (e.g., on font size change)
    pub fn clear(&mut self)
        requires
            old(self).wf(),
        ensures
            final(self).wf(),
            final(self)@ == (AtlasView {
                data: Seq::new(old(self)@.data.len(), |i: int| 0u8),
                cursor_x: 1,
                cursor_y: 1,
                row_height: 0,
                cache: Seq::empty(),
                dirty: true,
                ..old(self)@
            }),
    {
        let n = self.data.len();
        let mut data: Vec<u8> = Vec::new();
        let mut i: usize = 0;
        while i < n
            invariant
                i <= n,
                data@ == Seq::new(i as nat, |j: int| 0u8),
            decreases n - i,
        {
            data.push(0);
            i += 1;
            assert(data@ =~= Seq::new(i as nat, |j: int| 0u8));
        }
        self.data = data;
        self.cursor_x = 1;
        self.cursor_y = 1;
        self.row_height = 0;
        self.cache = Vec::new();
        self.dirty = true;
        assert(self@.cache =~= Seq::<(GlyphKey, GlyphEntry)>::empty());
    }
}

/// When the first `k` entries cache `key`, the first such entry is also the
/// first in the whole cache.
proof fn lemma_cached_prefix(cache: Seq<(GlyphKey, GlyphEntry)>, key: GlyphKey, k: int)
    requires
        0 <= k <= cache.len(),
        cached(cache.take(k), key) is Some,
    ensures
        cached(cache, key) == cached(cache.take(k), key),
    decreases cache.len(),
{
    if k < cache.len() {
        assert(cache.drop_last().take(k) =~= cache.take(k));
        lemma_cached_prefix(cache.drop_last(), key, k);
    } else {
        assert(cache.take(k) =~= cache);
    }
}

/// Copying rows into the atlas data keeps its length.
proof fn lemma_blitted_len(data: Seq<u8>, width: u32, x: u32, y: u32, w: u32, rows: nat, bitmap: Seq<u8>)
    ensures
        blitted(data, width, x, y, w, rows, bitmap).len() == data.len(),
    decreases rows,
{
    if rows > 0 {
        lemma_blitted_len(data, width, x, y, w, (rows - 1) as nat, bitmap);
    }
}

} // verus!
