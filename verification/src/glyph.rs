//! Glyphs as font renderers hand them out: pixels in one of several layouts,
//! placed within a character cell, and the renderers that need no font data.

use vstd::prelude::*;

use noto_sans_mono_bitmap::{FontWeight, RasterHeight, get_raster, get_raster_width};

use crate::color::{Color, opaque};

verus! {

/// The kind of pixels a glyph buffer holds.
#[derive(Debug, Clone, Copy, PartialEq, Eq, PartialOrd, Ord, Hash, Structural)]
pub enum FontGlyphBufferType {
    /// No pixel data (blank or filled).
    Empty,
    /// One bit per pixel: set is white, clear is black.
    Bitmap,
    /// One byte of luminance per pixel.
    Gray,
    /// A mask per color channel for each pixel.
    Subpix,
    /// A color with alpha for each pixel.
    Colored,
}

/// The pixels of a glyph. Rows are stored one after another (`1D`, with the
/// glyph's width as stride) or as a list of rows (`2D`); the data is static,
/// borrowed, borrowed from a vector, or owned.
#[derive(Debug, PartialEq, Eq, PartialOrd, Ord, Hash)]
pub enum FontGlyphBuffer<'buf> {
    /// All black.
    Blank,
    /// All white.
    Filled,
    Static1DBitmap(&'static [u8]),
    Slice1DBitmap(&'buf [u8]),
    Vec1DBitmap(&'buf Vec<u8>),
    Owned1DBitmap(Vec<u8>),
    Static1DGray(&'static [u8]),
    Slice1DGray(&'buf [u8]),
    Vec1DGray(&'buf Vec<u8>),
    Owned1DGray(Vec<u8>),
    Static2DGray(&'static [&'static [u8]]),
    Slice2DGray(&'buf [&'buf [u8]]),
    Vec2DGray(&'buf Vec<Vec<u8>>),
    Owned2DGray(Vec<Vec<u8>>),
    Static1DSubpix(&'static [Color]),
    Slice1DSubpix(&'buf [Color]),
    Vec1DSubpix(&'buf Vec<Color>),
    Owned1DSubpix(Vec<Color>),
    Static2DSubpix(&'static [&'static [Color]]),
    Slice2DSubpix(&'buf [&'buf [Color]]),
    Vec2DSubpix(&'buf Vec<Vec<Color>>),
    Owned2DSubpix(Vec<Vec<Color>>),
    Static1DColored(&'static [Color]),
    Slice1DColored(&'buf [Color]),
    Vec1DColored(&'buf Vec<Color>),
    Owned1DColored(Vec<Color>),
    Static2DColored(&'static [&'static [Color]]),
    Slice2DColored(&'buf [&'buf [Color]]),
    Vec2DColored(&'buf Vec<Vec<Color>>),
    Owned2DColored(Vec<Vec<Color>>),
}

/// The pixels of a glyph buffer, whatever their storage.
pub enum GlyphPixels {
    Blank,
    Filled,
    /// Packed bits, most significant bit first.
    Bits(Seq<u8>),
    /// Luminance bytes, row after row.
    Gray(Seq<u8>),
    /// Luminance bytes, one sequence per row.
    GrayRows(Seq<Seq<u8>>),
    /// Colors, row after row.
    Colors(Seq<Color>),
    /// Colors, one sequence per row.
    ColorRows(Seq<Seq<Color>>),
}

/// The rows of a two-dimensional byte buffer.
pub open spec fn byte_rows(rows: Seq<&[u8]>) -> Seq<Seq<u8>> {
    rows.map_values(|r: &[u8]| r@)
}

/// The rows of a two-dimensional byte buffer held in vectors.
pub open spec fn byte_vec_rows(rows: Seq<Vec<u8>>) -> Seq<Seq<u8>> {
    rows.map_values(|r: Vec<u8>| r@)
}

/// The rows of a two-dimensional color buffer.
pub open spec fn color_rows(rows: Seq<&[Color]>) -> Seq<Seq<Color>> {
    rows.map_values(|r: &[Color]| r@)
}

/// The rows of a two-dimensional color buffer held in vectors.
pub open spec fn color_vec_rows(rows: Seq<Vec<Color>>) -> Seq<Seq<Color>> {
    rows.map_values(|r: Vec<Color>| r@)
}

impl View for FontGlyphBuffer<'_> {
    type V = GlyphPixels;

    open spec fn view(&self) -> GlyphPixels {
        match self {
            FontGlyphBuffer::Blank => GlyphPixels::Blank,
            FontGlyphBuffer::Filled => GlyphPixels::Filled,
            FontGlyphBuffer::Static1DBitmap(b) => GlyphPixels::Bits(b@),
            FontGlyphBuffer::Slice1DBitmap(b) => GlyphPixels::Bits(b@),
            FontGlyphBuffer::Vec1DBitmap(b) => GlyphPixels::Bits(b@),
            FontGlyphBuffer::Owned1DBitmap(b) => GlyphPixels::Bits(b@),
            FontGlyphBuffer::Static1DGray(b) => GlyphPixels::Gray(b@),
            FontGlyphBuffer::Slice1DGray(b) => GlyphPixels::Gray(b@),
            FontGlyphBuffer::Vec1DGray(b) => GlyphPixels::Gray(b@),
            FontGlyphBuffer::Owned1DGray(b) => GlyphPixels::Gray(b@),
            FontGlyphBuffer::Static2DGray(b) => GlyphPixels::GrayRows(byte_rows(b@)),
            FontGlyphBuffer::Slice2DGray(b) => GlyphPixels::GrayRows(byte_rows(b@)),
            FontGlyphBuffer::Vec2DGray(b) => GlyphPixels::GrayRows(byte_vec_rows(b@)),
            FontGlyphBuffer::Owned2DGray(b) => GlyphPixels::GrayRows(byte_vec_rows(b@)),
            FontGlyphBuffer::Static1DSubpix(b) => GlyphPixels::Colors(b@),
            FontGlyphBuffer::Slice1DSubpix(b) => GlyphPixels::Colors(b@),
            FontGlyphBuffer::Vec1DSubpix(b) => GlyphPixels::Colors(b@),
            FontGlyphBuffer::Owned1DSubpix(b) => GlyphPixels::Colors(b@),
            FontGlyphBuffer::Static2DSubpix(b) => GlyphPixels::ColorRows(color_rows(b@)),
            FontGlyphBuffer::Slice2DSubpix(b) => GlyphPixels::ColorRows(color_rows(b@)),
            FontGlyphBuffer::Vec2DSubpix(b) => GlyphPixels::ColorRows(color_vec_rows(b@)),
            FontGlyphBuffer::Owned2DSubpix(b) => GlyphPixels::ColorRows(color_vec_rows(b@)),
            FontGlyphBuffer::Static1DColored(b) => GlyphPixels::Colors(b@),
            FontGlyphBuffer::Slice1DColored(b) => GlyphPixels::Colors(b@),
            FontGlyphBuffer::Vec1DColored(b) => GlyphPixels::Colors(b@),
            FontGlyphBuffer::Owned1DColored(b) => GlyphPixels::Colors(b@),
            FontGlyphBuffer::Static2DColored(b) => GlyphPixels::ColorRows(color_rows(b@)),
            FontGlyphBuffer::Slice2DColored(b) => GlyphPixels::ColorRows(color_rows(b@)),
            FontGlyphBuffer::Vec2DColored(b) => GlyphPixels::ColorRows(color_vec_rows(b@)),
            FontGlyphBuffer::Owned2DColored(b) => GlyphPixels::ColorRows(color_vec_rows(b@)),
        }
    }
}

/// The kind of pixels each buffer variant holds.
pub open spec fn buffer_type(b: FontGlyphBuffer) -> FontGlyphBufferType {
    match b {
        FontGlyphBuffer::Blank | FontGlyphBuffer::Filled => FontGlyphBufferType::Empty,
        FontGlyphBuffer::Static1DBitmap(_) | FontGlyphBuffer::Slice1DBitmap(_)
        | FontGlyphBuffer::Vec1DBitmap(_) | FontGlyphBuffer::Owned1DBitmap(_) => FontGlyphBufferType::Bitmap,
        FontGlyphBuffer::Static1DGray(_) | FontGlyphBuffer::Slice1DGray(_) | FontGlyphBuffer::Vec1DGray(_)
        | FontGlyphBuffer::Owned1DGray(_) | FontGlyphBuffer::Static2DGray(_) | FontGlyphBuffer::Slice2DGray(_)
        | FontGlyphBuffer::Vec2DGray(_) | FontGlyphBuffer::Owned2DGray(_) => FontGlyphBufferType::Gray,
        FontGlyphBuffer::Static1DSubpix(_) | FontGlyphBuffer::Slice1DSubpix(_)
        | FontGlyphBuffer::Vec1DSubpix(_) | FontGlyphBuffer::Owned1DSubpix(_)
        | FontGlyphBuffer::Static2DSubpix(_) | FontGlyphBuffer::Slice2DSubpix(_)
        | FontGlyphBuffer::Vec2DSubpix(_) | FontGlyphBuffer::Owned2DSubpix(_) => FontGlyphBufferType::Subpix,
        _ => FontGlyphBufferType::Colored,
    }
}

impl FontGlyphBuffer<'_> {
    /// The kind of pixels this buffer holds.
    pub fn ty(&self) -> (r: FontGlyphBufferType)
        ensures
            r == buffer_type(*self),
    {
        match self {
            FontGlyphBuffer::Blank | FontGlyphBuffer::Filled => FontGlyphBufferType::Empty,
            FontGlyphBuffer::Static1DBitmap(_) | FontGlyphBuffer::Slice1DBitmap(_)
            | FontGlyphBuffer::Vec1DBitmap(_) | FontGlyphBuffer::Owned1DBitmap(_) => FontGlyphBufferType::Bitmap,
            FontGlyphBuffer::Static1DGray(_) | FontGlyphBuffer::Slice1DGray(_) | FontGlyphBuffer::Vec1DGray(_)
            | FontGlyphBuffer::Owned1DGray(_) | FontGlyphBuffer::Static2DGray(_)
            | FontGlyphBuffer::Slice2DGray(_) | FontGlyphBuffer::Vec2DGray(_)
            | FontGlyphBuffer::Owned2DGray(_) => FontGlyphBufferType::Gray,
            FontGlyphBuffer::Static1DSubpix(_) | FontGlyphBuffer::Slice1DSubpix(_)
            | FontGlyphBuffer::Vec1DSubpix(_) | FontGlyphBuffer::Owned1DSubpix(_)
            | FontGlyphBuffer::Static2DSubpix(_) | FontGlyphBuffer::Slice2DSubpix(_)
            | FontGlyphBuffer::Vec2DSubpix(_) | FontGlyphBuffer::Owned2DSubpix(_) => FontGlyphBufferType::Subpix,
            _ => FontGlyphBufferType::Colored,
        }
    }
}

/// Pixel `i` of packed bits: white where its bit is set, the bits of each
/// byte taken from the most significant down.
pub open spec fn bit_pixel(bits: Seq<u8>, i: int) -> Color {
    if bits[i / 8] & (1u8 << ((7 - i % 8) as u8)) != 0 {
        opaque(255, 255, 255)
    } else {
        opaque(0, 0, 0)
    }
}

/// The pixel at column `dx` and row `dy` of a `width`-pixel-wide glyph.
pub open spec fn sample(p: GlyphPixels, dx: int, dy: int, width: int) -> Color {
    match p {
        GlyphPixels::Blank => opaque(0, 0, 0),
        GlyphPixels::Filled => opaque(255, 255, 255),
        GlyphPixels::Bits(s) => bit_pixel(s, dy * width + dx),
        GlyphPixels::Gray(s) => opaque(s[dy * width + dx], s[dy * width + dx], s[dy * width + dx]),
        GlyphPixels::GrayRows(rows) => opaque(rows[dy][dx], rows[dy][dx], rows[dy][dx]),
        GlyphPixels::Colors(s) => s[dy * width + dx],
        GlyphPixels::ColorRows(rows) => rows[dy][dx],
    }
}

/// The pixels hold a full `width` by `height` glyph, and the index of its
/// last pixel fits in 32 bits.
pub open spec fn holds(p: GlyphPixels, width: int, height: int) -> bool {
    width <= 0 || height <= 0 || {
        &&& width * height <= u32::MAX
        &&& match p {
            GlyphPixels::Blank | GlyphPixels::Filled => true,
            GlyphPixels::Bits(s) => width * height <= 8 * s.len(),
            GlyphPixels::Gray(s) => width * height <= s.len(),
            GlyphPixels::Colors(s) => width * height <= s.len(),
            GlyphPixels::GrayRows(rows) => height <= rows.len() && forall|r: int|
                0 <= r < height ==> width <= #[trigger] rows[r].len(),
            GlyphPixels::ColorRows(rows) => height <= rows.len() && forall|r: int|
                0 <= r < height ==> width <= #[trigger] rows[r].len(),
        }
    }
}

/// Half of `d`, rounded toward zero.
pub open spec fn half_toward_zero(d: int) -> int {
    if d >= 0 {
        d / 2
    } else {
        -((-d) / 2)
    }
}

/// A glyph as a font renderer returns it: its pixels, the character, and
/// where the pixels sit within the cell (offsets, size, advance and line
/// height, in pixels).
#[derive(PartialEq, Eq, PartialOrd, Ord, Hash)]
pub struct FontGlyph<'buf> {
    pub buf: FontGlyphBuffer<'buf>,
    pub code: char,
    /// Horizontal offset of the pixels from the cell's left edge.
    pub left: i32,
    /// Vertical offset of the pixels from the cell's top edge.
    pub top: i32,
    /// Width of the pixels.
    pub width: i32,
    /// Height of the pixels.
    pub height: i32,
    /// Distance from this glyph's left edge to the next one's.
    pub advance: i32,
    /// Distance from this line's baseline to the next one's.
    pub line_height: i32,
}

/// A glyph as plain values: its pixels and where they sit within the cell.
pub struct GlyphShape {
    pub pixels: GlyphPixels,
    pub left: i32,
    pub top: i32,
    pub width: i32,
    pub height: i32,
    pub advance: i32,
    pub line_height: i32,
}

/// The plain values of a glyph (all but the character it is for).
pub open spec fn shape_of(g: FontGlyph) -> GlyphShape {
    GlyphShape {
        pixels: g.buf@,
        left: g.left,
        top: g.top,
        width: g.width,
        height: g.height,
        advance: g.advance,
        line_height: g.line_height,
    }
}

/// The pixel of a glyph at cell position `(x, y)`: black outside its pixels.
pub open spec fn shape_pixel(g: GlyphShape, x: u32, y: u32) -> Color {
    let dx = (x as i32) - g.left;
    let dy = (y as i32) - g.top;
    if dx < 0 || dy < 0 || dx >= g.width || dy >= g.height {
        opaque(0, 0, 0)
    } else {
        sample(g.pixels, dx, dy, g.width as int)
    }
}

/// The glyph's pixel at cell position `(x, y)`: black outside its pixels.
pub open spec fn glyph_pixel(g: FontGlyph, x: u32, y: u32) -> Color {
    shape_pixel(shape_of(g), x, y)
}

/// The bit pixel at `idx`.
fn bit_at(bits: &[u8], idx: usize) -> (c: Color)
    requires
        idx < 8 * bits@.len(),
    ensures
        c == bit_pixel(bits@, idx as int),
{
    let shift = (7 - idx % 8) as u8;
    if bits[idx / 8] & (1u8 << shift) != 0 {
        Color::white()
    } else {
        Color::black()
    }
}

/// The gray pixel at column `dx`, row `dy` of a list of rows.
fn gray_in_rows(rows: &[&[u8]], dx: usize, dy: usize) -> (c: Color)
    requires
        dy < rows@.len(),
        dx < byte_rows(rows@)[dy as int].len(),
    ensures
        ({
            let v = byte_rows(rows@)[dy as int][dx as int];
            c == opaque(v, v, v)
        }),
{
    let row: &[u8] = rows[dy];
    Color::gray(row[dx])
}

/// The gray pixel at column `dx`, row `dy` of a list of row vectors.
fn gray_in_vec_rows(rows: &Vec<Vec<u8>>, dx: usize, dy: usize) -> (c: Color)
    requires
        dy < rows@.len(),
        dx < byte_vec_rows(rows@)[dy as int].len(),
    ensures
        ({
            let v = byte_vec_rows(rows@)[dy as int][dx as int];
            c == opaque(v, v, v)
        }),
{
    Color::gray(rows[dy][dx])
}

/// The color at column `dx`, row `dy` of a list of rows.
fn color_in_rows(rows: &[&[Color]], dx: usize, dy: usize) -> (c: Color)
    requires
        dy < rows@.len(),
        dx < color_rows(rows@)[dy as int].len(),
    ensures
        c == color_rows(rows@)[dy as int][dx as int],
{
    let row: &[Color] = rows[dy];
    row[dx]
}

/// The color at column `dx`, row `dy` of a list of row vectors.
fn color_in_vec_rows(rows: &Vec<Vec<Color>>, dx: usize, dy: usize) -> (c: Color)
    requires
        dy < rows@.len(),
        dx < color_vec_rows(rows@)[dy as int].len(),
    ensures
        c == color_vec_rows(rows@)[dy as int][dx as int],
{
    rows[dy][dx]
}

/// Whether the first `h` rows of a list of rows exist and are at least `w`
/// long.
pub open spec fn rows_reach<T>(rows: Seq<Seq<T>>, w: int, h: int) -> bool {
    h <= rows.len() && forall|r: int| 0 <= r < h ==> w <= #[trigger] rows[r].len()
}

/// Checks [`rows_reach`] on a list of byte rows.
fn byte_rows_reach(rows: &[&[u8]], w: usize, h: usize) -> (r: bool)
    ensures
        r == rows_reach(byte_rows(rows@), w as int, h as int),
{
    if h > rows.len() {
        return false;
    }
    let mut i: usize = 0;
    while i < h
        invariant
            i <= h <= rows@.len(),
            forall|r: int| 0 <= r < i ==> w <= #[trigger] byte_rows(rows@)[r].len(),
        decreases h - i,
    {
        let row: &[u8] = rows[i];
        if row.len() < w {
            assert(byte_rows(rows@)[i as int].len() < w);
            return false;
        }
        i += 1;
    }
    true
}

/// Checks [`rows_reach`] on a list of byte row vectors.
fn byte_vec_rows_reach(rows: &Vec<Vec<u8>>, w: usize, h: usize) -> (r: bool)
    ensures
        r == rows_reach(byte_vec_rows(rows@), w as int, h as int),
{
    if h > rows.len() {
        return false;
    }
    let mut i: usize = 0;
    while i < h
        invariant
            i <= h <= rows@.len(),
            forall|r: int| 0 <= r < i ==> w <= #[trigger] byte_vec_rows(rows@)[r].len(),
        decreases h - i,
    {
        if rows[i].len() < w {
            assert(byte_vec_rows(rows@)[i as int].len() < w);
            return false;
        }
        i += 1;
    }
    true
}

/// Checks [`rows_reach`] on a list of color rows.
fn color_rows_reach(rows: &[&[Color]], w: usize, h: usize) -> (r: bool)
    ensures
        r == rows_reach(color_rows(rows@), w as int, h as int),
{
    if h > rows.len() {
        return false;
    }
    let mut i: usize = 0;
    while i < h
        invariant
            i <= h <= rows@.len(),
            forall|r: int| 0 <= r < i ==> w <= #[trigger] color_rows(rows@)[r].len(),
        decreases h - i,
    {
        let row: &[Color] = rows[i];
        if row.len() < w {
            assert(color_rows(rows@)[i as int].len() < w);
            return false;
        }
        i += 1;
    }
    true
}

/// Checks [`rows_reach`] on a list of color row vectors.
fn color_vec_rows_reach(rows: &Vec<Vec<Color>>, w: usize, h: usize) -> (r: bool)
    ensures
        r == rows_reach(color_vec_rows(rows@), w as int, h as int),
{
    if h > rows.len() {
        return false;
    }
    let mut i: usize = 0;
    while i < h
        invariant
            i <= h <= rows@.len(),
            forall|r: int| 0 <= r < i ==> w <= #[trigger] color_vec_rows(rows@)[r].len(),
        decreases h - i,
    {
        if rows[i].len() < w {
            assert(color_vec_rows(rows@)[i as int].len() < w);
            return false;
        }
        i += 1;
    }
    true
}

impl FontGlyph<'_> {
    /// Whether the pixels hold the full glyph (see [`holds`]).
    pub fn holds_pixels(&self) -> (r: bool)
        ensures
            r == holds(self.buf@, self.width as int, self.height as int),
    {
        if self.width <= 0 || self.height <= 0 {
            return true;
        }
        proof {
            assert(0 < self.width * self.height < 0x1_0000_0000_0000_0000) by (nonlinear_arith)
                requires
                    0 < self.width <= i32::MAX,
                    0 < self.height <= i32::MAX,
            ;
        }
        let n: u64 = (self.width as u64) * (self.height as u64);
        if n > 0xffff_ffff {
            return false;
        }
        let w = self.width as usize;
        let h = self.height as usize;
        let nn = n as usize;
        match &self.buf {
            FontGlyphBuffer::Blank | FontGlyphBuffer::Filled => true,
            FontGlyphBuffer::Static1DBitmap(b) => nn / 8 < b.len() || (nn % 8 == 0 && nn / 8 <= b.len()),
            FontGlyphBuffer::Slice1DBitmap(b) => nn / 8 < b.len() || (nn % 8 == 0 && nn / 8 <= b.len()),
            FontGlyphBuffer::Vec1DBitmap(b) => nn / 8 < b.len() || (nn % 8 == 0 && nn / 8 <= b.len()),
            FontGlyphBuffer::Owned1DBitmap(b) => nn / 8 < b.len() || (nn % 8 == 0 && nn / 8 <= b.len()),
            FontGlyphBuffer::Static1DGray(b) => nn <= b.len(),
            FontGlyphBuffer::Slice1DGray(b) => nn <= b.len(),
            FontGlyphBuffer::Vec1DGray(b) => nn <= b.len(),
            FontGlyphBuffer::Owned1DGray(b) => nn <= b.len(),
            FontGlyphBuffer::Static2DGray(b) => byte_rows_reach(b, w, h),
            FontGlyphBuffer::Slice2DGray(b) => byte_rows_reach(b, w, h),
            FontGlyphBuffer::Vec2DGray(b) => byte_vec_rows_reach(b, w, h),
            FontGlyphBuffer::Owned2DGray(b) => byte_vec_rows_reach(b, w, h),
            FontGlyphBuffer::Static1DSubpix(b) => nn <= b.len(),
            FontGlyphBuffer::Slice1DSubpix(b) => nn <= b.len(),
            FontGlyphBuffer::Vec1DSubpix(b) => nn <= b.len(),
            FontGlyphBuffer::Owned1DSubpix(b) => nn <= b.len(),
            FontGlyphBuffer::Static2DSubpix(b) => color_rows_reach(b, w, h),
            FontGlyphBuffer::Slice2DSubpix(b) => color_rows_reach(b, w, h),
            FontGlyphBuffer::Vec2DSubpix(b) => color_vec_rows_reach(b, w, h),
            FontGlyphBuffer::Owned2DSubpix(b) => color_vec_rows_reach(b, w, h),
            FontGlyphBuffer::Static1DColored(b) => nn <= b.len(),
            FontGlyphBuffer::Slice1DColored(b) => nn <= b.len(),
            FontGlyphBuffer::Vec1DColored(b) => nn <= b.len(),
            FontGlyphBuffer::Owned1DColored(b) => nn <= b.len(),
            FontGlyphBuffer::Static2DColored(b) => color_rows_reach(b, w, h),
            FontGlyphBuffer::Slice2DColored(b) => color_rows_reach(b, w, h),
            FontGlyphBuffer::Vec2DColored(b) => color_vec_rows_reach(b, w, h),
            FontGlyphBuffer::Owned2DColored(b) => color_vec_rows_reach(b, w, h),
        }
    }
}

impl FontGlyph<'_> {
    /// The pixel at column `dx`, row `dy` of the glyph's pixels.
    fn sample_at(&self, dx: u32, dy: u32) -> (c: Color)
        requires
            0 <= dx < self.width,
            0 <= dy < self.height,
            holds(self.buf@, self.width as int, self.height as int),
        ensures
            c == sample(self.buf@, dx as int, dy as int, self.width as int),
    {
        let width = self.width as u32;
        proof {
            assert(dy * width + dx < width * self.height) by (nonlinear_arith)
                requires
                    dy < self.height,
                    dx < width,
            ;
        }
        let idx = (dy * width + dx) as usize;
        let (x, y) = (dx as usize, dy as usize);
        match &self.buf {
            FontGlyphBuffer::Blank => Color::black(),
            FontGlyphBuffer::Filled => Color::white(),
            FontGlyphBuffer::Static1DBitmap(b) => bit_at(b, idx),
            FontGlyphBuffer::Slice1DBitmap(b) => bit_at(b, idx),
            FontGlyphBuffer::Vec1DBitmap(b) => bit_at(b.as_slice(), idx),
            FontGlyphBuffer::Owned1DBitmap(b) => bit_at(b.as_slice(), idx),
            FontGlyphBuffer::Static1DGray(b) => Color::gray(b[idx]),
            FontGlyphBuffer::Slice1DGray(b) => Color::gray(b[idx]),
            FontGlyphBuffer::Vec1DGray(b) => Color::gray(b[idx]),
            FontGlyphBuffer::Owned1DGray(b) => Color::gray(b[idx]),
            FontGlyphBuffer::Static2DGray(b) => gray_in_rows(b, x, y),
            FontGlyphBuffer::Slice2DGray(b) => gray_in_rows(b, x, y),
            FontGlyphBuffer::Vec2DGray(b) => gray_in_vec_rows(b, x, y),
            FontGlyphBuffer::Owned2DGray(b) => gray_in_vec_rows(b, x, y),
            FontGlyphBuffer::Static1DSubpix(b) => b[idx],
            FontGlyphBuffer::Slice1DSubpix(b) => b[idx],
            FontGlyphBuffer::Vec1DSubpix(b) => b[idx],
            FontGlyphBuffer::Owned1DSubpix(b) => b[idx],
            FontGlyphBuffer::Static2DSubpix(b) => color_in_rows(b, x, y),
            FontGlyphBuffer::Slice2DSubpix(b) => color_in_rows(b, x, y),
            FontGlyphBuffer::Vec2DSubpix(b) => color_in_vec_rows(b, x, y),
            FontGlyphBuffer::Owned2DSubpix(b) => color_in_vec_rows(b, x, y),
            FontGlyphBuffer::Static1DColored(b) => b[idx],
            FontGlyphBuffer::Slice1DColored(b) => b[idx],
            FontGlyphBuffer::Vec1DColored(b) => b[idx],
            FontGlyphBuffer::Owned1DColored(b) => b[idx],
            FontGlyphBuffer::Static2DColored(b) => color_in_rows(b, x, y),
            FontGlyphBuffer::Slice2DColored(b) => color_in_rows(b, x, y),
            FontGlyphBuffer::Vec2DColored(b) => color_in_vec_rows(b, x, y),
            FontGlyphBuffer::Owned2DColored(b) => color_in_vec_rows(b, x, y),
        }
    }

    /// The pixel at position `(x, y)` of the cell: black outside the
    /// glyph's pixels.
    pub fn get(&self, x: u32, y: u32) -> (c: Color)
        requires
            holds(self.buf@, self.width as int, self.height as int),
            i32::MIN <= (x as i32) - self.left <= i32::MAX,
            i32::MIN <= (y as i32) - self.top <= i32::MAX,
        ensures
            c == glyph_pixel(*self, x, y),
    {
        let dx = x as i32 - self.left;
        let dy = y as i32 - self.top;
        if dx < 0 || dy < 0 || dx >= self.width || dy >= self.height {
            return Color::black();
        }
        self.sample_at(dx as u32, dy as u32)
    }

    /// The glyph centred in a cell of `target_width` by `target_height`
    /// pixels: the offsets move by half the difference between the target
    /// and the glyph's advance and line height (rounded toward zero), and
    /// the advance and line height become the target's.
    pub fn align_to(self, target_width: u32, target_height: u32) -> (r: Self)
        requires
            i32::MIN <= (target_width as i32) - self.advance <= i32::MAX,
            i32::MIN <= (target_height as i32) - self.line_height <= i32::MAX,
            i32::MIN <= self.left + half_toward_zero((target_width as i32) - self.advance) <= i32::MAX,
            i32::MIN <= self.top + half_toward_zero((target_height as i32) - self.line_height) <= i32::MAX,
        ensures
            r.buf == self.buf,
            r.code == self.code,
            r.left == self.left + half_toward_zero((target_width as i32) - self.advance),
            r.top == self.top + half_toward_zero((target_height as i32) - self.line_height),
            r.width == self.width,
            r.height == self.height,
            r.advance == target_width as i32,
            r.line_height == target_height as i32,
    {
        let dw = target_width as i32 - self.advance;
        let dh = target_height as i32 - self.line_height;
        let half_w = if dw >= 0 { dw / 2 } else { -((-(dw as i64)) / 2) as i32 };
        let half_h = if dh >= 0 { dh / 2 } else { -((-(dh as i64)) / 2) as i32 };
        FontGlyph {
            buf: self.buf,
            code: self.code,
            left: self.left + half_w,
            top: self.top + half_h,
            width: self.width,
            height: self.height,
            advance: target_width as i32,
            line_height: target_height as i32,
        }
    }
}

/// A source of glyphs: the cell size it draws for, the size of a given
/// character, and the glyph itself.
pub trait FontRenderer {
    /// The cell size, in pixels, width first.
    spec fn cell_size(&self) -> (usize, usize);

    /// The glyph this renderer draws for `ch` in the given style.
    spec fn glyph_shape(&self, ch: char, bold: bool, italic: bool) -> GlyphShape;

    /// The cell size, in pixels.
    fn size(&self) -> (r: (usize, usize))
        ensures
            r == self.cell_size(),
    ;

    /// The size of `ch` in the given style, if the renderer has it.
    spec fn glyph_size(&self, ch: char, bold: bool, italic: bool) -> Option<(usize, usize)>;

    /// The size of `ch` in the given style, if the renderer has it.
    fn sizeof(&self, ch: char, bold: bool, italic: bool) -> (r: Option<(usize, usize)>)
        ensures
            r == self.glyph_size(ch, bold, italic),
    ;

    /// The glyph of `ch` in the given style; the renderer keeps its cell
    /// size and the glyphs it draws.
    fn get(&mut self, ch: char, bold: bool, italic: bool) -> (r: FontGlyph<'_>)
        ensures
            shape_of(r) == old(self).glyph_shape(ch, bold, italic),
            final(self).cell_size() == old(self).cell_size(),
            forall|c: char, b: bool, i: bool|
                #[trigger] final(self).glyph_shape(c, b, i) == old(self).glyph_shape(c, b, i),
            forall|c: char, b: bool, i: bool|
                #[trigger] final(self).glyph_size(c, b, i) == old(self).glyph_size(c, b, i),
    ;
}

/// A renderer that draws every character blank, in cells of a fixed size.
pub struct EmptyFontRenderer {
    width: usize,
    height: usize,
}

impl View for EmptyFontRenderer {
    type V = (usize, usize);

    /// The cell size, width first.
    closed spec fn view(&self) -> (usize, usize) {
        (self.width, self.height)
    }
}

impl EmptyFontRenderer {
    /// A blank renderer with cells of `width` by `height` pixels.
    pub fn with_size(width: usize, height: usize) -> (r: EmptyFontRenderer)
        ensures
            r@ == (width, height),
    {
        EmptyFontRenderer { width, height }
    }

    /// A blank renderer with cells of `width` by `height` pixels (see
    /// [`EmptyFontRenderer::with_size`]).
    pub fn new(width: usize, height: usize) -> (r: Box<dyn FontRenderer>) {
        Box::new(EmptyFontRenderer::with_size(width, height))
    }
}

impl FontRenderer for EmptyFontRenderer {
    open spec fn cell_size(&self) -> (usize, usize) {
        self@
    }

    open spec fn glyph_size(&self, ch: char, bold: bool, italic: bool) -> Option<(usize, usize)> {
        Some(self@)
    }

    /// Every character is blank, as large as the cell.
    open spec fn glyph_shape(&self, ch: char, bold: bool, italic: bool) -> GlyphShape {
        GlyphShape {
            pixels: GlyphPixels::Blank,
            left: 0,
            top: 0,
            width: self@.0 as i32,
            height: self@.1 as i32,
            advance: self@.0 as i32,
            line_height: self@.1 as i32,
        }
    }

    fn size(&self) -> (r: (usize, usize))
        ensures
            r == self@,
    {
        (self.width, self.height)
    }

    fn sizeof(&self, ch: char, bold: bool, italic: bool) -> (r: Option<(usize, usize)>)
        ensures
            r == Some(self@),
    {
        Some((self.width, self.height))
    }

    fn get(&mut self, ch: char, bold: bool, italic: bool) -> (r: FontGlyph<'_>)
        ensures
            r == (FontGlyph {
                buf: FontGlyphBuffer::Blank,
                code: ch,
                left: 0,
                top: 0,
                width: old(self)@.0 as i32,
                height: old(self)@.1 as i32,
                advance: old(self)@.0 as i32,
                line_height: old(self)@.1 as i32,
            }),
    {
        FontGlyph {
            buf: FontGlyphBuffer::Blank,
            code: ch,
            top: 0,
            left: 0,
            width: self.width as i32,
            height: self.height as i32,
            advance: self.width as i32,
            line_height: self.height as i32,
        }
    }
}

/// The IBM VGA 8x16 hardware font. Its glyph data is not filled in yet:
/// every character comes out blank, 8 by 16 pixels.
#[allow(non_camel_case_types)]
pub struct IBM_VGA_8x16;

impl IBM_VGA_8x16 {
    /// The font.
    pub fn font() -> (r: IBM_VGA_8x16)
        ensures
            r.cell_size() == (8usize, 16usize),
    {
        IBM_VGA_8x16
    }

    /// The renderer (see [`IBM_VGA_8x16::font`]).
    pub fn new() -> (r: Box<dyn FontRenderer>) {
        Box::new(IBM_VGA_8x16::font())
    }
}

impl FontRenderer for IBM_VGA_8x16 {
    open spec fn cell_size(&self) -> (usize, usize) {
        (8, 16)
    }

    open spec fn glyph_size(&self, ch: char, bold: bool, italic: bool) -> Option<(usize, usize)> {
        Some((8, 16))
    }

    /// Every character is blank, 8 by 16 pixels.
    open spec fn glyph_shape(&self, ch: char, bold: bool, italic: bool) -> GlyphShape {
        GlyphShape { pixels: GlyphPixels::Blank, left: 0, top: 0, width: 8, height: 16, advance: 8, line_height: 16 }
    }

    fn size(&self) -> (r: (usize, usize))
        ensures
            r == (8usize, 16usize),
    {
        (8, 16)
    }

    fn sizeof(&self, ch: char, bold: bool, italic: bool) -> (r: Option<(usize, usize)>)
        ensures
            r == Some((8usize, 16usize)),
    {
        Some((8, 16))
    }

    fn get(&mut self, ch: char, bold: bool, italic: bool) -> (r: FontGlyph<'_>)
        ensures
            r == (FontGlyph {
                buf: FontGlyphBuffer::Blank,
                code: ch,
                left: 0,
                top: 0,
                width: 8,
                height: 16,
                advance: 8,
                line_height: 16,
            }),
    {
        FontGlyph {
            buf: FontGlyphBuffer::Blank,
            code: ch,
            top: 0,
            left: 0,
            width: 8,
            height: 16,
            advance: 8,
            line_height: 16,
        }
    }
}

/// The pixels of `ch` in Noto Sans Mono at raster height 20, bold or regular,
/// as the embedded font data holds them.
pub uninterp spec fn noto_pixels(ch: char, bold: bool) -> Seq<u8>;

/// `noto_sans_mono_bitmap::get_raster` at raster height 20 in the bold or the
/// regular weight, and the glyph's `pixels()`: 9 by 20 luminance bytes, row
/// after row. With the font features this crate enables, the font knows the
/// printable ASCII characters and no others.
#[verifier::external_body]
fn noto_raster(ch: char, bold: bool) -> (r: Option<&'static [u8]>)
    ensures
        r is Some <==> 0x20 <= ch as u32 <= 0x7e,
        r matches Some(p) ==> p@ == noto_pixels(ch, bold) && p@.len() == 180,
{
    let weight = if bold { FontWeight::Bold } else { FontWeight::Regular };
    match get_raster(ch, weight, RasterHeight::Size20) {
        Some(raster) => Some(raster.pixels()),
        None => None,
    }
}

/// `noto_sans_mono_bitmap::get_raster_width` for the regular weight at raster
/// height 20: 9 pixels.
#[verifier::external_body]
fn noto_width() -> (w: usize)
    ensures
        w == 9,
{
    get_raster_width(FontWeight::Regular, RasterHeight::Size20)
}

/// Noto Sans Mono from embedded bitmaps, in cells of 9 by 20 pixels.
pub struct BitmapFont;

impl BitmapFont {
    /// The font.
    pub fn font() -> (r: BitmapFont)
        ensures
            r.cell_size() == (9usize, 20usize),
    {
        BitmapFont
    }

    /// The renderer (see [`BitmapFont::font`]).
    pub fn new() -> (r: Box<dyn FontRenderer>) {
        Box::new(BitmapFont::font())
    }
}

impl FontRenderer for BitmapFont {
    open spec fn cell_size(&self) -> (usize, usize) {
        (9, 20)
    }

    open spec fn glyph_size(&self, ch: char, bold: bool, italic: bool) -> Option<(usize, usize)> {
        Some((9, 20))
    }

    /// The gray glyph of a printable ASCII character, blank for any other,
    /// 9 by 20 pixels; italic is ignored.
    open spec fn glyph_shape(&self, ch: char, bold: bool, italic: bool) -> GlyphShape {
        GlyphShape {
            pixels: if 0x20 <= ch as u32 <= 0x7e {
                GlyphPixels::Gray(noto_pixels(ch, bold))
            } else {
                GlyphPixels::Blank
            },
            left: 0,
            top: 0,
            width: 9,
            height: 20,
            advance: 9,
            line_height: 20,
        }
    }

    fn size(&self) -> (r: (usize, usize))
        ensures
            r == (9usize, 20usize),
    {
        (noto_width(), 20)
    }

    fn sizeof(&self, ch: char, bold: bool, italic: bool) -> (r: Option<(usize, usize)>)
        ensures
            r == Some((9usize, 20usize)),
    {
        Some((noto_width(), 20))
    }

    /// The gray glyph of a printable ASCII character, blank for any other;
    /// italic is ignored.
    fn get(&mut self, ch: char, bold: bool, italic: bool) -> (r: FontGlyph<'_>)
        ensures
            r.buf@ == (if 0x20 <= ch as u32 <= 0x7e {
                GlyphPixels::Gray(noto_pixels(ch, bold))
            } else {
                GlyphPixels::Blank
            }),
            r.code == ch,
            r.left == 0 && r.top == 0,
            r.width == 9 && r.height == 20,
            r.advance == 9 && r.line_height == 20,
            holds(r.buf@, 9, 20),
    {
        let buf = match noto_raster(ch, bold) {
            Some(pixels) => FontGlyphBuffer::Static1DGray(pixels),
            None => FontGlyphBuffer::Blank,
        };
        let width = noto_width() as i32;
        FontGlyph { buf, code: ch, top: 0, left: 0, width, height: 20, advance: width, line_height: 20 }
    }
}

} // verus!
