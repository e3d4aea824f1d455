//! Pixel surfaces: a buffer of colors in rows of `pitch` pixels, of which
//! the first `width` of each of `height` rows are drawn on.

use vstd::prelude::*;

use crate::cell::CharFlags;
use crate::color::{transparent, Color};
use crate::render::{Cell, RenderResult};

verus! {

/// A drawable surface that owns its pixel buffer.
pub struct OwnedDrawable {
    /// The pixels, row after row.
    pub buf: Vec<Color>,
    /// Width of the drawn area, in pixels.
    pub width: usize,
    /// Height of the drawn area, in pixels.
    pub height: usize,
    /// Pixels from the start of one row to the start of the next.
    pub pitch: usize,
}

/// The pitch a surface gets: `pitch`, or `width` when `pitch` is zero.
pub open spec fn effective_pitch(width: usize, pitch: usize) -> int {
    if pitch == 0 { width as int } else { pitch as int }
}

/// The pitch is zero or at least the width, and the size is not zero.
pub open spec fn shape_ok(width: usize, height: usize, pitch: usize) -> bool {
    &&& pitch == 0 || pitch >= width
    &&& width > 0 && height > 0
}

/// Proves `y * pitch + x < height * pitch <= len` for a pixel of the drawn
/// area.
proof fn lemma_index(x: int, y: int, width: int, height: int, pitch: int, len: int)
    requires
        0 <= x < width <= pitch,
        0 <= y < height,
        height * pitch <= len,
    ensures
        0 <= y * pitch + x < len,
{
    assert(y * pitch + x < len) by (nonlinear_arith)
        requires
            0 <= x < width <= pitch,
            0 <= y < height,
            height * pitch <= len,
    ;
    assert(0 <= y * pitch) by (nonlinear_arith)
        requires
            0 <= y,
            0 <= pitch,
    ;
}

impl OwnedDrawable {
    /// The pitch is at least the width, the size is not zero and the buffer
    /// holds `height` rows.
    pub open spec fn wf(&self) -> bool {
        &&& self.pitch >= self.width
        &&& self.width > 0 && self.height > 0
        &&& self.height * self.pitch <= self.buf@.len()
    }

    /// The index of pixel `(x, y)` in the buffer.
    pub open spec fn index_of(&self, x: usize, y: usize) -> int {
        y * self.pitch + x
    }

    /// A surface of `width` by `height` pixels, all transparent black, with
    /// rows of `pitch` pixels (`width` when `pitch` is zero).
    pub fn with_capacity(width: usize, height: usize, pitch: usize) -> (r: Self)
        requires
            shape_ok(width, height, pitch),
            height * effective_pitch(width, pitch) <= usize::MAX,
        ensures
            r.wf(),
            r.width == width && r.height == height && r.pitch == effective_pitch(width, pitch),
            r.buf@ == Seq::new((height * effective_pitch(width, pitch)) as nat, |_i: int| transparent()),
    {
        let pitch = if pitch == 0 { width } else { pitch };
        let len = height * pitch;
        let mut buf: Vec<Color> = Vec::new();
        let mut i: usize = 0;
        while i < len
            invariant
                i <= len,
                buf@ == Seq::new(i as nat, |_i: int| transparent()),
            decreases len - i,
        {
            buf.push(Color::zero());
            i += 1;
            assert(buf@ =~= Seq::new(i as nat, |_i: int| transparent()));
        }
        OwnedDrawable { buf, width, height, pitch }
    }

    /// A surface over an existing buffer, which must hold `height` rows of
    /// `pitch` pixels (`width` when `pitch` is zero).
    pub fn from_vec(buf: Vec<Color>, width: usize, height: usize, pitch: usize) -> (r: Self)
        requires
            shape_ok(width, height, pitch),
            height * effective_pitch(width, pitch) <= buf@.len(),
        ensures
            r.wf(),
            r.buf@ == buf@,
            r.width == width && r.height == height && r.pitch == effective_pitch(width, pitch),
    {
        let pitch = if pitch == 0 { width } else { pitch };
        OwnedDrawable { buf, width, height, pitch }
    }

    /// The pixel buffer.
    pub fn into_vec(self) -> (r: Vec<Color>)
        ensures
            r@ == self.buf@,
    {
        self.buf
    }

    /// The color of pixel `(x, y)`.
    pub fn get(&self, x: usize, y: usize) -> (r: Color)
        requires
            self.wf(),
            x < self.width,
            y < self.height,
        ensures
            r == self.buf@[self.index_of(x, y)],
    {
        let n = self.buf.len();
        proof {
            lemma_index(x as int, y as int, self.width as int, self.height as int, self.pitch as int, n as int);
        }
        let row = y * self.pitch;
        self.buf[row + x]
    }

    /// Sets pixel `(x, y)` to `color`.
    pub fn set(&mut self, x: usize, y: usize, color: Color)
        requires
            old(self).wf(),
            x < old(self).width,
            y < old(self).height,
        ensures
            final(self).wf(),
            final(self).buf@ == old(self).buf@.update(old(self).index_of(x, y), color),
            final(self).width == old(self).width && final(self).height == old(self).height,
            final(self).pitch == old(self).pitch,
    {
        let n = self.buf.len();
        proof {
            lemma_index(x as int, y as int, self.width as int, self.height as int, self.pitch as int, n as int);
        }
        let row = y * self.pitch;
        let i = row + x;
        self.buf.set(i, color);
    }

    /// Sets the pixel at `index` of the buffer to `color`.
    pub fn set_index(&mut self, index: usize, color: Color)
        requires
            index < old(self).buf@.len(),
        ensures
            final(self).buf@ == old(self).buf@.update(index as int, color),
            final(self).width == old(self).width && final(self).height == old(self).height,
            final(self).pitch == old(self).pitch,
    {
        self.buf.set(index, color);
    }

    /// Sets every pixel of the buffer to `color`.
    pub fn clear(&mut self, color: Color)
        ensures
            final(self).buf@ == Seq::new(old(self).buf@.len(), |_i: int| color),
            final(self).width == old(self).width && final(self).height == old(self).height,
            final(self).pitch == old(self).pitch,
    {
        let mut i: usize = 0;
        let n = self.buf.len();
        while i < n
            invariant
                i <= n,
                n == old(self).buf@.len(),
                self.buf@.len() == n,
                self.width == old(self).width && self.height == old(self).height,
                self.pitch == old(self).pitch,
                forall|j: int| 0 <= j < i ==> self.buf@[j] == color,
            decreases n - i,
        {
            self.buf.set(i, color);
            i += 1;
        }
        assert(self.buf@ =~= Seq::new(old(self).buf@.len(), |_i: int| color));
    }

    /// Replaces every pixel `p` of the buffer with `f(p)`.
    pub fn map(&mut self, f: impl Fn(Color) -> Color)
        requires
            forall|i: int| 0 <= i < old(self).buf@.len() ==> f.requires((old(self).buf@[i],)),
        ensures
            final(self).buf@.len() == old(self).buf@.len(),
            forall|i: int| 0 <= i < old(self).buf@.len() ==> f.ensures((old(self).buf@[i],), #[trigger] final(self).buf@[i]),
            final(self).width == old(self).width && final(self).height == old(self).height,
            final(self).pitch == old(self).pitch,
    {
        let mut i: usize = 0;
        let n = self.buf.len();
        while i < n
            invariant
                i <= n,
                n == old(self).buf@.len(),
                self.buf@.len() == n,
                self.width == old(self).width && self.height == old(self).height,
                self.pitch == old(self).pitch,
                forall|j: int| 0 <= j < n ==> f.requires((old(self).buf@[j],)),
                forall|j: int| 0 <= j < i ==> f.ensures((old(self).buf@[j],), #[trigger] self.buf@[j]),
                forall|j: int| i <= j < n ==> self.buf@[j] == old(self).buf@[j],
            decreases n - i,
        {
            let p = self.buf[i];
            let q = f(p);
            self.buf.set(i, q);
            i += 1;
        }
    }

    /// Each pixel of the buffer with its column and row, counted in rows of
    /// `width` pixels.
    pub fn iter(&self) -> (r: Vec<(usize, usize, Color)>)
        requires
            self.width > 0,
        ensures
            r@.len() == self.buf@.len(),
            forall|i: int|
                0 <= i < r@.len() ==> #[trigger] r@[i] == ((i % self.width as int) as usize, (i / self.width as int) as usize, self.buf@[i]),
    {
        let mut r: Vec<(usize, usize, Color)> = Vec::new();
        let mut i: usize = 0;
        let n = self.buf.len();
        while i < n
            invariant
                i <= n,
                n == self.buf@.len(),
                self.width > 0,
                r@.len() == i,
                forall|j: int|
                    0 <= j < i ==> #[trigger] r@[j] == ((j % self.width as int) as usize, (j / self.width as int) as usize, self.buf@[j]),
            decreases n - i,
        {
            r.push((i % self.width, i / self.width, self.buf[i]));
            i += 1;
        }
        r
    }
}


/// A drawable surface over a borrowed pixel buffer.
pub struct Drawable<'buf> {
    /// The pixels, row after row.
    pub buf: &'buf mut [Color],
    /// Width of the drawn area, in pixels.
    pub width: usize,
    /// Height of the drawn area, in pixels.
    pub height: usize,
    /// Pixels from the start of one row to the start of the next.
    pub pitch: usize,
}

impl<'buf> Drawable<'buf> {
    /// The size is not zero, rows are at least as wide as the drawn area,
    /// and the buffer holds every row.
    pub open spec fn wf(&self) -> bool {
        &&& self.width > 0 && self.height > 0
        &&& self.pitch >= self.width
        &&& self.buf@.len() >= self.height * self.pitch
    }

    /// The pixels of the buffer.
    pub open spec fn pixels(&self) -> Seq<Color> {
        self.buf@
    }

    /// A surface of `width` by `height` pixels over `buf`, with rows of
    /// `pitch` pixels (`width` when `pitch` is zero). The buffer must hold
    /// `height` rows of that many pixels.
    pub fn new(buf: &'buf mut [Color], width: usize, height: usize, pitch: usize) -> (r: Self)
        requires
            shape_ok(width, height, pitch),
            old(buf)@.len() >= height * effective_pitch(width, pitch),
        ensures
            r.buf@ == old(buf)@,
            r.width == width && r.height == height && r.pitch == effective_pitch(width, pitch),
            r.wf(),
    {
        let pitch = if pitch == 0 { width } else { pitch };
        Drawable { buf, width, height, pitch }
    }

    /// The color of pixel `(x, y)`, which must lie in the buffer.
    pub fn get(&self, x: usize, y: usize) -> (r: Color)
        requires
            x < self.width,
            y < self.height,
            y * self.pitch + x < self.pixels().len(),
        ensures
            r == self.pixels()[y * self.pitch + x],
    {
        let n = self.buf.len();
        assert(0 <= y * self.pitch) by (nonlinear_arith);
        let row = y * self.pitch;
        self.buf[row + x]
    }

    /// Sets pixel `(x, y)`, which must lie in the buffer, to `color`.
    pub fn set(&mut self, x: usize, y: usize, color: Color)
        requires
            x < old(self).width,
            y < old(self).height,
            y * old(self).pitch + x < old(self).buf@.len(),
        ensures
            final(self).buf@ == old(self).buf@.update(y * old(self).pitch + x, color),
            final(self).width == old(self).width && final(self).height == old(self).height,
            final(self).pitch == old(self).pitch,
    {
        let n = self.buf.len();
        assert(0 <= y * self.pitch) by (nonlinear_arith);
        let row = y * self.pitch;
        self.buf[row + x] = color;
    }

    /// Sets the pixel at `index` of the buffer to `color`.
    pub fn set_index(&mut self, index: usize, color: Color)
        requires
            index < old(self).buf@.len(),
        ensures
            final(self).buf@ == old(self).buf@.update(index as int, color),
            final(self).width == old(self).width && final(self).height == old(self).height,
            final(self).pitch == old(self).pitch,
    {
        self.buf[index] = color;
    }

    /// Sets every pixel of the buffer to `color`.
    pub fn clear(&mut self, color: Color)
        ensures
            final(self).buf@ == Seq::new(old(self).buf@.len(), |_i: int| color),
            final(self).width == old(self).width && final(self).height == old(self).height,
            final(self).pitch == old(self).pitch,
    {
        let mut i: usize = 0;
        let n = self.buf.len();
        while i < n
            invariant
                i <= n,
                n == old(self).buf@.len(),
                self.buf@.len() == n,
                self.width == old(self).width && self.height == old(self).height,
                self.pitch == old(self).pitch,
                forall|j: int| 0 <= j < i ==> self.buf@[j] == color,
            decreases n - i,
        {
            self.buf[i] = color;
            i += 1;
        }
        assert(self.buf@ =~= Seq::new(old(self).buf@.len(), |_i: int| color));
    }

    /// Replaces every pixel `p` of the buffer with `f(p)`.
    pub fn map(&mut self, f: impl Fn(Color) -> Color)
        requires
            forall|i: int| 0 <= i < old(self).buf@.len() ==> f.requires((old(self).buf@[i],)),
        ensures
            final(self).buf@.len() == old(self).buf@.len(),
            forall|i: int| 0 <= i < old(self).buf@.len() ==> f.ensures((old(self).buf@[i],), #[trigger] final(self).buf@[i]),
            final(self).width == old(self).width && final(self).height == old(self).height,
            final(self).pitch == old(self).pitch,
    {
        let mut i: usize = 0;
        let n = self.buf.len();
        while i < n
            invariant
                i <= n,
                n == old(self).buf@.len(),
                self.buf@.len() == n,
                self.width == old(self).width && self.height == old(self).height,
                self.pitch == old(self).pitch,
                forall|j: int| 0 <= j < n ==> f.requires((old(self).buf@[j],)),
                forall|j: int| 0 <= j < i ==> f.ensures((old(self).buf@[j],), #[trigger] self.buf@[j]),
                forall|j: int| i <= j < n ==> self.buf@[j] == old(self).buf@[j],
            decreases n - i,
        {
            let p = self.buf[i];
            let q = f(p);
            self.buf[i] = q;
            i += 1;
        }
    }

    /// Each pixel of the buffer with its column and row, counted in rows of
    /// `width` pixels.
    pub fn iter(&self) -> (r: Vec<(usize, usize, Color)>)
        requires
            self.width > 0,
        ensures
            r@.len() == self.pixels().len(),
            forall|i: int|
                0 <= i < r@.len() ==> #[trigger] r@[i] == ((i % self.width as int) as usize, (i / self.width as int) as usize, self.pixels()[i]),
    {
        let mut r: Vec<(usize, usize, Color)> = Vec::new();
        let mut i: usize = 0;
        let n = self.buf.len();
        while i < n
            invariant
                i <= n,
                n == self.buf@.len(),
                self.width > 0,
                r@.len() == i,
                forall|j: int|
                    0 <= j < i ==> #[trigger] r@[j] == ((j % self.width as int) as usize, (j / self.width as int) as usize, self.buf@[j]),
            decreases n - i,
        {
            r.push((i % self.width, i / self.width, self.buf[i]));
            i += 1;
        }
        r
    }
}

// ---------------------------------------------------------------- painting

/// Whether buffer index `i` lies in the rectangle of `w` by `h` pixels whose
/// top left pixel is at column `x0` and row `y0`, in rows of `pitch` pixels.
pub open spec fn in_rect(i: int, pitch: int, x0: int, y0: int, w: int, h: int) -> bool {
    &&& y0 <= i / pitch < y0 + h
    &&& x0 <= i % pitch < x0 + w
}

/// Subpixel blending of one channel: the mask value `k` mixes foreground
/// `f` over background `b`, `(k * (f - b) + b * 255 + 255) >> 8`.
pub open spec fn blend_channel(k: u8, f: u8, b: u8) -> u8 {
    ((k as int * (f as int - b as int) + b as int * 255 + 255) / 256) as u8
}

/// A mask color blended channel by channel (alpha too).
pub open spec fn blend_mask(k: Color, fg: Color, bg: Color) -> Color {
    Color {
        r: blend_channel(k.r, fg.r, bg.r),
        g: blend_channel(k.g, fg.g, bg.g),
        b: blend_channel(k.b, fg.b, bg.b),
        a: blend_channel(k.a, fg.a, bg.a),
    }
}

/// What a rectangle is painted with: one color, a mask blended between two
/// colors, or colors copied; masks and colors are given row after row, as
/// wide as the rectangle.
pub enum Paint {
    Solid(Color),
    Blend(Seq<Color>, Color, Color),
    Copy(Seq<Color>),
}

/// The color painted at column `dx`, row `dy` of a rectangle `w` pixels wide.
pub open spec fn paint_pixel(p: Paint, w: int, dx: int, dy: int) -> Color {
    match p {
        Paint::Solid(c) => c,
        Paint::Blend(mask, fg, bg) => blend_mask(mask[dy * w + dx], fg, bg),
        Paint::Copy(colors) => colors[dy * w + dx],
    }
}

/// `px` with the rectangle of `w` by `h` pixels at `(x0, y0)` painted.
pub open spec fn painted(px: Seq<Color>, pitch: int, x0: int, y0: int, w: int, h: int, p: Paint) -> Seq<Color> {
    Seq::new(
        px.len(),
        |i: int|
            if in_rect(i, pitch, x0, y0, w, h) {
                paint_pixel(p, w, i % pitch - x0, i / pitch - y0)
            } else {
                px[i]
            },
    )
}

/// Whether the underline bit is set.
pub open spec fn underlined(f: CharFlags) -> bool {
    f.0 & CharFlags::UNDERLINE != 0
}

/// Whether the strikethrough bit is set.
pub open spec fn struck(f: CharFlags) -> bool {
    f.0 & CharFlags::STRIKETHROUGH != 0
}

/// The body of a cell: its paint and size. A blank cell is the background
/// over the font's cell; a glyph covers its own size.
pub open spec fn cell_body(c: Cell, fw: int, fh: int) -> (Paint, int, int) {
    match c.rend {
        RenderResult::Subpix(g) => (Paint::Blend(g.buf@, c.fg, c.bg), g.width as int, g.height as int),
        RenderResult::Colored(g) => (Paint::Copy(g.buf@), g.width as int, g.height as int),
        _ => (Paint::Solid(c.bg), fw, fh),
    }
}

/// `px` with cell `c` drawn at column `x`, row `y` of a grid of `fw` by `fh`
/// pixel cells: the body, then the underline on the cell's last pixel row
/// and the strikethrough on its middle row, both in the foreground color
/// across the font's cell width.
pub open spec fn cell_drawn(px: Seq<Color>, pitch: int, fw: int, fh: int, x: int, y: int, c: Cell) -> Seq<Color> {
    let (xs, ys) = (x * fw, y * fh);
    let (paint, w, h) = cell_body(c, fw, fh);
    let body = painted(px, pitch, xs, ys, w, h, paint);
    let under = if underlined(c.flags) {
        painted(body, pitch, xs, ys + fh - 1, fw, 1, Paint::Solid(c.fg))
    } else {
        body
    };
    if struck(c.flags) {
        painted(under, pitch, xs, ys + fh / 2, fw, 1, Paint::Solid(c.fg))
    } else {
        under
    }
}

/// The blend of one channel is a byte.
proof fn lemma_blend_range(k: u8, f: u8, b: u8)
    ensures
        255 <= k as int * (f as int - b as int) + b as int * 255 + 255 <= 255 * 256,
{
    assert(255 <= k as int * (f as int - b as int) + b as int * 255 + 255 <= 255 * 256) by (nonlinear_arith)
        requires
            0 <= k <= 255,
            0 <= f <= 255,
            0 <= b <= 255,
    ;
}

/// Blends one channel (see [`blend_channel`]).
fn blend_byte(k: u8, f: u8, b: u8) -> (r: u8)
    ensures
        r == blend_channel(k, f, b),
{
    proof {
        lemma_blend_range(k, f, b);
    }
    let v: i32 = (k as i32) * ((f as i32) - (b as i32)) + (b as i32) * 255 + 255;
    (v / 256) as u8
}

/// Blends a mask color (see [`blend_mask`]).
pub fn blend(k: Color, fg: Color, bg: Color) -> (r: Color)
    ensures
        r == blend_mask(k, fg, bg),
{
    Color {
        r: blend_byte(k.r, fg.r, bg.r),
        g: blend_byte(k.g, fg.g, bg.g),
        b: blend_byte(k.b, fg.b, bg.b),
        a: blend_byte(k.a, fg.a, bg.a),
    }
}

/// Row and column of the index of pixel `(x, y)`.
proof fn lemma_index_parts(pitch: int, x: int, y: int)
    requires
        0 <= x < pitch,
        0 <= y,
    ensures
        (y * pitch + x) / pitch == y,
        (y * pitch + x) % pitch == x,
        forall|i: int| #![trigger i / pitch, i % pitch] 0 <= i && i / pitch == y && i % pitch == x ==> i == y * pitch + x,
{
    vstd::arithmetic::div_mod::lemma_fundamental_div_mod_converse(y * pitch + x, pitch, y, x);
    assert forall|i: int| #![trigger i / pitch, i % pitch] 0 <= i && i / pitch == y && i % pitch == x implies i == y * pitch + x by {
        vstd::arithmetic::div_mod::lemma_fundamental_div_mod(i, pitch);
        vstd::arithmetic::mul::lemma_mul_is_commutative(pitch, y);
    }
}

/// The paint a painter's mode selects: 0 one color, 1 a blended mask, 2
/// copied colors.
pub open spec fn paint_of(mode: u8, src: Seq<Color>, c1: Color, c2: Color) -> Paint {
    if mode == 0 {
        Paint::Solid(c1)
    } else if mode == 1 {
        Paint::Blend(src, c1, c2)
    } else {
        Paint::Copy(src)
    }
}

/// `px` with the first `dy` rows of the rectangle painted, and the first
/// `dx` pixels of row `dy`.
pub open spec fn painted_upto(px: Seq<Color>, pitch: int, x0: int, y0: int, w: int, p: Paint, dy: int, dx: int) -> Seq<
    Color,
> {
    Seq::new(
        px.len(),
        |i: int|
            if in_rect(i, pitch, x0, y0, w, dy) || (i / pitch == y0 + dy && x0 <= i % pitch < x0 + dx) {
                paint_pixel(p, w, i % pitch - x0, i / pitch - y0)
            } else {
                px[i]
            },
    )
}

impl<'buf> Drawable<'buf> {
    /// Paints the rectangle of `w` by `h` pixels at `(x0, y0)` with the
    /// paint that `mode` selects (see [`paint_of`]).
    pub(crate) fn paint_rect(&mut self, x0: usize, y0: usize, w: usize, h: usize, mode: u8, src: &[Color], c1: Color, c2: Color)
        requires
            old(self).wf(),
            x0 + w <= old(self).pitch,
            y0 + h <= old(self).height,
            mode != 0 ==> w * h <= src@.len(),
        ensures
            final(self).buf@ == painted(
                old(self).buf@,
                old(self).pitch as int,
                x0 as int,
                y0 as int,
                w as int,
                h as int,
                paint_of(mode, src@, c1, c2),
            ),
            final(self).width == old(self).width && final(self).height == old(self).height,
            final(self).pitch == old(self).pitch,
    {
        let ghost px = self.buf@;
        let ghost p = paint_of(mode, src@, c1, c2);
        let pitch = self.pitch;
        let mut dy: usize = 0;
        assert(self.buf@ =~= painted_upto(px, pitch as int, x0 as int, y0 as int, w as int, p, 0, 0));
        while dy < h
            invariant
                self.wf(),
                self.pitch == pitch,
                self.width == old(self).width && self.height == old(self).height,
                self.buf@.len() == px.len(),
                px == old(self).buf@,
                p == paint_of(mode, src@, c1, c2),
                x0 + w <= pitch,
                y0 + h <= self.height,
                mode != 0 ==> w * h <= src@.len(),
                dy <= h,
                self.buf@ == painted_upto(px, pitch as int, x0 as int, y0 as int, w as int, p, dy as int, 0),
            decreases h - dy,
        {
            let mut dx: usize = 0;
            while dx < w
                invariant
                    self.wf(),
                    self.pitch == pitch,
                    self.width == old(self).width && self.height == old(self).height,
                    self.buf@.len() == px.len(),
                    p == paint_of(mode, src@, c1, c2),
                    x0 + w <= pitch,
                    y0 + h <= self.height,
                    mode != 0 ==> w * h <= src@.len(),
                    dy < h,
                    dx <= w,
                    self.buf@ == painted_upto(px, pitch as int, x0 as int, y0 as int, w as int, p, dy as int, dx as int),
                decreases w - dx,
            {
                let blen = self.buf.len();
                let slen = src.len();
                proof {
                    lemma_index(
                        (x0 + dx) as int,
                        (y0 + dy) as int,
                        pitch as int,
                        self.height as int,
                        pitch as int,
                        self.buf@.len() as int,
                    );
                    lemma_index_parts(pitch as int, (x0 + dx) as int, (y0 + dy) as int);
                    if mode != 0 {
                        assert(dy * w + dx < w * h) by (nonlinear_arith)
                            requires
                                dy < h,
                                dx < w,
                        ;
                        assert(0 <= dy * w) by (nonlinear_arith);
                    }
                    assert(0 <= (y0 + dy) * pitch) by (nonlinear_arith);
                }
                let color = if mode == 0 {
                    c1
                } else {
                    let k = src[dy * w + dx];
                    if mode == 1 {
                        blend(k, c1, c2)
                    } else {
                        k
                    }
                };
                let idx = (y0 + dy) * pitch + x0 + dx;
                self.buf[idx] = color;
                dx += 1;
                assert(self.buf@ =~= painted_upto(
                    px,
                    pitch as int,
                    x0 as int,
                    y0 as int,
                    w as int,
                    p,
                    dy as int,
                    dx as int,
                ));
            }
            dy += 1;
            assert(self.buf@ =~= painted_upto(px, pitch as int, x0 as int, y0 as int, w as int, p, dy as int, 0));
        }
        assert(self.buf@ =~= painted(px, pitch as int, x0 as int, y0 as int, w as int, h as int, p));
    }
}

/// The cell's body fits the surface: the font's cell and the glyph, placed
/// at column `x`, row `y` of a grid of `fw` by `fh` pixel cells.
pub open spec fn cell_fits(c: Cell, width: int, height: int, fw: int, fh: int, x: int, y: int) -> bool {
    let (paint, w, h) = cell_body(c, fw, fh);
    &&& (x + 1) * fw <= width && (y + 1) * fh <= height
    &&& x * fw + w <= width && y * fh + h <= height
}

/// The glyph of a cell holds as many pixels as its size says.
pub open spec fn cell_glyph_ok(c: Cell) -> bool {
    match c.rend {
        RenderResult::Subpix(g) => g.wf(),
        RenderResult::Colored(g) => g.wf(),
        _ => true,
    }
}

impl<'buf> Drawable<'buf> {
    /// Draws cell `cell` at column `x`, row `y` of a grid of `font_width` by
    /// `font_height` pixel cells (see [`cell_drawn`]). A cell that is drawn
    /// as nothing cannot be drawn.
    pub fn write(&mut self, font_width: u32, font_height: u32, x: u32, y: u32, cell: &Cell)
        requires
            old(self).wf(),
            font_width > 0 && font_height > 0,
            !(cell.rend is Empty),
            cell_glyph_ok(*cell),
            cell_fits(
                *cell,
                old(self).width as int,
                old(self).height as int,
                font_width as int,
                font_height as int,
                x as int,
                y as int,
            ),
        ensures
            final(self).wf(),
            final(self).buf@ == cell_drawn(
                old(self).buf@,
                old(self).pitch as int,
                font_width as int,
                font_height as int,
                x as int,
                y as int,
                *cell,
            ),
            final(self).width == old(self).width && final(self).height == old(self).height,
            final(self).pitch == old(self).pitch,
    {
        let fw = font_width as usize;
        let fh = font_height as usize;
        proof {
            assert(0 <= x * fw && 0 <= y * fh) by (nonlinear_arith);
            assert(x * fw + fw == (x + 1) * fw && y * fh + fh == (y + 1) * fh) by (nonlinear_arith);
        }
        let xs = x as usize * fw;
        let ys = y as usize * fh;
        let none: Vec<Color> = Vec::new();
        match &cell.rend {
            RenderResult::Subpix(g) => {
                proof {
                    assert(g.width * g.height == g.height * g.width) by (nonlinear_arith);
                }
                self.paint_rect(xs, ys, g.width as usize, g.height as usize, 1, g.buf.as_slice(), cell.fg, cell.bg);
            },
            RenderResult::Colored(g) => {
                proof {
                    assert(g.width * g.height == g.height * g.width) by (nonlinear_arith);
                }
                self.paint_rect(xs, ys, g.width as usize, g.height as usize, 2, g.buf.as_slice(), cell.fg, cell.bg);
            },
            _ => {
                self.paint_rect(xs, ys, fw, fh, 0, none.as_slice(), cell.bg, cell.bg);
            },
        }
        if cell.flags.0 & CharFlags::UNDERLINE != 0 {
            self.paint_rect(xs, ys + fh - 1, fw, 1, 0, none.as_slice(), cell.fg, cell.fg);
        }
        if cell.flags.0 & CharFlags::STRIKETHROUGH != 0 {
            self.paint_rect(xs, ys + fh / 2, fw, 1, 0, none.as_slice(), cell.fg, cell.fg);
        }
    }
}

} // verus!
