//! Rendering: glyphs as the font buffer keeps them, the render cells of a
//! screen, and drawing those cells on a pixel surface.

use vstd::prelude::*;

use crate::cell::{CharFlags, FontFlags};
use crate::color::{transparent, Color};
use crate::drawable::{blend, blend_mask};
use crate::glyph::{glyph_pixel, holds, FontGlyph};
use crate::types::Tick;

verus! {

/// A glyph as the font buffer keeps it: `width * height` mask colors, row
/// after row, that are blended between a cell's colors when drawn.
pub struct FontBufferGlyph {
    pub buf: Vec<Color>,
    pub width: u32,
    pub height: u32,
}

/// A glyph with its colors already applied (such as an emoji).
pub struct FontBufferColoredGlyph {
    pub buf: Vec<Color>,
    pub width: u32,
    pub height: u32,
}

/// How a cell is drawn.
pub enum RenderResult {
    /// Nothing is drawn.
    Empty,
    /// The cell is the background color.
    Blank,
    /// A mask blended between the cell's colors.
    Subpix(FontBufferGlyph),
    /// A colored glyph.
    Colored(FontBufferColoredGlyph),
}

impl FontBufferGlyph {
    /// The buffer holds exactly `width * height` pixels.
    pub open spec fn wf(&self) -> bool {
        self.buf@.len() == self.width * self.height
    }

    /// The glyph sampled over its advance and line height: pixel `(x, y)` of
    /// the result is `glyph.get(x, y)`.
    pub fn from(glyph: FontGlyph) -> (r: Self)
        requires
            glyph.advance > 0 && glyph.line_height > 0,
            glyph.advance * glyph.line_height <= u32::MAX,
            holds(glyph.buf@, glyph.width as int, glyph.height as int),
            glyph.left >= glyph.advance - i32::MAX,
            glyph.top >= glyph.line_height - i32::MAX,
        ensures
            r.wf(),
            r.width == glyph.advance && r.height == glyph.line_height,
            forall|y: int, x: int|
                0 <= y < r.height && 0 <= x < r.width ==> #[trigger] r.buf@[y * r.width + x] == glyph_pixel(
                    glyph,
                    x as u32,
                    y as u32,
                ),
    {
        let width = glyph.advance as u32;
        let height = glyph.line_height as u32;
        let mut buf: Vec<Color> = Vec::new();
        let mut y: u32 = 0;
        while y < height
            invariant
                width == glyph.advance && height == glyph.line_height,
                width * height <= u32::MAX,
                y <= height,
                holds(glyph.buf@, glyph.width as int, glyph.height as int),
                glyph.left >= glyph.advance - i32::MAX,
                glyph.top >= glyph.line_height - i32::MAX,
                buf@.len() == y * width,
                forall|yy: int, xx: int|
                    0 <= yy < y && 0 <= xx < width ==> #[trigger] buf@[yy * width + xx] == glyph_pixel(
                        glyph,
                        xx as u32,
                        yy as u32,
                    ),
            decreases height - y,
        {
            let mut x: u32 = 0;
            while x < width
                invariant
                    width == glyph.advance && height == glyph.line_height,
                    width * height <= u32::MAX,
                    y < height,
                    x <= width,
                    holds(glyph.buf@, glyph.width as int, glyph.height as int),
                    glyph.left >= glyph.advance - i32::MAX,
                    glyph.top >= glyph.line_height - i32::MAX,
                    buf@.len() == y * width + x,
                    forall|yy: int, xx: int|
                        (0 <= yy < y && 0 <= xx < width) || (yy == y && 0 <= xx < x) ==> #[trigger] buf@[yy
                            * width + xx] == glyph_pixel(glyph, xx as u32, yy as u32),
                decreases width - x,
            {
                let c = glyph.get(x, y);
                proof {
                    assert(y * width + x == buf@.len());
                }
                buf.push(c);
                x += 1;
                proof {
                    assert forall|yy: int, xx: int|
                        (0 <= yy < y && 0 <= xx < width) || (yy == y && 0 <= xx < x) implies #[trigger] buf@[yy
                        * width + xx] == glyph_pixel(glyph, xx as u32, yy as u32) by {
                        if yy < y {
                            assert(yy * width + xx < y * width) by (nonlinear_arith)
                                requires
                                    0 <= yy < y,
                                    0 <= xx < width,
                            ;
                        }
                    }
                }
            }
            y += 1;
            proof {
                assert(buf@.len() == y * width) by (nonlinear_arith)
                    requires
                        buf@.len() == (y - 1) * width + width,
                ;
            }
        }
        assert(buf@.len() == width * height) by (nonlinear_arith)
            requires
                buf@.len() == y * width,
                y == height,
        ;
        FontBufferGlyph { buf, width, height }
    }

    /// A copy of this glyph.
    pub fn duplicate(&self) -> (r: Self)
        ensures
            r.buf@ == self.buf@ && r.width == self.width && r.height == self.height,
    {
        let mut buf: Vec<Color> = Vec::new();
        let n = self.buf.len();
        let mut i: usize = 0;
        while i < n
            invariant
                n == self.buf@.len(),
                i <= n,
                buf@ == self.buf@.take(i as int),
            decreases n - i,
        {
            buf.push(self.buf[i]);
            i += 1;
            assert(buf@ =~= self.buf@.take(i as int));
        }
        assert(self.buf@.take(n as int) =~= self.buf@);
        FontBufferGlyph { buf, width: self.width, height: self.height }
    }

    /// A blank mask of `width` by `height` pixels (transparent black).
    pub fn blank(width: u32, height: u32) -> (r: Self)
        requires
            width * height <= u32::MAX,
        ensures
            r.wf(),
            r.width == width && r.height == height,
            forall|i: int| 0 <= i < r.buf@.len() ==> r.buf@[i] == transparent(),
    {
        let n = width * height;
        let mut buf: Vec<Color> = Vec::new();
        let mut i: u32 = 0;
        while i < n
            invariant
                i <= n,
                n == width * height,
                buf@.len() == i,
                forall|j: int| 0 <= j < i ==> buf@[j] == transparent(),
            decreases n - i,
        {
            buf.push(Color::zero());
            i += 1;
        }
        FontBufferGlyph { buf, width, height }
    }
}

impl FontBufferColoredGlyph {
    /// The buffer holds exactly `width * height` pixels.
    pub open spec fn wf(&self) -> bool {
        self.buf@.len() == self.width * self.height
    }

    /// A mask blended between `fg` and `bg` once and for all.
    pub fn from(glyph: &FontBufferGlyph, fg: Color, bg: Color) -> (r: Self)
        requires
            glyph.wf(),
        ensures
            r.wf(),
            r.width == glyph.width && r.height == glyph.height,
            forall|i: int| 0 <= i < r.buf@.len() ==> #[trigger] r.buf@[i] == blend_mask(glyph.buf@[i], fg, bg),
    {
        let mut buf: Vec<Color> = Vec::new();
        let n = glyph.buf.len();
        let mut i: usize = 0;
        while i < n
            invariant
                i <= n,
                n == glyph.buf@.len(),
                buf@.len() == i,
                forall|j: int| 0 <= j < i ==> #[trigger] buf@[j] == blend_mask(glyph.buf@[j], fg, bg),
            decreases n - i,
        {
            buf.push(blend(glyph.buf[i], fg, bg));
            i += 1;
        }
        FontBufferColoredGlyph { buf, width: glyph.width, height: glyph.height }
    }
}

/// A cell of a screen as it is drawn: the character and its attributes,
/// its colors, how it is drawn, and the tick of its last change.
pub struct Cell {
    pub ch: char,
    pub width: u8,
    pub font: FontFlags,
    pub flags: CharFlags,
    pub rend: RenderResult,
    pub fg: Color,
    pub bg: Color,
    pub tick: Tick,
}

} // verus!
