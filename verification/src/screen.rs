//! The screen: the font buffer that turns characters into glyphs, the render
//! cells that mirror a terminal's characters, and flushing them to a pixel
//! surface.

use vstd::prelude::*;

use crate::buffer::{cleaned_screen, cleaned_upto, law_cleaned_upto, view_cells, TerminalBuffer};
use crate::cell::{spec_is_bold, spec_is_italic, Char, CharFlags, FontChar, FontFlags};
use crate::color::{
    builtin_colors, builtin_pair, palette_built, readable_color, transparent, scheme_color, scheme_entry, Color, ColorScheme, Palette,
    DEFAULT_PALETTE_INDEX,
};
use crate::drawable::{cell_drawn, cell_fits, cell_glyph_ok, painted, Drawable, Paint};
use crate::glyph::{
    glyph_pixel, half_toward_zero, holds, shape_of, shape_pixel, FontGlyph, FontRenderer, GlyphPixels, GlyphShape,
};
use crate::render::{Cell, FontBufferGlyph, RenderResult};
use crate::types::{Cursor, Tick};

verus! {

/// The product of two numbers of at most 32 bits fits in 64 bits.
proof fn lemma_u32_product(a: int, b: int)
    requires
        0 <= a <= 0x1_0000_0000,
        0 <= b <= 0xffff_ffff,
    ensures
        0 <= a * b <= 0xffff_ffff_0000_0000,
{
    assert(0 <= a * b <= 0xffff_ffff_0000_0000) by (nonlinear_arith)
        requires
            0 <= a <= 0x1_0000_0000,
            0 <= b <= 0xffff_ffff,
    ;
}

/// `g` centred in a cell of `w` by `h` pixels: see [`FontGlyph::align_to`].
pub open spec fn aligned(g: GlyphShape, w: u32, h: u32) -> GlyphShape {
    GlyphShape {
        left: (g.left + half_toward_zero(w - g.advance)) as i32,
        top: (g.top + half_toward_zero(h - g.line_height)) as i32,
        advance: w as i32,
        line_height: h as i32,
        ..g
    }
}

/// Whether `g` can be centred in a cell of `w` by `h` pixels and sampled
/// over it: the cell is not empty, its pixels can be counted in 32 bits,
/// the offsets stay in range, and the glyph's pixels are all there.
pub open spec fn glyph_usable(g: GlyphShape, w: u32, h: u32) -> bool {
    &&& 0 < w <= i32::MAX && 0 < h <= i32::MAX
    &&& w * h <= u32::MAX
    &&& i32::MIN <= w - g.advance <= i32::MAX
    &&& i32::MIN <= h - g.line_height <= i32::MAX
    &&& i32::MIN <= g.left + half_toward_zero(w - g.advance) <= i32::MAX
    &&& i32::MIN <= g.top + half_toward_zero(h - g.line_height) <= i32::MAX
    &&& g.left + half_toward_zero(w - g.advance) >= w - i32::MAX
    &&& g.top + half_toward_zero(h - g.line_height) >= h - i32::MAX
    &&& holds(g.pixels, g.width as int, g.height as int)
}

/// The mask of `g` centred in a cell of `w` by `h` pixels, row after row,
/// when it is usable there.
pub open spec fn sampled(g: GlyphShape, w: u32, h: u32) -> Option<Seq<Color>> {
    if glyph_usable(g, w, h) {
        Some(Seq::new((w * h) as nat, |i: int| shape_pixel(aligned(g, w, h), (i % w as int) as u32, (i / w as int) as u32)))
    } else {
        None
    }
}

/// Pixel `i` of a row-major grid `w` wide is at column `i % w`, row `i / w`.
proof fn lemma_grid_index(i: int, w: int, h: int)
    requires
        0 <= i < w * h,
        w > 0,
    ensures
        0 <= i / w < h,
        0 <= i % w < w,
        (i / w) * w + i % w == i,
{
    vstd::arithmetic::div_mod::lemma_fundamental_div_mod(i, w);
    assert((i / w) * w == w * (i / w)) by (nonlinear_arith);
    assert(0 <= i / w < h) by (nonlinear_arith)
        requires
            i == w * (i / w) + i % w,
            0 <= i % w < w,
            0 <= i < w * h,
    ;
}

/// The glyph a renderer returned, centred in a cell of `w` by `h` pixels
/// and sampled over it (see [`sampled`]); `None` when it is not usable
/// there.
pub fn glyph_for(glyph: FontGlyph, w: u32, h: u32) -> (r: Option<FontBufferGlyph>)
    ensures
        match r {
            Some(b) => {
                &&& sampled(shape_of(glyph), w, h) == Some(b.buf@)
                &&& b.wf()
                &&& b.width == w && b.height == h
            },
            None => sampled(shape_of(glyph), w, h) is None,
        },
{
    if w == 0 || h == 0 || w > 0x7fff_ffff || h > 0x7fff_ffff {
        return None;
    }
    proof {
        lemma_u32_product(w as int, h as int);
    }
    if (w as u64) * (h as u64) > 0xffff_ffff {
        return None;
    }
    let dw: i64 = w as i64 - glyph.advance as i64;
    let dh: i64 = h as i64 - glyph.line_height as i64;
    if dw < -0x8000_0000 || dw > 0x7fff_ffff || dh < -0x8000_0000 || dh > 0x7fff_ffff {
        return None;
    }
    let hw: i64 = if dw >= 0 { dw / 2 } else { -((-dw) / 2) };
    let hh: i64 = if dh >= 0 { dh / 2 } else { -((-dh) / 2) };
    let left: i64 = glyph.left as i64 + hw;
    let top: i64 = glyph.top as i64 + hh;
    if left < -0x8000_0000 || left > 0x7fff_ffff || top < -0x8000_0000 || top > 0x7fff_ffff {
        return None;
    }
    if left < w as i64 - 0x7fff_ffff || top < h as i64 - 0x7fff_ffff {
        return None;
    }
    if !glyph.holds_pixels() {
        return None;
    }
    let ghost sh = shape_of(glyph);
    let g = glyph.align_to(w, h);
    assert(shape_of(g) == aligned(sh, w, h));
    let b = FontBufferGlyph::from(g);
    proof {
        let want = Seq::new(
            (w * h) as nat,
            |i: int| shape_pixel(aligned(sh, w, h), (i % w as int) as u32, (i / w as int) as u32),
        );
        assert forall|i: int| 0 <= i < w * h implies b.buf@[i] == want[i] by {
            lemma_grid_index(i, w as int, h as int);
            let (y, x) = (i / w as int, i % w as int);
            assert(b.buf@[y * w + x] == glyph_pixel(g, x as u32, y as u32));
        }
        assert(b.buf@ =~= want);
    }
    Some(b)
}

/// The blank mask of `w` by `h` pixels (transparent black).
pub open spec fn blank_mask(w: u32, h: u32) -> Seq<Color> {
    Seq::new((w * h) as nat, |_i: int| transparent())
}

/// The first usable glyph among `glyphs`, in order, centred and sampled in a
/// cell of `w` by `h` pixels (see [`sampled`]).
pub open spec fn first_usable(glyphs: Seq<GlyphShape>, w: u32, h: u32) -> Option<Seq<Color>>
    decreases glyphs.len(),
{
    if glyphs.len() == 0 {
        None
    } else {
        match sampled(glyphs[0], w, h) {
            Some(p) => Some(p),
            None => first_usable(glyphs.skip(1), w, h),
        }
    }
}

/// A mask as plain values: its colors row after row, its width and height.
pub type MaskView = (Seq<Color>, u32, u32);

/// The mask a character gets from renderers that draw it as `glyphs`, in
/// cells of `cell` pixels; `None` for blank: blank for the null character
/// or without renderers; else the first usable glyph (see
/// [`first_usable`]) in a cell as wide as the character's cells; else a
/// blank mask of one cell, or blank when that mask cannot be counted in 32
/// bits.
pub open spec fn lookup_mask(glyphs: Seq<GlyphShape>, cell: (u32, u32), ch: char, width: u8) -> Option<MaskView> {
    let w = cell.0 * width;
    if ch == '\0' || glyphs.len() == 0 {
        None
    } else if w <= u32::MAX && first_usable(glyphs, w as u32, cell.1) is Some {
        Some((first_usable(glyphs, w as u32, cell.1)->0, w as u32, cell.1))
    } else if cell.0 * cell.1 <= u32::MAX {
        Some((blank_mask(cell.0, cell.1), cell.0, cell.1))
    } else {
        None
    }
}

/// Whether `r` is drawn as mask `m`, or blank when `m` is `None`.
pub open spec fn renders_as(r: RenderResult, m: Option<MaskView>) -> bool {
    match m {
        None => r is Blank,
        Some(mask) => r matches RenderResult::Subpix(g) && g.buf@ == mask.0 && g.width == mask.1 && g.height == mask.2,
    }
}

/// The key of a character in a font buffer: the character, its width in
/// cells, bold and italic.
pub type GlyphKey = (char, u8, bool, bool);

/// The mask kept for `key` in the glyph cache `cache`: its first entry.
pub open spec fn cached_mask(cache: Seq<(GlyphKey, MaskView)>, key: GlyphKey) -> Option<MaskView>
    decreases cache.len(),
{
    if cache.len() == 0 {
        None
    } else {
        match cached_mask(cache.drop_last(), key) {
            Some(m) => Some(m),
            None => if cache.last().0 == key {
                Some(cache.last().1)
            } else {
                None
            },
        }
    }
}

/// A mask found for a key in a prefix of a cache is the one kept for it.
proof fn lemma_cached_prefix(cache: Seq<(GlyphKey, MaskView)>, k: int, key: GlyphKey)
    requires
        0 <= k <= cache.len(),
        cached_mask(cache.take(k), key) is Some,
    ensures
        cached_mask(cache, key) == cached_mask(cache.take(k), key),
    decreases cache.len() - k,
{
    if k < cache.len() {
        assert(cache.take(k + 1).drop_last() =~= cache.take(k));
        lemma_cached_prefix(cache, k + 1, key);
    } else {
        assert(cache.take(k) =~= cache);
    }
}

/// Adding an entry at the end of a cache keeps what it kept and keeps the
/// new mask for a key it had none for.
proof fn lemma_cached_push(cache: Seq<(GlyphKey, MaskView)>, e: (GlyphKey, MaskView))
    ensures
        forall|key: GlyphKey| #[trigger]
            cached_mask(cache.push(e), key) == match cached_mask(cache, key) {
                Some(m) => Some(m),
                None => if e.0 == key {
                    Some(e.1)
                } else {
                    None
                },
            },
{
    assert(cache.push(e).drop_last() =~= cache);
}

/// The glyph of `ch` in the given style that the renderer in `slot`
/// draws (blank for an empty slot).
spec fn slot_glyph(slot: Option<Box<dyn FontRenderer>>, ch: char, bold: bool, italic: bool) -> GlyphShape {
    match slot {
        Some(r) => r.glyph_shape(ch, bold, italic),
        None => GlyphShape { pixels: GlyphPixels::Blank, left: 0, top: 0, width: 0, height: 0, advance: 0, line_height: 0 },
    }
}

/// Adding a slot at the end keeps the others and puts it last.
proof fn lemma_slots_push(s: Seq<Option<Box<dyn FontRenderer>>>, r: Option<Box<dyn FontRenderer>>)
    ensures
        s.push(r).len() == s.len() + 1,
        s.push(r)[s.len() as int] == r,
        forall|i: int| 0 <= i < s.len() ==> #[trigger] s.push(r)[i] == s[i],
{
}

/// Replacing a slot keeps the others.
proof fn lemma_slots_update(s: Seq<Option<Box<dyn FontRenderer>>>, k: int, r: Option<Box<dyn FontRenderer>>)
    requires
        0 <= k < s.len(),
    ensures
        s.update(k, r).len() == s.len(),
        s.update(k, r)[k] == r,
        forall|i: int| 0 <= i < s.len() && i != k ==> #[trigger] s.update(k, r)[i] == s[i],
{
}

/// The size of `ch` in the given style that the renderer in `slot`
/// reports (none for an empty slot).
spec fn slot_size(slot: Option<Box<dyn FontRenderer>>, ch: char, bold: bool, italic: bool) -> Option<(usize, usize)> {
    match slot {
        Some(r) => r.glyph_size(ch, bold, italic),
        None => None,
    }
}

/// The first size reported among `sizes`, or `(0, 0)` when none is.
pub open spec fn first_size(sizes: Seq<Option<(usize, usize)>>) -> (usize, usize)
    decreases sizes.len(),
{
    if sizes.len() == 0 {
        (0, 0)
    } else {
        match sizes[0] {
            Some(s) => s,
            None => first_size(sizes.skip(1)),
        }
    }
}

/// Adding a slot at the end adds its glyph; replacing a slot by one with
/// the same glyphs keeps them all.
proof fn lemma_slot_glyphs(a: FontBuffer, b: FontBuffer, k: int, added: Option<Box<dyn FontRenderer>>)
    ensures
        b.renderers@ == a.renderers@.push(added) ==> {
            &&& b.count() == a.count() + 1
            &&& (a.wf() && added is Some ==> b.wf())
            &&& forall|ch: char, bo: bool, it: bool| #[trigger]
                b.glyphs(ch, bo, it) == a.glyphs(ch, bo, it).push(slot_glyph(added, ch, bo, it))
            &&& forall|ch: char, bo: bool, it: bool| #[trigger]
                b.sizes(ch, bo, it) == a.sizes(ch, bo, it).push(slot_size(added, ch, bo, it))
        },
        0 <= k < a.renderers@.len() && b.renderers@ == a.renderers@.update(k, added) && added is Some && (forall|
            ch: char,
            bo: bool,
            it: bool,
        | #[trigger] slot_glyph(added, ch, bo, it) == slot_glyph(a.renderers@[k], ch, bo, it)) && (forall|
            ch: char,
            bo: bool,
            it: bool,
        | #[trigger] slot_size(added, ch, bo, it) == slot_size(a.renderers@[k], ch, bo, it)) ==> {
            &&& b.count() == a.count()
            &&& (a.wf() ==> b.wf())
            &&& forall|ch: char, bo: bool, it: bool| #[trigger] b.glyphs(ch, bo, it) == a.glyphs(ch, bo, it)
            &&& forall|ch: char, bo: bool, it: bool| #[trigger] b.sizes(ch, bo, it) == a.sizes(ch, bo, it)
        },
{
    if b.renderers@ == a.renderers@.push(added) {
        lemma_slots_push(a.renderers@, added);
        assert forall|ch: char, bo: bool, it: bool| #[trigger]
            b.glyphs(ch, bo, it) == a.glyphs(ch, bo, it).push(slot_glyph(added, ch, bo, it)) by {
            assert(b.glyphs(ch, bo, it) =~= a.glyphs(ch, bo, it).push(slot_glyph(added, ch, bo, it)));
        }
        assert forall|ch: char, bo: bool, it: bool| #[trigger]
            b.sizes(ch, bo, it) == a.sizes(ch, bo, it).push(slot_size(added, ch, bo, it)) by {
            assert(b.sizes(ch, bo, it) =~= a.sizes(ch, bo, it).push(slot_size(added, ch, bo, it)));
        }
    }
    if 0 <= k < a.renderers@.len() && b.renderers@ == a.renderers@.update(k, added) && added is Some && (forall|
        ch: char,
        bo: bool,
        it: bool,
    | #[trigger] slot_glyph(added, ch, bo, it) == slot_glyph(a.renderers@[k], ch, bo, it)) && (forall|
        ch: char,
        bo: bool,
        it: bool,
    | #[trigger] slot_size(added, ch, bo, it) == slot_size(a.renderers@[k], ch, bo, it)) {
        lemma_slots_update(a.renderers@, k, added);
        assert forall|ch: char, bo: bool, it: bool| #[trigger] b.glyphs(ch, bo, it) == a.glyphs(ch, bo, it) by {
            assert(slot_glyph(added, ch, bo, it) == slot_glyph(a.renderers@[k], ch, bo, it));
            assert(b.glyphs(ch, bo, it) =~= a.glyphs(ch, bo, it));
        }
        assert forall|ch: char, bo: bool, it: bool| #[trigger] b.sizes(ch, bo, it) == a.sizes(ch, bo, it) by {
            assert(slot_size(added, ch, bo, it) == slot_size(a.renderers@[k], ch, bo, it));
            assert(b.sizes(ch, bo, it) =~= a.sizes(ch, bo, it));
        }
    }
}

/// A slot that holds a renderer draws its glyphs.
proof fn lemma_slot_inner(slot: Option<Box<dyn FontRenderer>>)
    requires
        slot is Some,
    ensures
        forall|ch: char, bo: bool, it: bool| #[trigger] slot_glyph(slot, ch, bo, it) == slot->0.glyph_shape(ch, bo, it),
        forall|ch: char, bo: bool, it: bool| #[trigger] slot_size(slot, ch, bo, it) == slot->0.glyph_size(ch, bo, it),
{
}

/// Font buffers with the same slots have the same renderers and glyphs.
proof fn lemma_same_slots(a: FontBuffer, b: FontBuffer)
    requires
        b.renderers@ == a.renderers@,
    ensures
        b.count() == a.count(),
        b.wf() == a.wf(),
        forall|ch: char, bo: bool, it: bool| #[trigger] b.glyphs(ch, bo, it) == a.glyphs(ch, bo, it),
        forall|ch: char, bo: bool, it: bool| #[trigger] b.sizes(ch, bo, it) == a.sizes(ch, bo, it),
{
    assert forall|ch: char, bo: bool, it: bool| #[trigger] b.sizes(ch, bo, it) == a.sizes(ch, bo, it) by {
        assert(b.sizes(ch, bo, it) =~= a.sizes(ch, bo, it));
    }
}

/// Glyph `j` of a font buffer is that of its slot `j`.
proof fn lemma_glyph_at(a: FontBuffer, j: int, ch: char, bold: bool, italic: bool)
    requires
        0 <= j < a.renderers@.len(),
    ensures
        a.glyphs(ch, bold, italic).len() == a.renderers@.len(),
        a.glyphs(ch, bold, italic)[j] == slot_glyph(a.renderers@[j], ch, bold, italic),
{
}

/// Glyphs for characters, from a list of renderers tried in order, with a
/// cache of the masks already made.
pub struct FontBuffer {
    /// The renderers, first to last; every slot holds one.
    renderers: Vec<Option<Box<dyn FontRenderer>>>,
    /// Cell width in pixels, taken from the first renderer.
    width: u32,
    /// Cell height in pixels, taken from the first renderer.
    height: u32,
    /// The masks already made, with their keys.
    glyph_cache: Vec<(FontChar, FontBufferGlyph)>,
}

impl FontBuffer {
    /// The glyph cache: each key with its mask, in the order they were made.
    pub closed spec fn cache(&self) -> Seq<(GlyphKey, MaskView)> {
        self.glyph_cache@.map_values(|e: (FontChar, FontBufferGlyph)| (e.0@, (e.1.buf@, e.1.width, e.1.height)))
    }

    /// How the font buffer draws the character with key `key`: blank for
    /// the null character or without renderers; else the mask kept for it
    /// in the cache; else the one the renderers give (see [`lookup_mask`]).
    pub open spec fn mask_for(&self, key: GlyphKey) -> Option<MaskView> {
        if key.0 == '\0' || self.count() == 0 {
            None
        } else {
            match cached_mask(self.cache(), key) {
                Some(m) => Some(m),
                None => lookup_mask(self.glyphs(key.0, key.2, key.3), self.cell(), key.0, key.1),
            }
        }
    }

    /// Whether `other` draws every character as this one does.
    pub open spec fn same_masks(&self, other: &FontBuffer) -> bool {
        forall|key: GlyphKey| #[trigger] other.mask_for(key) == self.mask_for(key)
    }

    /// How many renderers there are.
    pub closed spec fn count(&self) -> nat {
        self.renderers@.len()
    }

    /// The cell size in pixels, width first.
    pub closed spec fn cell(&self) -> (u32, u32) {
        (self.width, self.height)
    }

    /// The glyphs the renderers draw for `ch` in the given style, in order.
    pub closed spec fn glyphs(&self, ch: char, bold: bool, italic: bool) -> Seq<GlyphShape> {
        Seq::new(self.renderers@.len(), |i: int| slot_glyph(self.renderers@[i], ch, bold, italic))
    }

    /// The sizes the renderers report for `ch` in the given style, in order.
    pub closed spec fn sizes(&self, ch: char, bold: bool, italic: bool) -> Seq<Option<(usize, usize)>> {
        Seq::new(self.renderers@.len(), |i: int| slot_size(self.renderers@[i], ch, bold, italic))
    }

    /// The size of the character with key `key`: that of the mask kept for
    /// it in the cache, else the first size a renderer reports, else
    /// `(0, 0)`.
    pub open spec fn size_for(&self, key: GlyphKey) -> (usize, usize) {
        match cached_mask(self.cache(), key) {
            Some(m) => (m.1 as usize, m.2 as usize),
            None => first_size(self.sizes(key.0, key.2, key.3)),
        }
    }

    /// Every slot holds a renderer.
    pub closed spec fn wf(&self) -> bool {
        forall|i: int| 0 <= i < self.renderers@.len() ==> (#[trigger] self.renderers@[i]) is Some
    }

    /// Whether `other` has the renderers, glyphs and cell size of this one.
    pub open spec fn same_font(&self, other: &FontBuffer) -> bool {
        &&& other.wf() == self.wf()
        &&& other.count() == self.count()
        &&& other.cell() == self.cell()
        &&& forall|ch: char, b: bool, i: bool| #[trigger] other.glyphs(ch, b, i) == self.glyphs(ch, b, i)
        &&& forall|ch: char, b: bool, i: bool| #[trigger] other.sizes(ch, b, i) == self.sizes(ch, b, i)
    }

    /// The cell width in pixels.
    pub fn width(&self) -> (r: u32)
        ensures
            r == self.cell().0,
    {
        self.width
    }

    /// The cell height in pixels.
    pub fn height(&self) -> (r: u32)
        ensures
            r == self.cell().1,
    {
        self.height
    }

    /// A font buffer without renderers and with an empty cell.
    pub fn new() -> (r: Self)
        ensures
            r.wf(),
            r.count() == 0,
            r.cell() == (0u32, 0u32),
            r.cache().len() == 0,
    {
        FontBuffer { renderers: Vec::new(), width: 0, height: 0, glyph_cache: Vec::new() }
    }

    /// Adds a renderer after the others; the first one fixes the cell size
    /// (its size, each part cut to 32 bits).
    pub fn add_renderer(&mut self, renderer: Box<dyn FontRenderer>)
        requires
            old(self).wf(),
        ensures
            final(self).wf(),
            final(self).count() == old(self).count() + 1,
            old(self).count() == 0 ==> final(self).cell() == (
                renderer.cell_size().0 as u32,
                renderer.cell_size().1 as u32,
            ),
            old(self).count() > 0 ==> final(self).cell() == old(self).cell(),
            forall|ch: char, b: bool, i: bool| #[trigger]
                final(self).glyphs(ch, b, i) == old(self).glyphs(ch, b, i).push(renderer.glyph_shape(ch, b, i)),
            forall|ch: char, b: bool, i: bool| #[trigger]
                final(self).sizes(ch, b, i) == old(self).sizes(ch, b, i).push(renderer.glyph_size(ch, b, i)),
            final(self).cache() == old(self).cache(),
    {
        let ghost before = *self;
        if self.renderers.len() == 0 {
            let size = renderer.size();
            self.width = size.0 as u32;
            self.height = size.1 as u32;
        }
        let slot = Some(renderer);
        self.renderers.push(slot);
        proof {
            lemma_slot_glyphs(before, *self, 0, slot);
            lemma_slot_inner(slot);
            assert(slot->0 == renderer);
        }
    }

    /// How character `ch` is drawn (see [`mask_for`](FontBuffer::mask_for)):
    /// blank for the null character or without renderers; else the mask
    /// kept in the cache; else each renderer in turn is asked for the glyph
    /// of the character in its style, the first one usable in a cell as wide
    /// as the character is taken (see [`lookup_mask`]), and the mask is kept
    /// in the cache.
    pub fn get(&mut self, ch: FontChar) -> (r: RenderResult)
        requires
            old(self).wf(),
        ensures
            final(self).wf(),
            old(self).same_font(&*final(self)),
            old(self).same_masks(&*final(self)),
            renders_as(r, old(self).mask_for(ch@)),
    {
        let c = ch.ch();
        if c == '\0' || self.renderers.len() == 0 {
            return RenderResult::Blank;
        }
        match self.find_cached(ch) {
            Some(i) => {
                let g = self.glyph_cache[i].1.duplicate();
                return RenderResult::Subpix(g);
            },
            None => {},
        }
        let ghost before = *self;
        let r = self.render(ch);
        match r {
            RenderResult::Subpix(g) => {
                let copy = g.duplicate();
                let ghost rendered = *self;
                self.glyph_cache.push((ch, copy));
                proof {
                    lemma_same_slots(rendered, *self);
                    let e = (ch@, (g.buf@, g.width, g.height));
                    assert(self.cache() =~= before.cache().push(e));
                    lemma_cached_push(before.cache(), e);
                }
                RenderResult::Subpix(g)
            },
            other => other,
        }
    }

    /// The size of `ch` (see [`size_for`](FontBuffer::size_for)).
    pub fn sizeof(&self, ch: FontChar) -> (r: (usize, usize))
        requires
            self.wf(),
        ensures
            r == self.size_for(ch@),
    {
        match self.find_cached(ch) {
            Some(i) => {
                let g = &self.glyph_cache[i].1;
                return (g.width as usize, g.height as usize);
            },
            None => {},
        }
        let c = ch.ch();
        let bold = ch.bold();
        let italic = ch.italic();
        let ghost sizes = self.sizes(c, bold, italic);
        let n = self.renderers.len();
        let mut i: usize = 0;
        proof {
            assert(sizes.skip(0) =~= sizes);
        }
        while i < n
            invariant
                n == self.renderers@.len(),
                self.wf(),
                sizes == self.sizes(c, bold, italic),
                c == ch@.0 && bold == ch@.2 && italic == ch@.3,
                cached_mask(self.cache(), ch@) is None,
                i <= n,
                first_size(sizes) == first_size(sizes.skip(i as int)),
            decreases n - i,
        {
            proof {
                assert(sizes.skip(i as int).skip(1) =~= sizes.skip(i + 1));
                assert(sizes.skip(i as int)[0] == sizes[i as int]);
                assert(self.renderers@[i as int] is Some);
                lemma_slot_inner(self.renderers@[i as int]);
            }
            match &self.renderers[i] {
                Some(r) => {
                    assert(*r == self.renderers@[i as int]->0);
                    match r.sizeof(c, bold, italic) {
                        Some(size) => {
                            return size;
                        },
                        None => {},
                    }
                },
                None => {},
            }
            i += 1;
        }
        (0, 0)
    }

    /// Forgets the masks kept in the cache.
    pub fn clear(&mut self)
        ensures
            final(self).cache().len() == 0,
            old(self).same_font(&*final(self)),
    {
        let ghost before = *self;
        self.glyph_cache = Vec::new();
        proof {
            lemma_same_slots(before, *self);
        }
    }

    /// Where the cache keeps the mask of `ch`, if it does.
    fn find_cached(&self, ch: FontChar) -> (r: Option<usize>)
        ensures
            match r {
                Some(i) => i < self.cache().len() && self.cache()[i as int].0 == ch@ && cached_mask(self.cache(), ch@)
                    == Some(self.cache()[i as int].1),
                None => cached_mask(self.cache(), ch@) is None,
            },
    {
        let n = self.glyph_cache.len();
        let mut i: usize = 0;
        proof {
            assert(self.cache().take(0) =~= Seq::<(GlyphKey, MaskView)>::empty());
        }
        while i < n
            invariant
                n == self.glyph_cache@.len(),
                n == self.cache().len(),
                i <= n,
                cached_mask(self.cache().take(i as int), ch@) is None,
            decreases n - i,
        {
            proof {
                assert(self.cache().take(i + 1).drop_last() =~= self.cache().take(i as int));
            }
            let key = self.glyph_cache[i].0;
            if key.ch() == ch.ch() && key.width() == ch.width() && key.bold() == ch.bold() && key.italic() == ch.italic() {
                proof {
                    lemma_cached_prefix(self.cache(), i + 1, ch@);
                }
                return Some(i);
            }
            i += 1;
        }
        proof {
            assert(self.cache().take(n as int) =~= self.cache());
        }
        None
    }

    /// How character `ch` is drawn by the renderers (see [`lookup_mask`]):
    /// each renderer in turn is asked for the glyph of the character in its
    /// style, and the first one usable in a cell as wide as the character is
    /// taken.
    fn render(&mut self, ch: FontChar) -> (r: RenderResult)
        requires
            old(self).wf(),
        ensures
            final(self).wf(),
            old(self).same_font(&*final(self)),
            final(self).cache() == old(self).cache(),
            renders_as(r, lookup_mask(old(self).glyphs(ch@.0, ch@.2, ch@.3), old(self).cell(), ch@.0, ch@.1)),
    {
        let c = ch.ch();
        let bold = ch.bold();
        let italic = ch.italic();
        let n = self.renderers.len();
        if c == '\0' || n == 0 {
            return RenderResult::Blank;
        }
        let ghost glyphs = self.glyphs(c, bold, italic);
        proof {
            lemma_u32_product(self.width as int, ch@.1 as int);
            lemma_u32_product(self.width as int, self.height as int);
            assert(glyphs.skip(0) =~= glyphs);
        }
        let w: u64 = (self.width as u64) * (ch.width() as u64);
        let mut i: usize = 0;
        while i < n
            invariant
                n == self.renderers@.len(),
                self.wf(),
                old(self).same_font(&*self),
                self.cache() == old(self).cache(),
                glyphs == old(self).glyphs(c, bold, italic),
                c == ch@.0 && bold == ch@.2 && italic == ch@.3,
                c != '\0' && n > 0,
                w == self.width * ch@.1,
                i <= n,
                w <= u32::MAX ==> first_usable(glyphs, w as u32, self.height) == first_usable(
                    glyphs.skip(i as int),
                    w as u32,
                    self.height,
                ),
            decreases n - i,
        {
            proof {
                assert(glyphs.skip(i as int).skip(1) =~= glyphs.skip(i + 1));
            }
            if w <= 0xffff_ffff {
                let h = self.height;
                let ghost before = *self;
                let slot = self.renderers[i].take();
                proof {
                    lemma_slots_update(before.renderers@, i as int, None);
                    assert(slot == before.renderers@[i as int]);
                }
                proof {
                    lemma_slot_inner(slot);
                }
                let ghost s0 = slot;
                let mut r = slot.unwrap();
                assert(r == s0->0);
                let ghost r_old = r;
                let glyph = r.get(c, bold, italic);
                let found = glyph_for(glyph, w as u32, h);
                proof {
                    lemma_glyph_at(before, i as int, c, bold, italic);
                    assert(glyphs.skip(i as int)[0] == glyphs[i as int]);
                }
                let back = Some(r);
                let ghost mid = self.renderers@;
                self.renderers.set(i, back);
                proof {
                    lemma_slots_update(mid, i as int, back);
                    lemma_slots_update(before.renderers@, i as int, back);
                    assert(self.renderers@ =~= before.renderers@.update(i as int, back));
                    lemma_slot_inner(back);
                    assert(back->0 == r);
                    assert forall|c2: char, b2: bool, i2: bool| #[trigger] slot_glyph(back, c2, b2, i2) == slot_glyph(
                        before.renderers@[i as int],
                        c2,
                        b2,
                        i2,
                    ) by {
                        assert(r.glyph_shape(c2, b2, i2) == r_old.glyph_shape(c2, b2, i2));
                    }
                    assert forall|c2: char, b2: bool, i2: bool| #[trigger] slot_size(back, c2, b2, i2) == slot_size(
                        before.renderers@[i as int],
                        c2,
                        b2,
                        i2,
                    ) by {
                        assert(r.glyph_size(c2, b2, i2) == r_old.glyph_size(c2, b2, i2));
                    }
                    lemma_slot_glyphs(before, *self, i as int, back);
                }
                match found {
                    Some(b) => {
                        return RenderResult::Subpix(b);
                    },
                    None => {},
                }
            }
            i += 1;
        }
        if (self.width as u64) * (self.height as u64) > 0xffff_ffff {
            return RenderResult::Blank;
        }
        let b = FontBufferGlyph::blank(self.width, self.height);
        assert(b.buf@ =~= blank_mask(self.width, self.height));
        RenderResult::Subpix(b)
    }
}

/// Whether `c` is the render cell of character `ch`: its character and
/// attributes, its colors in the scheme `colors`, the tick `tick`, and how
/// it is drawn: nothing for a placeholder, else as `font` draws the
/// character in its style (see [`FontBuffer::mask_for`]).
pub open spec fn cell_of(c: Cell, ch: Char, colors: Seq<Color>, tick: Tick, font: &FontBuffer) -> bool {
    &&& c.ch == ch.ch && c.width == ch.width && c.font == ch.font && c.flags == ch.flags
    &&& c.fg == scheme_color(colors, ch.fg) && c.bg == scheme_color(colors, ch.bg)
    &&& c.tick == tick
    &&& if ch.width == 0 {
        c.rend is Empty
    } else {
        renders_as(c.rend, font.mask_for((ch.ch, ch.width, spec_is_bold(ch.font), spec_is_italic(ch.font))))
    }
}

impl Cell {
    /// An empty cell: the null character, one cell wide, no attributes,
    /// drawn blank in the scheme's foreground and background colors.
    pub fn new(scheme: &ColorScheme) -> (r: Cell)
        requires
            scheme@.len() == 512,
        ensures
            r.ch == '\0' && r.width == 1,
            r.font == FontFlags(0) && r.flags == CharFlags(0),
            r.rend is Blank,
            r.fg == scheme@[256] && r.bg == scheme@[257],
            r.tick.0 == 0,
    {
        Cell {
            ch: '\0',
            width: 1,
            font: FontFlags(0),
            flags: CharFlags(0),
            rend: RenderResult::Blank,
            fg: scheme.foreground(),
            bg: scheme.background(),
            tick: Tick::default(),
        }
    }

    /// Makes this the render cell of `ch` at tick `tick` (see [`cell_of`]).
    pub fn update(&mut self, scheme: &ColorScheme, font: &mut FontBuffer, ch: Char, tick: Tick) -> (r: bool)
        requires
            old(font).wf(),
        ensures
            r,
            cell_of(*final(self), ch, scheme@, tick, &*old(font)),
            final(font).wf(),
            old(font).same_font(&*final(font)) && old(font).same_masks(&*final(font)) && (old(font).wf() ==> final(font).wf()),
    {
        self.ch = ch.ch;
        self.width = ch.width;
        self.font = ch.font;
        self.flags = ch.flags;
        self.fg = scheme.get(ch.fg);
        self.bg = scheme.get(ch.bg);
        self.rend = if ch.width == 0 {
            RenderResult::Empty
        } else {
            font.get(ch.as_font_char())
        };
        self.tick = tick;
        true
    }

    /// Empties the cell: a space without attributes, drawn blank; with
    /// `clear_color`, in the scheme's foreground and background colors.
    pub fn clear(&mut self, scheme: &ColorScheme, font: &mut FontBuffer, clear_color: bool)
        requires
            scheme@.len() == 512,
        ensures
            final(self).ch == ' ' && final(self).width == old(self).width,
            final(self).font == FontFlags(0) && final(self).flags == CharFlags(0),
            final(self).rend is Blank,
            clear_color ==> final(self).fg == scheme@[256] && final(self).bg == scheme@[257],
            !clear_color ==> final(self).fg == old(self).fg && final(self).bg == old(self).bg,
            final(self).tick == old(self).tick,
            old(font).same_font(&*final(font)) && old(font).same_masks(&*final(font)) && (old(font).wf() ==> final(font).wf()),
    {
        self.ch = ' ';
        self.font = FontFlags(0);
        self.flags = CharFlags(0);
        self.rend = RenderResult::Blank;
        if clear_color {
            self.fg = scheme.foreground();
            self.bg = scheme.background();
        }
    }
}

/// Whether cell `c` is drawn at column `x`, row `y` of a grid of `fw` by
/// `fh` pixel cells that covers `gw` by `gh` pixels: it is not a
/// placeholder, it draws something, its glyph is whole, and it fits the
/// grid.
pub open spec fn drawn_at(c: Cell, gw: int, gh: int, fw: int, fh: int, x: int, y: int) -> bool {
    &&& c.width > 0
    &&& !(c.rend is Empty)
    &&& cell_glyph_ok(c)
    &&& cell_fits(c, gw, gh, fw, fh, x, y)
}

/// `px` with the first `n` cells of a screen `cols` by `rows` cells drawn in
/// reading order (see [`drawn_at`] and [`cell_drawn`]).
pub open spec fn cells_drawn(
    px: Seq<Color>,
    pitch: int,
    fw: int,
    fh: int,
    cells: Seq<Cell>,
    cols: int,
    rows: int,
    n: int,
) -> Seq<Color>
    decreases n,
{
    if n <= 0 || cols <= 0 {
        px
    } else {
        let prev = cells_drawn(px, pitch, fw, fh, cells, cols, rows, n - 1);
        let (x, y) = ((n - 1) % cols, (n - 1) / cols);
        if drawn_at(cells[n - 1], cols * fw, rows * fh, fw, fh, x, y) {
            cell_drawn(prev, pitch, fw, fh, x, y, cells[n - 1])
        } else {
            prev
        }
    }
}

/// The cell with its colors exchanged, as the cursor shows it.
pub open spec fn swapped(c: Cell) -> Cell {
    Cell { fg: c.bg, bg: c.fg, ..c }
}

/// A whole frame on a surface of `width` by `height` pixels: every cell of
/// the screen, the margins right of and below the grid in the background
/// color `bg`, then the cell under a visible cursor with its colors
/// exchanged.
pub open spec fn frame_drawn(
    px: Seq<Color>,
    pitch: int,
    width: int,
    height: int,
    fw: int,
    fh: int,
    cells: Seq<Cell>,
    cols: int,
    rows: int,
    bg: Color,
    cursor: Cursor,
) -> Seq<Color> {
    let (gw, gh) = (cols * fw, rows * fh);
    let body = cells_drawn(px, pitch, fw, fh, cells, cols, rows, cols * rows);
    let right = painted(body, pitch, gw, 0, width - gw, gh, Paint::Solid(bg));
    let all = painted(right, pitch, 0, gh, width, height - gh, Paint::Solid(bg));
    let (cx, cy) = (cursor.pos.col as int, cursor.pos.row as int);
    let c = swapped(cells[cy * cols + cx]);
    if cursor.visible && drawn_at(c, gw, gh, fw, fh, cx, cy) {
        cell_drawn(all, pitch, fw, fh, cx, cy, c)
    } else {
        all
    }
}

/// The colors of the scheme made from palette `p`.
pub open spec fn scheme_of(p: Palette) -> Seq<Color> {
    Seq::new(512, |i: int| scheme_entry(p, i))
}

/// Whether `c` is drawn at column `x`, row `y` (see [`drawn_at`]).
fn can_draw(c: &Cell, gw: u64, gh: u64, fw: u32, fh: u32, x: u32, y: u32) -> (r: bool)
    ensures
        r == drawn_at(*c, gw as int, gh as int, fw as int, fh as int, x as int, y as int),
{
    if c.width == 0 {
        return false;
    }
    let (w, h): (u64, u64) = match &c.rend {
        RenderResult::Empty => {
            return false;
        },
        RenderResult::Subpix(g) => {
            proof {
                lemma_u32_product(g.width as int, g.height as int);
            }
            if g.buf.len() as u64 != (g.width as u64) * (g.height as u64) {
                return false;
            }
            (g.width as u64, g.height as u64)
        },
        RenderResult::Colored(g) => {
            proof {
                lemma_u32_product(g.width as int, g.height as int);
            }
            if g.buf.len() as u64 != (g.width as u64) * (g.height as u64) {
                return false;
            }
            (g.width as u64, g.height as u64)
        },
        RenderResult::Blank => (fw as u64, fh as u64),
    };
    proof {
        lemma_u32_product((x + 1) as int, fw as int);
        lemma_u32_product((y + 1) as int, fh as int);
        lemma_u32_product((x) as int, fw as int);
        lemma_u32_product((y) as int, fh as int);
    }
    let xs: u64 = (x as u64) * (fw as u64);
    let ys: u64 = (y as u64) * (fh as u64);
    (x as u64 + 1) * (fw as u64) <= gw && (y as u64 + 1) * (fh as u64) <= gh && xs + w <= gw && ys + h <= gh
}

/// The place of cell `x`, row `y` in reading order lies on the screen, and
/// gives back the column and the row.
proof fn lemma_cell_index(x: int, y: int, cols: int, rows: int)
    requires
        0 <= x < cols,
        0 <= y < rows,
    ensures
        0 <= y * cols,
        y * cols + x < cols * rows,
        (y * cols + x) % cols == x,
        (y * cols + x) / cols == y,
{
    assert(0 <= y * cols && y * cols + x < cols * rows) by (nonlinear_arith)
        requires
            0 <= x < cols,
            0 <= y < rows,
    ;
    vstd::arithmetic::div_mod::lemma_fundamental_div_mod_converse(y * cols + x, cols, y, x);
}

/// Exchanges a cell's colors.
fn swap_colors(c: &mut Cell)
    ensures
        *final(c) == swapped(*old(c)),
{
    let t = c.fg;
    c.fg = c.bg;
    c.bg = t;
}

/// The render cells of a terminal screen, with the color scheme they are
/// colored in.
pub struct Screen {
    /// Width in cells.
    width: u32,
    /// Height in cells.
    height: u32,
    /// The color scheme.
    scheme: ColorScheme,
    /// The cells in reading order.
    cells: Vec<Cell>,
    /// Whether the cells mirror the characters, so that only changed ones
    /// need updating.
    cells_valid: bool,
    /// The tick of the next flush.
    tick: Tick,
}

impl Screen {
    /// Width in cells.
    pub closed spec fn cols(&self) -> u32 {
        self.width
    }

    /// Height in cells.
    pub closed spec fn rows(&self) -> u32 {
        self.height
    }

    /// The cells in reading order.
    pub closed spec fn cells(&self) -> Seq<Cell> {
        self.cells@
    }

    /// The colors of the scheme.
    pub closed spec fn colors(&self) -> Seq<Color> {
        self.scheme@
    }

    /// Whether the cells mirror the characters.
    pub closed spec fn valid(&self) -> bool {
        self.cells_valid
    }

    /// The tick of the next flush.
    pub closed spec fn now(&self) -> Tick {
        self.tick
    }

    /// Width in cells.
    pub fn width(&self) -> (r: u32)
        ensures
            r == self.cols(),
    {
        self.width
    }

    /// Height in cells.
    pub fn height(&self) -> (r: u32)
        ensures
            r == self.rows(),
    {
        self.height
    }

    /// One cell per position, and a full scheme.
    pub open spec fn wf(&self) -> bool {
        &&& self.cells().len() == self.cols() * self.rows()
        &&& self.colors().len() == 512
    }

    /// A screen of `width` by `height` empty cells (see [`Cell::new`]) in
    /// the default palette, that the next flush fills from the characters.
    pub fn new(width: u32, height: u32) -> (r: Self)
        requires
            width * height <= usize::MAX,
        ensures
            r.wf(),
            r.cols() == width && r.rows() == height,
            forall|p: Palette|
                palette_built(p, builtin_pair(DEFAULT_PALETTE_INDEX as int), builtin_colors(DEFAULT_PALETTE_INDEX as int))
                    ==> r.colors() == scheme_of(p),
            !r.valid(),
            r.now().0 == 1,
            forall|i: int|
                0 <= i < r.cells().len() ==> {
                    let c = #[trigger] r.cells()[i];
                    &&& c.ch == '\0' && c.width == 1 && c.font == FontFlags(0) && c.flags == CharFlags(0)
                    &&& c.rend is Blank && c.fg == r.colors()[256] && c.bg == r.colors()[257] && c.tick.0 == 0
                },
    {
        let palette = Palette::default();
        let scheme = ColorScheme::new(&palette);
        proof {
            lemma_u32_product(width as int, height as int);
        }
        let n = (width as usize) * (height as usize);
        let mut cells: Vec<Cell> = Vec::new();
        let mut i: usize = 0;
        while i < n
            invariant
                i <= n,
                cells@.len() == i,
                scheme@.len() == 512,
                forall|j: int|
                    0 <= j < i ==> {
                        let c = #[trigger] cells@[j];
                        &&& c.ch == '\0' && c.width == 1 && c.font == FontFlags(0) && c.flags == CharFlags(0)
                        &&& c.rend is Blank && c.fg == scheme@[256] && c.bg == scheme@[257] && c.tick.0 == 0
                    },
            decreases n - i,
        {
            cells.push(Cell::new(&scheme));
            i += 1;
        }
        assert forall|p: Palette|
            palette_built(p, builtin_pair(DEFAULT_PALETTE_INDEX as int), builtin_colors(DEFAULT_PALETTE_INDEX as int))
                implies scheme@ == scheme_of(p) by {
            assert forall|i: int| 0 <= i < 16 implies p.ansi_colors@[i] == palette.ansi_colors@[i] by {
                assert(p.ansi_colors@[i] == readable_color(builtin_colors(DEFAULT_PALETTE_INDEX as int)[i]));
            }
            assert(scheme@ =~= scheme_of(p));
        }
        Screen { width, height, scheme, cells, cells_valid: false, tick: Tick::first() }
    }

    /// Colors the screen in `palette` from now on; the next flush updates
    /// every cell.
    pub fn set_color_scheme(&mut self, palette: &Palette)
        requires
            old(self).wf(),
        ensures
            final(self).wf(),
            final(self).colors() == scheme_of(*palette),
            !final(self).valid(),
            final(self).cols() == old(self).cols() && final(self).rows() == old(self).rows(),
            final(self).cells() == old(self).cells() && final(self).now() == old(self).now(),
    {
        self.scheme = ColorScheme::new(palette);
        self.cells_valid = false;
        assert(self.scheme@ =~= scheme_of(*palette));
    }

    /// Empties every cell in the scheme's colors (see [`Cell::clear`]); the
    /// next flush updates every cell.
    pub fn clear(&mut self, font: &mut FontBuffer)
        requires
            old(self).wf(),
        ensures
            final(self).wf(),
            !final(self).valid(),
            final(self).cols() == old(self).cols() && final(self).rows() == old(self).rows(),
            final(self).colors() == old(self).colors() && final(self).now() == old(self).now(),
            forall|i: int|
                0 <= i < final(self).cells().len() ==> {
                    let c = #[trigger] final(self).cells()[i];
                    &&& c.ch == ' ' && c.width == old(self).cells()[i].width
                    &&& c.font == FontFlags(0) && c.flags == CharFlags(0) && c.rend is Blank
                    &&& c.fg == final(self).colors()[256] && c.bg == final(self).colors()[257]
                    &&& c.tick == old(self).cells()[i].tick
                },
            old(font).same_font(&*final(font)) && old(font).same_masks(&*final(font)) && (old(font).wf() ==> final(font).wf()),
    {
        let n = self.cells.len();
        let mut i: usize = 0;
        while i < n
            invariant
                n == self.cells@.len(),
                n == old(self).cells@.len(),
                i <= n,
                self.width == old(self).width && self.height == old(self).height,
                self.scheme@ == old(self).scheme@,
                self.scheme@.len() == 512,
                self.tick == old(self).tick,
                old(font).same_font(&*font) && old(font).same_masks(&*font),
                forall|j: int|
                    0 <= j < n ==> {
                        let c = #[trigger] self.cells@[j];
                        if j < i {
                            &&& c.ch == ' ' && c.width == old(self).cells@[j].width
                            &&& c.font == FontFlags(0) && c.flags == CharFlags(0) && c.rend is Blank
                            &&& c.fg == self.scheme@[256] && c.bg == self.scheme@[257]
                            &&& c.tick == old(self).cells@[j].tick
                        } else {
                            c == old(self).cells@[j]
                        }
                    },
            decreases n - i,
        {
            self.cells[i].clear(&self.scheme, font, true);
            i += 1;
        }
        self.cells_valid = false;
    }

    /// Empties the screen (see [`Screen::clear`]) and, when the size
    /// changes, makes it `width` by `height` empty cells (see [`Cell::new`]).
    pub fn reinit(&mut self, width: u32, height: u32, font: &mut FontBuffer)
        requires
            old(self).wf(),
            width * height <= usize::MAX,
        ensures
            final(self).wf(),
            !final(self).valid(),
            final(self).cols() == width && final(self).rows() == height,
            final(self).colors() == old(self).colors() && final(self).now() == old(self).now(),
            forall|i: int|
                0 <= i < final(self).cells().len() ==> {
                    let c = #[trigger] final(self).cells()[i];
                    &&& c.font == FontFlags(0) && c.flags == CharFlags(0) && c.rend is Blank
                    &&& c.fg == final(self).colors()[256] && c.bg == final(self).colors()[257]
                },
            old(font).same_font(&*final(font)) && old(font).same_masks(&*final(font)) && (old(font).wf() ==> final(font).wf()),
    {
        self.clear(font);
        if width != self.width || height != self.height {
            proof {
                lemma_u32_product(width as int, height as int);
            }
            let n = (width as usize) * (height as usize);
            let mut cells: Vec<Cell> = Vec::new();
            let mut i: usize = 0;
            while i < n
                invariant
                    i <= n,
                    cells@.len() == i,
                    self.scheme@.len() == 512,
                    forall|j: int|
                        0 <= j < i ==> {
                            let c = #[trigger] cells@[j];
                            &&& c.font == FontFlags(0) && c.flags == CharFlags(0) && c.rend is Blank
                            &&& c.fg == self.scheme@[256] && c.bg == self.scheme@[257]
                        },
                decreases n - i,
            {
                cells.push(Cell::new(&self.scheme));
                i += 1;
            }
            self.width = width;
            self.height = height;
            self.cells = cells;
        }
    }

    /// Flushes the active screen of `buffer` to `drawable`: every cell whose
    /// character changed (every cell, when the cells do not mirror the
    /// characters yet) is updated from it at the current tick (see
    /// [`cell_of`]) and the character's change mark is taken off; then the
    /// whole frame is drawn (see [`frame_drawn`]) and the tick advances.
    #[verifier::spinoff_prover]
    pub fn flush(&mut self, drawable: &mut Drawable, buffer: &mut TerminalBuffer, font: &mut FontBuffer)
        requires
            old(self).wf(),
            old(buffer).wf(),
            old(drawable).wf(),
            old(self).cols() == old(buffer).cols() && old(self).rows() == old(buffer).rows(),
            old(font).wf(),
            old(font).cell().0 > 0 && old(font).cell().1 > 0,
            old(self).cols() * old(font).cell().0 <= old(drawable).width,
            old(self).rows() * old(font).cell().1 <= old(drawable).height,
        ensures
            final(self).wf(),
            final(self).cols() == old(self).cols() && final(self).rows() == old(self).rows(),
            final(self).colors() == old(self).colors(),
            final(self).valid(),
            final(self).now().0 == if old(self).now().0 == u32::MAX {
                0
            } else {
                old(self).now().0 + 1
            },
            forall|i: int|
                #![trigger final(self).cells()[i]]
                0 <= i < final(self).cells().len() ==> {
                    let ch = old(buffer).cells()[i / old(self).cols() as int][i % old(self).cols() as int];
                    if !old(self).valid() || ch.dirty {
                        cell_of(final(self).cells()[i], ch, old(self).colors(), old(self).now(), &*old(font))
                    } else {
                        final(self).cells()[i] == old(self).cells()[i]
                    }
                },
            final(buffer).wf(),
            final(buffer).model() == cleaned_screen(old(buffer).model()),
            old(font).same_font(&*final(font)) && old(font).same_masks(&*final(font)) && (old(font).wf() ==> final(font).wf()),
            final(drawable).wf(),
            final(drawable).width == old(drawable).width && final(drawable).height == old(drawable).height,
            final(drawable).pitch == old(drawable).pitch,
            final(drawable).buf@ == frame_drawn(
                old(drawable).buf@,
                old(drawable).pitch as int,
                old(drawable).width as int,
                old(drawable).height as int,
                old(font).cell().0 as int,
                old(font).cell().1 as int,
                final(self).cells(),
                old(self).cols() as int,
                old(self).rows() as int,
                old(self).colors()[257],
                old(buffer).cursor_state(),
            ),
    {
        let cols = self.width;
        let rows = self.height;
        let fw = font.width();
        let fh = font.height();
        let tick = self.tick;
        let ghost v0 = buffer.model();
        let ghost cells0 = self.cells@;
        let ghost colors0 = self.scheme@;
        let ghost valid0 = self.cells_valid;
        let ghost font0 = *font;
        proof {
            buffer.lemma_cells_shape();
            lemma_u32_product(cols as int, rows as int);
        }
        let n = (cols as usize) * (rows as usize);
        proof {
            assert(0 < cols * rows) by (nonlinear_arith)
                requires
                    1 <= cols,
                    1 <= rows,
            ;
            law_cleaned_upto(v0, 0);
        }
        // Update the cells from the changed characters.
        let mut y: u32 = 0;
        while y < rows
            invariant
                cols == self.width && rows == self.height && cols == v0.cols && rows == v0.rows,
                1 <= cols && 1 <= rows,
                n == cols * rows,
                y <= rows,
                self.cells@.len() == n,
                self.scheme@ == colors0,
                self.cells_valid == valid0,
                self.tick == tick,
                font0.wf() && font.wf() && font0.same_font(&*font) && font0.same_masks(&*font),
                buffer.wf(),
                buffer.model() == cleaned_upto(v0, y * cols),
                view_cells(v0).len() == rows,
                forall|yy: int| 0 <= yy < rows ==> (#[trigger] view_cells(v0)[yy]).len() == cols,
                forall|i: int|
                    #![trigger self.cells@[i]]
                    0 <= i < n ==> if i < y * cols {
                        let ch = view_cells(v0)[i / cols as int][i % cols as int];
                        if !valid0 || ch.dirty {
                            cell_of(self.cells@[i], ch, colors0, tick, &font0)
                        } else {
                            self.cells@[i] == cells0[i]
                        }
                    } else {
                        self.cells@[i] == cells0[i]
                    },
            decreases rows - y,
        {
            let mut x: u32 = 0;
            while x < cols
                invariant
                    cols == self.width && rows == self.height && cols == v0.cols && rows == v0.rows,
                    1 <= cols && 1 <= rows,
                    n == cols * rows,
                    y < rows,
                    x <= cols,
                    self.cells@.len() == n,
                    self.scheme@ == colors0,
                    self.cells_valid == valid0,
                    self.tick == tick,
                    font0.wf() && font.wf() && font0.same_font(&*font) && font0.same_masks(&*font),
                    buffer.wf(),
                    buffer.model() == cleaned_upto(v0, y * cols + x),
                    view_cells(v0).len() == rows,
                    forall|yy: int| 0 <= yy < rows ==> (#[trigger] view_cells(v0)[yy]).len() == cols,
                    forall|i: int|
                        #![trigger self.cells@[i]]
                        0 <= i < n ==> if i < y * cols + x {
                            let ch = view_cells(v0)[i / cols as int][i % cols as int];
                            if !valid0 || ch.dirty {
                                cell_of(self.cells@[i], ch, colors0, tick, &font0)
                            } else {
                                self.cells@[i] == cells0[i]
                            }
                        } else {
                            self.cells@[i] == cells0[i]
                        },
                decreases cols - x,
            {
                proof {
                    lemma_cell_index(x as int, y as int, cols as int, rows as int);
                    law_cleaned_upto(v0, y * cols + x);
                }
                let ch = buffer.get(x, y);
                let i = (y as usize) * (cols as usize) + (x as usize);
                if !self.cells_valid || ch.dirty {
                    let _ = self.cells[i].update(&self.scheme, font, ch, tick);
                    buffer.mark_clean(x, y);
                }
                x += 1;
            }
            assert(y * cols + cols == (y + 1) * cols) by (nonlinear_arith);
            y += 1;
        }
        assert(y * cols == cols * rows) by (nonlinear_arith)
            requires
                y == rows,
        ;
        self.cells_valid = true;
        assert(buffer.model() == cleaned_screen(v0));
        // Draw every cell.
        proof {
            lemma_u32_product(cols as int, fw as int);
            lemma_u32_product(rows as int, fh as int);
        }
        let gw: u64 = (cols as u64) * (fw as u64);
        let gh: u64 = (rows as u64) * (fh as u64);
        let ghost px0 = drawable.buf@;
        let ghost pitch = drawable.pitch as int;
        let ghost dw = drawable.width;
        let ghost dh = drawable.height;
        let mut y: u32 = 0;
        while y < rows
            invariant
                cols == self.width && rows == self.height,
                1 <= cols && 1 <= rows,
                n == cols * rows,
                y <= rows,
                self.cells@.len() == n,
                gw == cols * fw && gh == rows * fh,
                fw > 0 && fh > 0,
                gw <= dw && gh <= dh,
                drawable.wf(),
                drawable.width == dw && drawable.height == dh && drawable.pitch == pitch,
                drawable.buf@ == cells_drawn(px0, pitch, fw as int, fh as int, self.cells@, cols as int, rows as int, y * cols),
            decreases rows - y,
        {
            let mut x: u32 = 0;
            while x < cols
                invariant
                    cols == self.width && rows == self.height,
                    1 <= cols && 1 <= rows,
                    n == cols * rows,
                    y < rows,
                    x <= cols,
                    self.cells@.len() == n,
                    gw == cols * fw && gh == rows * fh,
                    fw > 0 && fh > 0,
                    gw <= dw && gh <= dh,
                    drawable.wf(),
                    drawable.width == dw && drawable.height == dh && drawable.pitch == pitch,
                    drawable.buf@ == cells_drawn(
                        px0,
                        pitch,
                        fw as int,
                        fh as int,
                        self.cells@,
                        cols as int,
                        rows as int,
                        y * cols + x,
                    ),
                decreases cols - x,
            {
                proof {
                    lemma_cell_index(x as int, y as int, cols as int, rows as int);
                }
                let i = (y as usize) * (cols as usize) + (x as usize);
                if can_draw(&self.cells[i], gw, gh, fw, fh, x, y) {
                    drawable.write(fw, fh, x, y, &self.cells[i]);
                }
                x += 1;
            }
            assert(y * cols + cols == (y + 1) * cols) by (nonlinear_arith);
            y += 1;
        }
        assert(y * cols == cols * rows) by (nonlinear_arith)
            requires
                y == rows,
        ;
        // The margins right of and below the grid.
        let bg = self.scheme.background();
        let none: Vec<Color> = Vec::new();
        let dwu = drawable.width;
        let dhu = drawable.height;
        drawable.paint_rect(gw as usize, 0, dwu - gw as usize, gh as usize, 0, none.as_slice(), bg, bg);
        drawable.paint_rect(0, gh as usize, dwu, dhu - gh as usize, 0, none.as_slice(), bg, bg);
        // The cell under the cursor, colors exchanged.
        let pos = buffer.cursor();
        if buffer.cursor_visible() {
            proof {
                lemma_cell_index(pos.col as int, pos.row as int, cols as int, rows as int);
            }
            let i = (pos.row as usize) * (cols as usize) + (pos.col as usize);
            let ghost before = self.cells@;
            swap_colors(&mut self.cells[i]);
            if can_draw(&self.cells[i], gw, gh, fw, fh, pos.col, pos.row) {
                drawable.write(fw, fh, pos.col, pos.row, &self.cells[i]);
            }
            swap_colors(&mut self.cells[i]);
            assert(self.cells@ =~= before);
        }
        self.tick.increment();
    }
}

impl TerminalBuffer {
    /// Flushes the active screen to `drawable` through `screen` and `font`
    /// (see [`Screen::flush`]); always reports that a frame was drawn.
    pub fn flush(&mut self, screen: &mut Screen, font: &mut FontBuffer, drawable: &mut Drawable) -> (r: bool)
        requires
            old(screen).wf(),
            old(self).wf(),
            old(drawable).wf(),
            old(screen).cols() == old(self).cols() && old(screen).rows() == old(self).rows(),
            old(font).wf(),
            old(font).cell().0 > 0 && old(font).cell().1 > 0,
            old(screen).cols() * old(font).cell().0 <= old(drawable).width,
            old(screen).rows() * old(font).cell().1 <= old(drawable).height,
        ensures
            r,
            final(self).wf(),
            final(self).model() == cleaned_screen(old(self).model()),
            final(screen).wf() && final(screen).valid(),
            final(drawable).buf@ == frame_drawn(
                old(drawable).buf@,
                old(drawable).pitch as int,
                old(drawable).width as int,
                old(drawable).height as int,
                old(font).cell().0 as int,
                old(font).cell().1 as int,
                final(screen).cells(),
                old(screen).cols() as int,
                old(screen).rows() as int,
                old(screen).colors()[257],
                old(self).cursor_state(),
            ),
    {
        screen.flush(drawable, self, font);
        true
    }
}

} // verus!
