use shitty::color::Color;
use shitty::glyph::{
    BitmapFont, EmptyFontRenderer, FontGlyph, FontGlyphBuffer, FontGlyphBufferType, FontRenderer, IBM_VGA_8x16,
};

fn glyph(buf: FontGlyphBuffer<'_>, width: i32, height: i32) -> FontGlyph<'_> {
    FontGlyph { buf, code: 'x', left: 0, top: 0, width, height, advance: width, line_height: height }
}

#[test]
fn buffer_types() {
    assert_eq!(FontGlyphBuffer::Blank.ty(), FontGlyphBufferType::Empty);
    assert_eq!(FontGlyphBuffer::Filled.ty(), FontGlyphBufferType::Empty);
    assert_eq!(FontGlyphBuffer::Owned1DBitmap(vec![0]).ty(), FontGlyphBufferType::Bitmap);
    assert_eq!(FontGlyphBuffer::Owned2DGray(vec![vec![0]]).ty(), FontGlyphBufferType::Gray);
    assert_eq!(FontGlyphBuffer::Owned1DSubpix(vec![Color::zero()]).ty(), FontGlyphBufferType::Subpix);
    assert_eq!(FontGlyphBuffer::Owned2DColored(vec![vec![Color::zero()]]).ty(), FontGlyphBufferType::Colored);
}

#[test]
fn bitmap_pixels_come_from_the_most_significant_bit() {
    // 4 by 4 pixels: rows 1000, 0100, 0010, 0001 packed into two bytes.
    let bits: [u8; 2] = [0b1000_0100, 0b0010_0001];
    let g = glyph(FontGlyphBuffer::Slice1DBitmap(&bits), 4, 4);
    for y in 0..4u32 {
        for x in 0..4u32 {
            let expected = if x == y { Color::white() } else { Color::black() };
            assert_eq!(g.get(x, y), expected, "pixel ({x}, {y})");
        }
    }
}

#[test]
fn pixels_outside_the_glyph_are_black() {
    let g = FontGlyph { left: 2, top: 1, ..glyph(FontGlyphBuffer::Filled, 3, 2) };
    assert_eq!(g.get(2, 1), Color::white());
    assert_eq!(g.get(4, 2), Color::white());
    assert_eq!(g.get(1, 1), Color::black());
    assert_eq!(g.get(5, 1), Color::black());
    assert_eq!(g.get(2, 3), Color::black());
    assert_eq!(g.get(2, 0), Color::black());
}

#[test]
fn gray_and_colored_layouts() {
    let gray = vec![10u8, 20, 30, 40, 50, 60];
    let g = glyph(FontGlyphBuffer::Vec1DGray(&gray), 3, 2);
    assert_eq!(g.get(1, 1), Color::gray(50));
    let rows: Vec<Vec<u8>> = vec![vec![1, 2], vec![3, 4]];
    let g = glyph(FontGlyphBuffer::Owned2DGray(rows), 2, 2);
    assert_eq!(g.get(0, 1), Color::gray(3));
    let red = Color::rgb(255, 0, 0);
    let colors = [Color::zero(), red];
    let g = glyph(FontGlyphBuffer::Slice1DColored(&colors), 2, 1);
    assert_eq!(g.get(1, 0), red);
}

#[test]
fn align_to_centres_and_rounds_toward_zero() {
    let g = FontGlyph { left: 1, top: 2, ..glyph(FontGlyphBuffer::Blank, 9, 20) };
    let a = g.align_to(12, 24);
    assert_eq!((a.left, a.top, a.width, a.height, a.advance, a.line_height), (2, 4, 9, 20, 12, 24));
    let g = FontGlyph { left: 1, top: 2, ..glyph(FontGlyphBuffer::Blank, 9, 20) };
    let a = g.align_to(4, 19);
    // (4 - 9) / 2 == -2 and (19 - 20) / 2 == 0, both rounded toward zero.
    assert_eq!((a.left, a.top, a.advance, a.line_height), (-1, 2, 4, 19));
}

#[test]
fn empty_renderer_draws_blank_cells() {
    let mut r = EmptyFontRenderer::new(7, 13);
    assert_eq!(r.size(), (7, 13));
    assert_eq!(r.sizeof('a', true, false), Some((7, 13)));
    let g = r.get('a', false, false);
    assert_eq!(g.buf.ty(), FontGlyphBufferType::Empty);
    assert_eq!((g.code, g.width, g.height, g.advance, g.line_height), ('a', 7, 13, 7, 13));
    assert_eq!(g.get(3, 3), Color::black());
}

#[test]
fn vga_renderer_has_fixed_cells() {
    let mut r = IBM_VGA_8x16::new();
    assert_eq!(r.size(), (8, 16));
    assert_eq!(r.sizeof('z', false, true), Some((8, 16)));
    let g = r.get('z', false, false);
    assert_eq!((g.width, g.height, g.advance, g.line_height), (8, 16, 8, 16));
}

#[test]
fn bitmap_font_draws_printable_ascii() {
    let mut r = BitmapFont::new();
    assert_eq!(r.size(), (9, 20));
    let g = r.get('A', false, false);
    assert_eq!(g.buf.ty(), FontGlyphBufferType::Gray);
    assert_eq!((g.width, g.height, g.advance, g.line_height), (9, 20, 9, 20));
    let mut lit = false;
    for y in 0..20 {
        for x in 0..9 {
            if g.get(x, y).r > 0 {
                lit = true;
            }
        }
    }
    assert!(lit);
    assert_eq!(g.get(9, 0), Color::black());
    let g = r.get('\u{e9}', true, false);
    assert_eq!(g.buf.ty(), FontGlyphBufferType::Empty);
}
