use shitty::buffer::TerminalBuffer;
use shitty::cell::{Char, CharFlags, FontChar, FontFlags};
use shitty::color::{Color, ColorScheme, Palette};
use shitty::drawable::{blend, Drawable};
use shitty::glyph::{EmptyFontRenderer, FontGlyph, FontGlyphBuffer};
use shitty::render::{Cell, FontBufferColoredGlyph, FontBufferGlyph, RenderResult};
use shitty::screen::{glyph_for, FontBuffer, Screen};
use shitty::types::{BufMode, Tick};

fn cell(rend: RenderResult, flags: u8, fg: Color, bg: Color) -> Cell {
    Cell {
        ch: 'x',
        width: 1,
        font: FontFlags(0),
        flags: CharFlags(flags),
        rend,
        fg,
        bg,
        tick: Tick(0),
    }
}

#[test]
fn blending_a_full_mask_gives_the_foreground_and_an_empty_one_the_background() {
    let fg = Color::rgba(200, 100, 50, 255);
    let bg = Color::rgba(10, 20, 30, 255);
    assert_eq!(blend(Color::rgba(255, 255, 255, 255), fg, bg), fg);
    assert_eq!(blend(Color::rgba(0, 0, 0, 0), fg, bg), bg);
    // (128 * (200 - 10) + 10 * 255 + 255) >> 8 == 105
    assert_eq!(blend(Color::rgba(128, 0, 0, 0), fg, bg).r, 105);
}

#[test]
fn a_blank_cell_is_filled_with_its_background() {
    let mut px = vec![Color::zero(); 8 * 4];
    let mut d = Drawable::new(&mut px, 8, 4, 0);
    let bg = Color::rgb(1, 2, 3);
    d.write(2, 2, 1, 1, &cell(RenderResult::Blank, 0, Color::white(), bg));
    assert_eq!(d.get(2, 2), bg);
    assert_eq!(d.get(3, 3), bg);
    assert_eq!(d.get(1, 2), Color::zero());
    assert_eq!(d.get(4, 2), Color::zero());
    assert_eq!(d.get(2, 1), Color::zero());
}

#[test]
fn underline_and_strikethrough_rows_take_the_foreground() {
    let mut px = vec![Color::zero(); 4 * 4];
    let mut d = Drawable::new(&mut px, 4, 4, 0);
    let fg = Color::rgb(9, 9, 9);
    let bg = Color::rgb(1, 1, 1);
    d.write(4, 4, 0, 0, &cell(RenderResult::Blank, CharFlags::UNDERLINE | CharFlags::STRIKETHROUGH, fg, bg));
    assert_eq!(d.get(0, 3), fg);
    assert_eq!(d.get(3, 3), fg);
    assert_eq!(d.get(0, 2), fg);
    assert_eq!(d.get(0, 0), bg);
    assert_eq!(d.get(0, 1), bg);
}

#[test]
fn a_mask_glyph_is_blended_and_a_colored_one_copied() {
    let mut px = vec![Color::zero(); 2 * 1];
    let mut d = Drawable::new(&mut px, 2, 1, 0);
    let fg = Color::rgba(255, 255, 255, 255);
    let bg = Color::rgba(0, 0, 0, 255);
    let g = FontBufferGlyph { buf: vec![Color::rgba(255, 0, 0, 255), Color::rgba(0, 0, 0, 255)], width: 2, height: 1 };
    d.write(2, 1, 0, 0, &cell(RenderResult::Subpix(g), 0, fg, bg));
    assert_eq!(d.get(0, 0), Color::rgba(255, 0, 0, 255));
    assert_eq!(d.get(1, 0), Color::rgba(0, 0, 0, 255));
    let c = FontBufferColoredGlyph { buf: vec![Color::rgb(5, 6, 7), Color::rgb(8, 9, 10)], width: 2, height: 1 };
    d.write(2, 1, 0, 0, &cell(RenderResult::Colored(c), 0, fg, bg));
    assert_eq!(d.get(0, 0), Color::rgb(5, 6, 7));
    assert_eq!(d.get(1, 0), Color::rgb(8, 9, 10));
}

#[test]
fn a_glyph_is_sampled_centred_in_its_cell() {
    let g = FontGlyph {
        buf: FontGlyphBuffer::Filled,
        code: 'x',
        left: 0,
        top: 0,
        width: 2,
        height: 2,
        advance: 2,
        line_height: 2,
    };
    let b = glyph_for(g, 4, 2).unwrap();
    assert_eq!((b.width, b.height), (4, 2));
    assert_eq!(b.buf.len(), 8);
    // Centred: columns 1 and 2 hold the glyph, 0 and 3 are black.
    assert_eq!(b.buf[0], Color::black());
    assert_eq!(b.buf[1], Color::white());
    assert_eq!(b.buf[2], Color::white());
    assert_eq!(b.buf[3], Color::black());
    let empty = FontGlyph {
        buf: FontGlyphBuffer::Blank,
        code: 'x',
        left: 0,
        top: 0,
        width: 1,
        height: 1,
        advance: 1,
        line_height: 1,
    };
    assert!(glyph_for(empty, 0, 2).is_none());
}

#[test]
fn the_font_buffer_draws_null_blank_and_characters_as_masks() {
    let mut font = FontBuffer::new();
    assert!(matches!(font.get(FontChar::new('a', 1, false, false)), RenderResult::Blank));
    font.add_renderer(EmptyFontRenderer::new(8, 16));
    assert_eq!((font.width(), font.height()), (8, 16));
    assert!(matches!(font.get(FontChar::new('\0', 1, false, false)), RenderResult::Blank));
    match font.get(FontChar::new('a', 2, false, false)) {
        RenderResult::Subpix(g) => {
            assert_eq!((g.width, g.height), (16, 16));
            assert_eq!(g.buf.len(), 256);
        }
        _ => panic!("expected a mask"),
    }
}

#[test]
fn a_cell_takes_its_character_colors_and_glyph() {
    let scheme = ColorScheme::new(&Palette::default());
    let mut font = FontBuffer::new();
    font.add_renderer(EmptyFontRenderer::new(8, 16));
    let mut c = Cell::new(&scheme);
    assert_eq!(c.ch, '\0');
    assert_eq!(c.fg, scheme.foreground());
    assert!(matches!(c.rend, RenderResult::Blank));
    assert!(c.update(&scheme, &mut font, Char::empty().with_content('q'), Tick(7)));
    assert_eq!(c.ch, 'q');
    assert_eq!(c.tick, Tick(7));
    assert!(matches!(c.rend, RenderResult::Subpix(_)));
    let mut placeholder = Char::empty();
    placeholder.width = 0;
    c.update(&scheme, &mut font, placeholder, Tick(8));
    assert!(matches!(c.rend, RenderResult::Empty));
}

#[test]
fn flushing_draws_the_screen_and_takes_the_change_marks_off() {
    let mut buffer = TerminalBuffer::new(BufMode::Unbuffered);
    buffer.set(1, 0, Char::empty().with_content('a'), Char::empty());
    assert!(buffer.get(1, 0).dirty);
    let mut font = FontBuffer::new();
    font.add_renderer(EmptyFontRenderer::new(8, 16));
    let mut screen = Screen::new(80, 24);
    let mut px = vec![Color::rgb(1, 2, 3); 650 * 400];
    let mut d = Drawable::new(&mut px, 650, 400, 0);
    assert!(buffer.flush(&mut screen, &mut font, &mut d));
    let scheme = ColorScheme::new(&Palette::default());
    let (fg, bg) = (scheme.foreground(), scheme.background());
    // The empty cell under the cursor at the origin shows the colors
    // exchanged.
    assert_eq!(d.get(0, 0), fg);
    assert_eq!(d.get(7, 15), fg);
    // The character is a blank mask blended between its colors.
    assert_eq!(d.get(8, 0), Color::rgba(bg.r, bg.g, bg.b, fg.a));
    // Empty cells are drawn in the background color.
    assert_eq!(d.get(16, 0), bg);
    assert_eq!(d.get(639, 383), bg);
    // The margins take the background color.
    assert_eq!(d.get(645, 10), bg);
    assert_eq!(d.get(10, 390), bg);
    assert!(!buffer.get(1, 0).dirty);
    assert_eq!(buffer.get(1, 0).ch, 'a');
}

#[test]
fn a_hidden_cursor_is_not_drawn() {
    let mut buffer = TerminalBuffer::new(BufMode::Unbuffered);
    buffer.hide_cursor();
    let mut font = FontBuffer::new();
    font.add_renderer(EmptyFontRenderer::new(8, 16));
    let mut screen = Screen::new(80, 24);
    let mut px = vec![Color::zero(); 640 * 384];
    let mut d = Drawable::new(&mut px, 640, 384, 0);
    buffer.flush(&mut screen, &mut font, &mut d);
    let scheme = ColorScheme::new(&Palette::default());
    let (fg, bg) = (scheme.foreground(), scheme.background());
    assert_eq!(d.get(0, 0), bg);
    assert_ne!(fg, bg);
}

#[test]
fn clearing_and_resizing_a_screen_empties_its_cells() {
    let mut buffer = TerminalBuffer::new(BufMode::Unbuffered);
    buffer.set(0, 0, Char::empty().with_content('z'), Char::empty());
    let mut font = FontBuffer::new();
    font.add_renderer(EmptyFontRenderer::new(8, 16));
    let mut screen = Screen::new(80, 24);
    let mut px = vec![Color::zero(); 640 * 384];
    let mut d = Drawable::new(&mut px, 640, 384, 0);
    buffer.flush(&mut screen, &mut font, &mut d);
    screen.clear(&mut font);
    screen.reinit(10, 5, &mut font);
    let mut small = TerminalBuffer::new(BufMode::Unbuffered);
    small.add_renderer_size(8, 16);
    small.resize(80, 80);
    let mut px2 = vec![Color::zero(); 80 * 80];
    let mut d2 = Drawable::new(&mut px2, 80, 80, 0);
    assert_eq!((small.width(), small.height()), (10, 5));
    small.flush(&mut screen, &mut font, &mut d2);
    let scheme = ColorScheme::new(&Palette::default());
    assert_eq!(d2.get(79, 79), scheme.background());
}

#[test]
fn a_terminal_flush_draws_its_text_and_is_no_longer_dirty() {
    let mut term = shitty::terminal::Terminal::new(640, 384, BufMode::Single, vec![(8, 16)]);
    term.process(b"hi");
    assert!(term.is_dirty());
    let mut font = FontBuffer::new();
    font.add_renderer(EmptyFontRenderer::new(8, 16));
    let mut screen = Screen::new(80, 24);
    let mut px = vec![Color::zero(); 640 * 384];
    let mut d = Drawable::new(&mut px, 640, 384, 0);
    assert!(term.flush(&mut screen, &mut font, &mut d));
    assert!(!term.is_dirty());
    let scheme = ColorScheme::new(&Palette::default());
    let (fg, bg) = (scheme.foreground(), scheme.background());
    // 'h' and 'i' are blank masks blended between the colors; the cursor
    // sits after them.
    assert_eq!(d.get(0, 0), Color::rgba(bg.r, bg.g, bg.b, fg.a));
    assert_eq!(d.get(16, 0), fg);
    assert_eq!(d.get(24, 0), bg);
}

#[test]
fn the_font_buffer_asks_for_the_character_in_its_style() {
    let mut font = FontBuffer::new();
    font.add_renderer(shitty::glyph::BitmapFont::new());
    assert_eq!((font.width(), font.height()), (9, 20));
    let regular = match font.get(FontChar::new('A', 1, false, false)) {
        RenderResult::Subpix(g) => g,
        _ => panic!("expected a mask"),
    };
    let bold = match font.get(FontChar::new('A', 1, true, false)) {
        RenderResult::Subpix(g) => g,
        _ => panic!("expected a mask"),
    };
    assert_eq!((regular.width, regular.height), (9, 20));
    assert!(regular.buf.iter().any(|c| c.r != 0));
    assert!(regular.buf != bold.buf);
    // Outside printable ASCII the renderer's glyph is blank (black).
    match font.get(FontChar::new('中', 2, false, false)) {
        RenderResult::Subpix(g) => {
            assert_eq!((g.width, g.height), (18, 20));
            assert!(g.buf.iter().all(|c| c.r == 0 && c.g == 0 && c.b == 0));
        }
        _ => panic!("expected a mask"),
    }
}

#[test]
fn the_font_buffer_keeps_the_masks_it_made() {
    let mut font = FontBuffer::new();
    font.add_renderer(shitty::glyph::BitmapFont::new());
    let first = match font.get(FontChar::new('g', 1, false, false)) {
        RenderResult::Subpix(g) => g,
        _ => panic!("expected a mask"),
    };
    let again = match font.get(FontChar::new('g', 1, false, false)) {
        RenderResult::Subpix(g) => g,
        _ => panic!("expected a mask"),
    };
    assert!(first.buf == again.buf);
    font.clear();
    let after = match font.get(FontChar::new('g', 1, false, false)) {
        RenderResult::Subpix(g) => g,
        _ => panic!("expected a mask"),
    };
    assert!(first.buf == after.buf);
}

#[test]
fn sizes_come_from_the_cache_then_the_renderers() {
    let mut font = FontBuffer::new();
    assert_eq!(font.sizeof(FontChar::new('a', 1, false, false)), (0, 0));
    font.add_renderer(shitty::glyph::BitmapFont::new());
    assert_eq!(font.sizeof(FontChar::new('中', 2, false, false)), (9, 20));
    let _ = font.get(FontChar::new('中', 2, false, false));
    assert_eq!(font.sizeof(FontChar::new('中', 2, false, false)), (18, 20));
}
