use shitty::ansi_color::{AnsiColor, AnsiNamedColor, AnsiRgb};
use shitty::color::{Color, ColorScheme, Palette};

#[test]
fn named_colors_round_trip_through_their_index() {
    for n in 0..300usize {
        if let Some(c) = AnsiNamedColor::from_index(n) {
            assert_eq!(c.index(), n);
        }
    }
    assert_eq!(AnsiNamedColor::from_index(0), Some(AnsiNamedColor::Black));
    assert_eq!(AnsiNamedColor::from_index(256), Some(AnsiNamedColor::Foreground));
    assert_eq!(AnsiNamedColor::from_index(16), None);
}

#[test]
fn sgr_codes_parse_and_encode() {
    assert_eq!(AnsiNamedColor::from_named_fg(31), Some(AnsiNamedColor::Red));
    assert_eq!(AnsiNamedColor::from_named_fg(97), Some(AnsiNamedColor::BrightWhite));
    assert_eq!(AnsiNamedColor::from_named_fg(38), None);
    assert_eq!(AnsiNamedColor::from_named_bg(44), Some(AnsiNamedColor::Blue));
    assert_eq!(AnsiNamedColor::Green.to_named_fg(), Some(32));
    assert_eq!(AnsiNamedColor::BrightBlack.to_named_bg(), Some(100));
    assert_eq!(AnsiNamedColor::Foreground.to_named_fg(), None);
    for code in (30u8..=37).chain(90..=97) {
        assert_eq!(AnsiNamedColor::from_named_fg(code).unwrap().to_named_fg(), Some(code));
    }
}

#[test]
fn intensity_ladder() {
    assert_eq!(AnsiNamedColor::Red.brighter(), AnsiNamedColor::BrightRed);
    assert_eq!(AnsiNamedColor::BrightRed.brighter(), AnsiNamedColor::BrightRed);
    assert_eq!(AnsiNamedColor::DimRed.brighter(), AnsiNamedColor::Red);
    assert_eq!(AnsiNamedColor::Red.dimmer(), AnsiNamedColor::DimRed);
    assert_eq!(AnsiNamedColor::BrightRed.dimmer(), AnsiNamedColor::Red);
    assert_eq!(AnsiNamedColor::Foreground.brighter(), AnsiNamedColor::BrightForeground);
    assert_eq!(AnsiNamedColor::DimForeground.brighter(), AnsiNamedColor::Foreground);
    assert_eq!(AnsiNamedColor::DimCyan.bright(), AnsiNamedColor::BrightCyan);
    assert_eq!(AnsiNamedColor::BrightCyan.dim(), AnsiNamedColor::DimCyan);
    assert_eq!(AnsiNamedColor::BrightCyan.normal(), AnsiNamedColor::Cyan);
    assert!(AnsiNamedColor::Cyan.is_normal() && AnsiNamedColor::BrightCyan.is_bright() && AnsiNamedColor::DimCyan.is_dim());
}

#[test]
fn sgr_sequences_of_colors() {
    assert_eq!(AnsiNamedColor::Red.sgr(false), b"\x1b[31m".to_vec());
    assert_eq!(AnsiNamedColor::BrightRed.sgr(true), b"\x1b[41m".to_vec());
    assert_eq!(AnsiNamedColor::DimGreen.sgr(false), b"\x1b[2;32m".to_vec());
    assert_eq!(AnsiNamedColor::Foreground.sgr(true), b"\x1b[49m".to_vec());
    assert_eq!(AnsiNamedColor::Cursor.sgr(false), Vec::<u8>::new());
    assert_eq!(AnsiColor::Indexed(200).sgr(false), b"\x1b[38;5;200m".to_vec());
    assert_eq!(AnsiRgb { r: 1, g: 22, b: 255 }.sgr(true), b"\x1b[48;2;1;22;255m".to_vec());
    assert_eq!(AnsiColor::from_named(AnsiNamedColor::Blue).sgr(true), b"\x1b[44m".to_vec());
}

#[test]
fn readable_colors_split_their_channels() {
    assert_eq!(Color::from_readable_u32(0x12_34_56), Color::rgb(0x12, 0x34, 0x56));
    assert_eq!(Color::gray(7), Color::rgba(7, 7, 7, 255));
    assert_eq!(Color::from_ansi_rgb(AnsiRgb { r: 9, g: 8, b: 7 }), Color::rgb(9, 8, 7));
}

#[test]
fn scheme_covers_palette_cube_and_grays() {
    let palette = Palette::default();
    let scheme = ColorScheme::new(&palette);
    assert_eq!(scheme.get(AnsiColor::Named(AnsiNamedColor::Red)), Color::from_readable_u32(Palette::xterm_colors()[1]));
    assert_eq!(scheme.get(AnsiColor::Indexed(16)), Color::rgb(0, 0, 0));
    assert_eq!(scheme.get(AnsiColor::Indexed(231)), Color::rgb(255, 255, 255));
    assert_eq!(scheme.get(AnsiColor::Indexed(17)), Color::rgb(0, 0, 95));
    assert_eq!(scheme.get(AnsiColor::Indexed(232)), Color::gray(8));
    assert_eq!(scheme.get(AnsiColor::Indexed(255)), Color::gray(238));
    assert_eq!(scheme.get(AnsiColor::Spec(AnsiRgb { r: 1, g: 2, b: 3 })), Color::rgb(1, 2, 3));
    assert_eq!(scheme.foreground(), Color::from_readable_u32(0xe5e5e5));
}

#[test]
fn out_of_range_palette_index_gives_the_default() {
    let a = ColorScheme::new(&Palette::get(99));
    let b = ColorScheme::new(&Palette::default());
    for i in 0..=255u8 {
        assert_eq!(a.get(AnsiColor::Indexed(i)), b.get(AnsiColor::Indexed(i)));
    }
    assert_eq!(Palette::builtin().len(), 3);
}
