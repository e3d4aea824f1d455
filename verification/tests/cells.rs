use shitty::ansi_color::{AnsiColor, AnsiNamedColor};
use shitty::cell::{widthof, Char, CharFlags, FontFlags};
use shitty::types::{BufMode, CursorPosition, Tick};

#[test]
fn character_widths() {
    assert_eq!(widthof('a'), 1);
    assert_eq!(widthof('中'), 2);
    assert_eq!(widthof('\u{7}'), 1);
}

#[test]
fn font_and_decoration_flags() {
    let mut f = FontFlags::default();
    f.set_bold(true);
    f.set_italic(true);
    assert_eq!(f, FontFlags::bold_italic());
    f.set_bold(false);
    assert_eq!(f, FontFlags::italic());
    let mut g = CharFlags::empty();
    g.insert(CharFlags::underline());
    assert!(g.contains(CharFlags::underline()) && !g.contains(CharFlags::strikethrough()));
    g.remove(CharFlags::underline());
    assert!(g.is_empty());
}

#[test]
fn cell_kinds_and_colors() {
    let c = Char::empty().with_content('x').with_color(AnsiColor::Indexed(3), AnsiColor::Indexed(4));
    assert_eq!(c.ch, 'x');
    assert!(Char::empty().is_empty() && Char::placeholder().is_placeholder() && Char::space().is_space());
    assert!(c.as_empty().is_empty());
    assert!(c.as_placeholder().is_placeholder());
    let inv = c.invert_color();
    assert_eq!((inv.fg, inv.bg), (AnsiColor::Indexed(4), AnsiColor::Indexed(3)));
    assert_eq!(Char::empty().fg, AnsiColor::Named(AnsiNamedColor::Foreground));
}

#[test]
fn buffer_modes_and_ticks() {
    assert_eq!(BufMode::from_code(2), Some(BufMode::Double));
    assert_eq!(BufMode::from_code(4), None);
    assert_eq!(BufMode::Triple.frames(), 3);
    assert_eq!(BufMode::Unbuffered.frames(), 1);
    assert_eq!(BufMode::Single.code(), 1);
    let mut t = Tick::first();
    t.increment();
    assert_eq!(t, Tick(2));
    assert_eq!(CursorPosition::origin(), CursorPosition { col: 0, row: 0 });
}
