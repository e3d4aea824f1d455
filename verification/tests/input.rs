use shitty::cell::{Char, FontChar};
use shitty::helper::TerminalProcessInput;

#[test]
fn a_byte_is_held_inline() {
    let input = TerminalProcessInput::from(b'x');
    assert_eq!(input.as_ref(), b"x");
}

#[test]
fn a_char_is_held_as_utf8() {
    assert_eq!(TerminalProcessInput::from('a').as_ref(), b"a");
    assert_eq!(TerminalProcessInput::from('\u{e9}').as_ref(), "\u{e9}".as_bytes());
    assert_eq!(TerminalProcessInput::from('\u{4e2d}').as_ref(), "\u{4e2d}".as_bytes());
    assert_eq!(TerminalProcessInput::from('\u{1f600}').as_ref(), "\u{1f600}".as_bytes());
    match TerminalProcessInput::from('\u{e9}') {
        TerminalProcessInput::Inner(buf, len) => assert_eq!((buf, len), ([0xc3, 0xa9, 0, 0], 2)),
        TerminalProcessInput::Outer(_) => panic!("a char is held inline"),
    }
}

#[test]
fn borrowed_bytes_pass_through() {
    let bytes: &[u8] = b"\x1b[1m";
    assert_eq!(TerminalProcessInput::from(bytes).as_ref(), b"\x1b[1m");
    assert_eq!(TerminalProcessInput::from("h\u{e9}").as_ref(), "h\u{e9}".as_bytes());
    assert_eq!(TerminalProcessInput::from(b"abc").as_ref(), b"abc");
}

#[test]
fn font_char_of_a_cell() {
    let mut c = Char::space().with_content('w');
    assert_eq!(c.as_font_char(), FontChar::new('w', 1, false, false));
    c.font.set_bold(true);
    assert_eq!(c.as_font_char(), FontChar::new('w', 1, true, false));
    c.font.set_italic(true);
    assert_eq!(c.as_font_char(), FontChar::new('w', 1, true, true));
}
