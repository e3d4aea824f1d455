use shitty::cell::{widthof, Char};
use shitty::color::Palette;
use shitty::handler::version_number;
use shitty::helper::BufWriter;
use shitty::pointer::{Pointer, PointerButton, PointerButtonState};

#[test]
fn version_numbers_weigh_each_part_a_hundred_times_the_next() {
    assert_eq!(version_number(b"0.1.2"), Some(102));
    assert_eq!(version_number(b"1.2.3"), Some(10203));
    assert_eq!(version_number(b"1.x"), Some(100));
    assert_eq!(version_number(b"+7"), Some(7));
    assert_eq!(version_number(b"-7"), Some(0));
    assert_eq!(version_number(b""), Some(0));
    assert_eq!(version_number(b"1..2"), Some(10002));
    assert_eq!(version_number(b"99999.0.0.0.0"), None);
}

#[test]
fn pressing_twice_is_pressing_once_and_releasing_undoes_a_press() {
    let mut once = PointerButtonState::new();
    once.press(PointerButton::Left);
    let mut twice = once;
    twice.press(PointerButton::Left);
    assert_eq!(once, twice);

    let mut s = PointerButtonState::new();
    s.press(PointerButton::Middle);
    let before = s;
    s.press(PointerButton::Right);
    assert!(s.is_pressed(PointerButton::Right));
    assert!(s.is_pressed(PointerButton::Middle));
    s.release(PointerButton::Right);
    assert_eq!(s, before);
}

#[test]
fn a_button_is_pressed_when_pressed_after_its_last_release_and_clear() {
    let mut s = PointerButtonState::new();
    s.press(PointerButton::Left);
    s.clear();
    assert!(s.is_released(PointerButton::Left));
    s.press(PointerButton::Left);
    s.release(PointerButton::X1);
    assert!(s.is_pressed(PointerButton::Left));
    s.release(PointerButton::Left);
    s.press(PointerButton::X2);
    assert!(s.is_released(PointerButton::Left));
    assert!(s.is_pressed(PointerButton::X2));
}

#[test]
fn reporting_follows_only_the_reporting_modes() {
    let mut p = Pointer::new();
    p.set_dec_mode(1006, true);
    p.set_dec_mode(1004, true);
    p.set_dec_mode(1015, true);
    assert!(!p.reporting());
    p.set_dec_mode(9, true);
    assert!(p.reporting());
    p.set_dec_mode(9, false);
    assert!(!p.reporting());
    p.set_dec_mode(1002, true);
    assert!(p.reporting());
    p.reset_modes();
    assert!(!p.reporting());
}

#[test]
fn a_writer_keeps_the_writes_that_fit_in_order() {
    let mut buf = [0u8; 4];
    let mut w = BufWriter::new(&mut buf);
    assert!(w.write_bytes(b"ab").is_ok());
    assert!(w.write_bytes(b"cde").is_err());
    assert_eq!(w.len(), 2);
    assert!(w.write_bytes(b"cd").is_ok());
    assert!(w.write_bytes(b"e").is_err());
    assert_eq!(w.into_slice(), b"abcd");
}

#[test]
fn printable_ascii_is_one_cell_wide() {
    for c in 0x20u8..0x7f {
        assert_eq!(widthof(c as char), 1);
        assert_eq!(Char::empty().with_content(c as char).width, 1);
    }
}

#[test]
fn built_in_palettes_keep_their_names() {
    assert_eq!(Palette::get(0).name, "xterm");
    assert_eq!(Palette::get(1).name, "xterm-light");
    assert_eq!(Palette::get(2).name, "solarized-dark");
    assert_eq!(Palette::get(99).name, Palette::default().name);
}

#[test]
fn snapshots_give_the_screen_as_text() {
    let mut term = shitty::terminal::Terminal::new(640, 384, shitty::types::BufMode::Single, vec![(8, 16)]);
    term.process(b"ab");
    let s = term.snapshot(false);
    assert!(s.starts_with("ab\0"));
    assert_eq!(s.chars().filter(|c| *c != '\n').count(), 80 * 24);
    term.process(b"\x1b[?1049hxy");
    let alt = term.snapshot(false);
    assert_eq!(alt, format!("xy{}", "\n".repeat(23)));
    assert_eq!(term.snapshot(true), format!("xy{}", "\n".repeat(24)));
}
