use shitty::ansi_color::{AnsiColor, AnsiNamedColor, AnsiRgb};
use shitty::cell::Char;
use shitty::cell::{CharFlags, FontFlags};
use shitty::parser::{apply_sgr, Processor};
use shitty::terminal::{Output, Terminal};
use shitty::types::{AutoWrap, BufMode, CursorPosition};

fn new_term() -> Terminal {
    Terminal::new(80, 160, BufMode::Single, vec![(8, 16)])
}

fn pos(col: u32, row: u32) -> CursorPosition {
    CursorPosition { col, row }
}

#[test]
fn text_moves_the_cursor() {
    let mut term = new_term();
    term.process(b"abc");
    assert_eq!(term.cursor(), pos(3, 0));
    term.process(b"\r\n");
    assert_eq!(term.cursor(), pos(0, 1));
}

#[test]
fn cursor_movement_sequences() {
    let mut term = new_term();
    term.process(b"\x1b[5;4H");
    assert_eq!(term.cursor(), pos(3, 4));
    term.process(b"\x1b[2A");
    assert_eq!(term.cursor(), pos(3, 2));
    term.process(b"\x1b[B");
    assert_eq!(term.cursor(), pos(3, 3));
    term.process(b"\x1b[3C");
    assert_eq!(term.cursor(), pos(6, 3));
    term.process(b"\x1b[10D");
    assert_eq!(term.cursor(), pos(0, 3));
    term.process(b"\x1b[7G");
    assert_eq!(term.cursor(), pos(6, 3));
    term.process(b"\x1b[2d");
    assert_eq!(term.cursor(), pos(6, 1));
    term.process(b"\x1b[2E");
    assert_eq!(term.cursor(), pos(0, 3));
    term.process(b"\x1b[4C\x1b[F");
    assert_eq!(term.cursor(), pos(0, 2));
    term.process(b"\x1b[99;99f");
    assert_eq!(term.cursor(), pos(9, 9));
}

#[test]
fn cursor_is_saved_and_restored() {
    let mut term = new_term();
    term.process(b"\x1b[3;3H\x1b7\x1b[H\x1b8");
    assert_eq!(term.cursor(), pos(2, 2));
    term.process(b"\x1b[5;5H\x1b[s\x1b[1;1H\x1b[u");
    assert_eq!(term.cursor(), pos(4, 4));
}

#[test]
fn sgr_sets_attributes_and_colors() {
    let mut term = new_term();
    term.process(b"\x1b[1;3;4;31;42m");
    let s = term.style();
    assert!(s.font.is_bold() && s.font.is_italic());
    assert!(s.flags.contains(CharFlags::underline()));
    assert_eq!(s.fg, AnsiColor::Named(AnsiNamedColor::Red));
    assert_eq!(s.bg, AnsiColor::Named(AnsiNamedColor::Green));
    term.process(b"\x1b[22;23;24;39;49m");
    let s = term.style();
    assert!(!s.font.is_bold() && !s.font.is_italic());
    assert!(!s.flags.contains(CharFlags::underline()));
    assert_eq!(s.fg, AnsiColor::Named(AnsiNamedColor::Foreground));
    assert_eq!(s.bg, AnsiColor::Named(AnsiNamedColor::Background));
}

#[test]
fn sgr_extended_colors() {
    let mut term = new_term();
    term.process(b"\x1b[38;5;300;48;2;1;2;999m");
    let s = term.style();
    assert_eq!(s.fg, AnsiColor::Indexed(255));
    assert_eq!(s.bg, AnsiColor::Spec(AnsiRgb { r: 1, g: 2, b: 255 }));
    term.process(b"\x1b[95;107m");
    let s = term.style();
    assert_eq!(s.fg, AnsiColor::Named(AnsiNamedColor::BrightMagenta));
    assert_eq!(s.bg, AnsiColor::Named(AnsiNamedColor::BrightWhite));
    term.process(b"\x1b[m");
    assert_eq!(term.style(), Char::empty());
}

#[test]
fn sgr_reverse_sets_a_mode() {
    let mut term = new_term();
    term.process(b"\x1b[7m");
    assert_eq!(term.mode().0 & 0x8_0000, 0x8_0000);
    term.process(b"\x1b[27m");
    assert_eq!(term.mode().0 & 0x8_0000, 0);
}

#[test]
fn apply_sgr_skips_color_arguments() {
    let (s, m) = apply_sgr(&vec![38, 5, 1, 1], Char::empty(), 0);
    assert_eq!(s.fg, AnsiColor::Indexed(1));
    assert!(s.font.is_bold());
    assert_eq!(m, 0);
    let (s, _) = apply_sgr(&vec![38, 2, 1], Char::empty(), 0);
    assert_eq!(s, Char { font: FontFlags(1), ..Char::empty() });
}

#[test]
fn osc_sets_the_title_with_either_terminator() {
    let mut term = new_term();
    term.process(b"\x1b]0;first\x07");
    assert_eq!(term.title(), Some("first".to_string()));
    term.process(b"\x1b]2;second\x1b\\");
    assert_eq!(term.title(), Some("second".to_string()));
    term.process(b"\x1b]1;ignored\x07");
    assert_eq!(term.title(), Some("second".to_string()));
}

#[test]
fn osc_title_may_arrive_in_pieces() {
    let mut term = new_term();
    term.process(b"\x1b]2;ti");
    term.process("tlé\x07".as_bytes());
    assert_eq!(term.title(), Some("titlé".to_string()));
}

#[test]
fn osc_52_writes_decoded_text_to_the_clipboard() {
    let mut term = new_term();
    term.process(b"\x1b]52;c;aGVsbG8=\x07");
    assert_eq!(term.take_output(), vec![Output::ClipboardSet("hello".to_string())]);
}

#[test]
fn osc_52_with_bad_base64_is_ignored() {
    let mut term = new_term();
    term.process(b"\x1b]52;c;!!!!\x07");
    term.process(b"\x1b]52;c\x07");
    assert!(term.take_output().is_empty());
}

#[test]
fn osc_with_invalid_utf8_is_ignored() {
    let mut term = new_term();
    term.process(b"\x1b]2;\xff\x07");
    assert_eq!(term.title(), None);
}

#[test]
fn utf8_characters_are_assembled_across_calls() {
    let mut term = new_term();
    term.process(&[0xe4, 0xb8]);
    assert_eq!(term.cursor(), pos(0, 0));
    term.process(&[0xad]);
    assert_eq!(term.cursor(), pos(2, 0));
}

#[test]
fn malformed_utf8_writes_a_replacement() {
    let mut term = new_term();
    term.process(&[0xff]);
    assert_eq!(term.cursor(), pos(1, 0));
    term.process(&[0xe4, b'\r']);
    assert_eq!(term.cursor(), pos(0, 0));
}

#[test]
fn private_modes_toggle_wrap_cursor_and_alternate_screen() {
    let mut term = new_term();
    term.process(b"\x1b[?7l");
    assert_eq!(term.auto_wrap(), AutoWrap::Disabled);
    term.process(b"\x1b[?7h");
    assert_eq!(term.auto_wrap(), AutoWrap::Delayed);
    term.process(b"\x1b[3;3H\x1b[?1049h");
    assert_eq!(term.cursor(), pos(0, 0));
    term.process(b"\x1b[?1049l");
    assert_eq!(term.cursor(), pos(0, 0));
    term.process(b"\x1b[?1h");
    assert_eq!(term.mode().0 & 2, 2);
}

#[test]
fn unknown_and_abandoned_sequences_do_nothing() {
    let mut term = new_term();
    term.process(b"\x1b[3:4H\x1b(Bab");
    assert_eq!(term.cursor(), pos(4, 0));
}

#[test]
fn processor_feeds_a_terminal_directly() {
    let mut term = new_term();
    let mut p = Processor::new();
    p.advance(&mut term, b"\x1b[2;2Hx");
    assert_eq!(term.cursor(), pos(2, 1));
}

#[test]
fn reverse_index_at_the_top_scrolls() {
    let mut term = new_term();
    term.process(b"\x1b[2;2H\x1bM");
    assert_eq!(term.cursor(), pos(1, 1));
    term.process(b"\x1b[1;2H\x1bM");
    assert_eq!(term.cursor(), pos(1, 0));
}

#[test]
fn reset_by_escape_c_homes_the_cursor() {
    let mut term = new_term();
    term.process(b"\x1b[4;4H\x1b[1m\x1bc");
    assert_eq!(term.cursor(), pos(0, 0));
    assert_eq!(term.style(), Char::empty());
}

#[test]
fn margins_home_the_cursor() {
    let mut term = new_term();
    term.process(b"\x1b[5;5H\x1b[2;4r");
    assert_eq!(term.cursor(), pos(0, 0));
}

#[test]
fn text_reads_back_with_line_ends() {
    let mut term = new_term();
    term.process(b"hello\r\nworld");
    assert_eq!(term.tostr((0, 0), (9, 1)), "hello\nworld");
    assert_eq!(term.tostr((1, 0), (2, 1)), "ello\nwor");
}

#[test]
fn wrapped_text_reads_with_a_line_end_at_the_wrap() {
    let mut term = new_term();
    term.process(b"abcdefghijkl");
    assert_eq!(term.tostr((0, 0), (9, 1)), "abcdefghij\nkl");
}

#[test]
fn alternate_screen_text_is_a_rectangle() {
    let mut term = new_term();
    term.process(b"main\x1b[?1049hab\r\ncd");
    assert_eq!(term.tostr((0, 0), (1, 1)), "ab\ncd");
    term.process(b"\x1b[?1049l");
    assert_eq!(term.tostr((0, 0), (9, 0)), "main");
}

#[test]
fn erase_and_delete_edit_the_line() {
    let mut term = new_term();
    term.process(b"abcdef\x1b[1;2H\x1b[2P");
    assert_eq!(term.tostr((0, 0), (9, 0)), "adef");
    term.process(b"\x1b[1X");
    assert_eq!(term.tostr((0, 0), (9, 0)), "aef");
    term.process(b"\x1b[K");
    assert_eq!(term.tostr((0, 0), (9, 0)), "a");
    term.process(b"\x1b[2J");
    assert_eq!(term.tostr((0, 0), (9, 9)), "");
}

#[test]
fn wide_characters_take_two_cells() {
    let mut term = new_term();
    term.process("中文x".as_bytes());
    assert_eq!(term.cursor(), pos(5, 0));
    assert_eq!(term.tostr((0, 0), (9, 0)), "中文x");
}

#[test]
fn tab_advances_to_the_next_stop() {
    let mut term = new_term();
    term.process(b"a\tb");
    assert_eq!(term.cursor(), pos(9, 0));
}

#[test]
fn readme_example_text_and_style() {
    let mut term = Terminal::new(1280, 720, BufMode::Double, vec![(8, 16)]);
    term.process(b"Hello, \x1b[31mworld\x1b[0m!\r\n");
    assert_eq!(term.tostr((0, 0), (159, 0)), "Hello, world!");
    assert_eq!(term.style(), Char::empty());
    assert_eq!(term.cursor(), pos(0, 1));
    term.user_input(b"echo hello\r");
    assert_eq!(term.take_output(), vec![Output::PtyWrite(b"echo hello\r".to_vec())]);
}

#[test]
fn input_may_be_split_anywhere() {
    let input = "ab\x1b[2;3Hc\x1b]2;tï\x07\x1b[1mé中\r\nx".as_bytes();
    let mut whole = new_term();
    whole.process(input);
    for split in 0..=input.len() {
        let mut term = new_term();
        term.process(&input[..split]);
        term.process(&input[split..]);
        assert_eq!(term.cursor(), whole.cursor());
        assert_eq!(term.tostr((0, 0), (9, 9)), whole.tostr((0, 0), (9, 9)));
        assert_eq!(term.title(), whole.title());
        assert_eq!(term.style(), whole.style());
    }
}

#[test]
fn every_encoded_character_reads_back() {
    let mut term = new_term();
    term.process("aé中🙂".as_bytes());
    assert_eq!(term.tostr((0, 0), (9, 0)), "aé中🙂");
}

#[test]
fn mouse_modes_answer_their_status() {
    let mut term = new_term();
    term.process(b"\x1b[?1006h\x1b[?1006$p\x1b[?1006l\x1b[?1006$p\x1b[?9999$p");
    let sent: Vec<Vec<u8>> = term
        .take_output()
        .into_iter()
        .filter_map(|o| match o {
            Output::PtyWrite(b) => Some(b),
            _ => None,
        })
        .collect();
    assert_eq!(sent, vec![b"\x1b[?1006;1$y".to_vec(), b"\x1b[?1006;2$y".to_vec(), b"\x1b[?9999;0$y".to_vec()]);
}
