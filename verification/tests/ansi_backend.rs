use shitty::ansi_backend::{apply_sequence, parse_command, AnsiCommand, Processor};
use shitty::ansi_color::{AnsiColor, AnsiNamedColor};
use shitty::terminal::{Terminal, TerminalMode};
use shitty::types::{AutoWrap, BufMode, CursorPosition};

fn new_term() -> Terminal {
    Terminal::new(640, 384, BufMode::Single, vec![(8, 16)])
}

fn fed(bytes: &[u8]) -> (Terminal, Processor) {
    let mut term = new_term();
    let mut p = Processor::new();
    p.advance(&mut term, bytes);
    (term, p)
}

#[test]
fn parse_command_reads_known_sequences() {
    assert_eq!(parse_command("\x1b[5A"), Some((0, AnsiCommand::CursorUp(5))));
    assert_eq!(parse_command("\x1b[3;7Hxyz"), Some((3, AnsiCommand::CursorPos(3, 7))));
    assert_eq!(parse_command("\x1b[2J"), Some((0, AnsiCommand::EraseDisplay)));
    assert_eq!(parse_command("\x1b[1;31m"), Some((0, AnsiCommand::SetGraphicsMode(vec![1, 31]))));
    assert_eq!(parse_command("\x1b[?25l"), Some((0, AnsiCommand::HideCursor)));
    assert_eq!(parse_command("\x1b[?7l"), Some((0, AnsiCommand::ResetAutoWrap)));
    assert_eq!(parse_command("\x1b[?3h"), Some((0, AnsiCommand::Other)));
    assert_eq!(parse_command("\x1b["), None);
    assert_eq!(parse_command("\x1bZ"), None);
}

#[test]
fn text_is_written() {
    let (term, _) = fed(b"hi\r\nthere");
    assert_eq!(term.tostr((0, 0), (9, 1)), "hi\nthere");
    assert_eq!(term.cursor(), CursorPosition { col: 5, row: 1 });
}

#[test]
fn cursor_sequences_move_the_cursor() {
    let (mut term, mut p) = fed(b"\x1b[3;7H");
    assert_eq!(term.cursor(), CursorPosition { col: 6, row: 2 });
    p.advance(&mut term, b"\x1b[2A\x1b[4C");
    assert_eq!(term.cursor(), CursorPosition { col: 10, row: 0 });
    p.advance(&mut term, b"\x1b[3D\x1b[1B");
    assert_eq!(term.cursor(), CursorPosition { col: 7, row: 1 });
}

#[test]
fn sgr_sets_the_style() {
    let (term, _) = fed(b"\x1b[1;31m");
    assert!(term.style().font.is_bold());
    assert_eq!(term.style().fg, AnsiColor::Named(AnsiNamedColor::Red));
    let (term, _) = fed(b"\x1b[7m");
    assert!(term.mode().contains(TerminalMode::REVERSE_COLOR));
}

#[test]
fn a_cut_escape_waits_for_the_rest() {
    let mut term = new_term();
    let mut p = Processor::new();
    p.advance(&mut term, b"ab\x1b[1");
    assert_eq!(term.cursor(), CursorPosition { col: 2, row: 0 });
    p.advance(&mut term, b";1H");
    assert_eq!(term.cursor(), CursorPosition { col: 0, row: 0 });
    assert_eq!(term.tostr((0, 0), (9, 0)), "ab");
}

#[test]
fn an_unknown_escape_is_written_as_a_character() {
    let (term, _) = fed("\x1bZ\u{e9}".as_bytes());
    assert_eq!(term.tostr((0, 0), (9, 0)), "\u{1b}Z\u{e9}");
}

#[test]
fn modes_and_regions() {
    let mut term = new_term();
    apply_sequence(&mut term, AnsiCommand::ResetAutoWrap);
    assert_eq!(term.auto_wrap(), AutoWrap::Disabled);
    apply_sequence(&mut term, AnsiCommand::SetNewLineMode);
    assert!(term.mode().contains(TerminalMode::LINE_FEED_NEW_LINE));
    apply_sequence(&mut term, AnsiCommand::CursorToApp);
    assert!(term.mode().contains(TerminalMode::APP_CURSOR));
    apply_sequence(&mut term, AnsiCommand::CursorPos(5, 5));
    apply_sequence(&mut term, AnsiCommand::SetTopAndBottom(2, 10));
    assert_eq!(term.cursor(), CursorPosition { col: 0, row: 0 });
    assert_eq!(term.scroll_top(), 1);
    apply_sequence(&mut term, AnsiCommand::SetTopAndBottom(10, 2));
    assert_eq!(term.scroll_top(), 1);
}

#[test]
fn erase_display_clears_and_homes() {
    let (mut term, mut p) = fed(b"abc\r\ndef");
    p.advance(&mut term, b"\x1b[2J");
    assert_eq!(term.cursor(), CursorPosition { col: 0, row: 0 });
    assert_eq!(term.tostr((0, 0), (9, 1)), "");
}

#[test]
fn huge_cursor_counts_wrap_as_32_bit_numbers() {
    let mut term = new_term();
    apply_sequence(&mut term, AnsiCommand::CursorPos(3, 4));
    assert_eq!(term.cursor(), CursorPosition { col: 3, row: 2 });
    // 4294967295 is -1 as a 32-bit signed number: down by -1 is up by one.
    apply_sequence(&mut term, AnsiCommand::CursorDown(4294967295));
    assert_eq!(term.cursor(), CursorPosition { col: 3, row: 1 });
    apply_sequence(&mut term, AnsiCommand::CursorUp(4294967295));
    assert_eq!(term.cursor(), CursorPosition { col: 3, row: 2 });
}
