use shitty::ansi_color::{AnsiColor, AnsiNamedColor};
use shitty::handler::{
    clipboard_reply, clipboard_store, delete_chars, identify_terminal, newline, put_tab, reverse_index,
    set_private_mode, set_scrolling_region, terminal_attribute, TextAttribute,
};
use shitty::terminal::{Output, Terminal, TerminalMode};
use shitty::types::{BufMode, CursorPosition, CursorShape};

fn new_term() -> Terminal {
    Terminal::new(640, 384, BufMode::Single, vec![(8, 16)])
}

fn outputs(term: &mut Terminal) -> Vec<Output> {
    term.take_output()
}

#[test]
fn attributes_change_the_style() {
    let mut term = new_term();
    terminal_attribute(&mut term, TextAttribute::Bold);
    terminal_attribute(&mut term, TextAttribute::Foreground(AnsiColor::Indexed(42)));
    assert!(term.style().font.is_bold());
    assert_eq!(term.style().fg, AnsiColor::Indexed(42));
    terminal_attribute(&mut term, TextAttribute::CancelBoldDim);
    assert!(!term.style().font.is_bold());
    terminal_attribute(&mut term, TextAttribute::Reverse);
    assert!(term.mode().contains(TerminalMode::REVERSE_COLOR));
    terminal_attribute(&mut term, TextAttribute::Reset);
    assert_eq!(term.style().fg, AnsiColor::Named(AnsiNamedColor::Foreground));
    terminal_attribute(&mut term, TextAttribute::Hidden);
    assert_eq!(term.style().fg, AnsiColor::Named(AnsiNamedColor::Foreground));
}

#[test]
fn private_modes_outside_the_handled_set_are_ignored() {
    let mut term = new_term();
    set_private_mode(&mut term, 2004, true);
    assert!(term.mode().contains(TerminalMode::BRACKETED_PASTE));
    set_private_mode(&mut term, 1, true);
    assert!(term.mode().contains(TerminalMode::APP_CURSOR));
    set_private_mode(&mut term, 1, false);
    assert!(!term.mode().contains(TerminalMode::APP_CURSOR));
    let before = term.mode();
    set_private_mode(&mut term, 1004, true);
    set_private_mode(&mut term, 12, true);
    assert_eq!(term.mode(), before);
}

#[test]
fn newline_returns_the_carriage_only_in_newline_mode() {
    let mut term = new_term();
    term.put('a');
    newline(&mut term);
    assert_eq!(term.cursor(), CursorPosition { col: 1, row: 1 });
    term.set_mode(TerminalMode::LINE_FEED_NEW_LINE, true);
    newline(&mut term);
    assert_eq!(term.cursor(), CursorPosition { col: 0, row: 2 });
}

#[test]
fn reverse_index_moves_up_or_scrolls() {
    let mut term = new_term();
    term.goto_line(3);
    reverse_index(&mut term);
    assert_eq!(term.cursor().row, 2);
    term.goto_line(0);
    term.put('x');
    term.goto_col(0);
    reverse_index(&mut term);
    // At the top of the region the region scrolls by one line (as
    // `scroll(1)` does) and the cursor stays on the top row.
    assert_eq!(term.cursor().row, 0);
    assert_eq!(term.tostr((0, 0), (9, 0)), "");
}

#[test]
fn scrolling_region_and_tabs() {
    let mut term = new_term();
    term.goto_line(5);
    set_scrolling_region(&mut term, 2, Some(10));
    assert_eq!(term.scroll_top(), 2);
    assert_eq!(term.cursor(), CursorPosition { col: 0, row: 0 });
    // A tab stop is the next multiple of eight, rounding up, so the second
    // tab stays on the stop the first reached.
    term.goto_col(3);
    put_tab(&mut term, 2);
    assert_eq!(term.cursor().col, 8);
    set_scrolling_region(&mut term, 10, Some(10));
    assert_eq!(term.scroll_top(), 2);
}

#[test]
fn clipboard_store_decodes_base64() {
    let mut term = new_term();
    clipboard_store(&mut term, b"aGVsbG8=");
    assert_eq!(outputs(&mut term), vec![Output::ClipboardSet("hello".to_string())]);
    clipboard_store(&mut term, b"not base64!");
    assert_eq!(outputs(&mut term), vec![]);
}

#[test]
fn clipboard_reply_encodes_base64() {
    let mut term = new_term();
    clipboard_reply(&mut term, b'c', "hi", "\x07");
    assert_eq!(outputs(&mut term), vec![Output::PtyWrite(b"\x1b]52;c;aGk=\x07".to_vec())]);
    clipboard_reply(&mut term, b'c', "hello!", "\x1b\\");
    assert_eq!(outputs(&mut term), vec![Output::PtyWrite(b"\x1b]52;c;aGVsbG8h\x1b\\".to_vec())]);
}

#[test]
fn identify_terminal_answers() {
    let mut term = new_term();
    identify_terminal(&mut term, None, 100);
    identify_terminal(&mut term, Some('>'), 100);
    identify_terminal(&mut term, Some('='), 100);
    assert_eq!(
        outputs(&mut term),
        vec![Output::PtyWrite(b"\x1b[?6c".to_vec()), Output::PtyWrite(b"\x1b[>0;100;1c".to_vec())]
    );
}

#[test]
fn delete_chars_keeps_the_last_cell() {
    let mut term = Terminal::new(80, 32, BufMode::Single, vec![(8, 16)]);
    for c in "abcdefghij".chars() {
        term.put(c);
    }
    term.goto_col(8);
    delete_chars(&mut term, 5);
    assert_eq!(term.tostr((0, 0), (9, 0)), "abcdefghj");
}

#[test]
fn titles_are_pushed_and_popped() {
    let mut term = new_term();
    term.set_title(Some("one".to_string()));
    term.push_title();
    term.set_title(Some("two".to_string()));
    term.pop_title();
    assert_eq!(term.title(), Some("one".to_string()));
    term.take_output();
    term.pop_title();
    assert_eq!(term.title(), Some("one".to_string()));
    assert_eq!(outputs(&mut term), vec![]);
}

#[test]
fn decaln_fills_the_screen() {
    let mut term = Terminal::new(32, 32, BufMode::Single, vec![(8, 16)]);
    term.decaln();
    assert_eq!(term.tostr((0, 0), (3, 1)), "EEEEEEEE");
    term.set_cursor_shape(CursorShape::Beam);
}

#[test]
fn finish_input_marks_the_screen_dirty() {
    let mut term = new_term();
    let at_end = term.viewing_end();
    assert!(at_end);
    term.finish_input(at_end);
    assert!(term.is_dirty());
}
