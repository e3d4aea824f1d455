use shitty::terminal::{Output, Terminal};
use shitty::types::BufMode;

fn new_term(width: u32, height: u32) -> Terminal {
    Terminal::new(width, height, BufMode::Single, vec![(8, 16)])
}

fn sent(term: &mut Terminal) -> Vec<Vec<u8>> {
    term.take_output()
        .into_iter()
        .filter_map(|o| match o {
            Output::PtyWrite(b) => Some(b),
            _ => None,
        })
        .collect()
}

#[test]
fn new_terminal() {
    let term = Terminal::new(80, 32, BufMode::Unbuffered, vec![(8, 16)]);
    drop(term);
}

#[test]
fn new_initializes_grid_from_pixel_size() {
    let term = new_term(80, 32);
    assert_eq!(term.cols(), 10);
    assert_eq!(term.rows(), 2);
}

#[test]
fn resize_updates_grid_from_pixel_size() {
    let mut term = new_term(80, 32);
    term.resize(160, 48);
    assert_eq!(term.cols(), 20);
    assert_eq!(term.rows(), 3);
}

#[test]
fn input_forwards_to_pty_write_callback() {
    let mut term = new_term(80, 32);
    term.user_input(b"hello");
    let sent = sent(&mut term);
    assert_eq!(sent.concat(), b"hello");
}

#[test]
fn input_forwards_empty_and_utf8_text() {
    let mut term = new_term(80, 32);
    term.user_input(b"");
    term.user_input("中文🙂".as_bytes());

    let sent = sent(&mut term);
    assert_eq!(sent.len(), 2);
    assert_eq!(sent[0], b"");
    assert_eq!(sent[1], "中文🙂".as_bytes());
}

#[test]
fn zero_size_keeps_the_default_grid() {
    let term = Terminal::new(0, 0, BufMode::Double, vec![(8, 16), (10, 20)]);
    assert_eq!(term.cols(), 80);
    assert_eq!(term.rows(), 24);
}

#[test]
fn first_font_fixes_the_cell_size() {
    let term = Terminal::new(100, 100, BufMode::Double, vec![(10, 20), (5, 5)]);
    assert_eq!(term.cols(), 10);
    assert_eq!(term.rows(), 5);
}

#[test]
fn title_and_bell_are_passed_to_the_host() {
    let mut term = new_term(80, 32);
    term.process(b"\x1b]2;hello\x07\x07");
    assert_eq!(term.title(), Some("hello".to_string()));
    assert_eq!(term.take_output(), vec![Output::Title(Some("hello".to_string())), Output::Bell]);
}
