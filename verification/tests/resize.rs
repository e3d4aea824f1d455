use shitty::terminal::Terminal;
use shitty::types::{BufMode, CursorPosition};

fn new_term() -> Terminal {
    Terminal::new(80, 64, BufMode::Single, vec![(8, 16)])
}

#[test]
fn narrowing_reflows_a_line() {
    let mut term = new_term();
    term.process(b"abcdefgh");
    term.resize(32, 64);
    assert_eq!((term.cols(), term.rows()), (4, 4));
    assert_eq!(term.tostr((0, 0), (3, 3)), "abcdefgh");
    assert_eq!(term.cursor(), CursorPosition { col: 3, row: 1 });
}

#[test]
fn widening_joins_a_wrapped_line_again() {
    let mut term = new_term();
    term.process(b"abcdefgh");
    term.resize(32, 64);
    term.resize(80, 64);
    assert_eq!(term.tostr((0, 0), (9, 3)), "abcdefgh");
    assert_eq!(term.cursor(), CursorPosition { col: 7, row: 0 });
}

#[test]
fn the_same_size_changes_nothing() {
    let mut term = new_term();
    term.process(b"hello\r\nthere");
    term.resize(80, 64);
    assert_eq!(term.tostr((0, 0), (9, 3)), "hello\nthere");
    assert_eq!(term.cursor(), CursorPosition { col: 5, row: 1 });
}
