use shitty::buffer::TerminalBuffer;
use shitty::cell::Char;
use shitty::types::BufMode;

#[test]
fn a_cell_reads_back_what_was_written() {
    let mut b = TerminalBuffer::new(BufMode::Single);
    let c = Char::empty().with_content('x');
    b.set(3, 2, c, Char::empty());
    assert_eq!(b.get(3, 2), c);
    assert_eq!(b.get(4, 2), Char::empty());
    assert_eq!(b.get(3, 1), Char::empty());
}

#[test]
fn writing_over_a_wide_character_clears_its_other_half() {
    let mut b = TerminalBuffer::new(BufMode::Single);
    let wide = Char::empty().with_content('中');
    assert_eq!(wide.width, 2);
    b.set(0, 0, wide, Char::empty());
    assert_eq!(b.get(1, 0).width, 0);
    let narrow = Char::empty().with_content('a');
    b.set(1, 0, narrow, Char::empty());
    assert_eq!(b.get(1, 0), narrow);
    assert_eq!(b.get(0, 0).ch, '\0');
}

#[test]
fn the_alternate_screen_reads_back_too() {
    let mut b = TerminalBuffer::new(BufMode::Single);
    b.enter_alternate();
    let c = Char::empty().with_content('q');
    b.set(79, 23, c, Char::empty());
    assert_eq!(b.get(79, 23), c);
    assert_eq!(b.tostr((78, 23), (79, 23)), "q");
}
