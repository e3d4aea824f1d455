use shitty::terminal::{Output, Terminal};
use shitty::types::BufMode;

fn new_term() -> Terminal {
    Terminal::new(80, 32, BufMode::Single, vec![(8, 16)])
}

fn sent(term: &mut Terminal) -> Vec<Vec<u8>> {
    term.take_output()
        .into_iter()
        .filter_map(|o| match o {
            Output::PtyWrite(b) => Some(b),
            _ => None,
        })
        .collect()
}

#[test]
fn bracketed_paste_mode_toggles_output_sequence() {
    let mut term = new_term();

    term.paste("plain");
    term.process(b"\x1b[?2004h");
    term.paste("wrapped");
    term.process(b"\x1b[?2004l");
    term.paste("plain-again");

    let sent = sent(&mut term);
    assert_eq!(sent[0], b"plain");
    assert_eq!(sent[1], b"\x1b[200~wrapped\x1b[201~");
    assert_eq!(sent[2], b"plain-again");
}

#[test]
fn bracketed_paste_repeated_toggles_keep_consistent_state() {
    let mut term = new_term();

    term.process(b"\x1b[?2004h");
    term.paste("a");
    term.process(b"\x1b[?2004l");
    term.paste("b");

    let sent = sent(&mut term);
    assert_eq!(sent[0], b"\x1b[200~a\x1b[201~");
    assert_eq!(sent[1], b"b");
}

#[test]
fn device_status_and_attributes_are_answered() {
    let mut term = new_term();
    term.process(b"ab\x1b[5n\x1b[6n\x1b[c");
    let sent = sent(&mut term);
    assert_eq!(sent.as_slice(), [b"\x1b[0n".to_vec(), b"\x1b[1;3R".to_vec(), b"\x1b[?6c".to_vec()]);
}

#[test]
fn insert_and_newline_modes_toggle() {
    let mut term = new_term();
    term.process(b"\x1b[4;20h");
    assert_eq!(term.mode().0 & (1024 | 256), 1024 | 256);
    term.process(b"\x1b[4l");
    assert_eq!(term.mode().0 & (1024 | 256), 256);
}

#[test]
fn application_keypad_is_set_and_reset_by_escape() {
    let mut term = new_term();
    term.process(b"\x1b=");
    assert_eq!(term.mode().0 & 4, 4);
    term.process(b"\x1b>");
    assert_eq!(term.mode().0 & 4, 0);
}
