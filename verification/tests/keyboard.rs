use shitty::event::{Event, ScrollDirection};
use shitty::keyboard::{Key, KeyboardManager, Modifiers, NamedKey};
use shitty::terminal::{Output, Terminal};
use shitty::types::BufMode;

fn kb() -> KeyboardManager {
    KeyboardManager::new()
}

#[test]
fn modifier_bits_follow_xterm() {
    let mut k = kb();
    assert_eq!(k.modifier_bits(), 0);
    k.modifiers = Modifiers { shift: true, alt: false, control: true, super_key: true };
    assert_eq!(k.modifier_bits(), 4 | 16);
    k.modifiers.alt = true;
    assert_eq!(k.modifier_bits(), 4 | 8 | 16);
}

#[test]
fn typed_characters_map_to_events() {
    let mut k = kb();
    assert_eq!(k.char_to_event('\x08'), Event::String("\x7f"));
    assert_eq!(k.char_to_event('\x7f'), Event::String("\x1b[3~"));
    assert_eq!(k.char_to_event('\n'), Event::String("\r"));
    assert_eq!(k.char_to_event('a'), Event::Char('a'));
    k.crnl_mapping = true;
    assert_eq!(k.char_to_event('\n'), Event::Char('\n'));
    assert_eq!(k.text_to_event("é"), Event::Char('é'));
    assert_eq!(k.text_to_event("ab"), Event::Bytes(b"ab".to_vec()));
}

#[test]
fn named_keys_send_escape_sequences() {
    let mut k = kb();
    assert_eq!(k.named_key_to_event(NamedKey::Function(1)), Some(Event::String("\x1bOP")));
    assert_eq!(k.named_key_to_event(NamedKey::Function(12)), Some(Event::String("\x1b[24~")));
    assert_eq!(k.named_key_to_event(NamedKey::Function(35)), Some(Event::String("\x1b[56~")));
    assert_eq!(k.named_key_to_event(NamedKey::Function(36)), None);
    assert_eq!(k.named_key_to_event(NamedKey::ArrowUp), Some(Event::String("\x1b[A")));
    assert_eq!(k.named_key_to_event(NamedKey::Delete), Some(Event::String("\x1b[3~")));
    assert_eq!(k.named_key_to_event(NamedKey::Enter), Some(Event::String("\r")));
    assert_eq!(k.named_key_to_event(NamedKey::Space), Some(Event::Char(' ')));
    assert_eq!(k.named_key_to_event(NamedKey::Other), None);
    k.app_cursor_mode = true;
    assert_eq!(k.named_key_to_event(NamedKey::ArrowLeft), Some(Event::String("\x1bOD")));
}

#[test]
fn control_shift_shortcuts() {
    let mut k = kb();
    k.modifiers = Modifiers { shift: true, alt: false, control: true, super_key: false };
    assert_eq!(k.handle_key(true, &Key::Named(NamedKey::Function(3)), None), Some(Event::SetColorScheme(2)));
    assert_eq!(k.handle_key(true, &Key::Named(NamedKey::Function(9)), None), None);
    assert_eq!(k.handle_key(true, &Key::Character("C".to_string()), Some("C")), Some(Event::Copy));
    assert_eq!(k.handle_key(true, &Key::Character("v".to_string()), None), Some(Event::Paste));
    assert_eq!(
        k.handle_key(true, &Key::Named(NamedKey::PageDown), None),
        Some(Event::Scroll { direction: ScrollDirection::Down, count: 1, page: true })
    );
}

#[test]
fn text_alt_and_releases() {
    let mut k = kb();
    assert_eq!(k.handle_key(false, &Key::Character("a".to_string()), Some("a")), None);
    assert_eq!(k.handle_key(true, &Key::Character("a".to_string()), Some("a")), Some(Event::Char('a')));
    assert_eq!(k.handle_key(true, &Key::Named(NamedKey::Home), None), Some(Event::String("\x1b[H")));
    assert_eq!(k.handle_key(true, &Key::Unidentified, None), None);
    k.modifiers.alt = true;
    assert_eq!(
        k.handle_key(true, &Key::Character("x".to_string()), Some("x")),
        Some(Event::Bytes(b"\x1bx".to_vec()))
    );
}

#[test]
fn terminal_key_input_reaches_the_program() {
    let mut term = Terminal::new(80, 32, BufMode::Single, vec![(8, 16)]);
    term.process(b"\x1b[?1h");
    term.handle_key(true, &Key::Named(NamedKey::ArrowUp), None);
    term.set_modifiers(Modifiers { shift: true, alt: false, control: true, super_key: false });
    term.handle_key(true, &Key::Named(NamedKey::Paste), None);
    assert_eq!(term.take_output(), vec![Output::PtyWrite(b"\x1bOA".to_vec()), Output::ClipboardGet]);
}
