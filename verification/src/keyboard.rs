//! Keyboard input: turning key presses into the events the terminal
//! handles (text, escape sequences for named keys, and the shortcuts for
//! copying, pasting, scrolling and switching color schemes).

use vstd::prelude::*;
use vstd::string::StrSliceExecFns;
use vstd::utf8::encode_utf8;

use crate::event::{Event, ScrollDirection};
use crate::helper::push_all;

verus! {

/// A key with a name rather than a character.
#[derive(Debug, Clone, Copy, PartialEq, Eq, PartialOrd, Ord, Hash, Structural)]
pub enum NamedKey {
    /// Function key `F1` to `F35` (other numbers are no key).
    Function(u8),
    ArrowUp,
    ArrowDown,
    ArrowRight,
    ArrowLeft,
    Home,
    End,
    Insert,
    Delete,
    PageUp,
    PageDown,
    Enter,
    Tab,
    Space,
    Backspace,
    Escape,
    Copy,
    Paste,
    /// Any other named key.
    Other,
}

/// A key as the windowing system reports it.
#[derive(Debug, Clone, PartialEq, Eq)]
pub enum Key {
    /// A named key.
    Named(NamedKey),
    /// A key that types text.
    Character(String),
    /// A key that could not be identified.
    Unidentified,
}

/// The modifier keys held down.
#[derive(Debug, Clone, Copy, PartialEq, Eq, PartialOrd, Ord, Hash, Default, Structural)]
pub struct Modifiers {
    pub shift: bool,
    pub alt: bool,
    pub control: bool,
    pub super_key: bool,
}

/// Converts key presses into terminal input.
#[derive(Debug, Clone, Copy, PartialEq, Eq)]
pub struct KeyboardManager {
    /// Cursor keys send application sequences (`ESC O`).
    pub app_cursor_mode: bool,
    /// Whether a typed carriage return is passed on as typed rather than
    /// turned into `CR`.
    pub crnl_mapping: bool,
    /// The modifier keys held down.
    pub modifiers: Modifiers,
}

/// The modifier bits of xterm's mouse reports: shift 4, alt 8, control 16.
pub open spec fn modifier_bits_of(m: Modifiers) -> u8 {
    ((if m.shift { 4int } else { 0 }) + (if m.alt { 8int } else { 0 }) + (if m.control { 16int } else { 0 })) as u8
}

/// The event for a typed character: backspace sends DEL, DEL sends the
/// delete key's sequence, a newline or carriage return sends `CR` unless
/// CR/LF mapping is on; other characters are sent as they are.
pub open spec fn char_event(crnl: bool, c: char) -> Event {
    if c == '\x08' {
        Event::String("\x7f")
    } else if c == '\x7f' {
        Event::String("\x1b[3~")
    } else if (c == '\n' || c == '\r') && !crnl {
        Event::String("\r")
    } else {
        Event::Char(c)
    }
}

/// Whether `e` is the event for typed text `text`: a single character as
/// [`char_event`] says, anything else as its UTF-8 bytes.
pub open spec fn is_text_event(crnl: bool, text: Seq<char>, e: Event) -> bool {
    if text.len() == 1 {
        e == char_event(crnl, text[0])
    } else {
        e matches Event::Bytes(b) && b@ == encode_utf8(text)
    }
}

/// The escape sequence of a named key; the cursor keys send `ESC O` forms
/// in application mode.
pub open spec fn named_sequence(key: NamedKey, app: bool) -> Option<&'static str> {
    match key {
        NamedKey::Function(n) => if n == 1 {
            Some("\x1bOP")
        } else if n == 2 {
            Some("\x1bOQ")
        } else if n == 3 {
            Some("\x1bOR")
        } else if n == 4 {
            Some("\x1bOS")
        } else if n == 5 {
            Some("\x1b[15~")
        } else if n == 6 {
            Some("\x1b[17~")
        } else if n == 7 {
            Some("\x1b[18~")
        } else if n == 8 {
            Some("\x1b[19~")
        } else if n == 9 {
            Some("\x1b[20~")
        } else if n == 10 {
            Some("\x1b[21~")
        } else if n == 11 {
            Some("\x1b[23~")
        } else if n == 12 {
            Some("\x1b[24~")
        } else if n == 13 {
            Some("\x1b[25~")
        } else if n == 14 {
            Some("\x1b[26~")
        } else if n == 15 {
            Some("\x1b[28~")
        } else if n == 16 {
            Some("\x1b[29~")
        } else if n == 17 {
            Some("\x1b[31~")
        } else if n == 18 {
            Some("\x1b[32~")
        } else if n == 19 {
            Some("\x1b[33~")
        } else if n == 20 {
            Some("\x1b[34~")
        } else if n == 21 {
            Some("\x1b[42~")
        } else if n == 22 {
            Some("\x1b[43~")
        } else if n == 23 {
            Some("\x1b[44~")
        } else if n == 24 {
            Some("\x1b[45~")
        } else if n == 25 {
            Some("\x1b[46~")
        } else if n == 26 {
            Some("\x1b[47~")
        } else if n == 27 {
            Some("\x1b[48~")
        } else if n == 28 {
            Some("\x1b[49~")
        } else if n == 29 {
            Some("\x1b[50~")
        } else if n == 30 {
            Some("\x1b[51~")
        } else if n == 31 {
            Some("\x1b[52~")
        } else if n == 32 {
            Some("\x1b[53~")
        } else if n == 33 {
            Some("\x1b[54~")
        } else if n == 34 {
            Some("\x1b[55~")
        } else if n == 35 {
            Some("\x1b[56~")
        } else {
            None
        },
        NamedKey::ArrowUp => Some(if app { "\x1bOA" } else { "\x1b[A" }),
        NamedKey::ArrowDown => Some(if app { "\x1bOB" } else { "\x1b[B" }),
        NamedKey::ArrowRight => Some(if app { "\x1bOC" } else { "\x1b[C" }),
        NamedKey::ArrowLeft => Some(if app { "\x1bOD" } else { "\x1b[D" }),
        NamedKey::Home => Some("\x1b[H"),
        NamedKey::End => Some("\x1b[F"),
        NamedKey::Insert => Some("\x1b[2~"),
        NamedKey::Delete => Some("\x1b[3~"),
        NamedKey::PageUp => Some("\x1b[5~"),
        NamedKey::PageDown => Some("\x1b[6~"),
        _ => None,
    }
}

/// The event of a named key: its escape sequence, or for the keys without
/// one the character or request they stand for.
pub open spec fn named_event(key: NamedKey, app: bool) -> Option<Event> {
    match named_sequence(key, app) {
        Some(s) => Some(Event::String(s)),
        None => match key {
            NamedKey::Enter => Some(Event::String("\r")),
            NamedKey::Tab => Some(Event::String("\t")),
            NamedKey::Space => Some(Event::Char(' ')),
            NamedKey::Backspace => Some(Event::String("\x7f")),
            NamedKey::Escape => Some(Event::String("\x1b")),
            NamedKey::Copy => Some(Event::Copy),
            NamedKey::Paste => Some(Event::Paste),
            _ => None,
        },
    }
}

/// A key pressed with control and shift: `F1` to `F8` switch to color
/// scheme 0 to 7, copy and paste (also `C` and `V`) request them, the up
/// and down arrows and page keys scroll by a line or a page.
pub open spec fn shortcut_event(key: Key) -> Option<Event> {
    match key {
        Key::Named(NamedKey::Function(n)) => if 1 <= n <= 8 {
            Some(Event::SetColorScheme((n - 1) as usize))
        } else {
            None
        },
        Key::Named(NamedKey::Copy) => Some(Event::Copy),
        Key::Named(NamedKey::Paste) => Some(Event::Paste),
        Key::Named(NamedKey::ArrowUp) => Some(Event::Scroll { direction: ScrollDirection::Up, count: 1, page: false }),
        Key::Named(NamedKey::PageUp) => Some(Event::Scroll { direction: ScrollDirection::Up, count: 1, page: true }),
        Key::Named(NamedKey::ArrowDown) => Some(Event::Scroll { direction: ScrollDirection::Down, count: 1, page: false }),
        Key::Named(NamedKey::PageDown) => Some(Event::Scroll { direction: ScrollDirection::Down, count: 1, page: true }),
        Key::Character(s) => if s@ == seq!['c'] || s@ == seq!['C'] {
            Some(Event::Copy)
        } else if s@ == seq!['v'] || s@ == seq!['V'] {
            Some(Event::Paste)
        } else {
            None
        },
        _ => None,
    }
}

/// Whether `r` is what a key event gives: nothing for a release; the
/// shortcut with control and shift held; else typed text, prefixed with
/// `ESC` when alt (without control or super) is held; else the named key's
/// event or the key's own text.
pub open spec fn key_outcome(kb: KeyboardManager, pressed: bool, key: Key, text: Option<Seq<char>>, r: Option<Event>) -> bool {
    let m = kb.modifiers;
    if !pressed {
        r is None
    } else if m.control && m.shift {
        r == shortcut_event(key)
    } else if text is Some && text->0.len() > 0 {
        let t = text->0;
        if m.alt && !m.control && !m.super_key {
            r matches Some(Event::Bytes(b)) && b@ == seq![0x1bu8] + encode_utf8(t)
        } else {
            r matches Some(e) && is_text_event(kb.crnl_mapping, t, e)
        }
    } else {
        match key {
            Key::Named(k) => r == named_event(k, kb.app_cursor_mode),
            Key::Character(s) => r matches Some(e) && is_text_event(kb.crnl_mapping, s@, e),
            Key::Unidentified => r is None,
        }
    }
}

impl KeyboardManager {
    /// A keyboard in normal cursor mode, without CR/LF mapping and with no
    /// modifier held.
    pub fn new() -> (r: Self)
        ensures
            !r.app_cursor_mode && !r.crnl_mapping,
            r.modifiers == (Modifiers { shift: false, alt: false, control: false, super_key: false }),
    {
        KeyboardManager {
            app_cursor_mode: false,
            crnl_mapping: false,
            modifiers: Modifiers { shift: false, alt: false, control: false, super_key: false },
        }
    }

    /// The modifier bits for mouse reports (see [`modifier_bits_of`]).
    pub fn modifier_bits(&self) -> (r: u8)
        ensures
            r == modifier_bits_of(self.modifiers),
    {
        let mut bits: u8 = 0;
        if self.modifiers.shift {
            bits = bits + 4;
        }
        if self.modifiers.alt {
            bits = bits + 8;
        }
        if self.modifiers.control {
            bits = bits + 16;
        }
        bits
    }

    /// The event for a typed character (see [`char_event`]).
    pub fn char_to_event(&self, c: char) -> (r: Event)
        ensures
            r == char_event(self.crnl_mapping, c),
    {
        if c == '\x08' {
            Event::String("\x7f")
        } else if c == '\x7f' {
            Event::String("\x1b[3~")
        } else if (c == '\n' || c == '\r') && !self.crnl_mapping {
            Event::String("\r")
        } else {
            Event::Char(c)
        }
    }

    /// The event for typed text (see [`is_text_event`]).
    pub fn text_to_event(&self, text: &str) -> (r: Event)
        ensures
            is_text_event(self.crnl_mapping, text@, r),
    {
        if text.unicode_len() == 1 {
            let c = text.get_char(0);
            self.char_to_event(c)
        } else {
            let mut bytes: Vec<u8> = Vec::new();
            push_all(&mut bytes, text.as_bytes());
            assert(bytes@ =~= encode_utf8(text@));
            Event::Bytes(bytes)
        }
    }

    /// The escape sequence of a named key (see [`named_sequence`]).
    pub fn named_key_sequence(&self, key: NamedKey) -> (r: Option<&'static str>)
        ensures
            r == named_sequence(key, self.app_cursor_mode),
    {
        let app = self.app_cursor_mode;
        match key {
            NamedKey::Function(n) => function_key_sequence(n),
            NamedKey::ArrowUp => Some(if app { "\x1bOA" } else { "\x1b[A" }),
            NamedKey::ArrowDown => Some(if app { "\x1bOB" } else { "\x1b[B" }),
            NamedKey::ArrowRight => Some(if app { "\x1bOC" } else { "\x1b[C" }),
            NamedKey::ArrowLeft => Some(if app { "\x1bOD" } else { "\x1b[D" }),
            NamedKey::Home => Some("\x1b[H"),
            NamedKey::End => Some("\x1b[F"),
            NamedKey::Insert => Some("\x1b[2~"),
            NamedKey::Delete => Some("\x1b[3~"),
            NamedKey::PageUp => Some("\x1b[5~"),
            NamedKey::PageDown => Some("\x1b[6~"),
            _ => None,
        }
    }

    /// The event of a named key (see [`named_event`]).
    pub fn named_key_to_event(&self, key: NamedKey) -> (r: Option<Event>)
        ensures
            r == named_event(key, self.app_cursor_mode),
    {
        match self.named_key_sequence(key) {
            Some(s) => Some(Event::String(s)),
            None => match key {
                NamedKey::Enter => Some(Event::String("\r")),
                NamedKey::Tab => Some(Event::String("\t")),
                NamedKey::Space => Some(Event::Char(' ')),
                NamedKey::Backspace => Some(Event::String("\x7f")),
                NamedKey::Escape => Some(Event::String("\x1b")),
                NamedKey::Copy => Some(Event::Copy),
                NamedKey::Paste => Some(Event::Paste),
                _ => None,
            },
        }
    }

    /// The event of a key pressed with control and shift (see
    /// [`shortcut_event`]).
    pub fn handle_function(&self, key: &Key) -> (r: Option<Event>)
        ensures
            r == shortcut_event(*key),
    {
        match key {
            Key::Named(NamedKey::Function(n)) => {
                if 1 <= *n && *n <= 8 {
                    Some(Event::SetColorScheme((*n - 1) as usize))
                } else {
                    None
                }
            },
            Key::Named(NamedKey::Copy) => Some(Event::Copy),
            Key::Named(NamedKey::Paste) => Some(Event::Paste),
            Key::Named(NamedKey::ArrowUp) => Some(Event::Scroll { direction: ScrollDirection::Up, count: 1, page: false }),
            Key::Named(NamedKey::PageUp) => Some(Event::Scroll { direction: ScrollDirection::Up, count: 1, page: true }),
            Key::Named(NamedKey::ArrowDown) => Some(
                Event::Scroll { direction: ScrollDirection::Down, count: 1, page: false },
            ),
            Key::Named(NamedKey::PageDown) => Some(
                Event::Scroll { direction: ScrollDirection::Down, count: 1, page: true },
            ),
            Key::Character(s) => {
                let t = s.as_str();
                if t.unicode_len() == 1 {
                    let c = t.get_char(0);
                    proof {
                        assert(s@.len() == 1);
                        assert(s@ =~= seq![c]);
                    }
                    if c == 'c' || c == 'C' {
                        Some(Event::Copy)
                    } else if c == 'v' || c == 'V' {
                        Some(Event::Paste)
                    } else {
                        proof {
                            assert(seq!['c'][0] == 'c' && seq!['C'][0] == 'C' && seq!['v'][0] == 'v' && seq!['V'][0] == 'V');
                        }
                        None
                    }
                } else {
                    proof {
                        assert(seq!['c'].len() == 1 && seq!['C'].len() == 1 && seq!['v'].len() == 1 && seq!['V'].len() == 1);
                    }
                    None
                }
            },
            _ => None,
        }
    }

    /// Handles a key event: `pressed` tells a press from a release, `text`
    /// is the text the key typed, if any (see [`key_outcome`]).
    pub fn handle_key(&self, pressed: bool, key: &Key, text: Option<&str>) -> (r: Option<Event>)
        ensures
            key_outcome(
                *self,
                pressed,
                *key,
                match text {
                    Some(t) => Some(t@),
                    None => None,
                },
                r,
            ),
    {
        if !pressed {
            return None;
        }
        let m = self.modifiers;
        if m.control && m.shift {
            return self.handle_function(key);
        }
        match text {
            Some(t) => {
                if t.unicode_len() > 0 {
                    if m.alt && !m.control && !m.super_key {
                        let mut input: Vec<u8> = vec![0x1bu8];
                        push_all(&mut input, t.as_bytes());
                        assert(input@ =~= seq![0x1bu8] + encode_utf8(t@));
                        return Some(Event::Bytes(input));
                    }
                    return Some(self.text_to_event(t));
                }
            },
            None => {},
        }
        match key {
            Key::Named(k) => self.named_key_to_event(*k),
            Key::Character(s) => Some(self.text_to_event(s.as_str())),
            Key::Unidentified => None,
        }
    }
}

/// The xterm code of function key `F{n}` for `n` in `5..=35`: the codes run
/// 15, 17 to 21, 23 to 26, 28 and 29, 31 to 34, then 42 to 56, leaving out
/// 16, 22, 27, 30 and 35 to 41.
pub open spec fn xterm_function_code(n: int) -> int {
    if n == 5 {
        15
    } else if n <= 10 {
        n + 11
    } else if n <= 14 {
        n + 12
    } else if n <= 16 {
        n + 13
    } else if n <= 20 {
        n + 14
    } else {
        n + 21
    }
}

/// The function keys send the xterm sequences: `F1` to `F4` send `ESC O`
/// and one of `P`, `Q`, `R`, `S`; `F5` to `F35` send `ESC [`, the two
/// decimal digits of their code (see [`xterm_function_code`]) and `~`, so
/// `F5` sends `ESC [15~` and `F12` sends `ESC [24~`. Cursor key mode does
/// not change them, and there is no sequence for `F0` or past `F35`.
pub proof fn law_function_key_sequence(n: u8, app: bool)
    ensures
        (1 <= n <= 35) == (named_sequence(NamedKey::Function(n), app) is Some),
        1 <= n <= 4 ==> named_sequence(NamedKey::Function(n), app)->0@
            == seq!['\x1b', 'O', ((0x50 + n - 1) as char)],
        5 <= n <= 35 ==> ({
            let c = xterm_function_code(n as int);
            named_sequence(NamedKey::Function(n), app)->0@
                == seq!['\x1b', '[', ((0x30 + c / 10) as char), ((0x30 + c % 10) as char), '~']
        }),
{
    if n == 1 {
        reveal_strlit("\x1bOP");
    } else if n == 2 {
        reveal_strlit("\x1bOQ");
    } else if n == 3 {
        reveal_strlit("\x1bOR");
    } else if n == 4 {
        reveal_strlit("\x1bOS");
    } else if n == 5 {
        reveal_strlit("\x1b[15~");
    } else if n == 6 {
        reveal_strlit("\x1b[17~");
    } else if n == 7 {
        reveal_strlit("\x1b[18~");
    } else if n == 8 {
        reveal_strlit("\x1b[19~");
    } else if n == 9 {
        reveal_strlit("\x1b[20~");
    } else if n == 10 {
        reveal_strlit("\x1b[21~");
    } else if n == 11 {
        reveal_strlit("\x1b[23~");
    } else if n == 12 {
        reveal_strlit("\x1b[24~");
    } else if n == 13 {
        reveal_strlit("\x1b[25~");
    } else if n == 14 {
        reveal_strlit("\x1b[26~");
    } else if n == 15 {
        reveal_strlit("\x1b[28~");
    } else if n == 16 {
        reveal_strlit("\x1b[29~");
    } else if n == 17 {
        reveal_strlit("\x1b[31~");
    } else if n == 18 {
        reveal_strlit("\x1b[32~");
    } else if n == 19 {
        reveal_strlit("\x1b[33~");
    } else if n == 20 {
        reveal_strlit("\x1b[34~");
    } else if n == 21 {
        reveal_strlit("\x1b[42~");
    } else if n == 22 {
        reveal_strlit("\x1b[43~");
    } else if n == 23 {
        reveal_strlit("\x1b[44~");
    } else if n == 24 {
        reveal_strlit("\x1b[45~");
    } else if n == 25 {
        reveal_strlit("\x1b[46~");
    } else if n == 26 {
        reveal_strlit("\x1b[47~");
    } else if n == 27 {
        reveal_strlit("\x1b[48~");
    } else if n == 28 {
        reveal_strlit("\x1b[49~");
    } else if n == 29 {
        reveal_strlit("\x1b[50~");
    } else if n == 30 {
        reveal_strlit("\x1b[51~");
    } else if n == 31 {
        reveal_strlit("\x1b[52~");
    } else if n == 32 {
        reveal_strlit("\x1b[53~");
    } else if n == 33 {
        reveal_strlit("\x1b[54~");
    } else if n == 34 {
        reveal_strlit("\x1b[55~");
    } else if n == 35 {
        reveal_strlit("\x1b[56~");
    }
}

/// The escape sequence of function key `F{n}`.
fn function_key_sequence(n: u8) -> (r: Option<&'static str>)
    ensures
        r == named_sequence(NamedKey::Function(n), false),
{
    match n {
        1 => Some("\x1bOP"),
        2 => Some("\x1bOQ"),
        3 => Some("\x1bOR"),
        4 => Some("\x1bOS"),
        5 => Some("\x1b[15~"),
        6 => Some("\x1b[17~"),
        7 => Some("\x1b[18~"),
        8 => Some("\x1b[19~"),
        9 => Some("\x1b[20~"),
        10 => Some("\x1b[21~"),
        11 => Some("\x1b[23~"),
        12 => Some("\x1b[24~"),
        13 => Some("\x1b[25~"),
        14 => Some("\x1b[26~"),
        15 => Some("\x1b[28~"),
        16 => Some("\x1b[29~"),
        17 => Some("\x1b[31~"),
        18 => Some("\x1b[32~"),
        19 => Some("\x1b[33~"),
        20 => Some("\x1b[34~"),
        21 => Some("\x1b[42~"),
        22 => Some("\x1b[43~"),
        23 => Some("\x1b[44~"),
        24 => Some("\x1b[45~"),
        25 => Some("\x1b[46~"),
        26 => Some("\x1b[47~"),
        27 => Some("\x1b[48~"),
        28 => Some("\x1b[49~"),
        29 => Some("\x1b[50~"),
        30 => Some("\x1b[51~"),
        31 => Some("\x1b[52~"),
        32 => Some("\x1b[53~"),
        33 => Some("\x1b[54~"),
        34 => Some("\x1b[55~"),
        35 => Some("\x1b[56~"),
        _ => None,
    }
}

} // verus!
