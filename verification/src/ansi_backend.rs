//! A second front end for the program's output: the ansi-parser crate reads
//! each escape sequence, and the terminal applies the ones this front end
//! knows. Text between escapes is decoded leniently and written as it
//! comes; an escape cut off at the end of the input waits for more.

use vstd::prelude::*;

use ansi_parser::{AnsiSequence, parse_escape};

use crate::cell::Char;
use crate::helper::{push_all, push_char};
use crate::parser::{cap_u32, csi_sgr, tail};
use crate::terminal::{
    term_auto_wrap, term_clear_line, term_clear_screen, term_cr, term_goto_col, term_goto_line, term_lf, term_put,
    term_region, term_restore_cursor, term_save_cursor, term_tab, with_buffer, Terminal, TerminalMode, TerminalView,
};
use crate::types::AutoWrap;

verus! {

/// The escape sequences this front end acts on; every other one is
/// `Other`.
#[derive(Debug, Clone, PartialEq, Eq)]
pub enum AnsiCommand {
    /// `CSI row ; col H`, one-based.
    CursorPos(u32, u32),
    CursorUp(u32),
    CursorDown(u32),
    CursorForward(u32),
    CursorBackward(u32),
    CursorSave,
    CursorRestore,
    /// `CSI 2 J`.
    EraseDisplay,
    /// `CSI K`.
    EraseLine,
    /// SGR with up to five parameters.
    SetGraphicsMode(Vec<u8>),
    ShowCursor,
    HideCursor,
    /// `CSI top ; bottom r`, one-based and inclusive.
    SetTopAndBottom(u32, u32),
    CursorToApp,
    SetNewLineMode,
    SetLineFeedMode,
    SetAutoWrap,
    ResetAutoWrap,
    SetAlternateKeypad,
    SetNumericKeypad,
    Other,
}

/// Cursor positioning, saving and restoring.
pub open spec fn is_cursor_command(c: AnsiCommand) -> bool {
    c is CursorPos || c is CursorUp || c is CursorDown || c is CursorForward || c is CursorBackward
        || c is CursorSave || c is CursorRestore
}

/// Erasing, SGR, cursor visibility and the scroll region.
pub open spec fn is_screen_command(c: AnsiCommand) -> bool {
    c is EraseDisplay || c is EraseLine || c is SetGraphicsMode || c is ShowCursor || c is HideCursor
        || c is SetTopAndBottom
}

/// Mode switches.
pub open spec fn is_mode_command(c: AnsiCommand) -> bool {
    c is CursorToApp || c is SetNewLineMode || c is SetLineFeedMode || c is SetAutoWrap || c is ResetAutoWrap
        || c is SetAlternateKeypad || c is SetNumericKeypad
}

/// Whether every character is ASCII.
pub open spec fn is_ascii_text(s: Seq<char>) -> bool {
    forall|i: int| 0 <= i < s.len() ==> (#[trigger] s[i] as u32) < 0x80
}

/// What `ansi_parser::parse_escape` finds at the start of `text`: the
/// number of characters it leaves unread, and the sequence as an
/// [`AnsiCommand`]; `None` where no sequence it knows starts there.
pub uninterp spec fn ansi_escape(text: Seq<char>) -> Option<(nat, AnsiCommand)>;

/// `ansi_parser::parse_escape` on ASCII text, keeping a cursor command.
/// The parser reads `ESC` and then at least one more character, and leaves
/// a suffix of its input unread.
#[verifier::external_body]
fn parse_cursor_command(text: &str) -> (r: Option<(usize, Option<AnsiCommand>)>)
    requires
        is_ascii_text(text@),
    ensures
        r is None <==> ansi_escape(text@) is None,
        r matches Some((n, Some(c))) ==> ansi_escape(text@) == Some((n as nat, c)) && is_cursor_command(c),
        r matches Some((n, None)) ==> ansi_escape(text@) matches Some((m, c)) && m == n && !is_cursor_command(c),
        r matches Some((n, _)) ==> n + 2 <= text@.len(),
{
    match parse_escape(text) {
        Ok((rest, seq)) => Some((rest.len(), match seq {
            AnsiSequence::CursorPos(row, col) => Some(AnsiCommand::CursorPos(row, col)),
            AnsiSequence::CursorUp(n) => Some(AnsiCommand::CursorUp(n)),
            AnsiSequence::CursorDown(n) => Some(AnsiCommand::CursorDown(n)),
            AnsiSequence::CursorForward(n) => Some(AnsiCommand::CursorForward(n)),
            AnsiSequence::CursorBackward(n) => Some(AnsiCommand::CursorBackward(n)),
            AnsiSequence::CursorSave => Some(AnsiCommand::CursorSave),
            AnsiSequence::CursorRestore => Some(AnsiCommand::CursorRestore),
            _ => None,
        })),
        Err(_) => None,
    }
}

/// `ansi_parser::parse_escape` on ASCII text, keeping a screen command
/// (the SGR parameters copied out of the parser's fixed-size vector).
#[verifier::external_body]
fn parse_screen_command(text: &str) -> (r: Option<(usize, Option<AnsiCommand>)>)
    requires
        is_ascii_text(text@),
    ensures
        r is None <==> ansi_escape(text@) is None,
        r matches Some((n, Some(c))) ==> ansi_escape(text@) == Some((n as nat, c)) && is_screen_command(c),
        r matches Some((n, None)) ==> ansi_escape(text@) matches Some((m, c)) && m == n && !is_screen_command(c),
        r matches Some((n, _)) ==> n + 2 <= text@.len(),
{
    match parse_escape(text) {
        Ok((rest, seq)) => Some((rest.len(), match seq {
            AnsiSequence::EraseDisplay => Some(AnsiCommand::EraseDisplay),
            AnsiSequence::EraseLine => Some(AnsiCommand::EraseLine),
            AnsiSequence::SetGraphicsMode(params) => Some(AnsiCommand::SetGraphicsMode(params.to_vec())),
            AnsiSequence::ShowCursor => Some(AnsiCommand::ShowCursor),
            AnsiSequence::HideCursor => Some(AnsiCommand::HideCursor),
            AnsiSequence::SetTopAndBottom(top, bottom) => Some(AnsiCommand::SetTopAndBottom(top, bottom)),
            _ => None,
        })),
        Err(_) => None,
    }
}

/// `ansi_parser::parse_escape` on ASCII text, keeping a mode command.
#[verifier::external_body]
fn parse_mode_command(text: &str) -> (r: Option<(usize, Option<AnsiCommand>)>)
    requires
        is_ascii_text(text@),
    ensures
        r is None <==> ansi_escape(text@) is None,
        r matches Some((n, Some(c))) ==> ansi_escape(text@) == Some((n as nat, c)) && is_mode_command(c),
        r matches Some((n, None)) ==> ansi_escape(text@) matches Some((m, c)) && m == n && !is_mode_command(c),
        r matches Some((n, _)) ==> n + 2 <= text@.len(),
{
    match parse_escape(text) {
        Ok((rest, seq)) => Some((rest.len(), match seq {
            AnsiSequence::CursorToApp => Some(AnsiCommand::CursorToApp),
            AnsiSequence::SetNewLineMode => Some(AnsiCommand::SetNewLineMode),
            AnsiSequence::SetLineFeedMode => Some(AnsiCommand::SetLineFeedMode),
            AnsiSequence::SetAutoWrap => Some(AnsiCommand::SetAutoWrap),
            AnsiSequence::ResetAutoWrap => Some(AnsiCommand::ResetAutoWrap),
            AnsiSequence::SetAlternateKeypad => Some(AnsiCommand::SetAlternateKeypad),
            AnsiSequence::SetNumericKeypad => Some(AnsiCommand::SetNumericKeypad),
            _ => None,
        })),
        Err(_) => None,
    }
}

/// The escape sequence at the start of ASCII `text` (see [`ansi_escape`]):
/// how many characters are left unread, and the command.
pub fn parse_command(text: &str) -> (r: Option<(usize, AnsiCommand)>)
    requires
        is_ascii_text(text@),
    ensures
        r is None <==> ansi_escape(text@) is None,
        r matches Some((n, c)) ==> ansi_escape(text@) == Some((n as nat, c)) && n + 2 <= text@.len(),
{
    match parse_cursor_command(text) {
        None => None,
        Some((n, Some(c))) => Some((n, c)),
        Some((n, None)) => match parse_screen_command(text) {
            None => None,
            Some((_, Some(c))) => Some((n, c)),
            Some((_, None)) => match parse_mode_command(text) {
                None => None,
                Some((_, Some(c))) => Some((n, c)),
                Some((_, None)) => Some((n, AnsiCommand::Other)),
            },
        },
    }
}

/// SGR parameters given as bytes, widened.
pub open spec fn widened(params: Seq<u8>) -> Seq<u16> {
    params.map_values(|b: u8| b as u16)
}

/// SGR with byte parameters: the same rule as the built-in parser's (see
/// [`crate::parser::sgr_one`]), applied to the terminal's style and modes.
pub fn apply_sgr(term: &mut Terminal, params: &[u8])
    requires
        old(term).wf(),
    ensures
        final(term).wf(),
        final(term).model() == csi_sgr(old(term).model(), widened(params@)),
{
    let mut wide: Vec<u16> = Vec::new();
    let mut i: usize = 0;
    while i < params.len()
        invariant
            i <= params@.len(),
            wide@ == widened(params@.take(i as int)),
        decreases params.len() - i,
    {
        wide.push(params[i] as u16);
        i += 1;
        assert(wide@ =~= widened(params@.take(i as int)));
    }
    assert(params@.take(params@.len() as int) =~= params@);
    let (s, m) = crate::parser::apply_sgr(&wide, term.style(), term.mode().0);
    term.set_style(s);
    let old_mode = term.mode().0;
    term.set_mode(old_mode, false);
    term.set_mode(m, true);
    proof {
        assert(old_mode & !old_mode == 0u32) by (bit_vector);
        assert(0u32 | m == m) by (bit_vector);
    }
}

/// One less than `v`, but not below zero.
pub open spec fn one_based(v: u32) -> int {
    if v == 0 { 0 } else { v - 1 }
}

/// `v` as a 32-bit signed number, wrapping around as two's complement
/// arithmetic does.
pub open spec fn wrap_i32(v: int) -> int {
    let m = v % 0x1_0000_0000;
    if m >= 0x8000_0000 { m - 0x1_0000_0000 } else { m }
}

/// The row a cursor command moves to: `v` wrapped to 32 bits (see
/// [`wrap_i32`]); `i32::MIN`, whose negation overflows when the screen
/// scrolls by it, is taken one higher.
pub open spec fn wrapped_row(v: int) -> int {
    if wrap_i32(v) == i32::MIN { i32::MIN + 1 } else { wrap_i32(v) }
}

/// What a cursor command does to the terminal. Rows and counts are taken as
/// 32-bit signed numbers, wrapping around, and so is the row moved to (see
/// [`wrapped_row`]).
pub open spec fn cursor_effect(t: TerminalView, c: AnsiCommand) -> TerminalView {
    let row = t.buffer.cursor.pos.row as int;
    let col = t.buffer.cursor.pos.col as int;
    match c {
        AnsiCommand::CursorPos(r, k) => term_goto_col(
            term_goto_line(t, wrapped_row(one_based(r))),
            one_based(k) as u32,
        ),
        AnsiCommand::CursorUp(n) => term_goto_line(t, wrapped_row(row - wrap_i32(n as int))),
        AnsiCommand::CursorDown(n) => term_goto_line(t, wrapped_row(row + wrap_i32(n as int))),
        AnsiCommand::CursorForward(n) => term_goto_col(t, cap_u32(col + n)),
        AnsiCommand::CursorBackward(n) => term_goto_col(t, if col >= n { (col - n) as u32 } else { 0 }),
        AnsiCommand::CursorSave => term_save_cursor(t),
        AnsiCommand::CursorRestore => term_restore_cursor(t),
        _ => t,
    }
}

/// The cursor shown or hidden.
pub open spec fn with_cursor_visible(t: TerminalView, visible: bool) -> TerminalView {
    with_buffer(
        t,
        crate::buffer::BufferView { cursor: crate::types::Cursor { visible, ..t.buffer.cursor }, ..t.buffer },
    )
}

/// What a screen command does to the terminal.
pub open spec fn screen_effect(t: TerminalView, c: AnsiCommand) -> TerminalView {
    match c {
        AnsiCommand::EraseDisplay => term_clear_screen(t, 2),
        AnsiCommand::EraseLine => term_clear_line(t, 0),
        AnsiCommand::SetGraphicsMode(p) => csi_sgr(t, widened(p@)),
        AnsiCommand::ShowCursor => with_cursor_visible(t, true),
        AnsiCommand::HideCursor => with_cursor_visible(t, false),
        AnsiCommand::SetTopAndBottom(top, bottom) => if top <= bottom {
            term_goto_col(term_goto_line(term_region(t, one_based(top) as u32, bottom), 0), 0)
        } else {
            t
        },
        _ => t,
    }
}

/// What a mode command does to the terminal.
pub open spec fn mode_effect(t: TerminalView, c: AnsiCommand) -> TerminalView {
    match c {
        AnsiCommand::CursorToApp => TerminalView { mode: t.mode | TerminalMode::APP_CURSOR, app_cursor: true, ..t },
        AnsiCommand::SetNewLineMode => TerminalView { mode: t.mode | TerminalMode::LINE_FEED_NEW_LINE, ..t },
        AnsiCommand::SetLineFeedMode => TerminalView { mode: t.mode & !TerminalMode::LINE_FEED_NEW_LINE, ..t },
        AnsiCommand::SetAutoWrap => term_auto_wrap(t, AutoWrap::Delayed),
        AnsiCommand::ResetAutoWrap => term_auto_wrap(t, AutoWrap::Disabled),
        AnsiCommand::SetAlternateKeypad => TerminalView { mode: t.mode | TerminalMode::APP_KEYPAD, ..t },
        AnsiCommand::SetNumericKeypad => TerminalView { mode: t.mode & !TerminalMode::APP_KEYPAD, ..t },
        _ => t,
    }
}

/// What a command does to the terminal; `Other` does nothing.
#[verifier::opaque]
pub open spec fn apply_command(t: TerminalView, c: AnsiCommand) -> TerminalView {
    if is_cursor_command(c) {
        cursor_effect(t, c)
    } else if is_screen_command(c) {
        screen_effect(t, c)
    } else {
        mode_effect(t, c)
    }
}

/// `v` as a 32-bit signed number, wrapping around (see [`wrap_i32`]).
fn wrapped_line(v: i64) -> (r: i32)
    requires
        -0x4_0000_0000 < v < 0x4_0000_0000,
    ensures
        r as int == wrap_i32(v as int),
{
    let u: i64 = v + 0x4_0000_0000;
    let m: i64 = u % 0x1_0000_0000;
    proof {
        vstd::arithmetic::div_mod::lemma_mod_multiples_vanish(4, v as int, 0x1_0000_0000);
        assert(0x1_0000_0000 * 4 + v == u);
    }
    if m >= 0x8000_0000 {
        (m - 0x1_0000_0000) as i32
    } else {
        m as i32
    }
}

/// `v` as a row to move to (see [`wrapped_row`]).
fn row_to(v: i64) -> (r: i32)
    requires
        -0x4_0000_0000 < v < 0x4_0000_0000,
    ensures
        r as int == wrapped_row(v as int),
        r != i32::MIN,
{
    let w = wrapped_line(v);
    if w == i32::MIN {
        i32::MIN + 1
    } else {
        w
    }
}

/// Applies a cursor command (see [`cursor_effect`]).
fn apply_cursor_command(term: &mut Terminal, command: AnsiCommand)
    requires
        old(term).wf(),
    ensures
        final(term).wf(),
        final(term).model() == cursor_effect(old(term).model(), command),
{
    match command {
        AnsiCommand::CursorPos(row, col) => {
            let line = row_to(if row == 0 { 0 } else { (row - 1) as i64 });
            term.goto_line(line);
            term.goto_col(if col == 0 { 0 } else { col - 1 });
        },
        AnsiCommand::CursorUp(rows) => {
            let n = wrapped_line(rows as i64);
            let row = term.cursor().row;
            term.goto_line(row_to(row as i64 - n as i64));
        },
        AnsiCommand::CursorDown(rows) => {
            let n = wrapped_line(rows as i64);
            let row = term.cursor().row;
            term.goto_line(row_to(row as i64 + n as i64));
        },
        AnsiCommand::CursorForward(cols) => {
            let col = term.cursor().col;
            term.goto_col(col.saturating_add(cols));
        },
        AnsiCommand::CursorBackward(cols) => {
            let col = term.cursor().col;
            term.goto_col(col.saturating_sub(cols));
        },
        AnsiCommand::CursorSave => term.save_cursor(),
        AnsiCommand::CursorRestore => term.restore_cursor(),
        _ => {},
    }
}

/// Applies a screen command (see [`screen_effect`]).
fn apply_screen_command(term: &mut Terminal, command: AnsiCommand)
    requires
        old(term).wf(),
    ensures
        final(term).wf(),
        final(term).model() == screen_effect(old(term).model(), command),
{
    match command {
        AnsiCommand::EraseDisplay => term.clear_screen(2),
        AnsiCommand::EraseLine => term.clear_line(0),
        AnsiCommand::SetGraphicsMode(params) => apply_sgr(term, params.as_slice()),
        AnsiCommand::ShowCursor => term.set_cursor_visible(true),
        AnsiCommand::HideCursor => term.set_cursor_visible(false),
        AnsiCommand::SetTopAndBottom(top, bottom) => set_top_and_bottom(term, top, bottom),
        _ => {},
    }
}

/// Sets the scroll region to rows `top..=bottom` (one-based) and moves the
/// cursor to the origin; nothing happens when `top` is below `bottom`.
fn set_top_and_bottom(term: &mut Terminal, top: u32, bottom: u32)
    requires
        old(term).wf(),
    ensures
        final(term).wf(),
        final(term).model() == screen_effect(old(term).model(), AnsiCommand::SetTopAndBottom(top, bottom)),
{
    if top <= bottom {
        term.set_scroll_region(top.saturating_sub(1)..bottom);
        term.goto_line(0);
        term.goto_col(0);
    }
}

/// Applies a mode command (see [`mode_effect`]).
fn apply_mode_command(term: &mut Terminal, command: AnsiCommand)
    requires
        old(term).wf(),
    ensures
        final(term).wf(),
        final(term).model() == mode_effect(old(term).model(), command),
{
    match command {
        AnsiCommand::CursorToApp => term.set_app_cursor(true),
        AnsiCommand::SetNewLineMode => term.set_mode(TerminalMode::LINE_FEED_NEW_LINE, true),
        AnsiCommand::SetLineFeedMode => term.set_mode(TerminalMode::LINE_FEED_NEW_LINE, false),
        AnsiCommand::SetAutoWrap => term.set_auto_wrap(AutoWrap::Delayed),
        AnsiCommand::ResetAutoWrap => term.set_auto_wrap(AutoWrap::Disabled),
        AnsiCommand::SetAlternateKeypad => term.set_mode(TerminalMode::APP_KEYPAD, true),
        AnsiCommand::SetNumericKeypad => term.set_mode(TerminalMode::APP_KEYPAD, false),
        _ => {},
    }
}

/// Applies a command to the terminal (see [`apply_command`]).
pub fn apply_sequence(term: &mut Terminal, command: AnsiCommand)
    requires
        old(term).wf(),
    ensures
        final(term).wf(),
        final(term).model() == apply_command(old(term).model(), command),
{
    reveal(apply_command);
    let cursor = match &command {
        AnsiCommand::CursorPos(..) | AnsiCommand::CursorUp(_) | AnsiCommand::CursorDown(_)
        | AnsiCommand::CursorForward(_) | AnsiCommand::CursorBackward(_) | AnsiCommand::CursorSave
        | AnsiCommand::CursorRestore => true,
        _ => false,
    };
    let screen = match &command {
        AnsiCommand::EraseDisplay | AnsiCommand::EraseLine | AnsiCommand::SetGraphicsMode(_)
        | AnsiCommand::ShowCursor | AnsiCommand::HideCursor | AnsiCommand::SetTopAndBottom(..) => true,
        _ => false,
    };
    if cursor {
        apply_cursor_command(term, command);
    } else if screen {
        apply_screen_command(term, command);
    } else {
        apply_mode_command(term, command);
    }
}

// ---------------------------------------------------------------- text and escapes

/// The first `ESC` at or after `i`.
pub open spec fn esc_from(s: Seq<u8>, i: int) -> Option<int>
    decreases s.len() - i,
{
    if i < 0 || i >= s.len() {
        None
    } else if s[i] == 0x1b {
        Some(i)
    } else {
        esc_from(s, i + 1)
    }
}

/// The end of the run of ASCII bytes that starts at `i`.
pub open spec fn ascii_end(s: Seq<u8>, i: int) -> int
    decreases s.len() - i,
{
    if i < 0 || i >= s.len() || s[i] >= 0x80 {
        i
    } else {
        ascii_end(s, i + 1)
    }
}

/// ASCII bytes as characters.
pub open spec fn ascii_chars(s: Seq<u8>) -> Seq<char> {
    s.map_values(|b: u8| b as char)
}

/// Characters written to the terminal: tab, carriage return and line feed
/// act, anything else is put at the cursor.
pub open spec fn emit_chars(t: TerminalView, cs: Seq<char>) -> TerminalView
    decreases cs.len(),
{
    if cs.len() == 0 {
        t
    } else {
        let u = emit_chars(t, cs.drop_last());
        let c = cs.last();
        if c == '\t' {
            term_tab(u)
        } else if c == '\r' {
            term_cr(u)
        } else if c == '\n' {
            term_lf(u)
        } else {
            term_put(u, c)
        }
    }
}

/// The characters `String::from_utf8_lossy` reads from `bytes`.
pub uninterp spec fn utf8_lossy(bytes: Seq<u8>) -> Seq<char>;

/// `String::from_utf8_lossy`, as characters: the characters of `bytes`,
/// each ill-formed part replaced by U+FFFD; well-formed UTF-8 decodes as it
/// is.
#[verifier::external_body]
fn lossy_chars(bytes: &[u8]) -> (r: Vec<char>)
    ensures
        r@ == utf8_lossy(bytes@),
        vstd::utf8::valid_utf8(bytes@) ==> r@ == vstd::utf8::decode_utf8(bytes@),
{
    String::from_utf8_lossy(bytes).chars().collect()
}

/// The bytes of `s` from `i` on, fed to this front end: the terminal they
/// leave, and where reading stopped (the length of `s`, or the `ESC` of a
/// sequence that may still be cut off). Text up to an `ESC` is decoded
/// leniently and written; at an `ESC` the run of ASCII bytes is handed to
/// the parser (see [`ansi_escape`]): a sequence it reads is applied, and
/// otherwise the `ESC` is written as a character, unless the run reaches
/// the end of the input.
pub open spec fn feed_from(t: TerminalView, s: Seq<u8>, i: int) -> (TerminalView, int)
    decreases s.len() - i,
{
    if i < 0 || i >= s.len() {
        (t, i)
    } else {
        match esc_from(s, i) {
            None => (emit_chars(t, utf8_lossy(s.subrange(i, s.len() as int))), s.len() as int),
            Some(e) => if e < i || e >= s.len() {
                (t, i)
            } else if e > i {
                feed_from(emit_chars(t, utf8_lossy(s.subrange(i, e))), s, e)
            } else {
                let a = ascii_end(s, i);
                match ansi_escape(ascii_chars(s.subrange(i, a))) {
                    Some((rest, c)) => {
                        let consumed = (a - i) - rest;
                        if consumed > 0 && i + consumed <= s.len() {
                            feed_from(apply_command(t, c), s, i + consumed)
                        } else {
                            feed_from(t, s, i + 1)
                        }
                    },
                    None => if a >= s.len() {
                        (t, i)
                    } else {
                        feed_from(term_put(t, '\u{1b}'), s, i + 1)
                    },
                }
            },
        }
    }
}

/// An `ESC` found from `i` on lies at or after `i`, inside `s`.
proof fn lemma_esc_range(s: Seq<u8>, i: int)
    requires
        0 <= i,
    ensures
        esc_from(s, i) matches Some(e) ==> i <= e < s.len() && s[e] == 0x1b,
    decreases s.len() - i,
{
    if i < s.len() && s[i] != 0x1b {
        lemma_esc_range(s, i + 1);
    }
}

/// An ASCII run from a position inside `s` ends inside it, after the start.
proof fn lemma_ascii_range(s: Seq<u8>, i: int)
    requires
        0 <= i <= s.len(),
    ensures
        i <= ascii_end(s, i) <= s.len(),
    decreases s.len() - i,
{
    if i < s.len() && s[i] < 0x80 {
        lemma_ascii_range(s, i + 1);
    }
}

/// Searching a suffix finds the same `ESC`, shifted.
proof fn lemma_esc_shift(p: Seq<u8>, o: int, j: int)
    requires
        0 <= o <= p.len(),
        0 <= j,
    ensures
        esc_from(p, o + j) == (match esc_from(p.skip(o), j) {
            Some(e) => Some(e + o),
            None => None,
        }),
    decreases p.len() - o - j,
{
    let q = p.skip(o);
    if j < q.len() && q[j] != 0x1b {
        lemma_esc_shift(p, o, j + 1);
    }
}

/// An ASCII run in a suffix ends at the same place, shifted.
proof fn lemma_ascii_shift(p: Seq<u8>, o: int, j: int)
    requires
        0 <= o <= p.len(),
        0 <= j,
    ensures
        ascii_end(p, o + j) == ascii_end(p.skip(o), j) + o,
    decreases p.len() - o - j,
{
    let q = p.skip(o);
    if j < q.len() && q[j] < 0x80 {
        lemma_ascii_shift(p, o, j + 1);
    }
}

/// Feeding `p` from `o + j` is feeding its suffix from `o` on from `j`.
#[verifier::spinoff_prover]
#[verifier::rlimit(40)]
proof fn lemma_feed_shift(t: TerminalView, p: Seq<u8>, o: int, j: int)
    requires
        0 <= o <= p.len(),
        0 <= j <= p.len() - o,
    ensures
        ({
            let (u, k) = feed_from(t, p.skip(o), j);
            feed_from(t, p, o + j) == (u, k + o)
        }),
    decreases p.len() - o - j,
{
    let q = p.skip(o);
    if j < q.len() {
        lemma_esc_shift(p, o, j);
        lemma_esc_range(q, j);
        match esc_from(q, j) {
            None => {
                assert(p.subrange(o + j, p.len() as int) =~= q.subrange(j, q.len() as int));
            },
            Some(e) => {
                if e > j {
                    assert(p.subrange(o + j, o + e) =~= q.subrange(j, e));
                    lemma_feed_shift(emit_chars(t, utf8_lossy(q.subrange(j, e))), p, o, e);
                } else {
                    lemma_ascii_shift(p, o, j);
                    lemma_ascii_range(q, j);
                    let a = ascii_end(q, j);
                    assert(p.subrange(o + j, o + a) =~= q.subrange(j, a));
                    match ansi_escape(ascii_chars(q.subrange(j, a))) {
                        Some((rest, c)) => {
                            let consumed = (a - j) - rest;
                            if consumed > 0 && j + consumed <= q.len() {
                                lemma_feed_shift(apply_command(t, c), p, o, j + consumed);
                            } else {
                                lemma_feed_shift(t, p, o, j + 1);
                            }
                        },
                        None => {
                            if a < q.len() {
                                lemma_feed_shift(term_put(t, '\u{1b}'), p, o, j + 1);
                            }
                        },
                    }
                }
            },
        }
    }
}

/// The index of the first `ESC` at or after `from`.
fn find_esc(s: &Vec<u8>, from: usize) -> (r: Option<usize>)
    requires
        from <= s.len(),
    ensures
        match esc_from(s@, from as int) {
            Some(e) => r == Some(e as usize) && from <= e < s.len(),
            None => r is None,
        },
{
    let mut k = from;
    while k < s.len()
        invariant
            from <= k <= s.len(),
            esc_from(s@, from as int) == esc_from(s@, k as int),
        decreases s.len() - k,
    {
        if s[k] == 0x1b {
            return Some(k);
        }
        k += 1;
    }
    None
}

/// The end of the run of ASCII bytes that starts at `from`.
fn ascii_run_end(s: &Vec<u8>, from: usize) -> (r: usize)
    requires
        from <= s.len(),
    ensures
        r as int == ascii_end(s@, from as int),
        from <= r <= s.len(),
        forall|k: int| from <= k < r ==> s@[k] < 0x80,
{
    let mut k = from;
    while k < s.len() && s[k] < 0x80
        invariant
            from <= k <= s.len(),
            ascii_end(s@, from as int) == ascii_end(s@, k as int),
            forall|j: int| from <= j < k ==> s@[j] < 0x80,
        decreases s.len() - k,
    {
        k += 1;
    }
    k
}

/// The ASCII bytes `s[from..to]` as a string.
fn ascii_string(s: &Vec<u8>, from: usize, to: usize) -> (r: String)
    requires
        from <= to <= s.len(),
        forall|k: int| from <= k < to ==> s@[k] < 0x80,
    ensures
        r@ == ascii_chars(s@.subrange(from as int, to as int)),
        is_ascii_text(r@),
{
    let mut r = String::new();
    let mut k = from;
    while k < to
        invariant
            from <= k <= to <= s.len(),
            forall|j: int| from <= j < to ==> s@[j] < 0x80,
            r@ == ascii_chars(s@.subrange(from as int, k as int)),
            is_ascii_text(r@),
        decreases to - k,
    {
        push_char(&mut r, s[k] as char);
        k += 1;
        assert(r@ =~= ascii_chars(s@.subrange(from as int, k as int)));
    }
    r
}

/// Writes text decoded leniently from `bytes` (see [`emit_chars`]).
fn emit_text(term: &mut Terminal, bytes: &[u8])
    requires
        old(term).wf(),
    ensures
        final(term).wf(),
        final(term).model() == emit_chars(old(term).model(), utf8_lossy(bytes@)),
{
    let chars = lossy_chars(bytes);
    let ghost t0 = term.model();
    let mut i: usize = 0;
    while i < chars.len()
        invariant
            i <= chars@.len(),
            term.wf(),
            term.model() == emit_chars(t0, chars@.take(i as int)),
        decreases chars.len() - i,
    {
        let c = chars[i];
        if c == '\t' {
            term.tab();
        } else if c == '\r' {
            term.cr();
        } else if c == '\n' {
            term.lf();
        } else {
            term.put(c);
        }
        i += 1;
        assert(chars@.take(i as int).drop_last() =~= chars@.take(i as int - 1));
    }
    assert(chars@.take(chars@.len() as int) =~= chars@);
}

/// This front end's state: the input kept from an escape sequence that may
/// still be cut off, read from `pending_offset` on.
pub struct Processor {
    pending: Vec<u8>,
    pending_offset: usize,
}

impl View for Processor {
    type V = Seq<u8>;

    /// The input not read yet.
    closed spec fn view(&self) -> Seq<u8> {
        self.pending@.skip(self.pending_offset as int)
    }
}

impl Processor {
    /// The read position lies within the kept input.
    pub closed spec fn wf(&self) -> bool {
        self.pending_offset <= self.pending@.len()
    }

    /// A front end with no input kept.
    pub fn new() -> (r: Self)
        ensures
            r.wf(),
            r@ == Seq::<u8>::empty(),
    {
        let r = Processor { pending: Vec::new(), pending_offset: 0 };
        assert(r@ =~= Seq::<u8>::empty());
        r
    }

    /// Feeds `bytes`, after the input kept from before, to the terminal
    /// (see [`feed_from`]); what may still be the start of an escape
    /// sequence is kept for the next call.
    pub fn advance(&mut self, term: &mut Terminal, bytes: &[u8])
        requires
            old(self).wf(),
            old(term).wf(),
        ensures
            final(self).wf(),
            final(term).wf(),
            ({
                let s = old(self)@ + bytes@;
                let (u, k) = feed_from(old(term).model(), s, 0);
                final(term).model() == u && final(self)@ == s.skip(k)
            }),
    {
        let ghost t0 = term.model();
        push_all(&mut self.pending, bytes);
        let ghost p = self.pending@;
        let off0 = self.pending_offset;
        proof {
            assert(p.skip(off0 as int) =~= old(self)@ + bytes@);
            lemma_feed_shift(t0, p, off0 as int, 0);
        }
        let mut pos = off0;
        loop
            invariant_except_break
                off0 <= pos <= p.len(),
                self.pending@ == p,
                self.pending_offset == off0,
                term.wf(),
                feed_from(t0, p, off0 as int) == feed_from(term.model(), p, pos as int),
            ensures
                off0 <= pos <= p.len(),
                self.pending@ == p,
                self.pending_offset == off0,
                term.wf(),
                feed_from(t0, p, off0 as int) == (term.model(), pos as int),
            decreases p.len() - pos,
        {
            if pos >= self.pending.len() {
                break;
            }
            match find_esc(&self.pending, pos) {
                None => {
                    let rest = vstd::slice::slice_subrange(self.pending.as_slice(), pos, self.pending.len());
                    emit_text(term, rest);
                    pos = self.pending.len();
                    break;
                },
                Some(esc) => {
                    proof {
                        lemma_esc_range(p, pos as int);
                    }
                    if esc > pos {
                        let ghost t1 = term.model();
                        let ghost pos1 = pos as int;
                        let text = vstd::slice::slice_subrange(self.pending.as_slice(), pos, esc);
                        emit_text(term, text);
                        pos = esc;
                        assert(feed_from(t1, p, pos1) == feed_from(term.model(), p, pos as int));
                    }
                    let ghost t2 = term.model();
                    let ghost pos2 = pos as int;
                    assert(esc_from(p, pos2) == Some(pos2));
                    let end = ascii_run_end(&self.pending, pos);
                    let text = ascii_string(&self.pending, pos, end);
                    let text = text.as_str();
                    assert(text@ == ascii_chars(p.subrange(pos2, end as int)));
                    match parse_command(text) {
                        Some((rest, command)) => {
                            let consumed = (end - pos) - rest;
                            if consumed == 0 {
                                pos += 1;
                            } else {
                                apply_sequence(term, command);
                                pos = pos + consumed;
                            }
                            assert(feed_from(t2, p, pos2) == feed_from(term.model(), p, pos as int));
                        },
                        None => {
                            if end == self.pending.len() {
                                assert(feed_from(t2, p, pos2) == (t2, pos2));
                                break;
                            }
                            term.put('\u{1b}');
                            pos = pos + 1;
                            assert(feed_from(t2, p, pos2) == feed_from(term.model(), p, pos as int));
                        },
                    }
                },
            }
        }
        if pos == self.pending_offset {
            return;
        }
        if pos >= self.pending.len() {
            self.pending.clear();
            self.pending_offset = 0;
            assert(self@ =~= p.skip(pos as int));
            return;
        }
        self.pending_offset = pos;
        if pos > 4096 || pos >= self.pending.len() - pos {
            self.pending = tail(&self.pending, pos);
            self.pending_offset = 0;
            assert(self@ =~= p.skip(pos as int));
        }
    }
}

impl Default for Processor {
    fn default() -> (r: Self)
        ensures
            r.wf(),
            r@ == Seq::<u8>::empty(),
    {
        Processor::new()
    }
}

/// Input without `ESC` is all read and written as leniently decoded text.
pub proof fn law_plain_text(t: TerminalView, s: Seq<u8>)
    requires
        forall|i: int| 0 <= i < s.len() ==> s[i] != 0x1b,
    ensures
        feed_from(t, s, 0) == (if s.len() == 0 { (t, 0int) } else { (emit_chars(t, utf8_lossy(s)), s.len() as int) }),
{
    if s.len() > 0 {
        lemma_no_esc(s, 0);
        assert(s.subrange(0, s.len() as int) =~= s);
    }
}

/// Without `ESC` from `i` on, none is found.
proof fn lemma_no_esc(s: Seq<u8>, i: int)
    requires
        0 <= i,
        forall|k: int| i <= k < s.len() ==> s[k] != 0x1b,
    ensures
        esc_from(s, i) is None,
    decreases s.len() - i,
{
    if i < s.len() {
        lemma_no_esc(s, i + 1);
    }
}

/// An escape sequence the parser does not read, running to the end of the
/// input, stops reading at its `ESC`, with nothing written for it.
pub proof fn law_cut_escape_waits(t: TerminalView, s: Seq<u8>, i: int)
    requires
        0 <= i < s.len(),
        s[i] == 0x1b,
        forall|k: int| i <= k < s.len() ==> s[k] < 0x80,
        ansi_escape(ascii_chars(s.subrange(i, s.len() as int))) is None,
    ensures
        feed_from(t, s, i) == (t, i),
{
    lemma_ascii_run_to_end(s, i);
}

/// An ASCII run to the end of the input ends there.
proof fn lemma_ascii_run_to_end(s: Seq<u8>, i: int)
    requires
        0 <= i <= s.len(),
        forall|k: int| i <= k < s.len() ==> s[k] < 0x80,
    ensures
        ascii_end(s, i) == s.len(),
    decreases s.len() - i,
{
    if i < s.len() {
        lemma_ascii_run_to_end(s, i + 1);
    }
}

} // verus!
