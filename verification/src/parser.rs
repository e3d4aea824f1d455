//! The escape sequence parser: a byte-at-a-time state machine that turns
//! the program's output into text and control functions (C0 controls,
//! `ESC` sequences, CSI sequences with SGR and DEC private modes, and OSC
//! window titles and clipboard writes) and applies them to a [`Terminal`].

use vstd::prelude::*;
use vstd::utf8::{decode_utf8, valid_utf8};

use base64ct::Encoding;

use crate::ansi_color::{spec_from_named_fg, AnsiColor, AnsiNamedColor, AnsiRgb};
use crate::cell::{empty_char, Char, CharFlags, FontFlags};
use crate::terminal::{
    mode_report, term_auto_wrap, term_clear_line, term_clear_screen, term_cr, term_delete, term_device_status,
    term_enter_alt, term_erase, term_exit_alt, term_goto_col, term_goto_line, term_insert_blank, term_lf, term_margins,
    term_newline, term_put, term_reset, term_restore_cursor, term_save_cursor, term_scroll, term_tab, with_buffer,
    with_output, OutputView, Terminal, TerminalMode, TerminalView,
};
use crate::types::AutoWrap;

verus! {

/// The most CSI parameters kept; later ones are dropped.
pub const MAX_PARAMS: usize = 16;

/// The most OSC payload bytes kept; later ones are dropped.
pub const MAX_OSC_BYTES: usize = 4096;

/// Where the parser stands in an escape sequence.
#[derive(Debug, Default, Clone, Copy, PartialEq, Eq, PartialOrd, Ord, Hash, Structural)]
pub enum ParseState {
    /// Text and C0 controls.
    #[default]
    Ground,
    /// After `ESC`.
    Escape,
    /// After `ESC (`, `ESC )`, `ESC *` or `ESC +`: the charset byte is next.
    EscapeCharset,
    /// Inside a CSI sequence.
    Csi,
    /// Inside an OSC string.
    Osc,
    /// After `ESC` inside an OSC string.
    OscEscape,
}

/// The parser as plain values.
pub struct ParserView {
    /// The state.
    pub state: ParseState,
    /// The CSI sequence is private (`CSI ?`).
    pub private: bool,
    /// The CSI parameters collected so far.
    pub params: Seq<u16>,
    /// The CSI parameter being read.
    pub current: u16,
    /// Whether a digit of the current parameter was read.
    pub has_current: bool,
    /// The OSC payload collected so far.
    pub osc: Seq<u8>,
    /// The bytes of an incomplete UTF-8 character.
    pub utf8: Seq<u8>,
}

impl ParserView {
    /// The bounds the parser keeps: at most [`MAX_PARAMS`] parameters,
    /// [`MAX_OSC_BYTES`] payload bytes and three pending UTF-8 bytes.
    pub open spec fn wf(self) -> bool {
        &&& self.params.len() <= MAX_PARAMS
        &&& self.osc.len() <= MAX_OSC_BYTES
        &&& self.utf8.len() <= 3
    }
}

/// A new parser: in the ground state with nothing collected.
pub open spec fn initial_parser() -> ParserView {
    ParserView {
        state: ParseState::Ground,
        private: false,
        params: Seq::empty(),
        current: 0,
        has_current: false,
        osc: Seq::empty(),
        utf8: Seq::empty(),
    }
}

// ---------------------------------------------------------------- UTF-8

/// The length of the UTF-8 sequence that `lead` starts, or zero when it
/// starts none.
pub open spec fn utf8_len_of(lead: u8) -> int {
    if lead < 0x80 {
        1
    } else if 0xc2 <= lead <= 0xdf {
        2
    } else if 0xe0 <= lead <= 0xef {
        3
    } else if 0xf0 <= lead <= 0xf4 {
        4
    } else {
        0
    }
}

/// Whether `b` may follow `lead` in a well-formed sequence (this excludes
/// overlong forms, surrogates and values past U+10FFFF).
pub open spec fn second_ok(lead: u8, b: u8) -> bool {
    if lead == 0xe0 {
        0xa0 <= b <= 0xbf
    } else if lead == 0xed {
        0x80 <= b <= 0x9f
    } else if lead == 0xf0 {
        0x90 <= b <= 0xbf
    } else if lead == 0xf4 {
        0x80 <= b <= 0x8f
    } else {
        0x80 <= b <= 0xbf
    }
}

/// Whether `b` is a continuation byte.
pub open spec fn cont_ok(b: u8) -> bool {
    0x80 <= b <= 0xbf
}

/// Whether `s` is the beginning (or the whole) of a well-formed UTF-8
/// sequence for one character.
pub open spec fn utf8_prefix_ok(s: Seq<u8>) -> bool {
    &&& 1 <= s.len() <= utf8_len_of(s[0])
    &&& s.len() >= 2 ==> second_ok(s[0], s[1])
    &&& s.len() >= 3 ==> cont_ok(s[2])
    &&& s.len() >= 4 ==> cont_ok(s[3])
}

/// Whether `s` is a whole well-formed UTF-8 sequence for one character.
pub open spec fn utf8_complete(s: Seq<u8>) -> bool {
    utf8_prefix_ok(s) && s.len() == utf8_len_of(s[0])
}

/// The code point a complete sequence encodes.
pub open spec fn utf8_value(s: Seq<u8>) -> u32 {
    if s.len() == 1 {
        s[0] as u32
    } else if s.len() == 2 {
        ((s[0] & 0x1f) as u32) << 6u32 | (s[1] & 0x3f) as u32
    } else if s.len() == 3 {
        ((s[0] & 0x0f) as u32) << 12u32 | ((s[1] & 0x3f) as u32) << 6u32 | (s[2] & 0x3f) as u32
    } else {
        ((s[0] & 0x07) as u32) << 18u32 | ((s[1] & 0x3f) as u32) << 12u32 | ((s[2] & 0x3f) as u32) << 6u32 | (
        s[3] & 0x3f) as u32
    }
}

/// U+FFFD, written for malformed input.
pub open spec fn replacement() -> char {
    '\u{fffd}'
}

/// A byte of text: ASCII is written at once; other bytes collect until
/// they complete a character, which is written, or turn out malformed,
/// which writes U+FFFD and drops them.
pub open spec fn text_byte(p: ParserView, t: TerminalView, b: u8) -> (ParserView, TerminalView) {
    if p.utf8.len() == 0 && b < 0x80 {
        (p, term_put(t, b as char))
    } else {
        let (p1, t1) = if p.utf8.len() >= 4 {
            (ParserView { utf8: Seq::empty(), ..p }, term_put(t, replacement()))
        } else {
            (p, t)
        };
        let s = p1.utf8.push(b);
        if utf8_complete(s) {
            (ParserView { utf8: Seq::empty(), ..p1 }, term_put(t1, utf8_value(s) as char))
        } else if utf8_prefix_ok(s) {
            (ParserView { utf8: s, ..p1 }, t1)
        } else {
            (ParserView { utf8: Seq::empty(), ..p1 }, term_put(t1, replacement()))
        }
    }
}

/// An incomplete character cut short: U+FFFD is written for it.
pub open spec fn flush_utf8(p: ParserView, t: TerminalView) -> (ParserView, TerminalView) {
    if p.utf8.len() > 0 {
        (ParserView { utf8: Seq::empty(), ..p }, term_put(t, replacement()))
    } else {
        (p, t)
    }
}

// ---------------------------------------------------------------- ground and escape

/// A byte in the ground state.
pub open spec fn ground_step(p: ParserView, t: TerminalView, b: u8) -> (ParserView, TerminalView) {
    if b == 0x1b {
        let (q, u) = flush_utf8(p, t);
        (ParserView { state: ParseState::Escape, ..q }, u)
    } else if b == 0x07 {
        (p, with_output(t, OutputView::Bell))
    } else if b == 0x08 {
        (p, t)
    } else if b == 0x09 {
        let (q, u) = flush_utf8(p, t);
        (q, term_tab(u))
    } else if b == 0x0a || b == 0x0b || b == 0x0c {
        let (q, u) = flush_utf8(p, t);
        (q, term_lf(u))
    } else if b == 0x0d {
        let (q, u) = flush_utf8(p, t);
        (q, term_cr(u))
    } else if b <= 0x1f || b == 0x7f {
        flush_utf8(p, t)
    } else {
        text_byte(p, t, b)
    }
}

/// `mode` with `bits` set when `on`, cleared otherwise.
pub open spec fn set_bits(mode: u32, bits: u32, on: bool) -> u32 {
    if on { mode | bits } else { mode & !bits }
}

/// The first row of the scroll region (zero without one).
pub open spec fn region_top(t: TerminalView) -> u32 {
    match t.buffer.region {
        Some(g) => g.start,
        None => 0,
    }
}

/// The parser at the start of a CSI sequence.
pub open spec fn csi_start(p: ParserView) -> ParserView {
    ParserView {
        state: ParseState::Csi,
        private: false,
        params: Seq::empty(),
        current: 0,
        has_current: false,
        ..p
    }
}

/// A byte after `ESC`.
#[verifier::opaque]
pub open spec fn escape_step(p: ParserView, t: TerminalView, b: u8) -> (ParserView, TerminalView) {
    let g = ParserView { state: ParseState::Ground, ..p };
    if b == 0x5b {
        (csi_start(p), t)
    } else if b == 0x5d {
        (ParserView { state: ParseState::Osc, osc: Seq::empty(), ..p }, t)
    } else if b == 0x37 {
        (g, term_save_cursor(t))
    } else if b == 0x38 {
        (g, term_restore_cursor(t))
    } else if b == 0x44 {
        (g, term_lf(t))
    } else if b == 0x45 {
        (g, term_newline(t))
    } else if b == 0x4d {
        (g, if t.buffer.cursor.pos.row == region_top(t) { term_scroll(t, 1) } else { t })
    } else if b == 0x63 {
        (g, term_reset(t))
    } else if b == 0x3d {
        (g, TerminalView { mode: set_bits(t.mode, TerminalMode::APP_KEYPAD, true), ..t })
    } else if b == 0x3e {
        (g, TerminalView { mode: set_bits(t.mode, TerminalMode::APP_KEYPAD, false), ..t })
    } else if b == 0x28 || b == 0x29 || b == 0x2a || b == 0x2b {
        (ParserView { state: ParseState::EscapeCharset, ..p }, t)
    } else {
        (g, t)
    }
}

// ---------------------------------------------------------------- CSI

/// `params` with `v` appended, unless [`MAX_PARAMS`] are collected.
pub open spec fn push_param(params: Seq<u16>, v: u16) -> Seq<u16> {
    if params.len() < MAX_PARAMS { params.push(v) } else { params }
}

/// `cur` with decimal digit `d` appended, saturating at 65535.
pub open spec fn add_digit(cur: u16, d: u8) -> u16 {
    if cur * 10 + d > 65535 { 65535 } else { (cur * 10 + d) as u16 }
}

/// Parameter `i`, or `default` when it is missing or zero.
pub open spec fn param_at(params: Seq<u16>, i: int, default: int) -> int {
    if 0 <= i < params.len() && params[i] != 0 { params[i] as int } else { default }
}

/// `v` capped at `i32::MAX`.
pub open spec fn cap_i32(v: int) -> int {
    if v > i32::MAX { i32::MAX as int } else { v }
}

/// `v` capped at `u32::MAX`.
pub open spec fn cap_u32(v: int) -> u32 {
    if v > u32::MAX { u32::MAX } else { v as u32 }
}

/// A cursor movement: `A` up, `B` down, `C` right, `D` left, `E` and `F`
/// down and up to the first column, `G` to a column, `d` to a row, `H` and
/// `f` to a row and column (one-based).
pub open spec fn csi_move(t: TerminalView, params: Seq<u16>, f: u8) -> TerminalView {
    let n = param_at(params, 0, 1);
    let row = t.buffer.cursor.pos.row as int;
    let col = t.buffer.cursor.pos.col as int;
    if f == 0x41 {
        term_goto_line(t, row - n)
    } else if f == 0x42 {
        term_goto_line(t, cap_i32(row + n))
    } else if f == 0x43 {
        term_goto_col(t, cap_u32(col + n))
    } else if f == 0x44 {
        term_goto_col(t, if col >= n { (col - n) as u32 } else { 0 })
    } else if f == 0x45 {
        term_cr(term_goto_line(t, cap_i32(row + n)))
    } else if f == 0x46 {
        term_cr(term_goto_line(t, row - n))
    } else if f == 0x47 {
        term_goto_col(t, (n - 1) as u32)
    } else if f == 0x64 {
        term_goto_line(t, n - 1)
    } else {
        term_goto_col(term_goto_line(t, n - 1), (param_at(params, 1, 1) - 1) as u32)
    }
}

/// Whether `f` ends a cursor movement.
pub open spec fn is_move(f: u8) -> bool {
    f == 0x41 || f == 0x42 || f == 0x43 || f == 0x44 || f == 0x45 || f == 0x46 || f == 0x47 || f == 0x64
        || f == 0x48 || f == 0x66
}

/// An edit: `J` and `K` erase in the screen and the line, `L` and `T`
/// scroll down, `M` and `S` scroll up, `P` deletes, `X` erases and `@`
/// inserts cells.
pub open spec fn csi_edit(t: TerminalView, params: Seq<u16>, f: u8) -> TerminalView {
    let n = param_at(params, 0, 1);
    if f == 0x4a {
        term_clear_screen(t, param_at(params, 0, 0) as u8)
    } else if f == 0x4b {
        term_clear_line(t, param_at(params, 0, 0) as u8)
    } else if f == 0x4c || f == 0x54 {
        term_scroll(t, n)
    } else if f == 0x4d || f == 0x53 {
        term_scroll(t, -n)
    } else if f == 0x50 {
        term_delete(t, n as usize)
    } else if f == 0x58 {
        term_erase(t, n as usize)
    } else {
        term_insert_blank(t, n as usize)
    }
}

/// Whether `f` ends an edit.
pub open spec fn is_edit(f: u8) -> bool {
    f == 0x4a || f == 0x4b || f == 0x4c || f == 0x54 || f == 0x4d || f == 0x53 || f == 0x50 || f == 0x58 || f
        == 0x40
}

/// The ANSI mode `mode` set (`on`) or reset: 4 is insert mode, 20 is
/// automatic newline; others are ignored.
pub open spec fn ansi_mode(t: TerminalView, mode: u16, on: bool) -> TerminalView {
    if mode == 4 {
        TerminalView { mode: set_bits(t.mode, TerminalMode::INSERT, on), ..t }
    } else if mode == 20 {
        TerminalView { mode: set_bits(t.mode, TerminalMode::LINE_FEED_NEW_LINE, on), ..t }
    } else {
        t
    }
}

/// The ANSI modes of `params` set or reset, in order.
pub open spec fn ansi_modes(t: TerminalView, params: Seq<u16>, on: bool) -> TerminalView
    decreases params.len(),
{
    if params.len() == 0 {
        t
    } else {
        ansi_mode(ansi_modes(t, params.drop_last(), on), params.last(), on)
    }
}

/// The private mode `mode` set (`on`) or reset: 1 application cursor
/// keys, 7 auto wrap, the mouse modes, 25 cursor visibility, 1049 the
/// alternate screen, 2004 bracketed paste; others are ignored.
pub open spec fn private_mode(t: TerminalView, mode: u16, on: bool) -> TerminalView {
    if mode == 1 {
        TerminalView { mode: set_bits(t.mode, TerminalMode::APP_CURSOR, on), app_cursor: on, ..t }
    } else if mode == 7 {
        term_auto_wrap(t, if on { AutoWrap::Delayed } else { AutoWrap::Disabled })
    } else if crate::pointer::is_mouse_mode(mode) {
        TerminalView { pointer: t.pointer.with_flag(mode, on).recalculated(), ..t }
    } else if mode == 25 {
        with_buffer(
            t,
            crate::buffer::BufferView {
                cursor: crate::types::Cursor { visible: on, ..t.buffer.cursor },
                ..t.buffer
            },
        )
    } else if mode == 1049 {
        if on { term_enter_alt(t) } else { term_exit_alt(t) }
    } else if mode == 2004 {
        TerminalView { mode: set_bits(t.mode, TerminalMode::BRACKETED_PASTE, on), ..t }
    } else {
        t
    }
}

/// The private modes of `params` set or reset, in order.
pub open spec fn private_modes(t: TerminalView, params: Seq<u16>, on: bool) -> TerminalView
    decreases params.len(),
{
    if params.len() == 0 {
        t
    } else {
        private_mode(private_modes(t, params.drop_last(), on), params.last(), on)
    }
}

/// A DECRQM answer for each private mode of `params`, in order.
pub open spec fn mode_reports(t: TerminalView, params: Seq<u16>) -> TerminalView
    decreases params.len(),
{
    if params.len() == 0 {
        t
    } else {
        let u = mode_reports(t, params.drop_last());
        let m = params.last();
        with_output(u, OutputView::PtyWrite(mode_report(m, u.pointer.mode_status(m))))
    }
}

/// A private CSI sequence: `h` and `l` set and reset private modes, `p`
/// (DECRQM) asks for their status.
pub open spec fn csi_private(t: TerminalView, params: Seq<u16>, f: u8) -> TerminalView {
    if f == 0x68 {
        private_modes(t, params, true)
    } else if f == 0x6c {
        private_modes(t, params, false)
    } else if f == 0x70 {
        mode_reports(t, params)
    } else {
        t
    }
}

/// `ESC [ ? 6 c`: the primary device attributes answer.
pub open spec fn device_attributes() -> Seq<u8> {
    seq![0x1bu8, 0x5bu8, 0x3fu8, 0x36u8, 0x63u8]
}

/// `v` capped at 255, as a byte.
pub open spec fn cap_byte(v: u16) -> u8 {
    if v > 255 { 255 } else { v as u8 }
}

/// One SGR parameter at `i`: the style and modes it leaves, and how many
/// following parameters it uses up (the color of `38` and `48`).
pub open spec fn sgr_one(params: Seq<u16>, i: int, s: Char, m: u32) -> (Char, u32, int) {
    let p = params[i];
    if p == 0 {
        (empty_char(), m, 0)
    } else if p == 1 {
        (Char { font: FontFlags(s.font.0 | 1), ..s }, m, 0)
    } else if p == 3 {
        (Char { font: FontFlags(s.font.0 | 2), ..s }, m, 0)
    } else if p == 4 {
        (Char { flags: CharFlags(s.flags.0 | CharFlags::UNDERLINE), ..s }, m, 0)
    } else if p == 7 {
        (s, m | TerminalMode::REVERSE_COLOR, 0)
    } else if p == 22 {
        (Char { font: FontFlags(s.font.0 & !1u8), ..s }, m, 0)
    } else if p == 23 {
        (Char { font: FontFlags(s.font.0 & !2u8), ..s }, m, 0)
    } else if p == 24 {
        (Char { flags: CharFlags(s.flags.0 & !CharFlags::UNDERLINE), ..s }, m, 0)
    } else if p == 27 {
        (s, m & !TerminalMode::REVERSE_COLOR, 0)
    } else if p == 39 {
        (Char { fg: AnsiColor::Named(AnsiNamedColor::Foreground), ..s }, m, 0)
    } else if p == 49 {
        (Char { bg: AnsiColor::Named(AnsiNamedColor::Background), ..s }, m, 0)
    } else if (30 <= p <= 37) || (90 <= p <= 97) {
        match spec_from_named_fg(p as u8) {
            Some(c) => (Char { fg: AnsiColor::Named(c), ..s }, m, 0),
            None => (s, m, 0),
        }
    } else if (40 <= p <= 47) || (100 <= p <= 107) {
        match spec_from_named_fg((p - 10) as u8) {
            Some(c) => (Char { bg: AnsiColor::Named(c), ..s }, m, 0),
            None => (s, m, 0),
        }
    } else if p == 38 || p == 48 {
        if i + 2 < params.len() && params[i + 1] == 5 {
            let c = AnsiColor::Indexed(cap_byte(params[i + 2]));
            (if p == 38 { Char { fg: c, ..s } } else { Char { bg: c, ..s } }, m, 2)
        } else if i + 4 < params.len() && params[i + 1] == 2 {
            let c = AnsiColor::Spec(
                AnsiRgb { r: cap_byte(params[i + 2]), g: cap_byte(params[i + 3]), b: cap_byte(params[i + 4]) },
            );
            (if p == 38 { Char { fg: c, ..s } } else { Char { bg: c, ..s } }, m, 4)
        } else {
            (s, m, 0)
        }
    } else {
        (s, m, 0)
    }
}

/// The SGR parameters from `i` on applied to style `s` and modes `m`.
pub open spec fn sgr_from(params: Seq<u16>, i: int, s: Char, m: u32) -> (Char, u32)
    decreases params.len() - i,
{
    if i < 0 || i >= params.len() {
        (s, m)
    } else {
        let (s2, m2, skip) = sgr_one(params, i, s, m);
        sgr_from(params, i + 1 + skip, s2, m2)
    }
}

/// SGR: the style and the reverse-color mode the parameters select.
pub open spec fn csi_sgr(t: TerminalView, params: Seq<u16>) -> TerminalView {
    let (s, m) = sgr_from(params, 0, t.style, t.mode);
    TerminalView { style: s, mode: m, ..t }
}

/// The other CSI sequences: `m` (SGR), `s` and `u` save and restore the
/// cursor, `r` sets the scroll margins, `n` reports status, `h` and `l`
/// set and reset ANSI modes, `c` asks for the device attributes.
pub open spec fn csi_other(t: TerminalView, params: Seq<u16>, f: u8) -> TerminalView {
    if f == 0x6d {
        csi_sgr(t, params)
    } else if f == 0x73 {
        term_save_cursor(t)
    } else if f == 0x75 {
        term_restore_cursor(t)
    } else if f == 0x72 {
        term_margins(t, param_at(params, 0, 1) as usize, param_at(params, 1, t.buffer.rows as int) as usize)
    } else if f == 0x6e {
        term_device_status(t, param_at(params, 0, 0) as usize)
    } else if f == 0x68 {
        ansi_modes(t, params, true)
    } else if f == 0x6c {
        ansi_modes(t, params, false)
    } else if f == 0x63 && param_at(params, 0, 0) == 0 {
        with_output(t, OutputView::PtyWrite(device_attributes()))
    } else {
        t
    }
}

/// A complete CSI sequence with final byte `f`.
pub open spec fn csi_dispatch(t: TerminalView, params: Seq<u16>, private: bool, f: u8) -> TerminalView {
    if private {
        csi_private(t, params, f)
    } else if is_move(f) {
        csi_move(t, params, f)
    } else if is_edit(f) {
        csi_edit(t, params, f)
    } else {
        csi_other(t, params, f)
    }
}

/// A byte inside a CSI sequence: digits and `;` build the parameters, a
/// leading `?` makes it private, intermediates are skipped, a final byte
/// (`@` to `~`) ends and runs it; anything else abandons it.
#[verifier::opaque]
pub open spec fn csi_step(p: ParserView, t: TerminalView, b: u8) -> (ParserView, TerminalView) {
    if 0x30 <= b <= 0x39 {
        (ParserView { has_current: true, current: add_digit(p.current, (b - 0x30) as u8), ..p }, t)
    } else if b == 0x3b {
        (ParserView { params: push_param(p.params, p.current), current: 0, has_current: false, ..p }, t)
    } else if b == 0x3f && p.params.len() == 0 && !p.has_current {
        (ParserView { private: true, ..p }, t)
    } else if 0x20 <= b <= 0x2f {
        (p, t)
    } else if 0x40 <= b <= 0x7e {
        let params = if p.has_current || p.params.len() == 0 { push_param(p.params, p.current) } else { p.params };
        (ParserView { params, state: ParseState::Ground, ..p }, csi_dispatch(t, params, p.private, b))
    } else {
        (ParserView { state: ParseState::Ground, ..p }, t)
    }
}

// ---------------------------------------------------------------- OSC

/// `osc` with `b` appended, unless [`MAX_OSC_BYTES`] are collected.
pub open spec fn push_osc(osc: Seq<u8>, b: u8) -> Seq<u8> {
    if osc.len() < MAX_OSC_BYTES { osc.push(b) } else { osc }
}

/// The index of the first `;` in `s` at or after `i`, or -1.
pub open spec fn semicolon_from(s: Seq<u8>, i: int) -> int
    decreases s.len() - i,
{
    if i < 0 || i >= s.len() {
        -1
    } else if s[i] == 0x3b {
        i
    } else {
        semicolon_from(s, i + 1)
    }
}

/// What decoding `text` as standard padded Base64 gives; `None` for text
/// that is not such Base64.
pub uninterp spec fn base64_decoded(text: Seq<char>) -> Option<Seq<u8>>;

/// The clipboard text of an OSC 52 request whose arguments are `rest`
/// (`selection ; base64`): the decoded data when it is UTF-8 text.
pub open spec fn clipboard_text(rest: Seq<u8>) -> Option<Seq<char>> {
    let j = semicolon_from(rest, 0);
    if j < 0 {
        None
    } else {
        let b64 = rest.skip(j + 1);
        if !valid_utf8(b64) {
            None
        } else {
            match base64_decoded(decode_utf8(b64)) {
                Some(data) => if valid_utf8(data) { Some(decode_utf8(data)) } else { None },
                None => None,
            }
        }
    }
}

/// A complete OSC string: `0` and `2` set the title, `52` writes the
/// clipboard; anything else, or a payload that is not UTF-8, is ignored.
pub open spec fn osc_dispatch(payload: Seq<u8>, t: TerminalView) -> TerminalView {
    let i = semicolon_from(payload, 0);
    if i < 0 {
        t
    } else {
        let kind = payload.take(i);
        let rest = payload.skip(i + 1);
        if !valid_utf8(rest) {
            t
        } else if kind == seq![0x30u8] || kind == seq![0x32u8] {
            let title = Some(decode_utf8(rest));
            with_output(TerminalView { title, ..t }, OutputView::Title(title))
        } else if kind == seq![0x35u8, 0x32u8] {
            match clipboard_text(rest) {
                Some(text) => with_output(t, OutputView::ClipboardSet(text)),
                None => t,
            }
        } else {
            t
        }
    }
}

/// A byte inside an OSC string: BEL ends it, `ESC` may start the string
/// terminator, anything else is collected.
#[verifier::opaque]
pub open spec fn osc_step(p: ParserView, t: TerminalView, b: u8) -> (ParserView, TerminalView) {
    if b == 0x07 {
        (ParserView { state: ParseState::Ground, osc: Seq::empty(), ..p }, osc_dispatch(p.osc, t))
    } else if b == 0x1b {
        (ParserView { state: ParseState::OscEscape, ..p }, t)
    } else {
        (ParserView { osc: push_osc(p.osc, b), ..p }, t)
    }
}

/// A byte after `ESC` inside an OSC string: `\` ends the string, anything
/// else is collected after the `ESC`.
#[verifier::opaque]
pub open spec fn osc_escape_step(p: ParserView, t: TerminalView, b: u8) -> (ParserView, TerminalView) {
    if b == 0x5c {
        (ParserView { state: ParseState::Ground, osc: Seq::empty(), ..p }, osc_dispatch(p.osc, t))
    } else {
        (ParserView { state: ParseState::Osc, osc: push_osc(push_osc(p.osc, 0x1b), b), ..p }, t)
    }
}

// ---------------------------------------------------------------- the machine

/// One byte of input.
pub open spec fn parse_step(p: ParserView, t: TerminalView, b: u8) -> (ParserView, TerminalView) {
    match p.state {
        ParseState::Ground => ground_step(p, t, b),
        ParseState::Escape => escape_step(p, t, b),
        ParseState::EscapeCharset => (ParserView { state: ParseState::Ground, ..p }, t),
        ParseState::Csi => csi_step(p, t, b),
        ParseState::Osc => osc_step(p, t, b),
        ParseState::OscEscape => osc_escape_step(p, t, b),
    }
}

/// The input `bytes`, one after the other.
pub open spec fn parse_all(p: ParserView, t: TerminalView, bytes: Seq<u8>) -> (ParserView, TerminalView)
    decreases bytes.len(),
{
    if bytes.len() == 0 {
        (p, t)
    } else {
        let (q, u) = parse_all(p, t, bytes.drop_last());
        parse_step(q, u, bytes.last())
    }
}


// ---------------------------------------------------------------- outside calls

/// `core::char::from_u32`: the character with code point `i`; `None` for a
/// surrogate or a value past U+10FFFF.
pub assume_specification[ core::char::from_u32 ](i: u32) -> (r: Option<char>)
    ensures
        r == (if vstd::utf8::is_scalar(i) { Some(i as char) } else { None }),
;

/// `String::from_utf8`: the string whose UTF-8 encoding is `bytes`; `None`
/// when `bytes` is not valid UTF-8.
#[verifier::external_body]
pub(crate) fn string_from_utf8(bytes: Vec<u8>) -> (r: Option<String>)
    ensures
        r is Some <==> valid_utf8(bytes@),
        r is Some ==> r->0@ == decode_utf8(bytes@),
{
    String::from_utf8(bytes).ok()
}

/// `base64ct`'s `Base64::decode_vec` (standard alphabet, with padding): the
/// decoded bytes, or `None` where it reports an error. What it gives is
/// named [`base64_decoded`]. The decoder is strict (it encodes the last
/// block again and compares), so it gives bytes exactly when the text is
/// their encoding (see [`crate::handler::base64_encoding`]).
#[verifier::external_body]
pub(crate) fn decode_base64(text: &str) -> (r: Option<Vec<u8>>)
    ensures
        match r {
            Some(v) => base64_decoded(text@) == Some(v@) && crate::handler::base64_encoding(v@) == text@,
            None => base64_decoded(text@) is None && forall|d: Seq<u8>|
                #[trigger] crate::handler::base64_encoding(d) != text@,
        },
{
    base64ct::Base64::decode_vec(text).ok()
}

// ---------------------------------------------------------------- helpers

/// The bytes of `s` from index `k` on.
pub(crate) fn tail(s: &Vec<u8>, k: usize) -> (r: Vec<u8>)
    requires
        k <= s.len(),
    ensures
        r@ == s@.skip(k as int),
{
    let mut r: Vec<u8> = Vec::new();
    let mut i = k;
    while i < s.len()
        invariant
            k <= i <= s.len(),
            r@ == s@.subrange(k as int, i as int),
        decreases s.len() - i,
    {
        r.push(s[i]);
        i += 1;
        assert(r@ =~= s@.subrange(k as int, i as int));
    }
    assert(s@.subrange(k as int, s.len() as int) =~= s@.skip(k as int));
    r
}

/// The index of the first `;` in `s` at or after `start`.
fn find_semicolon(s: &Vec<u8>, start: usize) -> (r: Option<usize>)
    requires
        start <= s.len(),
    ensures
        match r {
            Some(k) => k == semicolon_from(s@, start as int) && k < s.len(),
            None => semicolon_from(s@, start as int) == -1,
        },
{
    let mut k = start;
    while k < s.len()
        invariant
            start <= k <= s.len(),
            semicolon_from(s@, start as int) == semicolon_from(s@, k as int),
        decreases s.len() - k,
    {
        if s[k] == 0x3b {
            return Some(k);
        }
        k += 1;
    }
    None
}

/// Parameter `i` of `params`, or `default` when it is missing or zero.
fn param(params: &Vec<u16>, i: usize, default: usize) -> (r: usize)
    requires
        default <= 0xffff_ffff,
    ensures
        r == param_at(params@, i as int, default as int),
{
    if i < params.len() && params[i] != 0 {
        params[i] as usize
    } else {
        default
    }
}

/// `v` capped at `i32::MAX`.
fn cap_to_i32(v: i64) -> (r: i32)
    requires
        v >= i32::MIN,
    ensures
        r == cap_i32(v as int),
{
    if v > i32::MAX as i64 {
        i32::MAX
    } else {
        v as i32
    }
}

// ---------------------------------------------------------------- UTF-8

/// Whether `s` begins a well-formed sequence, and whether it is complete.
fn utf8_status(s: &Vec<u8>) -> (r: (bool, bool))
    requires
        1 <= s.len() <= 4,
    ensures
        r.0 == utf8_prefix_ok(s@),
        r.1 == utf8_complete(s@),
{
    let n = s.len();
    let lead = s[0];
    let need: usize = if lead < 0x80 {
        1
    } else if 0xc2 <= lead && lead <= 0xdf {
        2
    } else if 0xe0 <= lead && lead <= 0xef {
        3
    } else if 0xf0 <= lead && lead <= 0xf4 {
        4
    } else {
        0
    };
    let mut ok = n <= need;
    if ok && n >= 2 {
        let b = s[1];
        ok = if lead == 0xe0 {
            0xa0 <= b && b <= 0xbf
        } else if lead == 0xed {
            0x80 <= b && b <= 0x9f
        } else if lead == 0xf0 {
            0x90 <= b && b <= 0xbf
        } else if lead == 0xf4 {
            0x80 <= b && b <= 0x8f
        } else {
            0x80 <= b && b <= 0xbf
        };
    }
    if ok && n >= 3 {
        ok = 0x80 <= s[2] && s[2] <= 0xbf;
    }
    if ok && n >= 4 {
        ok = 0x80 <= s[3] && s[3] <= 0xbf;
    }
    (ok, ok && n == need)
}

/// A complete well-formed sequence encodes a Unicode scalar value.
proof fn lemma_utf8_scalar(s: Seq<u8>)
    requires
        utf8_complete(s),
    ensures
        vstd::utf8::is_scalar(utf8_value(s)),
{
    if s.len() == 2 {
        let (b0, b1) = (s[0], s[1]);
        assert(0x80 <= (((b0 & 0x1f) as u32) << 6u32 | (b1 & 0x3f) as u32) <= 0x7ff) by (bit_vector)
            requires
                0xc2 <= b0 <= 0xdf,
                0x80 <= b1 <= 0xbf,
        ;
    } else if s.len() == 3 {
        let (b0, b1, b2) = (s[0], s[1], s[2]);
        assert({
            let v = ((b0 & 0x0f) as u32) << 12u32 | ((b1 & 0x3f) as u32) << 6u32 | (b2 & 0x3f) as u32;
            v <= 0xd7ff || (0xe000 <= v && v <= 0xffff)
        }) by (bit_vector)
            requires
                0xe0 <= b0 <= 0xef,
                0x80 <= b1 <= 0xbf,
                b0 == 0xed ==> b1 <= 0x9f,
                0x80 <= b2 <= 0xbf,
        ;
    } else if s.len() == 4 {
        let (b0, b1, b2, b3) = (s[0], s[1], s[2], s[3]);
        assert({
            let v = ((b0 & 0x07) as u32) << 18u32 | ((b1 & 0x3f) as u32) << 12u32 | ((b2 & 0x3f) as u32) << 6u32 | (
            b3 & 0x3f) as u32;
            0x10000 <= v && v <= 0x10ffff
        }) by (bit_vector)
            requires
                0xf0 <= b0 <= 0xf4,
                0x80 <= b1 <= 0xbf,
                b0 == 0xf0 ==> b1 >= 0x90,
                b0 == 0xf4 ==> b1 <= 0x8f,
                0x80 <= b2 <= 0xbf,
                0x80 <= b3 <= 0xbf,
        ;
    }
}

/// The character a complete well-formed sequence encodes.
fn utf8_char(s: &Vec<u8>) -> (r: char)
    requires
        utf8_complete(s@),
    ensures
        r == utf8_value(s@) as char,
{
    let n = s.len();
    let v: u32 = if n == 1 {
        s[0] as u32
    } else if n == 2 {
        ((s[0] & 0x1f) as u32) << 6u32 | (s[1] & 0x3f) as u32
    } else if n == 3 {
        ((s[0] & 0x0f) as u32) << 12u32 | ((s[1] & 0x3f) as u32) << 6u32 | (s[2] & 0x3f) as u32
    } else {
        ((s[0] & 0x07) as u32) << 18u32 | ((s[1] & 0x3f) as u32) << 12u32 | ((s[2] & 0x3f) as u32) << 6u32 | (s[3]
            & 0x3f) as u32
    };
    proof {
        lemma_utf8_scalar(s@);
    }
    match core::char::from_u32(v) {
        Some(c) => c,
        None => '\u{fffd}',
    }
}

// ---------------------------------------------------------------- the processor

/// The escape sequence parser.
pub struct Processor {
    state: ParseState,
    csi_private: bool,
    csi_params: Vec<u16>,
    csi_current: u16,
    csi_has_current: bool,
    osc: Vec<u8>,
    utf8_buf: Vec<u8>,
}

impl Processor {
    /// The parser as plain values.
    pub closed spec fn model(&self) -> ParserView {
        ParserView {
            state: self.state,
            private: self.csi_private,
            params: self.csi_params@,
            current: self.csi_current,
            has_current: self.csi_has_current,
            osc: self.osc@,
            utf8: self.utf8_buf@,
        }
    }

    /// The parser keeps its bounds.
    pub open spec fn wf(&self) -> bool {
        self.model().wf()
    }

    /// A new parser (see [`initial_parser`]).
    pub fn new() -> (r: Self)
        ensures
            r.model() == initial_parser(),
            r.wf(),
    {
        Processor {
            state: ParseState::Ground,
            csi_private: false,
            csi_params: Vec::new(),
            csi_current: 0,
            csi_has_current: false,
            osc: Vec::new(),
            utf8_buf: Vec::new(),
        }
    }

    /// Writes U+FFFD for an incomplete character (see [`flush_utf8`]).
    fn flush_utf8_invalid(&mut self, term: &mut Terminal)
        requires
            old(self).wf(),
            old(term).wf(),
        ensures
            final(self).wf(),
            final(term).wf(),
            (final(self).model(), final(term).model()) == flush_utf8(old(self).model(), old(term).model()),
    {
        if self.utf8_buf.len() > 0 {
            self.utf8_buf = Vec::new();
            term.put('\u{fffd}');
        }
    }

    /// A byte of text (see [`text_byte`]).
    fn push_utf8_byte(&mut self, term: &mut Terminal, b: u8)
        requires
            old(self).wf(),
            old(term).wf(),
        ensures
            final(self).wf(),
            final(term).wf(),
            (final(self).model(), final(term).model()) == text_byte(old(self).model(), old(term).model(), b),
    {
        if self.utf8_buf.len() == 0 && b < 0x80 {
            term.put(b as char);
            return;
        }
        if self.utf8_buf.len() >= 4 {
            self.utf8_buf = Vec::new();
            term.put('\u{fffd}');
        }
        self.utf8_buf.push(b);
        let (ok, complete) = utf8_status(&self.utf8_buf);
        if complete {
            let c = utf8_char(&self.utf8_buf);
            self.utf8_buf = Vec::new();
            term.put(c);
        } else if !ok {
            self.utf8_buf = Vec::new();
            term.put('\u{fffd}');
        }
    }

    /// A byte in the ground state (see [`ground_step`]).
    fn ground(&mut self, term: &mut Terminal, b: u8)
        requires
            old(self).wf(),
            old(term).wf(),
            old(self).model().state == ParseState::Ground,
        ensures
            final(self).wf(),
            final(term).wf(),
            (final(self).model(), final(term).model()) == ground_step(old(self).model(), old(term).model(), b),
    {
        if b == 0x1b {
            self.flush_utf8_invalid(term);
            self.state = ParseState::Escape;
        } else if b == 0x07 {
            term.bell();
        } else if b == 0x08 {
            // Backspace leaves the cursor where it is.
        } else if b == 0x09 {
            self.flush_utf8_invalid(term);
            term.tab();
        } else if b == 0x0a || b == 0x0b || b == 0x0c {
            self.flush_utf8_invalid(term);
            term.lf();
        } else if b == 0x0d {
            self.flush_utf8_invalid(term);
            term.cr();
        } else if b <= 0x1f || b == 0x7f {
            self.flush_utf8_invalid(term);
        } else {
            self.push_utf8_byte(term, b);
        }
    }

    /// Starts a CSI sequence (see [`csi_start`]).
    fn start_csi(&mut self)
        requires
            old(self).wf(),
        ensures
            final(self).wf(),
            final(self).model() == csi_start(old(self).model()),
    {
        self.state = ParseState::Csi;
        self.csi_private = false;
        self.csi_params = Vec::new();
        self.csi_current = 0;
        self.csi_has_current = false;
    }

    /// A byte after `ESC` (see [`escape_step`]).
    fn escape(&mut self, term: &mut Terminal, b: u8)
        requires
            old(self).wf(),
            old(term).wf(),
        ensures
            final(self).wf(),
            final(term).wf(),
            (final(self).model(), final(term).model()) == escape_step(old(self).model(), old(term).model(), b),
    {
        proof {
            reveal(escape_step);
        }
        self.state = ParseState::Ground;
        if b == 0x5b {
            self.start_csi();
        } else if b == 0x5d {
            self.state = ParseState::Osc;
            self.osc = Vec::new();
        } else if b == 0x37 {
            term.save_cursor();
        } else if b == 0x38 {
            term.restore_cursor();
        } else if b == 0x44 {
            term.lf();
        } else if b == 0x45 {
            term.newline();
        } else if b == 0x4d {
            if term.cursor().row == term.scroll_top() {
                term.scroll(1);
            }
        } else if b == 0x63 {
            term.reset();
        } else if b == 0x3d {
            term.set_mode(TerminalMode::APP_KEYPAD, true);
        } else if b == 0x3e {
            term.set_mode(TerminalMode::APP_KEYPAD, false);
        } else if b == 0x28 || b == 0x29 || b == 0x2a || b == 0x2b {
            self.state = ParseState::EscapeCharset;
        }
    }

    /// Appends a CSI parameter (see [`push_param`]).
    fn push_csi_param(&mut self, v: u16)
        requires
            old(self).wf(),
        ensures
            final(self).wf(),
            final(self).model() == (ParserView { params: push_param(old(self).model().params, v), ..old(self).model() }),
    {
        if self.csi_params.len() < MAX_PARAMS {
            self.csi_params.push(v);
        }
    }

    /// A final byte: the sequence runs and the parser returns to the
    /// ground state (see [`csi_step`]).
    fn csi_final(&mut self, term: &mut Terminal, b: u8)
        requires
            old(self).wf(),
            old(term).wf(),
            0x40 <= b <= 0x7e,
        ensures
            final(self).wf(),
            final(term).wf(),
            (final(self).model(), final(term).model()) == csi_step(old(self).model(), old(term).model(), b),
    {
        proof {
            reveal(csi_step);
        }
        if self.csi_has_current || self.csi_params.len() == 0 {
            let v = self.csi_current;
            self.push_csi_param(v);
        }
        self.state = ParseState::Ground;
        dispatch_csi(term, &self.csi_params, self.csi_private, b);
    }

    /// A byte that builds the parameters (see [`csi_step`]).
    fn csi_param_byte(&mut self, b: u8)
        requires
            old(self).wf(),
            !(0x40 <= b <= 0x7e),
        ensures
            final(self).wf(),
            forall|t: TerminalView| #[trigger] csi_step(old(self).model(), t, b) == (final(self).model(), t),
    {
        proof {
            reveal(csi_step);
        }
        if 0x30 <= b && b <= 0x39 {
            self.csi_has_current = true;
            let v: u32 = self.csi_current as u32 * 10 + (b - 0x30) as u32;
            self.csi_current = if v > 65535 { 65535 } else { v as u16 };
        } else if b == 0x3b {
            let v = self.csi_current;
            self.push_csi_param(v);
            self.csi_current = 0;
            self.csi_has_current = false;
        } else if b == 0x3f && self.csi_params.len() == 0 && !self.csi_has_current {
            self.csi_private = true;
        } else if 0x20 <= b && b <= 0x2f {
        } else {
            self.state = ParseState::Ground;
        }
    }

    /// A byte inside a CSI sequence (see [`csi_step`]).
    fn csi(&mut self, term: &mut Terminal, b: u8)
        requires
            old(self).wf(),
            old(term).wf(),
        ensures
            final(self).wf(),
            final(term).wf(),
            (final(self).model(), final(term).model()) == csi_step(old(self).model(), old(term).model(), b),
    {
        if 0x40 <= b && b <= 0x7e {
            self.csi_final(term, b);
        } else {
            self.csi_param_byte(b);
        }
    }

    /// Appends a byte to the OSC payload (see [`push_osc`]).
    fn push_osc(&mut self, b: u8)
        requires
            old(self).wf(),
        ensures
            final(self).wf(),
            final(self).model() == (ParserView { osc: push_osc(old(self).model().osc, b), ..old(self).model() }),
    {
        if self.osc.len() < MAX_OSC_BYTES {
            self.osc.push(b);
        }
    }

    /// Ends the OSC string: runs it and empties the payload.
    fn finish_osc(&mut self, term: &mut Terminal)
        requires
            old(self).wf(),
            old(term).wf(),
        ensures
            final(self).wf(),
            final(term).wf(),
            final(self).model() == (ParserView { state: ParseState::Ground, osc: Seq::empty(), ..old(self).model() }),
            final(term).model() == osc_dispatch(old(self).model().osc, old(term).model()),
    {
        let mut payload: Vec<u8> = Vec::new();
        std::mem::swap(&mut payload, &mut self.osc);
        self.state = ParseState::Ground;
        dispatch_osc(term, payload);
    }

    /// A byte inside an OSC string (see [`osc_step`]).
    fn osc_byte(&mut self, term: &mut Terminal, b: u8)
        requires
            old(self).wf(),
            old(term).wf(),
        ensures
            final(self).wf(),
            final(term).wf(),
            (final(self).model(), final(term).model()) == osc_step(old(self).model(), old(term).model(), b),
    {
        proof {
            reveal(osc_step);
        }
        if b == 0x07 {
            self.finish_osc(term);
        } else if b == 0x1b {
            self.state = ParseState::OscEscape;
        } else {
            self.push_osc(b);
        }
    }

    /// A byte after `ESC` inside an OSC string (see [`osc_escape_step`]).
    fn osc_escape(&mut self, term: &mut Terminal, b: u8)
        requires
            old(self).wf(),
            old(term).wf(),
        ensures
            final(self).wf(),
            final(term).wf(),
            (final(self).model(), final(term).model()) == osc_escape_step(old(self).model(), old(term).model(), b),
    {
        proof {
            reveal(osc_escape_step);
        }
        if b == 0x5c {
            self.finish_osc(term);
        } else {
            self.push_osc(0x1b);
            self.state = ParseState::Osc;
            self.push_osc(b);
        }
    }

    /// One byte of input (see [`parse_step`]).
    fn step(&mut self, term: &mut Terminal, b: u8)
        requires
            old(self).wf(),
            old(term).wf(),
        ensures
            final(self).wf(),
            final(term).wf(),
            (final(self).model(), final(term).model()) == parse_step(old(self).model(), old(term).model(), b),
    {
        match self.state {
            ParseState::Ground => self.ground(term, b),
            ParseState::Escape => self.escape(term, b),
            ParseState::EscapeCharset => {
                self.state = ParseState::Ground;
            },
            ParseState::Csi => self.csi(term, b),
            ParseState::Osc => self.osc_byte(term, b),
            ParseState::OscEscape => self.osc_escape(term, b),
        }
    }

    /// Feeds `bytes` to the parser, applying what they say to `term` (see
    /// [`parse_all`]).
    pub fn advance(&mut self, term: &mut Terminal, bytes: &[u8])
        requires
            old(self).wf(),
            old(term).wf(),
        ensures
            final(self).wf(),
            final(term).wf(),
            (final(self).model(), final(term).model()) == parse_all(old(self).model(), old(term).model(), bytes@),
    {
        let mut i: usize = 0;
        while i < bytes.len()
            invariant
                i <= bytes.len(),
                self.wf(),
                term.wf(),
                (self.model(), term.model()) == parse_all(old(self).model(), old(term).model(), bytes@.take(i as int)),
            decreases bytes.len() - i,
        {
            let b = bytes[i];
            self.step(term, b);
            proof {
                assert(bytes@.take(i + 1).drop_last() =~= bytes@.take(i as int));
            }
            i += 1;
        }
        assert(bytes@.take(bytes.len() as int) =~= bytes@);
    }
}


// ---------------------------------------------------------------- dispatch

/// A cursor movement (see [`csi_move`]).
fn dispatch_move(term: &mut Terminal, params: &Vec<u16>, f: u8)
    requires
        old(term).wf(),
        is_move(f),
    ensures
        final(term).wf(),
        final(term).model() == csi_move(old(term).model(), params@, f),
{
    let n = param(params, 0, 1);
    let c = term.cursor();
    proof {
        term.lemma_cursor_bounds();
    }
    let row = c.row as i64;
    let col = c.col;
    if f == 0x41 {
        term.goto_line((row - n as i64) as i32);
    } else if f == 0x42 {
        term.goto_line(cap_to_i32(row + n as i64));
    } else if f == 0x43 {
        term.goto_col(col.saturating_add(n as u32));
    } else if f == 0x44 {
        term.goto_col(col.saturating_sub(n as u32));
    } else if f == 0x45 {
        term.goto_line(cap_to_i32(row + n as i64));
        term.cr();
    } else if f == 0x46 {
        term.goto_line((row - n as i64) as i32);
        term.cr();
    } else if f == 0x47 {
        term.goto_col((n - 1) as u32);
    } else if f == 0x64 {
        term.goto_line((n - 1) as i32);
    } else {
        let m = param(params, 1, 1);
        term.goto_line((n - 1) as i32);
        term.goto_col((m - 1) as u32);
    }
}

/// An edit (see [`csi_edit`]).
fn dispatch_edit(term: &mut Terminal, params: &Vec<u16>, f: u8)
    requires
        old(term).wf(),
        is_edit(f),
    ensures
        final(term).wf(),
        final(term).model() == csi_edit(old(term).model(), params@, f),
{
    let n = param(params, 0, 1);
    if f == 0x4a {
        term.clear_screen(param(params, 0, 0) as u8);
    } else if f == 0x4b {
        term.clear_line(param(params, 0, 0) as u8);
    } else if f == 0x4c || f == 0x54 {
        term.scroll(n as i32);
    } else if f == 0x4d || f == 0x53 {
        term.scroll(-(n as i32));
    } else if f == 0x50 {
        term.delete_chars(n);
    } else if f == 0x58 {
        term.erase_chars(n);
    } else {
        term.insert_blank(n);
    }
}

/// The ANSI modes of `params` set or reset (see [`ansi_modes`]).
fn dispatch_ansi_modes(term: &mut Terminal, params: &Vec<u16>, on: bool)
    requires
        old(term).wf(),
    ensures
        final(term).wf(),
        final(term).model() == ansi_modes(old(term).model(), params@, on),
{
    let mut i: usize = 0;
    while i < params.len()
        invariant
            i <= params.len(),
            term.wf(),
            term.model() == ansi_modes(old(term).model(), params@.take(i as int), on),
        decreases params.len() - i,
    {
        let mode = params[i];
        if mode == 4 {
            term.set_mode(TerminalMode::INSERT, on);
        } else if mode == 20 {
            term.set_mode(TerminalMode::LINE_FEED_NEW_LINE, on);
        }
        proof {
            assert(params@.take(i + 1).drop_last() =~= params@.take(i as int));
        }
        i += 1;
    }
    assert(params@.take(params.len() as int) =~= params@);
}

/// Private modes 1, 7 and 25 set or reset (see [`private_mode`]).
fn dispatch_cursor_mode(term: &mut Terminal, mode: u16, on: bool)
    requires
        old(term).wf(),
        mode == 1 || mode == 7 || mode == 25,
    ensures
        final(term).wf(),
        final(term).model() == private_mode(old(term).model(), mode, on),
{
    if mode == 1 {
        term.set_app_cursor(on);
    } else if mode == 7 {
        term.set_auto_wrap(if on { AutoWrap::Delayed } else { AutoWrap::Disabled });
    } else {
        term.set_cursor_visible(on);
    }
}

/// Private modes 1049 and 2004 set or reset (see [`private_mode`]).
fn dispatch_screen_mode(term: &mut Terminal, mode: u16, on: bool)
    requires
        old(term).wf(),
        mode == 1049 || mode == 2004,
    ensures
        final(term).wf(),
        final(term).model() == private_mode(old(term).model(), mode, on),
{
    if mode == 1049 {
        if on {
            term.enter_alternate();
        } else {
            term.exit_alternate();
        }
    } else {
        term.set_mode(TerminalMode::BRACKETED_PASTE, on);
    }
}

/// One private mode set or reset (see [`private_mode`]).
pub(crate) fn dispatch_private_mode(term: &mut Terminal, mode: u16, on: bool)
    requires
        old(term).wf(),
    ensures
        final(term).wf(),
        final(term).model() == private_mode(old(term).model(), mode, on),
{
    if mode == 1 || mode == 7 || mode == 25 {
        dispatch_cursor_mode(term, mode, on);
    } else if mode == 1049 || mode == 2004 {
        dispatch_screen_mode(term, mode, on);
    } else {
        term.set_pointer_mode(mode, on);
    }
}

/// A private CSI sequence (see [`csi_private`]).
fn dispatch_private_csi(term: &mut Terminal, params: &Vec<u16>, f: u8)
    requires
        old(term).wf(),
    ensures
        final(term).wf(),
        final(term).model() == csi_private(old(term).model(), params@, f),
{
    if f == 0x68 || f == 0x6c {
        let on = f == 0x68;
        let mut i: usize = 0;
        while i < params.len()
            invariant
                i <= params.len(),
                term.wf(),
                term.model() == private_modes(old(term).model(), params@.take(i as int), on),
            decreases params.len() - i,
        {
            dispatch_private_mode(term, params[i], on);
            proof {
                assert(params@.take(i + 1).drop_last() =~= params@.take(i as int));
            }
            i += 1;
        }
        assert(params@.take(params.len() as int) =~= params@);
    } else if f == 0x70 {
        let mut i: usize = 0;
        while i < params.len()
            invariant
                i <= params.len(),
                term.wf(),
                term.model() == mode_reports(old(term).model(), params@.take(i as int)),
            decreases params.len() - i,
        {
            term.report_dec_private(params[i]);
            proof {
                assert(params@.take(i + 1).drop_last() =~= params@.take(i as int));
            }
            i += 1;
        }
        assert(params@.take(params.len() as int) =~= params@);
    }
}

/// One SGR parameter (see [`sgr_one`]).
fn sgr_step(params: &Vec<u16>, i: usize, s: Char, m: u32) -> (r: (Char, u32, usize))
    requires
        i < params.len(),
    ensures
        (r.0, r.1, r.2 as int) == sgr_one(params@, i as int, s, m),
{
    let p = params[i];
    if p == 0 {
        (Char::empty(), m, 0)
    } else if p == 1 {
        let mut f = s.font;
        f.set_bold(true);
        (Char { font: f, ..s }, m, 0)
    } else if p == 3 {
        let mut f = s.font;
        f.set_italic(true);
        (Char { font: f, ..s }, m, 0)
    } else if p == 4 {
        let mut g = s.flags;
        g.insert(CharFlags(CharFlags::UNDERLINE));
        (Char { flags: g, ..s }, m, 0)
    } else if p == 7 {
        (s, m | TerminalMode::REVERSE_COLOR, 0)
    } else if p == 22 {
        let mut f = s.font;
        f.set_bold(false);
        (Char { font: f, ..s }, m, 0)
    } else if p == 23 {
        let mut f = s.font;
        f.set_italic(false);
        (Char { font: f, ..s }, m, 0)
    } else if p == 24 {
        let mut g = s.flags;
        g.remove(CharFlags(CharFlags::UNDERLINE));
        (Char { flags: g, ..s }, m, 0)
    } else if p == 27 {
        (s, m & !TerminalMode::REVERSE_COLOR, 0)
    } else if p == 39 {
        (Char { fg: AnsiColor::Named(AnsiNamedColor::Foreground), ..s }, m, 0)
    } else if p == 49 {
        (Char { bg: AnsiColor::Named(AnsiNamedColor::Background), ..s }, m, 0)
    } else if (30 <= p && p <= 37) || (90 <= p && p <= 97) {
        match AnsiNamedColor::from_named_fg(p as u8) {
            Some(c) => (Char { fg: AnsiColor::Named(c), ..s }, m, 0),
            None => (s, m, 0),
        }
    } else if (40 <= p && p <= 47) || (100 <= p && p <= 107) {
        match AnsiNamedColor::from_named_bg(p as u8) {
            Some(c) => (Char { bg: AnsiColor::Named(c), ..s }, m, 0),
            None => (s, m, 0),
        }
    } else if p == 38 || p == 48 {
        let n = params.len();
        if n - i > 2 && params[i + 1] == 5 {
            let v = params[i + 2];
            let c = AnsiColor::Indexed(if v > 255 { 255 } else { v as u8 });
            (if p == 38 { Char { fg: c, ..s } } else { Char { bg: c, ..s } }, m, 2)
        } else if n - i > 4 && params[i + 1] == 2 {
            let (r, g, b) = (params[i + 2], params[i + 3], params[i + 4]);
            let c = AnsiColor::Spec(
                AnsiRgb {
                    r: if r > 255 { 255 } else { r as u8 },
                    g: if g > 255 { 255 } else { g as u8 },
                    b: if b > 255 { 255 } else { b as u8 },
                },
            );
            (if p == 38 { Char { fg: c, ..s } } else { Char { bg: c, ..s } }, m, 4)
        } else {
            (s, m, 0)
        }
    } else {
        (s, m, 0)
    }
}

/// SGR: applies the parameters to style `s` and modes `m` (see
/// [`sgr_from`]).
pub fn apply_sgr(params: &Vec<u16>, s: Char, m: u32) -> (r: (Char, u32))
    ensures
        r == sgr_from(params@, 0, s, m),
{
    let mut i: usize = 0;
    let mut style = s;
    let mut mode = m;
    while i < params.len()
        invariant
            i <= params.len(),
            sgr_from(params@, 0, s, m) == sgr_from(params@, i as int, style, mode),
        decreases params.len() - i,
    {
        let (s2, m2, skip) = sgr_step(params, i, style, mode);
        style = s2;
        mode = m2;
        i = i + 1 + skip;
    }
    (style, mode)
}

/// The other CSI sequences (see [`csi_other`]).
fn dispatch_other(term: &mut Terminal, params: &Vec<u16>, f: u8)
    requires
        old(term).wf(),
    ensures
        final(term).wf(),
        final(term).model() == csi_other(old(term).model(), params@, f),
{
    if f == 0x6d {
        let (s, m) = apply_sgr(params, term.style(), term.mode().0);
        term.set_style(s);
        let old_mode = term.mode().0;
        term.set_mode(old_mode, false);
        term.set_mode(m, true);
        proof {
            assert(old_mode & !old_mode == 0u32) by (bit_vector);
            assert(0u32 | m == m) by (bit_vector);
        }
    } else if f == 0x73 {
        term.save_cursor();
    } else if f == 0x75 {
        term.restore_cursor();
    } else if f == 0x72 {
        let top = param(params, 0, 1);
        let bottom = param(params, 1, term.rows() as usize);
        term.set_scroll_margins(top, bottom);
    } else if f == 0x6e {
        term.device_status(param(params, 0, 0));
    } else if f == 0x68 {
        dispatch_ansi_modes(term, params, true);
    } else if f == 0x6c {
        dispatch_ansi_modes(term, params, false);
    } else if f == 0x63 && param(params, 0, 0) == 0 {
        let answer: Vec<u8> = vec![0x1bu8, 0x5bu8, 0x3fu8, 0x36u8, 0x63u8];
        assert(answer@ =~= device_attributes());
        term.user_input(answer.as_slice());
    }
}

/// A complete CSI sequence (see [`csi_dispatch`]).
fn dispatch_csi(term: &mut Terminal, params: &Vec<u16>, private: bool, f: u8)
    requires
        old(term).wf(),
    ensures
        final(term).wf(),
        final(term).model() == csi_dispatch(old(term).model(), params@, private, f),
{
    if private {
        dispatch_private_csi(term, params, f);
    } else if f == 0x41 || f == 0x42 || f == 0x43 || f == 0x44 || f == 0x45 || f == 0x46 || f == 0x47 || f == 0x64
        || f == 0x48 || f == 0x66 {
        dispatch_move(term, params, f);
    } else if f == 0x4a || f == 0x4b || f == 0x4c || f == 0x54 || f == 0x4d || f == 0x53 || f == 0x50 || f == 0x58
        || f == 0x40 {
        dispatch_edit(term, params, f);
    } else {
        dispatch_other(term, params, f);
    }
}

/// A complete OSC string (see [`osc_dispatch`]).
fn dispatch_osc(term: &mut Terminal, payload: Vec<u8>)
    requires
        old(term).wf(),
    ensures
        final(term).wf(),
        final(term).model() == osc_dispatch(payload@, old(term).model()),
{
    let i = match find_semicolon(&payload, 0) {
        Some(i) => i,
        None => {
            return;
        },
    };
    let rest = tail(&payload, i + 1);
    let title_kind = i == 1 && (payload[0] == 0x30 || payload[0] == 0x32);
    let clipboard_kind = i == 2 && payload[0] == 0x35 && payload[1] == 0x32;
    proof {
        let kind = payload@.take(i as int);
        let t0 = seq![0x30u8];
        let t2 = seq![0x32u8];
        let c52 = seq![0x35u8, 0x32u8];
        assert(kind.len() == i);
        assert(t0.len() == 1 && t2.len() == 1 && c52.len() == 2);
        if i == 1 {
            assert(kind[0] == payload@[0]);
            if payload@[0] == 0x30 {
                assert(kind =~= t0);
            } else if payload@[0] == 0x32 {
                assert(kind =~= t2);
            } else {
                assert(kind[0] != t0[0] && kind[0] != t2[0]);
            }
        }
        if i == 2 {
            assert(kind[0] == payload@[0] && kind[1] == payload@[1]);
            if payload@[0] == 0x35 && payload@[1] == 0x32 {
                assert(kind =~= c52);
            } else {
                assert(kind[0] != c52[0] || kind[1] != c52[1]);
            }
        }
        assert(title_kind == (kind == t0 || kind == t2));
        assert(clipboard_kind == (kind == c52));
    }
    let b64 = match find_semicolon(&rest, 0) {
        Some(j) => Some(tail(&rest, j + 1)),
        None => None,
    };
    let text = match string_from_utf8(rest) {
        Some(t) => t,
        None => {
            return;
        },
    };
    if title_kind {
        term.set_title(Some(text));
    } else if clipboard_kind {
        let b64 = match b64 {
            Some(b) => b,
            None => {
                return;
            },
        };
        let encoded = match string_from_utf8(b64) {
            Some(e) => e,
            None => {
                return;
            },
        };
        assert(encoded@ == decode_utf8(rest@.skip(semicolon_from(rest@, 0) + 1)));
        let data = match decode_base64(encoded.as_str()) {
            Some(d) => d,
            None => {
                return;
            },
        };
        match string_from_utf8(data) {
            Some(clip) => term.clipboard_set(clip),
            None => {},
        }
    }
}


// ---------------------------------------------------------------- laws

/// Input may be split anywhere: feeding `a` and then `b` is feeding `a + b`.
pub proof fn law_parse_concat(p: ParserView, t: TerminalView, a: Seq<u8>, b: Seq<u8>)
    ensures
        parse_all(p, t, a + b) == parse_all(parse_all(p, t, a).0, parse_all(p, t, a).1, b),
    decreases b.len(),
{
    if b.len() == 0 {
        assert(a + b =~= a);
    } else {
        law_parse_concat(p, t, a, b.drop_last());
        assert((a + b).drop_last() =~= a + b.drop_last());
        assert((a + b).last() == b.last());
    }
}

/// Facts about the UTF-8 encoding of a value with a two-byte encoding.
proof fn lemma_encode_width_2(v: u32)
    requires
        vstd::utf8::has_width_2_encoding(v),
    ensures
        ({
            let e = vstd::utf8::encode_scalar(v);
            &&& e.len() == 2
            &&& 0xc2 <= e[0] <= 0xdf
            &&& cont_ok(e[1])
            &&& utf8_value(e) == v
        }),
{
    let b0 = vstd::utf8::leading_byte_width_2(v);
    let b1 = vstd::utf8::last_continuation_byte(v);
    assert(0xc2 <= (0xC0 | ((v >> 6) & 0x1F) as u8) <= 0xdf) by (bit_vector)
        requires
            0x80 <= v <= 0x7ff,
    ;
    assert(0x80 <= (0x80 | (v & 0x3F) as u8) <= 0xbf) by (bit_vector);
    assert((((0xC0 | ((v >> 6) & 0x1F) as u8) & 0x1f) as u32) << 6u32 | ((0x80 | (v & 0x3F) as u8) & 0x3f) as u32
        == v) by (bit_vector)
        requires
            0x80 <= v <= 0x7ff,
    ;
}

/// Facts about the UTF-8 encoding of a value with a three-byte encoding.
proof fn lemma_encode_width_3(v: u32)
    requires
        vstd::utf8::has_width_3_encoding(v),
    ensures
        ({
            let e = vstd::utf8::encode_scalar(v);
            &&& e.len() == 3
            &&& 0xe0 <= e[0] <= 0xef
            &&& second_ok(e[0], e[1])
            &&& cont_ok(e[1])
            &&& cont_ok(e[2])
            &&& utf8_value(e) == v
        }),
{
    let b0 = 0xE0 | ((v >> 12) & 0x0F) as u8;
    let b1 = 0x80 | ((v >> 6) & 0x3F) as u8;
    let b2 = 0x80 | (v & 0x3F) as u8;
    assert(0xe0 <= b0 <= 0xef && 0x80 <= b1 <= 0xbf && 0x80 <= b2 <= 0xbf) by (bit_vector)
        requires
            b0 == 0xE0 | ((v >> 12) & 0x0F) as u8,
            b1 == 0x80 | ((v >> 6) & 0x3F) as u8,
            b2 == 0x80 | (v & 0x3F) as u8,
            0x800 <= v <= 0xffff,
    ;
    assert((b0 == 0xe0 ==> b1 >= 0xa0) && (b0 == 0xed ==> b1 <= 0x9f)) by (bit_vector)
        requires
            b0 == 0xE0 | ((v >> 12) & 0x0F) as u8,
            b1 == 0x80 | ((v >> 6) & 0x3F) as u8,
            0x800 <= v <= 0xffff,
            !(0xd800 <= v <= 0xdfff),
    ;
    assert(((b0 & 0x0f) as u32) << 12u32 | ((b1 & 0x3f) as u32) << 6u32 | (b2 & 0x3f) as u32 == v) by (bit_vector)
        requires
            b0 == 0xE0 | ((v >> 12) & 0x0F) as u8,
            b1 == 0x80 | ((v >> 6) & 0x3F) as u8,
            b2 == 0x80 | (v & 0x3F) as u8,
            v <= 0xffff,
    ;
}

/// Facts about the UTF-8 encoding of a value with a four-byte encoding.
proof fn lemma_encode_width_4(v: u32)
    requires
        vstd::utf8::has_width_4_encoding(v),
    ensures
        ({
            let e = vstd::utf8::encode_scalar(v);
            &&& e.len() == 4
            &&& 0xf0 <= e[0] <= 0xf4
            &&& second_ok(e[0], e[1])
            &&& cont_ok(e[1])
            &&& cont_ok(e[2])
            &&& cont_ok(e[3])
            &&& utf8_value(e) == v
        }),
{
    let b0 = 0xF0 | ((v >> 18) & 0x7) as u8;
    let b1 = 0x80 | ((v >> 12) & 0x3F) as u8;
    let b2 = 0x80 | ((v >> 6) & 0x3F) as u8;
    let b3 = 0x80 | (v & 0x3F) as u8;
    assert(0xf0 <= b0 <= 0xf4 && 0x80 <= b1 <= 0xbf && 0x80 <= b2 <= 0xbf && 0x80 <= b3 <= 0xbf) by (bit_vector)
        requires
            b0 == 0xF0 | ((v >> 18) & 0x7) as u8,
            b1 == 0x80 | ((v >> 12) & 0x3F) as u8,
            b2 == 0x80 | ((v >> 6) & 0x3F) as u8,
            b3 == 0x80 | (v & 0x3F) as u8,
            0x10000 <= v <= 0x10ffff,
    ;
    assert((b0 == 0xf0 ==> b1 >= 0x90) && (b0 == 0xf4 ==> b1 <= 0x8f)) by (bit_vector)
        requires
            b0 == 0xF0 | ((v >> 18) & 0x7) as u8,
            b1 == 0x80 | ((v >> 12) & 0x3F) as u8,
            0x10000 <= v <= 0x10ffff,
    ;
    assert(((b0 & 0x07) as u32) << 18u32 | ((b1 & 0x3f) as u32) << 12u32 | ((b2 & 0x3f) as u32) << 6u32 | (b3 & 0x3f)
        as u32 == v) by (bit_vector)
        requires
            b0 == 0xF0 | ((v >> 18) & 0x7) as u8,
            b1 == 0x80 | ((v >> 12) & 0x3F) as u8,
            b2 == 0x80 | ((v >> 6) & 0x3F) as u8,
            b3 == 0x80 | (v & 0x3F) as u8,
            v <= 0x10ffff,
    ;
}

/// A byte of text in the ground state that extends the pending bytes
/// without completing a character is collected.
proof fn lemma_text_pending(p: ParserView, t: TerminalView, b: u8)
    requires
        p.state == ParseState::Ground,
        p.utf8.len() <= 3,
        b >= 0x80,
        utf8_prefix_ok(p.utf8.push(b)),
        !utf8_complete(p.utf8.push(b)),
    ensures
        parse_step(p, t, b) == (ParserView { utf8: p.utf8.push(b), ..p }, t),
{
}

/// A byte of text in the ground state that completes a character writes
/// it.
proof fn lemma_text_complete(p: ParserView, t: TerminalView, b: u8)
    requires
        p.state == ParseState::Ground,
        p.utf8.len() <= 3,
        b >= 0x80,
        utf8_complete(p.utf8.push(b)),
    ensures
        parse_step(p, t, b) == (ParserView { utf8: Seq::empty(), ..p }, term_put(t, utf8_value(p.utf8.push(b)) as char)),
{
}

/// Feeding `s`, one byte after the other.
proof fn lemma_parse_unfold(p: ParserView, t: TerminalView, s: Seq<u8>)
    requires
        s.len() > 0,
    ensures
        parse_all(p, t, s) == parse_step(parse_all(p, t, s.drop_last()).0, parse_all(p, t, s.drop_last()).1, s.last()),
{
}

/// The round trip for characters with a two-byte encoding.
proof fn lemma_round_trip_2(p: ParserView, t: TerminalView, v: u32)
    requires
        p.state == ParseState::Ground,
        p.utf8.len() == 0,
        vstd::utf8::has_width_2_encoding(v),
    ensures
        parse_all(p, t, vstd::utf8::encode_scalar(v)) == (p, term_put(t, v as char)),
{
    let e = vstd::utf8::encode_scalar(v);
    assert(p.utf8 =~= Seq::<u8>::empty());
    lemma_encode_width_2(v);
    let s1 = seq![e[0]];
    assert(e.drop_last() =~= s1);
    assert(s1.drop_last() =~= Seq::<u8>::empty());
    assert(p.utf8.push(e[0]) =~= s1);
    lemma_text_pending(p, t, e[0]);
    lemma_parse_unfold(p, t, s1);
    let q1 = ParserView { utf8: s1, ..p };
    assert(parse_all(p, t, s1) == (q1, t));
    assert(s1.push(e[1]) =~= e);
    lemma_text_complete(q1, t, e[1]);
    lemma_parse_unfold(p, t, e);
    assert(ParserView { utf8: Seq::empty(), ..q1 } == p);
}

/// The round trip for characters with a three-byte encoding.
proof fn lemma_round_trip_3(p: ParserView, t: TerminalView, v: u32)
    requires
        p.state == ParseState::Ground,
        p.utf8.len() == 0,
        vstd::utf8::has_width_3_encoding(v),
    ensures
        parse_all(p, t, vstd::utf8::encode_scalar(v)) == (p, term_put(t, v as char)),
{
    let e = vstd::utf8::encode_scalar(v);
    assert(p.utf8 =~= Seq::<u8>::empty());
    lemma_encode_width_3(v);
    let s1 = seq![e[0]];
    let s2 = seq![e[0], e[1]];
    assert(s1.drop_last() =~= Seq::<u8>::empty());
    assert(s2.drop_last() =~= s1);
    assert(e.drop_last() =~= s2);
    assert(p.utf8.push(e[0]) =~= s1);
    lemma_text_pending(p, t, e[0]);
    lemma_parse_unfold(p, t, s1);
    let q1 = ParserView { utf8: s1, ..p };
    assert(s1.push(e[1]) =~= s2);
    lemma_text_pending(q1, t, e[1]);
    lemma_parse_unfold(p, t, s2);
    let q2 = ParserView { utf8: s2, ..p };
    assert(parse_all(p, t, s2) == (q2, t));
    assert(s2.push(e[2]) =~= e);
    lemma_text_complete(q2, t, e[2]);
    lemma_parse_unfold(p, t, e);
    assert(ParserView { utf8: Seq::empty(), ..q2 } == p);
}

/// The round trip for characters with a four-byte encoding.
proof fn lemma_round_trip_4(p: ParserView, t: TerminalView, v: u32)
    requires
        p.state == ParseState::Ground,
        p.utf8.len() == 0,
        vstd::utf8::has_width_4_encoding(v),
    ensures
        parse_all(p, t, vstd::utf8::encode_scalar(v)) == (p, term_put(t, v as char)),
{
    let e = vstd::utf8::encode_scalar(v);
    assert(p.utf8 =~= Seq::<u8>::empty());
    lemma_encode_width_4(v);
    let s1 = seq![e[0]];
    let s2 = seq![e[0], e[1]];
    let s3 = seq![e[0], e[1], e[2]];
    assert(s1.drop_last() =~= Seq::<u8>::empty());
    assert(s2.drop_last() =~= s1);
    assert(s3.drop_last() =~= s2);
    assert(e.drop_last() =~= s3);
    assert(p.utf8.push(e[0]) =~= s1);
    lemma_text_pending(p, t, e[0]);
    lemma_parse_unfold(p, t, s1);
    let q1 = ParserView { utf8: s1, ..p };
    assert(s1.push(e[1]) =~= s2);
    lemma_text_pending(q1, t, e[1]);
    lemma_parse_unfold(p, t, s2);
    let q2 = ParserView { utf8: s2, ..p };
    assert(s2.push(e[2]) =~= s3);
    lemma_text_pending(q2, t, e[2]);
    lemma_parse_unfold(p, t, s3);
    let q3 = ParserView { utf8: s3, ..p };
    assert(parse_all(p, t, s3) == (q3, t));
    assert(s3.push(e[3]) =~= e);
    lemma_text_complete(q3, t, e[3]);
    lemma_parse_unfold(p, t, e);
    assert(ParserView { utf8: Seq::empty(), ..q3 } == p);
}

/// Feeding the parser, in the ground state with no pending bytes, the UTF-8
/// encoding of a character other than a C0 control or DEL writes exactly
/// that character and leaves the parser as it was.
pub proof fn law_utf8_round_trip(p: ParserView, t: TerminalView, c: char)
    requires
        p.state == ParseState::Ground,
        p.utf8.len() == 0,
        c as u32 >= 0x20,
        c as u32 != 0x7f,
    ensures
        parse_all(p, t, crate::utf8::char_utf8(c)) == (p, term_put(t, c)),
{
    let v = c as u32;
    let e = vstd::utf8::encode_scalar(v);
    vstd::utf8::char_is_scalar(c);
    vstd::utf8::char_u32_cast(c, v);
    if vstd::utf8::has_width_1_encoding(v) {
        assert((v & 0x7F) as u8 == v) by (bit_vector)
            requires
                v <= 0x7f,
        ;
        assert(e =~= seq![v as u8]);
        assert(e.drop_last() =~= Seq::<u8>::empty());
        lemma_parse_unfold(p, t, e);
        assert((v as u8) as char == c);
    } else if vstd::utf8::has_width_2_encoding(v) {
        lemma_round_trip_2(p, t, v);
    } else if vstd::utf8::has_width_3_encoding(v) {
        lemma_round_trip_3(p, t, v);
    } else {
        lemma_round_trip_4(p, t, v);
    }
}


/// Setting or resetting a mouse mode (`CSI ? m h` or `l`) and then asking
/// for it (`CSI ? m $ p`) answers that it is set (1) or reset (2).
pub proof fn law_set_then_query(t: TerminalView, m: u16, on: bool)
    requires
        crate::pointer::is_mouse_mode(m),
    ensures
        ({
            let u = csi_private(t, seq![m], if on { 0x68u8 } else { 0x6cu8 });
            csi_private(u, seq![m], 0x70) == with_output(
                u,
                OutputView::PtyWrite(mode_report(m, if on { 1u8 } else { 2u8 })),
            )
        }),
{
    let ms = seq![m];
    assert(ms.drop_last() =~= Seq::<u16>::empty());
    assert(ms.last() == m);
    let u = csi_private(t, ms, if on { 0x68u8 } else { 0x6cu8 });
    assert(private_modes(t, ms.drop_last(), on) == t);
    assert(u == private_mode(t, m, on));
    assert(u.pointer == t.pointer.with_flag(m, on).recalculated());
    crate::pointer::law_mode_status_after_set(t.pointer, m, on);
    assert(mode_reports(u, ms.drop_last()) == u);
}

} // verus!
