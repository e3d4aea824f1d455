//! Terminal operations for a front end that parses the program's output
//! itself and reports each control function by a callback (as the vte
//! crate's `Handler` does): what each report does to the terminal, stated
//! over plain values.

use vstd::prelude::*;
use vstd::utf8::{decode_utf8, encode_utf8, valid_utf8};

use base64ct::Encoding;

use crate::ansi_color::AnsiColor;
use crate::cell::{empty_char, Char, CharFlags, FontFlags};
use crate::helper::{push_all, push_decimal, dec_digits};
use crate::parser::{base64_decoded, decode_base64, device_attributes, private_mode, region_top, string_from_utf8};
use crate::terminal::{
    has_mode, term_cr, term_delete, term_goto_col, term_goto_line, term_lf, term_region, term_scroll, term_tab, with_cursor,
    with_output, OutputView, Terminal, TerminalMode, TerminalView,
};
use crate::types::CursorPosition;
use crate::utf8::{char_utf8, push_utf8};
use vstd::string::StrSliceExecFns;

verus! {

/// A text attribute as such a front end reports it (the SGR parameters
/// taken apart); `Other` stands for the attributes the terminal ignores.
#[derive(Debug, Clone, Copy, PartialEq, Eq)]
pub enum TextAttribute {
    Foreground(AnsiColor),
    Background(AnsiColor),
    Reset,
    Reverse,
    CancelReverse,
    Bold,
    CancelBold,
    CancelBoldDim,
    Italic,
    CancelItalic,
    Underline,
    CancelUnderline,
    Hidden,
    CancelHidden,
    Other,
}

/// What an attribute does to the style and the modes.
pub open spec fn attribute_effect(t: TerminalView, a: TextAttribute) -> TerminalView {
    let s = t.style;
    match a {
        TextAttribute::Foreground(c) => TerminalView { style: Char { fg: c, ..s }, ..t },
        TextAttribute::Background(c) => TerminalView { style: Char { bg: c, ..s }, ..t },
        TextAttribute::Reset => TerminalView { style: empty_char(), ..t },
        TextAttribute::Reverse => TerminalView { mode: t.mode | TerminalMode::REVERSE_COLOR, ..t },
        TextAttribute::CancelReverse => TerminalView { mode: t.mode & !TerminalMode::REVERSE_COLOR, ..t },
        TextAttribute::Bold => TerminalView { style: Char { font: FontFlags(s.font.0 | 1), ..s }, ..t },
        TextAttribute::CancelBold | TextAttribute::CancelBoldDim => TerminalView {
            style: Char { font: FontFlags(s.font.0 & !1u8), ..s },
            ..t
        },
        TextAttribute::Italic => TerminalView { style: Char { font: FontFlags(s.font.0 | 2), ..s }, ..t },
        TextAttribute::CancelItalic => TerminalView { style: Char { font: FontFlags(s.font.0 & !2u8), ..s }, ..t },
        TextAttribute::Underline => TerminalView {
            style: Char { flags: CharFlags(s.flags.0 | CharFlags::UNDERLINE), ..s },
            ..t
        },
        TextAttribute::CancelUnderline => TerminalView {
            style: Char { flags: CharFlags(s.flags.0 & !CharFlags::UNDERLINE), ..s },
            ..t
        },
        _ => t,
    }
}

/// Applies a text attribute (see [`attribute_effect`]).
pub fn terminal_attribute(term: &mut Terminal, attr: TextAttribute)
    requires
        old(term).wf(),
    ensures
        final(term).wf(),
        final(term).model() == attribute_effect(old(term).model(), attr),
{
    let mut s = term.style();
    match attr {
        TextAttribute::Foreground(c) => {
            s.fg = c;
            term.set_style(s);
        },
        TextAttribute::Background(c) => {
            s.bg = c;
            term.set_style(s);
        },
        TextAttribute::Reset => term.set_style(Char::empty()),
        TextAttribute::Reverse => term.set_mode(TerminalMode::REVERSE_COLOR, true),
        TextAttribute::CancelReverse => term.set_mode(TerminalMode::REVERSE_COLOR, false),
        TextAttribute::Bold => {
            s.font.set_bold(true);
            term.set_style(s);
        },
        TextAttribute::CancelBold | TextAttribute::CancelBoldDim => {
            s.font.set_bold(false);
            term.set_style(s);
        },
        TextAttribute::Italic => {
            s.font.set_italic(true);
            term.set_style(s);
        },
        TextAttribute::CancelItalic => {
            s.font.set_italic(false);
            term.set_style(s);
        },
        TextAttribute::Underline => {
            s.flags.insert(CharFlags(CharFlags::UNDERLINE));
            term.set_style(s);
        },
        TextAttribute::CancelUnderline => {
            s.flags.remove(CharFlags(CharFlags::UNDERLINE));
            term.set_style(s);
        },
        _ => {},
    }
}

/// The private modes acted on: application cursor keys (1), line wrap
/// (7), cursor visibility (25), the mouse modes 1000, 1002, 1003, 1005 and
/// 1006, the alternate screen (1049) and bracketed paste (2004).
pub open spec fn handled_private_mode(mode: u16) -> bool {
    mode == 1 || mode == 7 || mode == 25 || mode == 1000 || mode == 1002 || mode == 1003 || mode == 1005
        || mode == 1006 || mode == 1049 || mode == 2004
}

/// Sets (`on`) or resets a private mode given by its number; the modes
/// outside [`handled_private_mode`] are ignored.
pub fn set_private_mode(term: &mut Terminal, mode: u16, on: bool)
    requires
        old(term).wf(),
    ensures
        final(term).wf(),
        final(term).model() == (if handled_private_mode(mode) {
            private_mode(old(term).model(), mode, on)
        } else {
            old(term).model()
        }),
{
    if mode == 1 || mode == 7 || mode == 25 || mode == 1000 || mode == 1002 || mode == 1003 || mode == 1005
        || mode == 1006 || mode == 1049 || mode == 2004 {
        crate::parser::dispatch_private_mode(term, mode, on);
    }
}

/// A line feed, then a carriage return when automatic newline is on.
pub open spec fn newline_effect(t: TerminalView) -> TerminalView {
    let u = term_lf(t);
    if has_mode(u.mode, TerminalMode::LINE_FEED_NEW_LINE) {
        term_cr(u)
    } else {
        u
    }
}

/// A newline (see [`newline_effect`]).
pub fn newline(term: &mut Terminal)
    requires
        old(term).wf(),
    ensures
        final(term).wf(),
        final(term).model() == newline_effect(old(term).model()),
{
    term.lf();
    if term.mode().contains(TerminalMode::LINE_FEED_NEW_LINE) {
        term.cr();
    }
}

/// Reverse index: at the top of the scroll region the region scrolls down
/// a line, elsewhere the cursor moves up a row.
pub open spec fn reverse_index_effect(t: TerminalView) -> TerminalView {
    let pos = t.buffer.cursor.pos;
    if pos.row == region_top(t) {
        term_scroll(t, 1)
    } else {
        term_goto_line(t, pos.row - 1)
    }
}

/// Reverse index (see [`reverse_index_effect`]). The cursor is not on the
/// top row unless that row starts the scroll region.
pub fn reverse_index(term: &mut Terminal)
    requires
        old(term).wf(),
        old(term).pos().row > 0 || old(term).pos().row == region_top(old(term).model()),
    ensures
        final(term).wf(),
        final(term).model() == reverse_index_effect(old(term).model()),
{
    proof {
        term.lemma_cursor_bounds();
    }
    let row = term.cursor().row;
    if row == term.scroll_top() {
        term.scroll(1);
    } else {
        term.goto_line((row - 1) as i32);
    }
}

/// The scroll region `top..bottom` (the screen's height when `bottom` is
/// not given), then the cursor to the origin; nothing happens unless
/// `top` lies above `bottom`.
pub open spec fn scrolling_region_effect(t: TerminalView, top: usize, bottom: Option<usize>) -> TerminalView {
    let b = match bottom {
        Some(b) => b,
        None => t.buffer.rows as usize,
    };
    if top >= b {
        t
    } else {
        term_goto_col(term_goto_line(term_region(t, top as u32, b as u32), 0), 0)
    }
}

/// Sets the scroll region (see [`scrolling_region_effect`]).
pub fn set_scrolling_region(term: &mut Terminal, top: usize, bottom: Option<usize>)
    requires
        old(term).wf(),
    ensures
        final(term).wf(),
        final(term).model() == scrolling_region_effect(old(term).model(), top, bottom),
{
    let bottom = match bottom {
        Some(b) => b,
        None => term.rows() as usize,
    };
    if top >= bottom {
        return;
    }
    term.set_scroll_region(top as u32..bottom as u32);
    term.goto_line(0);
    term.goto_col(0);
}

/// `n` tabs.
pub open spec fn tabs(t: TerminalView, n: nat) -> TerminalView
    decreases n,
{
    if n == 0 {
        t
    } else {
        term_tab(tabs(t, (n - 1) as nat))
    }
}

/// Moves to the next tab stop `count` times.
pub fn put_tab(term: &mut Terminal, count: u16)
    requires
        old(term).wf(),
    ensures
        final(term).wf(),
        final(term).model() == tabs(old(term).model(), count as nat),
{
    let ghost t0 = term.model();
    let mut i: u16 = 0;
    while i < count
        invariant
            i <= count,
            term.wf(),
            term.model() == tabs(t0, i as nat),
        decreases count - i,
    {
        term.tab();
        i += 1;
    }
}

/// The text that Base64 data in UTF-8 decodes to, when it is UTF-8 text.
pub open spec fn base64_text(b64: Seq<u8>) -> Option<Seq<char>> {
    if !valid_utf8(b64) {
        None
    } else {
        match base64_decoded(decode_utf8(b64)) {
            Some(data) => if valid_utf8(data) { Some(decode_utf8(data)) } else { None },
            None => None,
        }
    }
}

/// Writing the clipboard from Base64 data: the host is asked to put the
/// decoded text on the clipboard; data that does not decode to UTF-8 text
/// is ignored.
pub fn clipboard_store(term: &mut Terminal, base64: &[u8])
    requires
        old(term).wf(),
    ensures
        final(term).wf(),
        final(term).model() == (match base64_text(base64@) {
            Some(text) => with_output(old(term).model(), OutputView::ClipboardSet(text)),
            None => old(term).model(),
        }),
{
    let mut bytes: Vec<u8> = Vec::new();
    push_all(&mut bytes, base64);
    assert(bytes@ =~= base64@);
    let encoded = match string_from_utf8(bytes) {
        Some(e) => e,
        None => {
            return;
        },
    };
    let data = match decode_base64(encoded.as_str()) {
        Some(d) => d,
        None => {
            return;
        },
    };
    match string_from_utf8(data) {
        Some(text) => term.clipboard_set(text),
        None => {},
    }
}

/// The answer to a device attributes request: the primary attributes
/// without an intermediate, `ESC [ > 0 ; version ; 1 c` for `>`, nothing
/// for any other.
pub open spec fn identification(intermediate: Option<char>, version: u32) -> Option<Seq<u8>> {
    match intermediate {
        None => Some(device_attributes()),
        Some(c) => if c == '>' {
            Some(seq![0x1bu8, 0x5bu8, 0x3eu8, 0x30u8, 0x3bu8] + dec_digits(version as nat) + seq![0x3bu8, 0x31u8, 0x63u8])
        } else {
            None
        },
    }
}

/// Answers a device attributes request (see [`identification`]);
/// `version` is the terminal's version number.
pub fn identify_terminal(term: &mut Terminal, intermediate: Option<char>, version: u32)
    requires
        old(term).wf(),
    ensures
        final(term).wf(),
        final(term).model() == (match identification(intermediate, version) {
            Some(answer) => with_output(old(term).model(), OutputView::PtyWrite(answer)),
            None => old(term).model(),
        }),
{
    match intermediate {
        None => {
            let answer: Vec<u8> = vec![0x1bu8, 0x5bu8, 0x3fu8, 0x36u8, 0x63u8];
            assert(answer@ =~= device_attributes());
            term.user_input(answer.as_slice());
        },
        Some(c) => {
            if c == '>' {
                let mut answer: Vec<u8> = vec![0x1bu8, 0x5bu8, 0x3eu8, 0x30u8, 0x3bu8];
                push_decimal(&mut answer, version);
                answer.push(0x3bu8);
                answer.push(0x31u8);
                answer.push(0x63u8);
                assert(answer@ =~= seq![0x1bu8, 0x5bu8, 0x3eu8, 0x30u8, 0x3bu8] + dec_digits(version as nat) + seq![
                    0x3bu8,
                    0x31u8,
                    0x63u8,
                ]);
                term.user_input(answer.as_slice());
            }
        },
    }
}

/// The Base64 digit for a value below 64 (standard alphabet).
pub open spec fn base64_digit(v: int) -> char {
    if v < 26 {
        (65 + v) as char
    } else if v < 52 {
        (97 + v - 26) as char
    } else if v < 62 {
        (48 + v - 52) as char
    } else if v == 62 {
        '+'
    } else {
        '/'
    }
}

/// `bytes` in standard Base64 with `=` padding: each group of three bytes
/// gives four digits, a last group of one or two bytes two or three digits
/// and padding.
pub open spec fn base64_encoding(b: Seq<u8>) -> Seq<char>
    decreases b.len(),
{
    if b.len() == 0 {
        Seq::empty()
    } else {
        let x = b[0] as int;
        let y = if b.len() > 1 { b[1] as int } else { 0 };
        let z = if b.len() > 2 { b[2] as int } else { 0 };
        let first = seq![base64_digit(x / 4), base64_digit((x % 4) * 16 + y / 16)];
        if b.len() == 1 {
            first + seq!['=', '=']
        } else if b.len() == 2 {
            first + seq![base64_digit((y % 16) * 4), '=']
        } else {
            first + seq![base64_digit((y % 16) * 4 + z / 64), base64_digit(z % 64)] + base64_encoding(b.skip(3))
        }
    }
}

/// `base64ct`'s `Base64::encode_string`: `bytes` in standard Base64 with
/// padding. It panics when four times the length overflows.
#[verifier::external_body]
fn encode_base64(bytes: &[u8]) -> (r: String)
    requires
        4 * bytes@.len() <= usize::MAX,
    ensures
        r@ == base64_encoding(bytes@),
{
    base64ct::Base64::encode_string(bytes)
}

/// The answer to a clipboard read (OSC 52): `ESC ] 52 ;`, the selection
/// character, `;`, the text in Base64 and the terminator the request
/// ended with.
pub open spec fn clipboard_answer(clipboard: u8, text: Seq<char>, terminator: Seq<char>) -> Seq<u8> {
    seq![0x1bu8, 0x5du8, 0x35u8, 0x32u8, 0x3bu8] + char_utf8(clipboard as char) + seq![0x3bu8] + encode_utf8(
        base64_encoding(encode_utf8(text)),
    ) + encode_utf8(terminator)
}

/// Sends the program the clipboard text it asked for (see
/// [`clipboard_answer`]). The text's UTF-8 length times four fits in a
/// `usize`.
pub fn clipboard_reply(term: &mut Terminal, clipboard: u8, text: &str, terminator: &str)
    requires
        old(term).wf(),
        4 * encode_utf8(text@).len() <= usize::MAX,
    ensures
        final(term).wf(),
        final(term).model() == with_output(
            old(term).model(),
            OutputView::PtyWrite(clipboard_answer(clipboard, text@, terminator@)),
        ),
{
    let encoded = encode_base64(text.as_bytes());
    let mut answer: Vec<u8> = vec![0x1bu8, 0x5du8, 0x35u8, 0x32u8, 0x3bu8];
    push_utf8(&mut answer, clipboard as char);
    answer.push(0x3bu8);
    push_all(&mut answer, encoded.as_str().as_bytes());
    push_all(&mut answer, terminator.as_bytes());
    assert(answer@ =~= clipboard_answer(clipboard, text@, terminator@));
    term.user_input(answer.as_slice());
}

/// Deleting at most `count` cells at the cursor, always keeping the last
/// cell of the line.
pub open spec fn delete_keeping_last(t: TerminalView, count: usize) -> TerminalView {
    let room = t.buffer.cols - t.buffer.cursor.pos.col - 1;
    term_delete(t, if (count as int) < room { count } else { room as usize })
}

/// Deletes cells at the cursor (see [`delete_keeping_last`]).
pub fn delete_chars(term: &mut Terminal, count: usize)
    requires
        old(term).wf(),
    ensures
        final(term).wf(),
        final(term).model() == delete_keeping_last(old(term).model(), count),
{
    proof {
        term.lemma_cursor_bounds();
    }
    let room = (term.cols() - term.cursor().col - 1) as usize;
    term.delete_chars(if count < room { count } else { room });
}

/// Whether `b` is an ASCII decimal digit.
pub open spec fn is_digit(b: u8) -> bool {
    0x30 <= b <= 0x39
}

/// The number that the decimal digits `d` write.
pub open spec fn digits_value(d: Seq<u8>) -> nat
    decreases d.len(),
{
    if d.len() == 0 {
        0
    } else {
        digits_value(d.drop_last()) * 10 + (d.last() - 0x30) as nat
    }
}

/// The digits of a part of a version: the part without a leading `+`.
pub open spec fn part_digits(p: Seq<u8>) -> Seq<u8> {
    if p.len() > 0 && p[0] == 0x2b {
        p.skip(1)
    } else {
        p
    }
}

/// Whether the digits are a number of at most `usize::MAX`.
pub open spec fn digits_ok(d: Seq<u8>) -> bool {
    &&& forall|i: int| 0 <= i < d.len() ==> is_digit(#[trigger] d[i])
    &&& digits_value(d) <= usize::MAX
}

/// The number a part of a version gives: an optional `+` followed by at
/// least one decimal digit, at most `usize::MAX`, gives its value; anything
/// else gives 0.
pub open spec fn part_value(p: Seq<u8>) -> nat {
    let d = part_digits(p);
    if d.len() > 0 && digits_ok(d) {
        digits_value(d)
    } else {
        0
    }
}

/// The parts of `s` between dots, in order.
pub open spec fn dot_parts(s: Seq<u8>) -> Seq<Seq<u8>>
    decreases s.len(),
{
    if s.len() == 0 {
        seq![Seq::empty()]
    } else {
        let ps = dot_parts(s.drop_last());
        if s.last() == 0x2e {
            ps.push(Seq::empty())
        } else {
            ps.update(ps.len() - 1, ps.last().push(s.last()))
        }
    }
}

/// The number of a list of parts: the last part weighs 1 and each part a
/// hundred times more than the one after it.
pub open spec fn parts_number(ps: Seq<Seq<u8>>) -> nat
    decreases ps.len(),
{
    if ps.len() == 0 {
        0
    } else {
        parts_number(ps.drop_last()) * 100 + part_value(ps.last())
    }
}

/// A hundred times a 32-bit number plus another fits in 64 bits.
proof fn lemma_hundredfold(a: u64, v: u64)
    requires
        a <= u32::MAX,
        v <= u32::MAX,
    ensures
        a * 100 + v <= 101 * (u32::MAX as int),
{
}

/// There is always a part, and a byte other than a dot goes to the last one.
proof fn lemma_dot_parts(s: Seq<u8>)
    ensures
        dot_parts(s).len() >= 1,
    decreases s.len(),
{
    if s.len() > 0 {
        lemma_dot_parts(s.drop_last());
    }
}

/// The number of a version written `major.minor.patch` and so on: see
/// [`parts_number`] and [`dot_parts`]. `None` when it does not fit in 32
/// bits.
pub fn version_number(version: &[u8]) -> (r: Option<u32>)
    ensures
        r == if parts_number(dot_parts(version@)) <= u32::MAX {
            Some(parts_number(dot_parts(version@)) as u32)
        } else {
            None
        },
{
    let n = version.len();
    // The parts before the current one.
    let mut acc: u64 = 0;
    let mut big = false;
    // The current part.
    let mut len: usize = 0;
    let mut plus = false;
    let mut ndig: usize = 0;
    let mut ok = true;
    let mut val: u64 = 0;
    let mut i: usize = 0;
    proof {
        assert(version@.take(0) =~= Seq::<u8>::empty());
    }
    while i < n
        invariant
            n == version@.len(),
            i <= n,
            dot_parts(version@.take(i as int)).len() >= 1,
            len <= i && ndig <= len,
            big ==> parts_number(dot_parts(version@.take(i as int)).drop_last()) > u32::MAX,
            !big ==> acc == parts_number(dot_parts(version@.take(i as int)).drop_last()) && acc <= u32::MAX,
            ({
                let cur = dot_parts(version@.take(i as int)).last();
                let d = part_digits(cur);
                &&& len == cur.len()
                &&& plus == (cur.len() > 0 && cur[0] == 0x2b)
                &&& ndig == d.len()
                &&& ok == digits_ok(d)
                &&& ok ==> val == digits_value(d)
                &&& digits_value(d) >= 0
            }),
        decreases n - i,
    {
        let ghost s = version@.take(i as int);
        let ghost s1 = version@.take(i + 1);
        proof {
            assert(s1.drop_last() =~= s);
            assert(s1.last() == version@[i as int]);
            lemma_dot_parts(s);
        }
        let b = version[i];
        if b == 0x2e {
            let v: u64 = if ok && ndig > 0 { val } else { 0 };
            if !big {
                if v > 0xffff_ffff {
                    big = true;
                } else {
                    proof {
                        lemma_hundredfold(acc, v);
                    }
                    let a = acc * 100 + v;
                    if a > 0xffff_ffff {
                        big = true;
                    } else {
                        acc = a;
                    }
                }
            }
            len = 0;
            plus = false;
            ndig = 0;
            ok = true;
            val = 0;
            proof {
                assert(dot_parts(s1).drop_last() =~= dot_parts(s));
            }
        } else {
            let ghost cur = dot_parts(s).last();
            let ghost cur1 = cur.push(b);
            proof {
                assert(dot_parts(s1).drop_last() =~= dot_parts(s).drop_last());
                assert(dot_parts(s1).last() == cur1);
            }
            if len == 0 && b == 0x2b {
                plus = true;
                proof {
                    assert(part_digits(cur1) =~= Seq::<u8>::empty());
                }
            } else {
                proof {
                    assert(part_digits(cur1) =~= part_digits(cur).push(b));
                    assert(part_digits(cur1).drop_last() =~= part_digits(cur));
                }
                if ok && 0x30 <= b && b <= 0x39 {
                    let nv: u128 = (val as u128) * 10 + ((b - 0x30) as u128);
                    if nv > usize::MAX as u128 {
                        ok = false;
                    } else {
                        val = nv as u64;
                    }
                } else {
                    ok = false;
                }
                ndig = ndig + 1;
            }
            len = len + 1;
        }
        i += 1;
    }
    proof {
        assert(version@.take(n as int) =~= version@);
        lemma_dot_parts(version@);
    }
    let v: u64 = if ok && ndig > 0 { val } else { 0 };
    if big || v > 0xffff_ffff {
        return None;
    }
    proof {
        lemma_hundredfold(acc, v);
    }
    let a = acc * 100 + v;
    if a > 0xffff_ffff {
        None
    } else {
        Some(a as u32)
    }
}

} // verus!
