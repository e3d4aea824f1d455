//! The terminal: the state that the program's output changes (screen,
//! cursor, style, modes, title) and the answers it sends back. What the
//! terminal asks of its host (bytes for the program, a new title, a bell,
//! clipboard access) is queued as [`Output`]s for the host to carry out.

use vstd::prelude::*;

use crate::ansi_color::{AnsiColor, AnsiNamedColor};
use crate::buffer::{
    clamped, clear_line_model, clear_model, cr_model, enter_alt_model, exit_alt_model, fill_cells, lf_model, newline_model, put_model, scroll_model,
    set_model, view_cells, BufferView, TerminalBuffer,
};
use crate::cell::{empty_char, Char};
use crate::helper::{dec_digits, push_all, push_decimal};
use crate::parser::{parse_all, ParserView, Processor};
use crate::color::{ColorScheme, Palette};
use crate::event::{Event, ScrollDirection};
use crate::keyboard::{key_outcome, Key, KeyboardManager, Modifiers};
use crate::pointer::{Pointer, PointerButton, PointerReportFilter};
use crate::utf8::{char_to_utf8, char_utf8};
use crate::types::{AutoWrap, BufMode, CursorPosition, CursorShape};

verus! {

/// Terminal modes, as bits.
#[derive(Debug, Clone, Copy, PartialEq, Eq, PartialOrd, Ord, Hash, Structural)]
pub struct TerminalMode(pub u32);

impl TerminalMode {
    /// Cursor keys send application sequences (DECCKM).
    pub const APP_CURSOR: u32 = 2;
    /// The keypad sends application sequences (DECKPAM).
    pub const APP_KEYPAD: u32 = 4;
    /// Mouse clicks are reported.
    pub const MOUSE_REPORT_CLICK: u32 = 8;
    /// Pasted text is bracketed (mode 2004).
    pub const BRACKETED_PASTE: u32 = 16;
    /// Mouse reports use SGR coordinates.
    pub const SGR_MOUSE: u32 = 32;
    /// A line feed also returns the carriage (LNM).
    pub const LINE_FEED_NEW_LINE: u32 = 256;
    /// Characters are inserted rather than overwritten (IRM).
    pub const INSERT: u32 = 1024;
    /// Urgency hints.
    pub const URGENCY_HINTS: u32 = 0x4_0000;
    /// Foreground and background are swapped.
    pub const REVERSE_COLOR: u32 = 0x8_0000;

    /// No mode set.
    pub fn empty() -> (r: Self)
        ensures
            r.0 == 0,
    {
        TerminalMode(0)
    }

    /// Whether every bit of `bits` is set.
    pub fn contains(&self, bits: u32) -> (r: bool)
        ensures
            r == (self.0 & bits == bits),
    {
        self.0 & bits == bits
    }

    /// Sets the bits of `bits`.
    pub fn insert(&mut self, bits: u32)
        ensures
            final(self).0 == old(self).0 | bits,
    {
        self.0 = self.0 | bits;
    }

    /// Clears the bits of `bits`.
    pub fn remove(&mut self, bits: u32)
        ensures
            final(self).0 == old(self).0 & !bits,
    {
        self.0 = self.0 & !bits;
    }
}

/// Something the terminal asks of its host.
#[derive(Debug, Clone, PartialEq, Eq)]
pub enum Output {
    /// Bytes for the program running in the terminal.
    PtyWrite(Vec<u8>),
    /// The window title changed (`None`: back to the default).
    Title(Option<String>),
    /// Ring the bell.
    Bell,
    /// Put text on the clipboard.
    ClipboardSet(String),
    /// Read the clipboard and paste it (see [`Terminal::paste`]).
    ClipboardGet,
}

/// What an [`Output`] holds, as plain values.
pub enum OutputView {
    /// Bytes for the program.
    PtyWrite(Seq<u8>),
    /// A title.
    Title(Option<Seq<char>>),
    /// The bell.
    Bell,
    /// Clipboard text.
    ClipboardSet(Seq<char>),
    /// A clipboard read.
    ClipboardGet,
}

/// The plain values of an output.
pub open spec fn output_view(o: Output) -> OutputView {
    match o {
        Output::PtyWrite(b) => OutputView::PtyWrite(b@),
        Output::Title(t) => OutputView::Title(
            match t {
                Some(s) => Some(s@),
                None => None,
            },
        ),
        Output::Bell => OutputView::Bell,
        Output::ClipboardSet(s) => OutputView::ClipboardSet(s@),
        Output::ClipboardGet => OutputView::ClipboardGet,
    }
}


/// The most titles [`Terminal::push_title`] keeps.
pub const TITLE_STACK_MAX: usize = 64;

/// The terminal as plain values.
pub struct TerminalView {
    /// The character buffer.
    pub buffer: BufferView,
    /// The attributes and colors new characters get.
    pub style: Char,
    /// The mode bits.
    pub mode: u32,
    /// The cursor position saved by DECSC.
    pub saved_cursor: CursorPosition,
    /// The cursor shape saved by DECSC.
    pub saved_shape: CursorShape,
    /// The pointer.
    pub pointer: Pointer,
    /// Cursor keys send application sequences.
    pub app_cursor: bool,
    /// A line feed also returns the carriage.
    pub crnl: bool,
    /// The modifier keys held down.
    pub modifiers: Modifiers,
    /// Whether the screen needs drawing.
    pub dirty: bool,
    /// The history line at the top of the view.
    pub view_at: u32,
    /// The window title.
    pub title: Option<Seq<char>>,
    /// The titles saved by [`Terminal::push_title`], oldest first.
    pub titles: Seq<Option<Seq<char>>>,
    /// What the host still has to carry out, oldest first.
    pub outbox: Seq<OutputView>,
    /// The colors in use.
    pub scheme: Seq<crate::color::Color>,
}

/// The terminal.
pub struct Terminal {
    saved_cursor: CursorPosition,
    saved_cursor_shape: CursorShape,
    style: Char,
    mode: TerminalMode,
    buffer: TerminalBuffer,
    keyboard: KeyboardManager,
    pointer: Pointer,
    dirty: bool,
    view_at: u32,
    title: Option<String>,
    title_stack: Vec<Option<String>>,
    outbox: Vec<Output>,
    scheme: ColorScheme,
    parser: Processor,
}

/// `t` with buffer `b`.
pub open spec fn with_buffer(t: TerminalView, b: BufferView) -> TerminalView {
    TerminalView { buffer: b, ..t }
}

/// `t` with one more output for the host.
pub open spec fn with_output(t: TerminalView, o: OutputView) -> TerminalView {
    TerminalView { outbox: t.outbox.push(o), ..t }
}

/// `t` with the buffer's cursor at `pos`, no wrap pending (what
/// `TerminalBuffer::set_cursor` leaves, `pos` being on the screen).
pub open spec fn with_cursor(t: TerminalView, pos: CursorPosition) -> TerminalView {
    with_buffer(
        t,
        BufferView {
            cursor: crate::types::Cursor { pos: clamped(pos, t.buffer.cols, t.buffer.rows), ..t.buffer.cursor },
            wrap_next: false,
            ..t.buffer
        },
    )
}

/// `ESC [ 2 0 0 ~`, which opens bracketed pasted text.
pub open spec fn paste_open() -> Seq<u8> {
    seq![0x1bu8, 0x5bu8, 0x32u8, 0x30u8, 0x30u8, 0x7eu8]
}

/// `ESC [ 2 0 1 ~`, which closes bracketed pasted text.
pub open spec fn paste_close() -> Seq<u8> {
    seq![0x1bu8, 0x5bu8, 0x32u8, 0x30u8, 0x31u8, 0x7eu8]
}

/// Whether bit set `bits` is contained in `mode`.
pub open spec fn has_mode(mode: u32, bits: u32) -> bool {
    mode & bits == bits
}

/// The built-in palette that index `i` selects: palette `i`, or the
/// default one when there is no palette `i`.
pub open spec fn palette_choice(i: usize) -> int {
    if i < crate::color::BUILTIN_PALETTE_COUNT {
        i as int
    } else {
        crate::color::DEFAULT_PALETTE_INDEX as int
    }
}

/// The style cell for character `content`: the current style with the
/// character and its width.
pub open spec fn styled(style: Char, content: char) -> Char {
    Char { ch: content, width: crate::cell::cell_width(content), dirty: true, ..style }
}

/// Writing `content` at the cursor in the current style.
pub open spec fn term_put(t: TerminalView, content: char) -> TerminalView {
    with_buffer(t, put_model(t.buffer, styled(t.style, content), t.style))
}

/// A carriage return.
pub open spec fn term_cr(t: TerminalView) -> TerminalView {
    with_buffer(t, cr_model(t.buffer))
}

/// A line feed in the current style, after a carriage return when CR/LF
/// mapping is on.
pub open spec fn term_lf(t: TerminalView) -> TerminalView {
    with_buffer(t, lf_model(if t.crnl { cr_model(t.buffer) } else { t.buffer }, t.style))
}

/// A carriage return and a line feed in the current style.
pub open spec fn term_newline(t: TerminalView) -> TerminalView {
    with_buffer(t, newline_model(t.buffer, t.style))
}

/// Scrolling the scroll region (or the screen) by `count` lines.
pub open spec fn term_scroll(t: TerminalView, count: int) -> TerminalView {
    with_buffer(t, scroll_model(t.buffer, count, t.style))
}

/// The cursor to column `col` of its row, clamped.
pub open spec fn term_goto_col(t: TerminalView, col: u32) -> TerminalView {
    with_cursor(t, CursorPosition { col, row: t.buffer.cursor.pos.row })
}

/// The cursor to row `row`, scrolling when the row lies off the screen.
pub open spec fn term_goto_line(t: TerminalView, row: int) -> TerminalView {
    let h = t.buffer.rows as int;
    if row < 0 {
        let s = term_scroll(t, row);
        with_cursor(s, CursorPosition { col: s.buffer.cursor.pos.col, row: 0 })
    } else if row >= h {
        let s = term_scroll(t, row - (h - 1));
        with_cursor(s, CursorPosition { col: s.buffer.cursor.pos.col, row: (h - 1) as u32 })
    } else {
        with_cursor(t, CursorPosition { col: t.buffer.cursor.pos.col, row: row as u32 })
    }
}

/// Saving the cursor position and shape.
pub open spec fn term_save_cursor(t: TerminalView) -> TerminalView {
    TerminalView { saved_cursor: t.buffer.cursor.pos, saved_shape: t.buffer.cursor.shape, ..t }
}

/// Restoring the saved cursor position (clamped) and shape.
pub open spec fn term_restore_cursor(t: TerminalView) -> TerminalView {
    let u = with_cursor(t, t.saved_cursor);
    with_buffer(u, BufferView { cursor: crate::types::Cursor { shape: u.saved_shape, ..u.buffer.cursor }, ..u.buffer })
}

/// The wrap mode set to `mode`.
pub open spec fn term_auto_wrap(t: TerminalView, mode: AutoWrap) -> TerminalView {
    with_buffer(t, BufferView { auto_wrap: mode, ..t.buffer })
}

/// The scroll region set to `start..end` cut to the screen, unless empty.
pub open spec fn term_region(t: TerminalView, start: u32, end0: u32) -> TerminalView {
    let end = if end0 > t.buffer.rows { t.buffer.rows } else { end0 };
    if start >= end {
        t
    } else {
        with_buffer(t, BufferView { region: Some(start..end), ..t.buffer })
    }
}

/// The blank cell in the current colors.
pub open spec fn blank_of(style: Char) -> Char {
    Char { fg: style.fg, bg: style.bg, dirty: true, ..empty_char() }
}

/// The view moved to history line `at` (see [`TerminalBuffer::view`]); the
/// screen needs drawing.
pub open spec fn term_view(t: TerminalView, at: u32) -> TerminalView {
    let b = if t.buffer.in_alt {
        t.buffer
    } else {
        BufferView {
            main: crate::buffer::MainView {
                top: if at < t.buffer.main.history.len() { at } else { t.buffer.main.history.len() as u32 },
                ..t.buffer.main
            },
            ..t.buffer
        }
    };
    TerminalView { view_at: at, dirty: true, buffer: b, ..t }
}

/// Entering the alternate screen, unless it is already active.
pub open spec fn term_enter_alt(t: TerminalView) -> TerminalView {
    if t.buffer.in_alt { t } else { with_buffer(t, enter_alt_model(t.buffer)) }
}

/// Leaving the alternate screen, unless it is not active; the style is
/// reset.
pub open spec fn term_exit_alt(t: TerminalView) -> TerminalView {
    if !t.buffer.in_alt {
        t
    } else {
        TerminalView { buffer: exit_alt_model(t.buffer), style: empty_char(), ..t }
    }
}

/// Writing `c` at columns `from..to` of the cursor's row.
pub open spec fn term_fill(t: TerminalView, from: int, to: int, c: Char) -> TerminalView {
    with_buffer(t, fill_cells(t.buffer, t.buffer.cursor.pos.row as int, from, to, c))
}

/// Filling rows `from..to` with `c`, top to bottom.
pub open spec fn clear_rows(v: BufferView, from: int, to: int, c: Char) -> BufferView
    decreases to - from,
{
    if from >= to {
        v
    } else {
        clear_rows(clear_line_model(v, from, c), from + 1, to, c)
    }
}

/// Moving cells right changes nothing but the screens.
pub proof fn lemma_shift_right_frame(v: BufferView, y: int, lo: int, hi: int, n: int, tpl: Char)
    ensures
        crate::buffer::same_frame(v, shift_right(v, y, lo, hi, n, tpl)),
    decreases hi - lo,
{
    if hi > lo {
        let c = hi - 1;
        crate::buffer::lemma_set_model_frame(v, c + n, y, view_cells(v)[y][c]);
        let v1 = set_model(v, c + n, y, view_cells(v)[y][c]);
        crate::buffer::lemma_set_model_frame(v1, c, y, tpl);
        lemma_shift_right_frame(set_model(v1, c, y, tpl), y, lo, c, n, tpl);
    }
}

/// Moving cells left changes nothing but the screens.
pub proof fn lemma_shift_left_frame(v: BufferView, y: int, i: int, hi: int, n: int)
    ensures
        crate::buffer::same_frame(v, shift_left(v, y, i, hi, n)),
    decreases hi - i,
{
    if i < hi {
        crate::buffer::lemma_set_model_frame(v, i, y, view_cells(v)[y][i + n]);
        lemma_shift_left_frame(set_model(v, i, y, view_cells(v)[y][i + n]), y, i + 1, hi, n);
    }
}

/// Clearing rows changes nothing but the screens.
pub proof fn lemma_clear_rows_frame(v: BufferView, from: int, to: int, c: Char)
    ensures
        crate::buffer::same_frame(v, clear_rows(v, from, to, c)),
    decreases to - from,
{
    if from < to {
        lemma_clear_rows_frame(clear_line_model(v, from, c), from + 1, to, c);
    }
}

/// A tab: the cells from the cursor up to the next multiple of eight (at
/// most the width) are blanked and the cursor moves there, clamped to the
/// last column. A cursor on a multiple of eight stays.
pub open spec fn term_tab(t: TerminalView) -> TerminalView {
    let col = t.buffer.cursor.pos.col as int;
    let stop = ((col + 7) / 8) * 8;
    let end = if stop < t.buffer.cols { stop } else { t.buffer.cols as int };
    if col < end {
        with_cursor(term_fill(t, col, end, blank_of(t.style)), CursorPosition { col: end as u32, row: t.buffer.cursor.pos.row })
    } else {
        t
    }
}

/// Erasing `count` cells from the cursor on (within the line).
pub open spec fn term_erase(t: TerminalView, count: usize) -> TerminalView {
    let start = t.buffer.cursor.pos.col as int;
    let e = start + (count as u32) as int;
    term_fill(t, start, if e < t.buffer.cols { e } else { t.buffer.cols as int }, blank_of(t.style))
}

/// Erasing in the line: mode 1 up to and including the cursor, mode 2 the
/// whole line, other modes from the cursor to the end.
pub open spec fn term_clear_line(t: TerminalView, mode: u8) -> TerminalView {
    let col = t.buffer.cursor.pos.col as int;
    let tpl = blank_of(t.style);
    if mode == 1 {
        term_fill(t, 0, col + 1, tpl)
    } else if mode == 2 {
        with_buffer(t, clear_line_model(t.buffer, t.buffer.cursor.pos.row as int, tpl))
    } else {
        term_fill(t, col, t.buffer.cols as int, tpl)
    }
}

/// Erasing in the line, on a row of narrow characters: mode 1 blanks the
/// cursor's row from its first column through the cursor, mode 0 from the
/// cursor through its last column, with blank cells in the current colors;
/// the rest of that row and every other row stay as they were.
pub proof fn law_erase_in_line(t: TerminalView, mode: u8)
    requires
        mode == 0 || mode == 1,
        t.buffer.cursor.pos.row < view_cells(t.buffer).len(),
        t.buffer.cursor.pos.col < view_cells(t.buffer)[t.buffer.cursor.pos.row as int].len(),
        view_cells(t.buffer)[t.buffer.cursor.pos.row as int].len() == t.buffer.cols,
        forall|x: int|
            0 <= x < t.buffer.cols ==> #[trigger] view_cells(t.buffer)[t.buffer.cursor.pos.row as int][x].width <= 1
                && !crate::cell::spec_is_placeholder(view_cells(t.buffer)[t.buffer.cursor.pos.row as int][x]),
    ensures
        ({
            let before = view_cells(t.buffer);
            let after = view_cells(term_clear_line(t, mode).buffer);
            let y = t.buffer.cursor.pos.row as int;
            let c = t.buffer.cursor.pos.col as int;
            let blank = (Char { fg: t.style.fg, bg: t.style.bg, dirty: true, ..empty_char() });
            &&& after.len() == before.len()
            &&& after[y].len() == before[y].len()
            &&& forall|x: int|
                0 <= x < before[y].len() ==> #[trigger] after[y][x] == if (mode == 1 && x <= c) || (mode == 0 && x
                    >= c) {
                    blank
                } else {
                    before[y][x]
                }
            &&& forall|r: int| 0 <= r < before.len() && r != y ==> #[trigger] after[r] == before[r]
        }),
{
    let y = t.buffer.cursor.pos.row as int;
    let c = t.buffer.cursor.pos.col as int;
    let tpl = blank_of(t.style);
    if mode == 1 {
        crate::buffer::lemma_fill_narrow(t.buffer, y, 0, c + 1, tpl);
    } else {
        crate::buffer::lemma_fill_narrow(t.buffer, y, c, t.buffer.cols as int, tpl);
    }
}

/// Erasing the whole line (mode 2) makes every cell of the cursor's row a
/// blank in the current colors, whatever it held, and leaves the other rows
/// as they were.
pub proof fn law_erase_whole_line(t: TerminalView)
    requires
        t.buffer.cursor.pos.row < view_cells(t.buffer).len(),
        (if t.buffer.in_alt { t.buffer.alt.cols } else { t.buffer.main.cols }) == t.buffer.cols,
    ensures
        ({
            let before = view_cells(t.buffer);
            let after = view_cells(term_clear_line(t, 2).buffer);
            let y = t.buffer.cursor.pos.row as int;
            let blank = (Char { fg: t.style.fg, bg: t.style.bg, dirty: true, ..empty_char() });
            &&& after.len() == before.len()
            &&& after[y].len() == t.buffer.cols
            &&& forall|x: int| 0 <= x < t.buffer.cols ==> #[trigger] after[y][x] == blank
            &&& forall|r: int| 0 <= r < before.len() && r != y ==> #[trigger] after[r] == before[r]
        }),
{
    let v = t.buffer;
    let w = term_clear_line(t, 2).buffer;
    let y = v.cursor.pos.row as int;
    if !v.in_alt {
        assert(view_cells(w) =~= view_cells(v).update(y, crate::primary::blank_line(blank_of(t.style), v.main.cols as nat).0));
    }
}

/// Erasing in the screen: mode 1 up to and including the cursor, mode 2
/// the screen and mode 3 also the history (both moving the cursor to the
/// origin), other modes from the cursor to the end.
pub open spec fn term_clear_screen(t: TerminalView, mode: u8) -> TerminalView {
    let row = t.buffer.cursor.pos.row as int;
    let col = t.buffer.cursor.pos.col as int;
    let tpl = blank_of(t.style);
    if mode == 1 {
        term_fill(with_buffer(t, clear_rows(t.buffer, 0, row, tpl)), 0, col + 1, tpl)
    } else if mode == 2 {
        with_cursor(with_buffer(t, clear_model(t.buffer, tpl, false)), CursorPosition { col: 0, row: 0 })
    } else if mode == 3 {
        with_cursor(with_buffer(t, clear_model(t.buffer, tpl, true)), CursorPosition { col: 0, row: 0 })
    } else {
        let u = term_fill(t, col, t.buffer.cols as int, tpl);
        with_buffer(u, clear_rows(u.buffer, row + 1, u.buffer.rows as int, tpl))
    }
}

/// Moving cells `lo..hi` of row `y` right by `n`, rightmost first, each
/// source cell blanked with `tpl`.
pub open spec fn shift_right(v: BufferView, y: int, lo: int, hi: int, n: int, tpl: Char) -> BufferView
    decreases hi - lo,
{
    if hi <= lo {
        v
    } else {
        let c = hi - 1;
        let v1 = set_model(v, c + n, y, view_cells(v)[y][c]);
        shift_right(set_model(v1, c, y, tpl), y, lo, c, n, tpl)
    }
}

/// Moving cells `i + n..` of row `y` left by `n` into columns `i..hi`, left
/// to right.
pub open spec fn shift_left(v: BufferView, y: int, i: int, hi: int, n: int) -> BufferView
    decreases hi - i,
{
    if i >= hi {
        v
    } else {
        shift_left(set_model(v, i, y, view_cells(v)[y][i + n]), y, i + 1, hi, n)
    }
}

/// The number of cells an insertion or deletion of `count` cells at the
/// cursor moves: `count`, at most the rest of the line.
pub open spec fn clipped_count(t: TerminalView, count: usize) -> int {
    let rest = t.buffer.cols - t.buffer.cursor.pos.col;
    if (count as u32) < rest { (count as u32) as int } else { rest }
}

/// Inserting `count` blank cells at the cursor; the cells after it move
/// right and those pushed past the end are lost.
pub open spec fn term_insert_blank(t: TerminalView, count: usize) -> TerminalView {
    let n = clipped_count(t, count);
    let row = t.buffer.cursor.pos.row as int;
    with_buffer(t, shift_right(t.buffer, row, t.buffer.cursor.pos.col as int, t.buffer.cols - n, n, blank_of(t.style)))
}

/// Deleting `count` cells at the cursor; the cells after them move left
/// and blanks fill the end of the line.
pub open spec fn term_delete(t: TerminalView, count: usize) -> TerminalView {
    let n = clipped_count(t, count);
    let row = t.buffer.cursor.pos.row as int;
    let w = t.buffer.cols as int;
    let u = with_buffer(t, shift_left(t.buffer, row, t.buffer.cursor.pos.col as int, w - n, n));
    term_fill(u, w - n, w, blank_of(t.style))
}

/// `ESC [ row ; col R`: the cursor position report (one-based).
pub open spec fn position_report(pos: CursorPosition) -> Seq<u8> {
    seq![0x1bu8, 0x5bu8] + dec_digits((pos.row + 1) as nat) + seq![0x3bu8] + dec_digits((pos.col + 1) as nat) + seq![
        0x52u8,
    ]
}

/// `ESC [ ? mode ; status $ y`: the DECRQM answer for a private mode.
pub open spec fn mode_report(mode: u16, status: u8) -> Seq<u8> {
    seq![0x1bu8, 0x5bu8, 0x3fu8] + dec_digits(mode as nat) + seq![0x3bu8] + dec_digits(status as nat) + seq![
        0x24u8,
        0x79u8,
    ]
}

/// The answer to a device status request: `ESC [ 0 n` for 5, the cursor
/// position for 6, nothing otherwise.
pub open spec fn term_device_status(t: TerminalView, arg: usize) -> TerminalView {
    if arg == 5 {
        with_output(t, OutputView::PtyWrite(seq![0x1bu8, 0x5bu8, 0x30u8, 0x6eu8]))
    } else if arg == 6 {
        with_output(t, OutputView::PtyWrite(position_report(t.buffer.cursor.pos)))
    } else {
        t
    }
}

/// Setting the scroll margins to rows `top..=bottom` (one-based, cut to
/// the screen) and moving the cursor to the origin; ignored when `top` is
/// zero or the margins are empty.
pub open spec fn term_margins(t: TerminalView, top: usize, bottom: usize) -> TerminalView {
    let h = t.buffer.rows;
    let tt = if (top as u32) < h { top as u32 } else { h };
    let start = if tt >= 1 { (tt - 1) as u32 } else { 0u32 };
    let end = if (bottom as u32) < h { bottom as u32 } else { h };
    if top == 0 || top > bottom || start >= end {
        t
    } else {
        let u = with_buffer(t, BufferView { region: Some(start..end), ..t.buffer });
        term_goto_col(term_goto_line(u, 0), 0)
    }
}

/// A reset: the alternate screen is left, the screen and history cleared,
/// the cursor put at the origin as a block (and saved so), the modes, the
/// style and the pointer's mouse modes reset.
pub open spec fn term_reset(t: TerminalView) -> TerminalView {
    let t1 = term_exit_alt(t);
    let t2 = with_cursor(with_buffer(t1, clear_model(t1.buffer, empty_char(), true)), CursorPosition { col: 0, row: 0 });
    TerminalView {
        buffer: BufferView {
            cursor: crate::types::Cursor { shape: CursorShape::Block, ..t2.buffer.cursor },
            ..t2.buffer
        },
        saved_cursor: t2.buffer.cursor.pos,
        saved_shape: CursorShape::Block,
        mode: 0,
        style: empty_char(),
        pointer: Pointer {
            x: t2.pointer.x,
            y: t2.pointer.y,
            scroll_speed: t2.pointer.scroll_speed,
            ..Pointer::initial()
        },
        ..t2
    }
}

/// The plain values of an optional string.
pub open spec fn opt_str(t: Option<String>) -> Option<Seq<char>> {
    match t {
        Some(s) => Some(s@),
        None => None,
    }
}

impl Terminal {
    /// The terminal as plain values.
    pub closed spec fn model(&self) -> TerminalView {
        TerminalView {
            buffer: self.buffer.model(),
            style: self.style,
            mode: self.mode.0,
            saved_cursor: self.saved_cursor,
            saved_shape: self.saved_cursor_shape,
            pointer: self.pointer,
            app_cursor: self.keyboard.app_cursor_mode,
            crnl: self.keyboard.crnl_mapping,
            modifiers: self.keyboard.modifiers,
            dirty: self.dirty,
            view_at: self.view_at,
            title: opt_str(self.title),
            titles: self.title_stack@.map_values(|t: Option<String>| opt_str(t)),
            outbox: self.outbox@.map_values(|o: Output| output_view(o)),
            scheme: self.scheme@,
        }
    }

    /// The buffer is well formed and the parser keeps its bounds.
    pub closed spec fn wf(&self) -> bool {
        self.buffer.wf() && self.parser.wf()
    }

    /// The escape sequence parser, as plain values.
    pub closed spec fn parser_model(&self) -> ParserView {
        self.parser.model()
    }

    /// The cursor lies on the screen, whose size fits an `i32`.
    pub proof fn lemma_cursor_bounds(&self)
        requires
            self.wf(),
        ensures
            self.pos().row < self.model().buffer.rows <= i32::MAX,
            self.pos().col < self.model().buffer.cols <= i32::MAX,
    {
    }

    /// The cursor position.
    pub open spec fn pos(&self) -> CursorPosition {
        self.model().buffer.cursor.pos
    }

    /// Draws the active screen to `drawable` through `screen` and `font`
    /// (see [`crate::screen::Screen::flush`]) and clears the need to draw;
    /// always reports that a frame was drawn.
    pub fn flush(
        &mut self,
        screen: &mut crate::screen::Screen,
        font: &mut crate::screen::FontBuffer,
        drawable: &mut crate::drawable::Drawable,
    ) -> (r: bool)
        requires
            old(self).wf(),
            old(screen).wf(),
            old(drawable).wf(),
            old(screen).cols() == old(self).model().buffer.cols && old(screen).rows() == old(self).model().buffer.rows,
            old(font).wf(),
            old(font).cell().0 > 0 && old(font).cell().1 > 0,
            old(screen).cols() * old(font).cell().0 <= old(drawable).width,
            old(screen).rows() * old(font).cell().1 <= old(drawable).height,
        ensures
            r,
            final(self).wf(),
            final(self).model() == (TerminalView {
                buffer: crate::buffer::cleaned_screen(old(self).model().buffer),
                dirty: false,
                ..old(self).model()
            }),
            final(self).parser_model() == old(self).parser_model(),
            final(screen).wf() && final(screen).valid(),
            final(drawable).buf@ == crate::screen::frame_drawn(
                old(drawable).buf@,
                old(drawable).pitch as int,
                old(drawable).width as int,
                old(drawable).height as int,
                old(font).cell().0 as int,
                old(font).cell().1 as int,
                final(screen).cells(),
                old(screen).cols() as int,
                old(screen).rows() as int,
                old(screen).colors()[257],
                old(self).model().buffer.cursor,
            ),
    {
        self.dirty = false;
        self.buffer.flush(screen, font, drawable)
    }

    /// The active screen as text, the history first when `with_history`
    /// (see [`crate::buffer::snapshot_text`]).
    pub fn snapshot(&self, with_history: bool) -> (r: String)
        requires
            self.wf(),
        ensures
            r@ == crate::buffer::snapshot_text(self.model().buffer, with_history),
    {
        self.buffer.snapshot(with_history)
    }

    /// Whether the screen needs drawing.
    pub fn is_dirty(&self) -> (r: bool)
        ensures
            r == self.model().dirty,
    {
        self.dirty
    }

    /// The number of rows.
    pub fn rows(&self) -> (r: u32)
        ensures
            r == self.model().buffer.rows,
    {
        self.buffer.height()
    }

    /// The number of columns.
    pub fn cols(&self) -> (r: u32)
        ensures
            r == self.model().buffer.cols,
    {
        self.buffer.width()
    }

    /// The cursor position.
    pub fn cursor(&self) -> (r: CursorPosition)
        ensures
            r == self.pos(),
    {
        self.buffer.cursor()
    }

    /// The wrap mode.
    pub fn auto_wrap(&self) -> (r: AutoWrap)
        ensures
            r == self.model().buffer.auto_wrap,
    {
        self.buffer.auto_wrap()
    }

    /// The window title.
    pub fn title(&self) -> (r: Option<String>)
        ensures
            opt_str(r) == self.model().title,
    {
        match &self.title {
            Some(t) => Some(t.clone()),
            None => None,
        }
    }

    /// The text of the screen from `begin` to `end` (column, row), as for
    /// copying it to the clipboard (see [`crate::buffer::buffer_text`]).
    pub fn tostr(&self, begin: (u32, u32), end: (u32, u32)) -> (r: String)
        requires
            self.wf(),
            crate::buffer::selection_ok(self.model().buffer, begin, end),
        ensures
            r@ == crate::buffer::buffer_text(self.model().buffer, begin, end),
    {
        self.buffer.tostr(begin, end)
    }

    /// Takes what the host has to carry out, oldest first.
    pub fn take_output(&mut self) -> (r: Vec<Output>)
        requires
            old(self).wf(),
        ensures
            final(self).wf(),
            r@.map_values(|o: Output| output_view(o)) == old(self).model().outbox,
            final(self).model() == (TerminalView { outbox: Seq::empty(), ..old(self).model() }),
    {
        let mut out: Vec<Output> = Vec::new();
        std::mem::swap(&mut out, &mut self.outbox);
        assert(self.outbox@.map_values(|o: Output| output_view(o)) =~= Seq::<OutputView>::empty());
        out
    }

    /// Sends `text` to the program running in the terminal.
    pub fn user_input(&mut self, text: &[u8])
        requires
            old(self).wf(),
        ensures
            final(self).wf(),
            final(self).model() == with_output(old(self).model(), OutputView::PtyWrite(text@)),
    {
        let ghost before = self.outbox@;
        let mut bytes: Vec<u8> = Vec::new();
        push_all(&mut bytes, text);
        assert(bytes@ =~= text@);
        self.outbox.push(Output::PtyWrite(bytes));
        assert(self.outbox@.map_values(|o: Output| output_view(o)) =~= before.map_values(|o: Output| output_view(o)).push(
            OutputView::PtyWrite(text@),
        ));
    }

    /// Pastes `text`: it goes to the program, bracketed by `ESC [ 200 ~`
    /// and `ESC [ 201 ~` when bracketed paste is on.
    pub fn paste(&mut self, text: &str)
        requires
            old(self).wf(),
        ensures
            final(self).wf(),
            final(self).model() == with_output(
                old(self).model(),
                OutputView::PtyWrite(
                    if has_mode(old(self).model().mode, TerminalMode::BRACKETED_PASTE) {
                        paste_open() + vstd::utf8::encode_utf8(text@) + paste_close()
                    } else {
                        vstd::utf8::encode_utf8(text@)
                    },
                ),
            ),
    {
        let bytes = text.as_bytes();
        if self.mode.contains(TerminalMode::BRACKETED_PASTE) {
            let mut out: Vec<u8> = vec![0x1bu8, 0x5bu8, 0x32u8, 0x30u8, 0x30u8, 0x7eu8];
            push_all(&mut out, bytes);
            let close: Vec<u8> = vec![0x1bu8, 0x5bu8, 0x32u8, 0x30u8, 0x31u8, 0x7eu8];
            push_all(&mut out, close.as_slice());
            assert(out@ =~= paste_open() + vstd::utf8::encode_utf8(text@) + paste_close());
            self.user_input(out.as_slice());
        } else {
            self.user_input(bytes);
        }
    }

    /// Writes `content` at the cursor in the current style (see
    /// [`put_model`]).
    pub fn put(&mut self, content: char)
        requires
            old(self).wf(),
        ensures
            final(self).wf(),
            final(self).model() == term_put(old(self).model(), content),
    {
        let ch = self.style.with_content(content);
        self.buffer.put(ch, self.style);
    }

    /// Moves the cursor to the start of its line.
    pub fn cr(&mut self)
        requires
            old(self).wf(),
        ensures
            final(self).wf(),
            final(self).model() == term_cr(old(self).model()),
    {
        self.buffer.cr();
    }

    /// A line feed in the current style, preceded by a carriage return
    /// when CR/LF mapping is on.
    pub fn lf(&mut self)
        requires
            old(self).wf(),
        ensures
            final(self).wf(),
            final(self).model() == term_lf(old(self).model()),
    {
        if self.keyboard.crnl_mapping {
            self.buffer.cr();
        }
        self.buffer.lf(self.style);
    }

    /// A carriage return and a line feed in the current style.
    pub fn newline(&mut self)
        requires
            old(self).wf(),
        ensures
            final(self).wf(),
            final(self).model() == term_newline(old(self).model()),
    {
        self.buffer.newline(self.style);
    }

    /// Scrolls the scroll region (or the screen) by `down_count` lines,
    /// letting in lines of the current style.
    pub fn scroll(&mut self, down_count: i32)
        requires
            old(self).wf(),
            down_count != i32::MIN,
        ensures
            final(self).wf(),
            final(self).model() == term_scroll(old(self).model(), down_count as int),
    {
        self.buffer.scroll(down_count, self.style);
    }

    /// Sets the scroll region to `range` cut to the screen; an empty region
    /// is ignored.
    pub fn set_scroll_region(&mut self, range: core::ops::Range<u32>)
        requires
            old(self).wf(),
        ensures
            final(self).wf(),
            final(self).model() == term_region(old(self).model(), range.start, range.end),
    {
        let h = self.buffer.height();
        let end = if range.end > h { h } else { range.end };
        if range.start >= end {
            return;
        }
        self.buffer.set_scroll_region(range.start..end);
    }

    /// Moves the cursor to column `col` of its row (clamped to the screen).
    pub fn goto_col(&mut self, col: u32)
        requires
            old(self).wf(),
        ensures
            final(self).wf(),
            final(self).model() == term_goto_col(old(self).model(), col),
    {
        let row = self.buffer.cursor().row;
        self.buffer.set_cursor(col, row);
    }

    /// Moves the cursor to row `row` of its column. A row above the screen
    /// scrolls the region down by as many lines and puts the cursor on the
    /// top row; a row below it scrolls up and puts the cursor on the bottom
    /// row.
    pub fn goto_line(&mut self, row: i32)
        requires
            old(self).wf(),
            row != i32::MIN,
        ensures
            final(self).wf(),
            final(self).model() == term_goto_line(old(self).model(), row as int),
    {
        let h = self.buffer.height();
        if row < 0 {
            self.scroll(row);
            let col = self.buffer.cursor().col;
            self.buffer.set_cursor(col, 0);
        } else if row >= h as i32 {
            self.scroll(row - (h as i32 - 1));
            let col = self.buffer.cursor().col;
            self.buffer.set_cursor(col, h - 1);
        } else {
            let col = self.buffer.cursor().col;
            self.buffer.set_cursor(col, row as u32);
        }
    }

    /// Moves the cursor `cols` columns right, stopping at the last column.
    pub fn cursor_forward(&mut self, cols: u32)
        requires
            old(self).wf(),
            old(self).pos().col + cols <= u32::MAX,
        ensures
            final(self).wf(),
            final(self).model() == with_cursor(
                old(self).model(),
                CursorPosition { col: (old(self).pos().col + cols) as u32, row: old(self).pos().row },
            ),
    {
        let c = self.buffer.cursor();
        let w = self.buffer.width();
        let new_col = if c.col + cols < w - 1 { c.col + cols } else { w - 1 };
        self.buffer.set_cursor(new_col, c.row);
    }

    /// Moves the cursor `cols` columns left, stopping at the first column.
    pub fn cursor_backward(&mut self, cols: u32)
        requires
            old(self).wf(),
        ensures
            final(self).wf(),
            final(self).model() == with_cursor(
                old(self).model(),
                CursorPosition {
                    col: if old(self).pos().col >= cols { (old(self).pos().col - cols) as u32 } else { 0 },
                    row: old(self).pos().row,
                },
            ),
    {
        let c = self.buffer.cursor();
        let new_col = if c.col >= cols { c.col - cols } else { 0 };
        self.buffer.set_cursor(new_col, c.row);
    }

    /// Moves the cursor `rows` rows up, stopping at the top row.
    pub fn cursor_up(&mut self, rows: u32)
        requires
            old(self).wf(),
        ensures
            final(self).wf(),
            final(self).model() == with_cursor(
                old(self).model(),
                CursorPosition {
                    col: old(self).pos().col,
                    row: if old(self).pos().row >= rows { (old(self).pos().row - rows) as u32 } else { 0 },
                },
            ),
    {
        let c = self.buffer.cursor();
        let new_row = if c.row >= rows { c.row - rows } else { 0 };
        self.buffer.set_cursor(c.col, new_row);
    }

    /// Moves the cursor `rows` rows down, stopping at the bottom row.
    pub fn cursor_down(&mut self, rows: u32)
        requires
            old(self).wf(),
            old(self).pos().row + rows <= u32::MAX,
        ensures
            final(self).wf(),
            final(self).model() == with_cursor(
                old(self).model(),
                CursorPosition { col: old(self).pos().col, row: (old(self).pos().row + rows) as u32 },
            ),
    {
        let c = self.buffer.cursor();
        let h = self.buffer.height();
        let new_row = if c.row + rows < h - 1 { c.row + rows } else { h - 1 };
        self.buffer.set_cursor(c.col, new_row);
    }

    /// Saves the cursor position and shape.
    pub fn save_cursor(&mut self)
        requires
            old(self).wf(),
        ensures
            final(self).wf(),
            final(self).model() == term_save_cursor(old(self).model()),
    {
        self.saved_cursor = self.buffer.cursor();
        self.saved_cursor_shape = self.buffer.cursor_shape();
    }

    /// Restores the saved cursor position (clamped to the screen) and shape.
    pub fn restore_cursor(&mut self)
        requires
            old(self).wf(),
        ensures
            final(self).wf(),
            final(self).model() == term_restore_cursor(old(self).model()),
    {
        let p = self.saved_cursor;
        self.buffer.set_cursor(p.col, p.row);
        self.buffer.set_cursor_shape(self.saved_cursor_shape);
    }

    /// Saves the cursor position.
    pub fn save_cursor_position(&mut self)
        requires
            old(self).wf(),
        ensures
            final(self).wf(),
            final(self).model() == (TerminalView { saved_cursor: old(self).pos(), ..old(self).model() }),
    {
        self.saved_cursor = self.buffer.cursor();
    }

    /// Restores the saved cursor position, clamped to the screen.
    pub fn restore_cursor_position(&mut self)
        requires
            old(self).wf(),
        ensures
            final(self).wf(),
            final(self).model() == with_cursor(old(self).model(), old(self).model().saved_cursor),
    {
        let p = self.saved_cursor;
        self.buffer.set_cursor(p.col, p.row);
    }

    /// Sets the wrap mode.
    pub fn set_auto_wrap(&mut self, mode: AutoWrap)
        requires
            old(self).wf(),
        ensures
            final(self).wf(),
            final(self).model() == term_auto_wrap(old(self).model(), mode),
    {
        self.buffer.set_auto_wrap(mode);
    }

    /// Keeps at most `size` lines of history on the primary screen.
    pub fn set_history_size(&mut self, size: u32)
        requires
            old(self).wf(),
            size + old(self).model().buffer.rows <= u32::MAX,
        ensures
            final(self).wf(),
            old(self).model().buffer.in_alt ==> final(self).model() == old(self).model(),
            !old(self).model().buffer.in_alt ==> final(self).model() == with_buffer(
                old(self).model(),
                BufferView {
                    main: crate::buffer::MainView {
                        capacity: size,
                        history: if old(self).model().buffer.main.history.len() > size {
                            old(self).model().buffer.main.history.skip(old(self).model().buffer.main.history.len() - size)
                        } else {
                            old(self).model().buffer.main.history
                        },
                        ..old(self).model().buffer.main
                    },
                    ..old(self).model().buffer
                },
            ),
    {
        self.buffer.set_history_size(size);
    }

    /// Sets how many lines one wheel step scrolls.
    pub fn set_scroll_speed(&mut self, speed: i32)
        requires
            old(self).wf(),
        ensures
            final(self).wf(),
            final(self).model() == (TerminalView {
                pointer: Pointer { scroll_speed: speed, ..old(self).model().pointer },
                ..old(self).model()
            }),
    {
        self.pointer.scroll_speed = speed;
    }

    /// Sets whether a line feed also returns the carriage.
    pub fn set_crnl_mapping(&mut self, mapping: bool)
        requires
            old(self).wf(),
        ensures
            final(self).wf(),
            final(self).model() == (TerminalView { crnl: mapping, ..old(self).model() }),
    {
        self.keyboard.crnl_mapping = mapping;
    }

    /// Uses the built-in palette `palette_index` (the default palette when
    /// there is no such palette).
    pub fn set_color_scheme(&mut self, palette_index: usize)
        requires
            old(self).wf(),
        ensures
            final(self).wf(),
            ({
                let p = palette_choice(palette_index);
                &&& final(self).model().scheme.len() == 512
                &&& exists|pal: Palette|
                    crate::color::palette_built(pal, crate::color::builtin_pair(p), crate::color::builtin_colors(p))
                        && forall|i: int| 0 <= i < 512 ==> #[trigger] final(self).model().scheme[i] == crate::color::scheme_entry(pal, i)
                &&& final(self).model() == (TerminalView { scheme: final(self).model().scheme, ..old(self).model() })
            }),
    {
        let palette = Palette::get(palette_index);
        self.set_custom_color_scheme(&palette);
        proof {
            let p = palette_choice(palette_index);
            assert(crate::color::palette_built(palette, crate::color::builtin_pair(p), crate::color::builtin_colors(p)));
            assert(forall|i: int| 0 <= i < 512 ==> #[trigger] self.model().scheme[i] == crate::color::scheme_entry(palette, i));
        }
    }

    /// Uses the colors of `palette`.
    pub fn set_custom_color_scheme(&mut self, palette: &Palette)
        requires
            old(self).wf(),
        ensures
            final(self).wf(),
            final(self).model().scheme.len() == 512,
            forall|i: int| 0 <= i < 512 ==> #[trigger] final(self).model().scheme[i] == crate::color::scheme_entry(*palette, i),
            final(self).model() == (TerminalView { scheme: final(self).model().scheme, ..old(self).model() }),
    {
        self.scheme = ColorScheme::new(palette);
    }

    /// Shows the view whose top is history line `at`.
    pub fn view_history(&mut self, at: u32)
        requires
            old(self).wf(),
            old(self).model().buffer.in_alt ==> at == 0,
        ensures
            final(self).wf(),
            final(self).model() == term_view(old(self).model(), at),
    {
        self.view_at = at;
        self.buffer.view(at);
        self.dirty = true;
    }

    /// Enters the alternate screen (ignored when it is active).
    pub fn enter_alternate(&mut self)
        requires
            old(self).wf(),
        ensures
            final(self).wf(),
            final(self).model() == term_enter_alt(old(self).model()),
    {
        if self.buffer.is_alternate() {
            return;
        }
        self.buffer.enter_alternate();
    }

    /// Leaves the alternate screen and resets the style (ignored when it is
    /// not active).
    pub fn exit_alternate(&mut self)
        requires
            old(self).wf(),
        ensures
            final(self).wf(),
            final(self).model() == term_exit_alt(old(self).model()),
    {
        if !self.buffer.is_alternate() {
            return;
        }
        self.buffer.exit_alternate();
        self.style = Char::empty();
    }

    /// Writes `c` at columns `from..to` of the cursor's row.
    fn fill_row(&mut self, from: u32, to: u32, c: Char)
        requires
            old(self).wf(),
            to <= old(self).model().buffer.cols,
        ensures
            final(self).wf(),
            final(self).model() == term_fill(old(self).model(), from as int, to as int, c),
    {
        let row = self.buffer.cursor().row;
        let ghost goal = term_fill(old(self).model(), from as int, to as int, c);
        let mut x = from;
        while x < to
            invariant
                self.wf(),
                to <= self.model().buffer.cols,
                row == self.model().buffer.cursor.pos.row,
                row < self.model().buffer.rows,
                with_buffer(self.model(), fill_cells(self.model().buffer, row as int, x as int, to as int, c)) == goal,
            decreases to - x,
        {
            let ghost before = self.model().buffer;
            self.buffer.set(x, row, c, c);
            proof {
                crate::buffer::lemma_set_model_frame(before, x as int, row as int, c);
            }
            x += 1;
        }
    }

    /// The blank cell in the current colors.
    fn blank(&self) -> (r: Char)
        ensures
            r == blank_of(self.model().style),
    {
        Char::empty().with_color(self.style.fg, self.style.bg)
    }

    /// Fills rows `from..to` with `c`.
    fn clear_rows(&mut self, from: u32, to: u32, c: Char)
        requires
            old(self).wf(),
            to <= old(self).model().buffer.rows,
        ensures
            final(self).wf(),
            final(self).model() == with_buffer(old(self).model(), clear_rows(old(self).model().buffer, from as int, to as int, c)),
    {
        let ghost goal = with_buffer(old(self).model(), clear_rows(old(self).model().buffer, from as int, to as int, c));
        let mut y = from;
        while y < to
            invariant
                self.wf(),
                to <= self.model().buffer.rows,
                with_buffer(self.model(), clear_rows(self.model().buffer, y as int, to as int, c)) == goal,
            decreases to - y,
        {
            self.buffer.clear_line(y, c);
            y += 1;
        }
    }

    /// Moves the cursor to the next tab stop (see [`term_tab`]).
    pub fn tab(&mut self)
        requires
            old(self).wf(),
        ensures
            final(self).wf(),
            final(self).model() == term_tab(old(self).model()),
    {
        let c = self.buffer.cursor();
        let w = self.buffer.width();
        let stop = ((c.col as u64 + 7) / 8) * 8;
        let end: u32 = if stop < w as u64 { stop as u32 } else { w };
        if c.col < end {
            let tpl = self.blank();
            self.fill_row(c.col, end, tpl);
            self.buffer.set_cursor(end, c.row);
        }
    }

    /// Erases `count` cells from the cursor on.
    pub fn erase_chars(&mut self, count: usize)
        requires
            old(self).wf(),
        ensures
            final(self).wf(),
            final(self).model() == term_erase(old(self).model(), count),
    {
        let start = self.buffer.cursor().col;
        let w = self.buffer.width();
        let e = start as u64 + (count as u32) as u64;
        let end: u32 = if e < w as u64 { e as u32 } else { w };
        let tpl = self.blank();
        self.fill_row(start, end, tpl);
    }

    /// Erases in the line (see [`term_clear_line`]).
    pub fn clear_line(&mut self, mode: u8)
        requires
            old(self).wf(),
        ensures
            final(self).wf(),
            final(self).model() == term_clear_line(old(self).model(), mode),
    {
        let c = self.buffer.cursor();
        let tpl = self.blank();
        if mode == 1 {
            self.fill_row(0, c.col + 1, tpl);
        } else if mode == 2 {
            self.buffer.clear_line(c.row, tpl);
        } else {
            let w = self.buffer.width();
            self.fill_row(c.col, w, tpl);
        }
    }

    /// Erases the screen up to and including the cursor (mode 1 of
    /// [`term_clear_screen`]).
    fn clear_above(&mut self)
        requires
            old(self).wf(),
        ensures
            final(self).wf(),
            final(self).model() == term_clear_screen(old(self).model(), 1),
    {
        let c = self.buffer.cursor();
        let tpl = self.blank();
        proof {
            lemma_clear_rows_frame(self.model().buffer, 0, c.row as int, tpl);
        }
        self.clear_rows(0, c.row, tpl);
        self.fill_row(0, c.col + 1, tpl);
    }

    /// Erases the screen from the cursor on (the modes of
    /// [`term_clear_screen`] other than 1, 2 and 3).
    fn clear_below(&mut self, mode: u8)
        requires
            old(self).wf(),
            mode != 1 && mode != 2 && mode != 3,
        ensures
            final(self).wf(),
            final(self).model() == term_clear_screen(old(self).model(), mode),
    {
        let c = self.buffer.cursor();
        let tpl = self.blank();
        let w = self.buffer.width();
        let h = self.buffer.height();
        proof {
            crate::buffer::lemma_fill_cells_frame(self.model().buffer, c.row as int, c.col as int, w as int, tpl);
        }
        self.fill_row(c.col, w, tpl);
        self.clear_rows(c.row + 1, h, tpl);
    }

    /// Erases the screen, and the history too when `all`, and puts the
    /// cursor at the origin (modes 2 and 3 of [`term_clear_screen`]).
    fn clear_whole(&mut self, all: bool)
        requires
            old(self).wf(),
        ensures
            final(self).wf(),
            final(self).model() == term_clear_screen(old(self).model(), if all { 3 } else { 2 }),
    {
        let tpl = self.blank();
        if all {
            self.buffer.clear_all(tpl);
        } else {
            self.buffer.clear(tpl);
        }
        self.buffer.set_cursor(0, 0);
    }

    /// Erases in the screen (see [`term_clear_screen`]).
    pub fn clear_screen(&mut self, mode: u8)
        requires
            old(self).wf(),
        ensures
            final(self).wf(),
            final(self).model() == term_clear_screen(old(self).model(), mode),
    {
        if mode == 1 {
            self.clear_above();
        } else if mode == 2 {
            self.clear_whole(false);
        } else if mode == 3 {
            self.clear_whole(true);
        } else {
            self.clear_below(mode);
        }
    }

    /// Inserts `count` blank cells at the cursor (see
    /// [`term_insert_blank`]).
    pub fn insert_blank(&mut self, count: usize)
        requires
            old(self).wf(),
        ensures
            final(self).wf(),
            final(self).model() == term_insert_blank(old(self).model(), count),
    {
        let c = self.buffer.cursor();
        let columns = self.buffer.width();
        let rest = columns - c.col;
        let n: u32 = if (count as u32) < rest { count as u32 } else { rest };
        let end = columns - n;
        let tpl = self.blank();
        let ghost goal = term_insert_blank(old(self).model(), count);
        let mut hi = end;
        while hi > c.col
            invariant
                self.wf(),
                c.col <= hi <= end,
                end + n == columns,
                columns == self.model().buffer.cols,
                c.row == self.model().buffer.cursor.pos.row,
                c.row < self.model().buffer.rows,
                tpl == blank_of(self.model().style),
                with_buffer(self.model(), shift_right(self.model().buffer, c.row as int, c.col as int, hi as int, n as int, tpl)) == goal,
            decreases hi,
        {
            let col = hi - 1;
            let moved = self.buffer.get(col, c.row);
            let ghost b0 = self.model().buffer;
            proof {
                crate::buffer::lemma_view_cells(b0);
            }
            self.buffer.set(col + n, c.row, moved, tpl);
            proof {
                crate::buffer::lemma_set_model_frame(b0, (col + n) as int, c.row as int, moved);
            }
            let ghost b1 = self.model().buffer;
            self.buffer.set(col, c.row, tpl, tpl);
            proof {
                crate::buffer::lemma_set_model_frame(b1, col as int, c.row as int, tpl);
            }
            hi = col;
        }
    }

    /// Deletes `count` cells at the cursor (see [`term_delete`]).
    pub fn delete_chars(&mut self, count: usize)
        requires
            old(self).wf(),
        ensures
            final(self).wf(),
            final(self).model() == term_delete(old(self).model(), count),
    {
        let c = self.buffer.cursor();
        let w = self.buffer.width();
        let rest = w - c.col;
        let n: u32 = if (count as u32) < rest { count as u32 } else { rest };
        let tpl = self.blank();
        let ghost mid = with_buffer(
            old(self).model(),
            shift_left(old(self).model().buffer, c.row as int, c.col as int, (w - n) as int, n as int),
        );
        let mut i = c.col;
        while i < w - n
            invariant
                self.wf(),
                c.col <= i <= w - n,
                n <= w,
                w == self.model().buffer.cols,
                c.row == self.model().buffer.cursor.pos.row,
                c.row < self.model().buffer.rows,
                tpl == blank_of(self.model().style),
                with_buffer(self.model(), shift_left(self.model().buffer, c.row as int, i as int, (w - n) as int, n as int)) == mid,
            decreases w - n - i,
        {
            let moved = self.buffer.get(i + n, c.row);
            let ghost b0 = self.model().buffer;
            proof {
                crate::buffer::lemma_view_cells(b0);
            }
            self.buffer.set(i, c.row, moved, tpl);
            proof {
                crate::buffer::lemma_set_model_frame(b0, i as int, c.row as int, moved);
            }
            i += 1;
        }
        proof {
            lemma_shift_left_frame(old(self).model().buffer, c.row as int, c.col as int, (w - n) as int, n as int);
        }
        self.fill_row(w - n, w, tpl);
    }

    /// Sets the window title and tells the host.
    pub fn set_title(&mut self, title: Option<String>)
        requires
            old(self).wf(),
        ensures
            final(self).wf(),
            final(self).model() == with_output(
                TerminalView { title: opt_str(title), ..old(self).model() },
                OutputView::Title(opt_str(title)),
            ),
    {
        let copy = match &title {
            Some(t) => Some(t.clone()),
            None => None,
        };
        self.title = copy;
        let ghost before = self.outbox@;
        self.outbox.push(Output::Title(title));
        assert(self.outbox@.map_values(|o: Output| output_view(o)) =~= before.map_values(|o: Output| output_view(o)).push(
            OutputView::Title(opt_str(title)),
        ));
    }

    /// Saves the window title, unless [`TITLE_STACK_MAX`] titles are saved
    /// already.
    pub fn push_title(&mut self)
        requires
            old(self).wf(),
        ensures
            final(self).wf(),
            old(self).model().titles.len() >= TITLE_STACK_MAX ==> final(self).model() == old(self).model(),
            old(self).model().titles.len() < TITLE_STACK_MAX ==> final(self).model() == (TerminalView {
                titles: old(self).model().titles.push(old(self).model().title),
                ..old(self).model()
            }),
    {
        if self.title_stack.len() >= TITLE_STACK_MAX {
            return;
        }
        let copy = match &self.title {
            Some(t) => Some(t.clone()),
            None => None,
        };
        let ghost before = self.title_stack@;
        self.title_stack.push(copy);
        assert(self.title_stack@.map_values(|t: Option<String>| opt_str(t)) =~= before.map_values(
            |t: Option<String>| opt_str(t),
        ).push(opt_str(self.title)));
    }

    /// Restores the title saved last and tells the host; nothing happens
    /// when none is saved.
    pub fn pop_title(&mut self)
        requires
            old(self).wf(),
        ensures
            final(self).wf(),
            old(self).model().titles.len() == 0 ==> final(self).model() == old(self).model(),
            old(self).model().titles.len() > 0 ==> ({
                let saved = old(self).model().titles.last();
                final(self).model() == with_output(
                    TerminalView { title: saved, titles: old(self).model().titles.drop_last(), ..old(self).model() },
                    OutputView::Title(saved),
                )
            }),
    {
        let ghost before = self.title_stack@;
        match self.title_stack.pop() {
            Some(title) => {
                assert(self.title_stack@.map_values(|t: Option<String>| opt_str(t)) =~= before.map_values(
                    |t: Option<String>| opt_str(t),
                ).drop_last());
                self.set_title(title);
            },
            None => {},
        }
    }

    /// Fills the screen with `E` in the current style, leaving the cursor
    /// where it is (DECALN).
    pub fn decaln(&mut self)
        requires
            old(self).wf(),
        ensures
            final(self).wf(),
            final(self).model() == with_buffer(
                old(self).model(),
                crate::buffer::clear_model(old(self).model().buffer, styled(old(self).model().style, 'E'), false),
            ),
    {
        let fill = self.style.with_content('E');
        self.buffer.clear(fill);
    }

    /// Sets the cursor shape.
    pub fn set_cursor_shape(&mut self, shape: CursorShape)
        requires
            old(self).wf(),
        ensures
            final(self).wf(),
            final(self).model() == with_buffer(
                old(self).model(),
                BufferView {
                    cursor: crate::types::Cursor { shape, ..old(self).model().buffer.cursor },
                    ..old(self).model().buffer
                },
            ),
    {
        self.buffer.set_cursor_shape(shape);
    }

    /// Rings the bell.
    pub fn bell(&mut self)
        requires
            old(self).wf(),
        ensures
            final(self).wf(),
            final(self).model() == with_output(old(self).model(), OutputView::Bell),
    {
        let ghost before = self.outbox@;
        self.outbox.push(Output::Bell);
        assert(self.outbox@.map_values(|o: Output| output_view(o)) =~= before.map_values(|o: Output| output_view(o)).push(
            OutputView::Bell,
        ));
    }

    /// Puts text on the clipboard.
    pub fn clipboard_set(&mut self, text: String)
        requires
            old(self).wf(),
        ensures
            final(self).wf(),
            final(self).model() == with_output(old(self).model(), OutputView::ClipboardSet(text@)),
    {
        let ghost before = self.outbox@;
        let ghost tv = text@;
        self.outbox.push(Output::ClipboardSet(text));
        assert(self.outbox@.map_values(|o: Output| output_view(o)) =~= before.map_values(|o: Output| output_view(o)).push(
            OutputView::ClipboardSet(tv),
        ));
    }

    /// Answers a device status request (see [`term_device_status`]).
    pub fn device_status(&mut self, arg: usize)
        requires
            old(self).wf(),
        ensures
            final(self).wf(),
            final(self).model() == term_device_status(old(self).model(), arg),
    {
        if arg == 5 {
            let answer: Vec<u8> = vec![0x1bu8, 0x5bu8, 0x30u8, 0x6eu8];
            self.user_input(answer.as_slice());
        } else if arg == 6 {
            let c = self.buffer.cursor();
            let mut out: Vec<u8> = vec![0x1bu8, 0x5bu8];
            push_decimal(&mut out, c.row + 1);
            out.push(0x3bu8);
            push_decimal(&mut out, c.col + 1);
            out.push(0x52u8);
            assert(out@ =~= position_report(c));
            self.user_input(out.as_slice());
        }
    }

    /// Answers a DECRQM request for private mode `mode` with the pointer's
    /// status of it (1 set, 2 reset, 0 unknown).
    pub fn report_dec_private(&mut self, mode: u16)
        requires
            old(self).wf(),
        ensures
            final(self).wf(),
            final(self).model() == with_output(
                old(self).model(),
                OutputView::PtyWrite(mode_report(mode, old(self).model().pointer.mode_status(mode))),
            ),
    {
        let status = self.pointer.dec_mode_status(mode);
        let mut out: Vec<u8> = vec![0x1bu8, 0x5bu8, 0x3fu8];
        push_decimal(&mut out, mode as u32);
        out.push(0x3bu8);
        push_decimal(&mut out, status as u32);
        out.push(0x24u8);
        out.push(0x79u8);
        assert(out@ =~= mode_report(mode, status));
        self.user_input(out.as_slice());
    }

    /// Sets the scroll margins (see [`term_margins`]).
    pub fn set_scroll_margins(&mut self, top: usize, bottom: usize)
        requires
            old(self).wf(),
        ensures
            final(self).wf(),
            final(self).model() == term_margins(old(self).model(), top, bottom),
    {
        if top == 0 || top > bottom {
            return;
        }
        let h = self.buffer.height();
        let tt: u32 = if (top as u32) < h { top as u32 } else { h };
        let start: u32 = if tt >= 1 { tt - 1 } else { 0 };
        let end: u32 = if (bottom as u32) < h { bottom as u32 } else { h };
        if start >= end {
            return;
        }
        self.buffer.set_scroll_region(start..end);
        self.goto_line(0);
        self.goto_col(0);
    }

    /// Resets the terminal (see [`term_reset`]).
    pub fn reset(&mut self)
        requires
            old(self).wf(),
        ensures
            final(self).wf(),
            final(self).model() == term_reset(old(self).model()),
    {
        if self.buffer.is_alternate() {
            self.exit_alternate();
        }
        self.buffer.clear_all(Char::empty());
        self.buffer.set_cursor(0, 0);
        self.buffer.set_cursor_shape(CursorShape::Block);
        self.saved_cursor = self.buffer.cursor();
        self.saved_cursor_shape = self.buffer.cursor_shape();
        self.mode = TerminalMode::empty();
        self.style = Char::empty();
        self.pointer.reset_modes();
    }
}


/// Whether `s` is the color scheme of built-in palette `p`.
pub open spec fn is_builtin_scheme(s: Seq<crate::color::Color>, p: int) -> bool {
    &&& s.len() == 512
    &&& exists|pal: Palette|
        crate::color::palette_built(pal, crate::color::builtin_pair(p), crate::color::builtin_colors(p))
            && forall|i: int| 0 <= i < 512 ==> #[trigger] s[i] == crate::color::scheme_entry(pal, i)
}

/// The buffer of a new terminal: the initial buffer with the cell size of
/// the first font.
pub open spec fn new_buffer(buf_mode: BufMode, font: (u32, u32)) -> BufferView {
    BufferView { font: (font.0, font.1, true), ..crate::buffer::initial_model(buf_mode) }
}

/// The sizes that a resize to `width` by `height` pixels with cells of
/// `font` accepts: at least one cell each way, and a grid and history that
/// fit the integer types.
pub open spec fn size_ok(font: (u32, u32), capacity: u32, width: u32, height: u32) -> bool {
    &&& font.0 > 0 && font.1 > 0
    &&& width / font.0 >= 1 && height / font.1 >= 1
    &&& width / font.0 <= i32::MAX && height / font.1 <= i32::MAX
    &&& (width / font.0) * (height / font.1) <= usize::MAX
    &&& capacity + height / font.1 <= u32::MAX
}

impl Terminal {
    /// A terminal of `width` by `height` pixels (no resize when either is
    /// zero) whose cells have the size of the first of `fonts`.
    pub fn new(width: u32, height: u32, buf_mode: BufMode, fonts: Vec<(u32, u32)>) -> (r: Terminal)
        requires
            fonts.len() >= 1,
            width > 0 && height > 0 ==> size_ok(fonts@[0], 1024, width, height),
        ensures
            r.wf(),
            width > 0 && height > 0 ==> crate::buffer::resized(
                new_buffer(buf_mode, fonts@[0]),
                r.model().buffer,
                width / fonts@[0].0,
                height / fonts@[0].1,
            ),
            !(width > 0 && height > 0) ==> r.model().buffer == new_buffer(buf_mode, fonts@[0]),
            r.model().style == empty_char(),
            r.model().mode == 0,
            r.model().saved_cursor == (CursorPosition { col: 0, row: 0 }),
            r.model().saved_shape == CursorShape::Block,
            r.model().pointer == Pointer::initial(),
            !r.model().app_cursor && !r.model().crnl,
            r.model().modifiers == (Modifiers { shift: false, alt: false, control: false, super_key: false }),
            r.model().dirty,
            r.model().view_at == 0,
            r.model().title is None,
            r.model().titles.len() == 0,
            r.model().outbox.len() == 0,
            is_builtin_scheme(r.model().scheme, crate::color::DEFAULT_PALETTE_INDEX as int),
            r.parser_model() == crate::parser::initial_parser(),
    {
        let mut buffer = TerminalBuffer::new(buf_mode);
        let mut i: usize = 0;
        while i < fonts.len()
            invariant
                fonts.len() >= 1,
                0 <= i <= fonts.len(),
                buffer.wf(),
                i == 0 ==> buffer.model() == crate::buffer::initial_model(buf_mode),
                i > 0 ==> buffer.model() == new_buffer(buf_mode, fonts@[0]),
            decreases fonts.len() - i,
        {
            let (w, h) = fonts[i];
            buffer.add_renderer_size(w, h);
            i += 1;
        }
        if width > 0 && height > 0 {
            buffer.resize(width, height);
        }
        let palette = Palette::default();
        let scheme = ColorScheme::new(&palette);
        let r = Terminal {
            saved_cursor: CursorPosition { col: 0, row: 0 },
            saved_cursor_shape: CursorShape::Block,
            style: Char::empty(),
            mode: TerminalMode::empty(),
            buffer,
            keyboard: KeyboardManager::new(),
            pointer: Pointer::new(),
            dirty: true,
            view_at: 0,
            title: None,
            title_stack: Vec::new(),
            outbox: Vec::new(),
            scheme,
            parser: Processor::new(),
        };
        proof {
            let p = crate::color::DEFAULT_PALETTE_INDEX as int;
            assert(crate::color::palette_built(palette, crate::color::builtin_pair(p), crate::color::builtin_colors(p)));
            assert(forall|i: int| 0 <= i < 512 ==> #[trigger] r.model().scheme[i] == crate::color::scheme_entry(palette, i));
            assert(r.model().outbox =~= Seq::<OutputView>::empty());
            assert(r.model().titles =~= Seq::<Option<Seq<char>>>::empty());
        }
        r
    }

    /// Resizes the terminal to `width` by `height` pixels.
    pub fn resize(&mut self, width: u32, height: u32)
        requires
            old(self).wf(),
            width > 0 && height > 0,
            width <= 65535 && height <= 65535,
            size_ok(
                (old(self).model().buffer.font.0, old(self).model().buffer.font.1),
                old(self).model().buffer.main.capacity,
                width,
                height,
            ),
        ensures
            final(self).wf(),
            crate::buffer::resized(
                old(self).model().buffer,
                final(self).model().buffer,
                width / old(self).model().buffer.font.0,
                height / old(self).model().buffer.font.1,
            ),
            final(self).model() == with_buffer(old(self).model(), final(self).model().buffer),
    {
        self.buffer.resize(width, height);
    }

    /// Adds a font whose cells are `size` pixels; the first font added
    /// fixes the cell size.
    pub fn add_renderer(&mut self, size: (u32, u32))
        requires
            old(self).wf(),
        ensures
            final(self).wf(),
            final(self).model() == with_buffer(
                old(self).model(),
                BufferView {
                    font: if old(self).model().buffer.font.2 {
                        old(self).model().buffer.font
                    } else {
                        (size.0, size.1, true)
                    },
                    ..old(self).model().buffer
                },
            ),
    {
        self.buffer.add_renderer_size(size.0, size.1);
    }

    /// The style new characters get.
    pub fn style(&self) -> (r: Char)
        ensures
            r == self.model().style,
    {
        self.style
    }

    /// Sets the style new characters get.
    pub fn set_style(&mut self, style: Char)
        requires
            old(self).wf(),
        ensures
            final(self).wf(),
            final(self).model() == (TerminalView { style, ..old(self).model() }),
    {
        self.style = style;
    }

    /// The mode bits.
    pub fn mode(&self) -> (r: TerminalMode)
        ensures
            r.0 == self.model().mode,
    {
        self.mode
    }

    /// Sets the mode bits `bits` when `on`, clears them otherwise.
    pub fn set_mode(&mut self, bits: u32, on: bool)
        requires
            old(self).wf(),
        ensures
            final(self).wf(),
            final(self).model() == (TerminalView {
                mode: if on { old(self).model().mode | bits } else { old(self).model().mode & !bits },
                ..old(self).model()
            }),
    {
        if on {
            self.mode.insert(bits);
        } else {
            self.mode.remove(bits);
        }
    }

    /// Sets or clears application cursor keys (DECCKM), in the mode bits and
    /// for the keyboard.
    pub fn set_app_cursor(&mut self, on: bool)
        requires
            old(self).wf(),
        ensures
            final(self).wf(),
            final(self).model() == (TerminalView {
                mode: if on {
                    old(self).model().mode | TerminalMode::APP_CURSOR
                } else {
                    old(self).model().mode & !TerminalMode::APP_CURSOR
                },
                app_cursor: on,
                ..old(self).model()
            }),
    {
        self.set_mode(TerminalMode::APP_CURSOR, on);
        self.keyboard.app_cursor_mode = on;
    }

    /// Sets or clears a DEC private mouse mode of the pointer.
    pub fn set_pointer_mode(&mut self, mode: u16, enable: bool)
        requires
            old(self).wf(),
        ensures
            final(self).wf(),
            crate::pointer::is_mouse_mode(mode) ==> final(self).model() == (TerminalView {
                pointer: old(self).model().pointer.with_flag(mode, enable).recalculated(),
                ..old(self).model()
            }),
            !crate::pointer::is_mouse_mode(mode) ==> final(self).model() == old(self).model(),
    {
        self.pointer.set_dec_mode(mode, enable);
    }

    /// Shows or hides the cursor.
    pub fn set_cursor_visible(&mut self, visible: bool)
        requires
            old(self).wf(),
        ensures
            final(self).wf(),
            final(self).model() == with_buffer(
                old(self).model(),
                BufferView {
                    cursor: crate::types::Cursor { visible, ..old(self).model().buffer.cursor },
                    ..old(self).model().buffer
                },
            ),
    {
        if visible {
            self.buffer.show_cursor();
        } else {
            self.buffer.hide_cursor();
        }
    }

    /// The first row of the scroll region (zero without one).
    pub fn scroll_top(&self) -> (r: u32)
        ensures
            r == (match self.model().buffer.region {
                Some(g) => g.start,
                None => 0,
            }),
    {
        self.buffer.scroll_region().start
    }
}


/// The cell size of the terminal's font.
pub open spec fn font_of(t: TerminalView) -> (u32, u32) {
    (t.buffer.font.0, t.buffer.font.1)
}

/// The last pixel coordinate of `cells` cells of `size` pixels (a size of
/// zero counting as one).
pub open spec fn pixel_limit(cells: u32, size: u32) -> int {
    cells * (if size == 0 { 1 } else { size }) - 1
}

/// `v`, or `hi` when `v` is larger.
pub open spec fn at_most(v: i32, hi: int) -> i32 {
    if v > hi { hi as i32 } else { v }
}

/// `t` with `bytes` for the program, unless there are none.
pub open spec fn with_report(t: TerminalView, bytes: Seq<u8>) -> TerminalView {
    if bytes.len() == 0 { t } else { with_output(t, OutputView::PtyWrite(bytes)) }
}

/// `t` with output `o` appended `n` times.
pub open spec fn with_outputs(t: TerminalView, o: OutputView, n: nat) -> TerminalView {
    TerminalView { outbox: t.outbox + Seq::new(n, |_i: int| o), ..t }
}

/// The cursor key a wheel step sends on the alternate screen: up or down,
/// in application form (`ESC O`) when application cursor keys are on.
pub open spec fn wheel_key(up: bool, app: bool) -> Seq<u8> {
    seq![0x1bu8, if app { 0x4fu8 } else { 0x5bu8 }, if up { 0x41u8 } else { 0x42u8 }]
}

/// The number of steps `count` wheel notches make at `speed` lines each
/// (none at a speed below one).
pub open spec fn wheel_steps(count: u32, speed: i32) -> nat {
    if speed > 0 { (count * speed) as nat } else { 0 }
}

/// The number of history lines in view of the buffer: none on the
/// alternate screen.
pub open spec fn history_len(b: BufferView) -> int {
    if b.in_alt { 0 } else { b.main.history.len() as int }
}

/// Whether a scrolling direction is vertical.
pub open spec fn vertical(d: ScrollDirection) -> bool {
    d == ScrollDirection::Up || d == ScrollDirection::Down
}

/// A scroll event. When the pointer is reported, each notch is reported as
/// a wheel button; else on the alternate screen with mode 1007 vertical
/// scrolling sends cursor keys; else vertical scrolling moves the view
/// through the history by a page or by `count` times the scroll speed
/// lines. Only the history scroll counts as handled.
pub open spec fn term_scroll_event(t: TerminalView, d: ScrollDirection, count: u32, page: bool) -> (TerminalView, bool) {
    let p = t.pointer;
    let fs = font_of(t);
    if p.report_filter != PointerReportFilter::Off {
        match p.wheel_result(d, fs) {
            Some((q, r)) if count > 0 => (
                with_outputs(TerminalView { pointer: q, ..t }, OutputView::PtyWrite(r), count as nat),
                false,
            ),
            _ => (t, false),
        }
    } else if t.buffer.in_alt && p.enabled_1007 {
        if vertical(d) {
            (
                with_outputs(
                    t,
                    OutputView::PtyWrite(wheel_key(d == ScrollDirection::Up, t.app_cursor)),
                    wheel_steps(count, p.scroll_speed),
                ),
                false,
            )
        } else {
            (t, false)
        }
    } else if vertical(d) {
        let lines = if page { t.buffer.rows as int } else { count * p.scroll_speed };
        let target = if d == ScrollDirection::Up { t.view_at - lines } else { t.view_at + lines };
        (term_view(t, crate::pointer::clamp(target, 0, history_len(t.buffer)) as u32), true)
    } else {
        (t, false)
    }
}

/// Scrolling the view through the history (the pointer not reported, and
/// not the alternate screen with mode 1007), by `n` lines that are a page
/// (the screen's height) or `count` times the scroll speed: scrolling up
/// never moves the view later, and moves it exactly `n` lines back when
/// that stays within the history; scrolling down never moves a view within
/// the history earlier, moves it exactly `n` lines on when that stays within
/// the history and stops at its end otherwise. Either way the event is
/// handled and the view ends within the history.
pub proof fn law_history_scroll(t: TerminalView, d: ScrollDirection, count: u32, page: bool)
    requires
        t.pointer.report_filter == PointerReportFilter::Off,
        !(t.buffer.in_alt && t.pointer.enabled_1007),
        d == ScrollDirection::Up || d == ScrollDirection::Down,
        t.pointer.scroll_speed >= 0,
        history_len(t.buffer) <= u32::MAX,
    ensures
        ({
            let u = term_scroll_event(t, d, count, page).0;
            let n = if page { t.buffer.rows as int } else { count * t.pointer.scroll_speed };
            let h = history_len(t.buffer);
            &&& term_scroll_event(t, d, count, page).1
            &&& u.view_at <= h
            &&& d == ScrollDirection::Up ==> u.view_at <= t.view_at
            &&& d == ScrollDirection::Up && n <= t.view_at <= h + n ==> u.view_at == t.view_at - n
            &&& d == ScrollDirection::Down && t.view_at <= h ==> u.view_at >= t.view_at
            &&& d == ScrollDirection::Down && t.view_at + n <= h ==> u.view_at == t.view_at + n
            &&& d == ScrollDirection::Down && t.view_at <= h < t.view_at + n ==> u.view_at == h
        }),
{
    let n = if page { t.buffer.rows as int } else { count * t.pointer.scroll_speed };
    assert(n >= 0) by (nonlinear_arith)
        requires
            n == (if page { t.buffer.rows as int } else { count * t.pointer.scroll_speed }),
            t.pointer.scroll_speed >= 0,
    ;
}

/// A pointer move to `(x, y)`, cut to the last pixel of the grid, then
/// reported as [`Pointer::move_result`] says.
pub open spec fn term_move(t: TerminalView, x: i32, y: i32) -> TerminalView {
    let fs = font_of(t);
    let p = Pointer {
        x: at_most(x, pixel_limit(t.buffer.cols, fs.0)),
        y: at_most(y, pixel_limit(t.buffer.rows, fs.1)),
        ..t.pointer
    };
    let (q, r) = p.move_result(fs);
    with_report(TerminalView { pointer: q, ..t }, r)
}

/// A button press (see [`Pointer::press_result`]).
pub open spec fn term_press(t: TerminalView, b: PointerButton) -> TerminalView {
    let (q, r) = t.pointer.press_result(b, font_of(t));
    with_report(TerminalView { pointer: q, ..t }, r)
}

/// A button release (see [`Pointer::release_result`]).
pub open spec fn term_release(t: TerminalView, b: PointerButton) -> TerminalView {
    let (q, r) = t.pointer.release_result(b, font_of(t));
    with_report(TerminalView { pointer: q, ..t }, r)
}

/// What handling event `e` does to `t` and whether it counts as handled.
pub open spec fn event_outcome(t: TerminalView, e: Event, u: TerminalView, handled: bool) -> bool {
    match e {
        Event::Char(c) => u == with_output(t, OutputView::PtyWrite(char_utf8(c))) && handled,
        Event::Bytes(b) => u == with_output(t, OutputView::PtyWrite(b@)) && handled,
        Event::String(s) => u == with_output(t, OutputView::PtyWrite(vstd::utf8::encode_utf8(s@))) && handled,
        Event::Copy => u == t && handled,
        Event::Paste => u == with_output(t, OutputView::ClipboardGet) && handled,
        Event::SetColorScheme(i) => {
            &&& is_builtin_scheme(u.scheme, palette_choice(i))
            &&& u == (TerminalView { scheme: u.scheme, ..t })
            &&& handled
        },
        Event::Scroll { direction, count, page } => (u, handled) == term_scroll_event(t, direction, count, page),
        Event::PointerMove(x, y) => u == term_move(t, x, y) && handled,
        Event::PointerPress(b) => u == term_press(t, b) && handled,
        Event::PointerRelease(b) => u == term_release(t, b) && handled,
        Event::PointerEnter => u == (TerminalView { pointer: Pointer { captured: true, ..t.pointer }, ..t }) && handled,
        Event::PointerLeave => u == (TerminalView { pointer: Pointer { captured: false, ..t.pointer }, ..t }) && handled,
        Event::Focus(g) => u == with_report(
            t,
            if t.pointer.enabled_1004 { crate::pointer::focus_report(g) } else { Seq::empty() },
        ) && handled,
    }
}

/// The last pixel coordinate of `cells` cells of `size` pixels.
fn grid_limit(cells: u32, size: u32) -> (r: u64)
    requires
        cells >= 1,
    ensures
        r == pixel_limit(cells, size),
{
    let c = cells as u64;
    let f: u64 = if size == 0 { 1 } else { size as u64 };
    assert(1 <= c * f <= 0xffff_ffff * 0xffff_ffffu64) by (nonlinear_arith)
        requires
            1 <= c <= 0xffff_ffff,
            1 <= f <= 0xffff_ffff,
    ;
    c * f - 1
}

/// `v`, or `max` when `v` is larger.
fn cut_to(v: i32, max: u64) -> (r: i32)
    requires
        max >= 0,
    ensures
        r == at_most(v, max as int),
{
    if v >= 0 && v as u64 > max {
        max as i32
    } else {
        v
    }
}

impl Terminal {
    /// Queues `o` for the host.
    fn push_output(&mut self, o: Output)
        requires
            old(self).wf(),
        ensures
            final(self).wf(),
            final(self).model() == with_output(old(self).model(), output_view(o)),
    {
        let ghost before = self.outbox@;
        let ghost ov = output_view(o);
        self.outbox.push(o);
        assert(self.outbox@.map_values(|o: Output| output_view(o)) =~= before.map_values(|o: Output| output_view(o)).push(ov));
    }

    /// Sends `bytes` to the program unless there are none.
    fn send_report(&mut self, bytes: Vec<u8>)
        requires
            old(self).wf(),
        ensures
            final(self).wf(),
            final(self).model() == with_report(old(self).model(), bytes@),
    {
        if bytes.len() > 0 {
            self.push_output(Output::PtyWrite(bytes));
        }
    }

    /// Sends `bytes` to the program `n` times, one output each.
    fn send_repeated(&mut self, bytes: &[u8], n: u64)
        requires
            old(self).wf(),
        ensures
            final(self).wf(),
            final(self).model() == with_outputs(old(self).model(), OutputView::PtyWrite(bytes@), n as nat),
    {
        let mut k: u64 = 0;
        while k < n
            invariant
                k <= n,
                self.wf(),
                self.model() == with_outputs(old(self).model(), OutputView::PtyWrite(bytes@), k as nat),
            decreases n - k,
        {
            let mut copy: Vec<u8> = Vec::new();
            push_all(&mut copy, bytes);
            assert(copy@ =~= bytes@);
            self.push_output(Output::PtyWrite(copy));
            k += 1;
            assert(self.model().outbox =~= old(self).model().outbox + Seq::new(k as nat, |_i: int| OutputView::PtyWrite(bytes@)));
        }
    }

    /// Reports `count` wheel notches (see [`term_scroll_event`]).
    fn scroll_report(&mut self, direction: ScrollDirection, count: u32)
        requires
            old(self).wf(),
            old(self).model().pointer.report_filter != PointerReportFilter::Off,
        ensures
            final(self).wf(),
            (final(self).model(), false) == term_scroll_event(old(self).model(), direction, count, false),
    {
        if count == 0 {
            return;
        }
        let fs = self.buffer.font_size();
        let report = self.pointer.handle_wheel(direction, fs);
        match report {
            Some(bytes) => {
                self.send_repeated(bytes.as_slice(), count as u64);
            },
            None => {},
        }
    }

    /// Sends cursor keys for wheel notches on the alternate screen (see
    /// [`term_scroll_event`]).
    fn scroll_keys(&mut self, up: bool, count: u32)
        requires
            old(self).wf(),
        ensures
            final(self).wf(),
            final(self).model() == with_outputs(
                old(self).model(),
                OutputView::PtyWrite(wheel_key(up, old(self).model().app_cursor)),
                wheel_steps(count, old(self).model().pointer.scroll_speed),
            ),
    {
        let key: Vec<u8> = vec![0x1bu8, if self.keyboard.app_cursor_mode { 0x4fu8 } else { 0x5bu8 }, if up { 0x41u8 } else { 0x42u8 }];
        assert(key@ =~= wheel_key(up, self.keyboard.app_cursor_mode));
        let speed = self.pointer.scroll_speed;
        let n: u64 = if speed > 0 {
            let c = count as u64;
            let v = speed as u64;
            assert(c * v <= 0xffff_ffffu64 * 0x7fff_ffffu64) by (nonlinear_arith)
                requires
                    c <= 0xffff_ffff,
                    v <= 0x7fff_ffff,
            ;
            c * v
        } else {
            0
        };
        self.send_repeated(key.as_slice(), n);
    }

    /// Moves the view through the history by a page or by `count` times
    /// the scroll speed lines (see [`term_scroll_event`]).
    fn scroll_history(&mut self, up: bool, count: u32, page: bool)
        requires
            old(self).wf(),
        ensures
            final(self).wf(),
            ({
                let t = old(self).model();
                let lines = if page { t.buffer.rows as int } else { count * t.pointer.scroll_speed };
                let target = if up { t.view_at - lines } else { t.view_at + lines };
                final(self).model() == term_view(t, crate::pointer::clamp(target, 0, history_len(t.buffer)) as u32)
            }),
    {
        let speed = self.pointer.scroll_speed;
        let lines: i128 = if page {
            self.buffer.height() as i128
        } else {
            let c = count as i128;
            let v = speed as i128;
            assert(-0x1_0000_0000_0000_0000i128 <= c * v <= 0x1_0000_0000_0000_0000i128) by (nonlinear_arith)
                requires
                    0 <= c <= 0xffff_ffff,
                    -0x8000_0000 <= v <= 0x7fff_ffff,
            ;
            c * v
        };
        let target: i128 = if up { self.view_at as i128 - lines } else { self.view_at as i128 + lines };
        let hist = self.buffer.history_size();
        let at: u32 = if target < 0 { 0 } else if target > hist as i128 { hist } else { target as u32 };
        self.view_history(at);
    }

    /// Handles a scroll event (see [`term_scroll_event`]).
    fn scroll_event(&mut self, direction: ScrollDirection, count: u32, page: bool) -> (handled: bool)
        requires
            old(self).wf(),
        ensures
            final(self).wf(),
            (final(self).model(), handled) == term_scroll_event(old(self).model(), direction, count, page),
    {
        let up = match direction {
            ScrollDirection::Up => true,
            _ => false,
        };
        let down = match direction {
            ScrollDirection::Down => true,
            _ => false,
        };
        if self.pointer.reporting() {
            self.scroll_report(direction, count);
            return false;
        }
        if self.buffer.is_alternate() && self.pointer.enabled_1007 {
            if up || down {
                self.scroll_keys(up, count);
            }
            return false;
        }
        if !(up || down) {
            return false;
        }
        self.scroll_history(up, count, page);
        true
    }

    /// Handles a pointer move (see [`term_move`]).
    fn pointer_move(&mut self, x: i32, y: i32)
        requires
            old(self).wf(),
        ensures
            final(self).wf(),
            final(self).model() == term_move(old(self).model(), x, y),
    {
        let fs = self.buffer.font_size();
        let max_x = grid_limit(self.buffer.width(), fs.0);
        let max_y = grid_limit(self.buffer.height(), fs.1);
        let nx = cut_to(x, max_x);
        let ny = cut_to(y, max_y);
        self.move_pointer_to(nx, ny, fs);
    }

    /// Moves the pointer to `(x, y)` and reports the motion.
    fn move_pointer_to(&mut self, x: i32, y: i32, fs: (u32, u32))
        requires
            old(self).wf(),
            fs == font_of(old(self).model()),
        ensures
            final(self).wf(),
            ({
                let t = old(self).model();
                let (q, r) = Pointer { x, y, ..t.pointer }.move_result(fs);
                final(self).model() == with_report(TerminalView { pointer: q, ..t }, r)
            }),
    {
        self.pointer.x = x;
        self.pointer.y = y;
        let r = self.pointer.handle_move(fs);
        self.send_report(r);
    }

    /// Handles a button press (see [`term_press`]).
    fn pointer_press(&mut self, button: PointerButton)
        requires
            old(self).wf(),
        ensures
            final(self).wf(),
            final(self).model() == term_press(old(self).model(), button),
    {
        let fs = self.buffer.font_size();
        let r = self.pointer.handle_press(button, fs);
        self.send_report(r);
    }

    /// Handles a button release (see [`term_release`]).
    fn pointer_release(&mut self, button: PointerButton)
        requires
            old(self).wf(),
        ensures
            final(self).wf(),
            final(self).model() == term_release(old(self).model(), button),
    {
        let fs = self.buffer.font_size();
        let r = self.pointer.handle_release(button, fs);
        self.send_report(r);
    }

    /// Handles an event of the pointer or of focus.
    fn pointer_event(&mut self, event: Event)
        requires
            old(self).wf(),
            event is PointerMove || event is PointerPress || event is PointerRelease || event is PointerEnter
                || event is PointerLeave || event is Focus,
        ensures
            final(self).wf(),
            event_outcome(old(self).model(), event, final(self).model(), true),
    {
        match event {
            Event::PointerMove(x, y) => {
                self.pointer_move(x, y);
            },
            Event::PointerPress(b) => {
                self.pointer_press(b);
            },
            Event::PointerRelease(b) => {
                self.pointer_release(b);
            },
            Event::PointerEnter => {
                let fs = self.buffer.font_size();
                let _ = self.pointer.encode_enter(fs);
            },
            Event::PointerLeave => {
                let fs = self.buffer.font_size();
                let _ = self.pointer.encode_leave(fs);
            },
            Event::Focus(g) => {
                let r = self.pointer.encode_focus(g);
                self.send_report(r);
            },
            _ => {},
        }
    }

    /// Handles key input, clipboard requests and color scheme switches.
    fn input_event(&mut self, event: Event)
        requires
            old(self).wf(),
            event is Char || event is Bytes || event is String || event is Copy || event is Paste
                || event is SetColorScheme,
        ensures
            final(self).wf(),
            event_outcome(old(self).model(), event, final(self).model(), true),
    {
        match event {
            Event::Char(c) => {
                let bytes = char_to_utf8(c);
                self.user_input(bytes.as_slice());
            },
            Event::Bytes(b) => {
                self.user_input(b.as_slice());
            },
            Event::String(s) => {
                self.user_input(s.as_bytes());
            },
            Event::Paste => {
                self.push_output(Output::ClipboardGet);
            },
            Event::SetColorScheme(i) => {
                self.set_color_scheme(i);
            },
            _ => {},
        }
    }

    /// Handles an input event (see [`event_outcome`]); returns whether the
    /// terminal handled it itself rather than passing it to the program.
    pub fn handle_event(&mut self, event: Event) -> (handled: bool)
        requires
            old(self).wf(),
        ensures
            final(self).wf(),
            event_outcome(old(self).model(), event, final(self).model(), handled),
    {
        match event {
            Event::Scroll { direction, count, page } => self.scroll_event(direction, count, page),
            Event::PointerMove(..) | Event::PointerPress(_) | Event::PointerRelease(_) | Event::PointerEnter
            | Event::PointerLeave | Event::Focus(_) => {
                self.pointer_event(event);
                true
            },
            _ => {
                self.input_event(event);
                true
            },
        }
    }
}


/// The terminal after the program's output was applied: a view that was at
/// the end of the history follows it there, and the screen needs drawing.
pub open spec fn after_input(before: TerminalView, t: TerminalView) -> TerminalView {
    let u = if before.view_at == history_len(before.buffer) {
        term_view(t, history_len(t.buffer) as u32)
    } else {
        t
    };
    TerminalView { dirty: true, ..u }
}

impl Terminal {
    /// Applies `bytes` of the program's output (see
    /// [`crate::parser::parse_all`] and [`after_input`]); nothing happens
    /// for no bytes.
    pub fn process(&mut self, bytes: &[u8])
        requires
            old(self).wf(),
        ensures
            final(self).wf(),
            bytes@.len() == 0 ==> final(self).model() == old(self).model() && final(self).parser_model()
                == old(self).parser_model(),
            bytes@.len() > 0 ==> ({
                let (p, t) = parse_all(old(self).parser_model(), old(self).model(), bytes@);
                &&& final(self).parser_model() == p
                &&& final(self).model() == after_input(old(self).model(), t)
            }),
    {
        if bytes.len() == 0 {
            return;
        }
        let ghost t0 = self.model();
        let ghost p0 = self.parser_model();
        let view_at_end = self.view_at == self.buffer.history_size();
        let mut parser = Processor::new();
        std::mem::swap(&mut parser, &mut self.parser);
        assert(self.model() == t0 && parser.model() == p0);
        parser.advance(self, bytes);
        let ghost done = parse_all(p0, t0, bytes@);
        assert(parser.model() == done.0 && self.model() == done.1);
        if view_at_end {
            let h = self.buffer.history_size();
            self.view_history(h);
        }
        self.dirty = true;
        self.parser = parser;
    }
}


impl Terminal {
    /// Whether the view shows the newest lines; it follows new output then.
    pub fn viewing_end(&self) -> (r: bool)
        requires
            self.wf(),
        ensures
            r == (self.model().view_at == history_len(self.model().buffer)),
    {
        self.view_at == self.buffer.history_size()
    }

    /// What follows output that another front end than the built-in parser
    /// applied: the view follows to the newest lines if it showed them
    /// before (`view_was_at_end`, from [`Terminal::viewing_end`]), and the
    /// screen needs drawing.
    pub fn finish_input(&mut self, view_was_at_end: bool)
        requires
            old(self).wf(),
        ensures
            final(self).wf(),
            final(self).model() == ({
                let u = if view_was_at_end {
                    term_view(old(self).model(), history_len(old(self).model().buffer) as u32)
                } else {
                    old(self).model()
                };
                TerminalView { dirty: true, ..u }
            }),
    {
        if view_was_at_end {
            let h = self.buffer.history_size();
            self.view_history(h);
        }
        self.dirty = true;
    }
}

/// The keyboard state of a terminal.
pub open spec fn keyboard_of(t: TerminalView) -> KeyboardManager {
    KeyboardManager { app_cursor_mode: t.app_cursor, crnl_mapping: t.crnl, modifiers: t.modifiers }
}

/// The characters of optional text.
pub open spec fn text_of(text: Option<&str>) -> Option<Seq<char>> {
    match text {
        Some(s) => Some(s@),
        None => None,
    }
}

impl Terminal {
    /// Records the modifier keys held down.
    pub fn set_modifiers(&mut self, modifiers: Modifiers)
        requires
            old(self).wf(),
        ensures
            final(self).wf(),
            final(self).model() == (TerminalView { modifiers, ..old(self).model() }),
    {
        self.keyboard.modifiers = modifiers;
    }

    /// Handles a key event (see [`crate::keyboard::key_outcome`]): the event
    /// the key gives, if any, is handled as [`Terminal::handle_event`] does.
    pub fn handle_key(&mut self, pressed: bool, key: &Key, text: Option<&str>)
        requires
            old(self).wf(),
        ensures
            final(self).wf(),
            exists|r: Option<Event>|
                #[trigger] key_outcome(keyboard_of(old(self).model()), pressed, *key, text_of(text), r) && match r {
                    None => final(self).model() == old(self).model(),
                    Some(e) => exists|h: bool| event_outcome(old(self).model(), e, final(self).model(), h),
                },
    {
        let ghost t = self.model();
        let r = self.keyboard.handle_key(pressed, key, text);
        let ghost gr = r;
        assert(self.keyboard == keyboard_of(t));
        assert(key_outcome(keyboard_of(t), pressed, *key, text_of(text), gr));
        match r {
            Some(e) => {
                let ghost ev = e;
                let h = self.handle_event(e);
                assert(event_outcome(t, ev, self.model(), h));
            },
            None => {},
        }
    }
}

} // verus!
