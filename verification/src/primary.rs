//! The primary screen: the visible lines and a bounded scrollback history of
//! the lines that scrolled off the top.

use std::collections::VecDeque;
use vstd::prelude::*;

use crate::cell::{cells_text, empty_char, spec_is_placeholder, Char};
use crate::helper::push_char;
use crate::row::{clean_cell, cleaned, fill_range, held, emptied, row_with, splice, write_cell, CharVec};
use crate::types::CursorPosition;

verus! {

/// One line of text.
struct Line {
    /// The cells of the line.
    chars: CharVec,
    /// Whether a newline ended the line (as opposed to a wrap).
    endl: bool,
    /// Whether some cell changed since the line was last drawn.
    dirty: bool,
    /// Whether the whole line changed since it was last drawn.
    all_dirty: bool,
}

/// A line as plain values: its cells, whether a newline ended it, whether
/// some cell changed and whether the whole line changed since it was drawn.
pub type LineState = (Seq<Char>, bool, bool, bool);

/// The line that `Line::new(fill, width)` builds: `width` copies of `fill`,
/// not ended, wholly changed.
pub open spec fn blank_line(fill: Char, width: nat) -> LineState {
    (Seq::new(width, |_i: int| fill), false, true, true)
}

/// The most history lines a buffer of capacity `cap` holds: `cap`, or one
/// line when the capacity is zero (the line pushed last is always kept).
pub open spec fn history_bound(cap: u32) -> nat {
    if cap == 0 { 1 } else { cap as nat }
}

/// `history` with `line` appended, the oldest line dropped when `history`
/// already holds `cap` lines.
pub open spec fn pushed(history: Seq<LineState>, line: LineState, cap: u32) -> Seq<LineState> {
    if history.len() >= cap && history.len() > 0 {
        history.drop_first().push(line)
    } else {
        history.push(line)
    }
}

/// One step of scrolling the whole screen up: the bottom line is marked
/// ended, the top line moves to the history and a blank line enters at the
/// bottom.
pub open spec fn scroll_up_step(
    screen: Seq<LineState>,
    history: Seq<LineState>,
    cap: u32,
    blank: LineState,
) -> (Seq<LineState>, Seq<LineState>) {
    let last = screen.len() - 1;
    let marked = screen.update(last, (screen[last].0, true, screen[last].2, screen[last].3));
    (marked.drop_first().push(blank), pushed(history, marked[0], cap))
}

/// Scrolling the whole screen up `n` times.
pub open spec fn scrolled_up(
    screen: Seq<LineState>,
    history: Seq<LineState>,
    cap: u32,
    blank: LineState,
    n: nat,
) -> (Seq<LineState>, Seq<LineState>)
    decreases n,
{
    if n == 0 {
        (screen, history)
    } else {
        let prev = scrolled_up(screen, history, cap, blank, (n - 1) as nat);
        scroll_up_step(prev.0, prev.1, cap, blank)
    }
}

/// The screen after scrolling it down `n` lines: `n` copies of `line` enter
/// at the top and the bottom lines drop out.
pub open spec fn scrolled_down(screen: Seq<LineState>, line: LineState, n: nat) -> Seq<LineState> {
    Seq::new(screen.len(), |i: int| if i < n { line } else { screen[i - n] })
}

/// Lines `start..end` of `screen` after scrolling them by `count` lines:
/// up (towards the top) for a positive count, down for a negative one; the
/// lines that enter are `blank`, and a count of at least the region's height
/// blanks the whole region.
pub open spec fn scrolled_region(screen: Seq<LineState>, count: int, start: int, end: int, blank: LineState) -> Seq<LineState> {
    let amount = if count < 0 { -count } else { count };
    if count == 0 {
        screen
    } else if amount >= end - start {
        Seq::new(screen.len(), |i: int| if start <= i < end { blank } else { screen[i] })
    } else if count < 0 {
        Seq::new(
            screen.len(),
            |i: int|
                if start <= i < start + amount {
                    blank
                } else if start + amount <= i < end {
                    screen[i - amount]
                } else {
                    screen[i]
                },
        )
    } else {
        Seq::new(
            screen.len(),
            |i: int|
                if start <= i < end - amount {
                    screen[i + amount]
                } else if end - amount <= i < end {
                    blank
                } else {
                    screen[i]
                },
        )
    }
}

/// Scrolling down one more line lets one more `line` in at the top.
proof fn lemma_scrolled_down_step(screen: Seq<LineState>, line: LineState, k: nat)
    requires
        screen.len() > 0,
    ensures
        scrolled_down(screen, line, k + 1) == seq![line] + scrolled_down(screen, line, k).drop_last(),
{
    assert(scrolled_down(screen, line, k + 1) =~= seq![line] + scrolled_down(screen, line, k).drop_last());
}

/// The lines of `screen` after moving lines `start + k..end` up by `k`
/// places and letting `k` copies of `blank` in at the bottom of the region.
pub open spec fn shifted_up(screen: Seq<LineState>, start: int, end: int, k: int, blank: LineState) -> Seq<LineState> {
    Seq::new(
        screen.len(),
        |i: int| if start <= i < end - k { screen[i + k] } else if end - k <= i < end { blank } else { screen[i] },
    )
}

/// The lines of `screen` after moving lines `start..end - k` down by `k`
/// places and letting `k` copies of `blank` in at the top of the region.
pub open spec fn shifted_down(screen: Seq<LineState>, start: int, end: int, k: int, blank: LineState) -> Seq<LineState> {
    Seq::new(
        screen.len(),
        |i: int| if start <= i < start + k { blank } else if start + k <= i < end { screen[i - k] } else { screen[i] },
    )
}

/// The characters of a row without its empty cells and placeholders (the
/// cells whose character is `\0`).
pub open spec fn text(row: Seq<Char>) -> Seq<Char>
    decreases row.len(),
{
    if row.len() == 0 {
        Seq::empty()
    } else if row.last().ch != '\0' {
        text(row.drop_last()).push(row.last())
    } else {
        text(row.drop_last())
    }
}

/// The logical lines that `lines` hold so far, and the text of the logical
/// line still open: each line's text is appended to the open one, which a
/// line ended by a newline closes.
pub open spec fn gather(lines: Seq<LineState>) -> (Seq<Seq<Char>>, Seq<Char>)
    decreases lines.len(),
{
    if lines.len() == 0 {
        (Seq::empty(), Seq::empty())
    } else {
        let prev = gather(lines.drop_last());
        let open = prev.1 + text(lines.last().0);
        if lines.last().1 {
            (prev.0.push(open), Seq::empty())
        } else {
            (prev.0, open)
        }
    }
}

/// The logical lines of the whole buffer, history first; the last one is
/// the line still open at the end.
pub open spec fn logical_lines(history: Seq<LineState>, screen: Seq<LineState>) -> Seq<Seq<Char>> {
    let g = gather(history + screen);
    g.0.push(g.1)
}

/// Where the saved cursor falls in the logical lines: the logical line that
/// its screen line continues, and the number of characters before its
/// column (the column stays when it lies past the line, and both stay when
/// the row lies below the screen).
pub open spec fn logical_cursor(history: Seq<LineState>, screen: Seq<LineState>, pos: CursorPosition) -> CursorPosition {
    if pos.row < screen.len() {
        let before = gather(history + screen.take(pos.row as int));
        let row = screen[pos.row as int].0;
        CursorPosition {
            row: before.0.len() as u32,
            col: if pos.col < row.len() { (before.1.len() + text(row.take(pos.col as int)).len()) as u32 } else { pos.col },
        }
    } else {
        pos
    }
}

/// `line` with `c` at column `k` and placeholders of `c` after it for the
/// rest of its width, within the line.
pub open spec fn placed(line: Seq<Char>, k: int, c: Char) -> Seq<Char> {
    Seq::new(line.len(), |t: int| if t == k { c } else if k < t < k + c.width { held(c) } else { line[t] })
}

/// Laying out the characters `s[j..]` in lines of `w` cells: a character
/// that does not fit in the current line (from column `k`) closes it, not
/// ended, and starts a blank one. When `hit` holds, the column of character
/// `col` is recorded in `pos` as (line number, cell column).
pub open spec fn lay_chars(
    s: Seq<Char>,
    j: int,
    w: int,
    fill: Char,
    lines: Seq<LineState>,
    line: Seq<Char>,
    k: int,
    hit: bool,
    col: int,
    pos: (u32, u32),
) -> (Seq<LineState>, Seq<Char>, int, (u32, u32))
    decreases s.len() - j,
{
    if j < 0 || j >= s.len() {
        (lines, line, k, pos)
    } else {
        let c = s[j];
        let wrap = k + c.width > w;
        let lines1 = if wrap { lines.push((line, false, true, true)) } else { lines };
        let line1 = if wrap { Seq::new(w as nat, |_t: int| fill) } else { line };
        let k1 = if wrap { 0 } else { k };
        let pos1 = if hit && j == col { (lines1.len() as u32, k1 as u32) } else { pos };
        lay_chars(s, j + 1, w, fill, lines1, placed(line1, k1, c), k1 + c.width, hit, col, pos1)
    }
}

/// Laying out the logical lines `strings[i..]`, each starting a new line and
/// ending with a line marked ended. The cursor of logical position `cursor`
/// is recorded in `pos`; a logical line no longer than the cursor column
/// records its end instead.
pub open spec fn lay_strings(
    strings: Seq<Seq<Char>>,
    i: int,
    w: int,
    fill: Char,
    cursor: CursorPosition,
    lines: Seq<LineState>,
    pos: (u32, u32),
) -> (Seq<LineState>, (u32, u32))
    decreases strings.len() - i,
{
    if i < 0 || i >= strings.len() {
        (lines, pos)
    } else {
        let s = strings[i];
        let r = lay_chars(s, 0, w, fill, lines, Seq::new(w as nat, |_t: int| fill), 0, i == cursor.row, cursor.col as int, pos);
        let pos2 = if cursor.col >= s.len() as u32 { (r.0.len() as u32, s.len() as u32) } else { r.3 };
        lay_strings(strings, i + 1, w, fill, cursor, r.0.push((r.1, true, true, true)), pos2)
    }
}

/// The lines after laying out `strings` in lines of `w` cells (see
/// [`lay_strings`]), with the last line not ended, the oldest lines dropped
/// beyond `max + h` lines, and blank lines added up to `h`; split into the
/// history (all but the last `h` lines) and the screen, and the cursor moved
/// onto the screen's coordinates (row counted from the top of the screen,
/// never below zero).
pub open spec fn relaid(
    strings: Seq<Seq<Char>>,
    cursor: CursorPosition,
    w: u32,
    h: u32,
    max: u32,
    fill: Char,
) -> (Seq<LineState>, Seq<LineState>, CursorPosition) {
    let r = lay_strings(strings, 0, w as int, fill, cursor, Seq::empty(), (0u32, 0u32));
    let lines0 = r.0;
    let last = lines0.len() - 1;
    let lines1 = lines0.update(last, (lines0[last].0, false, lines0[last].2, lines0[last].3));
    let cap = max + h;
    let d = if lines1.len() > cap { lines1.len() - cap } else { 0 };
    let lines2 = lines1.skip(d);
    let prow = if r.1.0 >= d { r.1.0 - d } else { 0 };
    let lines3 = if lines2.len() < h {
        lines2 + Seq::new((h - lines2.len()) as nat, |_t: int| blank_line(fill, w as nat))
    } else {
        lines2
    };
    let n = lines3.len() - h;
    if lines3.len() > h {
        (
            lines3.take(n),
            lines3.skip(n),
            CursorPosition { row: if prow >= n { (prow - n) as u32 } else { 0 }, col: r.1.1 },
        )
    } else {
        (Seq::empty(), lines3, CursorPosition { row: prow as u32, col: r.1.1 })
    }
}

/// The contents of nested vectors.
pub open spec fn nested(v: Seq<Vec<Char>>) -> Seq<Seq<Char>> {
    v.map_values(|x: Vec<Char>| x@)
}

spec fn state_of(l: Line) -> LineState {
    (l.chars@, l.endl, l.dirty, l.all_dirty)
}

/// Every character of a row, empty cells too.
pub open spec fn row_chars(row: Seq<Char>) -> Seq<char> {
    row.map_values(|c: Char| c.ch)
}

/// Lines as text: every character of each line, and a newline after each
/// line that a newline ended.
pub open spec fn lines_text(lines: Seq<LineState>) -> Seq<char>
    decreases lines.len(),
{
    if lines.len() == 0 {
        Seq::empty()
    } else {
        lines_text(lines.drop_last()) + row_chars(lines.last().0) + if lines.last().1 {
            seq!['\n']
        } else {
            Seq::empty()
        }
    }
}

/// Appends the text of `line` (see [`lines_text`]) to `out`.
fn push_line(out: &mut String, line: &Line)
    ensures
        final(out)@ == old(out)@ + row_chars(state_of(*line).0) + if line.endl {
            seq!['\n']
        } else {
            Seq::<char>::empty()
        },
{
    let n = line.chars.len();
    let mut x: usize = 0;
    while x < n
        invariant
            n == line.chars@.len(),
            x <= n,
            out@ == old(out)@ + row_chars(line.chars@.take(x as int)),
        decreases n - x,
    {
        let c = line.chars.get(x);
        push_char(out, c.ch);
        x += 1;
        assert(row_chars(line.chars@.take(x as int)) =~= row_chars(line.chars@.take(x - 1)).push(c.ch));
    }
    assert(line.chars@.take(n as int) =~= line.chars@);
    if line.endl {
        push_char(out, '\n');
    }
    assert(out@ =~= old(out)@ + row_chars(state_of(*line).0) + if line.endl {
        seq!['\n']
    } else {
        Seq::<char>::empty()
    });
}

impl Line {
    /// A line of `width` copies of `ch`.
    fn new(ch: Char, width: usize) -> (r: Line)
        ensures
            state_of(r) == blank_line(ch, width as nat),
    {
        Line { chars: CharVec::filled(ch, width), endl: false, dirty: true, all_dirty: true }
    }

    /// Fills the line with `ch`; it is no longer ended and wholly changed.
    fn clear(&mut self, ch: Char)
        ensures
            state_of(*final(self)) == blank_line(ch, old(self).chars@.len()),
    {
        let n = self.chars.len();
        self.chars.fill(0, n, ch);
        self.endl = false;
        self.dirty = true;
        self.all_dirty = true;
        assert(self.chars@ =~= Seq::new(n as nat, |_i: int| ch));
    }
}

/// The stop column of screen line `y` in a selection from `begin` to `end`
/// on lines of `n` cells: past `end.0` on the last line, the line's end on
/// the others.
pub open spec fn select_stop(y: int, end: (u32, u32), n: int) -> int {
    if y == end.1 {
        if end.0 + 1 < n { end.0 + 1 } else { n }
    } else {
        n
    }
}

/// The text of screen lines `begin.1..=y` of a selection from `begin` to
/// `end`: from `begin.0` on the first line, through `end.0` on the last,
/// empty cells left out, and a newline after each line before the last that
/// ended with one. Lines past the screen add nothing.
pub open spec fn main_text(screen: Seq<LineState>, begin: (u32, u32), end: (u32, u32), y: int) -> Seq<char>
    decreases y - begin.1,
{
    if y < begin.1 {
        Seq::empty()
    } else {
        let prev = if y == begin.1 { Seq::empty() } else { main_text(screen, begin, end, y - 1) };
        if y >= screen.len() {
            prev
        } else {
            let line = screen[y];
            let start = if y == begin.1 { begin.0 as int } else { 0 };
            prev + cells_text(line.0, start, select_stop(y, end, line.0.len() as int)) + if y != end.1 && line.1 {
                seq!['\n']
            } else {
                Seq::empty()
            }
        }
    }
}

/// Lines past the screen add nothing to a selection's text.
pub proof fn lemma_main_text_past(screen: Seq<LineState>, begin: (u32, u32), end: (u32, u32), y: int)
    requires
        y >= screen.len(),
        screen.len() >= 1,
    ensures
        main_text(screen, begin, end, y) == main_text(screen, begin, end, screen.len() - 1),
    decreases y - screen.len(),
{
    if y > screen.len() {
        lemma_main_text_past(screen, begin, end, y - 1);
    }
}

/// The primary buffer: a screen of `height` lines of `width` cells, and up
/// to `max_lines` lines of history.
pub struct Primary {
    /// Lines that scrolled off the top, oldest first.
    lines: VecDeque<Line>,
    /// The visible lines, top first.
    buffer: Vec<Line>,
    /// The most lines the history keeps.
    max_lines: u32,
    /// Width in cells.
    width: u32,
    /// Height in lines.
    height: u32,
    /// The history line shown at the top of the view.
    viewport: u32,
    /// The cursor saved while this buffer is inactive or resized.
    saved_cursor_pos: CursorPosition,
}

impl Primary {
    /// The visible lines, top first.
    pub closed spec fn screen(&self) -> Seq<LineState> {
        self.buffer@.map_values(|l: Line| state_of(l))
    }

    /// The history, oldest first.
    pub closed spec fn history(&self) -> Seq<LineState> {
        self.lines@.map_values(|l: Line| state_of(l))
    }

    /// Width in cells.
    pub closed spec fn cols(&self) -> u32 {
        self.width
    }

    /// Height in lines.
    pub closed spec fn rows(&self) -> u32 {
        self.height
    }

    /// The most lines the history keeps.
    pub closed spec fn capacity(&self) -> u32 {
        self.max_lines
    }

    /// The saved cursor position.
    pub closed spec fn saved(&self) -> CursorPosition {
        self.saved_cursor_pos
    }

    /// The history line shown at the top of the view.
    pub closed spec fn view_top(&self) -> u32 {
        self.viewport
    }

    /// The screen has `height` lines and every line, visible or in the
    /// history, has `width` cells; the history stays within its capacity.
    pub closed spec fn wf(&self) -> bool {
        &&& self.width >= 1
        &&& self.height >= 1
        &&& self.buffer@.len() == self.height
        &&& self.lines@.len() <= history_bound(self.max_lines)
        &&& forall|i: int| 0 <= i < self.buffer@.len() ==> (#[trigger] self.buffer@[i]).chars@.len() == self.width
        &&& forall|i: int| 0 <= i < self.lines@.len() ==> (#[trigger] self.lines@[i]).chars@.len() == self.width
    }

    /// Whether `fill` lines of width `w` and the screen state satisfy the
    /// shape that `wf` asks of them.
    pub open spec fn shaped(screen: Seq<LineState>, history: Seq<LineState>, width: u32, height: u32) -> bool {
        &&& screen.len() == height
        &&& forall|i: int| 0 <= i < screen.len() ==> (#[trigger] screen[i]).0.len() == width
        &&& forall|i: int| 0 <= i < history.len() ==> (#[trigger] history[i]).0.len() == width
    }

    /// The shape of a well-formed buffer, in terms of its views.
    pub proof fn lemma_shape(&self)
        requires
            self.wf(),
        ensures
            Self::shaped(self.screen(), self.history(), self.cols(), self.rows()),
            self.history().len() <= history_bound(self.capacity()),
            self.cols() >= 1,
            self.rows() >= 1,
    {
    }

    /// A primary buffer of `height` empty lines of `width` cells, with room
    /// for `max_lines` lines of history.
    pub fn new(width: u32, height: u32, max_lines: u32) -> (r: Primary)
        requires
            width >= 1,
            height >= 1,
        ensures
            r.wf(),
            r.cols() == width,
            r.rows() == height,
            r.capacity() == max_lines,
            r.view_top() == 0,
            r.history() == Seq::<LineState>::empty(),
            r.screen() == Seq::new(height as nat, |_i: int| blank_line(empty_char(), width as nat)),
            r.saved() == (CursorPosition { col: 0, row: 0 }),
    {
        let mut buffer: Vec<Line> = Vec::new();
        let mut i: u32 = 0;
        while i < height
            invariant
                i <= height,
                buffer@.len() == i,
                forall|j: int| 0 <= j < i ==> state_of(#[trigger] buffer@[j]) == blank_line(empty_char(), width as nat),
            decreases height - i,
        {
            buffer.push(Line::new(Char::empty(), width as usize));
            i += 1;
        }
        let r = Primary {
            lines: VecDeque::new(),
            buffer,
            max_lines,
            width,
            height,
            viewport: 0,
            saved_cursor_pos: CursorPosition::origin(),
        };
        assert(r.screen() =~= Seq::new(height as nat, |_i: int| blank_line(empty_char(), width as nat)));
        assert(r.history() =~= Seq::<LineState>::empty());
        r
    }

    /// The saved cursor position.
    pub fn saved_cursor(&self) -> (r: CursorPosition)
        ensures
            r == self.saved(),
    {
        self.saved_cursor_pos
    }

    /// Saves a cursor position.
    pub fn set_saved_cursor(&mut self, pos: CursorPosition)
        requires
            old(self).wf(),
        ensures
            final(self).wf(),
            final(self).saved() == pos,
            final(self).screen() == old(self).screen(),
            final(self).history() == old(self).history(),
            final(self).cols() == old(self).cols() && final(self).rows() == old(self).rows(),
            final(self).capacity() == old(self).capacity(),
            final(self).view_top() == old(self).view_top(),
    {
        self.saved_cursor_pos = pos;
    }

    /// Width in cells.
    pub fn width(&self) -> (r: u32)
        ensures
            r == self.cols(),
    {
        self.width
    }

    /// Height in lines.
    pub fn height(&self) -> (r: u32)
        ensures
            r == self.rows(),
    {
        self.height
    }

    /// The number of history lines.
    pub fn history_size(&self) -> (r: u32)
        requires
            self.wf(),
        ensures
            r == self.history().len(),
    {
        self.lines.len() as u32
    }

    /// Shows the view whose top is history line `y`, or the newest view.
    pub fn view(&mut self, y: u32)
        requires
            old(self).wf(),
        ensures
            final(self).wf(),
            final(self).view_top() == if y < old(self).history().len() { y as int } else { old(self).history().len() as int },
            final(self).screen() == old(self).screen(),
            final(self).history() == old(self).history(),
            final(self).cols() == old(self).cols() && final(self).rows() == old(self).rows(),
            final(self).capacity() == old(self).capacity(),
            final(self).saved() == old(self).saved(),
    {
        let hs = self.history_size();
        self.viewport = if y < hs { y } else { hs };
    }

    /// Whether screen line `y` ended with a newline.
    pub fn line_ended(&self, y: u32) -> (r: bool)
        requires
            self.wf(),
            y < self.rows(),
        ensures
            r == self.screen()[y as int].1,
    {
        self.buffer[y as usize].endl
    }

    /// The text of the screen from `begin` to `end` (see [`main_text`]).
    pub fn tostr(&self, begin: (u32, u32), end: (u32, u32)) -> (r: String)
        requires
            self.wf(),
            begin.1 <= end.1 && begin.1 < self.rows() ==> begin.0 <= select_stop(
                begin.1 as int,
                end,
                self.cols() as int,
            ),
        ensures
            r@ == main_text(self.screen(), begin, end, end.1 as int),
    {
        proof {
            self.lemma_shape();
        }
        let mut result = String::new();
        if begin.1 > end.1 {
            return result;
        }
        if begin.1 >= self.height {
            proof {
                lemma_main_text_past(self.screen(), begin, end, end.1 as int);
            }
            return result;
        }
        let last: u32 = if end.1 < self.height { end.1 } else { self.height - 1 };
        let mut y: u32 = begin.1;
        while y <= last
            invariant
                begin.1 <= y <= last + 1,
                last < self.rows(),
                last <= end.1,
                self.wf(),
                Self::shaped(self.screen(), self.history(), self.cols(), self.rows()),
                begin.1 <= end.1,
                begin.1 < self.rows() ==> begin.0 <= select_stop(begin.1 as int, end, self.cols() as int),
                result@ == main_text(self.screen(), begin, end, y - 1),
            decreases last + 1 - y,
        {
            let n = self.width;
            let start: u32 = if y == begin.1 { begin.0 } else { 0 };
            let stop: u32 = if y == end.1 {
                if end.0 < n - 1 { end.0 + 1 } else { n }
            } else {
                n
            };
            let ghost before = result@;
            let mut x = start;
            while x < stop
                invariant
                    start <= x <= stop,
                    stop <= n,
                    n == self.cols(),
                    y < self.rows(),
                    self.wf(),
                    Self::shaped(self.screen(), self.history(), self.cols(), self.rows()),
                    result@ == before + cells_text(self.screen()[y as int].0, start as int, x as int),
                decreases stop - x,
            {
                let c = self.get(x, y);
                if c.ch != '\0' {
                    push_char(&mut result, c.ch);
                }
                x += 1;
                assert(result@ =~= before + cells_text(self.screen()[y as int].0, start as int, x as int));
            }
            if y != end.1 && self.line_ended(y) {
                push_char(&mut result, '\n');
            }
            assert(result@ =~= main_text(self.screen(), begin, end, y as int));
            y += 1;
        }
        proof {
            if end.1 >= self.rows() {
                lemma_main_text_past(self.screen(), begin, end, end.1 as int);
            }
        }
        result
    }

    /// The lines as text (see [`lines_text`]): the history first when
    /// `with_history`, then the screen.
    pub fn snapshot(&self, with_history: bool) -> (r: String)
        ensures
            r@ == (if with_history {
                lines_text(self.history())
            } else {
                Seq::empty()
            }) + lines_text(self.screen()),
    {
        let mut result = String::new();
        let ghost head: Seq<char> = if with_history {
            lines_text(self.history())
        } else {
            Seq::empty()
        };
        if with_history {
            let n = self.lines.len();
            let mut i: usize = 0;
            while i < n
                invariant
                    n == self.lines@.len(),
                    i <= n,
                    result@ == lines_text(self.history().take(i as int)),
                decreases n - i,
            {
                push_line(&mut result, &self.lines[i]);
                i += 1;
                assert(self.history().take(i as int).drop_last() =~= self.history().take(i - 1));
            }
            assert(self.history().take(n as int) =~= self.history());
        }
        assert(result@ =~= head);
        let n = self.buffer.len();
        let mut i: usize = 0;
        assert(self.screen().take(0) =~= Seq::<LineState>::empty());
        while i < n
            invariant
                n == self.buffer@.len(),
                i <= n,
                result@ == head + lines_text(self.screen().take(i as int)),
            decreases n - i,
        {
            push_line(&mut result, &self.buffer[i]);
            i += 1;
            assert(self.screen().take(i as int).drop_last() =~= self.screen().take(i - 1));
            assert(result@ =~= head + lines_text(self.screen().take(i as int)));
        }
        assert(self.screen().take(n as int) =~= self.screen());
        result
    }

    /// The cell at column `x` of screen line `y`.
    pub fn get(&self, x: u32, y: u32) -> (r: Char)
        requires
            self.wf(),
            x < self.cols(),
            y < self.rows(),
        ensures
            r == self.screen()[y as int].0[x as int],
    {
        self.buffer[y as usize].chars.get(x as usize)
    }

    /// The cell at column `x` of line `y` of the view: history lines from
    /// the view top on, then the screen.
    pub fn at(&self, x: u32, y: u32) -> (r: Char)
        requires
            self.wf(),
            x < self.cols(),
            self.view_top() + y <= u32::MAX,
            self.view_top() + y < self.history().len() + self.rows(),
        ensures
            r == (self.history() + self.screen())[self.view_top() + y].0[x as int],
    {
        let yy = self.viewport + y;
        let hs = self.lines.len() as u32;
        if yy < hs {
            self.lines[yy as usize].chars.get(x as usize)
        } else {
            self.buffer[(yy - hs) as usize].chars.get(x as usize)
        }
    }

    /// Writes `cell` at column `x` of screen line `y` (see [`row_with`]);
    /// the line is marked changed. Returns the cell that was there.
    pub fn set(&mut self, x: u32, y: u32, cell: Char) -> (r: Char)
        requires
            old(self).wf(),
            x < old(self).cols(),
            y < old(self).rows(),
        ensures
            final(self).wf(),
            r == old(self).screen()[y as int].0[x as int],
            final(self).screen() == old(self).screen().update(
                y as int,
                (
                    row_with(old(self).screen()[y as int].0, x as int, cell),
                    old(self).screen()[y as int].1,
                    true,
                    old(self).screen()[y as int].3,
                ),
            ),
            final(self).history() == old(self).history(),
            final(self).cols() == old(self).cols() && final(self).rows() == old(self).rows(),
            final(self).capacity() == old(self).capacity(),
            final(self).view_top() == old(self).view_top(),
            final(self).saved() == old(self).saved(),
    {
        let w = self.width as usize;
        let line = &mut self.buffer[y as usize];
        line.dirty = true;
        let r = write_cell(&mut line.chars, 0, w, x as usize, cell);
        proof {
            let row = old(self).buffer@[y as int].chars@;
            assert(row.subrange(0, w as int) =~= row);
            assert(splice(row, 0, row_with(row, x as int, cell)) =~= row_with(row, x as int, cell));
        }
        assert(self.screen() =~= old(self).screen().update(
            y as int,
            (
                row_with(old(self).screen()[y as int].0, x as int, cell),
                old(self).screen()[y as int].1,
                true,
                old(self).screen()[y as int].3,
            ),
        ));
        r
    }

    /// Takes the change mark off the cell at column `x` of screen line `y`;
    /// nothing else changes.
    pub fn mark_clean(&mut self, x: u32, y: u32)
        requires
            old(self).wf(),
            x < old(self).cols(),
            y < old(self).rows(),
        ensures
            final(self).wf(),
            final(self).screen() == old(self).screen().update(
                y as int,
                (
                    old(self).screen()[y as int].0.update(x as int, cleaned(old(self).screen()[y as int].0[x as int])),
                    old(self).screen()[y as int].1,
                    old(self).screen()[y as int].2,
                    old(self).screen()[y as int].3,
                ),
            ),
            final(self).history() == old(self).history(),
            final(self).cols() == old(self).cols() && final(self).rows() == old(self).rows(),
            final(self).capacity() == old(self).capacity(),
            final(self).view_top() == old(self).view_top(),
            final(self).saved() == old(self).saved(),
    {
        let w = self.width as usize;
        let line = &mut self.buffer[y as usize];
        clean_cell(&mut line.chars, 0, w, x as usize);
        proof {
            let row = old(self).buffer@[y as int].chars@;
            assert(row.subrange(0, w as int) =~= row);
            assert(splice(row, 0, row.update(x as int, cleaned(row[x as int]))) =~= row.update(
                x as int,
                cleaned(row[x as int]),
            ));
        }
        assert(self.screen() =~= old(self).screen().update(
            y as int,
            (
                old(self).screen()[y as int].0.update(x as int, cleaned(old(self).screen()[y as int].0[x as int])),
                old(self).screen()[y as int].1,
                old(self).screen()[y as int].2,
                old(self).screen()[y as int].3,
            ),
        ));
    }

    /// Marks screen line `y` as ended by a newline.
    pub fn endl(&mut self, y: u32)
        requires
            old(self).wf(),
            y < old(self).rows(),
        ensures
            final(self).wf(),
            final(self).screen() == old(self).screen().update(
                y as int,
                (old(self).screen()[y as int].0, true, old(self).screen()[y as int].2, old(self).screen()[y as int].3),
            ),
            final(self).history() == old(self).history(),
            final(self).cols() == old(self).cols() && final(self).rows() == old(self).rows(),
            final(self).capacity() == old(self).capacity(),
            final(self).view_top() == old(self).view_top(),
            final(self).saved() == old(self).saved(),
    {
        self.buffer[y as usize].endl = true;
        assert(self.screen() =~= old(self).screen().update(
            y as int,
            (old(self).screen()[y as int].0, true, old(self).screen()[y as int].2, old(self).screen()[y as int].3),
        ));
    }

    /// Fills screen line `y` with `fill`.
    pub fn clear_line(&mut self, y: u32, fill: Char)
        requires
            old(self).wf(),
            y < old(self).rows(),
        ensures
            final(self).wf(),
            final(self).screen() == old(self).screen().update(y as int, blank_line(fill, old(self).cols() as nat)),
            final(self).history() == old(self).history(),
            final(self).cols() == old(self).cols() && final(self).rows() == old(self).rows(),
            final(self).capacity() == old(self).capacity(),
            final(self).view_top() == old(self).view_top(),
            final(self).saved() == old(self).saved(),
    {
        self.buffer[y as usize].clear(fill);
        assert(self.screen() =~= old(self).screen().update(y as int, blank_line(fill, old(self).cols() as nat)));
    }

    /// Fills every screen line with `fill`; the history stays.
    pub fn clear(&mut self, fill: Char)
        requires
            old(self).wf(),
        ensures
            final(self).wf(),
            final(self).screen() == Seq::new(old(self).rows() as nat, |_i: int| blank_line(fill, old(self).cols() as nat)),
            final(self).history() == old(self).history(),
            final(self).cols() == old(self).cols() && final(self).rows() == old(self).rows(),
            final(self).capacity() == old(self).capacity(),
            final(self).view_top() == old(self).view_top(),
            final(self).saved() == old(self).saved(),
    {
        let mut y: usize = 0;
        while y < self.buffer.len()
            invariant
                self.wf(),
                y <= self.buffer@.len(),
                self.width == old(self).width && self.height == old(self).height,
                self.max_lines == old(self).max_lines && self.viewport == old(self).viewport,
                self.saved_cursor_pos == old(self).saved_cursor_pos,
                self.lines == old(self).lines,
                forall|i: int| 0 <= i < y ==> state_of(#[trigger] self.buffer@[i]) == blank_line(fill, self.width as nat),
                forall|i: int| y <= i < self.buffer@.len() ==> #[trigger] self.buffer@[i] == old(self).buffer@[i],
            decreases self.buffer@.len() - y,
        {
            self.buffer[y].clear(fill);
            y += 1;
        }
        assert(self.screen() =~= Seq::new(old(self).rows() as nat, |_i: int| blank_line(fill, old(self).cols() as nat)));
    }

    /// Fills every screen line with `fill` and drops the history.
    pub fn clear_all(&mut self, fill: Char)
        requires
            old(self).wf(),
        ensures
            final(self).wf(),
            final(self).screen() == Seq::new(old(self).rows() as nat, |_i: int| blank_line(fill, old(self).cols() as nat)),
            final(self).history() == Seq::<LineState>::empty(),
            final(self).cols() == old(self).cols() && final(self).rows() == old(self).rows(),
            final(self).capacity() == old(self).capacity(),
            final(self).view_top() == old(self).view_top(),
            final(self).saved() == old(self).saved(),
    {
        self.lines.clear();
        self.clear(fill);
        assert(self.history() =~= Seq::<LineState>::empty());
    }

    /// Appends `line` to the history, dropping the oldest line when full.
    fn push_line(&mut self, line: Line)
        requires
            old(self).lines@.len() <= history_bound(old(self).max_lines),
            forall|i: int| 0 <= i < old(self).lines@.len() ==> (#[trigger] old(self).lines@[i]).chars@.len() == old(self).width,
            line.chars@.len() == old(self).width,
        ensures
            final(self).lines@.len() <= history_bound(final(self).max_lines),
            forall|i: int| 0 <= i < final(self).lines@.len() ==> (#[trigger] final(self).lines@[i]).chars@.len() == final(self).width,
            final(self).history() == pushed(old(self).history(), state_of(line), old(self).max_lines),
            final(self).buffer == old(self).buffer,
            final(self).width == old(self).width && final(self).height == old(self).height,
            final(self).max_lines == old(self).max_lines,
            final(self).viewport == old(self).viewport,
            final(self).saved_cursor_pos == old(self).saved_cursor_pos,
    {
        if self.lines.len() >= self.max_lines as usize {
            let _ = self.lines.pop_front();
        }
        self.lines.push_back(line);
        assert(self.history() =~= pushed(old(self).history(), state_of(line), old(self).max_lines));
    }

    /// Keeps at most `capacity` lines of history, dropping the oldest.
    pub fn set_history_size(&mut self, capacity: u32)
        requires
            old(self).wf(),
        ensures
            final(self).wf(),
            final(self).capacity() == capacity,
            final(self).history() == if old(self).history().len() > capacity {
                old(self).history().skip(old(self).history().len() - capacity)
            } else {
                old(self).history()
            },
            final(self).screen() == old(self).screen(),
            final(self).cols() == old(self).cols() && final(self).rows() == old(self).rows(),
            final(self).view_top() == old(self).view_top(),
            final(self).saved() == old(self).saved(),
    {
        self.max_lines = capacity;
        while self.lines.len() > capacity as usize
            invariant
                self.width == old(self).width && self.height == old(self).height,
                self.max_lines == capacity,
                self.buffer == old(self).buffer,
                self.viewport == old(self).viewport,
                self.saved_cursor_pos == old(self).saved_cursor_pos,
                self.lines@.len() <= old(self).lines@.len(),
                old(self).lines@.len() > capacity ==> self.lines@.len() >= capacity,
                old(self).lines@.len() <= capacity ==> self.lines@.len() == old(self).lines@.len(),
                self.lines@ == old(self).lines@.skip(old(self).lines@.len() - self.lines@.len()),
            decreases self.lines@.len(),
        {
            let _ = self.lines.pop_front();
        }
        proof {
            let h = old(self).lines@;
            assert forall|i: int| 0 <= i < self.lines@.len() implies (#[trigger] self.lines@[i]).chars@.len() == self.width by {
                assert(self.lines@[i] == h[i + (h.len() - self.lines@.len())]);
            }
            if h.len() <= capacity {
                assert(h.skip(0) =~= h);
            }
            let d = h.len() - self.lines@.len();
            assert forall|i: int| 0 <= i < self.lines@.len() implies #[trigger] self.history()[i] == old(self).history().skip(d)[i] by {
                assert(self.lines@[i] == h[i + d]);
            }
            assert(self.history() =~= old(self).history().skip(d));
            if h.len() > capacity {
                assert(d == h.len() - capacity);
            } else {
                assert(d == 0);
                assert(old(self).history().skip(0) =~= old(self).history());
            }
        }
        assert(self.history() =~= if old(self).history().len() > capacity {
            old(self).history().skip(old(self).history().len() - capacity)
        } else {
            old(self).history()
        });
    }

    /// Scrolls the whole screen by `count` lines. A positive count scrolls
    /// up: each time the bottom line is marked ended, the top line goes to
    /// the history and a blank line enters at the bottom. A negative count
    /// marks the newest history line ended and scrolls down, letting ended
    /// blank lines in at the top.
    pub fn scroll_full(&mut self, count: i32, fill: Char)
        requires
            old(self).wf(),
            count != i32::MIN,
        ensures
            final(self).wf(),
            count > 0 ==> (final(self).screen(), final(self).history()) == scrolled_up(
                old(self).screen(),
                old(self).history(),
                old(self).capacity(),
                blank_line(fill, old(self).cols() as nat),
                count as nat,
            ),
            count < 0 ==> final(self).screen() == scrolled_down(
                old(self).screen(),
                (blank_line(fill, old(self).cols() as nat).0, true, true, true),
                (-count) as nat,
            ),
            count < 0 && old(self).history().len() > 0 ==> final(self).history() == old(self).history().update(
                old(self).history().len() - 1,
                (
                    old(self).history().last().0,
                    true,
                    old(self).history().last().2,
                    old(self).history().last().3,
                ),
            ),
            count < 0 && old(self).history().len() == 0 ==> final(self).history() == old(self).history(),
            count == 0 ==> final(self).screen() == old(self).screen() && final(self).history() == old(self).history(),
            final(self).cols() == old(self).cols() && final(self).rows() == old(self).rows(),
            final(self).capacity() == old(self).capacity(),
            final(self).view_top() == old(self).view_top(),
            final(self).saved() == old(self).saved(),
    {
        let width = self.width;
        let height = self.height;
        if count == 0 {
            return;
        }
        if count < 0 {
            if self.lines.len() > 0 {
                let last = self.lines.pop_back();
                match last {
                    Some(mut line) => {
                        line.endl = true;
                        self.lines.push_back(line);
                    },
                    None => {},
                }
                assert(self.history() =~= old(self).history().update(
                    old(self).history().len() - 1,
                    (
                        old(self).history().last().0,
                        true,
                        old(self).history().last().2,
                        old(self).history().last().3,
                    ),
                ));
            }
            let ghost hist = self.history();
            let n = (-count) as u32;
            let ghost line_state: LineState = (blank_line(fill, width as nat).0, true, true, true);
            let mut k: u32 = 0;
            while k < n
                invariant
                    self.wf(),
                    k <= n,
                    self.width == width && self.height == height,
                    self.max_lines == old(self).max_lines,
                    self.viewport == old(self).viewport,
                    self.saved_cursor_pos == old(self).saved_cursor_pos,
                    self.history() == hist,
                    line_state == (blank_line(fill, width as nat).0, true, true, true),
                    self.screen() == scrolled_down(old(self).screen(), line_state, k as nat),
                decreases n - k,
            {
                let mut new_line = Line::new(fill, width as usize);
                new_line.endl = true;
                let ghost nl = new_line;
                assert(state_of(nl) == line_state);
                let ghost prev = self.buffer@;
                let ghost before = self.screen();
                let _ = self.buffer.pop();
                assert(self.buffer@ =~= prev.drop_last());
                self.buffer.insert(0, new_line);
                proof {
                    assert(self.buffer@ =~= seq![nl] + prev.drop_last());
                    assert(self.screen() =~= seq![line_state] + before.drop_last());
                    lemma_scrolled_down_step(old(self).screen(), line_state, k as nat);
                }
                k += 1;
            }
        } else {
            let n = count as u32;
            let ghost blank = blank_line(fill, width as nat);
            let mut k: u32 = 0;
            while k < n
                invariant
                    self.wf(),
                    k <= n,
                    self.width == width && self.height == height,
                    self.max_lines == old(self).max_lines,
                    self.viewport == old(self).viewport,
                    self.saved_cursor_pos == old(self).saved_cursor_pos,
                    blank == blank_line(fill, width as nat),
                    (self.screen(), self.history()) == scrolled_up(
                        old(self).screen(),
                        old(self).history(),
                        old(self).max_lines,
                        blank,
                        k as nat,
                    ),
                decreases n - k,
            {
                let ghost before_screen = self.screen();
                let ghost before_hist = self.history();
                self.endl(height - 1);
                let ghost marked = self.screen();
                let ghost mbuf = self.buffer@;
                let line = self.buffer.remove(0);
                assert(self.buffer@ =~= mbuf.drop_first());
                assert(state_of(line) == marked[0]);
                self.push_line(line);
                let nl = Line::new(fill, width as usize);
                self.buffer.push(nl);
                proof {
                    assert(self.buffer@ =~= mbuf.drop_first().push(nl));
                    assert forall|i: int| 0 <= i < self.buffer@.len() implies #[trigger] state_of(self.buffer@[i]) == marked.drop_first().push(blank)[i] by {
                        if i < self.buffer@.len() - 1 {
                            assert(self.buffer@[i] == mbuf[i + 1]);
                            assert(marked[i + 1] == state_of(mbuf[i + 1]));
                        } else {
                            assert(self.buffer@[i] == nl);
                        }
                    }
                    assert(self.screen() =~= marked.drop_first().push(blank));
                    assert((self.screen(), self.history()) == scroll_up_step(before_screen, before_hist, old(self).max_lines, blank));
                }
                k += 1;
            }
        }
    }

    /// Scrolls screen lines `region` by `count` lines (see
    /// [`scrolled_region`]); the lines that enter are blank lines of `fill`.
    pub fn scroll_partial(&mut self, count: i32, fill: Char, region: core::ops::Range<u32>)
        requires
            old(self).wf(),
            region.start <= region.end <= old(self).rows(),
        ensures
            final(self).wf(),
            final(self).screen() == scrolled_region(
                old(self).screen(),
                count as int,
                region.start as int,
                region.end as int,
                blank_line(fill, old(self).cols() as nat),
            ),
            final(self).history() == old(self).history(),
            final(self).cols() == old(self).cols() && final(self).rows() == old(self).rows(),
            final(self).capacity() == old(self).capacity(),
            final(self).view_top() == old(self).view_top(),
            final(self).saved() == old(self).saved(),
    {
        let start = region.start as usize;
        let end = region.end as usize;
        let width = self.width;
        let ghost blank = blank_line(fill, width as nat);
        let ghost s0 = self.screen();
        if count == 0 {
            return;
        }
        let amount: u32 = if count < 0 {
            if count == i32::MIN { 0x8000_0000u32 } else { (-count) as u32 }
        } else {
            count as u32
        };
        if amount as usize >= end - start {
            let mut y = start;
            while y < end
                invariant
                    self.wf(),
                    start <= y <= end <= self.buffer@.len(),
                    self.width == width && self.height == old(self).height,
                    self.max_lines == old(self).max_lines,
                    self.viewport == old(self).viewport,
                    self.saved_cursor_pos == old(self).saved_cursor_pos,
                    self.lines == old(self).lines,
                    forall|i: int| start <= i < y ==> state_of(#[trigger] self.buffer@[i]) == blank_line(fill, width as nat),
                    forall|i: int| 0 <= i < self.buffer@.len() && !(start <= i < y) ==> #[trigger] self.buffer@[i] == old(self).buffer@[i],
                decreases end - y,
            {
                self.buffer[y].clear(fill);
                y += 1;
            }
            proof {
                assert forall|i: int| 0 <= i < self.buffer@.len() implies #[trigger] self.screen()[i] == scrolled_region(s0, count as int, start as int, end as int, blank)[i] by {
                    if !(start <= i < end) {
                        assert(self.buffer@[i] == old(self).buffer@[i]);
                    }
                }
            }
            assert(self.screen() =~= scrolled_region(s0, count as int, start as int, end as int, blank));
            return;
        }
        let n = amount as usize;
        let mut k: usize = 0;
        while k < n
            invariant
                self.wf(),
                start <= end <= self.buffer@.len(),
                k <= n < end - start,
                count != 0,
                n == if count < 0 { -count } else { count as int },
                self.width == width && self.height == old(self).height,
                self.max_lines == old(self).max_lines,
                self.viewport == old(self).viewport,
                self.saved_cursor_pos == old(self).saved_cursor_pos,
                self.lines == old(self).lines,
                blank == blank_line(fill, width as nat),
                s0 == old(self).screen(),
                count > 0 ==> self.screen() == shifted_up(s0, start as int, end as int, k as int, blank),
                count < 0 ==> self.screen() == shifted_down(s0, start as int, end as int, k as int, blank),
            decreases n - k,
        {
            let ghost cur = self.buffer@;
            let ghost cur_s = self.screen();
            let nl = Line::new(fill, width as usize);
            if count > 0 {
                let _ = self.buffer.remove(start);
                self.buffer.insert(end - 1, nl);
                proof {
                    assert forall|i: int| 0 <= i < self.buffer@.len() implies #[trigger] state_of(self.buffer@[i]) == shifted_up(
                        s0,
                        start as int,
                        end as int,
                        k + 1,
                        blank,
                    )[i] by {
                        if i < start {
                            assert(self.buffer@[i] == cur[i]);
                            assert(cur_s[i] == state_of(cur[i]));
                        } else if i < end - 1 {
                            assert(self.buffer@[i] == cur[i + 1]);
                            assert(cur_s[i + 1] == state_of(cur[i + 1]));
                        } else if i == end - 1 {
                            assert(self.buffer@[i] == nl);
                        } else {
                            assert(self.buffer@[i] == cur[i]);
                            assert(cur_s[i] == state_of(cur[i]));
                        }
                    }
                    assert(self.screen() =~= shifted_up(s0, start as int, end as int, k + 1, blank));
                }
            } else {
                let _ = self.buffer.remove(end - 1);
                self.buffer.insert(start, nl);
                proof {
                    assert forall|i: int| 0 <= i < self.buffer@.len() implies #[trigger] state_of(self.buffer@[i]) == shifted_down(
                        s0,
                        start as int,
                        end as int,
                        k + 1,
                        blank,
                    )[i] by {
                        if i < start {
                            assert(self.buffer@[i] == cur[i]);
                            assert(cur_s[i] == state_of(cur[i]));
                        } else if i == start {
                            assert(self.buffer@[i] == nl);
                        } else if i < end {
                            assert(self.buffer@[i] == cur[i - 1]);
                            assert(cur_s[i - 1] == state_of(cur[i - 1]));
                        } else {
                            assert(self.buffer@[i] == cur[i]);
                            assert(cur_s[i] == state_of(cur[i]));
                        }
                    }
                    assert(self.screen() =~= shifted_down(s0, start as int, end as int, k + 1, blank));
                }
            }
            k += 1;
        }
        if count > 0 {
            assert(self.screen() =~= scrolled_region(s0, count as int, start as int, end as int, blank));
        } else {
            assert(self.screen() =~= scrolled_region(s0, count as int, start as int, end as int, blank));
        }
    }

    /// Appends the text of `row` (its cells with a character) to `out`.
    fn push_text(out: &mut Vec<Char>, row: &CharVec, cursor_col: Option<usize>) -> (r: Option<usize>)
        ensures
            final(out)@ == old(out)@ + text(row@),
            cursor_col is None ==> r is None,
            cursor_col is Some && cursor_col->0 >= row@.len() ==> r is None,
            cursor_col is Some && cursor_col->0 < row@.len() ==> r is Some && r->0 == old(out)@.len() + text(
                row@.take(cursor_col->0 as int),
            ).len(),
    {
        let n = row.len();
        let mut j: usize = 0;
        let mut found: Option<usize> = None;
        while j < n
            invariant
                n == row@.len(),
                j <= n,
                out@ == old(out)@ + text(row@.take(j as int)),
                cursor_col is None ==> found is None,
                cursor_col is Some && cursor_col->0 >= j ==> found is None,
                cursor_col is Some && cursor_col->0 < j ==> found is Some && found->0 == old(out)@.len() + text(
                    row@.take(cursor_col->0 as int),
                ).len(),
            decreases n - j,
        {
            match cursor_col {
                Some(c) => {
                    if c == j {
                        found = Some(out.len());
                    }
                },
                None => {},
            }
            let ch = row.get(j);
            if ch.ch != '\0' {
                out.push(ch);
            }
            assert(row@.take(j + 1).drop_last() =~= row@.take(j as int));
            j += 1;
        }
        assert(row@.take(n as int) =~= row@);
        found
    }

    /// The buffer's text as logical lines (see [`logical_lines`]), and the
    /// saved cursor mapped onto them (see [`logical_cursor`]).
    fn as_history(&self) -> (r: (Vec<Vec<Char>>, CursorPosition))
        requires
            self.wf(),
        ensures
            nested(r.0@) == logical_lines(self.history(), self.screen()),
            r.1 == logical_cursor(self.history(), self.screen(), self.saved()),
    {
        let mut strings: Vec<Vec<Char>> = Vec::new();
        let mut string: Vec<Char> = Vec::new();
        let hn = self.lines.len();
        let mut i: usize = 0;
        while i < hn
            invariant
                self.wf(),
                hn == self.lines@.len(),
                i <= hn,
                (nested(strings@), string@) == gather(self.history().take(i as int)),
            decreases hn - i,
        {
            let line = &self.lines[i];
            let _ = Self::push_text(&mut string, &line.chars, None);
            let ghost prev_strings = strings@;
            if line.endl {
                strings.push(string);
                string = Vec::new();
                assert(nested(strings@) =~= nested(prev_strings).push(gather(self.history().take(i as int)).1 + text(line.chars@)));
            }
            proof {
                assert(self.history().take(i + 1).drop_last() =~= self.history().take(i as int));
                assert(self.history().take(i + 1).last() == state_of(*line));
            }
            assert(string@ =~= gather(self.history().take(i + 1)).1);
            i += 1;
        }
        assert(self.history().take(hn as int) =~= self.history());
        let saved = self.saved_cursor_pos;
        let mut pos = saved;
        let sn = self.buffer.len();
        let mut i: usize = 0;
        while i < sn
            invariant
                self.wf(),
                sn == self.buffer@.len(),
                i <= sn,
                saved == self.saved_cursor_pos,
                (nested(strings@), string@) == gather(self.history() + self.screen().take(i as int)),
                pos == if (saved.row as int) < i {
                    logical_cursor(self.history(), self.screen(), saved)
                } else {
                    saved
                },
            decreases sn - i,
        {
            let line = &self.buffer[i];
            let ghost before = gather(self.history() + self.screen().take(i as int));
            let hit = saved.row as usize == i;
            if hit {
                assert(nested(strings@).len() == strings@.len());
                pos.row = strings.len() as u32;
            }
            let found = Self::push_text(&mut string, &line.chars, if hit { Some(saved.col as usize) } else { None });
            match found {
                Some(c) => {
                    pos.col = c as u32;
                },
                None => {},
            }
            let ghost prev_strings = strings@;
            if line.endl {
                strings.push(string);
                string = Vec::new();
                assert(nested(strings@) =~= nested(prev_strings).push(before.1 + text(line.chars@)));
            }
            proof {
                assert((self.history() + self.screen().take(i + 1)).drop_last() =~= self.history() + self.screen().take(i as int));
                assert((self.history() + self.screen().take(i + 1)).last() == state_of(*line));
                if hit {
                    assert(self.screen().take(i as int) == self.screen().take(saved.row as int));
                    assert(self.screen()[i as int].0 == line.chars@);
                }
            }
            assert(string@ =~= gather(self.history() + self.screen().take(i + 1)).1);
            i += 1;
        }
        assert(self.screen().take(sn as int) =~= self.screen());
        let ghost prev_strings = strings@;
        strings.push(string);
        assert(nested(strings@) =~= nested(prev_strings).push(gather(self.history() + self.screen()).1));
        (strings, pos)
    }

    /// Writes `c` at column `k` of `chars` and placeholders after it, within
    /// the line (see [`placed`]).
    fn place(chars: &mut CharVec, w: usize, k: u64, c: Char)
        requires
            old(chars)@.len() == w,
            w <= u32::MAX,
        ensures
            final(chars)@ == placed(old(chars)@, k as int, c),
    {
        if k < w as u64 {
            chars.set(k as usize, c);
            let ph = c.as_placeholder();
            let mut t: u64 = 1;
            while t < c.width as u64
                invariant
                    k < w,
                    w <= u32::MAX,
                    1 <= t <= 256,
                    t <= (if c.width >= 1 { c.width as u64 } else { 1u64 }),
                    chars@.len() == w,
                    ph == held(c),
                    chars@ == Seq::new(
                        w as nat,
                        |i: int| if i == k { c } else if k < i < k + t { held(c) } else { old(chars)@[i] },
                    ),
                decreases c.width - t,
            {
                if k + t < w as u64 {
                    chars.set((k + t) as usize, ph);
                }
                t += 1;
                assert(chars@ =~= Seq::new(
                    w as nat,
                    |i: int| if i == k { c } else if k < i < k + t { held(c) } else { old(chars)@[i] },
                ));
            }
            assert(chars@ =~= placed(old(chars)@, k as int, c));
        } else {
            assert(chars@ =~= placed(old(chars)@, k as int, c));
        }
    }

    /// Lays out one logical line after `lines` (see [`lay_chars`]); returns
    /// the open line, its column and the recorded cursor.
    fn lay_one(
        s: &Vec<Char>,
        w: u32,
        fill: Char,
        lines: &mut Vec<Line>,
        hit: bool,
        col: u32,
        pos: (u32, u32),
    ) -> (r: (Line, u64, (u32, u32)))
        requires
            w >= 1,
            forall|i: int| 0 <= i < old(lines)@.len() ==> (#[trigger] old(lines)@[i]).chars@.len() == w,
        ensures
            forall|i: int| 0 <= i < final(lines)@.len() ==> (#[trigger] final(lines)@[i]).chars@.len() == w,
            r.0.chars@.len() == w,
            !r.0.endl && r.0.dirty && r.0.all_dirty,
            ({
                let e = lay_chars(
                    s@,
                    0,
                    w as int,
                    fill,
                    old(lines)@.map_values(|l: Line| state_of(l)),
                    Seq::new(w as nat, |_t: int| fill),
                    0,
                    hit,
                    col as int,
                    pos,
                );
                &&& final(lines)@.map_values(|l: Line| state_of(l)) == e.0
                &&& r.0.chars@ == e.1
                &&& r.1 == e.2
                &&& r.2 == e.3
            }),
    {
        let ghost goal = lay_chars(
            s@,
            0,
            w as int,
            fill,
            old(lines)@.map_values(|l: Line| state_of(l)),
            Seq::new(w as nat, |_t: int| fill),
            0,
            hit,
            col as int,
            pos,
        );
        let mut line = Line::new(fill, w as usize);
        let mut k: u64 = 0;
        let mut p = pos;
        let n = s.len();
        let mut j: usize = 0;
        assert(line.chars@ =~= Seq::new(w as nat, |_t: int| fill));
        while j < n
            invariant
                w >= 1,
                n == s@.len(),
                j <= n,
                k <= w + 256 * j,
                line.chars@.len() == w,
                !line.endl && line.dirty && line.all_dirty,
                forall|i: int| 0 <= i < lines@.len() ==> (#[trigger] lines@[i]).chars@.len() == w,
                lay_chars(
                    s@,
                    j as int,
                    w as int,
                    fill,
                    lines@.map_values(|l: Line| state_of(l)),
                    line.chars@,
                    k as int,
                    hit,
                    col as int,
                    p,
                ) == goal,
            decreases n - j,
        {
            let c = s[j];
            let wu = w as u64;
            let ghost lines_before = lines@.map_values(|l: Line| state_of(l));
            let ghost line_before = line.chars@;
            let wrap = k > wu || c.width as u64 > wu - k;
            if wrap {
                let mut full = Line::new(fill, w as usize);
                core::mem::swap(&mut full, &mut line);
                lines.push(full);
                k = 0;
                proof {
                    assert(lines@.map_values(|l: Line| state_of(l)) =~= lines_before.push((line_before, false, true, true)));
                    assert(line.chars@ =~= Seq::new(w as nat, |_t: int| fill));
                }
            }
            if hit && j == col as usize {
                p = (lines.len() as u32, k as u32);
                assert(lines@.map_values(|l: Line| state_of(l)).len() == lines@.len());
            }
            Self::place(&mut line.chars, w as usize, k, c);
            k = k + c.width as u64;
            j += 1;
        }
        (line, k, p)
    }

    /// Lays out all logical lines (see [`lay_strings`]).
    fn lay_all(strings: &Vec<Vec<Char>>, cursor: CursorPosition, w: u32, fill: Char) -> (r: (Vec<Line>, (u32, u32)))
        requires
            w >= 1,
        ensures
            forall|i: int| 0 <= i < r.0@.len() ==> (#[trigger] r.0@[i]).chars@.len() == w,
            (r.0@.map_values(|l: Line| state_of(l)), r.1) == lay_strings(
                nested(strings@),
                0,
                w as int,
                fill,
                cursor,
                Seq::empty(),
                (0u32, 0u32),
            ),
    {
        let ghost goal = lay_strings(nested(strings@), 0, w as int, fill, cursor, Seq::empty(), (0u32, 0u32));
        let mut lines: Vec<Line> = Vec::new();
        let mut pos: (u32, u32) = (0, 0);
        let n = strings.len();
        let mut i: usize = 0;
        assert(lines@.map_values(|l: Line| state_of(l)) =~= Seq::<LineState>::empty());
        while i < n
            invariant
                w >= 1,
                n == strings@.len(),
                i <= n,
                forall|t: int| 0 <= t < lines@.len() ==> (#[trigger] lines@[t]).chars@.len() == w,
                lay_strings(
                    nested(strings@),
                    i as int,
                    w as int,
                    fill,
                    cursor,
                    lines@.map_values(|l: Line| state_of(l)),
                    pos,
                ) == goal,
            decreases n - i,
        {
            let s = &strings[i];
            assert(nested(strings@)[i as int] == s@);
            let (mut line, _k, p) = Self::lay_one(s, w, fill, &mut lines, i == cursor.row as usize, cursor.col, pos);
            pos = if cursor.col >= s.len() as u32 {
                assert(lines@.map_values(|l: Line| state_of(l)).len() == lines@.len());
                (lines.len() as u32, s.len() as u32)
            } else {
                p
            };
            line.endl = true;
            let ghost before = lines@;
            lines.push(line);
            assert(lines@.map_values(|l: Line| state_of(l)) =~= before.map_values(|l: Line| state_of(l)).push(
                state_of(line),
            ));
            i += 1;
        }
        (lines, pos)
    }

    /// Rebuilds history and screen from logical lines at the current width
    /// and height (see [`relaid`]), placing the saved cursor.
    fn set_history(&mut self, strings: Vec<Vec<Char>>, pos: CursorPosition, fill: Char)
        requires
            old(self).width >= 1,
            old(self).height >= 1,
            old(self).max_lines + old(self).height <= u32::MAX,
            strings@.len() >= 1,
        ensures
            final(self).wf(),
            (final(self).history(), final(self).screen(), final(self).saved()) == relaid(
                nested(strings@),
                pos,
                old(self).width,
                old(self).height,
                old(self).max_lines,
                fill,
            ),
            final(self).width == old(self).width,
            final(self).height == old(self).height,
            final(self).max_lines == old(self).max_lines,
            final(self).viewport == old(self).viewport,
    {
        let w = self.width;
        let h = self.height;
        let ghost goal = relaid(nested(strings@), pos, w, h, self.max_lines, fill);
        let ghost r = lay_strings(nested(strings@), 0, w as int, fill, pos, Seq::empty(), (0u32, 0u32));
        let (mut lines, mut p) = Self::lay_all(&strings, pos, w, fill);
        proof {
            lemma_lay_strings_grows(nested(strings@), 0, w as int, fill, pos, Seq::empty(), (0u32, 0u32));
        }
        assert(lines@.len() >= 1);
        let ghost l0 = lines@.map_values(|l: Line| state_of(l));
        let mut last = lines.pop().unwrap();
        last.endl = false;
        lines.push(last);
        let ghost last_i = l0.len() - 1;
        let ghost l1 = l0.update(last_i, (l0[last_i].0, false, l0[last_i].2, l0[last_i].3));
        assert(lines@.map_values(|l: Line| state_of(l)) =~= l1);
        let cap = (self.max_lines + h) as usize;
        let ghost d: int = if l1.len() > cap { l1.len() - cap } else { 0 };
        if lines.len() > cap {
            let dd = lines.len() - cap;
            p.0 = if p.0 as usize >= dd { p.0 - dd as u32 } else { 0 };
            let ghost before = lines@;
            let tail = lines.split_off(dd);
            lines = tail;
            assert(lines@.map_values(|l: Line| state_of(l)) =~= l1.skip(d));
        } else {
            assert(l1.skip(0) =~= l1);
        }
        let ghost l2 = l1.skip(d);
        let ghost prow: int = if r.1.0 >= d { r.1.0 - d } else { 0 };
        assert(p.0 == prow);
        let ghost blank = blank_line(fill, w as nat);
        let ghost padded = if l2.len() < h {
            l2 + Seq::new((h - l2.len()) as nat, |_t: int| blank)
        } else {
            l2
        };
        while lines.len() < h as usize
            invariant
                l2.len() <= lines@.len(),
                l2.len() < h ==> lines@.len() <= h,
                padded == if l2.len() < h { l2 + Seq::new((h - l2.len()) as nat, |_t: int| blank) } else { l2 },
                blank == blank_line(fill, w as nat),
                lines@.map_values(|l: Line| state_of(l)) == (if l2.len() < h {
                    l2 + Seq::new((lines@.len() - l2.len()) as nat, |_t: int| blank)
                } else {
                    l2
                }),
                forall|t: int| 0 <= t < lines@.len() ==> (#[trigger] lines@[t]).chars@.len() == w,
            decreases h - lines@.len(),
        {
            let ghost before = lines@;
            let nl = Line::new(fill, w as usize);
            lines.push(nl);
            proof {
                assert(lines@.map_values(|l: Line| state_of(l)) =~= before.map_values(|l: Line| state_of(l)).push(state_of(nl)));
                assert(state_of(nl) == blank);
                assert(l2 + Seq::new((lines@.len() - l2.len()) as nat, |_t: int| blank) =~= (l2 + Seq::new(
                    (before.len() - l2.len()) as nat,
                    |_t: int| blank,
                )).push(blank));
            }
        }
        assert(lines@.map_values(|l: Line| state_of(l)) =~= padded);
        let total = lines.len();
        if total > h as usize {
            let n = total - h as usize;
            let screen = lines.split_off(n);
            let row = if p.0 as usize >= n { p.0 - n as u32 } else { 0 };
            let mut hist: VecDeque<Line> = VecDeque::new();
            let ghost full = lines@;
            while lines.len() > 0
                invariant
                    lines@.len() <= full.len(),
                    lines@ == full.take(lines@.len() as int),
                    hist@ == full.skip(lines@.len() as int),
                decreases lines@.len(),
            {
                let l = lines.pop().unwrap();
                hist.push_front(l);
                assert(hist@ =~= full.skip(lines@.len() as int));
                assert(lines@ =~= full.take(lines@.len() as int));
            }
            assert(full.skip(0) =~= full);
            self.lines = hist;
            self.buffer = screen;
            self.saved_cursor_pos = CursorPosition { row, col: p.1 };
            assert(self.history() =~= padded.take(n as int));
            assert(self.screen() =~= padded.skip(n as int));
        } else {
            self.lines = VecDeque::new();
            self.buffer = lines;
            self.saved_cursor_pos = CursorPosition { row: p.0, col: p.1 };
            assert(self.history() =~= Seq::<LineState>::empty());
        }
    }

    /// Changes the size to `width` by `height`: the text is collected into
    /// logical lines and laid out again at the new width (see [`relaid`]),
    /// the saved cursor following its character, and the view returns to
    /// the newest lines.
    pub fn resize(&mut self, width: u32, height: u32, fill: Char)
        requires
            old(self).wf(),
            width >= 1,
            height >= 1,
            old(self).capacity() + height <= u32::MAX,
        ensures
            final(self).wf(),
            final(self).cols() == width && final(self).rows() == height,
            final(self).capacity() == old(self).capacity(),
            (final(self).history(), final(self).screen(), final(self).saved()) == relaid(
                logical_lines(old(self).history(), old(self).screen()),
                logical_cursor(old(self).history(), old(self).screen(), old(self).saved()),
                width,
                height,
                old(self).capacity(),
                fill,
            ),
            final(self).view_top() == final(self).history().len(),
    {
        let (strings, pos) = self.as_history();
        assert(nested(strings@).len() == strings@.len());
        self.width = width;
        self.height = height;
        self.set_history(strings, pos, fill);
        self.viewport = self.lines.len() as u32;
    }
}

/// Laying out logical lines never removes lines, and adds one for each.
proof fn lemma_lay_strings_grows(
    strings: Seq<Seq<Char>>,
    i: int,
    w: int,
    fill: Char,
    cursor: CursorPosition,
    lines: Seq<LineState>,
    pos: (u32, u32),
)
    requires
        0 <= i <= strings.len(),
    ensures
        lay_strings(strings, i, w, fill, cursor, lines, pos).0.len() >= lines.len() + (strings.len() - i),
    decreases strings.len() - i,
{
    if i < strings.len() {
        let s = strings[i];
        let r = lay_chars(s, 0, w, fill, lines, Seq::new(w as nat, |_t: int| fill), 0, i == cursor.row, cursor.col as int, pos);
        lemma_lay_chars_grows(s, 0, w, fill, lines, Seq::new(w as nat, |_t: int| fill), 0, i == cursor.row, cursor.col as int, pos);
        let pos2 = if cursor.col >= s.len() as u32 { (r.0.len() as u32, s.len() as u32) } else { r.3 };
        lemma_lay_strings_grows(strings, i + 1, w, fill, cursor, r.0.push((r.1, true, true, true)), pos2);
    }
}

/// Laying out characters never removes lines.
proof fn lemma_lay_chars_grows(
    s: Seq<Char>,
    j: int,
    w: int,
    fill: Char,
    lines: Seq<LineState>,
    line: Seq<Char>,
    k: int,
    hit: bool,
    col: int,
    pos: (u32, u32),
)
    ensures
        lay_chars(s, j, w, fill, lines, line, k, hit, col, pos).0.len() >= lines.len(),
    decreases s.len() - j,
{
    if 0 <= j < s.len() {
        let c = s[j];
        let wrap = k + c.width > w;
        let lines1 = if wrap { lines.push((line, false, true, true)) } else { lines };
        let line1 = if wrap { Seq::new(w as nat, |_t: int| fill) } else { line };
        let k1 = if wrap { 0 } else { k };
        let pos1 = if hit && j == col { (lines1.len() as u32, k1 as u32) } else { pos };
        lemma_lay_chars_grows(s, j + 1, w, fill, lines1, placed(line1, k1, c), k1 + c.width, hit, col, pos1);
    }
}

} // verus!
