//! The terminal's character buffer: the primary and the alternate screen,
//! the cursor, line wrapping and the scroll region.

use vstd::prelude::*;

use crate::alternate::{alt_snapshot, region_scrolled, resize_scroll, resized_rows, Alternate};
use crate::cell::{empty_char, Char};
use crate::primary::{
    blank_line, lines_text, logical_cursor, logical_lines, relaid, scrolled_down, scrolled_region, scrolled_up, LineState,
    Primary,
};
use crate::row::{cleaned, row_with};
use crate::types::{AutoWrap, BufMode, Cursor, CursorPosition, CursorShape};

verus! {

/// The primary screen as plain values.
pub struct MainView {
    /// The visible lines.
    pub screen: Seq<LineState>,
    /// The history, oldest first.
    pub history: Seq<LineState>,
    /// Width in cells.
    pub cols: u32,
    /// Height in lines.
    pub rows: u32,
    /// The most lines the history keeps.
    pub capacity: u32,
    /// The history line at the top of the view.
    pub top: u32,
    /// The saved cursor.
    pub saved: CursorPosition,
}

/// The alternate screen as plain values.
pub struct AltView {
    /// The rows.
    pub rows: Seq<Seq<Char>>,
    /// Per row: some cell changed.
    pub dirty: Seq<bool>,
    /// Per row: the whole row changed.
    pub all_dirty: Seq<bool>,
    /// Width in cells.
    pub cols: u32,
    /// Height in rows.
    pub lines: u32,
    /// The saved cursor.
    pub saved: CursorPosition,
    /// Whether it is sized.
    pub ready: bool,
}

/// The terminal buffer as plain values.
pub struct BufferView {
    /// The primary screen.
    pub main: MainView,
    /// The alternate screen.
    pub alt: AltView,
    /// Whether the alternate screen is active.
    pub in_alt: bool,
    /// The cursor.
    pub cursor: Cursor,
    /// Whether the next character wraps first.
    pub wrap_next: bool,
    /// The wrap mode.
    pub auto_wrap: AutoWrap,
    /// The scroll region, when set.
    pub region: Option<core::ops::Range<u32>>,
    /// Width in cells.
    pub cols: u32,
    /// Height in cells.
    pub rows: u32,
    /// Cell width and height in pixels, and whether a font fixed them.
    pub font: (u32, u32, bool),
    /// The frame buffering mode.
    pub frames: BufMode,
}

/// The plain values of a primary screen.
pub open spec fn main_view(p: Primary) -> MainView {
    MainView {
        screen: p.screen(),
        history: p.history(),
        cols: p.cols(),
        rows: p.rows(),
        capacity: p.capacity(),
        top: p.view_top(),
        saved: p.saved(),
    }
}

/// The plain values of an alternate screen.
pub open spec fn alt_view(a: Alternate) -> AltView {
    AltView {
        rows: a.rows(),
        dirty: a.dirty(),
        all_dirty: a.all_dirty(),
        cols: a.cols(),
        lines: a.lines(),
        saved: a.saved(),
        ready: a.ready(),
    }
}

/// The rows that scrolling moves: the scroll region, or the screen.
pub open spec fn span_of(v: BufferView) -> (u32, u32) {
    match v.region {
        Some(r) => (r.start, r.end),
        None => (0, v.rows),
    }
}

/// Writing `cell` at column `x` of row `y` of the active screen.
#[verifier::opaque]
pub open spec fn set_model(v: BufferView, x: int, y: int, cell: Char) -> BufferView {
    if v.in_alt {
        BufferView {
            alt: AltView {
                rows: v.alt.rows.update(y, row_with(v.alt.rows[y], x, cell)),
                dirty: v.alt.dirty.update(y, true),
                ..v.alt
            },
            ..v
        }
    } else {
        let l = v.main.screen[y];
        BufferView {
            main: MainView { screen: v.main.screen.update(y, (row_with(l.0, x, cell), l.1, true, l.3)), ..v.main },
            ..v
        }
    }
}

/// Taking the change mark off the cell at column `x` of row `y` of the active
/// screen.
#[verifier::opaque]
pub open spec fn clean_model(v: BufferView, x: int, y: int) -> BufferView {
    if v.in_alt {
        BufferView {
            alt: AltView { rows: v.alt.rows.update(y, v.alt.rows[y].update(x, cleaned(v.alt.rows[y][x]))), ..v.alt },
            ..v
        }
    } else {
        let l = v.main.screen[y];
        BufferView {
            main: MainView { screen: v.main.screen.update(y, (l.0.update(x, cleaned(l.0[x])), l.1, l.2, l.3)), ..v.main },
            ..v
        }
    }
}

/// Taking a change mark off changes that one cell of the active screen and
/// nothing but the screens.
pub proof fn law_clean_model(v: BufferView, x: int, y: int)
    requires
        0 <= y < view_cells(v).len(),
        0 <= x < view_cells(v)[y].len(),
    ensures
        same_frame(v, clean_model(v, x, y)),
        view_cells(clean_model(v, x, y)) == view_cells(v).update(y, view_cells(v)[y].update(x, cleaned(view_cells(v)[y][x]))),
{
    reveal(clean_model);
    let w = clean_model(v, x, y);
    if !v.in_alt {
        assert(view_cells(w) =~= view_cells(v).update(y, view_cells(v)[y].update(x, cleaned(view_cells(v)[y][x]))));
    }
}

/// The place in reading order of the cell at column `x`, row `y` of a
/// screen `cols` cells wide.
pub open spec fn cell_at(y: int, cols: int, x: int) -> int {
    y * cols + x
}

/// Row `y` of a screen `cols` cells wide with the change marks taken off
/// its cells that come before cell `k` in reading order.
pub open spec fn clean_row(row: Seq<Char>, y: int, cols: int, k: int) -> Seq<Char> {
    Seq::new(row.len(), |x: int| if cell_at(y, cols, x) < k { cleaned(row[x]) } else { row[x] })
}

/// The buffer with the change marks taken off the cells of the active
/// screen that come before cell `k` in reading order.
pub open spec fn cleaned_upto(v: BufferView, k: int) -> BufferView {
    if v.in_alt {
        BufferView {
            alt: AltView {
                rows: Seq::new(v.alt.rows.len(), |y: int| clean_row(v.alt.rows[y], y, v.cols as int, k)),
                ..v.alt
            },
            ..v
        }
    } else {
        BufferView {
            main: MainView {
                screen: Seq::new(
                    v.main.screen.len(),
                    |y: int|
                        {
                            let l = v.main.screen[y];
                            (clean_row(l.0, y, v.cols as int, k), l.1, l.2, l.3)
                        },
                ),
                ..v.main
            },
            ..v
        }
    }
}

/// The buffer with the change marks taken off every cell of the active
/// screen.
pub open spec fn cleaned_screen(v: BufferView) -> BufferView {
    cleaned_upto(v, v.cols * v.rows)
}

/// Before any cell, nothing is cleaned; taking the mark off cell `k` (or
/// passing it when it has none) cleans up to the next cell; the active
/// cells are the original ones, cleaned before `k`; nothing but the screens
/// changes.
#[verifier::spinoff_prover]
pub proof fn law_cleaned_upto(v: BufferView, k: int)
    requires
        0 <= k < v.cols * v.rows,
        v.cols >= 1,
        view_cells(v).len() == v.rows,
        forall|y: int| 0 <= y < v.rows ==> (#[trigger] view_cells(v)[y]).len() == v.cols,
    ensures
        cleaned_upto(v, 0) == v,
        same_frame(v, cleaned_upto(v, k)),
        view_cells(cleaned_upto(v, k)).len() == v.rows,
        forall|y: int, x: int|
            0 <= y < v.rows && 0 <= x < v.cols ==> #[trigger] view_cells(cleaned_upto(v, k))[y][x] == if cell_at(
                y,
                v.cols as int,
                x,
            ) < k {
                cleaned(view_cells(v)[y][x])
            } else {
                view_cells(v)[y][x]
            },
        clean_model(cleaned_upto(v, k), k % v.cols as int, k / v.cols as int) == cleaned_upto(v, k + 1),
        !view_cells(v)[k / v.cols as int][k % v.cols as int].dirty ==> cleaned_upto(v, k) == cleaned_upto(v, k + 1),
{
    reveal(clean_model);
    let cols = v.cols as int;
    let (x0, y0) = (k % cols, k / cols);
    vstd::arithmetic::div_mod::lemma_fundamental_div_mod(k, cols);
    assert(0 <= y0 < v.rows) by (nonlinear_arith)
        requires
            k == cols * y0 + x0,
            0 <= x0 < cols,
            0 <= k < cols * v.rows,
    ;
    assert forall|y: int, x: int| #![trigger cell_at(y, cols, x)] 0 <= x < cols && 0 <= y implies {
        &&& (cell_at(y, cols, x) == k <==> (y == y0 && x == x0))
        &&& cell_at(y, cols, x) >= 0
    } by {
        assert(cell_at(y, cols, x) == k <==> (y == y0 && x == x0)) by (nonlinear_arith)
            requires
                cell_at(y, cols, x) == y * cols + x,
                k == cols * y0 + x0,
                0 <= x < cols,
                0 <= x0 < cols,
        ;
        assert(0 <= y * cols) by (nonlinear_arith)
            requires
                0 <= y,
                0 <= cols,
        ;
    }
    let w0 = cleaned_upto(v, 0);
    let wk = cleaned_upto(v, k);
    let wk1 = cleaned_upto(v, k + 1);
    if v.in_alt {
        assert forall|y: int| 0 <= y < v.rows implies #[trigger] clean_row(v.alt.rows[y], y, cols, 0) == v.alt.rows[y] by {
            assert(clean_row(v.alt.rows[y], y, cols, 0) =~= v.alt.rows[y]);
        }
        assert(w0.alt.rows =~= v.alt.rows);
        assert(w0.alt == v.alt);
        let c = clean_model(wk, x0, y0);
        assert forall|y: int| 0 <= y < v.rows implies #[trigger] c.alt.rows[y] == wk1.alt.rows[y] by {
            assert(c.alt.rows[y] =~= wk1.alt.rows[y]);
        }
        assert(c.alt.rows =~= wk1.alt.rows);
        if !view_cells(v)[y0][x0].dirty {
            assert forall|y: int| 0 <= y < v.rows implies #[trigger] wk.alt.rows[y] == wk1.alt.rows[y] by {
                assert(wk.alt.rows[y] =~= wk1.alt.rows[y]);
            }
            assert(wk.alt.rows =~= wk1.alt.rows);
        }
    } else {
        assert forall|y: int| 0 <= y < v.rows implies #[trigger] w0.main.screen[y] == v.main.screen[y] by {
            assert(view_cells(v)[y] == v.main.screen[y].0);
            assert(clean_row(v.main.screen[y].0, y, cols, 0) =~= v.main.screen[y].0);
        }
        assert(w0.main.screen =~= v.main.screen);
        assert(w0.main == v.main);
        let c = clean_model(wk, x0, y0);
        assert forall|y: int| 0 <= y < v.rows implies #[trigger] c.main.screen[y] == wk1.main.screen[y] by {
            assert(view_cells(v)[y] == v.main.screen[y].0);
            assert(c.main.screen[y].0 =~= wk1.main.screen[y].0);
        }
        assert(c.main.screen =~= wk1.main.screen);
        if !view_cells(v)[y0][x0].dirty {
            assert forall|y: int| 0 <= y < v.rows implies #[trigger] wk.main.screen[y] == wk1.main.screen[y] by {
                assert(view_cells(v)[y] == v.main.screen[y].0);
                assert(wk.main.screen[y].0 =~= wk1.main.screen[y].0);
            }
            assert(wk.main.screen =~= wk1.main.screen);
        }
        assert forall|y: int| 0 <= y < v.rows implies #[trigger] view_cells(wk)[y] == clean_row(view_cells(v)[y], y, cols, k) by {
            assert(view_cells(v)[y] == v.main.screen[y].0);
        }
    }
}

/// After a flush, every character of the active screen has its change
/// mark taken off and is otherwise what it was; nothing but the screens
/// changes.
pub proof fn law_flush_clears_marks(v: BufferView)
    requires
        v.cols >= 1,
        view_cells(v).len() == v.rows,
        forall|y: int| 0 <= y < v.rows ==> (#[trigger] view_cells(v)[y]).len() == v.cols,
    ensures
        same_frame(v, cleaned_screen(v)),
        view_cells(cleaned_screen(v)).len() == v.rows,
        forall|y: int, x: int|
            0 <= y < v.rows && 0 <= x < v.cols ==> #[trigger] view_cells(cleaned_screen(v))[y][x] == cleaned(
                view_cells(v)[y][x],
            ) && !view_cells(cleaned_screen(v))[y][x].dirty,
{
    let cols = v.cols as int;
    let w = cleaned_screen(v);
    assert forall|y: int, x: int| #![trigger cell_at(y, cols, x)] 0 <= y < v.rows && 0 <= x < cols implies cell_at(y, cols, x)
        < cols * v.rows by {
        assert(y * cols + x < cols * v.rows) by (nonlinear_arith)
            requires
                0 <= y < v.rows,
                0 <= x < cols,
        ;
    }
    if !v.in_alt {
        assert forall|y: int| 0 <= y < v.rows implies #[trigger] view_cells(w)[y] == clean_row(view_cells(v)[y], y, cols, cols * v.rows) by {
            assert(view_cells(v)[y] == v.main.screen[y].0);
        }
    }
    assert forall|y: int, x: int| 0 <= y < v.rows && 0 <= x < v.cols implies #[trigger] view_cells(w)[y][x] == cleaned(
        view_cells(v)[y][x],
    ) by {
        assert(cell_at(y, cols, x) < cols * v.rows);
    }
}

/// The active screen as text: on the primary screen every character of
/// each line, with a newline after each line a newline ended, the history
/// first when `with_history`; on the alternate screen see [`alt_snapshot`].
pub open spec fn snapshot_text(v: BufferView, with_history: bool) -> Seq<char> {
    if v.in_alt {
        alt_snapshot(v.alt.rows, v.alt.lines as int, with_history)
    } else {
        (if with_history {
            lines_text(v.main.history)
        } else {
            Seq::empty()
        }) + lines_text(v.main.screen)
    }
}

/// Writing a cell at column `x` of a row leaves it there, keeps the row's
/// length, and with a narrow cell written over a narrow one changes nothing
/// else in the row.
pub proof fn law_row_with(row: Seq<Char>, x: int, c: Char)
    requires
        0 <= x < row.len(),
    ensures
        row_with(row, x, c).len() == row.len(),
        row_with(row, x, c)[x] == c,
        c.width <= 1 && row[x].width <= 1 && !crate::cell::spec_is_placeholder(row[x]) ==> row_with(row, x, c)
            == row.update(x, c),
{
    if c.width <= 1 && row[x].width <= 1 && !crate::cell::spec_is_placeholder(row[x]) {
        assert(row_with(row, x, c) =~= row.update(x, c));
    }
}

/// Reading a cell gives back what was written there: the written cell is at
/// its place, the screen keeps its shape, and the other rows do not change.
pub proof fn law_get_after_set(v: BufferView, x: int, y: int, c: Char)
    requires
        0 <= y < view_cells(v).len(),
        0 <= x < view_cells(v)[y].len(),
    ensures
        view_cells(set_model(v, x, y, c)).len() == view_cells(v).len(),
        view_cells(set_model(v, x, y, c))[y] == row_with(view_cells(v)[y], x, c),
        view_cells(set_model(v, x, y, c))[y][x] == c,
        forall|r: int|
            0 <= r < view_cells(v).len() && r != y ==> #[trigger] view_cells(set_model(v, x, y, c))[r] == view_cells(v)[r],
{
    reveal(set_model);
    law_row_with(view_cells(v)[y], x, c);
    let w = set_model(v, x, y, c);
    if !v.in_alt {
        assert(view_cells(w) =~= view_cells(v).update(y, row_with(view_cells(v)[y], x, c)));
    }
}

/// The text of a selection from `begin` to `end` of the active screen: see
/// [`crate::primary::main_text`] and [`crate::alternate::alt_text`].
pub open spec fn buffer_text(v: BufferView, begin: (u32, u32), end: (u32, u32)) -> Seq<char> {
    if v.in_alt {
        crate::alternate::alt_text(v.alt.rows, begin, end, end.1 as int)
    } else {
        crate::primary::main_text(v.main.screen, begin, end, end.1 as int)
    }
}

/// The selections the text of a screen can be read from: on the alternate
/// screen a non-empty rectangle lies within it; on the primary screen the
/// first line of the selection does not start past where it stops.
pub open spec fn selection_ok(v: BufferView, begin: (u32, u32), end: (u32, u32)) -> bool {
    if v.in_alt {
        begin.1 <= end.1 && begin.0 <= end.0 ==> end.0 < v.cols && end.1 < v.rows
    } else {
        begin.1 <= end.1 && begin.1 < v.rows ==> begin.0 <= crate::primary::select_stop(
            begin.1 as int,
            end,
            v.cols as int,
        )
    }
}

/// `w` differs from `v` in the screens' contents at most.
pub open spec fn same_frame(v: BufferView, w: BufferView) -> bool {
    &&& w.cursor == v.cursor && w.wrap_next == v.wrap_next && w.auto_wrap == v.auto_wrap
    &&& w.region == v.region && w.cols == v.cols && w.rows == v.rows && w.in_alt == v.in_alt
    &&& w.font == v.font && w.frames == v.frames
}

/// Writing a cell changes nothing but the screens.
pub proof fn lemma_set_model_frame(v: BufferView, x: int, y: int, cell: Char)
    ensures
        same_frame(v, set_model(v, x, y, cell)),
{
    reveal(set_model);
}

/// Writing cells changes nothing but the screens.
pub proof fn lemma_fill_cells_frame(v: BufferView, y: int, from: int, to: int, c: Char)
    ensures
        same_frame(v, fill_cells(v, y, from, to, c)),
    decreases to - from,
{
    if from < to {
        lemma_set_model_frame(v, from, y, c);
        lemma_fill_cells_frame(set_model(v, from, y, c), y, from + 1, to, c);
    }
}

/// Marking row `y` as ended by a newline (the alternate screen keeps no
/// such marks).
pub open spec fn endl_model(v: BufferView, y: int) -> BufferView {
    if v.in_alt {
        v
    } else {
        let l = v.main.screen[y];
        BufferView { main: MainView { screen: v.main.screen.update(y, (l.0, true, l.2, l.3)), ..v.main }, ..v }
    }
}

/// The cursor to the start of its line; no wrap pending.
pub open spec fn cr_model(v: BufferView) -> BufferView {
    BufferView { cursor: Cursor { pos: CursorPosition { col: 0, ..v.cursor.pos }, ..v.cursor }, wrap_next: false, ..v }
}

/// Scrolling the whole active screen by `count` lines (up for a positive
/// count), letting in blank lines of `fill`; the primary screen moves the
/// lines that leave at the top into its history.
pub open spec fn scroll_full_model(v: BufferView, count: int, fill: Char) -> BufferView {
    if v.in_alt {
        BufferView {
            alt: AltView {
                rows: region_scrolled(v.alt.rows, count, 0, v.alt.lines as int, Seq::new(v.alt.cols as nat, |_x: int| fill)),
                all_dirty: if count != 0 { Seq::new(v.alt.lines as nat, |_y: int| true) } else { v.alt.all_dirty },
                ..v.alt
            },
            ..v
        }
    } else if count > 0 {
        let r = scrolled_up(v.main.screen, v.main.history, v.main.capacity, blank_line(fill, v.main.cols as nat), count as nat);
        BufferView { main: MainView { screen: r.0, history: r.1, ..v.main }, ..v }
    } else if count < 0 {
        let h = v.main.history;
        BufferView {
            main: MainView {
                screen: scrolled_down(v.main.screen, (blank_line(fill, v.main.cols as nat).0, true, true, true), (-count) as nat),
                history: if h.len() > 0 { h.update(h.len() - 1, (h.last().0, true, h.last().2, h.last().3)) } else { h },
                ..v.main
            },
            ..v
        }
    } else {
        v
    }
}

/// Filling row `y` of the active screen with `fill`.
pub open spec fn clear_line_model(v: BufferView, y: int, fill: Char) -> BufferView {
    if v.in_alt {
        BufferView {
            alt: AltView {
                rows: v.alt.rows.update(y, Seq::new(v.alt.cols as nat, |_x: int| fill)),
                all_dirty: v.alt.all_dirty.update(y, true),
                ..v.alt
            },
            ..v
        }
    } else {
        BufferView {
            main: MainView { screen: v.main.screen.update(y, blank_line(fill, v.main.cols as nat)), ..v.main },
            ..v
        }
    }
}

/// Filling the active screen with `fill`; with `all`, the primary
/// screen's history is dropped too.
pub open spec fn clear_model(v: BufferView, fill: Char, all: bool) -> BufferView {
    if v.in_alt {
        BufferView {
            alt: AltView {
                rows: Seq::new(v.alt.lines as nat, |_y: int| Seq::new(v.alt.cols as nat, |_x: int| fill)),
                all_dirty: Seq::new(v.alt.lines as nat, |_y: int| true),
                ..v.alt
            },
            ..v
        }
    } else {
        BufferView {
            main: MainView {
                screen: Seq::new(v.main.rows as nat, |_y: int| blank_line(fill, v.main.cols as nat)),
                history: if all { Seq::empty() } else { v.main.history },
                ..v.main
            },
            ..v
        }
    }
}

/// Scrolling rows `start..end` of the active screen by `count` lines,
/// letting in blank lines of `fill`.
pub open spec fn scroll_partial_model(v: BufferView, count: int, fill: Char, start: int, end: int) -> BufferView {
    if v.in_alt {
        let amount = if count < 0 { -count } else { count };
        BufferView {
            alt: AltView {
                rows: region_scrolled(v.alt.rows, count, start, end, Seq::new(v.alt.cols as nat, |_x: int| fill)),
                all_dirty: if count == 0 {
                    v.alt.all_dirty
                } else if amount >= end - start {
                    Seq::new(v.alt.lines as nat, |y: int| if start <= y < end { true } else { v.alt.all_dirty[y] })
                } else {
                    Seq::new(v.alt.lines as nat, |_y: int| true)
                },
                ..v.alt
            },
            ..v
        }
    } else {
        BufferView {
            main: MainView {
                screen: scrolled_region(v.main.screen, count, start, end, blank_line(fill, v.main.cols as nat)),
                ..v.main
            },
            ..v
        }
    }
}

/// Scrolling the scroll region, or the whole screen when none is set.
pub open spec fn scroll_model(v: BufferView, count: int, fill: Char) -> BufferView {
    match v.region {
        Some(r) => scroll_partial_model(v, count, fill, r.start as int, r.end as int),
        None => scroll_full_model(v, count, fill),
    }
}

/// A line feed: the cursor's row is marked ended; at the bottom of the
/// scroll region the region scrolls up one line, otherwise the cursor moves
/// down unless it is on the last row.
#[verifier::opaque]
pub open spec fn lf_model(v: BufferView, fill: Char) -> BufferView {
    let e = endl_model(v, v.cursor.pos.row as int);
    if v.cursor.pos.row == span_of(v).1 - 1 {
        scroll_model(e, 1, fill)
    } else if v.cursor.pos.row < v.rows - 1 {
        BufferView { cursor: Cursor { pos: CursorPosition { row: (v.cursor.pos.row + 1) as u32, ..v.cursor.pos }, ..v.cursor }, ..e }
    } else {
        e
    }
}

/// A carriage return followed by a line feed.
#[verifier::opaque]
pub open spec fn newline_model(v: BufferView, fill: Char) -> BufferView {
    lf_model(cr_model(v), fill)
}

/// The cursor at column `col`.
pub open spec fn at_col(v: BufferView, col: int) -> BufferView {
    BufferView { cursor: Cursor { pos: CursorPosition { col: col as u32, ..v.cursor.pos }, ..v.cursor }, ..v }
}

/// The cells of the active screen, top row first.
pub open spec fn view_cells(v: BufferView) -> Seq<Seq<Char>> {
    if v.in_alt {
        v.alt.rows
    } else {
        v.main.screen.map_values(|l: LineState| l.0)
    }
}

/// The active cells agree with the model.
pub proof fn lemma_view_cells(v: BufferView)
    ensures
        view_cells(v) == if v.in_alt { v.alt.rows } else { v.main.screen.map_values(|l: LineState| l.0) },
{
}

/// Writing `c` at columns `from..to` of row `y`, left to right.
pub open spec fn fill_cells(v: BufferView, y: int, from: int, to: int, c: Char) -> BufferView
    decreases to - from,
{
    if from >= to {
        v
    } else {
        fill_cells(set_model(v, from, y, c), y, from + 1, to, c)
    }
}

/// Writing a narrow cell over the narrow cells `from..to` of row `y` puts
/// it in exactly those columns and changes no other cell of the screen.
pub proof fn lemma_fill_narrow(v: BufferView, y: int, from: int, to: int, c: Char)
    requires
        0 <= y < view_cells(v).len(),
        0 <= from,
        to <= view_cells(v)[y].len(),
        c.width <= 1,
        !crate::cell::spec_is_placeholder(c),
        forall|x: int|
            from <= x < to ==> #[trigger] view_cells(v)[y][x].width <= 1 && !crate::cell::spec_is_placeholder(
                view_cells(v)[y][x],
            ),
    ensures
        view_cells(fill_cells(v, y, from, to, c)).len() == view_cells(v).len(),
        view_cells(fill_cells(v, y, from, to, c))[y] == Seq::new(
            view_cells(v)[y].len(),
            |x: int| if from <= x < to { c } else { view_cells(v)[y][x] },
        ),
        forall|r: int|
            0 <= r < view_cells(v).len() && r != y ==> #[trigger] view_cells(fill_cells(v, y, from, to, c))[r]
                == view_cells(v)[r],
    decreases to - from,
{
    let row = view_cells(v)[y];
    if from < to {
        law_get_after_set(v, from, y, c);
        law_row_with(row, from, c);
        let v1 = set_model(v, from, y, c);
        assert(view_cells(v1)[y] == row.update(from, c));
        lemma_fill_narrow(v1, y, from + 1, to, c);
        assert(view_cells(fill_cells(v, y, from, to, c))[y] =~= Seq::new(
            row.len(),
            |x: int| if from <= x < to { c } else { row[x] },
        ));
    } else {
        assert(row =~= Seq::new(row.len(), |x: int| if from <= x < to { c } else { row[x] }));
    }
}

/// The buffer that [`TerminalBuffer::new`] creates: a primary screen of 80
/// by 24 empty cells with room for 1024 lines of history, no alternate
/// screen, a visible block cursor at the origin, delayed wrapping, no scroll
/// region and no font.
pub open spec fn initial_model(frames: BufMode) -> BufferView {
    BufferView {
        main: MainView {
            screen: Seq::new(24, |_i: int| blank_line(empty_char(), 80)),
            history: Seq::empty(),
            cols: 80,
            rows: 24,
            capacity: 1024,
            top: 0,
            saved: CursorPosition { col: 0, row: 0 },
        },
        alt: AltView {
            rows: Seq::empty(),
            dirty: Seq::empty(),
            all_dirty: Seq::empty(),
            cols: 0,
            lines: 0,
            saved: CursorPosition { col: 0, row: 0 },
            ready: false,
        },
        in_alt: false,
        cursor: Cursor { pos: CursorPosition { col: 0, row: 0 }, shape: CursorShape::Block, visible: true },
        wrap_next: false,
        auto_wrap: AutoWrap::Delayed,
        region: None,
        cols: 80,
        rows: 24,
        font: (0, 0, false),
        frames,
    }
}

/// Entering the alternate screen: a fresh screen of empty cells, the
/// cursor saved for the primary screen and put at the origin.
pub open spec fn enter_alt_model(v: BufferView) -> BufferView {
    BufferView {
        main: MainView { saved: v.cursor.pos, ..v.main },
        alt: AltView {
            rows: Seq::new(v.rows as nat, |_y: int| Seq::new(v.cols as nat, |_x: int| empty_char())),
            dirty: Seq::new(v.rows as nat, |_y: int| false),
            all_dirty: Seq::new(v.rows as nat, |_y: int| false),
            cols: v.cols,
            lines: v.rows,
            saved: CursorPosition { col: 0, row: 0 },
            ready: true,
        },
        in_alt: true,
        cursor: Cursor { pos: CursorPosition { col: 0, row: 0 }, ..v.cursor },
        wrap_next: false,
        ..v
    }
}

/// Leaving the alternate screen: it is released; when the primary screen
/// has another size than the terminal it is laid out again (see
/// [`relaid`]) and the cursor returns to the position saved for it,
/// otherwise the cursor stays.
pub open spec fn exit_alt_model(v: BufferView) -> BufferView {
    let released = AltView {
        rows: Seq::empty(),
        dirty: Seq::empty(),
        all_dirty: Seq::empty(),
        cols: 0,
        lines: 0,
        saved: CursorPosition { col: 0, row: 0 },
        ready: false,
    };
    if v.main.cols == v.cols && v.main.rows == v.rows {
        BufferView { alt: released, in_alt: false, ..v }
    } else {
        let r = relaid(
            logical_lines(v.main.history, v.main.screen),
            logical_cursor(v.main.history, v.main.screen, v.main.saved),
            v.cols,
            v.rows,
            v.main.capacity,
            empty_char(),
        );
        BufferView {
            main: MainView {
                history: r.0,
                screen: r.1,
                saved: r.2,
                cols: v.cols,
                rows: v.rows,
                capacity: v.main.capacity,
                top: r.0.len() as u32,
            },
            alt: AltView { saved: v.cursor.pos, ..released },
            in_alt: false,
            cursor: Cursor { pos: clamped(r.2, v.cols, v.rows), ..v.cursor },
            wrap_next: false,
            ..v
        }
    }
}

/// `p` moved onto a screen of `w` by `h` cells.
pub open spec fn clamped(p: CursorPosition, w: u32, h: u32) -> CursorPosition {
    CursorPosition {
        col: if p.col < w { p.col } else { (w - 1) as u32 },
        row: if p.row < h { p.row } else { (h - 1) as u32 },
    }
}

/// `f` is `v` after resizing to `w` by `h` cells: nothing changes when the
/// size stays; otherwise the active screen is resized (the primary screen
/// lays its text out again, see [`relaid`]; the alternate screen keeps its
/// rows, see [`resized_rows`]), the cursor follows the saved position moved
/// onto the new screen, no wrap is pending and the scroll region is gone.
pub open spec fn resized(v: BufferView, f: BufferView, w: u32, h: u32) -> bool {
    if w == v.cols && h == v.rows {
        f == v
    } else if v.in_alt {
        let dh = resize_scroll(v.alt.rows, v.alt.lines as int, h as int);
        let saved = CursorPosition {
            col: if v.cursor.pos.col < w - 1 { v.cursor.pos.col } else { (w - 1) as u32 },
            row: if v.cursor.pos.row >= dh { (v.cursor.pos.row - dh) as u32 } else { 0 },
        };
        &&& f.alt == (AltView {
            rows: resized_rows(v.alt.rows, v.alt.cols as int, v.alt.lines as int, w as int, h as int, empty_char()),
            dirty: Seq::new(h as nat, |y: int| if y < v.alt.lines { v.alt.dirty[y] } else { true }),
            all_dirty: Seq::new(h as nat, |y: int| if y < v.alt.lines { v.alt.all_dirty[y] } else { true }),
            cols: w,
            lines: h,
            saved,
            ready: true,
        })
        &&& f == (BufferView {
            alt: f.alt,
            cursor: Cursor { pos: clamped(saved, w, h), ..v.cursor },
            wrap_next: false,
            region: None,
            cols: w,
            rows: h,
            ..v
        })
    } else {
        let r = relaid(
            logical_lines(v.main.history, v.main.screen),
            logical_cursor(v.main.history, v.main.screen, v.cursor.pos),
            w,
            h,
            v.main.capacity,
            empty_char(),
        );
        &&& f.main == (MainView {
            history: r.0,
            screen: r.1,
            saved: r.2,
            cols: w,
            rows: h,
            capacity: v.main.capacity,
            top: r.0.len() as u32,
        })
        &&& f == (BufferView {
            main: f.main,
            cursor: Cursor { pos: clamped(r.2, w, h), ..v.cursor },
            wrap_next: false,
            region: None,
            cols: w,
            rows: h,
            ..v
        })
    }

}

/// A newline does not depend on the cursor's column.
pub proof fn lemma_newline_any_col(v: BufferView, col: int, fill: Char)
    ensures
        newline_model(at_col(v, col), fill) == newline_model(v, fill),
{
    reveal(newline_model);
    assert(cr_model(at_col(v, col)) == cr_model(v));
}

/// Before writing a cell of width `w`: a pending wrap goes to the next line;
/// a cell that does not fit in the rest of the line goes to the start of
/// the line (wrapping disabled) or of the next line.
pub open spec fn pre_put_model(v: BufferView, w: int, fill: Char) -> BufferView {
    let v1 = if v.wrap_next { newline_model(v, fill) } else { v };
    if v1.cursor.pos.col + w > v1.cols {
        if v1.auto_wrap == AutoWrap::Disabled { cr_model(v1) } else { newline_model(v1, fill) }
    } else {
        v1
    }
}

/// After writing a cell of width `w`: the cursor advances; when it reaches
/// the end of the line it returns to the start of the line (wrapping
/// disabled), goes to the next line (immediate wrapping), or stays on the
/// last column with a wrap pending (delayed wrapping).
pub open spec fn post_put_model(v: BufferView, w: int, fill: Char) -> BufferView {
    let col = v.cursor.pos.col + w;
    let v4 = at_col(v, col);
    if col >= v4.cols {
        match v4.auto_wrap {
            AutoWrap::Disabled => cr_model(v4),
            AutoWrap::Immediate => newline_model(v4, fill),
            AutoWrap::Delayed => BufferView { wrap_next: true, ..at_col(v4, v4.cols - 1) },
        }
    } else {
        v4
    }
}

/// Writing `cell` at the cursor, wrapping before and after it as the wrap
/// mode says.
pub open spec fn put_model(v: BufferView, cell: Char, fill: Char) -> BufferView {
    let v2 = pre_put_model(v, cell.width as int, fill);
    post_put_model(set_model(v2, v2.cursor.pos.col as int, v2.cursor.pos.row as int, cell), cell.width as int, fill)
}

/// The character buffer of a terminal.
pub struct TerminalBuffer {
    /// The primary screen and its history.
    primary: Primary,
    /// The alternate screen; sized only while it is active.
    alternate: Alternate,
    /// Whether the alternate screen is active.
    alt_screen_mode: bool,
    /// How previously drawn frames are kept.
    buf_mode: BufMode,
    /// Whether a font was added, which fixed the cell size.
    has_font: bool,
    /// Cell width in pixels.
    font_width: u32,
    /// Cell height in pixels.
    font_height: u32,
    /// Width in cells.
    width: u32,
    /// Height in cells.
    height: u32,
    /// Wrap to the next line before the next character.
    wrap_next: bool,
    /// What happens at the end of a line.
    auto_wrap: AutoWrap,
    /// The rows that scrolling moves, when not the whole screen.
    scroll_region: Option<core::ops::Range<u32>>,
    /// The cursor.
    cursor: Cursor,
}

impl TerminalBuffer {
    /// The buffer as plain values.
    pub closed spec fn model(&self) -> BufferView {
        BufferView {
            main: main_view(self.primary),
            alt: alt_view(self.alternate),
            in_alt: self.alt_screen_mode,
            cursor: self.cursor,
            wrap_next: self.wrap_next,
            auto_wrap: self.auto_wrap,
            region: self.scroll_region,
            cols: self.width,
            rows: self.height,
            font: (self.font_width, self.font_height, self.has_font),
            frames: self.buf_mode,
        }
    }
}

impl TerminalBuffer {
    /// The view agrees with the accessors.
    pub proof fn lemma_view(&self)
        ensures
            self.model().main == main_view(self.main_buf()),
            self.model().alt == alt_view(self.alt_buf()),
    {
    }

    /// The active screen has `rows()` rows of `cols()` cells.
    pub proof fn lemma_cells_shape(&self)
        requires
            self.wf(),
        ensures
            self.cells().len() == self.rows(),
            forall|y: int| 0 <= y < self.rows() ==> (#[trigger] self.cells()[y]).len() == self.cols(),
    {
        self.lemma_view();
        if self.in_alt() {
            self.alt_buf().lemma_shape();
        } else {
            self.main_buf().lemma_shape();
            assert forall|y: int| 0 <= y < self.rows() implies (#[trigger] self.cells()[y]).len() == self.cols() by {
                assert(self.cells()[y] == self.main_buf().screen()[y].0);
            }
        }
    }

    /// Width in cells.
    pub open spec fn cols(&self) -> u32 {
        self.model().cols
    }

    /// Height in cells.
    pub open spec fn rows(&self) -> u32 {
        self.model().rows
    }

    /// The cursor position.
    pub open spec fn pos(&self) -> CursorPosition {
        self.model().cursor.pos
    }

    /// The cursor.
    pub open spec fn cursor_state(&self) -> Cursor {
        self.model().cursor
    }

    /// Whether the next character wraps to the next line first.
    pub open spec fn wrap_pending(&self) -> bool {
        self.model().wrap_next
    }

    /// The wrap mode.
    pub open spec fn wrap_mode(&self) -> AutoWrap {
        self.model().auto_wrap
    }

    /// The scroll region, when set.
    pub open spec fn region(&self) -> Option<core::ops::Range<u32>> {
        self.model().region
    }

    /// The rows that scrolling moves: the scroll region, or the screen.
    pub open spec fn span(&self) -> (u32, u32) {
        match self.region() {
            Some(r) => (r.start, r.end),
            None => (0, self.rows()),
        }
    }

    /// Whether the alternate screen is active.
    pub open spec fn in_alt(&self) -> bool {
        self.model().in_alt
    }

    /// The primary screen.
    pub closed spec fn main_buf(&self) -> Primary {
        self.primary
    }

    /// The alternate screen.
    pub closed spec fn alt_buf(&self) -> Alternate {
        self.alternate
    }

    /// The cell size in pixels, and whether a font fixed it.
    pub open spec fn cell_size(&self) -> (u32, u32, bool) {
        self.model().font
    }

    /// The frame buffering mode.
    pub open spec fn frames(&self) -> BufMode {
        self.model().frames
    }

    /// The cells of the active screen, top row first.
    pub open spec fn cells(&self) -> Seq<Seq<Char>> {
        view_cells(self.model())
    }

    /// The size fits the cell arithmetic, the active screen has the size of
    /// the terminal, the cursor lies on it and the scroll region within it.
    pub open spec fn wf(&self) -> bool {
        &&& 1 <= self.cols() <= i32::MAX
        &&& 1 <= self.rows() <= i32::MAX
        &&& self.cols() * self.rows() <= usize::MAX
        &&& self.main_buf().wf()
        &&& self.alt_buf().wf()
        &&& self.main_buf().capacity() + self.rows() <= u32::MAX
        &&& !self.in_alt() ==> {
            &&& self.main_buf().cols() == self.cols()
            &&& self.main_buf().rows() == self.rows()
            &&& !self.alt_buf().ready()
        }
        &&& self.in_alt() ==> {
            &&& self.alt_buf().ready()
            &&& self.alt_buf().cols() == self.cols()
            &&& self.alt_buf().lines() == self.rows()
        }
        &&& self.pos().col < self.cols()
        &&& self.pos().row < self.rows()
        &&& self.region() is Some ==> self.region()->0.start < self.region()->0.end <= self.rows()
    }

    /// A buffer of 80 by 24 cells with 1024 lines of history, no font yet,
    /// the cursor visible at the origin, delayed wrapping and no scroll
    /// region.
    pub fn new(buf_mode: BufMode) -> (r: TerminalBuffer)
        ensures
            r.wf(),
            r.model() == initial_model(buf_mode),
            r.cols() == 80 && r.rows() == 24,
            !r.in_alt(),
            r.pos() == (CursorPosition { col: 0, row: 0 }),
            r.cursor_state().visible && r.cursor_state().shape == CursorShape::Block,
            !r.wrap_pending(),
            r.wrap_mode() == AutoWrap::Delayed,
            r.region() is None,
            r.cell_size() == (0u32, 0u32, false),
            r.frames() == buf_mode,
            r.main_buf().capacity() == 1024,
            r.main_buf().history().len() == 0,
            r.main_buf().screen() == Seq::new(24, |_i: int| blank_line(empty_char(), 80)),
    {
        let r = TerminalBuffer {
            primary: Primary::new(80, 24, 1024),
            alternate: Alternate::new(),
            alt_screen_mode: false,
            buf_mode,
            has_font: false,
            font_width: 0,
            font_height: 0,
            width: 80,
            height: 24,
            wrap_next: false,
            auto_wrap: AutoWrap::default(),
            scroll_region: None,
            cursor: Cursor::default(),
        };
        proof {
            r.primary.lemma_shape();
        }
        r
    }

    /// Width in cells.
    pub fn width(&self) -> (r: u32)
        ensures
            r == self.cols(),
    {
        self.width
    }

    /// Height in cells.
    pub fn height(&self) -> (r: u32)
        ensures
            r == self.rows(),
    {
        self.height
    }

    /// The cursor position.
    pub fn cursor(&self) -> (r: CursorPosition)
        ensures
            r == self.pos(),
    {
        self.cursor.pos
    }

    /// The cursor shape.
    pub fn cursor_shape(&self) -> (r: CursorShape)
        ensures
            r == self.cursor_state().shape,
    {
        self.cursor.shape
    }

    /// Whether the cursor is shown.
    pub fn cursor_visible(&self) -> (r: bool)
        ensures
            r == self.cursor_state().visible,
    {
        self.cursor.visible
    }

    /// Whether the next character wraps first.
    pub fn wrap_next(&self) -> (r: bool)
        ensures
            r == self.wrap_pending(),
    {
        self.wrap_next
    }

    /// The cell size in pixels.
    pub fn font_size(&self) -> (r: (u32, u32))
        ensures
            r == (self.cell_size().0, self.cell_size().1),
    {
        (self.font_width, self.font_height)
    }

    /// The wrap mode.
    pub fn auto_wrap(&self) -> (r: AutoWrap)
        ensures
            r == self.wrap_mode(),
    {
        self.auto_wrap
    }

    /// Whether the alternate screen is active.
    pub fn is_alternate(&self) -> (r: bool)
        ensures
            r == self.in_alt(),
    {
        self.alt_screen_mode
    }

    /// Whether a scroll region is set.
    pub fn has_scroll_region(&self) -> (r: bool)
        ensures
            r == self.region() is Some,
    {
        self.scroll_region.is_some()
    }

    /// The rows that scrolling moves: the scroll region, or the screen.
    pub fn scroll_region(&self) -> (r: core::ops::Range<u32>)
        ensures
            (r.start, r.end) == self.span(),
    {
        match &self.scroll_region {
            Some(r) => r.start..r.end,
            None => 0..self.height,
        }
    }

    /// Moves the cursor to (`col`, `row`), clamped to the screen; no wrap
    /// is pending afterwards.
    pub fn set_cursor(&mut self, col: u32, row: u32)
        requires
            old(self).wf(),
        ensures
            final(self).wf(),
            final(self).model() == (BufferView {
                cursor: Cursor {
                    pos: CursorPosition {
                        col: if col < old(self).cols() - 1 { col } else { (old(self).cols() - 1) as u32 },
                        row: if row < old(self).rows() - 1 { row } else { (old(self).rows() - 1) as u32 },
                    },
                    ..old(self).model().cursor
                },
                wrap_next: false,
                ..old(self).model()
            }),
    {
        let wm = self.width - 1;
        let hm = self.height - 1;
        self.cursor.pos.col = if col < wm { col } else { wm };
        self.cursor.pos.row = if row < hm { row } else { hm };
        self.wrap_next = false;
    }

    /// Sets the cursor shape.
    pub fn set_cursor_shape(&mut self, shape: CursorShape)
        requires
            old(self).wf(),
        ensures
            final(self).wf(),
            final(self).model() == (BufferView { cursor: Cursor { shape, ..old(self).model().cursor }, ..old(self).model() }),
    {
        self.cursor.shape = shape;
    }

    /// Shows the cursor.
    pub fn show_cursor(&mut self)
        requires
            old(self).wf(),
        ensures
            final(self).wf(),
            final(self).model() == (BufferView { cursor: Cursor { visible: true, ..old(self).model().cursor }, ..old(self).model() }),
    {
        self.cursor.visible = true;
    }

    /// Hides the cursor.
    pub fn hide_cursor(&mut self)
        requires
            old(self).wf(),
        ensures
            final(self).wf(),
            final(self).model() == (BufferView { cursor: Cursor { visible: false, ..old(self).model().cursor }, ..old(self).model() }),
    {
        self.cursor.visible = false;
    }

    /// Sets the scroll region to the rows `region`.
    pub fn set_scroll_region(&mut self, region: core::ops::Range<u32>)
        requires
            old(self).wf(),
            region.start < region.end <= old(self).rows(),
        ensures
            final(self).wf(),
            final(self).model() == (BufferView { region: Some(region), ..old(self).model() }),
    {
        self.scroll_region = Some(region);
    }

    /// Removes the scroll region: scrolling moves the whole screen.
    pub fn clear_scroll_region(&mut self)
        requires
            old(self).wf(),
        ensures
            final(self).wf(),
            final(self).model() == (BufferView { region: None, ..old(self).model() }),
    {
        self.scroll_region = None;
    }

    /// Sets the wrap mode.
    pub fn set_auto_wrap(&mut self, mode: AutoWrap)
        requires
            old(self).wf(),
        ensures
            final(self).wf(),
            final(self).model() == (BufferView { auto_wrap: mode, ..old(self).model() }),
    {
        self.auto_wrap = mode;
    }

    /// Adds a font of cells of `width` by `height` pixels; the first font
    /// added fixes the cell size.
    pub fn add_renderer_size(&mut self, width: u32, height: u32)
        requires
            old(self).wf(),
        ensures
            final(self).wf(),
            final(self).model() == (BufferView {
                font: if old(self).model().font.2 { old(self).model().font } else { (width, height, true) },
                ..old(self).model()
            }),
    {
        if !self.has_font {
            self.font_width = width;
            self.font_height = height;
            self.has_font = true;
        }
    }

    /// The text of a selection of the active screen (see [`buffer_text`]).
    pub fn tostr(&self, begin: (u32, u32), end: (u32, u32)) -> (r: String)
        requires
            self.wf(),
            selection_ok(self.model(), begin, end),
        ensures
            r@ == buffer_text(self.model(), begin, end),
    {
        proof {
            self.lemma_view();
        }
        if self.alt_screen_mode {
            self.alternate.tostr(begin, end)
        } else {
            self.primary.tostr(begin, end)
        }
    }

    /// The cell at column `x` of row `y` of the active screen.
    pub fn get(&self, x: u32, y: u32) -> (r: Char)
        requires
            self.wf(),
            x < self.cols(),
            y < self.rows(),
        ensures
            r == self.cells()[y as int][x as int],
    {
        proof {
            self.lemma_view();
        }
        if self.alt_screen_mode {
            self.alternate.get(x, y)
        } else {
            proof {
                self.primary.lemma_shape();
                assert(self.cells()[y as int] == self.primary.screen()[y as int].0);
            }
            self.primary.get(x, y)
        }
    }

    /// Writes `cell` at column `x` of row `y` of the active screen (see
    /// [`set_model`]).
    pub fn set(&mut self, x: u32, y: u32, cell: Char, fill: Char)
        requires
            old(self).wf(),
            x < old(self).cols(),
            y < old(self).rows(),
        ensures
            final(self).wf(),
            final(self).model() == set_model(old(self).model(), x as int, y as int, cell),
    {
        reveal(set_model);
        if self.alt_screen_mode {
            let _ = self.alternate.set(x, y, cell);
        } else {
            let _ = self.primary.set(x, y, cell);
        }
    }

    /// The active screen as text (see [`snapshot_text`]).
    pub fn snapshot(&self, with_history: bool) -> (r: String)
        requires
            self.wf(),
        ensures
            r@ == snapshot_text(self.model(), with_history),
    {
        proof {
            self.lemma_view();
        }
        if self.alt_screen_mode {
            self.alternate.snapshot(with_history)
        } else {
            self.primary.snapshot(with_history)
        }
    }

    /// Takes the change mark off the cell at column `x` of row `y` of the
    /// active screen (see [`clean_model`]).
    pub fn mark_clean(&mut self, x: u32, y: u32)
        requires
            old(self).wf(),
            x < old(self).cols(),
            y < old(self).rows(),
        ensures
            final(self).wf(),
            final(self).model() == clean_model(old(self).model(), x as int, y as int),
    {
        reveal(clean_model);
        proof {
            self.lemma_view();
        }
        if self.alt_screen_mode {
            self.alternate.mark_clean(x, y);
        } else {
            proof {
                self.primary.lemma_shape();
            }
            self.primary.mark_clean(x, y);
        }
    }

    /// Marks row `y` as ended by a newline.
    pub fn endl(&mut self, y: u32)
        requires
            old(self).wf(),
            y < old(self).rows(),
        ensures
            final(self).wf(),
            final(self).model() == endl_model(old(self).model(), y as int),
    {
        if !self.alt_screen_mode {
            self.primary.endl(y);
        }
    }

    /// Moves the cursor to the start of its line.
    pub fn cr(&mut self)
        requires
            old(self).wf(),
        ensures
            final(self).wf(),
            final(self).model() == cr_model(old(self).model()),
    {
        self.cursor.pos.col = 0;
        self.wrap_next = false;
    }

    /// Fills row `y` of the active screen with `fill`.
    pub fn clear_line(&mut self, y: u32, fill: Char)
        requires
            old(self).wf(),
            y < old(self).rows(),
        ensures
            final(self).wf(),
            final(self).model() == clear_line_model(old(self).model(), y as int, fill),
    {
        if self.alt_screen_mode {
            self.alternate.clear_line(y, fill);
        } else {
            self.primary.clear_line(y, fill);
        }
    }

    /// Fills the active screen with `fill`; the history stays.
    pub fn clear(&mut self, fill: Char)
        requires
            old(self).wf(),
        ensures
            final(self).wf(),
            final(self).model() == clear_model(old(self).model(), fill, false),
    {
        if self.alt_screen_mode {
            self.alternate.clear(fill);
        } else {
            self.primary.clear(fill);
        }
    }

    /// Fills the active screen with `fill` and drops the history.
    pub fn clear_all(&mut self, fill: Char)
        requires
            old(self).wf(),
        ensures
            final(self).wf(),
            final(self).model() == clear_model(old(self).model(), fill, true),
    {
        if self.alt_screen_mode {
            self.alternate.clear_all(fill);
        } else {
            self.primary.clear_all(fill);
        }
    }

    /// Shows the view whose top is history line `y` (the newest view when
    /// `y` lies beyond the history). The alternate screen has only one view.
    pub fn view(&mut self, y: u32)
        requires
            old(self).wf(),
            old(self).in_alt() ==> y == 0,
        ensures
            final(self).wf(),
            old(self).in_alt() ==> final(self).model() == old(self).model(),
            !old(self).in_alt() ==> final(self).model() == (BufferView {
                main: MainView {
                    top: if y < old(self).model().main.history.len() { y } else { old(self).model().main.history.len() as u32 },
                    ..old(self).model().main
                },
                ..old(self).model()
            }),
    {
        if !self.alt_screen_mode {
            proof {
                self.primary.lemma_shape();
            }
            self.primary.view(y);
        }
    }

    /// The number of history lines of the active screen.
    pub fn history_size(&self) -> (r: u32)
        requires
            self.wf(),
        ensures
            r == if self.in_alt() { 0 } else { self.model().main.history.len() },
    {
        if self.alt_screen_mode {
            self.alternate.history_size()
        } else {
            self.primary.history_size()
        }
    }

    /// Keeps at most `capacity` lines of history on the primary screen; the
    /// alternate screen has no history to size.
    pub fn set_history_size(&mut self, capacity: u32)
        requires
            old(self).wf(),
            capacity + old(self).rows() <= u32::MAX,
        ensures
            final(self).wf(),
            old(self).in_alt() ==> final(self).model() == old(self).model(),
            !old(self).in_alt() ==> final(self).model() == (BufferView {
                main: MainView {
                    capacity,
                    history: if old(self).model().main.history.len() > capacity {
                        old(self).model().main.history.skip(old(self).model().main.history.len() - capacity)
                    } else {
                        old(self).model().main.history
                    },
                    ..old(self).model().main
                },
                ..old(self).model()
            }),
    {
        if !self.alt_screen_mode {
            self.primary.set_history_size(capacity);
        }
    }

    /// Scrolls the whole active screen by `count` lines (see
    /// [`scroll_full_model`]).
    pub fn scroll_full(&mut self, count: i32, fill: Char)
        requires
            old(self).wf(),
            count != i32::MIN,
        ensures
            final(self).wf(),
            final(self).model() == scroll_full_model(old(self).model(), count as int, fill),
    {
        if self.alt_screen_mode {
            self.alternate.scroll_full(count, fill);
        } else {
            self.primary.scroll_full(count, fill);
        }
    }

    /// Scrolls rows `region` of the active screen by `count` lines (see
    /// [`scroll_partial_model`]).
    pub fn scroll_partial(&mut self, count: i32, fill: Char, region: core::ops::Range<u32>)
        requires
            old(self).wf(),
            region.start <= region.end <= old(self).rows(),
        ensures
            final(self).wf(),
            final(self).model() == scroll_partial_model(
                old(self).model(),
                count as int,
                fill,
                region.start as int,
                region.end as int,
            ),
    {
        if self.alt_screen_mode {
            self.alternate.scroll_partial(count, fill, region);
        } else {
            self.primary.scroll_partial(count, fill, region);
        }
    }

    /// Scrolls the scroll region, or the whole screen when none is set.
    pub fn scroll(&mut self, count: i32, fill: Char)
        requires
            old(self).wf(),
            count != i32::MIN,
        ensures
            final(self).wf(),
            final(self).model() == scroll_model(old(self).model(), count as int, fill),
    {
        match &self.scroll_region {
            Some(r) => {
                let region = r.start..r.end;
                self.scroll_partial(count, fill, region);
            },
            None => {
                self.scroll_full(count, fill);
            },
        }
    }

    /// A line feed (see [`lf_model`]).
    pub fn lf(&mut self, fill: Char)
        requires
            old(self).wf(),
        ensures
            final(self).wf(),
            final(self).model() == lf_model(old(self).model(), fill),
    {
        reveal(lf_model);
        let row = self.cursor.pos.row;
        self.endl(row);
        let region = self.scroll_region();
        if row == region.end - 1 {
            self.scroll(1, fill);
        } else if row < self.height - 1 {
            self.cursor.pos.row = row + 1;
        }
    }

    /// A carriage return and a line feed.
    pub fn newline(&mut self, fill: Char)
        requires
            old(self).wf(),
        ensures
            final(self).wf(),
            final(self).model() == newline_model(old(self).model(), fill),
    {
        reveal(newline_model);
        self.cr();
        self.lf(fill);
    }

    /// Wraps as needed before writing a cell of width `w`.
    fn wrap_before(&mut self, w: u8, fill: Char)
        requires
            old(self).wf(),
        ensures
            final(self).wf(),
            final(self).model() == pre_put_model(old(self).model(), w as int, fill),
    {
        if self.wrap_next {
            self.newline(fill);
        }
        if self.cursor.pos.col as u64 + w as u64 > self.width as u64 {
            match self.auto_wrap {
                AutoWrap::Disabled => self.cr(),
                _ => self.newline(fill),
            }
        }
    }

    /// Advances the cursor past a cell of width `w`.
    fn advance(&mut self, w: u8, fill: Char)
        requires
            old(self).wf(),
        ensures
            final(self).wf(),
            final(self).model() == post_put_model(old(self).model(), w as int, fill),
    {
        let next = self.cursor.pos.col + w as u32;
        if next >= self.width {
            match self.auto_wrap {
                AutoWrap::Disabled => {
                    self.cursor.pos.col = 0;
                    self.wrap_next = false;
                },
                AutoWrap::Immediate => {
                    proof {
                        lemma_newline_any_col(self.model(), next as int, fill);
                    }
                    self.newline(fill);
                },
                AutoWrap::Delayed => {
                    self.wrap_next = true;
                    self.cursor.pos.col = self.width - 1;
                },
            }
        } else {
            self.cursor.pos.col = next;
        }
    }

    /// Writes `cell` at the cursor and advances it (see [`put_model`]).
    pub fn put(&mut self, cell: Char, fill: Char)
        requires
            old(self).wf(),
        ensures
            final(self).wf(),
            final(self).model() == put_model(old(self).model(), cell, fill),
    {
        self.wrap_before(cell.width, fill);
        let ghost v2 = self.model();
        let col = self.cursor.pos.col;
        let row = self.cursor.pos.row;
        self.set(col, row, cell, fill);
        proof {
            lemma_set_model_frame(v2, col as int, row as int, cell);
        }
        self.advance(cell.width, fill);
    }

    /// Changes the size to fit a display of `display_width` by
    /// `display_height` pixels: whole cells of the font's size. The active
    /// screen is resized (the primary screen lays its text out again, the
    /// alternate screen keeps its rows) and the cursor follows the saved
    /// position, moved onto the new screen; no wrap is pending and the
    /// scroll region is removed. Nothing changes when the cell size stays.
    pub fn resize(&mut self, display_width: u32, display_height: u32)
        requires
            old(self).wf(),
            old(self).cell_size().0 > 0 && old(self).cell_size().1 > 0,
            display_width / old(self).cell_size().0 >= 1,
            display_height / old(self).cell_size().1 >= 1,
            display_width / old(self).cell_size().0 <= i32::MAX,
            display_height / old(self).cell_size().1 <= i32::MAX,
            (display_width / old(self).cell_size().0) * (display_height / old(self).cell_size().1) <= usize::MAX,
            old(self).model().main.capacity + display_height / old(self).cell_size().1 <= u32::MAX,
        ensures
            final(self).wf(),
            resized(
                old(self).model(),
                final(self).model(),
                (display_width / old(self).cell_size().0) as u32,
                (display_height / old(self).cell_size().1) as u32,
            ),
    {
        let w = display_width / self.font_width;
        let h = display_height / self.font_height;
        if self.width == w && self.height == h {
            return;
        }
        if self.alt_screen_mode {
            self.alternate.set_saved_cursor(self.cursor.pos);
            self.alternate.resize(w, h, Char::empty());
            self.cursor.pos = self.alternate.saved_cursor();
        } else {
            proof {
                self.primary.lemma_shape();
            }
            self.primary.set_saved_cursor(self.cursor.pos);
            self.primary.resize(w, h, Char::empty());
            self.cursor.pos = self.primary.saved_cursor();
            proof {
                self.primary.lemma_shape();
            }
        }
        if self.cursor.pos.col >= w {
            self.cursor.pos.col = w - 1;
        }
        if self.cursor.pos.row >= h {
            self.cursor.pos.row = h - 1;
        }
        self.width = w;
        self.height = h;
        self.wrap_next = false;
        self.scroll_region = None;
    }

    /// Switches to a fresh alternate screen of empty cells; the cursor is
    /// saved for the primary screen and starts at the origin.
    pub fn enter_alternate(&mut self)
        requires
            old(self).wf(),
            !old(self).in_alt(),
        ensures
            final(self).wf(),
            final(self).model() == enter_alt_model(old(self).model()),
    {
        self.alt_screen_mode = true;
        self.alternate.init(self.width, self.height, Char::empty());
        self.primary.set_saved_cursor(self.cursor.pos);
        self.cursor.pos = self.alternate.saved_cursor();
        self.wrap_next = false;
        if self.cursor.pos.col >= self.width {
            self.cursor.pos.col = self.width - 1;
            self.wrap_next = true;
        }
    }

    /// Leaves the alternate screen, releasing it. When the primary screen
    /// has another size than the terminal, it is resized and the cursor
    /// returns to the position saved for it; otherwise the cursor stays.
    pub fn exit_alternate(&mut self)
        requires
            old(self).wf(),
            old(self).in_alt(),
        ensures
            final(self).wf(),
            final(self).model() == exit_alt_model(old(self).model()),
    {
        self.alt_screen_mode = false;
        self.alternate.deinit();
        if self.width == self.primary.width() && self.height == self.primary.height() {
            return;
        }
        self.primary.resize(self.width, self.height, Char::empty());
        self.alternate.set_saved_cursor(self.cursor.pos);
        self.cursor.pos = self.primary.saved_cursor();
        self.wrap_next = false;
        if self.cursor.pos.col >= self.width {
            self.cursor.pos.col = self.width - 1;
        }
        if self.cursor.pos.row >= self.height {
            self.cursor.pos.row = self.height - 1;
        }
    }
}

} // verus!
