//! The alternate screen: a grid without history whose rows are stored as a
//! ring, so that scrolling the whole screen moves the first row instead of
//! the cells.

use vstd::prelude::*;

use crate::cell::{cells_text, Char};
use crate::helper::push_char;
use crate::row::{clean_cell, cleaned, fill_range, row_with, splice, write_cell, CharVec, FlagVec};
use crate::types::CursorPosition;

verus! {

/// Where row `y` of a ring of `h` rows of `w` cells that starts at row
/// `begin` is stored.
pub open spec fn ring_start(begin: int, w: int, h: int, y: int) -> int {
    ((begin + y) % h) * w
}

/// The `h` rows of `w` cells that `cells` holds as a ring starting at row
/// `begin`.
pub open spec fn ring_rows(cells: Seq<Char>, begin: int, w: int, h: int) -> Seq<Seq<Char>> {
    Seq::new(
        h as nat,
        |y: int| cells.subrange(ring_start(begin, w, h, y), ring_start(begin, w, h, y) + w),
    )
}

/// A row of a ring lies inside it.
pub proof fn lemma_ring_row_inside(begin: int, w: int, h: int, y: int)
    requires
        w >= 1,
        h >= 1,
        0 <= begin,
        0 <= y,
    ensures
        0 <= ring_start(begin, w, h, y),
        ring_start(begin, w, h, y) + w <= w * h,
{
    let p = (begin + y) % h;
    assert(0 <= p < h);
    assert(0 <= p * w) by (nonlinear_arith)
        requires
            0 <= p,
            w >= 1,
    ;
    assert(p * w + w <= w * h) by (nonlinear_arith)
        requires
            p < h,
            w >= 1,
    ;
}

/// Two different rows of a ring do not overlap.
pub proof fn lemma_ring_rows_apart(begin: int, w: int, h: int, y1: int, y2: int)
    requires
        w >= 1,
        h >= 1,
        0 <= begin,
        0 <= y1 < h,
        0 <= y2 < h,
        y1 != y2,
    ensures
        ring_start(begin, w, h, y1) + w <= ring_start(begin, w, h, y2) || ring_start(begin, w, h, y2) + w
            <= ring_start(begin, w, h, y1),
{
    let p1 = (begin + y1) % h;
    let p2 = (begin + y2) % h;
    vstd::arithmetic::div_mod::lemma_fundamental_div_mod(begin + y1, h);
    vstd::arithmetic::div_mod::lemma_fundamental_div_mod(begin + y2, h);
    if p1 == p2 {
        let q1 = (begin + y1) / h;
        let q2 = (begin + y2) / h;
        assert(y1 - y2 == h * (q1 - q2)) by (nonlinear_arith)
            requires
                begin + y1 == h * q1 + p1,
                begin + y2 == h * q2 + p2,
                p1 == p2,
        ;
        if q1 > q2 {
            assert(h * (q1 - q2) >= h) by (nonlinear_arith)
                requires
                    q1 - q2 >= 1,
                    h >= 1,
            ;
        } else if q1 < q2 {
            assert(h * (q2 - q1) >= h) by (nonlinear_arith)
                requires
                    q2 - q1 >= 1,
                    h >= 1,
            ;
            assert(h * (q1 - q2) == -(h * (q2 - q1))) by (nonlinear_arith);
        } else {
            assert(h * (q1 - q2) == 0) by (nonlinear_arith)
                requires
                    q1 == q2,
            ;
        }
    }
    assert(p1 != p2);
    if p1 < p2 {
        assert(p1 * w + w <= p2 * w) by (nonlinear_arith)
            requires
                p1 + 1 <= p2,
                w >= 1,
        ;
    } else {
        assert(p2 * w + w <= p1 * w) by (nonlinear_arith)
            requires
                p2 + 1 <= p1,
                w >= 1,
        ;
    }
}

/// Writing row `y` of a ring changes that row only.
pub proof fn lemma_ring_write_row(cells: Seq<Char>, begin: int, w: int, h: int, y: int, row: Seq<Char>)
    requires
        w >= 1,
        h >= 1,
        0 <= begin,
        0 <= y < h,
        cells.len() == w * h,
        row.len() == w,
    ensures
        splice(cells, ring_start(begin, w, h, y), row).len() == w * h,
        ring_rows(splice(cells, ring_start(begin, w, h, y), row), begin, w, h) == ring_rows(cells, begin, w, h).update(
            y,
            row,
        ),
{
    lemma_ring_row_inside(begin, w, h, y);
    let s = ring_start(begin, w, h, y);
    let out = splice(cells, s, row);
    assert(out.len() == w * h);
    assert forall|y2: int| 0 <= y2 < h implies #[trigger] ring_rows(out, begin, w, h)[y2] == ring_rows(cells, begin, w, h).update(
        y,
        row,
    )[y2] by {
        lemma_ring_row_inside(begin, w, h, y2);
        let s2 = ring_start(begin, w, h, y2);
        if y2 == y {
            assert(out.subrange(s2, s2 + w) =~= row);
        } else {
            lemma_ring_rows_apart(begin, w, h, y, y2);
            assert(out.subrange(s2, s2 + w) =~= cells.subrange(s2, s2 + w));
        }
    }
    assert(ring_rows(out, begin, w, h) =~= ring_rows(cells, begin, w, h).update(y, row));
}


/// Rows `start..end` of `rows` scrolled by `count`: up (towards the top) for
/// a positive count, down for a negative one; the rows that enter are
/// `blank`, and a count of at least the region's height blanks the region.
pub open spec fn region_scrolled<A>(rows: Seq<A>, count: int, start: int, end: int, blank: A) -> Seq<A> {
    let amount = if count < 0 { -count } else { count };
    if count == 0 {
        rows
    } else if amount >= end - start {
        Seq::new(rows.len(), |i: int| if start <= i < end { blank } else { rows[i] })
    } else if count < 0 {
        Seq::new(
            rows.len(),
            |i: int|
                if start <= i < start + amount {
                    blank
                } else if start + amount <= i < end {
                    rows[i - amount]
                } else {
                    rows[i]
                },
        )
    } else {
        Seq::new(
            rows.len(),
            |i: int|
                if start <= i < end - amount {
                    rows[i + amount]
                } else if end - amount <= i < end {
                    blank
                } else {
                    rows[i]
                },
        )
    }
}

/// `rows` turned so that row `s` comes first.
pub open spec fn rotated<A>(rows: Seq<A>, s: int) -> Seq<A> {
    Seq::new(rows.len(), |y: int| rows[(y + s) % (rows.len() as int)])
}

/// Moving the first row of a ring by `s` turns its rows by `s`.
pub proof fn lemma_ring_rotate(cells: Seq<Char>, begin: int, w: int, h: int, s: int)
    requires
        w >= 1,
        h >= 1,
        0 <= begin,
        0 <= s,
    ensures
        ring_rows(cells, (begin + s) % h, w, h) == rotated(ring_rows(cells, begin, w, h), s),
{
    assert forall|y: int| 0 <= y < h implies #[trigger] ring_rows(cells, (begin + s) % h, w, h)[y] == rotated(
        ring_rows(cells, begin, w, h),
        s,
    )[y] by {
        let k = (y + s) % h;
        assert(0 <= k < h);
        // ((begin + s) % h + y) % h == (begin + s + y) % h == (begin + (y + s) % h) % h
        vstd::arithmetic::div_mod::lemma_add_mod_noop_right(y, begin + s, h);
        vstd::arithmetic::div_mod::lemma_add_mod_noop_right(begin, y + s, h);
        assert((y + (begin + s) % h) % h == (y + (begin + s)) % h);
        assert((begin + (y + s) % h) % h == (begin + (y + s)) % h);
        assert(y + (begin + s) == begin + (y + s));
    }
    assert(ring_rows(cells, (begin + s) % h, w, h) =~= rotated(ring_rows(cells, begin, w, h), s));
}

/// Whether a row holds a character.
pub open spec fn has_text(row: Seq<Char>) -> bool {
    exists|x: int| 0 <= x < row.len() && (#[trigger] row[x]).ch != '\0'
}

/// Going up from row `y - 1` towards row `lo`, how many rows hold no
/// character before the first one that does.
pub open spec fn empty_tail(rows: Seq<Seq<Char>>, lo: int, y: int) -> int
    decreases y - lo,
{
    if y <= lo {
        0
    } else if has_text(rows[y - 1]) {
        0
    } else {
        1 + empty_tail(rows, lo, y - 1)
    }
}

/// How far a shrinking resize scrolls: the rows that no longer fit, less
/// the empty rows at the bottom.
pub open spec fn resize_scroll(rows: Seq<Seq<Char>>, old_h: int, h: int) -> int {
    if h < old_h { (old_h - h) - empty_tail(rows, h, old_h) } else { 0 }
}

/// The rows after resizing to `h` rows of `w` cells: the rows scrolled by
/// [`resize_scroll`], cut or extended with `fill`.
pub open spec fn resized_rows(rows: Seq<Seq<Char>>, old_w: int, old_h: int, w: int, h: int, fill: Char) -> Seq<Seq<Char>> {
    let dh = resize_scroll(rows, old_h, h);
    let turned = if dh > 0 { rotated(rows, dh) } else { rows };
    Seq::new(
        h as nat,
        |y: int| Seq::new(w as nat, |x: int| if y < old_h && x < old_w { turned[y][x] } else { fill }),
    )
}

/// The text of rows `begin.1..=y` of a selection from `begin` to `end`:
/// columns `begin.0..=end.0` of each row, empty cells left out, a newline
/// after each row before the last.
pub open spec fn alt_text(rows: Seq<Seq<Char>>, begin: (u32, u32), end: (u32, u32), y: int) -> Seq<char>
    decreases y - begin.1,
{
    if y < begin.1 {
        Seq::empty()
    } else {
        let prev = if y == begin.1 { Seq::empty() } else { alt_text(rows, begin, end, y - 1) };
        prev + cells_text(rows[y], begin.0 as int, end.0 + 1) + if y != end.1 { seq!['\n'] } else { Seq::empty() }
    }
}

/// The alternate buffer. It holds nothing until [`Alternate::init`] sizes
/// it; [`Alternate::deinit`] releases it again.
pub struct Alternate {
    /// The cells: `height` rows of `width` cells, as a ring whose first row
    /// is stored at row `begin`.
    buffer: CharVec,
    /// Per screen row: some cell changed since it was drawn.
    line_dirty: FlagVec,
    /// Per screen row: the whole row changed since it was drawn.
    line_all_dirty: FlagVec,
    /// Where the first screen row is stored.
    begin: u32,
    /// Width in cells.
    width: u32,
    /// Height in rows.
    height: u32,
    /// The cursor saved while this buffer is inactive or resized.
    saved_cursor_pos: CursorPosition,
}

/// The first `k` rows as text: the characters of each row, leaving out
/// empty cells, each row followed by a newline but the last row, which is
/// followed by one only `with_history`.
pub open spec fn alt_snapshot(rows: Seq<Seq<Char>>, k: int, with_history: bool) -> Seq<char>
    decreases k,
{
    if k <= 0 {
        Seq::empty()
    } else {
        alt_snapshot(rows, k - 1, with_history) + cells_text(rows[k - 1], 0, rows[k - 1].len() as int) + if with_history
            || k - 1 != rows.len() - 1 {
            seq!['\n']
        } else {
            Seq::empty()
        }
    }
}

impl Alternate {
    /// The rows, top first.
    pub closed spec fn rows(&self) -> Seq<Seq<Char>> {
        ring_rows(self.buffer@, self.begin as int, self.width as int, self.height as int)
    }

    /// Per row: some cell changed since it was drawn.
    pub closed spec fn dirty(&self) -> Seq<bool> {
        self.line_dirty@
    }

    /// Per row: the whole row changed since it was drawn.
    pub closed spec fn all_dirty(&self) -> Seq<bool> {
        self.line_all_dirty@
    }

    /// Width in cells.
    pub closed spec fn cols(&self) -> u32 {
        self.width
    }

    /// Height in rows.
    pub closed spec fn lines(&self) -> u32 {
        self.height
    }

    /// The saved cursor position.
    pub closed spec fn saved(&self) -> CursorPosition {
        self.saved_cursor_pos
    }

    /// Whether the buffer was sized by `init` (and not released since).
    pub closed spec fn ready(&self) -> bool {
        self.buffer@.len() > 0
    }

    /// Either released (nothing held, size zero) or sized: `height` rows of
    /// `width` cells and a flag of each kind per row.
    pub closed spec fn wf(&self) -> bool {
        if self.buffer@.len() == 0 {
            &&& self.width == 0 && self.height == 0 && self.begin == 0
            &&& self.line_dirty@.len() == 0 && self.line_all_dirty@.len() == 0
        } else {
            &&& self.width >= 1 && self.height >= 1
            &&& self.height <= i32::MAX
            &&& self.buffer@.len() == self.width * self.height
            &&& self.width * self.height <= usize::MAX
            &&& self.begin < self.height
            &&& self.line_dirty@.len() == self.height
            &&& self.line_all_dirty@.len() == self.height
        }
    }

    /// What a sized buffer's views look like.
    pub proof fn lemma_shape(&self)
        requires
            self.wf(),
            self.ready(),
        ensures
            self.cols() >= 1 && self.lines() >= 1,
            self.rows().len() == self.lines(),
            forall|y: int| 0 <= y < self.lines() ==> (#[trigger] self.rows()[y]).len() == self.cols(),
            self.dirty().len() == self.lines(),
            self.all_dirty().len() == self.lines(),
    {
        assert forall|y: int| 0 <= y < self.lines() implies (#[trigger] self.rows()[y]).len() == self.cols() by {
            lemma_ring_row_inside(self.begin as int, self.width as int, self.height as int, y);
        }
    }

    /// A released buffer.
    pub fn new() -> (r: Alternate)
        ensures
            r.wf(),
            !r.ready(),
            r.cols() == 0 && r.lines() == 0,
            r.saved() == (CursorPosition { col: 0, row: 0 }),
            r.rows() == Seq::<Seq<Char>>::empty(),
            r.dirty() == Seq::<bool>::empty(),
            r.all_dirty() == Seq::<bool>::empty(),
    {
        let r = Alternate {
            buffer: CharVec::empty(),
            line_dirty: FlagVec::empty(),
            line_all_dirty: FlagVec::empty(),
            begin: 0,
            width: 0,
            height: 0,
            saved_cursor_pos: CursorPosition::origin(),
        };
        assert(r.rows() =~= Seq::<Seq<Char>>::empty());
        r
    }

    /// Releases the buffer and forgets the saved cursor.
    pub fn deinit(&mut self)
        ensures
            final(self).wf(),
            !final(self).ready(),
            final(self).cols() == 0 && final(self).lines() == 0,
            final(self).saved() == (CursorPosition { col: 0, row: 0 }),
            final(self).rows() == Seq::<Seq<Char>>::empty(),
            final(self).dirty() == Seq::<bool>::empty(),
            final(self).all_dirty() == Seq::<bool>::empty(),
    {
        self.buffer.clear();
        self.line_dirty.clear();
        self.line_all_dirty.clear();
        self.begin = 0;
        self.width = 0;
        self.height = 0;
        self.saved_cursor_pos = CursorPosition::origin();
        assert(self.rows() =~= Seq::<Seq<Char>>::empty());
    }

    /// Sizes a released buffer to `height` rows of `width` copies of `fill`;
    /// no row is marked changed and the saved cursor is the origin.
    pub fn init(&mut self, width: u32, height: u32, fill: Char)
        requires
            old(self).wf(),
            !old(self).ready(),
            width >= 1,
            height >= 1,
            height <= i32::MAX,
            width * height <= usize::MAX,
        ensures
            final(self).wf(),
            final(self).ready(),
            final(self).cols() == width && final(self).lines() == height,
            final(self).rows() == Seq::new(height as nat, |_y: int| Seq::new(width as nat, |_x: int| fill)),
            final(self).dirty() == Seq::new(height as nat, |_y: int| false),
            final(self).all_dirty() == Seq::new(height as nat, |_y: int| false),
            final(self).saved() == (CursorPosition { col: 0, row: 0 }),
    {
        let n = (width as usize) * (height as usize);
        self.buffer = CharVec::filled(fill, n);
        self.line_dirty.resize(height as usize, false);
        self.line_all_dirty.resize(height as usize, false);
        self.begin = 0;
        self.width = width;
        self.height = height;
        self.saved_cursor_pos = CursorPosition::origin();
        assert(n > 0) by (nonlinear_arith)
            requires
                n == width * height,
                width >= 1,
                height >= 1,
        ;
        proof {
            assert forall|y: int| 0 <= y < height implies #[trigger] self.rows()[y] == Seq::new(width as nat, |_x: int| fill) by {
                lemma_ring_row_inside(0, width as int, height as int, y);
                assert(self.rows()[y] =~= Seq::new(width as nat, |_x: int| fill));
            }
        }
        assert(self.rows() =~= Seq::new(height as nat, |_y: int| Seq::new(width as nat, |_x: int| fill)));
        assert(self.dirty() =~= Seq::new(height as nat, |_y: int| false));
        assert(self.all_dirty() =~= Seq::new(height as nat, |_y: int| false));
    }

    /// Where row `y` starts in the cells.
    fn row_index(&self, y: u32) -> (r: usize)
        requires
            self.wf(),
            self.ready(),
            y < self.height,
        ensures
            r == ring_start(self.begin as int, self.width as int, self.height as int, y as int),
            r + self.width <= self.buffer@.len(),
    {
        proof {
            lemma_ring_row_inside(self.begin as int, self.width as int, self.height as int, y as int);
        }
        let p = ((self.begin as u64 + y as u64) % (self.height as u64)) as usize;
        assert(p < self.height);
        assert(p * self.width + self.width <= self.width * self.height);
        p * (self.width as usize)
    }

    /// Width in cells.
    pub fn width(&self) -> (r: u32)
        ensures
            r == self.cols(),
    {
        self.width
    }

    /// Height in rows.
    pub fn height(&self) -> (r: u32)
        ensures
            r == self.lines(),
    {
        self.height
    }

    /// The saved cursor position.
    pub fn saved_cursor(&self) -> (r: CursorPosition)
        ensures
            r == self.saved(),
    {
        self.saved_cursor_pos
    }

    /// Saves a cursor position.
    pub fn set_saved_cursor(&mut self, pos: CursorPosition)
        ensures
            final(self).saved() == pos,
            final(self).rows() == old(self).rows(),
            final(self).dirty() == old(self).dirty(),
            final(self).all_dirty() == old(self).all_dirty(),
            final(self).cols() == old(self).cols() && final(self).lines() == old(self).lines(),
            final(self).ready() == old(self).ready(),
            old(self).wf() ==> final(self).wf(),
    {
        self.saved_cursor_pos = pos;
    }

    /// The text of the rectangle from `begin` to `end` (see [`alt_text`]).
    pub fn tostr(&self, begin: (u32, u32), end: (u32, u32)) -> (r: String)
        requires
            self.wf(),
            self.ready(),
            begin.1 <= end.1 && begin.0 <= end.0 ==> end.0 < self.cols() && end.1 < self.lines(),
        ensures
            r@ == alt_text(self.rows(), begin, end, end.1 as int),
    {
        let mut result = String::new();
        if begin.1 > end.1 {
            return result;
        }
        let mut y: u64 = begin.1 as u64;
        while y <= end.1 as u64
            invariant
                begin.1 <= y <= end.1 as int + 1,
                begin.1 <= end.1,
                self.wf(),
                self.ready(),
                begin.0 <= end.0 ==> end.0 < self.cols() && end.1 < self.lines(),
                y > begin.1 ==> result@ == alt_text(self.rows(), begin, end, y - 1),
                y == begin.1 ==> result@.len() == 0,
            decreases end.1 as int + 1 - y,
        {
            let yy = y as u32;
            let ghost before = result@;
            if begin.0 <= end.0 {
                let mut x: u64 = begin.0 as u64;
                while x <= end.0 as u64
                    invariant
                        begin.0 <= x <= end.0 as int + 1,
                        begin.0 <= end.0,
                        end.0 < self.cols() && end.1 < self.lines(),
                        yy <= end.1,
                        self.wf(),
                        self.ready(),
                        result@ == before + cells_text(self.rows()[yy as int], begin.0 as int, x as int),
                    decreases end.0 as int + 1 - x,
                {
                    let c = self.get(x as u32, yy);
                    if c.ch != '\0' {
                        push_char(&mut result, c.ch);
                    }
                    x += 1;
                    assert(result@ =~= before + cells_text(self.rows()[yy as int], begin.0 as int, x as int));
                }
            } else {
                assert(result@ =~= before + cells_text(self.rows()[yy as int], begin.0 as int, end.0 + 1));
            }
            if yy != end.1 {
                push_char(&mut result, '\n');
            }
            assert(result@ =~= alt_text(self.rows(), begin, end, yy as int));
            y += 1;
        }
        result
    }

    /// The rows as text (see [`alt_snapshot`]).
    pub fn snapshot(&self, with_history: bool) -> (r: String)
        requires
            self.wf(),
        ensures
            r@ == alt_snapshot(self.rows(), self.lines() as int, with_history),
    {
        let mut result = String::new();
        if self.buffer.len() == 0 {
            return result;
        }
        proof {
            self.lemma_shape();
        }
        let h = self.height;
        let w = self.width;
        let mut y: u32 = 0;
        while y < h
            invariant
                h == self.lines() && w == self.cols(),
                self.wf() && self.ready(),
                self.rows().len() == h,
                forall|yy: int| 0 <= yy < h ==> (#[trigger] self.rows()[yy]).len() == w,
                y <= h,
                result@ == alt_snapshot(self.rows(), y as int, with_history),
            decreases h - y,
        {
            let ghost before = result@;
            let mut x: u32 = 0;
            while x < w
                invariant
                    h == self.lines() && w == self.cols(),
                    self.wf() && self.ready(),
                    self.rows().len() == h,
                    forall|yy: int| 0 <= yy < h ==> (#[trigger] self.rows()[yy]).len() == w,
                    y < h,
                    x <= w,
                    result@ == before + cells_text(self.rows()[y as int], 0, x as int),
                decreases w - x,
            {
                let c = self.get(x, y);
                if c.ch != '\0' {
                    push_char(&mut result, c.ch);
                }
                x += 1;
            }
            if with_history || y != h - 1 {
                push_char(&mut result, '\n');
            }
            y += 1;
        }
        result
    }

    /// The cell at column `x` of row `y`.
    pub fn get(&self, x: u32, y: u32) -> (r: Char)
        requires
            self.wf(),
            self.ready(),
            x < self.cols(),
            y < self.lines(),
        ensures
            r == self.rows()[y as int][x as int],
    {
        let i = self.row_index(y);
        self.buffer.get(i + x as usize)
    }

    /// Writes `cell` at column `x` of row `y` (see [`row_with`]); the row is
    /// marked changed. Returns the cell that was there.
    pub fn set(&mut self, x: u32, y: u32, cell: Char) -> (r: Char)
        requires
            old(self).wf(),
            old(self).ready(),
            x < old(self).cols(),
            y < old(self).lines(),
        ensures
            final(self).wf(),
            final(self).ready(),
            r == old(self).rows()[y as int][x as int],
            final(self).rows() == old(self).rows().update(y as int, row_with(old(self).rows()[y as int], x as int, cell)),
            final(self).dirty() == old(self).dirty().update(y as int, true),
            final(self).all_dirty() == old(self).all_dirty(),
            final(self).cols() == old(self).cols() && final(self).lines() == old(self).lines(),
            final(self).saved() == old(self).saved(),
    {
        self.line_dirty.set(y as usize, true);
        let base = self.row_index(y);
        let w = self.width as usize;
        let r = write_cell(&mut self.buffer, base, w, x as usize, cell);
        proof {
            lemma_ring_write_row(
                old(self).buffer@,
                self.begin as int,
                self.width as int,
                self.height as int,
                y as int,
                row_with(old(self).rows()[y as int], x as int, cell),
            );
        }
        r
    }

    /// Takes the change mark off the cell at column `x` of row `y`; nothing
    /// else changes.
    pub fn mark_clean(&mut self, x: u32, y: u32)
        requires
            old(self).wf(),
            old(self).ready(),
            x < old(self).cols(),
            y < old(self).lines(),
        ensures
            final(self).wf(),
            final(self).ready(),
            final(self).rows() == old(self).rows().update(
                y as int,
                old(self).rows()[y as int].update(x as int, cleaned(old(self).rows()[y as int][x as int])),
            ),
            final(self).dirty() == old(self).dirty(),
            final(self).all_dirty() == old(self).all_dirty(),
            final(self).cols() == old(self).cols() && final(self).lines() == old(self).lines(),
            final(self).saved() == old(self).saved(),
    {
        let base = self.row_index(y);
        let w = self.width as usize;
        proof {
            lemma_ring_write_row(
                old(self).buffer@,
                self.begin as int,
                self.width as int,
                self.height as int,
                y as int,
                old(self).rows()[y as int],
            );
        }
        clean_cell(&mut self.buffer, base, w, x as usize);
        proof {
            lemma_ring_write_row(
                old(self).buffer@,
                self.begin as int,
                self.width as int,
                self.height as int,
                y as int,
                old(self).rows()[y as int].update(x as int, cleaned(old(self).rows()[y as int][x as int])),
            );
        }
    }

    /// Fills row `y` with `cell` and marks it wholly changed.
    pub fn clear_line(&mut self, y: u32, cell: Char)
        requires
            old(self).wf(),
            old(self).ready(),
            y < old(self).lines(),
        ensures
            final(self).wf(),
            final(self).ready(),
            final(self).rows() == old(self).rows().update(y as int, Seq::new(old(self).cols() as nat, |_x: int| cell)),
            final(self).dirty() == old(self).dirty(),
            final(self).all_dirty() == old(self).all_dirty().update(y as int, true),
            final(self).cols() == old(self).cols() && final(self).lines() == old(self).lines(),
            final(self).saved() == old(self).saved(),
    {
        let base = self.row_index(y);
        let w = self.width as usize;
        self.buffer.fill(base, base + w, cell);
        self.line_all_dirty.set(y as usize, true);
        proof {
            let row = Seq::new(old(self).cols() as nat, |_x: int| cell);
            assert(fill_range(old(self).buffer@, base as int, base + w, cell) =~= splice(old(self).buffer@, base as int, row));
            lemma_ring_write_row(old(self).buffer@, self.begin as int, self.width as int, self.height as int, y as int, row);
        }
    }

    /// Fills every row with `cell`, marks every row wholly changed and
    /// stores the first row first again.
    pub fn clear(&mut self, cell: Char)
        requires
            old(self).wf(),
            old(self).ready(),
        ensures
            final(self).wf(),
            final(self).ready(),
            final(self).rows() == Seq::new(old(self).lines() as nat, |_y: int| Seq::new(old(self).cols() as nat, |_x: int| cell)),
            final(self).dirty() == old(self).dirty(),
            final(self).all_dirty() == Seq::new(old(self).lines() as nat, |_y: int| true),
            final(self).cols() == old(self).cols() && final(self).lines() == old(self).lines(),
            final(self).saved() == old(self).saved(),
    {
        let n = self.buffer.len();
        self.buffer.fill(0, n, cell);
        self.begin = 0;
        self.line_all_dirty.fill(true);
        proof {
            assert forall|y: int| 0 <= y < self.height implies #[trigger] self.rows()[y] == Seq::new(old(self).cols() as nat, |_x: int| cell) by {
                lemma_ring_row_inside(0, self.width as int, self.height as int, y);
                assert(self.rows()[y] =~= Seq::new(old(self).cols() as nat, |_x: int| cell));
            }
        }
        assert(self.rows() =~= Seq::new(old(self).lines() as nat, |_y: int| Seq::new(old(self).cols() as nat, |_x: int| cell)));
        assert(self.all_dirty() =~= Seq::new(old(self).lines() as nat, |_y: int| true));
    }

    /// The same as [`Alternate::clear`]: this buffer has no history.
    pub fn clear_all(&mut self, cell: Char)
        requires
            old(self).wf(),
            old(self).ready(),
        ensures
            final(self).wf(),
            final(self).ready(),
            final(self).rows() == Seq::new(old(self).lines() as nat, |_y: int| Seq::new(old(self).cols() as nat, |_x: int| cell)),
            final(self).dirty() == old(self).dirty(),
            final(self).all_dirty() == Seq::new(old(self).lines() as nat, |_y: int| true),
            final(self).cols() == old(self).cols() && final(self).lines() == old(self).lines(),
            final(self).saved() == old(self).saved(),
    {
        self.clear(cell);
    }

    /// Turns the ring by `count` rows without touching any cell: up for a
    /// positive count, down for a negative one; a count of at least the
    /// height does nothing. The rows that come round keep their old cells.
    pub fn scroll_without_clear(&mut self, count: i32)
        requires
            old(self).wf(),
            old(self).ready(),
        ensures
            final(self).wf(),
            final(self).ready(),
            final(self).rows() == if count == 0 || count >= old(self).lines() || count <= -(old(self).lines() as int) {
                old(self).rows()
            } else if count > 0 {
                rotated(old(self).rows(), count as int)
            } else {
                rotated(old(self).rows(), old(self).lines() + count)
            },
            final(self).dirty() == old(self).dirty(),
            final(self).all_dirty() == old(self).all_dirty(),
            final(self).cols() == old(self).cols() && final(self).lines() == old(self).lines(),
            final(self).saved() == old(self).saved(),
    {
        let h = self.height as i64;
        let c = count as i64;
        if count == 0 || c >= h || c <= -h {
            return;
        }
        let s: u64 = if c > 0 { c as u64 } else { (h + c) as u64 };
        proof {
            lemma_ring_rotate(self.buffer@, self.begin as int, self.width as int, self.height as int, s as int);
        }
        self.begin = ((self.begin as u64 + s) % (self.height as u64)) as u32;
    }

    /// Scrolls the whole screen by `count` rows (see [`region_scrolled`]):
    /// the ring turns and the rows that come round are filled with `fill`;
    /// every row is marked wholly changed.
    pub fn scroll_full(&mut self, count: i32, fill: Char)
        requires
            old(self).wf(),
            old(self).ready(),
        ensures
            final(self).wf(),
            final(self).ready(),
            final(self).rows() == region_scrolled(
                old(self).rows(),
                count as int,
                0,
                old(self).lines() as int,
                Seq::new(old(self).cols() as nat, |_x: int| fill),
            ),
            count != 0 ==> final(self).all_dirty() == Seq::new(old(self).lines() as nat, |_y: int| true),
            count == 0 ==> final(self).all_dirty() == old(self).all_dirty(),
            final(self).dirty() == old(self).dirty(),
            final(self).cols() == old(self).cols() && final(self).lines() == old(self).lines(),
            final(self).saved() == old(self).saved(),
    {
        let ghost blank = Seq::new(old(self).cols() as nat, |_x: int| fill);
        let ghost r0 = old(self).rows();
        proof {
            self.lemma_shape();
        }
        if count == 0 {
            return;
        }
        let h = self.height;
        if (count as i64) <= -(h as i64) || (count as i64) >= (h as i64) {
            self.clear(fill);
            assert(self.rows() =~= region_scrolled(r0, count as int, 0, h as int, blank));
            return;
        }
        self.scroll_without_clear(count);
        let ghost turned = self.rows();
        if count < 0 {
            let n = (-(count as i64)) as u32;
            let mut i: u32 = 0;
            while i < n
                invariant
                    self.wf(),
                    self.ready(),
                    i <= n < h,
                    self.height == h && self.width == old(self).width,
                    self.saved_cursor_pos == old(self).saved_cursor_pos,
                    self.line_dirty@ == old(self).line_dirty@,
                    blank == Seq::new(old(self).cols() as nat, |_x: int| fill),
                    self.rows() == Seq::new(h as nat, |y: int| if y < i { blank } else { turned[y] }),
                decreases n - i,
            {
                self.clear_line(i, fill);
                assert(self.rows() =~= Seq::new(h as nat, |y: int| if y < i + 1 { blank } else { turned[y] }));
                i += 1;
            }
            proof {
                assert forall|y: int| 0 <= y < h implies #[trigger] self.rows()[y] == region_scrolled(r0, count as int, 0, h as int, blank)[y] by {
                    if y >= n {
                        assert((y + (h + count)) % (h as int) == y + count) by {
                            vstd::arithmetic::div_mod::lemma_mod_add_multiples_vanish(y + count, h as int);
                            vstd::arithmetic::div_mod::lemma_small_mod((y + count) as nat, h as nat);
                            assert(y + (h + count) == h + (y + count));
                        }
                    }
                }
            }
        } else {
            let n = count as u32;
            let mut i: u32 = h - n;
            while i < h
                invariant
                    self.wf(),
                    self.ready(),
                    h - n <= i <= h,
                    0 < n < h,
                    self.height == h && self.width == old(self).width,
                    self.saved_cursor_pos == old(self).saved_cursor_pos,
                    self.line_dirty@ == old(self).line_dirty@,
                    blank == Seq::new(old(self).cols() as nat, |_x: int| fill),
                    self.rows() == Seq::new(h as nat, |y: int| if h - n <= y < i { blank } else { turned[y] }),
                decreases h - i,
            {
                self.clear_line(i, fill);
                assert(self.rows() =~= Seq::new(h as nat, |y: int| if h - n <= y < i + 1 { blank } else { turned[y] }));
                i += 1;
            }
            proof {
                assert forall|y: int| 0 <= y < h implies #[trigger] self.rows()[y] == region_scrolled(r0, count as int, 0, h as int, blank)[y] by {
                    if y < h - n {
                        vstd::arithmetic::div_mod::lemma_small_mod((y + count) as nat, h as nat);
                    }
                }
            }
        }
        self.line_all_dirty.fill(true);
        assert(self.rows() =~= region_scrolled(r0, count as int, 0, h as int, blank));
        assert(self.all_dirty() =~= Seq::new(old(self).lines() as nat, |_y: int| true));
    }

    /// Copies row `sy` over row `dy`.
    fn copy_line(&mut self, dy: u32, sy: u32)
        requires
            old(self).wf(),
            old(self).ready(),
            dy < old(self).lines(),
            sy < old(self).lines(),
        ensures
            final(self).wf(),
            final(self).ready(),
            final(self).rows() == old(self).rows().update(dy as int, old(self).rows()[sy as int]),
            final(self).dirty() == old(self).dirty(),
            final(self).all_dirty() == old(self).all_dirty(),
            final(self).cols() == old(self).cols() && final(self).lines() == old(self).lines(),
            final(self).saved() == old(self).saved(),
            final(self).begin == old(self).begin,
    {
        let src = self.row_index(sy);
        let dst = self.row_index(dy);
        let w = self.width as usize;
        self.buffer.copy_within(src, w, dst);
        proof {
            let row = old(self).rows()[sy as int];
            assert(old(self).buffer@.subrange(src as int, src + w) == row);
            assert(row.len() == w);
            assert(crate::row::copy_range(old(self).buffer@, dst as int, old(self).buffer@, src as int, w as int) =~= splice(
                old(self).buffer@,
                dst as int,
                row,
            ));
            lemma_ring_write_row(old(self).buffer@, self.begin as int, self.width as int, self.height as int, dy as int, row);
        }
    }

    /// Scrolls rows `region` by `count` rows (see [`region_scrolled`]); the
    /// rows that enter are filled with `fill`. When a row moved, every row
    /// is marked wholly changed; otherwise the cleared rows are.
    pub fn scroll_partial(&mut self, count: i32, fill: Char, region: core::ops::Range<u32>)
        requires
            old(self).wf(),
            old(self).ready(),
            region.start <= region.end <= old(self).lines(),
        ensures
            final(self).wf(),
            final(self).ready(),
            final(self).rows() == region_scrolled(
                old(self).rows(),
                count as int,
                region.start as int,
                region.end as int,
                Seq::new(old(self).cols() as nat, |_x: int| fill),
            ),
            ({
                let amount = if count < 0 { -(count as int) } else { count as int };
                &&& count == 0 ==> final(self).all_dirty() == old(self).all_dirty()
                &&& count != 0 && amount >= region.end - region.start ==> final(self).all_dirty() == Seq::new(
                    old(self).lines() as nat,
                    |y: int| if region.start <= y < region.end { true } else { old(self).all_dirty()[y] },
                )
                &&& count != 0 && amount < region.end - region.start ==> final(self).all_dirty() == Seq::new(
                    old(self).lines() as nat,
                    |_y: int| true,
                )
            }),
            final(self).dirty() == old(self).dirty(),
            final(self).cols() == old(self).cols() && final(self).lines() == old(self).lines(),
            final(self).saved() == old(self).saved(),
    {
        let ghost blank = Seq::new(old(self).cols() as nat, |_x: int| fill);
        let ghost r0 = old(self).rows();
        let ghost d0 = old(self).all_dirty();
        proof {
            self.lemma_shape();
        }
        if count == 0 {
            return;
        }
        let start = region.start;
        let end = region.end;
        let h = self.height;
        let nscroll = end - start;
        let amount: u64 = if count < 0 { (-(count as i64)) as u64 } else { count as u64 };
        if amount >= nscroll as u64 {
            let mut y = start;
            while y < end
                invariant
                    self.wf(),
                    self.ready(),
                    start <= y <= end <= h,
                    self.height == h && self.width == old(self).width,
                    self.saved_cursor_pos == old(self).saved_cursor_pos,
                    self.line_dirty@ == old(self).line_dirty@,
                    blank == Seq::new(old(self).cols() as nat, |_x: int| fill),
                    self.rows() == Seq::new(h as nat, |i: int| if start <= i < y { blank } else { r0[i] }),
                    self.all_dirty() == Seq::new(h as nat, |i: int| if start <= i < y { true } else { d0[i] }),
                decreases end - y,
            {
                self.clear_line(y, fill);
                assert(self.rows() =~= Seq::new(h as nat, |i: int| if start <= i < y + 1 { blank } else { r0[i] }));
                assert(self.all_dirty() =~= Seq::new(h as nat, |i: int| if start <= i < y + 1 { true } else { d0[i] }));
                y += 1;
            }
            assert(self.rows() =~= region_scrolled(r0, count as int, start as int, end as int, blank));
            return;
        }
        let c = amount as u32;
        if count < 0 {
            let mut i = end - c;
            while i > start
                invariant
                    self.wf(),
                    self.ready(),
                    start <= i <= end - c,
                    0 < c < end - start,
                    end <= h,
                    self.height == h && self.width == old(self).width,
                    self.saved_cursor_pos == old(self).saved_cursor_pos,
                    self.line_dirty@ == old(self).line_dirty@,
                    self.line_all_dirty@ == old(self).line_all_dirty@,
                    self.rows() == Seq::new(h as nat, |y: int| if i + c <= y < end { r0[y - c] } else { r0[y] }),
                decreases i,
            {
                i -= 1;
                self.copy_line(i + c, i);
                assert(self.rows() =~= Seq::new(h as nat, |y: int| if i + c <= y < end { r0[y - c] } else { r0[y] }));
            }
            let mut j = start + c;
            while j > start
                invariant
                    self.wf(),
                    self.ready(),
                    start <= j <= start + c,
                    0 < c < end - start,
                    end <= h,
                    self.height == h && self.width == old(self).width,
                    self.saved_cursor_pos == old(self).saved_cursor_pos,
                    self.line_dirty@ == old(self).line_dirty@,
                    blank == Seq::new(old(self).cols() as nat, |_x: int| fill),
                    self.rows() == Seq::new(
                        h as nat,
                        |y: int| if j <= y < start + c { blank } else if start + c <= y < end { r0[y - c] } else { r0[y] },
                    ),
                decreases j,
            {
                j -= 1;
                self.clear_line(j, fill);
                assert(self.rows() =~= Seq::new(
                    h as nat,
                    |y: int| if j <= y < start + c { blank } else if start + c <= y < end { r0[y - c] } else { r0[y] },
                ));
            }
        } else {
            let mut i = start;
            while i < end - c
                invariant
                    self.wf(),
                    self.ready(),
                    start <= i <= end - c,
                    0 < c < end - start,
                    end <= h,
                    self.height == h && self.width == old(self).width,
                    self.saved_cursor_pos == old(self).saved_cursor_pos,
                    self.line_dirty@ == old(self).line_dirty@,
                    self.line_all_dirty@ == old(self).line_all_dirty@,
                    self.rows() == Seq::new(h as nat, |y: int| if start <= y < i { r0[y + c] } else { r0[y] }),
                decreases end - c - i,
            {
                self.copy_line(i, i + c);
                assert(self.rows() =~= Seq::new(h as nat, |y: int| if start <= y < i + 1 { r0[y + c] } else { r0[y] }));
                i += 1;
            }
            let mut j = end - c;
            while j < end
                invariant
                    self.wf(),
                    self.ready(),
                    end - c <= j <= end,
                    0 < c < end - start,
                    end <= h,
                    self.height == h && self.width == old(self).width,
                    self.saved_cursor_pos == old(self).saved_cursor_pos,
                    self.line_dirty@ == old(self).line_dirty@,
                    blank == Seq::new(old(self).cols() as nat, |_x: int| fill),
                    self.rows() == Seq::new(
                        h as nat,
                        |y: int| if start <= y < end - c { r0[y + c] } else if end - c <= y < j { blank } else { r0[y] },
                    ),
                decreases end - j,
            {
                self.clear_line(j, fill);
                assert(self.rows() =~= Seq::new(
                    h as nat,
                    |y: int| if start <= y < end - c { r0[y + c] } else if end - c <= y < j + 1 { blank } else { r0[y] },
                ));
                j += 1;
            }
        }
        self.line_all_dirty.fill(true);
        assert(self.rows() =~= region_scrolled(r0, count as int, start as int, end as int, blank));
        assert(self.all_dirty() =~= Seq::new(old(self).lines() as nat, |_y: int| true));
    }

    /// Whether row `y` holds a character.
    fn row_has_text(&self, y: u32) -> (r: bool)
        requires
            self.wf(),
            self.ready(),
            y < self.lines(),
        ensures
            r == has_text(self.rows()[y as int]),
    {
        proof {
            self.lemma_shape();
        }
        let base = self.row_index(y);
        let w = self.width as usize;
        let mut x: usize = 0;
        while x < w
            invariant
                base + w <= self.buffer@.len(),
                self.buffer@.len() <= usize::MAX,
                base == ring_start(self.begin as int, self.width as int, self.height as int, y as int),
                w == self.width,
                y < self.height,
                x <= w,
                forall|t: int| 0 <= t < x ==> (#[trigger] self.rows()[y as int][t]).ch == '\0',
            decreases w - x,
        {
            let c = self.buffer.get(base + x);
            assert(c == self.rows()[y as int][x as int]);
            if c.ch != '\0' {
                return true;
            }
            x += 1;
        }
        false
    }

    /// Changes the size to `width` by `height` (see [`resized_rows`]): a
    /// released buffer is sized as by `init`; otherwise, when shrinking,
    /// the screen first scrolls up as far as text would fall off the
    /// bottom, and the saved cursor follows (its column clamped to the new
    /// width). All rows beyond the old height are marked changed.
    pub fn resize(&mut self, width: u32, height: u32, fill: Char)
        requires
            old(self).wf(),
            width >= 1,
            height >= 1,
            height <= i32::MAX,
            width * height <= usize::MAX,
        ensures
            final(self).wf(),
            final(self).ready(),
            final(self).cols() == width && final(self).lines() == height,
            !old(self).ready() ==> {
                &&& final(self).rows() == Seq::new(height as nat, |_y: int| Seq::new(width as nat, |_x: int| fill))
                &&& final(self).dirty() == Seq::new(height as nat, |_y: int| false)
                &&& final(self).all_dirty() == Seq::new(height as nat, |_y: int| false)
                &&& final(self).saved() == (CursorPosition { col: 0, row: 0 })
            },
            old(self).ready() && old(self).cols() == width && old(self).lines() == height ==> {
                &&& final(self).rows() == old(self).rows()
                &&& final(self).dirty() == old(self).dirty()
                &&& final(self).all_dirty() == old(self).all_dirty()
                &&& final(self).saved() == old(self).saved()
            },
            old(self).ready() && !(old(self).cols() == width && old(self).lines() == height) ==> {
                let dh = resize_scroll(old(self).rows(), old(self).lines() as int, height as int);
                &&& final(self).rows() == resized_rows(
                    old(self).rows(),
                    old(self).cols() as int,
                    old(self).lines() as int,
                    width as int,
                    height as int,
                    fill,
                )
                &&& final(self).saved() == (CursorPosition {
                    col: if old(self).saved().col < width - 1 { old(self).saved().col } else { (width - 1) as u32 },
                    row: if old(self).saved().row >= dh { (old(self).saved().row - dh) as u32 } else { 0 },
                })
                &&& final(self).dirty() == Seq::new(
                    height as nat,
                    |y: int| if y < old(self).lines() { old(self).dirty()[y] } else { true },
                )
                &&& final(self).all_dirty() == Seq::new(
                    height as nat,
                    |y: int| if y < old(self).lines() { old(self).all_dirty()[y] } else { true },
                )
            },
    {
        if self.buffer.len() == 0 {
            self.init(width, height, fill);
            return;
        }
        if self.width == width && self.height == height {
            return;
        }
        proof {
            self.lemma_shape();
        }
        let ghost r0 = old(self).rows();
        let old_w = self.width;
        let old_h = self.height;
        let mut dh: u32 = 0;
        if height < old_h {
            dh = old_h - height;
            let mut y = old_h;
            let mut found = false;
            while y > height && !found
                invariant
                    self.wf(),
                    self.ready(),
                    self.rows() == r0,
                    self.height == old_h,
                    height <= y <= old_h,
                    dh == (old_h - height) - (old_h - y),
                    empty_tail(r0, height as int, old_h as int) == (old_h - y) + empty_tail(r0, height as int, y as int),
                    found ==> y > height && has_text(r0[y - 1]),
                decreases y + (if found { 0int } else { 1int }),
            {
                if self.row_has_text(y - 1) {
                    found = true;
                } else {
                    dh -= 1;
                    y -= 1;
                }
            }
            assert(dh == resize_scroll(r0, old_h as int, height as int));
            if dh > 0 {
                self.scroll_without_clear(dh as i32);
            }
        }
        assert(dh == resize_scroll(r0, old_h as int, height as int));
        let ghost turned = self.rows();
        assert(turned == if dh > 0 { rotated(r0, dh as int) } else { r0 });
        let n = (width as usize) * (height as usize);
        let mut buffer = CharVec::filled(fill, n);
        let copy_w = if width < old_w { width } else { old_w } as usize;
        let copy_h = if height < old_h { height } else { old_h };
        proof {
            assert forall|yy: int| 0 <= yy < height implies #[trigger] ring_rows(buffer@, 0, width as int, height as int)[yy]
                == Seq::new(width as nat, |x: int| if yy < 0 && x < old_w { turned[yy][x] } else { fill }) by {
                lemma_ring_row_inside(0, width as int, height as int, yy);
                assert(ring_rows(buffer@, 0, width as int, height as int)[yy] =~= Seq::new(
                    width as nat,
                    |x: int| if yy < 0 && x < old_w { turned[yy][x] } else { fill },
                ));
            }
            assert(ring_rows(buffer@, 0, width as int, height as int) =~= Seq::new(
                height as nat,
                |yy: int| Seq::new(width as nat, |x: int| if yy < 0 && x < old_w { turned[yy][x] } else { fill }),
            ));
        }
        let mut y: u32 = 0;
        while y < copy_h
            invariant
                self.wf(),
                self.ready(),
                self.rows() == turned,
                self.height == old_h && self.width == old_w,
                width >= 1 && height >= 1,
                width * height <= usize::MAX,
                copy_w == (if width < old_w { width } else { old_w }),
                copy_h == (if height < old_h { height } else { old_h }),
                copy_h <= height && copy_h <= old_h,
                copy_w <= width && copy_w <= old_w,
                n == width * height,
                buffer@.len() == n,
                y <= copy_h,
                ring_rows(buffer@, 0, width as int, height as int) == Seq::new(
                    height as nat,
                    |yy: int| Seq::new(width as nat, |x: int| if yy < y && x < old_w { turned[yy][x] } else { fill }),
                ),
            decreases copy_h - y,
        {
            let src = self.row_index(y);
            assert((y as int) * (width as int) + width <= width * height) by (nonlinear_arith)
                requires
                    y < height,
                    width >= 1,
            ;
            let dst = (y as usize) * (width as usize);
            proof {
                lemma_ring_row_inside(0, width as int, height as int, y as int);
                vstd::arithmetic::div_mod::lemma_small_mod(y as nat, height as nat);
            }
            let ghost before = buffer@;
            buffer.copy_from(dst, &self.buffer, src, copy_w);
            proof {
                let row = Seq::new(width as nat, |x: int| if x < old_w { turned[y as int][x] } else { fill });
                let before_row = ring_rows(before, 0, width as int, height as int)[y as int];
                assert(before_row == before.subrange(dst as int, dst + width));
                assert(crate::row::copy_range(before, dst as int, self.buffer@, src as int, copy_w as int) =~= splice(
                    before,
                    dst as int,
                    row,
                )) by {
                    assert forall|t: int| 0 <= t < width implies #[trigger] row[t] == (if t < copy_w {
                        self.buffer@[src + t]
                    } else {
                        before[dst + t]
                    }) by {
                        if t < copy_w {
                            assert(self.rows()[y as int] == self.buffer@.subrange(src as int, src + old_w));
                            assert(self.rows()[y as int][t] == self.buffer@[src + t]);
                            assert(turned[y as int][t] == self.rows()[y as int][t]);
                        } else {
                            assert(before_row[t] == fill);
                            assert(before[dst + t] == before_row[t]);
                        }
                    }
                    assert(row.len() == width);
                }
                lemma_ring_write_row(before, 0, width as int, height as int, y as int, row);
                assert(ring_rows(buffer@, 0, width as int, height as int) =~~= Seq::new(
                    height as nat,
                    |yy: int| Seq::new(width as nat, |x: int| if yy < y + 1 && x < old_w { turned[yy][x] } else { fill }),
                ));
            }
            y += 1;
        }
        let saved = self.saved_cursor_pos;
        self.buffer = buffer;
        self.begin = 0;
        self.width = width;
        self.height = height;
        self.saved_cursor_pos = CursorPosition {
            col: if saved.col < width - 1 { saved.col } else { width - 1 },
            row: if saved.row >= dh { saved.row - dh } else { 0 },
        };
        self.line_dirty.resize(height as usize, true);
        self.line_all_dirty.resize(height as usize, true);
        assert(n > 0) by (nonlinear_arith)
            requires
                n == width * height,
                width >= 1,
                height >= 1,
        ;
        assert(self.rows() =~~= resized_rows(r0, old_w as int, old_h as int, width as int, height as int, fill));
        assert(self.dirty() =~= Seq::new(height as nat, |yy: int| if yy < old_h { old(self).dirty()[yy] } else { true }));
        assert(self.all_dirty() =~= Seq::new(height as nat, |yy: int| if yy < old_h { old(self).all_dirty()[yy] } else { true }));
    }

    /// The alternate buffer keeps no history: it has none to show.
    pub fn history_size(&self) -> (r: u32)
        ensures
            r == 0,
    {
        0
    }
}

} // verus!
