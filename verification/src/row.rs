//! Storage of character cells and per-line flags: an aligned vector of
//! cells (`aligned-vec`) and a packed vector of bits (`bitvec`), and the
//! in-row update that writing one cell makes, wide characters included.

use aligned_vec::AVec;
use bitvec::vec::BitVec;
use vstd::prelude::*;

use crate::cell::{spec_is_placeholder, Char};

verus! {

/// A cache-line aligned vector of cells.
#[verifier::external_body]
pub struct CharVec {
    inner: AVec<Char>,
}

/// The cells a [`CharVec`] holds, in order.
pub uninterp spec fn char_vec_cells(v: CharVec) -> Seq<Char>;

impl View for CharVec {
    type V = Seq<Char>;

    open spec fn view(&self) -> Seq<Char> {
        char_vec_cells(*self)
    }
}

/// `s` with the positions `start..end` set to `c`.
pub open spec fn fill_range(s: Seq<Char>, start: int, end: int, c: Char) -> Seq<Char> {
    Seq::new(s.len(), |i: int| if start <= i < end { c } else { s[i] })
}

/// `s` with the positions `dst..dst + n` set to `from[src..src + n]`.
pub open spec fn copy_range(s: Seq<Char>, dst: int, from: Seq<Char>, src: int, n: int) -> Seq<Char> {
    Seq::new(s.len(), |i: int| if dst <= i < dst + n { from[src + (i - dst)] } else { s[i] })
}

impl CharVec {
    /// `AVec::new`: an empty vector.
    #[verifier::external_body]
    pub(crate) fn empty() -> (r: CharVec)
        ensures
            char_vec_cells(r) == Seq::<Char>::empty(),
    {
        CharVec { inner: AVec::new(0) }
    }

    /// `AVec::from_iter` over `n` copies of `fill` (what `avec![fill; n]`
    /// expands to): a vector of `n` cells equal to `fill`.
    #[verifier::external_body]
    pub(crate) fn filled(fill: Char, n: usize) -> (r: CharVec)
        ensures
            char_vec_cells(r) == Seq::new(n as nat, |_i: int| fill),
    {
        CharVec { inner: AVec::from_iter(0, core::iter::repeat(fill).take(n)) }
    }

    /// `AVec::len`: the number of cells.
    #[verifier::external_body]
    pub(crate) fn len(&self) -> (r: usize)
        ensures
            r == char_vec_cells(*self).len(),
    {
        self.inner.len()
    }

    /// Indexing an `AVec`: the cell at `i`.
    #[verifier::external_body]
    pub(crate) fn get(&self, i: usize) -> (r: Char)
        requires
            i < char_vec_cells(*self).len(),
        ensures
            r == char_vec_cells(*self)[i as int],
    {
        self.inner[i]
    }

    /// Assigning through an index of an `AVec`: the cell at `i` becomes `c`.
    #[verifier::external_body]
    pub(crate) fn set(&mut self, i: usize, c: Char)
        requires
            i < char_vec_cells(*old(self)).len(),
        ensures
            char_vec_cells(*final(self)) == char_vec_cells(*old(self)).update(i as int, c),
    {
        self.inner[i] = c;
    }

    /// `fill` on a subslice of an `AVec`: positions `start..end` become `c`.
    #[verifier::external_body]
    pub(crate) fn fill(&mut self, start: usize, end: usize, c: Char)
        requires
            start <= end <= char_vec_cells(*old(self)).len(),
        ensures
            char_vec_cells(*final(self)) == fill_range(char_vec_cells(*old(self)), start as int, end as int, c),
    {
        self.inner[start..end].fill(c);
    }

    /// `copy_within` on an `AVec`: the `n` cells at `src` are copied to `dst`
    /// (the ranges may overlap).
    #[verifier::external_body]
    pub(crate) fn copy_within(&mut self, src: usize, n: usize, dst: usize)
        requires
            src + n <= char_vec_cells(*old(self)).len(),
            dst + n <= char_vec_cells(*old(self)).len(),
        ensures
            char_vec_cells(*final(self)) == copy_range(char_vec_cells(*old(self)), dst as int, char_vec_cells(*old(self)), src as int, n as int),
    {
        self.inner.copy_within(src..src + n, dst);
    }

    /// `copy_from_slice` between two `AVec`s: the `n` cells of `from` at
    /// `src` are copied to `dst`.
    #[verifier::external_body]
    pub(crate) fn copy_from(&mut self, dst: usize, from: &CharVec, src: usize, n: usize)
        requires
            src + n <= char_vec_cells(*from).len(),
            dst + n <= char_vec_cells(*old(self)).len(),
        ensures
            char_vec_cells(*final(self)) == copy_range(char_vec_cells(*old(self)), dst as int, char_vec_cells(*from), src as int, n as int),
    {
        self.inner[dst..dst + n].copy_from_slice(&from.inner[src..src + n]);
    }

    /// `AVec::clear`: removes every cell.
    #[verifier::external_body]
    pub(crate) fn clear(&mut self)
        ensures
            char_vec_cells(*final(self)) == Seq::<Char>::empty(),
    {
        self.inner.clear();
    }
}

/// A packed vector of flags.
#[verifier::external_body]
pub struct FlagVec {
    inner: BitVec,
}

/// The flags a [`FlagVec`] holds, in order.
pub uninterp spec fn flag_vec_bits(v: FlagVec) -> Seq<bool>;

impl View for FlagVec {
    type V = Seq<bool>;

    open spec fn view(&self) -> Seq<bool> {
        flag_vec_bits(*self)
    }
}

impl FlagVec {
    /// `BitVec::new`: no flags.
    #[verifier::external_body]
    pub(crate) fn empty() -> (r: FlagVec)
        ensures
            flag_vec_bits(r) == Seq::<bool>::empty(),
    {
        FlagVec { inner: BitVec::new() }
    }

    /// Indexing a `BitVec`: the flag at `i`.
    #[verifier::external_body]
    pub(crate) fn get(&self, i: usize) -> (r: bool)
        requires
            i < flag_vec_bits(*self).len(),
        ensures
            r == flag_vec_bits(*self)[i as int],
    {
        self.inner[i]
    }

    /// `BitSlice::set`: the flag at `i` becomes `v`.
    #[verifier::external_body]
    pub(crate) fn set(&mut self, i: usize, v: bool)
        requires
            i < flag_vec_bits(*old(self)).len(),
        ensures
            flag_vec_bits(*final(self)) == flag_vec_bits(*old(self)).update(i as int, v),
    {
        self.inner.set(i, v);
    }

    /// `BitSlice::fill`: every flag becomes `v`.
    #[verifier::external_body]
    pub(crate) fn fill(&mut self, v: bool)
        ensures
            flag_vec_bits(*final(self)) == Seq::new(flag_vec_bits(*old(self)).len(), |_i: int| v),
    {
        self.inner.fill(v);
    }

    /// `BitVec::resize`: truncates to `n` flags, or appends copies of `v` up
    /// to `n`.
    #[verifier::external_body]
    pub(crate) fn resize(&mut self, n: usize, v: bool)
        ensures
            flag_vec_bits(*final(self)) == Seq::new(
                n as nat,
                |i: int| if i < flag_vec_bits(*old(self)).len() { flag_vec_bits(*old(self))[i] } else { v },
            ),
    {
        self.inner.resize(n, v);
    }

    /// `BitVec::clear`: removes every flag.
    #[verifier::external_body]
    pub(crate) fn clear(&mut self)
        ensures
            flag_vec_bits(*final(self)) == Seq::<bool>::empty(),
    {
        self.inner.clear();
    }
}

/// The cell with the attributes of `c` and no content.
pub open spec fn emptied(c: Char) -> Char {
    Char { ch: '\0', width: 1, dirty: true, ..c }
}

/// The placeholder with the attributes of `c`.
pub open spec fn held(c: Char) -> Char {
    Char { ch: '\0', width: 0, dirty: true, ..c }
}

/// `s` with `row` written over its positions `base..base + row.len()`.
pub open spec fn splice(s: Seq<Char>, base: int, row: Seq<Char>) -> Seq<Char> {
    s.subrange(0, base) + row + s.subrange(base + row.len(), s.len() as int)
}

/// Going left from `j`, the first position that does not hold a placeholder
/// (position 0 when all do).
pub open spec fn run_start(row: Seq<Char>, j: int) -> int
    decreases j,
{
    if j <= 0 || !spec_is_placeholder(row[j]) {
        if j < 0 { 0 } else { j }
    } else {
        run_start(row, j - 1)
    }
}

/// Going right from `j`, the first position that does not hold a
/// placeholder (the row length when all do).
pub open spec fn run_end(row: Seq<Char>, j: int) -> int
    decreases row.len() - j,
{
    if j >= row.len() || !spec_is_placeholder(row[j]) {
        j
    } else {
        run_end(row, j + 1)
    }
}

/// The row after writing `cell` at column `x`: the cell goes to `x`; the
/// columns the old cell covered become empty; when the old cell was a
/// placeholder, the wide character it belonged to is cleared (leftwards
/// through the first non-placeholder, rightwards through the placeholders
/// that follow); then a wide cell claims the columns after it with
/// placeholders. Every step stays inside the row.
pub open spec fn row_with(row: Seq<Char>, x: int, cell: Char) -> Seq<Char> {
    let n = row.len() as int;
    let old_cell = row[x];
    let s1 = row.update(x, cell);
    let s2 = if old_cell.width > 1 {
        fill_range(s1, x + 1, if x + old_cell.width <= n { x + old_cell.width } else { n }, emptied(cell))
    } else {
        s1
    };
    let s3 = if spec_is_placeholder(old_cell) {
        fill_range(
            fill_range(s2, if x > 0 { run_start(row, x - 1) } else { x }, x, emptied(cell)),
            x + 1,
            run_end(row, x + 1),
            emptied(cell),
        )
    } else {
        s2
    };
    if cell.width > 1 {
        fill_range(s3, x + 1, if x + cell.width <= n { x + cell.width } else { n }, held(cell))
    } else {
        s3
    }
}

/// The cell with its change mark taken off.
pub open spec fn cleaned(c: Char) -> Char {
    Char { dirty: false, ..c }
}

/// Takes the change mark off the cell at column `x` of the row stored at
/// `base..base + n` of `v`; nothing else changes.
pub(crate) fn clean_cell(v: &mut CharVec, base: usize, n: usize, x: usize)
    requires
        base + n <= old(v)@.len(),
        x < n,
    ensures
        final(v)@ == splice(
            old(v)@,
            base as int,
            old(v)@.subrange(base as int, base + n).update(x as int, cleaned(old(v)@[base + x])),
        ),
{
    let _total = v.len();
    let c = v.get(base + x);
    v.set(base + x, Char { dirty: false, ..c });
    assert(v@ =~= splice(
        old(v)@,
        base as int,
        old(v)@.subrange(base as int, base + n).update(x as int, cleaned(old(v)@[base + x])),
    ));
}

/// Writes `cell` at column `x` of the row stored at `base..base + n` of `v`
/// and returns the cell it replaced; see [`row_with`].
pub(crate) fn write_cell(v: &mut CharVec, base: usize, n: usize, x: usize, cell: Char) -> (r: Char)
    requires
        base + n <= old(v)@.len(),
        x < n,
    ensures
        r == old(v)@[base + x],
        final(v)@ == splice(old(v)@, base as int, row_with(old(v)@.subrange(base as int, base + n), x as int, cell)),
{
    let ghost row = old(v)@.subrange(base as int, base + n);
    let ghost s0 = old(v)@;
    let total = v.len();
    let old_cell = v.get(base + x);
    let e = cell.as_empty();
    v.set(base + x, cell);
    let ghost s1 = row.update(x as int, cell);
    assert(v@ =~= splice(s0, base as int, s1));
    if old_cell.width > 1 {
        let w = old_cell.width as usize;
        let end = if w <= n - x { x + w } else { n };
        v.fill(base + x + 1, base + end, e);
        assert(v@ =~= splice(s0, base as int, fill_range(s1, x + 1, end as int, e)));
    }
    let ghost s2 = if old_cell.width > 1 {
        fill_range(s1, x + 1, if x + old_cell.width <= n { x + old_cell.width } else { n as int }, e)
    } else {
        s1
    };
    assert(v@ == splice(s0, base as int, s2));
    if old_cell.is_placeholder() {
        let mut j = x;
        let mut stop = false;
        while j > 0 && !stop
            invariant
                base + n <= s0.len(),
                s0.len() == total,
                row == s0.subrange(base as int, base + n),
                x < n,
                j <= x,
                s2.len() == n,
                spec_is_placeholder(row[x as int]),
                forall|t: int| 0 <= t < n && t != x ==> s2[t] == row[t],
                v@ == splice(s0, base as int, fill_range(s2, j as int, x as int, e)),
                x > 0 ==> (stop ==> run_start(row, x - 1) == j),
                x > 0 && !stop ==> (j == x || spec_is_placeholder(row[j as int])),
                x > 0 && !stop && j > 0 ==> run_start(row, x - 1) == run_start(row, j - 1),
                x > 0 && !stop && j == 0 ==> run_start(row, x - 1) == 0,
            decreases j,
        {
            let ghost before = fill_range(s2, j as int, x as int, e);
            j = j - 1;
            let c = v.get(base + j);
            assert(c == row[j as int]);
            v.set(base + j, e);
            assert(v@ =~= splice(s0, base as int, fill_range(s2, j as int, x as int, e)));
            if !c.is_placeholder() {
                stop = true;
            }
        }
        let ghost s25 = fill_range(s2, if x > 0 { run_start(row, x - 1) } else { x as int }, x as int, e);
        assert(v@ == splice(s0, base as int, s25));
        let mut k = x + 1;
        while k < n && v.get(base + k).is_placeholder()
            invariant
                base + n <= s0.len(),
                s0.len() == total,
                row == s0.subrange(base as int, base + n),
                x < k <= n,
                s25.len() == n,
                forall|t: int| x < t < n ==> s25[t] == row[t],
                v@ == splice(s0, base as int, fill_range(s25, x + 1, k as int, e)),
                run_end(row, x + 1) == run_end(row, k as int),
            decreases n - k,
        {
            v.set(base + k, e);
            assert(v@ =~= splice(s0, base as int, fill_range(s25, x + 1, k + 1, e)));
            k = k + 1;
        }
        assert(run_end(row, k as int) == k);
    }
    if cell.width > 1 {
        let w = cell.width as usize;
        let end = if w <= n - x { x + w } else { n };
        v.fill(base + x + 1, base + end, cell.as_placeholder());
    }
    assert(v@ =~= splice(s0, base as int, row_with(row, x as int, cell)));
    old_cell
}

} // verus!
