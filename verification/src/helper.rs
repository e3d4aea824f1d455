//! Small helpers shared by the rest of the library: branch hints, a bounded
//! byte writer and decimal formatting of integers.

use vstd::prelude::*;

use crate::utf8::{char_to_utf8, char_utf8};
use vstd::string::StringSliceAdditionalSpecFns;

verus! {

/// Branch hint: the condition is expected to hold. Returns its argument.
pub fn likely(b: bool) -> (r: bool)
    ensures
        r == b,
{
    b
}

/// Branch hint: the condition is expected not to hold. Returns its argument.
pub fn unlikely(b: bool) -> (r: bool)
    ensures
        r == b,
{
    b
}

/// The ASCII digit for a value below ten.
pub open spec fn digit(d: nat) -> u8 {
    (48 + d) as u8
}

/// The decimal representation of `n`, most significant digit first, without
/// leading zeros (zero is written as a single `0`).
pub open spec fn dec_digits(n: nat) -> Seq<u8>
    decreases n,
{
    if n < 10 {
        seq![digit(n)]
    } else {
        dec_digits(n / 10).push(digit(n % 10))
    }
}

/// Appends the decimal representation of `n` to `out`.
pub fn push_decimal(out: &mut Vec<u8>, n: u32)
    ensures
        final(out)@ == old(out)@ + dec_digits(n as nat),
    decreases n,
{
    if n >= 10 {
        push_decimal(out, n / 10);
    }
    out.push(48u8 + (n % 10) as u8);
    assert(final(out)@ =~= old(out)@ + dec_digits(n as nat));
}

/// Appends all of `bytes` to `out`.
pub fn push_all(out: &mut Vec<u8>, bytes: &[u8])
    ensures
        final(out)@ == old(out)@ + bytes@,
{
    let mut i: usize = 0;
    while i < bytes.len()
        invariant
            i <= bytes@.len(),
            out@ == old(out)@ + bytes@.take(i as int),
        decreases bytes.len() - i,
    {
        out.push(bytes[i]);
        i += 1;
        assert(out@ =~= old(out)@ + bytes@.take(i as int));
    }
    assert(bytes@.take(bytes@.len() as int) =~= bytes@);
}

/// What a writer over `cap` bytes holds after the writes `ws`, in order,
/// from empty: each write is appended when it fits in the space left, and
/// refused otherwise.
pub open spec fn written_after(cap: nat, ws: Seq<Seq<u8>>) -> Seq<u8>
    decreases ws.len(),
{
    if ws.len() == 0 {
        Seq::empty()
    } else {
        let prev = written_after(cap, ws.drop_last());
        if prev.len() + ws.last().len() <= cap {
            prev + ws.last()
        } else {
            prev
        }
    }
}

/// Whether write `i` of `ws` is taken: the bytes taken before it and its
/// own fit in `cap`.
pub open spec fn write_taken(cap: nat, ws: Seq<Seq<u8>>, i: int) -> bool {
    written_after(cap, ws.take(i)).len() + ws[i].len() <= cap
}

/// The first `n` writes of `ws` that are taken, one after another.
pub open spec fn taken_writes(cap: nat, ws: Seq<Seq<u8>>, n: int) -> Seq<u8>
    decreases n,
{
    if n <= 0 {
        Seq::empty()
    } else {
        taken_writes(cap, ws, n - 1) + if write_taken(cap, ws, n - 1) {
            ws[n - 1]
        } else {
            Seq::empty()
        }
    }
}

/// After a sequence of writes, a writer holds the writes it took, in
/// order, and never more than its slice: a write is refused exactly when
/// the bytes taken before it and its own exceed the slice, and a refused
/// write stores nothing.
pub proof fn law_buf_writes(cap: nat, ws: Seq<Seq<u8>>)
    ensures
        written_after(cap, ws) == taken_writes(cap, ws, ws.len() as int),
        written_after(cap, ws).len() <= cap,
    decreases ws.len(),
{
    if ws.len() > 0 {
        let n = ws.len() - 1;
        let prefix = ws.drop_last();
        law_buf_writes(cap, prefix);
        assert(ws.take(n) =~= prefix);
        lemma_taken_prefix(cap, ws, prefix, n);
    }
}

/// The taken writes among the first `k` of `ws` are those of a prefix of
/// `ws` that holds them.
proof fn lemma_taken_prefix(cap: nat, ws: Seq<Seq<u8>>, prefix: Seq<Seq<u8>>, k: int)
    requires
        0 <= k <= prefix.len() < ws.len(),
        prefix == ws.take(prefix.len() as int),
    ensures
        taken_writes(cap, ws, k) == taken_writes(cap, prefix, k),
    decreases k,
{
    if k > 0 {
        lemma_taken_prefix(cap, ws, prefix, k - 1);
        assert(ws.take(k - 1) =~= prefix.take(k - 1));
        assert(ws[k - 1] == prefix[k - 1]);
    }
}

/// A writer over a caller-provided byte slice. It fills the slice from the
/// start and refuses a write that does not fit in the remaining space.
pub struct BufWriter<'buf> {
    buf: &'buf mut [u8],
    pos: usize,
}

impl<'buf> BufWriter<'buf> {
    /// The bytes written so far.
    pub closed spec fn written(&self) -> Seq<u8> {
        self.buf@.take(self.pos as int)
    }

    /// The length of the underlying slice.
    pub closed spec fn capacity(&self) -> nat {
        self.buf@.len()
    }

    /// The written prefix never extends past the underlying slice.
    pub closed spec fn wf(&self) -> bool {
        self.pos <= self.buf@.len()
    }

    /// Creates a writer that starts at the beginning of `buf`.
    pub fn new(buf: &'buf mut [u8]) -> (r: Self)
        ensures
            r.wf(),
            r.written() == Seq::<u8>::empty(),
            r.capacity() == old(buf)@.len(),
    {
        BufWriter { buf, pos: 0 }
    }

    /// Number of bytes written so far.
    pub fn len(&self) -> (r: usize)
        requires
            self.wf(),
        ensures
            r == self.written().len(),
    {
        self.pos
    }

    /// Appends `bytes` when they fit in the remaining space; otherwise writes
    /// nothing and fails.
    pub fn write_bytes(&mut self, bytes: &[u8]) -> (r: Result<(), ()>)
        requires
            old(self).wf(),
        ensures
            final(self).wf(),
            final(self).capacity() == old(self).capacity(),
            old(self).written().len() + bytes@.len() <= old(self).capacity() ==> r is Ok
                && final(self).written() == old(self).written() + bytes@,
            old(self).written().len() + bytes@.len() > old(self).capacity() ==> r is Err
                && final(self).written() == old(self).written(),
            forall|ws: Seq<Seq<u8>>| #[trigger] written_after(old(self).capacity(), ws) == old(self).written()
                ==> written_after(old(self).capacity(), ws.push(bytes@)) == final(self).written(),
    {
        assert forall|ws: Seq<Seq<u8>>| #[trigger] written_after(old(self).capacity(), ws) == old(self).written()
            implies ws.push(bytes@).drop_last() == ws && ws.push(bytes@).last() == bytes@ by {
            assert(ws.push(bytes@).drop_last() =~= ws);
        }
        let cap = self.buf.len();
        if bytes.len() > cap - self.pos {
            return Err(());
        }
        let mut i: usize = 0;
        while i < bytes.len()
            invariant
                cap == self.buf@.len(),
                self.pos + bytes.len() <= self.buf@.len(),
                i <= bytes.len(),
                self.pos == old(self).pos,
                self.buf@.len() == old(self).buf@.len(),
                self.buf@.take(self.pos as int) == old(self).written(),
                forall|j: int| 0 <= j < i ==> self.buf@[self.pos + j] == bytes@[j],
            decreases bytes.len() - i,
        {
            self.buf[self.pos + i] = bytes[i];
            i += 1;
        }
        self.pos = self.pos + bytes.len();
        assert(self.written() =~= old(self).written() + bytes@);
        Ok(())
    }

    /// Gives back the written prefix of the underlying slice.
    pub fn into_slice(self) -> (r: &'buf [u8])
        requires
            self.wf(),
        ensures
            r@ == self.written(),
    {
        let pos = self.pos;
        let buf: &'buf [u8] = self.buf;
        vstd::slice::slice_subrange(buf, 0, pos)
    }
}


/// `String::push`: appends `c` to `s`.
#[verifier::external_body]
pub fn push_char(s: &mut String, c: char)
    ensures
        final(s)@ == old(s)@.push(c),
{
    s.push(c);
}

/// Input for the terminal: up to four bytes held inline (one byte, or one
/// character in UTF-8) with the number of them in use, or bytes borrowed
/// from the caller.
pub enum TerminalProcessInput<'input> {
    /// Inline bytes and how many of them are in use.
    Inner([u8; 4], u8),
    /// Borrowed bytes.
    Outer(&'input [u8]),
}

/// A slice that holds exactly `s`.
pub open spec fn slice_holding<'a>(s: Seq<u8>) -> &'a [u8] {
    choose|b: &'a [u8]| b@ == s
}

/// The UTF-8 form of `c`, padded with zeros to four bytes.
pub open spec fn utf8_block(c: char) -> [u8; 4] {
    let e = char_utf8(c);
    [
        e[0],
        if e.len() > 1 { e[1] } else { 0u8 },
        if e.len() > 2 { e[2] } else { 0u8 },
        if e.len() > 3 { e[3] } else { 0u8 },
    ]
}

impl<'input> TerminalProcessInput<'input> {
    /// The inline count does not exceed the four inline bytes.
    pub open spec fn wf(&self) -> bool {
        match self {
            TerminalProcessInput::Inner(_, n) => *n <= 4,
            TerminalProcessInput::Outer(_) => true,
        }
    }

    /// The bytes this input stands for.
    pub open spec fn bytes(&self) -> Seq<u8> {
        match self {
            TerminalProcessInput::Inner(b, n) => b@.take(*n as int),
            TerminalProcessInput::Outer(s) => s@,
        }
    }

    /// The bytes this input stands for, as a slice.
    pub fn as_ref(&self) -> (r: &[u8])
        requires
            self.wf(),
        ensures
            r@ == self.bytes(),
    {
        match self {
            TerminalProcessInput::Inner(buf, len) => {
                let all: &[u8] = buf.as_slice();
                vstd::slice::slice_subrange(all, 0, *len as usize)
            },
            TerminalProcessInput::Outer(b) => b,
        }
    }
}

impl From<u8> for TerminalProcessInput<'_> {
    /// The single byte `value`, held inline.
    fn from(value: u8) -> (r: Self) {
        TerminalProcessInput::Inner([value, 0, 0, 0], 1)
    }
}

impl vstd::std_specs::convert::FromSpecImpl<u8> for TerminalProcessInput<'_> {
    open spec fn obeys_from_spec() -> bool {
        true
    }

    open spec fn from_spec(v: u8) -> Self {
        TerminalProcessInput::Inner([v, 0, 0, 0], 1)
    }
}

impl From<char> for TerminalProcessInput<'_> {
    /// The UTF-8 form of `value`, held inline.
    fn from(value: char) -> (r: Self) {
        let e = char_to_utf8(value);
        let n = e.len();
        let b1 = if n > 1 { e[1] } else { 0u8 };
        let b2 = if n > 2 { e[2] } else { 0u8 };
        let b3 = if n > 3 { e[3] } else { 0u8 };
        let block = [e[0], b1, b2, b3];
        proof {
            vstd::array::axiom_array_ext_equal(block, utf8_block(value));
        }
        TerminalProcessInput::Inner(block, n as u8)
    }
}

impl vstd::std_specs::convert::FromSpecImpl<char> for TerminalProcessInput<'_> {
    open spec fn obeys_from_spec() -> bool {
        true
    }

    open spec fn from_spec(v: char) -> Self {
        TerminalProcessInput::Inner(utf8_block(v), char_utf8(v).len() as u8)
    }
}

impl<'input> From<&'input [u8]> for TerminalProcessInput<'input> {
    /// The borrowed bytes `value`.
    fn from(value: &'input [u8]) -> (r: Self) {
        TerminalProcessInput::Outer(value)
    }
}

impl<'input> vstd::std_specs::convert::FromSpecImpl<&'input [u8]> for TerminalProcessInput<'input> {
    open spec fn obeys_from_spec() -> bool {
        true
    }

    open spec fn from_spec(v: &'input [u8]) -> Self {
        TerminalProcessInput::Outer(v)
    }
}

impl<'input> From<&'input str> for TerminalProcessInput<'input> {
    /// The UTF-8 bytes of `value`, borrowed.
    fn from(value: &'input str) -> (r: Self) {
        let b = value.as_bytes();
        assert(b =~= slice_holding(value.spec_bytes()));
        TerminalProcessInput::Outer(b)
    }
}

impl<'input> vstd::std_specs::convert::FromSpecImpl<&'input str> for TerminalProcessInput<'input> {
    open spec fn obeys_from_spec() -> bool {
        true
    }

    open spec fn from_spec(v: &'input str) -> Self {
        TerminalProcessInput::Outer(slice_holding(v.spec_bytes()))
    }
}

impl<'input, const N: usize> From<&'input [u8; N]> for TerminalProcessInput<'input> {
    /// The bytes of the array `arr`, borrowed.
    fn from(arr: &'input [u8; N]) -> (r: Self) {
        let b: &'input [u8] = arr.as_slice();
        assert(b =~= slice_holding(arr@));
        TerminalProcessInput::Outer(b)
    }
}

impl<'input, const N: usize> vstd::std_specs::convert::FromSpecImpl<&'input [u8; N]> for TerminalProcessInput<'input> {
    open spec fn obeys_from_spec() -> bool {
        true
    }

    open spec fn from_spec(arr: &'input [u8; N]) -> Self {
        TerminalProcessInput::Outer(slice_holding(arr@))
    }
}

} // verus!
