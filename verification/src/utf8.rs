//! UTF-8 encoding of characters.

use vstd::prelude::*;
use vstd::utf8::*;

verus! {

/// The UTF-8 encoding of one character.
pub open spec fn char_utf8(c: char) -> Seq<u8> {
    encode_scalar(c as u32)
}

/// Appends the UTF-8 encoding of `c` to `out`.
pub fn push_utf8(out: &mut Vec<u8>, c: char)
    ensures
        final(out)@ == old(out)@ + char_utf8(c),
{
    proof { char_is_scalar(c); }
    push_scalar(out, c as u32);
}

/// Appends the UTF-8 encoding of the Unicode scalar value `v` to `out`.
pub fn push_scalar(out: &mut Vec<u8>, v: u32)
    requires
        is_scalar(v),
    ensures
        final(out)@ == old(out)@ + encode_scalar(v),
{
    if v <= 0x7f {
        out.push((v & 0x7F) as u8);
    } else if v <= 0x7ff {
        out.push(0xC0u8 | ((v >> 6) & 0x1F) as u8);
        out.push(0x80u8 | (v & 0x3F) as u8);
    } else if v <= 0xffff {
        out.push(0xE0u8 | ((v >> 12) & 0x0F) as u8);
        out.push(0x80u8 | ((v >> 6) & 0x3F) as u8);
        out.push(0x80u8 | (v & 0x3F) as u8);
    } else {
        out.push(0xF0u8 | ((v >> 18) & 0x7) as u8);
        out.push(0x80u8 | ((v >> 12) & 0x3F) as u8);
        out.push(0x80u8 | ((v >> 6) & 0x3F) as u8);
        out.push(0x80u8 | (v & 0x3F) as u8);
    }
    assert(final(out)@ =~= old(out)@ + encode_scalar(v));
}

/// The UTF-8 encoding of a character, as a new vector.
pub fn char_to_utf8(c: char) -> (r: Vec<u8>)
    ensures
        r@ == char_utf8(c),
{
    let mut out: Vec<u8> = Vec::new();
    push_utf8(&mut out, c);
    assert(out@ =~= char_utf8(c));
    out
}

} // verus!
