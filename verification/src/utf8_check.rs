//! Validation of UTF-8 text held in byte slices.
//!
//! The functions here decide, byte by byte, whether a slice is well-formed
//! UTF-8 in the sense of `vstd::utf8::valid_utf8`.

use vstd::prelude::*;
use vstd::utf8::*;

verus! {

/// The part of `bytes` that starts at `start`.
pub open spec fn tail(bytes: Seq<u8>, start: int) -> Seq<u8> {
    bytes.subrange(start, bytes.len() as int)
}

/// Whether `byte` has the shape `10xxxxxx` of a continuation byte.
fn continuation(byte: u8) -> (yes: bool)
    ensures
        yes == is_continuation_byte(byte),
{
    0x80 <= byte && byte <= 0xbf
}

/// Length in bytes of the scalar that begins at `start`, or 0 where no
/// well-formed scalar begins there.
///
/// A scalar is well formed when its leading byte announces a width of one
/// to four bytes, the announced continuation bytes follow, the encoding is
/// the shortest one for its value, and the value is no surrogate.
pub fn scalar_len_at(bytes: &[u8], start: usize) -> (width: usize)
    requires
        start < bytes@.len(),
    ensures
        valid_first_scalar(tail(bytes@, start as int)) ==> width == length_of_first_scalar(
            tail(bytes@, start as int),
        ),
        !valid_first_scalar(tail(bytes@, start as int)) ==> width == 0,
        width <= 4,
        start + width <= bytes@.len(),
{
    let ghost rest = tail(bytes@, start as int);
    let avail: usize = bytes.len() - start;
    let b0: u8 = bytes[start];
    assert(rest[0] == b0);
    if b0 <= 0x7f {
        assert(b0 & 0x7f <= 0x7f) by (bit_vector);
        1
    } else if 0xc0 <= b0 && b0 <= 0xdf {
        if avail < 2 {
            return 0;
        }
        let b1: u8 = bytes[start + 1];
        assert(rest[1] == b1);
        if !continuation(b1) {
            return 0;
        }
        let cp: u32 = (((b0 & 0x1f) as u32) << 6) | ((b1 & 0x3f) as u32);
        assert(cp <= 0x7ff) by (bit_vector)
            requires
                cp == (((b0 & 0x1f) as u32) << 6) | ((b1 & 0x3f) as u32),
        ;
        if cp < 0x80 {
            0
        } else {
            2
        }
    } else if 0xe0 <= b0 && b0 <= 0xef {
        if avail < 3 {
            return 0;
        }
        let b1: u8 = bytes[start + 1];
        let b2: u8 = bytes[start + 2];
        assert(rest[1] == b1 && rest[2] == b2);
        if !continuation(b1) || !continuation(b2) {
            return 0;
        }
        let cp: u32 = (((b0 & 0x0f) as u32) << 12) | (((b1 & 0x3f) as u32) << 6) | ((b2
            & 0x3f) as u32);
        if cp < 0x800 || (0xD800 <= cp && cp <= 0xDFFF) {
            0
        } else {
            3
        }
    } else if 0xf0 <= b0 && b0 <= 0xf7 {
        if avail < 4 {
            return 0;
        }
        let b1: u8 = bytes[start + 1];
        let b2: u8 = bytes[start + 2];
        let b3: u8 = bytes[start + 3];
        assert(rest[1] == b1 && rest[2] == b2 && rest[3] == b3);
        if !continuation(b1) || !continuation(b2) || !continuation(b3) {
            return 0;
        }
        let cp: u32 = (((b0 & 0x07) as u32) << 18) | (((b1 & 0x3f) as u32) << 12) | (((b2
            & 0x3f) as u32) << 6) | ((b3 & 0x3f) as u32);
        if cp < 0x10000 || cp > 0x10ffff || (0xD800 <= cp && cp <= 0xDFFF) {
            0
        } else {
            4
        }
    } else {
        0
    }
}

/// Whether `bytes` is well-formed UTF-8 from its first byte to its last.
pub fn is_valid_utf8(bytes: &[u8]) -> (ok: bool)
    ensures
        ok == valid_utf8(bytes@),
{
    let mut pos: usize = 0;
    assert(tail(bytes@, 0) =~= bytes@);
    while pos < bytes.len()
        invariant
            pos <= bytes@.len(),
            valid_utf8(bytes@) == valid_utf8(tail(bytes@, pos as int)),
        decreases bytes@.len() - pos,
    {
        let width: usize = scalar_len_at(bytes, pos);
        if width == 0 {
            return false;
        }
        proof {
            let rest = tail(bytes@, pos as int);
            assert(pop_first_scalar(rest) =~= tail(bytes@, pos + width));
        }
        pos = pos + width;
    }
    true
}

} // verus!
