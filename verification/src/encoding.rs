//! Reading UTF-8: where the encoding of one scalar value ends.

use vstd::prelude::*;
use vstd::slice::*;
use vstd::utf8::*;

verus! {

/// What is left of `s` from index `at` on.
pub open spec fn tail(s: Seq<u8>, at: int) -> Seq<u8> {
    s.subrange(at, s.len() as int)
}

fn is_continuation(b: u8) -> (r: bool)
    ensures
        r == is_continuation_byte(b),
{
    0x80 <= b && b <= 0xbf
}

fn is_scalar_of_width(codepoint: u32, width: usize) -> (r: bool)
    requires
        1 <= width <= 4,
    ensures
        r == (not_overlong_encoding(codepoint, width as int) && not_surrogate(codepoint)),
{
    let long_enough = if width == 2 {
        0x80 <= codepoint
    } else if width == 3 {
        0x800 <= codepoint
    } else if width == 4 {
        0x10000 <= codepoint && codepoint <= 0x10ffff
    } else {
        true
    };
    long_enough && !(0xd800 <= codepoint && codepoint <= 0xdfff)
}

/// The number of bytes that the scalar value encoded at `at` takes, or `None`
/// where no well-formed encoding of a scalar value starts there.
pub fn scalar_width(bytes: &[u8], at: usize) -> (r: Option<usize>)
    requires
        at < bytes@.len(),
    ensures
        r is Some <==> valid_first_scalar(tail(bytes@, at as int)),
        r matches Some(w) ==> w == length_of_first_scalar(tail(bytes@, at as int)) && 1 <= w <= 4
            && at + w <= bytes@.len(),
{
    let len = bytes.len();
    let left = len - at;
    let ghost rest = tail(bytes@, at as int);
    assert(rest.len() == left);
    assert(forall|k: int| 0 <= k < left ==> rest[k] == bytes@[at + k]);
    let b0 = bytes[at];
    assert(b0 == rest[0]);
    if b0 <= 0x7f {
        let cp: u32 = (b0 & 0x7f) as u32;
        if is_scalar_of_width(cp, 1) {
            Some(1)
        } else {
            None
        }
    } else if 0xc0 <= b0 && b0 <= 0xdf {
        if left < 2 {
            return None;
        }
        let b1 = bytes[at + 1];
        assert(b1 == rest[1]);
        if !is_continuation(b1) {
            return None;
        }
        let cp: u32 = (((b0 & 0x1f) as u32) << 6) | ((b1 & 0x3f) as u32);
        if is_scalar_of_width(cp, 2) {
            Some(2)
        } else {
            None
        }
    } else if 0xe0 <= b0 && b0 <= 0xef {
        if left < 3 {
            return None;
        }
        let b1 = bytes[at + 1];
        let b2 = bytes[at + 2];
        assert(b1 == rest[1] && b2 == rest[2]);
        if !is_continuation(b1) || !is_continuation(b2) {
            return None;
        }
        let cp: u32 = (((b0 & 0x0f) as u32) << 12) | (((b1 & 0x3f) as u32) << 6) | ((b2
            & 0x3f) as u32);
        if is_scalar_of_width(cp, 3) {
            Some(3)
        } else {
            None
        }
    } else if 0xf0 <= b0 && b0 <= 0xf7 {
        if left < 4 {
            return None;
        }
        let b1 = bytes[at + 1];
        let b2 = bytes[at + 2];
        let b3 = bytes[at + 3];
        assert(b1 == rest[1] && b2 == rest[2] && b3 == rest[3]);
        if !is_continuation(b1) || !is_continuation(b2) || !is_continuation(b3) {
            return None;
        }
        let cp: u32 = (((b0 & 0x07) as u32) << 18) | (((b1 & 0x3f) as u32) << 12) | (((b2
            & 0x3f) as u32) << 6) | ((b3 & 0x3f) as u32);
        if is_scalar_of_width(cp, 4) {
            Some(4)
        } else {
            None
        }
    } else {
        None
    }
}

} // verus!
