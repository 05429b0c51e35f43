//! Big-endian 32-bit fields, as the IDX headers store them.

use vstd::prelude::*;

verus! {

/// The unsigned value of the four bytes at `off .. off + 4` of `b`, read
/// big-endian (most significant byte first).
pub open spec fn be_u32(b: Seq<u8>, off: int) -> int {
    b[off] * 0x100_0000 + b[off + 1] * 0x1_0000 + b[off + 2] * 0x100 + b[off + 3]
}

/// The signed two's-complement value of the four bytes at `off`, read
/// big-endian. This is how every IDX header field is to be interpreted.
pub open spec fn be_i32(b: Seq<u8>, off: int) -> int {
    if be_u32(b, off) < 0x8000_0000 {
        be_u32(b, off)
    } else {
        be_u32(b, off) - 0x1_0000_0000
    }
}

/// Reads the 32-bit big-endian field at `off` as its unsigned value; the
/// signed header value is recovered from it by `be_i32`.
pub fn read_be_u32(bytes: &Vec<u8>, off: usize) -> (r: u32)
    requires
        off + 4 <= bytes@.len(),
    ensures
        r == be_u32(bytes@, off as int),
{
    let len = bytes.len();
    assert(off + 4 <= len);
    let b0 = bytes[off] as u32;
    let b1 = bytes[off + 1] as u32;
    let b2 = bytes[off + 2] as u32;
    let b3 = bytes[off + 3] as u32;
    b0 * 0x100_0000 + b1 * 0x1_0000 + b2 * 0x100 + b3
}

} // verus!
