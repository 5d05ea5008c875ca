//! Big-endian integer reads over the database buffer.

use vstd::prelude::*;

verus! {

/// The 4-byte big-endian unsigned integer at `off` in `d`.
pub open spec fn spec_be32(d: Seq<u8>, off: int) -> u32
    recommends
        0 <= off,
        off + 4 <= d.len(),
{
    (d[off] * 0x100_0000 + d[off + 1] * 0x1_0000 + d[off + 2] * 0x100 + d[off + 3]) as u32
}

/// The 2-byte big-endian unsigned integer at `off` in `d`.
pub open spec fn spec_be16(d: Seq<u8>, off: int) -> u16
    recommends
        0 <= off,
        off + 2 <= d.len(),
{
    (d[off] * 0x100 + d[off + 1]) as u16
}

/// Reads the 4-byte big-endian unsigned integer starting at index `off` of `d`.
pub fn read_be32(d: &[u8], off: usize) -> (r: u32)
    requires
        off + 4 <= d@.len(),
    ensures
        r == spec_be32(d@, off as int),
{
    let b0 = d[off] as u32;
    let b1 = d[off + 1] as u32;
    let b2 = d[off + 2] as u32;
    let b3 = d[off + 3] as u32;
    b0 * 0x100_0000 + b1 * 0x1_0000 + b2 * 0x100 + b3
}

/// Reads the 2-byte big-endian unsigned integer starting at index `off` of `d`.
pub fn read_be16(d: &[u8], off: usize) -> (r: u16)
    requires
        off + 2 <= d@.len(),
    ensures
        r == spec_be16(d@, off as int),
{
    let b0 = d[off] as u16;
    let b1 = d[off + 1] as u16;
    b0 * 0x100 + b1
}

} // verus!
