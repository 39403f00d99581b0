use vstd::prelude::*;

use crate::error::{AcsError, AcsResult};

verus! {

/// The byte at `i`, or zero past the end of `data`.
pub open spec fn byte_at(data: Seq<u8>, i: int) -> u8 {
    if 0 <= i < data.len() {
        data[i]
    } else {
        0
    }
}

/// `data` holds `n` bytes from `pos` on.
pub open spec fn fits(data: Seq<u8>, pos: int, n: int) -> bool {
    0 <= pos && pos + n <= data.len()
}

/// Little-endian 16-bit value of the two bytes at `pos`.
pub open spec fn le16(data: Seq<u8>, pos: int) -> int {
    data[pos] + 256 * data[pos + 1]
}

/// Little-endian 32-bit value of the four bytes at `pos`.
pub open spec fn le32(data: Seq<u8>, pos: int) -> int {
    le16(data, pos) + 0x1_0000 * le16(data, pos + 2)
}

/// Little-endian 64-bit value of the eight bytes at `pos`.
pub open spec fn le64(data: Seq<u8>, pos: int) -> int {
    le32(data, pos) + 0x1_0000_0000 * le32(data, pos + 4)
}

/// Big-endian 32-bit value of the four bytes at `pos`.
pub open spec fn be32(data: Seq<u8>, pos: int) -> int {
    0x100_0000 * data[pos] + 0x1_0000 * data[pos + 1] + 256 * data[pos + 2] + data[pos + 3]
}

/// A 16-bit two's complement value.
pub open spec fn signed16(v: int) -> int {
    if v < 0x8000 {
        v
    } else {
        v - 0x1_0000
    }
}

/// A 32-bit two's complement value.
pub open spec fn signed32(v: int) -> int {
    if v < 0x8000_0000 {
        v
    } else {
        v - 0x1_0000_0000
    }
}

/// Whether `data` holds `n` bytes from `pos` on.
pub fn has(data: &[u8], pos: usize, n: usize) -> (r: bool)
    ensures
        r == fits(data@, pos as int, n as int),
        data@.len() <= usize::MAX,
{
    pos <= data.len() && data.len() - pos >= n
}

/// Fails with `Truncated` unless `data` holds `n` bytes from `pos` on.
pub fn need(data: &[u8], pos: usize, n: usize) -> (r: AcsResult<()>)
    ensures
        r is Ok == fits(data@, pos as int, n as int),
        r is Err ==> r == Err::<(), AcsError>(AcsError::Truncated),
        data@.len() <= usize::MAX,
{
    if has(data, pos, n) {
        Ok(())
    } else {
        Err(AcsError::Truncated)
    }
}

pub fn u16_at(data: &[u8], pos: usize) -> (r: u16)
    requires
        fits(data@, pos as int, 2),
    ensures
        r == le16(data@, pos as int),
{
    data[pos] as u16 + (data[pos + 1] as u16) * 256
}

pub fn u32_at(data: &[u8], pos: usize) -> (r: u32)
    requires
        fits(data@, pos as int, 4),
    ensures
        r == le32(data@, pos as int),
{
    assert(data.len() == data@.len());
    let lo = u16_at(data, pos) as u32;
    let hi = u16_at(data, pos + 2) as u32;
    assert(hi * 0x1_0000 <= 0xFFFF_0000) by (nonlinear_arith)
        requires
            hi <= 0xFFFF,
    ;
    lo + hi * 0x1_0000
}

pub fn u64_at(data: &[u8], pos: usize) -> (r: u64)
    requires
        fits(data@, pos as int, 8),
    ensures
        r == le64(data@, pos as int),
{
    assert(data.len() == data@.len());
    let lo = u32_at(data, pos) as u64;
    let hi = u32_at(data, pos + 4) as u64;
    assert(hi * 0x1_0000_0000 <= 0xFFFF_FFFF_0000_0000) by (nonlinear_arith)
        requires
            hi <= 0xFFFF_FFFF,
    ;
    lo + hi * 0x1_0000_0000
}

pub fn be_u32_at(data: &[u8], pos: usize) -> (r: u32)
    requires
        fits(data@, pos as int, 4),
    ensures
        r == be32(data@, pos as int),
{
    (data[pos] as u32) * 0x100_0000 + (data[pos + 1] as u32) * 0x1_0000 + (data[pos + 2] as u32) * 256
        + data[pos + 3] as u32
}

pub fn i16_at(data: &[u8], pos: usize) -> (r: i16)
    requires
        fits(data@, pos as int, 2),
    ensures
        r == signed16(le16(data@, pos as int)),
{
    let v = u16_at(data, pos);
    if v < 0x8000 {
        v as i16
    } else {
        (v as i32 - 0x1_0000) as i16
    }
}

pub fn i32_at(data: &[u8], pos: usize) -> (r: i32)
    requires
        fits(data@, pos as int, 4),
    ensures
        r == signed32(le32(data@, pos as int)),
{
    let v = u32_at(data, pos);
    if v < 0x8000_0000 {
        v as i32
    } else {
        (v as i64 - 0x1_0000_0000) as i32
    }
}

/// A copy of the `n` bytes from `pos` on.
pub fn bytes_at(data: &[u8], pos: usize, n: usize) -> (r: Vec<u8>)
    requires
        fits(data@, pos as int, n as int),
    ensures
        r@ == data@.subrange(pos as int, pos + n),
{
    let mut out: Vec<u8> = Vec::new();
    let mut i: usize = 0;
    let len = data.len();
    while i < n
        invariant
            i <= n,
            len == data@.len(),
            fits(data@, pos as int, n as int),
            out@ == data@.subrange(pos as int, pos + i),
        decreases n - i,
    {
        out.push(data[pos + i]);
        i = i + 1;
        assert(out@ =~= data@.subrange(pos as int, pos + i));
    }
    out
}

} // verus!
