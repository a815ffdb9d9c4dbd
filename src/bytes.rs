//! Big-endian primitive readers over a byte window `[pos, lim)`.
use vstd::prelude::*;

verus! {

/// Why a byte stream could not be decoded.
#[derive(Debug, Clone, Copy, PartialEq, Eq, Structural)]
pub enum DecodeError {
    /// The stream does not start with the class-file magic number.
    BadMagic,
    /// The stream is truncated, or holds a value that the grammar forbids
    /// (an unknown constant-pool tag, an unresolvable name, ...).
    Malformed,
}

/// `n` bytes starting at `p` lie inside the window that ends at `lim`.
pub open spec fn fits(p: int, n: int, lim: int) -> bool {
    0 <= p && 0 <= n && p + n <= lim
}

pub open spec fn be16(b: Seq<u8>, p: int) -> u16 {
    (b[p] as int * 256 + b[p + 1] as int) as u16
}

pub open spec fn be32(b: Seq<u8>, p: int) -> u32 {
    (b[p] as int * 16777216 + b[p + 1] as int * 65536 + b[p + 2] as int * 256
        + b[p + 3] as int) as u32
}

pub fn read_u8(b: &[u8], pos: usize, lim: usize) -> (r: Result<u8, DecodeError>)
    requires
        lim <= b@.len(),
    ensures
        r == (if fits(pos as int, 1, lim as int) {
            Ok::<u8, DecodeError>(b@[pos as int])
        } else {
            Err(DecodeError::Malformed)
        }),
{
    if pos < lim {
        Ok(b[pos])
    } else {
        Err(DecodeError::Malformed)
    }
}

pub fn read_u16(b: &[u8], pos: usize, lim: usize) -> (r: Result<u16, DecodeError>)
    requires
        lim <= b@.len(),
    ensures
        r == (if fits(pos as int, 2, lim as int) {
            Ok::<u16, DecodeError>(be16(b@, pos as int))
        } else {
            Err(DecodeError::Malformed)
        }),
{
    if pos < lim && lim - pos >= 2 {
        let hi = b[pos] as u16;
        let lo = b[pos + 1] as u16;
        Ok(hi * 256 + lo)
    } else {
        Err(DecodeError::Malformed)
    }
}

pub fn read_u32(b: &[u8], pos: usize, lim: usize) -> (r: Result<u32, DecodeError>)
    requires
        lim <= b@.len(),
    ensures
        r == (if fits(pos as int, 4, lim as int) {
            Ok::<u32, DecodeError>(be32(b@, pos as int))
        } else {
            Err(DecodeError::Malformed)
        }),
{
    if pos < lim && lim - pos >= 4 {
        let b0 = b[pos] as u32;
        let b1 = b[pos + 1] as u32;
        let b2 = b[pos + 2] as u32;
        let b3 = b[pos + 3] as u32;
        Ok(b0 * 16777216 + b1 * 65536 + b2 * 256 + b3)
    } else {
        Err(DecodeError::Malformed)
    }
}

/// Copies the bytes of `[start, end)`.
pub fn copy_range(b: &[u8], start: usize, end: usize) -> (r: Vec<u8>)
    requires
        start <= end <= b@.len(),
    ensures
        r@ == b@.subrange(start as int, end as int),
{
    let mut out: Vec<u8> = Vec::with_capacity(end - start);
    let mut i = start;
    while i < end
        invariant
            start <= i <= end <= b@.len(),
            out@ == b@.subrange(start as int, i as int),
        decreases end - i,
    {
        out.push(b[i]);
        i += 1;
        assert(out@ =~= b@.subrange(start as int, i as int));
    }
    out
}

} // verus!
