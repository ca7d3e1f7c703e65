//! Byte-level helpers for the fixed record layouts: little-endian integer
//! fields, raw byte runs, and byte-string comparison. The per-record codecs
//! are built from these.

use vstd::prelude::*;
use vstd::bytes::*;
use vstd::slice::*;

verus! {

/// Whether two byte vectors hold the same bytes.
pub fn bytes_eq(a: &Vec<u8>, b: &Vec<u8>) -> (r: bool)
    ensures
        r == (a@ == b@),
{
    if a.len() != b.len() {
        return false;
    }
    let n = a.len();
    let mut i: usize = 0;
    while i < n
        invariant
            i <= n,
            n == a@.len(),
            a@.len() == b@.len(),
            forall|j: int| 0 <= j < i ==> a@[j] == b@[j],
        decreases n - i,
    {
        if a[i] != b[i] {
            return false;
        }
        i += 1;
    }
    proof {
        assert(a@ =~= b@);
    }
    true
}

/// A fresh copy of a byte vector.
pub fn clone_bytes(src: &Vec<u8>) -> (r: Vec<u8>)
    ensures
        r@ == src@,
{
    let n = src.len();
    let mut out: Vec<u8> = Vec::new();
    let mut i: usize = 0;
    while i < n
        invariant
            i <= n,
            n == src@.len(),
            out@ == src@.subrange(0, i as int),
        decreases n - i,
    {
        out.push(src[i]);
        proof {
            assert(out@ =~= src@.subrange(0, i as int + 1));
        }
        i += 1;
    }
    proof {
        assert(out@ =~= src@);
    }
    out
}

/// The bytes of `data` from `start` (inclusive) to `end` (exclusive).
pub fn read_bytes(data: &Vec<u8>, start: usize, end: usize) -> (r: Vec<u8>)
    requires
        start <= end <= data@.len(),
    ensures
        r@ == data@.subrange(start as int, end as int),
{
    slice_to_vec(slice_subrange(data.as_slice(), start, end))
}

/// The little-endian `u64` stored at offset `off`.
pub fn read_u64_le(data: &Vec<u8>, off: usize) -> (r: u64)
    requires
        off + 8 <= data@.len(),
    ensures
        r == spec_u64_from_le_bytes(data@.subrange(off as int, off as int + 8)),
{
    // Taking the length as a usize keeps the offset arithmetic in range.
    let _n = data.len();
    u64_from_le_bytes(slice_subrange(data.as_slice(), off, off + 8))
}

/// Appends `v` to `out` as 8 little-endian bytes.
pub fn push_u64_le(out: &mut Vec<u8>, v: u64)
    ensures
        final(out)@ == old(out)@ + spec_u64_to_le_bytes(v),
{
    let mut b = u64_to_le_bytes(v);
    out.append(&mut b);
}

/// The little-endian `u32` stored at offset `off`.
pub fn read_u32_le(data: &Vec<u8>, off: usize) -> (r: u32)
    requires
        off + 4 <= data@.len(),
    ensures
        r == spec_u32_from_le_bytes(data@.subrange(off as int, off as int + 4)),
{
    // Taking the length as a usize keeps the offset arithmetic in range.
    let _n = data.len();
    u32_from_le_bytes(slice_subrange(data.as_slice(), off, off + 4))
}

/// Appends `v` to `out` as 4 little-endian bytes.
pub fn push_u32_le(out: &mut Vec<u8>, v: u32)
    ensures
        final(out)@ == old(out)@ + spec_u32_to_le_bytes(v),
{
    let mut b = u32_to_le_bytes(v);
    out.append(&mut b);
}

/// Appends every byte of `src` to `out`.
pub fn push_bytes(out: &mut Vec<u8>, src: &Vec<u8>)
    ensures
        final(out)@ == old(out)@ + src@,
{
    let n = src.len();
    let mut i: usize = 0;
    while i < n
        invariant
            i <= n,
            n == src@.len(),
            out@ == old(out)@ + src@.subrange(0, i as int),
        decreases n - i,
    {
        out.push(src[i]);
        proof {
            assert(out@ =~= old(out)@ + src@.subrange(0, i as int + 1));
        }
        i += 1;
    }
    proof {
        assert(out@ =~= old(out)@ + src@);
    }
}

} // verus!
