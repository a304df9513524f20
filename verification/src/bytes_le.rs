//! Little-endian 32-bit fields of the container, as specifications over byte
//! sequences and as exec helpers that read them from a buffer or append them
//! to one.

use vstd::prelude::*;
use vstd::bytes::{
    lemma_auto_spec_u32_to_from_le_bytes, spec_u32_from_le_bytes, spec_u32_to_le_bytes,
    u32_from_le_bytes, u32_to_le_bytes,
};
use vstd::slice::{slice_subrange, slice_to_vec};

verus! {

/// The u32 held little-endian in the four bytes of `b` starting at `i`.
pub open spec fn le32_at(b: Seq<u8>, i: int) -> u32
    recommends
        0 <= i,
        i + 4 <= b.len(),
{
    spec_u32_from_le_bytes(b.subrange(i, i + 4))
}

/// The four bytes that hold `v` little-endian.
pub open spec fn u32le(v: u32) -> Seq<u8> {
    spec_u32_to_le_bytes(v)
}

/// `x` reduced to the 32 bits that a container size field can hold.
pub open spec fn w32(x: int) -> u32 {
    (x % 0x1_0000_0000) as u32
}

/// A run of `n` zero bytes.
pub open spec fn zero_bytes(n: int) -> Seq<u8> {
    Seq::new(if n >= 0 { n as nat } else { 0 }, |i: int| 0u8)
}

/// The four little-endian bytes of a field hold exactly the value they were
/// written from, and writing the value read from four bytes gives those bytes
/// back.
pub proof fn lemma_le32_roundtrip(b: Seq<u8>, i: int)
    requires
        0 <= i,
        i + 4 <= b.len(),
    ensures
        u32le(le32_at(b, i)) == b.subrange(i, i + 4),
{
    lemma_auto_spec_u32_to_from_le_bytes();
}

/// Reads the little-endian u32 at byte offset `pos` of `data`.
pub fn read_u32(data: &[u8], pos: usize) -> (r: u32)
    requires
        pos + 4 <= data@.len(),
    ensures
        r == le32_at(data@, pos as int),
{
    let n = data.len();
    assert(pos + 4 <= n);
    let field = slice_subrange(data, pos, pos + 4);
    u32_from_le_bytes(field)
}

/// Appends the four little-endian bytes of `v` to `out`.
pub fn push_u32(out: &mut Vec<u8>, v: u32)
    ensures
        final(out)@ == old(out)@ + u32le(v),
{
    let mut field = u32_to_le_bytes(v);
    out.append(&mut field);
}

/// Appends `src[start..end]` to `out`.
pub fn append_range(out: &mut Vec<u8>, src: &[u8], start: usize, end: usize)
    requires
        start <= end,
        end <= src@.len(),
    ensures
        final(out)@ == old(out)@ + src@.subrange(start as int, end as int),
{
    let mut part = slice_to_vec(slice_subrange(src, start, end));
    out.append(&mut part);
}

/// Appends `n` zero bytes to `out`.
pub fn push_zeros(out: &mut Vec<u8>, n: usize)
    ensures
        final(out)@ == old(out)@ + zero_bytes(n as int),
{
    let mut i: usize = 0;
    while i < n
        invariant
            i <= n,
            out@ == old(out)@ + zero_bytes(i as int),
        decreases n - i,
    {
        out.push(0);
        proof {
            assert(old(out)@ + zero_bytes(i + 1) =~= (old(out)@ + zero_bytes(i as int)).push(
                0u8,
            ));
        }
        i = i + 1;
    }
    proof {
        assert(out@ =~= old(out)@ + zero_bytes(n as int));
    }
}

} // verus!
