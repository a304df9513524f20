//! Structural scans over the container buffer: finding the first occurrence
//! of a name's bytes, and locating a template entry's metadata sub-block by
//! its sentinel word and its terminator run.

use vstd::prelude::*;
use crate::bytes_le::le32_at;

verus! {

/// The word that opens a tone entry's metadata record.
pub const META_SENTINEL: u32 = 0x22E8;

/// `pat` occurs in `b` at position `i`.
pub open spec fn match_at(b: Seq<u8>, pat: Seq<u8>, i: int) -> bool {
    &&& 0 <= i
    &&& i + pat.len() <= b.len()
    &&& b.subrange(i, i + pat.len() as int) == pat
}

/// The first position at or after `i` where `pat` occurs in `b`.
pub open spec fn first_match_from(b: Seq<u8>, pat: Seq<u8>, i: int) -> Option<int>
    recommends
        0 <= i,
    decreases b.len() - i + 1,
{
    if i < 0 || i + pat.len() > b.len() {
        None
    } else if b.subrange(i, i + pat.len() as int) == pat {
        Some(i)
    } else {
        first_match_from(b, pat, i + 1)
    }
}

/// A found first match is a match, and nothing before it matches; a missing
/// one means nothing matches at all.
pub proof fn lemma_first_match_from(b: Seq<u8>, pat: Seq<u8>, i: int)
    requires
        0 <= i,
    ensures
        first_match_from(b, pat, i) matches Some(m) ==> i <= m && match_at(b, pat, m)
            && (forall|j: int| i <= j < m ==> !match_at(b, pat, j)),
        first_match_from(b, pat, i) is None ==> forall|j: int| j >= i ==> !match_at(b, pat, j),
    decreases b.len() - i + 1,
{
    if i + pat.len() > b.len() {
        assert forall|j: int| j >= i implies !match_at(b, pat, j) by {}
    } else if b.subrange(i, i + pat.len() as int) == pat {
    } else {
        lemma_first_match_from(b, pat, i + 1);
    }
}

/// Compares `data[at..at + pat.len()]` with `pat`.
fn bytes_eq_at(data: &[u8], pat: &[u8], at: usize) -> (r: bool)
    requires
        at + pat@.len() <= data@.len(),
    ensures
        r == (data@.subrange(at as int, at + pat@.len()) == pat@),
{
    let n = data.len();
    let m = pat.len();
    let mut j: usize = 0;
    while j < m
        invariant
            j <= m,
            n == data@.len(),
            m == pat@.len(),
            at + m <= n,
            forall|t: int| 0 <= t < j ==> data@[at + t] == pat@[t],
        decreases m - j,
    {
        if data[at + j] != pat[j] {
            assert(data@.subrange(at as int, at + pat@.len()) != pat@) by {
                assert(data@.subrange(at as int, at + pat@.len())[j as int] == data@[at + j]);
            }
            return false;
        }
        j = j + 1;
    }
    proof {
        assert(data@.subrange(at as int, at + pat@.len()) =~= pat@);
    }
    true
}

/// Finds the first position at which the bytes of `pat` occur in `data`.
pub fn find_first(data: &[u8], pat: &[u8]) -> (r: Option<usize>)
    ensures
        r matches Some(m) ==> first_match_from(data@, pat@, 0) == Some(m as int),
        r is None ==> first_match_from(data@, pat@, 0) is None,
{
    let n = data.len();
    let m = pat.len();
    if m > n {
        return None;
    }
    let mut i: usize = 0;
    loop
        invariant
            m <= n,
            n == data@.len(),
            m == pat@.len(),
            i <= n - m,
            first_match_from(data@, pat@, 0) == first_match_from(data@, pat@, i as int),
        decreases n - m - i,
    {
        if bytes_eq_at(data, pat, i) {
            return Some(i);
        }
        if i == n - m {
            assert(first_match_from(data@, pat@, i + 1) is None);
            return None;
        }
        i = i + 1;
    }
}

/// `i` moved up to the next 4-byte boundary.
pub open spec fn align4(i: int) -> int {
    i + ((4 - (i % 4)) % 4)
}

/// The position just after the first aligned word at or after `i` that holds
/// the metadata sentinel, scanning one word at a time.
pub open spec fn find_sentinel(b: Seq<u8>, i: int) -> Option<int>
    decreases b.len() - i + 4,
{
    if i < 0 || i + 4 > b.len() {
        None
    } else if le32_at(b, i) == META_SENTINEL {
        Some(i + 4)
    } else {
        find_sentinel(b, i + 4)
    }
}

/// The position just after the word that completes the terminator run: eight
/// words that alternate between zero and `0xFFFF_FFFF`, starting from run
/// state `run` at word position `i`. A word that breaks the pattern resets
/// the run.
pub open spec fn scan_end(b: Seq<u8>, i: int, run: nat) -> Option<int>
    decreases b.len() - i + 4,
{
    if i < 0 || i + 4 > b.len() {
        None
    } else {
        let w = le32_at(b, i);
        let next_run: nat = if run % 2 == 0 {
            if w == 0 {
                run + 1
            } else {
                0
            }
        } else {
            if w == 0xFFFF_FFFFu32 {
                run + 1
            } else {
                0
            }
        };
        if next_run == 8 {
            Some(i + 4)
        } else {
            scan_end(b, i + 4, next_run)
        }
    }
}

/// The metadata sub-block reached by scanning from `from`: the byte range
/// from just after the sentinel word to the end of the terminator run,
/// as an (offset, size) pair.
pub open spec fn meta_scan(b: Seq<u8>, from: int) -> Option<(int, int)> {
    match find_sentinel(b, align4(from)) {
        Some(s) => match scan_end(b, s, 0) {
            Some(e) => Some((s, e - s)),
            None => None,
        },
        None => None,
    }
}

/// A found sentinel lies after the scan start and inside the buffer.
pub proof fn lemma_find_sentinel_bounds(b: Seq<u8>, i: int)
    requires
        0 <= i,
        find_sentinel(b, i) is Some,
    ensures
        i + 4 <= find_sentinel(b, i).unwrap() <= b.len(),
    decreases b.len() - i + 4,
{
    if i + 4 > b.len() {
    } else if le32_at(b, i) == META_SENTINEL {
    } else {
        lemma_find_sentinel_bounds(b, i + 4);
    }
}

/// A found terminator end lies after the scan start and inside the buffer.
pub proof fn lemma_scan_end_bounds(b: Seq<u8>, i: int, run: nat)
    requires
        0 <= i,
        scan_end(b, i, run) is Some,
    ensures
        i + 4 <= scan_end(b, i, run).unwrap() <= b.len(),
    decreases b.len() - i + 4,
{
    if i + 4 > b.len() {
    } else {
        let w = le32_at(b, i);
        let next_run: nat = if run % 2 == 0 {
            if w == 0 {
                run + 1
            } else {
                0
            }
        } else {
            if w == 0xFFFF_FFFFu32 {
                run + 1
            } else {
                0
            }
        };
        if next_run == 8 {
        } else {
            lemma_scan_end_bounds(b, i + 4, next_run);
        }
    }
}

/// A located metadata block lies wholly inside the buffer, after `from`.
pub proof fn lemma_meta_scan_bounds(b: Seq<u8>, from: int)
    requires
        0 <= from,
        meta_scan(b, from) is Some,
    ensures
        from <= meta_scan(b, from).unwrap().0,
        4 <= meta_scan(b, from).unwrap().1,
        meta_scan(b, from).unwrap().0 + meta_scan(b, from).unwrap().1 <= b.len(),
{
    lemma_find_sentinel_bounds(b, align4(from));
    let s = find_sentinel(b, align4(from)).unwrap();
    lemma_scan_end_bounds(b, s, 0);
}

/// Locates the metadata sub-block of the tone entry whose name starts at
/// byte offset `pos`: the cursor is aligned to the next word boundary, moved
/// word by word to just past the sentinel word, and from there to the end of
/// the eight-word terminator run. Returns the block's (offset, size), or
/// `None` when the buffer ends before the sentinel or the run is seen.
pub fn get_sub_meta_offset_and_size(data: &[u8], pos: usize) -> (r: Option<(usize, usize)>)
    ensures
        r matches Some(p) ==> meta_scan(data@, pos as int) == Some((p.0 as int, p.1 as int)),
        r is None ==> meta_scan(data@, pos as int) is None,
{
    let n = data.len();
    let rem = pos % 4;
    if n < 4 || pos > n - 4 {
        return None;
    }
    let pad = if rem == 0 {
        0
    } else {
        4 - rem
    };
    if pad > n - 4 - pos {
        return None;
    }
    let mut q = pos + pad;
    assert(q as int == align4(pos as int));
    let ghost start0 = q as int;
    loop
        invariant
            4 <= n == data@.len(),
            start0 == align4(pos as int),
            start0 <= q as int,
            q + 4 <= n,
            find_sentinel(data@, start0) == find_sentinel(data@, q as int),
        ensures
            q + 4 <= n,
            find_sentinel(data@, start0) == Some(q as int + 4),
        decreases n - q,
    {
        let w = crate::bytes_le::read_u32(data, q);
        if w == META_SENTINEL {
            assert(find_sentinel(data@, q as int) == Some(q as int + 4));
            break;
        }
        if q + 4 > n - 4 {
            proof {
                assert(find_sentinel(data@, q + 4) is None);
                assert(find_sentinel(data@, q as int) is None);
            }
            return None;
        }
        q = q + 4;
    }
    let meta_start = q + 4;
    if meta_start > n - 4 {
        return None;
    }
    // terminator run
    let mut cur = meta_start;
    let mut run: u32 = 0;
    loop
        invariant_except_break
            cur + 4 <= n,
            scan_end(data@, meta_start as int, 0) == scan_end(data@, cur as int, run as nat),
        invariant
            4 <= n == data@.len(),
            find_sentinel(data@, align4(pos as int)) == Some(meta_start as int),
            meta_start <= cur <= n,
            run <= 7,
        ensures
            meta_start <= cur <= n,
            scan_end(data@, meta_start as int, 0) == Some(cur as int),
        decreases n - cur,
    {
        let w = crate::bytes_le::read_u32(data, cur);
        let next_run: u32 = if run % 2 == 0 {
            if w == 0 {
                run + 1
            } else {
                0
            }
        } else {
            if w == 0xFFFF_FFFFu32 {
                run + 1
            } else {
                0
            }
        };
        if next_run == 8 {
            assert(scan_end(data@, cur as int, run as nat) == Some(cur as int + 4));
            cur = cur + 4;
            break;
        }
        if cur + 4 > n - 4 {
            proof {
                assert(scan_end(data@, cur + 4, next_run as nat) is None);
                assert(scan_end(data@, cur as int, run as nat) is None);
            }
            return None;
        }
        cur = cur + 4;
        run = next_run;
    }
    Some((meta_start, cur - meta_start))
}

} // verus!
