//! The container patcher: parsing of the chunked "NUS3" layout, the
//! byte-exact specification of the patched container, and the exec function
//! that appends new named tone entries.
//!
//! A container is a flat byte buffer:
//!
//! * `"NUS3"` magic, then a little-endian u32 total size;
//! * `"BANKTOC "` magic, a u32 table-of-contents size and a u32 content
//!   chunk count, followed by (tag, size) directory pairs;
//! * the content chunks themselves, of which the `"TONE"` chunk holds a
//!   u32 size, a u32 tone count, per-tone (offset, size) directory pairs and
//!   the tone payload region those pairs point into.
//!
//! Patching clones a template entry, found by scanning from a known name to
//! its metadata sub-block, and re-serialises the container with new entries
//! appended and every size field corrected.

use vstd::prelude::*;
use vstd::string::StringSliceAdditionalSpecFns;
use vstd::utf8::encode_utf8;
use crate::bytes_le::{le32_at, u32le, w32, zero_bytes, read_u32, push_u32, append_range,
    push_zeros};
use crate::scan::{first_match_from, meta_scan, find_first, get_sub_meta_offset_and_size,
    lemma_meta_scan_bounds, META_SENTINEL};

verus! {

/// The content-directory tag of the tone table: the bytes `"TONE"` read as a
/// little-endian u32.
pub const TONE_TAG: u32 = 1162760020;

/// Why a patch call was aborted; every variant is fatal and leaves the input
/// untouched.
#[derive(Clone, Copy, Debug, PartialEq, Eq, Structural)]
pub enum PatchError {
    /// The template entry's name does not occur in the buffer.
    AnchorNotFound,
    /// The buffer does not open with the `"NUS3"` magic and its size field.
    BadMagic,
    /// The `"BANKTOC "` magic or the table-of-contents header is missing.
    BadToc,
    /// No content-directory entry carries the tone-table tag.
    ToneChunkNotFound,
    /// The tone chunk lies outside the buffer or lacks the `"TONE"` magic.
    BadToneMagic,
    /// The tone chunk's size fields, entry count and entry extents disagree
    /// with the chunk's actual extent.
    ToneSizeMismatch,
    /// The template entry's metadata sub-block could not be located within
    /// the buffer.
    MalformedMetaBlock,
}

impl PatchError {
    /// A short human-readable account of the check that failed: each
    /// variant has its own fixed text, naming the structure it checked.
    pub fn message(&self) -> (r: String)
        ensures
            r@.len() > 0,
            self matches PatchError::AnchorNotFound ==> r@
                == "the template entry's name does not occur in the container"@,
            self matches PatchError::BadMagic ==> r@
                == "the container does not start with the NUS3 magic"@,
            self matches PatchError::BadToc ==> r@
                == "the BANKTOC header is missing or truncated"@,
            self matches PatchError::ToneChunkNotFound ==> r@
                == "no content chunk carries the TONE tag"@,
            self matches PatchError::BadToneMagic ==> r@
                == "the TONE chunk is out of bounds or lacks its magic"@,
            self matches PatchError::ToneSizeMismatch ==> r@
                == "the TONE chunk's sizes, count and extents disagree"@,
            self matches PatchError::MalformedMetaBlock ==> r@
                == "the template entry's metadata block was not found"@,
    {
        match self {
            PatchError::AnchorNotFound => {
                proof {
                    reveal_strlit("the template entry's name does not occur in the container");
                }
                "the template entry's name does not occur in the container".to_owned()
            },
            PatchError::BadMagic => {
                proof {
                    reveal_strlit("the container does not start with the NUS3 magic");
                }
                "the container does not start with the NUS3 magic".to_owned()
            },
            PatchError::BadToc => {
                proof {
                    reveal_strlit("the BANKTOC header is missing or truncated");
                }
                "the BANKTOC header is missing or truncated".to_owned()
            },
            PatchError::ToneChunkNotFound => {
                proof {
                    reveal_strlit("no content chunk carries the TONE tag");
                }
                "no content chunk carries the TONE tag".to_owned()
            },
            PatchError::BadToneMagic => {
                proof {
                    reveal_strlit("the TONE chunk is out of bounds or lacks its magic");
                }
                "the TONE chunk is out of bounds or lacks its magic".to_owned()
            },
            PatchError::ToneSizeMismatch => {
                proof {
                    reveal_strlit("the TONE chunk's sizes, count and extents disagree");
                }
                "the TONE chunk's sizes, count and extents disagree".to_owned()
            },
            PatchError::MalformedMetaBlock => {
                proof {
                    reveal_strlit("the template entry's metadata block was not found");
                }
                "the template entry's metadata block was not found".to_owned()
            },
        }
    }
}

// --- magics ---------------------------------------------------------------

/// The bytes `"NUS3"`.
pub open spec fn nus3_magic() -> Seq<u8> {
    seq![0x4eu8, 0x55u8, 0x53u8, 0x33u8]
}

/// The bytes `"BANKTOC "`.
pub open spec fn banktoc_magic() -> Seq<u8> {
    seq![0x42u8, 0x41u8, 0x4eu8, 0x4bu8, 0x54u8, 0x4fu8, 0x43u8, 0x20u8]
}

/// The bytes `"TONE"`.
pub open spec fn tone_magic() -> Seq<u8> {
    seq![0x54u8, 0x4fu8, 0x4eu8, 0x45u8]
}

// --- parsing the input container ------------------------------------------

/// The buffer opens with the `"NUS3"` magic and is long enough for the total
/// size field that follows it.
pub open spec fn header_ok(b: Seq<u8>) -> bool {
    b.len() >= 8 && b.subrange(0, 4) == nus3_magic()
}

/// The buffer carries the `"BANKTOC "` magic and is long enough for the
/// table-of-contents size and content count fields that follow it.
pub open spec fn banktoc_ok(b: Seq<u8>) -> bool {
    b.len() >= 24 && b.subrange(8, 16) == banktoc_magic()
}

/// Walks up to `k` content-directory (tag, size) pairs, the pairs read at
/// `cur` while the content offset `off` advances past each chunk, and stops
/// at the first pair whose tag is the tone tag. Returns that chunk's
/// (offset, declared size, position of the directory size field).
pub open spec fn find_tone_rec(b: Seq<u8>, k: nat, off: int, cur: int) -> Option<(int, u32, int)>
    decreases k,
{
    if k == 0 {
        None
    } else if cur < 0 || cur + 8 > b.len() {
        None
    } else {
        let tag = le32_at(b, cur);
        let size = le32_at(b, cur + 4);
        if tag == TONE_TAG {
            Some((off, size, cur + 4))
        } else {
            find_tone_rec(b, (k - 1) as nat, off + 8 + size, cur + 8)
        }
    }
}

/// The tone chunk's (offset, declared size, directory size-field position),
/// scanning the content directory that starts right after the
/// table-of-contents header.
pub open spec fn spec_find_tone(b: Seq<u8>) -> Option<(int, u32, int)>
    recommends
        banktoc_ok(b),
{
    find_tone_rec(b, le32_at(b, 20) as nat, 20 + le32_at(b, 16) as int, 24)
}

/// A tone chunk was found.
pub open spec fn tone_found(b: Seq<u8>) -> bool {
    spec_find_tone(b) is Some
}

/// The found tone chunk's offset.
pub open spec fn tone_off(b: Seq<u8>) -> int {
    spec_find_tone(b).unwrap().0
}

/// The found tone chunk's size as the content directory declares it.
pub open spec fn tone_dir_size(b: Seq<u8>) -> u32 {
    spec_find_tone(b).unwrap().1
}

/// The position of the directory size field of the found tone chunk.
pub open spec fn tone_head(b: Seq<u8>) -> int {
    spec_find_tone(b).unwrap().2
}

/// The tone chunk lies after its directory entry, fits its twelve-byte
/// header into the buffer, and opens with the `"TONE"` magic.
pub open spec fn tone_header_ok(b: Seq<u8>) -> bool {
    &&& tone_found(b)
    &&& tone_head(b) <= tone_off(b)
    &&& tone_off(b) + 12 <= b.len()
    &&& b.subrange(tone_off(b), tone_off(b) + 4) == tone_magic()
}

/// The size the tone chunk declares for itself equals the size its directory
/// entry declares.
pub open spec fn tone_size_ok(b: Seq<u8>) -> bool {
    le32_at(b, tone_off(b) + 4) == tone_dir_size(b)
}

/// The tone count field of the tone chunk.
pub open spec fn tone_count_of(b: Seq<u8>) -> u32 {
    le32_at(b, tone_off(b) + 8)
}

/// The payload offset that the last tone-directory pair declares.
pub open spec fn last_off(b: Seq<u8>) -> u32 {
    le32_at(b, tone_off(b) + 12 + 8 * (tone_count_of(b) as int - 1))
}

/// The payload size that the last tone-directory pair declares.
pub open spec fn last_size(b: Seq<u8>) -> u32 {
    le32_at(b, tone_off(b) + 16 + 8 * (tone_count_of(b) as int - 1))
}

/// The tone chunk holds at least one entry, its directory fits the buffer,
/// and the payload region from the end of the directory to the end of the
/// last entry is well formed and fits the buffer.
pub open spec fn tone_extent_ok(b: Seq<u8>) -> bool {
    &&& tone_count_of(b) >= 1
    &&& tone_off(b) + 12 + 8 * (tone_count_of(b) as int) <= b.len()
    &&& 12 + 8 * (tone_count_of(b) as int) <= 8 + last_off(b) + last_size(b)
    &&& tone_off(b) + 8 + last_off(b) + last_size(b) <= b.len()
}

/// The first occurrence of the template name's bytes in the buffer.
pub open spec fn spec_anchor(b: Seq<u8>, pat: Seq<u8>) -> Option<int> {
    first_match_from(b, pat, 0)
}

/// The template name occurs in the buffer.
pub open spec fn anchor_ok(b: Seq<u8>, pat: Seq<u8>) -> bool {
    spec_anchor(b, pat) is Some
}

/// The template entry's twelve header bytes fit before its name, and the
/// sentinel scan from the name finds its metadata sub-block.
pub open spec fn meta_ok(b: Seq<u8>, pat: Seq<u8>) -> bool {
    &&& anchor_ok(b, pat)
    &&& spec_anchor(b, pat).unwrap() >= 13
    &&& meta_scan(b, spec_anchor(b, pat).unwrap()) is Some
}

/// The offset of the template entry's metadata sub-block.
pub open spec fn meta_off(b: Seq<u8>, pat: Seq<u8>) -> int {
    meta_scan(b, spec_anchor(b, pat).unwrap()).unwrap().0
}

/// The size of the template entry's metadata sub-block.
pub open spec fn meta_size(b: Seq<u8>, pat: Seq<u8>) -> int {
    meta_scan(b, spec_anchor(b, pat).unwrap()).unwrap().1
}

/// The twelve bytes just before the template entry's length-prefixed name,
/// reused as the header of every appended entry.
pub open spec fn pre_meta(b: Seq<u8>, pat: Seq<u8>) -> Seq<u8> {
    b.subrange(spec_anchor(b, pat).unwrap() - 13, spec_anchor(b, pat).unwrap() - 1)
}

/// The bytes of the template entry's metadata sub-block.
pub open spec fn meta_bytes(b: Seq<u8>, pat: Seq<u8>) -> Seq<u8> {
    b.subrange(meta_off(b, pat), meta_off(b, pat) + meta_size(b, pat))
}

/// Every structural check that a successful patch makes, in the order the
/// patcher makes them.
pub open spec fn patchable(b: Seq<u8>, pat: Seq<u8>) -> bool {
    &&& anchor_ok(b, pat)
    &&& header_ok(b)
    &&& banktoc_ok(b)
    &&& tone_found(b)
    &&& tone_header_ok(b)
    &&& tone_size_ok(b)
    &&& meta_ok(b, pat)
    &&& tone_extent_ok(b)
}

// --- sizes of the appended entries ----------------------------------------

/// The UTF-8 byte sequences of the new entries' names.
pub open spec fn entry_names(v: Seq<String>) -> Seq<Seq<u8>> {
    Seq::new(v.len(), |i: int| encode_utf8(v[i]@))
}

/// The zero padding that follows a length-prefixed name of `l` bytes: up to
/// the next word boundary, and a full word when the name and its length byte
/// already end on one.
pub open spec fn pad_of(l: int) -> int {
    4 - ((l + 1) % 4)
}

/// The serialised size of one appended entry with a name of `l` bytes and a
/// metadata block of `ms` bytes: header, length byte, name, padding, four
/// fixed words and the metadata copy.
pub open spec fn entry_size(ms: int, l: int) -> int {
    ms + 29 + l + pad_of(l)
}

/// The summed serialised size of the first `i` appended entries.
pub open spec fn entries_size(ms: int, names: Seq<Seq<u8>>, i: int) -> int
    decreases i,
{
    if i <= 0 {
        0
    } else {
        entries_size(ms, names, i - 1) + entry_size(ms, names[i - 1].len() as int)
    }
}

/// The number of bytes a patch adds to the container: one directory pair and
/// one serialised entry per name.
pub open spec fn growth_of(b: Seq<u8>, pat: Seq<u8>, names: Seq<Seq<u8>>) -> int {
    8 * names.len() + entries_size(meta_size(b, pat), names, names.len() as int)
}

/// Every partial sum of entry sizes lies between zero and the total.
pub proof fn lemma_entries_size_mono(ms: int, names: Seq<Seq<u8>>, i: int, j: int)
    requires
        0 <= ms,
        0 <= i <= j,
    ensures
        0 <= entries_size(ms, names, i) <= entries_size(ms, names, j),
    decreases j - i,
{
    if i < j {
        lemma_entries_size_mono(ms, names, i, j - 1);
        assert(pad_of(names[j - 1].len() as int) >= 1);
    } else {
        lemma_entries_size_nonneg(ms, names, i);
    }
}

/// A sum of entry sizes is never negative.
pub proof fn lemma_entries_size_nonneg(ms: int, names: Seq<Seq<u8>>, i: int)
    requires
        0 <= ms,
    ensures
        entries_size(ms, names, i) >= 0,
    decreases i,
{
    if i > 0 {
        lemma_entries_size_nonneg(ms, names, i - 1);
        assert(pad_of(names[i - 1].len() as int) >= 1);
    }
}

// --- the patched container, byte for byte ----------------------------------

/// The rewritten tone directory: each of the `j` pairs keeps its size and has
/// its offset moved forward by `shift` bytes.
pub open spec fn dir_shift(b: Seq<u8>, toff: int, shift: int, j: int) -> Seq<u8>
    decreases j,
{
    if j <= 0 {
        Seq::empty()
    } else {
        dir_shift(b, toff, shift, j - 1) + u32le(w32(le32_at(b, toff + 12 + 8 * (j - 1)) + shift))
            + b.subrange(toff + 16 + 8 * (j - 1), toff + 20 + 8 * (j - 1))
    }
}

/// The directory pairs of the first `i` appended entries: each entry starts
/// where the one before it ended, the first right after the old payload
/// region once it has moved past the new directory pairs.
pub open spec fn new_dir(base: int, ms: int, names: Seq<Seq<u8>>, i: int) -> Seq<u8>
    decreases i,
{
    if i <= 0 {
        Seq::empty()
    } else {
        new_dir(base, ms, names, i - 1) + u32le(w32(base + entries_size(ms, names, i - 1)))
            + u32le(w32(entry_size(ms, names[i - 1].len() as int)))
    }
}

/// One appended entry: the cloned twelve-byte header, the length byte that
/// counts the name and its terminator, the name, zero padding to a word
/// boundary, the four fixed words and the cloned metadata block.
pub open spec fn entry_bytes(pre: Seq<u8>, meta: Seq<u8>, name: Seq<u8>) -> Seq<u8> {
    pre + seq![(name.len() + 1) as u8] + name + zero_bytes(pad_of(name.len() as int)) + u32le(0)
        + u32le(8) + u32le(0) + u32le(META_SENTINEL) + meta
}

/// The serialised bytes of the first `i` appended entries.
pub open spec fn entries_concat(pre: Seq<u8>, meta: Seq<u8>, names: Seq<Seq<u8>>, i: int) -> Seq<
    u8,
>
    decreases i,
{
    if i <= 0 {
        Seq::empty()
    } else {
        entries_concat(pre, meta, names, i - 1) + entry_bytes(pre, meta, names[i - 1])
    }
}

/// The whole patched container. Every size field grows by the added bytes,
/// old directory offsets move past the new directory pairs, the old payload
/// is copied unchanged, and the new entries follow it, before the unchanged
/// tail of the buffer.
pub open spec fn patched(b: Seq<u8>, pat: Seq<u8>, names: Seq<Seq<u8>>) -> Seq<u8>
    recommends
        patchable(b, pat),
{
    let toff = tone_off(b);
    let th = tone_head(b);
    let ts = tone_dir_size(b) as int;
    let count = tone_count_of(b) as int;
    let lo = last_off(b) as int;
    let ls = last_size(b) as int;
    let ms = meta_size(b, pat);
    let n = names.len() as int;
    let g = 8 * n + entries_size(ms, names, n);
    nus3_magic() + u32le(w32(le32_at(b, 4) + g)) + b.subrange(8, th) + u32le(w32(ts + g))
        + b.subrange(th + 4, toff + 4) + u32le(w32(ts + g)) + u32le(w32(count + n)) + dir_shift(
        b,
        toff,
        8 * n,
        count,
    ) + new_dir(lo + ls + 8 * n, ms, names, n) + b.subrange(toff + 12 + 8 * count, toff + 8 + lo + ls)
        + entries_concat(pre_meta(b, pat), meta_bytes(b, pat), names, n) + b.subrange(
        toff + 8 + lo + ls,
        b.len() as int,
    )
}

// --- exec checks and emission helpers --------------------------------------

/// Every new entry's name fits the one-byte length prefix that the format
/// gives it, terminator included.
pub open spec fn names_short(v: Seq<String>) -> bool {
    forall|i: int| #![trigger v[i]] 0 <= i < v.len() ==> encode_utf8(v[i]@).len() <= 254
}

/// Checks the `"NUS3"` magic and the room for the size field after it.
fn check_nus3(data: &[u8]) -> (r: bool)
    ensures
        r == header_ok(data@),
{
    if data.len() < 8 {
        return false;
    }
    let ok = data[0] == 0x4e && data[1] == 0x55 && data[2] == 0x53 && data[3] == 0x33;
    proof {
        let s = data@.subrange(0, 4);
        assert(s[0] == data@[0] && s[1] == data@[1] && s[2] == data@[2] && s[3] == data@[3]);
        if ok {
            assert(s =~= nus3_magic());
        }
    }
    ok
}

/// Checks the `"BANKTOC "` magic and the room for the two fields after it.
fn check_banktoc(data: &[u8]) -> (r: bool)
    ensures
        r == banktoc_ok(data@),
{
    if data.len() < 24 {
        return false;
    }
    let ok = data[8] == 0x42 && data[9] == 0x41 && data[10] == 0x4e && data[11] == 0x4b
        && data[12] == 0x54 && data[13] == 0x4f && data[14] == 0x43 && data[15] == 0x20;
    proof {
        let s = data@.subrange(8, 16);
        assert(s[0] == data@[8] && s[1] == data@[9] && s[2] == data@[10] && s[3] == data@[11]
            && s[4] == data@[12] && s[5] == data@[13] && s[6] == data@[14] && s[7] == data@[15]);
        if ok {
            assert(s =~= banktoc_magic());
        }
    }
    ok
}

/// Checks the `"TONE"` magic at the start of the tone chunk.
fn check_tone_magic(data: &[u8], toff: usize) -> (r: bool)
    requires
        toff + 4 <= data@.len(),
    ensures
        r == (data@.subrange(toff as int, toff as int + 4) == tone_magic()),
{
    let n = data.len();
    assert(toff + 4 <= n);
    let ok = data[toff] == 0x54 && data[toff + 1] == 0x4f && data[toff + 2] == 0x4e && data[toff
        + 3] == 0x45;
    proof {
        let s = data@.subrange(toff as int, toff as int + 4);
        assert(s[0] == data@[toff as int] && s[1] == data@[toff as int + 1] && s[2] == data@[
            toff as int + 2
        ] && s[3] == data@[toff as int + 3]);
        if ok {
            assert(s =~= tone_magic());
        }
    }
    ok
}

/// A found tone chunk's directory size field lies behind the scan start and
/// wholly inside the buffer, and its content offset lies at or after the
/// offset the scan started from.
pub proof fn lemma_find_tone_rec_bounds(b: Seq<u8>, k: nat, off: int, cur: int)
    requires
        find_tone_rec(b, k, off, cur) is Some,
    ensures
        cur + 4 <= find_tone_rec(b, k, off, cur).unwrap().2,
        find_tone_rec(b, k, off, cur).unwrap().2 + 4 <= b.len(),
        find_tone_rec(b, k, off, cur).unwrap().0 >= off,
        find_tone_rec(b, k, off, cur).unwrap().1 == le32_at(
            b,
            find_tone_rec(b, k, off, cur).unwrap().2,
        ),
    decreases k,
{
    if k == 0 || cur < 0 || cur + 8 > b.len() {
    } else if le32_at(b, cur) == TONE_TAG {
    } else {
        lemma_find_tone_rec_bounds(b, (k - 1) as nat, off + 8 + le32_at(b, cur + 4), cur + 8);
    }
}

/// Walks the content directory for the tone chunk, exactly as
/// [`spec_find_tone`] describes it.
fn find_tone_chunk(data: &[u8]) -> (r: Option<(u128, u32, usize)>)
    requires
        banktoc_ok(data@),
    ensures
        r matches Some(t) ==> spec_find_tone(data@) == Some((t.0 as int, t.1, t.2 as int))
            && t.0 <= 0x2_0000_0000_0000_0000u128,
        r is None ==> spec_find_tone(data@) is None,
{
    let n = data.len();
    let toc_size = read_u32(data, 16);
    let content_count = read_u32(data, 20);
    let mut k: u32 = content_count;
    let mut cur: usize = 24;
    let mut off: u128 = 20 + toc_size as u128;
    loop
        invariant
            n == data@.len(),
            24 <= cur,
            k <= content_count,
            content_count == le32_at(data@, 20),
            off <= 0x1_0000_0014u128 + (content_count - k) as u128 * 0x1_0000_0008u128,
            spec_find_tone(data@) == find_tone_rec(data@, k as nat, off as int, cur as int),
        decreases k,
    {
        if k == 0 {
            return None;
        }
        if n < 8 || cur > n - 8 {
            return None;
        }
        let tag = read_u32(data, cur);
        let size = read_u32(data, cur + 4);
        if tag == TONE_TAG {
            return Some((off, size, cur + 4));
        }
        off = off + 8 + size as u128;
        cur = cur + 8;
        k = k - 1;
    }
}

/// Sums the serialised sizes of the new entries.
fn total_new_size(ms: usize, new_entries: &Vec<String>) -> (r: usize)
    requires
        names_short(new_entries@),
        entries_size(ms as int, entry_names(new_entries@), new_entries@.len() as int)
            <= usize::MAX,
    ensures
        r as int == entries_size(ms as int, entry_names(new_entries@), new_entries@.len() as int),
{
    let ghost names = entry_names(new_entries@);
    let n = new_entries.len();
    let mut total: usize = 0;
    let mut i: usize = 0;
    while i < n
        invariant
            n == new_entries@.len(),
            i <= n,
            names == entry_names(new_entries@),
            names_short(new_entries@),
            entries_size(ms as int, names, n as int) <= usize::MAX,
            total as int == entries_size(ms as int, names, i as int),
        decreases n - i,
    {
        let l = new_entries[i].as_str().len();
        assert(l == names[i as int].len());
        let pad = 4 - ((l + 1) % 4);
        proof {
            lemma_entries_size_mono(ms as int, names, i + 1, n as int);
            lemma_entries_size_nonneg(ms as int, names, i as int);
            assert(entries_size(ms as int, names, i + 1) == entries_size(ms as int, names, i as int)
                + entry_size(ms as int, names[i as int].len() as int));
        }
        let esize = ms + 28 + l + 1 + pad;
        total = total + esize;
        i = i + 1;
    }
    total
}

/// Emits the rewritten tone directory: sizes kept, offsets moved forward by
/// `shift` bytes.
fn emit_dir_shift(out: &mut Vec<u8>, data: &[u8], toff: usize, count: usize, shift: u128)
    requires
        toff + 12 + 8 * count <= data@.len(),
        shift <= 0x1_0000_0000_0000_0000u128,
    ensures
        final(out)@ == old(out)@ + dir_shift(data@, toff as int, shift as int, count as int),
{
    let n = data.len();
    let mut j: usize = 0;
    while j < count
        invariant
            n == data@.len(),
            toff + 12 + 8 * count <= n,
            shift <= 0x1_0000_0000_0000_0000u128,
            j <= count,
            out@ == old(out)@ + dir_shift(data@, toff as int, shift as int, j as int),
        decreases count - j,
    {
        let co = read_u32(data, toff + 12 + 8 * j);
        let nv = ((co as u128 + shift) % 0x1_0000_0000) as u32;
        assert(nv == w32(le32_at(data@, toff as int + 12 + 8 * (j as int)) + shift as int));
        push_u32(out, nv);
        append_range(out, data, toff + 16 + 8 * j, toff + 20 + 8 * j);
        proof {
            assert(out@ =~= old(out)@ + dir_shift(
                data@,
                toff as int,
                shift as int,
                j as int + 1,
            ));
        }
        j = j + 1;
    }
}

/// Emits the directory pairs of the new entries, chained one after another
/// from `base`.
fn emit_new_dir(out: &mut Vec<u8>, base: u128, ms: usize, new_entries: &Vec<String>)
    requires
        names_short(new_entries@),
        base <= 0x2_0000_0000_0000_0000u128,
        entries_size(ms as int, entry_names(new_entries@), new_entries@.len() as int)
            <= usize::MAX,
    ensures
        final(out)@ == old(out)@ + new_dir(
            base as int,
            ms as int,
            entry_names(new_entries@),
            new_entries@.len() as int,
        ),
{
    let ghost names = entry_names(new_entries@);
    let n = new_entries.len();
    let mut acc: usize = 0;
    let mut i: usize = 0;
    while i < n
        invariant
            n == new_entries@.len(),
            i <= n,
            names == entry_names(new_entries@),
            names_short(new_entries@),
            base <= 0x2_0000_0000_0000_0000u128,
            entries_size(ms as int, names, n as int) <= usize::MAX,
            acc as int == entries_size(ms as int, names, i as int),
            out@ == old(out)@ + new_dir(base as int, ms as int, names, i as int),
        decreases n - i,
    {
        let l = new_entries[i].as_str().len();
        assert(l == names[i as int].len());
        let pad = 4 - ((l + 1) % 4);
        proof {
            lemma_entries_size_mono(ms as int, names, i + 1, n as int);
            lemma_entries_size_nonneg(ms as int, names, i as int);
            assert(entries_size(ms as int, names, i + 1) == entries_size(ms as int, names, i as int)
                + entry_size(ms as int, names[i as int].len() as int));
        }
        let esize = ms + 28 + l + 1 + pad;
        let off_v = ((base + acc as u128) % 0x1_0000_0000) as u32;
        let size_v = ((esize as u128) % 0x1_0000_0000) as u32;
        assert(off_v == w32(base as int + entries_size(ms as int, names, i as int)));
        assert(size_v == w32(entry_size(ms as int, names[i as int].len() as int)));
        push_u32(out, off_v);
        push_u32(out, size_v);
        proof {
            assert(out@ =~= old(out)@ + new_dir(base as int, ms as int, names, i as int + 1));
        }
        acc = acc + esize;
        i = i + 1;
    }
}

/// Emits the serialised bytes of every new entry: the cloned header, the
/// length-prefixed name, padding, the four fixed words and the cloned
/// metadata block.
#[verifier::rlimit(60)]
fn emit_new_entries(
    out: &mut Vec<u8>,
    data: &[u8],
    anchor: usize,
    moff: usize,
    msize: usize,
    new_entries: &Vec<String>,
)
    requires
        names_short(new_entries@),
        13 <= anchor <= data@.len(),
        moff + msize <= data@.len(),
    ensures
        final(out)@ == old(out)@ + entries_concat(
            data@.subrange(anchor - 13, anchor - 1),
            data@.subrange(moff as int, moff as int + msize as int),
            entry_names(new_entries@),
            new_entries@.len() as int,
        ),
{
    let ghost names = entry_names(new_entries@);
    let ghost pre = data@.subrange(anchor - 13, anchor - 1);
    let ghost meta = data@.subrange(moff as int, moff as int + msize as int);
    let nd = data.len();
    let n = new_entries.len();
    let mut i: usize = 0;
    while i < n
        invariant
            n == new_entries@.len(),
            i <= n,
            names == entry_names(new_entries@),
            names_short(new_entries@),
            nd == data@.len(),
            13 <= anchor <= data@.len(),
            moff + msize <= data@.len(),
            pre == data@.subrange(anchor - 13, anchor - 1),
            meta == data@.subrange(moff as int, moff as int + msize as int),
            out@ == old(out)@ + entries_concat(pre, meta, names, i as int),
        decreases n - i,
    {
        append_range(out, data, anchor - 13, anchor - 1);
        let name = new_entries[i].as_str();
        let nb = name.as_bytes();
        let l = nb.len();
        assert(nb@ == names[i as int]);
        assert(l == names[i as int].len());
        out.push((l + 1) as u8);
        append_range(out, nb, 0, l);
        let pad = 4 - ((l + 1) % 4);
        push_zeros(out, pad);
        push_u32(out, 0);
        push_u32(out, 8);
        push_u32(out, 0);
        push_u32(out, META_SENTINEL);
        append_range(out, data, moff, moff + msize);
        proof {
            assert(out@ =~= old(out)@ + entries_concat(pre, meta, names, i as int + 1));
        }
        i = i + 1;
    }
}

/// The payload offset that the `j`-th tone-directory pair declares.
pub open spec fn dir_entry_off(b: Seq<u8>, toff: int, j: int) -> u32 {
    le32_at(b, toff + 12 + 8 * j)
}

/// The payload size that the `j`-th tone-directory pair declares.
pub open spec fn dir_entry_size(b: Seq<u8>, toff: int, j: int) -> u32 {
    le32_at(b, toff + 16 + 8 * j)
}

// --- lengths and positions of the output segments ---------------------------

/// The rewritten tone directory keeps its length: eight bytes per pair.
pub proof fn lemma_dir_shift_len(b: Seq<u8>, toff: int, shift: int, j: int)
    requires
        j >= 0,
        0 <= toff + 12,
        toff + 12 + 8 * j <= b.len(),
    ensures
        dir_shift(b, toff, shift, j).len() == 8 * j,
    decreases j,
{
    vstd::bytes::lemma_auto_spec_u32_to_from_le_bytes();
    if j > 0 {
        lemma_dir_shift_len(b, toff, shift, j - 1);
    }
}

/// The new directory pairs take eight bytes per entry.
pub proof fn lemma_new_dir_len(base: int, ms: int, names: Seq<Seq<u8>>, i: int)
    requires
        i >= 0,
    ensures
        new_dir(base, ms, names, i).len() == 8 * i,
    decreases i,
{
    vstd::bytes::lemma_auto_spec_u32_to_from_le_bytes();
    if i > 0 {
        lemma_new_dir_len(base, ms, names, i - 1);
    }
}

/// One serialised entry takes exactly the size its directory pair declares.
pub proof fn lemma_entry_bytes_len(pre: Seq<u8>, meta: Seq<u8>, name: Seq<u8>)
    requires
        pre.len() == 12,
    ensures
        entry_bytes(pre, meta, name).len() == entry_size(meta.len() as int, name.len() as int),
{
    vstd::bytes::lemma_auto_spec_u32_to_from_le_bytes();
    assert(pad_of(name.len() as int) >= 1);
}

/// The serialised entries take exactly their summed declared sizes.
pub proof fn lemma_entries_concat_len(pre: Seq<u8>, meta: Seq<u8>, names: Seq<Seq<u8>>, i: int)
    requires
        pre.len() == 12,
        i >= 0,
    ensures
        entries_concat(pre, meta, names, i).len() == entries_size(meta.len() as int, names, i),
    decreases i,
{
    if i > 0 {
        lemma_entries_concat_len(pre, meta, names, i - 1);
        lemma_entry_bytes_len(pre, meta, names[i - 1]);
    }
}

/// The patched container is the input plus exactly the bytes that
/// [`growth_of`] counts.
pub proof fn lemma_patched_len(b: Seq<u8>, pat: Seq<u8>, names: Seq<Seq<u8>>)
    requires
        patchable(b, pat),
    ensures
        patched(b, pat, names).len() == b.len() + growth_of(b, pat, names),
        pre_meta(b, pat).len() == 12,
        meta_bytes(b, pat).len() == meta_size(b, pat),
        meta_size(b, pat) >= 4,
{
    let toff = tone_off(b);
    let th = tone_head(b);
    let count = tone_count_of(b) as int;
    let lo = last_off(b) as int;
    let ls = last_size(b) as int;
    let ms = meta_size(b, pat);
    let n = names.len() as int;
    vstd::bytes::lemma_auto_spec_u32_to_from_le_bytes();
    lemma_meta_scan_bounds(b, spec_anchor(b, pat).unwrap());
    lemma_find_tone_rec_bounds(b, le32_at(b, 20) as nat, 20 + le32_at(b, 16) as int, 24);
    lemma_dir_shift_len(b, toff, 8 * n, count);
    lemma_new_dir_len(lo + ls + 8 * n, ms, names, n);
    lemma_entries_concat_len(pre_meta(b, pat), meta_bytes(b, pat), names, n);
}

/// Where each piece of the patched container lies: the byte positions of the
/// rewritten fields, the moved directory, the copied payload, the appended
/// entries and the unchanged tail.
#[verifier::rlimit(80)]
pub proof fn lemma_patched_layout(b: Seq<u8>, pat: Seq<u8>, names: Seq<Seq<u8>>)
    requires
        patchable(b, pat),
    ensures
        ({
            let out = patched(b, pat, names);
            let toff = tone_off(b);
            let th = tone_head(b);
            let ts = tone_dir_size(b) as int;
            let count = tone_count_of(b) as int;
            let lo = last_off(b) as int;
            let ls = last_size(b) as int;
            let ms = meta_size(b, pat);
            let n = names.len() as int;
            let g = growth_of(b, pat, names);
            &&& out.len() == b.len() + g
            &&& out.subrange(0, 4) == nus3_magic()
            &&& out.subrange(4, 8) == u32le(w32(le32_at(b, 4) + g))
            &&& out.subrange(8, th) == b.subrange(8, th)
            &&& out.subrange(th, th + 4) == u32le(w32(ts + g))
            &&& out.subrange(th + 4, toff + 4) == b.subrange(th + 4, toff + 4)
            &&& out.subrange(toff + 4, toff + 8) == u32le(w32(ts + g))
            &&& out.subrange(toff + 8, toff + 12) == u32le(w32(count + n))
            &&& out.subrange(toff + 12, toff + 12 + 8 * count) == dir_shift(b, toff, 8 * n, count)
            &&& out.subrange(toff + 12 + 8 * count, toff + 12 + 8 * count + 8 * n) == new_dir(
                lo + ls + 8 * n,
                ms,
                names,
                n,
            )
            &&& out.subrange(toff + 12 + 8 * count + 8 * n, toff + 8 * n + 8 + lo + ls)
                == b.subrange(toff + 12 + 8 * count, toff + 8 + lo + ls)
            &&& out.subrange(toff + 8 * n + 8 + lo + ls, toff + 8 * n + 8 + lo + ls
                + entries_size(ms, names, n)) == entries_concat(
                pre_meta(b, pat),
                meta_bytes(b, pat),
                names,
                n,
            )
            &&& out.subrange(toff + 8 + lo + ls + g, out.len() as int) == b.subrange(
                toff + 8 + lo + ls,
                b.len() as int,
            )
        }),
{
    let out = patched(b, pat, names);
    let toff = tone_off(b);
    let th = tone_head(b);
    let ts = tone_dir_size(b) as int;
    let count = tone_count_of(b) as int;
    let lo = last_off(b) as int;
    let ls = last_size(b) as int;
    let ms = meta_size(b, pat);
    let n = names.len() as int;
    let g = growth_of(b, pat, names);
    lemma_patched_len(b, pat, names);
    vstd::bytes::lemma_auto_spec_u32_to_from_le_bytes();
    lemma_find_tone_rec_bounds(b, le32_at(b, 20) as nat, 20 + le32_at(b, 16) as int, 24);
    lemma_dir_shift_len(b, toff, 8 * n, count);
    lemma_new_dir_len(lo + ls + 8 * n, ms, names, n);
    lemma_entries_concat_len(pre_meta(b, pat), meta_bytes(b, pat), names, n);
    lemma_entries_size_nonneg(ms, names, n);
    let s1 = nus3_magic();
    let s2 = u32le(w32(le32_at(b, 4) + g));
    let s3 = b.subrange(8, th);
    let s4 = u32le(w32(ts + g));
    let s5 = b.subrange(th + 4, toff + 4);
    let s6 = u32le(w32(ts + g));
    let s7 = u32le(w32(count + n));
    let s8 = dir_shift(b, toff, 8 * n, count);
    let s9 = new_dir(lo + ls + 8 * n, ms, names, n);
    let s10 = b.subrange(toff + 12 + 8 * count, toff + 8 + lo + ls);
    let s11 = entries_concat(pre_meta(b, pat), meta_bytes(b, pat), names, n);
    let s12 = b.subrange(toff + 8 + lo + ls, b.len() as int);
    assert(out == s1 + s2 + s3 + s4 + s5 + s6 + s7 + s8 + s9 + s10 + s11 + s12);
    assert(out.subrange(0, 4) =~= s1);
    assert(out.subrange(4, 8) =~= s2);
    assert(out.subrange(8, th) =~= s3);
    assert(out.subrange(th, th + 4) =~= s4);
    assert(out.subrange(th + 4, toff + 4) =~= s5);
    assert(out.subrange(toff + 4, toff + 8) =~= s6);
    assert(out.subrange(toff + 8, toff + 12) =~= s7);
    assert(out.subrange(toff + 12, toff + 12 + 8 * count) =~= s8);
    assert(out.subrange(toff + 12 + 8 * count, toff + 12 + 8 * count + 8 * n) =~= s9);
    assert(out.subrange(toff + 12 + 8 * count + 8 * n, toff + 8 * n + 8 + lo + ls) =~= s10);
    assert(out.subrange(toff + 8 * n + 8 + lo + ls, toff + 8 * n + 8 + lo + ls + entries_size(
        ms,
        names,
        n,
    )) =~= s11);
    assert(out.subrange(toff + 8 + lo + ls + g, out.len() as int) =~= s12);
}

// --- laws -------------------------------------------------------------------

/// With nothing to shift, the rewritten tone directory is the old one.
pub proof fn lemma_dir_shift_id(b: Seq<u8>, toff: int, j: int)
    requires
        j >= 0,
        0 <= toff + 12,
        toff + 12 + 8 * j <= b.len(),
    ensures
        dir_shift(b, toff, 0, j) == b.subrange(toff + 12, toff + 12 + 8 * j),
    decreases j,
{
    vstd::bytes::lemma_auto_spec_u32_to_from_le_bytes();
    if j == 0 {
        assert(dir_shift(b, toff, 0, 0) =~= b.subrange(toff + 12, toff + 12));
    } else {
        lemma_dir_shift_id(b, toff, j - 1);
        crate::bytes_le::lemma_le32_roundtrip(b, toff + 12 + 8 * (j - 1));
        assert(w32(le32_at(b, toff + 12 + 8 * (j - 1)) + 0) == le32_at(b, toff + 12 + 8 * (j
            - 1)));
        assert(dir_shift(b, toff, 0, j) =~= b.subrange(toff + 12, toff + 12 + 8 * j));
    }
}

/// Patching with no new entries re-serialises the container byte for byte.
#[verifier::rlimit(80)]
pub proof fn lemma_patch_empty_is_identity(b: Seq<u8>, pat: Seq<u8>)
    requires
        patchable(b, pat),
    ensures
        patched(b, pat, Seq::empty()) == b,
{
    let names = Seq::<Seq<u8>>::empty();
    let out = patched(b, pat, names);
    let toff = tone_off(b);
    let th = tone_head(b);
    let ts = tone_dir_size(b) as int;
    let count = tone_count_of(b) as int;
    let lo = last_off(b) as int;
    let ls = last_size(b) as int;
    vstd::bytes::lemma_auto_spec_u32_to_from_le_bytes();
    lemma_find_tone_rec_bounds(b, le32_at(b, 20) as nat, 20 + le32_at(b, 16) as int, 24);
    lemma_dir_shift_id(b, toff, count);
    crate::bytes_le::lemma_le32_roundtrip(b, 4);
    crate::bytes_le::lemma_le32_roundtrip(b, th);
    crate::bytes_le::lemma_le32_roundtrip(b, toff + 4);
    crate::bytes_le::lemma_le32_roundtrip(b, toff + 8);
    assert(u32le(w32(le32_at(b, 4) + 0)) == b.subrange(4, 8));
    assert(u32le(w32(ts + 0)) == b.subrange(th, th + 4));
    assert(u32le(w32(ts + 0)) == b.subrange(toff + 4, toff + 8));
    assert(u32le(w32(count + 0)) == b.subrange(toff + 8, toff + 12));
    assert(out =~= b);
}

/// A directory scan reads only the bytes from its cursor to the found size
/// field: a second buffer that agrees there is scanned to the same chunk,
/// with the size that the second buffer holds.
pub proof fn lemma_find_tone_rec_agree(b1: Seq<u8>, b2: Seq<u8>, k: nat, off: int, cur: int)
    requires
        0 <= cur,
        find_tone_rec(b1, k, off, cur) is Some,
        b2.len() >= find_tone_rec(b1, k, off, cur).unwrap().2 + 4,
        forall|i: int|
            cur <= i < find_tone_rec(b1, k, off, cur).unwrap().2 ==> b1[i] == b2[i],
    ensures
        find_tone_rec(b2, k, off, cur) == Some(
            (
                find_tone_rec(b1, k, off, cur).unwrap().0,
                le32_at(b2, find_tone_rec(b1, k, off, cur).unwrap().2),
                find_tone_rec(b1, k, off, cur).unwrap().2,
            ),
        ),
    decreases k,
{
    lemma_find_tone_rec_bounds(b1, k, off, cur);
    assert(b1.subrange(cur, cur + 4) =~= b2.subrange(cur, cur + 4));
    if le32_at(b1, cur) == TONE_TAG {
    } else {
        lemma_find_tone_rec_bounds(
            b1,
            (k - 1) as nat,
            off + 8 + le32_at(b1, cur + 4),
            cur + 8,
        );
        assert(b1.subrange(cur + 4, cur + 8) =~= b2.subrange(cur + 4, cur + 8));
        lemma_find_tone_rec_agree(
            b1,
            b2,
            (k - 1) as nat,
            off + 8 + le32_at(b1, cur + 4),
            cur + 8,
        );
    }
}

/// The patched container still parses — same magics, same tone chunk
/// position, the grown size in both of the chunk's size fields — and its
/// tone count has grown by exactly the number of appended entries.
#[verifier::rlimit(80)]
pub proof fn lemma_patch_count(b: Seq<u8>, pat: Seq<u8>, names: Seq<Seq<u8>>)
    requires
        patchable(b, pat),
        tone_count_of(b) + names.len() < 0x1_0000_0000,
    ensures
        ({
            let out = patched(b, pat, names);
            &&& header_ok(out)
            &&& banktoc_ok(out)
            &&& tone_found(out)
            &&& tone_off(out) == tone_off(b)
            &&& tone_head(out) == tone_head(b)
            &&& tone_dir_size(out) == w32(tone_dir_size(b) + growth_of(b, pat, names))
            &&& tone_count_of(out) == tone_count_of(b) + names.len()
            &&& tone_head(b) + 4 <= tone_off(b) ==> tone_header_ok(out) && tone_size_ok(out)
        }),
{
    let out = patched(b, pat, names);
    let toff = tone_off(b);
    let th = tone_head(b);
    let count = tone_count_of(b) as int;
    let n = names.len() as int;
    let g = growth_of(b, pat, names);
    lemma_patched_layout(b, pat, names);
    lemma_patched_len(b, pat, names);
    lemma_entries_size_nonneg(meta_size(b, pat), names, n);
    lemma_find_tone_rec_bounds(b, le32_at(b, 20) as nat, 20 + le32_at(b, 16) as int, 24);
    vstd::bytes::lemma_auto_spec_u32_to_from_le_bytes();
    assert forall|i: int| 8 <= i < th implies out[i] == b[i] by {
        assert(out.subrange(8, th)[i - 8] == out[i]);
        assert(b.subrange(8, th)[i - 8] == b[i]);
    }
    assert(out.subrange(0, 4) == nus3_magic());
    assert(out.subrange(8, 16) =~= b.subrange(8, 16));
    assert(out.subrange(16, 20) =~= b.subrange(16, 20));
    assert(out.subrange(20, 24) =~= b.subrange(20, 24));
    assert(le32_at(out, 16) == le32_at(b, 16));
    assert(le32_at(out, 20) == le32_at(b, 20));
    lemma_find_tone_rec_agree(b, out, le32_at(b, 20) as nat, 20 + le32_at(b, 16) as int, 24);
    assert(spec_find_tone(out) == Some((toff, le32_at(out, th), th)));
    assert(out.subrange(toff + 8, toff + 12) == u32le(w32(count + n)));
    assert(le32_at(out, toff + 8) == w32(count + n));
    assert(w32(count + n) == count + n);
    let ts = tone_dir_size(b) as int;
    assert(out.subrange(th, th + 4) == u32le(w32(ts + g)));
    assert(le32_at(out, th) == w32(ts + g));
    if th + 4 <= toff {
        // the chunk magic lies inside the copied stretch before the chunk
        out.lemma_slice_of_slice(th + 4, toff + 4, toff - (th + 4), toff - th);
        b.lemma_slice_of_slice(th + 4, toff + 4, toff - (th + 4), toff - th);
        assert(out.subrange(toff, toff + 4) == b.subrange(toff, toff + 4));
        assert(out.subrange(toff + 4, toff + 8) == u32le(w32(ts + g)));
        assert(le32_at(out, toff + 4) == w32(ts + g));
    }
}

/// Both rewritten size fields of the tone chunk hold the old declared size
/// plus the added bytes; when the input's declared size reached exactly the
/// end of its last entry, the new declared size again reaches exactly the
/// end of the last appended entry, after which the unchanged tail follows.
#[verifier::rlimit(80)]
pub proof fn lemma_patch_size_fields(b: Seq<u8>, pat: Seq<u8>, names: Seq<Seq<u8>>)
    requires
        patchable(b, pat),
        tone_dir_size(b) + growth_of(b, pat, names) < 0x1_0000_0000,
    ensures
        ({
            let out = patched(b, pat, names);
            let g = growth_of(b, pat, names);
            &&& le32_at(out, tone_head(b)) == tone_dir_size(b) + g
            &&& le32_at(out, tone_off(b) + 4) == tone_dir_size(b) + g
            &&& tone_dir_size(b) == last_off(b) + last_size(b) ==> tone_off(b) + 8 + le32_at(
                out,
                tone_off(b) + 4,
            ) == tone_off(b) + 8 + last_off(b) + last_size(b) + g
            &&& out.subrange(
                tone_off(b) + 8 + last_off(b) + last_size(b) + g,
                out.len() as int,
            ) == b.subrange(tone_off(b) + 8 + last_off(b) + last_size(b), b.len() as int)
        }),
{
    let out = patched(b, pat, names);
    let toff = tone_off(b);
    let th = tone_head(b);
    let ts = tone_dir_size(b) as int;
    let n = names.len() as int;
    let g = growth_of(b, pat, names);
    lemma_patched_layout(b, pat, names);
    lemma_patched_len(b, pat, names);
    lemma_entries_size_nonneg(meta_size(b, pat), names, n);
    vstd::bytes::lemma_auto_spec_u32_to_from_le_bytes();
    assert(out.subrange(th, th + 4) == u32le(w32(ts + g)));
    assert(le32_at(out, th) == w32(ts + g));
    assert(out.subrange(toff + 4, toff + 8) == u32le(w32(ts + g)));
    assert(le32_at(out, toff + 4) == w32(ts + g));
    assert(w32(ts + g) == ts + g);
}

/// The two fields of the `j`-th rewritten directory pair.
pub proof fn lemma_dir_shift_at(b: Seq<u8>, toff: int, shift: int, count: int, j: int)
    requires
        0 <= j < count,
        0 <= toff + 12,
        toff + 12 + 8 * count <= b.len(),
    ensures
        dir_shift(b, toff, shift, count).subrange(8 * j, 8 * j + 4) == u32le(
            w32(le32_at(b, toff + 12 + 8 * j) + shift),
        ),
        dir_shift(b, toff, shift, count).subrange(8 * j + 4, 8 * j + 8) == b.subrange(
            toff + 16 + 8 * j,
            toff + 20 + 8 * j,
        ),
    decreases count,
{
    vstd::bytes::lemma_auto_spec_u32_to_from_le_bytes();
    lemma_dir_shift_len(b, toff, shift, count);
    lemma_dir_shift_len(b, toff, shift, count - 1);
    if j == count - 1 {
        assert(dir_shift(b, toff, shift, count).subrange(8 * j, 8 * j + 4) =~= u32le(
            w32(le32_at(b, toff + 12 + 8 * j) + shift),
        ));
        assert(dir_shift(b, toff, shift, count).subrange(8 * j + 4, 8 * j + 8) =~= b.subrange(
            toff + 16 + 8 * j,
            toff + 20 + 8 * j,
        ));
    } else {
        lemma_dir_shift_at(b, toff, shift, count - 1, j);
        assert(dir_shift(b, toff, shift, count).subrange(8 * j, 8 * j + 4) =~= dir_shift(
            b,
            toff,
            shift,
            count - 1,
        ).subrange(8 * j, 8 * j + 4));
        assert(dir_shift(b, toff, shift, count).subrange(8 * j + 4, 8 * j + 8) =~= dir_shift(
            b,
            toff,
            shift,
            count - 1,
        ).subrange(8 * j + 4, 8 * j + 8));
    }
}

/// The two fields of the `i`-th appended directory pair.
pub proof fn lemma_new_dir_at(base: int, ms: int, names: Seq<Seq<u8>>, n: int, i: int)
    requires
        0 <= i < n,
    ensures
        new_dir(base, ms, names, n).subrange(8 * i, 8 * i + 4) == u32le(
            w32(base + entries_size(ms, names, i)),
        ),
        new_dir(base, ms, names, n).subrange(8 * i + 4, 8 * i + 8) == u32le(
            w32(entry_size(ms, names[i].len() as int)),
        ),
    decreases n,
{
    vstd::bytes::lemma_auto_spec_u32_to_from_le_bytes();
    lemma_new_dir_len(base, ms, names, n);
    lemma_new_dir_len(base, ms, names, n - 1);
    if i == n - 1 {
        assert(new_dir(base, ms, names, n).subrange(8 * i, 8 * i + 4) =~= u32le(
            w32(base + entries_size(ms, names, i)),
        ));
        assert(new_dir(base, ms, names, n).subrange(8 * i + 4, 8 * i + 8) =~= u32le(
            w32(entry_size(ms, names[i].len() as int)),
        ));
    } else {
        lemma_new_dir_at(base, ms, names, n - 1, i);
        assert(new_dir(base, ms, names, n).subrange(8 * i, 8 * i + 4) =~= new_dir(
            base,
            ms,
            names,
            n - 1,
        ).subrange(8 * i, 8 * i + 4));
        assert(new_dir(base, ms, names, n).subrange(8 * i + 4, 8 * i + 8) =~= new_dir(
            base,
            ms,
            names,
            n - 1,
        ).subrange(8 * i + 4, 8 * i + 8));
    }
}

/// The bytes of the `i`-th appended entry inside the concatenation of all of
/// them.
pub proof fn lemma_entries_concat_at(
    pre: Seq<u8>,
    meta: Seq<u8>,
    names: Seq<Seq<u8>>,
    n: int,
    i: int,
)
    requires
        pre.len() == 12,
        0 <= i < n,
    ensures
        entries_concat(pre, meta, names, n).subrange(
            entries_size(meta.len() as int, names, i),
            entries_size(meta.len() as int, names, i + 1),
        ) == entry_bytes(pre, meta, names[i]),
    decreases n,
{
    let ms = meta.len() as int;
    lemma_entries_concat_len(pre, meta, names, n);
    lemma_entries_concat_len(pre, meta, names, n - 1);
    lemma_entry_bytes_len(pre, meta, names[i]);
    lemma_entries_size_mono(ms, names, 0, i);
    lemma_entries_size_mono(ms, names, i + 1, n);
    if i == n - 1 {
        assert(entries_concat(pre, meta, names, n).subrange(
            entries_size(ms, names, i),
            entries_size(ms, names, i + 1),
        ) =~= entry_bytes(pre, meta, names[i]));
    } else {
        lemma_entries_concat_at(pre, meta, names, n - 1, i);
        lemma_entries_size_mono(ms, names, i + 1, n - 1);
        assert(entries_concat(pre, meta, names, n).subrange(
            entries_size(ms, names, i),
            entries_size(ms, names, i + 1),
        ) =~= entries_concat(pre, meta, names, n - 1).subrange(
            entries_size(ms, names, i),
            entries_size(ms, names, i + 1),
        ));
    }
}

/// The `j`-th old directory pair survives the patch: the size kept, the
/// offset moved past the new directory pairs.
pub open spec fn old_entry_kept(b: Seq<u8>, pat: Seq<u8>, names: Seq<Seq<u8>>, j: int) -> bool {
    let out = patched(b, pat, names);
    let toff = tone_off(b);
    &&& dir_entry_off(out, toff, j) == w32(dir_entry_off(b, toff, j) + 8 * names.len())
    &&& dir_entry_size(out, toff, j) == dir_entry_size(b, toff, j)
}

/// The `i`-th appended entry stands exactly where its directory pair
/// points: the pair holds its offset and size, and the bytes there are the
/// cloned header, the name-length byte, the name, and the rest of
/// [`entry_bytes`].
pub open spec fn new_entry_placed(b: Seq<u8>, pat: Seq<u8>, names: Seq<Seq<u8>>, i: int) -> bool {
    let out = patched(b, pat, names);
    let toff = tone_off(b);
    let count = tone_count_of(b) as int;
    let ms = meta_size(b, pat);
    let base0 = last_off(b) + last_size(b) + 8 * names.len();
    let start = toff + 8 + base0 + entries_size(ms, names, i);
    &&& dir_entry_off(out, toff, count + i) == base0 + entries_size(ms, names, i)
    &&& dir_entry_size(out, toff, count + i) == entry_size(ms, names[i].len() as int)
    &&& out.subrange(start, start + entry_size(ms, names[i].len() as int)) == entry_bytes(
        pre_meta(b, pat),
        meta_bytes(b, pat),
        names[i],
    )
    &&& out[start + 12] == (names[i].len() + 1) as u8
    &&& out.subrange(start + 13, start + 13 + names[i].len()) == names[i]
}

/// One old tone entry survives a patch: its directory pair keeps its size
/// and has its offset moved past the new directory pairs.
#[verifier::rlimit(100)]
pub proof fn lemma_patch_old_entry_at(b: Seq<u8>, pat: Seq<u8>, names: Seq<Seq<u8>>, j: int)
    requires
        patchable(b, pat),
        0 <= j < tone_count_of(b) as int,
    ensures
        old_entry_kept(b, pat, names, j),
{
    let out = patched(b, pat, names);
    let toff = tone_off(b);
    let count = tone_count_of(b) as int;
    let n = names.len() as int;
    lemma_patched_layout(b, pat, names);
    lemma_patched_len(b, pat, names);
    lemma_find_tone_rec_bounds(b, le32_at(b, 20) as nat, 20 + le32_at(b, 16) as int, 24);
    vstd::bytes::lemma_auto_spec_u32_to_from_le_bytes();
    let ds = dir_shift(b, toff, 8 * n, count);
    lemma_dir_shift_len(b, toff, 8 * n, count);
    lemma_dir_shift_at(b, toff, 8 * n, count, j);
    out.lemma_slice_of_slice(toff + 12, toff + 12 + 8 * count, 8 * j, 8 * j + 4);
    out.lemma_slice_of_slice(toff + 12, toff + 12 + 8 * count, 8 * j + 4, 8 * j + 8);
    assert(out.subrange(toff + 12 + 8 * j, toff + 16 + 8 * j) == u32le(
        w32(le32_at(b, toff + 12 + 8 * j) + 8 * n),
    ));
    assert(out.subrange(toff + 16 + 8 * j, toff + 20 + 8 * j) == b.subrange(
        toff + 16 + 8 * j,
        toff + 20 + 8 * j,
    ));
}

/// One byte of the old payload region reappears in the patched container,
/// moved past the new directory pairs.
#[verifier::rlimit(100)]
pub proof fn lemma_patch_payload_byte(b: Seq<u8>, pat: Seq<u8>, names: Seq<Seq<u8>>, p: int)
    requires
        patchable(b, pat),
        tone_off(b) + 12 + 8 * (tone_count_of(b) as int) <= p < tone_off(b) + 8 + last_off(b)
            + last_size(b),
    ensures
        patched(b, pat, names)[p + 8 * names.len()] == b[p],
{
    let out = patched(b, pat, names);
    let toff = tone_off(b);
    let count = tone_count_of(b) as int;
    let lo = last_off(b) as int;
    let ls = last_size(b) as int;
    let n = names.len() as int;
    lemma_patched_layout(b, pat, names);
    lemma_patched_len(b, pat, names);
    lemma_find_tone_rec_bounds(b, le32_at(b, 20) as nat, 20 + le32_at(b, 16) as int, 24);
    lemma_entries_size_nonneg(meta_size(b, pat), names, n);
    assert(0 <= toff + 12 + 8 * count + 8 * n);
    assert(toff + 8 * n + 8 + lo + ls <= out.len());
    let lhs = out.subrange(toff + 12 + 8 * count + 8 * n, toff + 8 * n + 8 + lo + ls);
    assert(lhs =~= out.subrange(toff + 12 + 8 * count + 8 * n, toff + 8 * n + 8 + lo + ls));
    assert(lhs[p - (toff + 12 + 8 * count)] == out[p + 8 * n]);
    assert(b.subrange(toff + 12 + 8 * count, toff + 8 + lo + ls)[p - (toff + 12 + 8 * count)]
        == b[p]);
}

/// Every old tone entry survives a patch: its directory pair keeps its
/// size and has its offset moved past the new directory pairs, and every
/// byte of the old payload region reappears, moved by exactly that
/// distance. An old pair that pointed at its entry's bytes therefore still
/// does.
pub proof fn lemma_patch_keeps_old_entries(b: Seq<u8>, pat: Seq<u8>, names: Seq<Seq<u8>>)
    requires
        patchable(b, pat),
    ensures
        forall|j: int|
            0 <= j < tone_count_of(b) as int ==> #[trigger] old_entry_kept(b, pat, names, j),
        forall|p: int|
            tone_off(b) + 12 + 8 * (tone_count_of(b) as int) <= p < tone_off(b) + 8 + last_off(b)
                + last_size(b) ==> patched(b, pat, names)[p + 8 * names.len()]
                == #[trigger] b[p],
{
    assert forall|j: int|
        0 <= j < tone_count_of(b) as int implies #[trigger] old_entry_kept(b, pat, names, j) by {
        lemma_patch_old_entry_at(b, pat, names, j);
    }
    assert forall|p: int|
        tone_off(b) + 12 + 8 * (tone_count_of(b) as int) <= p < tone_off(b) + 8 + last_off(b)
            + last_size(b) implies patched(b, pat, names)[p + 8 * names.len()]
            == #[trigger] b[p] by {
        lemma_patch_payload_byte(b, pat, names, p);
    }
}

/// One appended entry is placed exactly where its new directory pair points:
/// the pair holds the entry's offset and size, and the entry's bytes there
/// open with the cloned header, the name-length byte and the name itself.
#[verifier::rlimit(100)]
pub proof fn lemma_patch_new_entry_at(b: Seq<u8>, pat: Seq<u8>, names: Seq<Seq<u8>>, i: int)
    requires
        patchable(b, pat),
        last_off(b) + last_size(b) + growth_of(b, pat, names) < 0x1_0000_0000,
        0 <= i < names.len(),
    ensures
        new_entry_placed(b, pat, names, i),
{
    let out = patched(b, pat, names);
    let toff = tone_off(b);
    let count = tone_count_of(b) as int;
    let lo = last_off(b) as int;
    let ls = last_size(b) as int;
    let ms = meta_size(b, pat);
    let n = names.len() as int;
    let base0 = lo + ls + 8 * n;
    let pre = pre_meta(b, pat);
    let meta = meta_bytes(b, pat);
    let start = toff + 8 + base0 + entries_size(ms, names, i);
    let esz = entry_size(ms, names[i].len() as int);
    lemma_patched_layout(b, pat, names);
    lemma_patched_len(b, pat, names);
    lemma_find_tone_rec_bounds(b, le32_at(b, 20) as nat, 20 + le32_at(b, 16) as int, 24);
    vstd::bytes::lemma_auto_spec_u32_to_from_le_bytes();
    let nd = new_dir(base0, ms, names, n);
    let ec = entries_concat(pre, meta, names, n);
    lemma_new_dir_len(base0, ms, names, n);
    lemma_entries_concat_len(pre, meta, names, n);
    lemma_new_dir_at(base0, ms, names, n, i);
    lemma_entries_concat_at(pre, meta, names, n, i);
    lemma_entry_bytes_len(pre, meta, names[i]);
    lemma_entries_size_mono(ms, names, 0, i);
    lemma_entries_size_mono(ms, names, i + 1, n);
    // the directory pair
    out.lemma_slice_of_slice(
        toff + 12 + 8 * count,
        toff + 12 + 8 * count + 8 * n,
        8 * i,
        8 * i + 4,
    );
    out.lemma_slice_of_slice(
        toff + 12 + 8 * count,
        toff + 12 + 8 * count + 8 * n,
        8 * i + 4,
        8 * i + 8,
    );
    assert(out.subrange(toff + 12 + 8 * (count + i), toff + 16 + 8 * (count + i)) == u32le(
        w32(base0 + entries_size(ms, names, i)),
    ));
    assert(out.subrange(toff + 16 + 8 * (count + i), toff + 20 + 8 * (count + i)) == u32le(
        w32(esz),
    ));
    assert(w32(base0 + entries_size(ms, names, i)) == base0 + entries_size(ms, names, i));
    assert(w32(esz) == esz);
    // the entry region
    out.lemma_slice_of_slice(
        toff + 8 * n + 8 + lo + ls,
        toff + 8 * n + 8 + lo + ls + entries_size(ms, names, n),
        entries_size(ms, names, i),
        entries_size(ms, names, i + 1),
    );
    let eb = entry_bytes(pre, meta, names[i]);
    assert(out.subrange(start, start + esz) == eb);
    // the name-length byte and the name inside the entry
    assert(eb[12] == (names[i].len() + 1) as u8);
    assert(out[start + 12] == out.subrange(start, start + esz)[12]);
    out.lemma_slice_of_slice(start, start + esz, 13, 13 + names[i].len() as int);
    assert(eb.subrange(13, 13 + names[i].len() as int) =~= names[i]);
}

/// Every appended entry is placed exactly where its new directory pair
/// points, opening with the cloned header, the name-length byte and the
/// name.
pub proof fn lemma_patch_new_entries(b: Seq<u8>, pat: Seq<u8>, names: Seq<Seq<u8>>)
    requires
        patchable(b, pat),
        last_off(b) + last_size(b) + growth_of(b, pat, names) < 0x1_0000_0000,
    ensures
        forall|i: int|
            0 <= i < names.len() ==> #[trigger] new_entry_placed(b, pat, names, i),
{
    assert forall|i: int|
        0 <= i < names.len() implies #[trigger] new_entry_placed(b, pat, names, i) by {
        lemma_patch_new_entry_at(b, pat, names, i);
    }
}

// --- the patcher ------------------------------------------------------------

/// Appends one tone entry per name in `new_entries` to the container in
/// `data`, cloning the header and metadata block of the template entry whose
/// name is `source_name`, and returns the re-serialised buffer.
///
/// Every structural defect of the input aborts the call with the error of
/// the first failed check, in the order the checks run; a successful result
/// is exactly the byte sequence that [`patched`] describes.
pub fn append_entries_to_nus3bank(
    data: &[u8],
    source_name: &str,
    new_entries: &Vec<String>,
) -> (r: Result<Vec<u8>, PatchError>)
    requires
        names_short(new_entries@),
        patchable(data@, source_name.spec_bytes()) ==> data@.len() + growth_of(
            data@,
            source_name.spec_bytes(),
            entry_names(new_entries@),
        ) <= usize::MAX,
    ensures
        ({
            let b = data@;
            let pat = source_name.spec_bytes();
            let names = entry_names(new_entries@);
            let s1 = anchor_ok(b, pat);
            let s2 = s1 && header_ok(b);
            let s3 = s2 && banktoc_ok(b);
            let s4 = s3 && tone_found(b);
            let s5 = s4 && tone_header_ok(b);
            let s6 = s5 && tone_size_ok(b);
            let s7 = s6 && meta_ok(b, pat);
            &&& (r == Err::<Vec<u8>, PatchError>(PatchError::AnchorNotFound) <==> !s1)
            &&& (r == Err::<Vec<u8>, PatchError>(PatchError::BadMagic) <==> s1 && !header_ok(b))
            &&& (r == Err::<Vec<u8>, PatchError>(PatchError::BadToc) <==> s2 && !banktoc_ok(b))
            &&& (r == Err::<Vec<u8>, PatchError>(PatchError::ToneChunkNotFound) <==> s3
                && !tone_found(b))
            &&& (r == Err::<Vec<u8>, PatchError>(PatchError::BadToneMagic) <==> s4
                && !tone_header_ok(b))
            &&& (r == Err::<Vec<u8>, PatchError>(PatchError::ToneSizeMismatch) <==> (s5
                && !tone_size_ok(b)) || (s7 && !tone_extent_ok(b)))
            &&& (r == Err::<Vec<u8>, PatchError>(PatchError::MalformedMetaBlock) <==> s6 && !meta_ok(
                b,
                pat,
            ))
            &&& (r is Ok <==> patchable(b, pat))
            &&& (r matches Ok(out) ==> out@ == patched(b, pat, names))
            &&& (r matches Ok(out) ==> new_entries@.len() == 0 ==> out@ == b)
        }),
{
    let ghost b = data@;
    let ghost patg = source_name.spec_bytes();
    let ghost names = entry_names(new_entries@);
    let n_data = data.len();
    let pat = source_name.as_bytes();

    // 1. the anchor: the template entry's name
    let anchor = match find_first(data, pat) {
        Some(a) => a,
        None => {
            return Err(PatchError::AnchorNotFound);
        },
    };
    proof {
        crate::scan::lemma_first_match_from(b, patg, 0);
    }

    // 2. the container header
    if !check_nus3(data) {
        return Err(PatchError::BadMagic);
    }
    let size0 = read_u32(data, 4);

    // 3. the table-of-contents header
    if !check_banktoc(data) {
        return Err(PatchError::BadToc);
    }

    // 4. the content directory, scanned for the tone chunk
    let tone = match find_tone_chunk(data) {
        Some(t) => t,
        None => {
            return Err(PatchError::ToneChunkNotFound);
        },
    };
    let (toff128, tsize, thead) = tone;
    proof {
        lemma_find_tone_rec_bounds(b, le32_at(b, 20) as nat, 20 + le32_at(b, 16) as int, 24);
    }

    // 5. the tone chunk header
    if toff128 + 12 > n_data as u128 {
        return Err(PatchError::BadToneMagic);
    }
    let toff = toff128 as usize;
    if toff < thead {
        return Err(PatchError::BadToneMagic);
    }
    if !check_tone_magic(data, toff) {
        return Err(PatchError::BadToneMagic);
    }

    // 6. the declared sizes must agree
    let tsize_chk = read_u32(data, toff + 4);
    if tsize_chk != tsize {
        return Err(PatchError::ToneSizeMismatch);
    }
    let tcount = read_u32(data, toff + 8);

    // 7. the template entry's metadata block
    if anchor < 13 {
        return Err(PatchError::MalformedMetaBlock);
    }
    let (moff, msize) = match get_sub_meta_offset_and_size(data, anchor) {
        Some(m) => m,
        None => {
            return Err(PatchError::MalformedMetaBlock);
        },
    };
    proof {
        lemma_meta_scan_bounds(b, anchor as int);
    }

    // 8. the tone directory and payload extents
    if tcount == 0 {
        return Err(PatchError::ToneSizeMismatch);
    }
    if (toff as u128) + 12 + 8 * (tcount as u128) > n_data as u128 {
        return Err(PatchError::ToneSizeMismatch);
    }
    let tc = tcount as usize;
    assert(toff + 12 + 8 * (tc as int) <= n_data);
    let lo = read_u32(data, toff + 12 + 8 * (tc - 1));
    let ls = read_u32(data, toff + 16 + 8 * (tc - 1));
    if 12 + 8 * (tcount as u128) > 8 + lo as u128 + ls as u128 {
        return Err(PatchError::ToneSizeMismatch);
    }
    if (toff as u128) + 8 + lo as u128 + ls as u128 > n_data as u128 {
        return Err(PatchError::ToneSizeMismatch);
    }
    let payload_end = toff + 8 + lo as usize + ls as usize;
    proof {
        assert(patchable(b, patg));
    }

    // 9. the size of what is appended
    let ghost g = growth_of(b, patg, names);
    let n_e = new_entries.len();
    proof {
        lemma_entries_size_nonneg(msize as int, names, n_e as int);
    }
    let new_total = total_new_size(msize, new_entries);
    let grow128: u128 = new_total as u128 + 8 * (n_e as u128);
    assert(grow128 as int == g);

    // 10. re-serialise
    let mut out: Vec<u8> = Vec::new();
    out.push(0x4e);
    out.push(0x55);
    out.push(0x53);
    out.push(0x33);
    proof {
        assert(out@ =~= nus3_magic());
    }
    let v_size0 = ((size0 as u128 + grow128) % 0x1_0000_0000) as u32;
    assert(v_size0 == w32(le32_at(b, 4) + g));
    push_u32(&mut out, v_size0);
    append_range(&mut out, data, 8, thead);
    let v_ts = ((tsize as u128 + grow128) % 0x1_0000_0000) as u32;
    assert(v_ts == w32(tone_dir_size(b) + g));
    push_u32(&mut out, v_ts);
    append_range(&mut out, data, thead + 4, toff + 4);
    push_u32(&mut out, v_ts);
    let v_count = ((tcount as u128 + n_e as u128) % 0x1_0000_0000) as u32;
    assert(v_count == w32(tone_count_of(b) + n_e as int));
    push_u32(&mut out, v_count);
    let shift: u128 = 8 * (n_e as u128);
    assert(shift <= 0x1_0000_0000_0000_0000u128);
    emit_dir_shift(&mut out, data, toff, tc, shift);
    let base: u128 = lo as u128 + ls as u128 + shift;
    emit_new_dir(&mut out, base, msize, new_entries);
    append_range(&mut out, data, toff + 12 + 8 * tc, payload_end);
    emit_new_entries(&mut out, data, anchor, moff, msize, new_entries);
    append_range(&mut out, data, payload_end, n_data);
    proof {
        assert(out@ == patched(b, patg, names));
        if new_entries@.len() == 0 {
            assert(names =~= Seq::<Seq<u8>>::empty());
            lemma_patch_empty_is_identity(b, patg);
        }
    }
    Ok(out)
}

} // verus!
