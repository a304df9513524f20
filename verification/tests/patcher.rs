//! Tests of the container patcher on a minimal synthetic bank.

use csk_collection::nus3bank::{append_entries_to_nus3bank, PatchError};
use csk_collection::{get_sub_meta_offset_and_size, read_u32};

/// A minimal container: one content chunk, a TONE table with one entry
/// named "se_test" whose metadata block is the sentinel word followed by
/// four (zero, 0xFFFF_FFFF) word pairs.
fn minimal_container() -> Vec<u8> {
    let mut b: Vec<u8> = Vec::new();
    b.extend_from_slice(b"NUS3");
    b.extend_from_slice(&104u32.to_le_bytes()); // total-size field
    b.extend_from_slice(b"BANKTOC ");
    b.extend_from_slice(&12u32.to_le_bytes()); // toc size: count + one pair
    b.extend_from_slice(&1u32.to_le_bytes()); // content count
    b.extend_from_slice(&1162760020u32.to_le_bytes()); // the "TONE" tag
    b.extend_from_slice(&72u32.to_le_bytes()); // tone size, directory copy
    b.extend_from_slice(b"TONE"); // chunk at 32
    b.extend_from_slice(&72u32.to_le_bytes()); // tone size, chunk copy
    b.extend_from_slice(&1u32.to_le_bytes()); // tone count
    b.extend_from_slice(&12u32.to_le_bytes()); // entry 0 offset
    b.extend_from_slice(&60u32.to_le_bytes()); // entry 0 size
    b.extend_from_slice(&[1, 2, 3, 4, 5, 6, 7, 8, 9, 10, 11, 12]); // entry header at 52
    b.push(8); // length byte: "se_test" and its terminator
    b.extend_from_slice(b"se_test"); // name at 65
    b.extend_from_slice(&[0, 0, 0, 0]); // padding to 76
    b.extend_from_slice(&0x22E8u32.to_le_bytes()); // sentinel at 76
    for _ in 0..4 {
        b.extend_from_slice(&0u32.to_le_bytes());
        b.extend_from_slice(&0xFFFF_FFFFu32.to_le_bytes());
    } // metadata block at 80..112
    assert_eq!(b.len(), 112);
    b
}

fn u32_at(b: &[u8], pos: usize) -> u32 {
    u32::from_le_bytes([b[pos], b[pos + 1], b[pos + 2], b[pos + 3]])
}

#[test]
fn append_single_entry_scenario() {
    let data = minimal_container();
    let new_entries = vec!["se_test_2".to_string()];
    let out = append_entries_to_nus3bank(&data, "se_test", &new_entries).unwrap();

    // one new directory pair (8) plus one entry of 72 bytes
    assert_eq!(out.len(), 112 + 80);
    assert_eq!(&out[0..4], b"NUS3");
    assert_eq!(u32_at(&out, 4), 104 + 80);
    assert_eq!(&out[8..28], &data[8..28]);
    assert_eq!(u32_at(&out, 28), 152); // directory tone size
    assert_eq!(&out[32..36], b"TONE");
    assert_eq!(u32_at(&out, 36), 152); // chunk tone size
    assert_eq!(u32_at(&out, 40), 2); // tone count grew by one
    assert_eq!(u32_at(&out, 44), 20); // old offset moved past the new pair
    assert_eq!(u32_at(&out, 48), 60); // old size kept
    assert_eq!(u32_at(&out, 52), 80); // the new entry's offset
    assert_eq!(u32_at(&out, 56), 72); // the new entry's size
    assert_eq!(&out[60..120], &data[52..112]); // old payload unchanged
    // the new entry at 120: cloned header, length byte, name, padding,
    // the four fixed words, and the cloned metadata block
    assert_eq!(&out[120..132], &data[52..64]);
    assert_eq!(out[132], 10);
    assert_eq!(&out[133..142], b"se_test_2");
    assert_eq!(&out[142..144], &[0, 0]);
    assert_eq!(u32_at(&out, 144), 0);
    assert_eq!(u32_at(&out, 148), 8);
    assert_eq!(u32_at(&out, 152), 0);
    assert_eq!(u32_at(&out, 156), 0x22E8);
    assert_eq!(&out[160..192], &data[80..112]);
}

#[test]
fn empty_entries_round_trip_identity() {
    let data = minimal_container();
    let out = append_entries_to_nus3bank(&data, "se_test", &Vec::new()).unwrap();
    assert_eq!(out, data);
}

#[test]
fn count_invariant_two_entries() {
    let data = minimal_container();
    let new_entries = vec!["se_a".to_string(), "se_bb".to_string()];
    let out = append_entries_to_nus3bank(&data, "se_test", &new_entries).unwrap();
    assert_eq!(u32_at(&data, 40), 1);
    assert_eq!(u32_at(&out, 40), 1 + 2);
}

#[test]
fn offset_consistency_of_output() {
    let data = minimal_container();
    let new_entries = vec!["se_a".to_string(), "se_bb".to_string()];
    let out = append_entries_to_nus3bank(&data, "se_test", &new_entries).unwrap();
    let count = u32_at(&out, 40) as usize;
    let names: [&[u8]; 3] = [b"se_test", b"se_a", b"se_bb"];
    for j in 0..count {
        let off = u32_at(&out, 32 + 12 + 8 * j) as usize;
        let region = 32 + 8 + off;
        // each directory pair points at a region whose twelve-byte header
        // is followed by the name-length byte and the name itself
        assert_eq!(out[region + 12] as usize, names[j].len() + 1);
        assert_eq!(&out[region + 13..region + 13 + names[j].len()], names[j]);
    }
}

#[test]
fn size_field_consistency_of_output() {
    let data = minimal_container();
    let new_entries = vec!["se_xyz".to_string()];
    let out = append_entries_to_nus3bank(&data, "se_test", &new_entries).unwrap();
    let dir_size = u32_at(&out, 28);
    let chunk_size = u32_at(&out, 36);
    assert_eq!(dir_size, chunk_size);
    // the declared size spans from just after the chunk size field to the
    // end of the last entry's payload
    let count = u32_at(&out, 40) as usize;
    let last_off = u32_at(&out, 32 + 12 + 8 * (count - 1)) as usize;
    let last_size = u32_at(&out, 32 + 16 + 8 * (count - 1)) as usize;
    assert_eq!(32 + 8 + dir_size as usize, 32 + 8 + last_off + last_size);
    assert_eq!(out.len(), 32 + 8 + last_off + last_size); // nothing after the tone region here
}

#[test]
fn corrupt_nus3_magic_is_rejected() {
    let mut data = minimal_container();
    data[0] = b'X';
    let r = append_entries_to_nus3bank(&data, "se_test", &vec!["se_a".to_string()]);
    assert_eq!(r.unwrap_err(), PatchError::BadMagic);
}

#[test]
fn corrupt_banktoc_magic_is_rejected() {
    let mut data = minimal_container();
    data[10] = b'x';
    let r = append_entries_to_nus3bank(&data, "se_test", &vec!["se_a".to_string()]);
    assert_eq!(r.unwrap_err(), PatchError::BadToc);
}

#[test]
fn corrupt_tone_size_is_rejected() {
    let mut data = minimal_container();
    let wrong = 73u32.to_le_bytes();
    data[36..40].copy_from_slice(&wrong); // chunk copy disagrees with directory copy
    let r = append_entries_to_nus3bank(&data, "se_test", &vec!["se_a".to_string()]);
    assert_eq!(r.unwrap_err(), PatchError::ToneSizeMismatch);
}

#[test]
fn corrupt_tone_magic_is_rejected() {
    let mut data = minimal_container();
    data[33] = b'x';
    let r = append_entries_to_nus3bank(&data, "se_test", &vec!["se_a".to_string()]);
    assert_eq!(r.unwrap_err(), PatchError::BadToneMagic);
}

#[test]
fn missing_tone_chunk_is_rejected() {
    let mut data = minimal_container();
    let other = 1u32.to_le_bytes();
    data[24..28].copy_from_slice(&other); // directory tag no longer TONE
    let r = append_entries_to_nus3bank(&data, "se_test", &vec!["se_a".to_string()]);
    assert_eq!(r.unwrap_err(), PatchError::ToneChunkNotFound);
}

#[test]
fn missing_sentinel_is_rejected() {
    let mut data = minimal_container();
    let other = 0x1234u32.to_le_bytes();
    data[76..80].copy_from_slice(&other); // no metadata sentinel anywhere
    let r = append_entries_to_nus3bank(&data, "se_test", &vec!["se_a".to_string()]);
    assert_eq!(r.unwrap_err(), PatchError::MalformedMetaBlock);
}

#[test]
fn anchor_not_found_is_rejected() {
    let data = minimal_container();
    let r = append_entries_to_nus3bank(&data, "se_absent", &vec!["se_a".to_string()]);
    assert_eq!(r.unwrap_err(), PatchError::AnchorNotFound);
}

#[test]
fn anchor_not_found_on_empty_buffer() {
    let data: Vec<u8> = Vec::new();
    let r = append_entries_to_nus3bank(&data, "se_test", &vec!["se_a".to_string()]);
    assert_eq!(r.unwrap_err(), PatchError::AnchorNotFound);
}

#[test]
fn read_u32_reads_little_endian() {
    let data = vec![0x78, 0x56, 0x34, 0x12, 0xEF, 0xBE, 0xAD, 0xDE];
    assert_eq!(read_u32(&data, 0), 0x1234_5678);
    assert_eq!(read_u32(&data, 4), 0xDEAD_BEEF);
}

#[test]
fn sub_meta_block_is_located() {
    let data = minimal_container();
    // scanning from the template name finds the block after the sentinel
    assert_eq!(get_sub_meta_offset_and_size(&data, 65), Some((80, 32)));
}

#[test]
fn sub_meta_block_absent() {
    let data = vec![0u8; 16]; // zeros hold no sentinel
    assert_eq!(get_sub_meta_offset_and_size(&data, 0), None);
}

#[test]
fn error_messages_name_the_check() {
    assert_eq!(
        PatchError::AnchorNotFound.message(),
        "the template entry's name does not occur in the container"
    );
    assert_eq!(
        PatchError::BadMagic.message(),
        "the container does not start with the NUS3 magic"
    );
    assert_eq!(PatchError::BadToc.message(), "the BANKTOC header is missing or truncated");
    assert_eq!(PatchError::ToneChunkNotFound.message(), "no content chunk carries the TONE tag");
    assert_eq!(
        PatchError::BadToneMagic.message(),
        "the TONE chunk is out of bounds or lacks its magic"
    );
    assert_eq!(
        PatchError::ToneSizeMismatch.message(),
        "the TONE chunk's sizes, count and extents disagree"
    );
    assert_eq!(
        PatchError::MalformedMetaBlock.message(),
        "the template entry's metadata block was not found"
    );
}

/// A container whose TONE chunk comes after another content chunk and is
/// followed by trailing data.
fn two_chunk_container() -> Vec<u8> {
    let mut b: Vec<u8> = Vec::new();
    b.extend_from_slice(b"NUS3");
    b.extend_from_slice(&136u32.to_le_bytes());
    b.extend_from_slice(b"BANKTOC ");
    b.extend_from_slice(&20u32.to_le_bytes()); // toc size: count + two pairs
    b.extend_from_slice(&2u32.to_le_bytes()); // content count
    b.extend_from_slice(b"PROP"); // first chunk's tag
    b.extend_from_slice(&8u32.to_le_bytes()); // first chunk's size
    b.extend_from_slice(&1162760020u32.to_le_bytes()); // the "TONE" tag
    b.extend_from_slice(&72u32.to_le_bytes()); // tone size, directory copy
    b.extend_from_slice(b"PROP"); // first chunk at 40
    b.extend_from_slice(&8u32.to_le_bytes());
    b.extend_from_slice(&[0xAA; 8]); // its payload
    b.extend_from_slice(b"TONE"); // tone chunk at 56
    b.extend_from_slice(&72u32.to_le_bytes()); // tone size, chunk copy
    b.extend_from_slice(&1u32.to_le_bytes()); // tone count
    b.extend_from_slice(&12u32.to_le_bytes()); // entry 0 offset
    b.extend_from_slice(&60u32.to_le_bytes()); // entry 0 size
    b.extend_from_slice(&[1, 2, 3, 4, 5, 6, 7, 8, 9, 10, 11, 12]); // entry header at 76
    b.push(8);
    b.extend_from_slice(b"se_test"); // name at 89
    b.extend_from_slice(&[0, 0, 0, 0]); // padding to 100
    b.extend_from_slice(&0x22E8u32.to_le_bytes()); // sentinel at 100
    for _ in 0..4 {
        b.extend_from_slice(&0u32.to_le_bytes());
        b.extend_from_slice(&0xFFFF_FFFFu32.to_le_bytes());
    } // metadata block at 104..136
    b.extend_from_slice(b"TAILTAIL"); // trailing data after the tone region
    assert_eq!(b.len(), 144);
    b
}

#[test]
fn tone_behind_another_chunk_with_trailing_data() {
    let data = two_chunk_container();
    let out = append_entries_to_nus3bank(&data, "se_test", &vec!["x".to_string()]).unwrap();
    // one directory pair (8) plus one entry of 32 + 28 + 1 + 1 + 2 = 64 bytes
    assert_eq!(out.len(), 144 + 72);
    assert_eq!(u32_at(&out, 4), 136 + 72);
    assert_eq!(u32_at(&out, 36), 144); // directory tone size
    assert_eq!(&out[40..56], &data[40..56]); // the other chunk is untouched
    assert_eq!(&out[56..60], b"TONE");
    assert_eq!(u32_at(&out, 60), 144); // chunk tone size
    assert_eq!(u32_at(&out, 64), 2);
    assert_eq!(u32_at(&out, 68), 20); // old pair, shifted offset
    assert_eq!(u32_at(&out, 72), 60);
    assert_eq!(u32_at(&out, 76), 80); // new pair
    assert_eq!(u32_at(&out, 80), 64);
    assert_eq!(&out[84..144], &data[76..136]); // old payload unchanged
    assert_eq!(&out[144..156], &data[76..88]); // cloned entry header
    assert_eq!(out[156], 2); // length byte for "x"
    assert_eq!(out[157], b'x');
    assert_eq!(&out[158..160], &[0, 0]); // padding to the word boundary
    assert_eq!(u32_at(&out, 160), 0);
    assert_eq!(u32_at(&out, 164), 8);
    assert_eq!(u32_at(&out, 168), 0);
    assert_eq!(u32_at(&out, 172), 0x22E8);
    assert_eq!(&out[176..208], &data[104..136]); // cloned metadata block
    assert_eq!(&out[208..216], b"TAILTAIL"); // trailing data survives
}
