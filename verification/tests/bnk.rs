use pcktool::bnk::tags;
use pcktool::bnk::{BankHeader, MediaIndex, SoundBank, SoundBankOwned};
use pcktool::Error;

fn le(v: u32) -> [u8; 4] {
    v.to_le_bytes()
}

fn chunk(out: &mut Vec<u8>, tag: u32, data: &[u8]) {
    out.extend_from_slice(&le(tag));
    out.extend_from_slice(&le(data.len() as u32));
    out.extend_from_slice(data);
}

fn header_bytes() -> Vec<u8> {
    let mut h = Vec::new();
    for v in [140u32, 0xABCD, 0, 0, 7] {
        h.extend_from_slice(&le(v));
    }
    h.extend_from_slice(&[0xEE, 0xEE, 0xEE, 0xEE]);
    h
}

fn sample_bank() -> Vec<u8> {
    let mut didx = Vec::new();
    for v in [10u32, 0, 3, 20, 4, 2] {
        didx.extend_from_slice(&le(v));
    }
    let mut hirc = Vec::new();
    hirc.extend_from_slice(&le(0));
    let mut out = Vec::new();
    chunk(&mut out, tags::BKHD, &header_bytes());
    chunk(&mut out, tags::DIDX, &didx);
    chunk(&mut out, tags::DATA, &[1, 2, 3, 0, 5, 6]);
    chunk(&mut out, tags::HIRC, &hirc);
    out
}

#[test]
fn parse_sample_bank() {
    let bytes = sample_bank();
    let bank = SoundBank::parse(&bytes).expect("parse");
    assert_eq!(bank.header.version, 140);
    assert_eq!(bank.header.id, 0xABCD);
    assert_eq!(bank.header.project_id, 7);
    assert_eq!(bank.header.padding, vec![0xEE; 4]);
    assert!(!bank.header.has_feedback());
    assert_eq!(bank.chunks.len(), 4);
    assert_eq!(bank.chunks[2].tag, tags::DATA);
    assert_eq!(bank.media.len(), 2);
    assert_eq!(bank.find_media(10), Some(&[1u8, 2, 3][..]));
    assert_eq!(bank.find_media(20), Some(&[5u8, 6][..]));
    assert_eq!(bank.find_media(30), None);
    assert_eq!(bank.hirc_data, Some(&[0u8, 0, 0, 0][..]));
}

#[test]
fn borrowed_bank_writes_back_its_bytes() {
    let bytes = sample_bank();
    let bank = SoundBank::parse(&bytes).unwrap();
    assert_eq!(bank.to_bytes(), bytes);
}

#[test]
fn trailing_bytes_shorter_than_a_chunk_header_are_dropped() {
    let mut bytes = sample_bank();
    let n = bytes.len();
    bytes.extend_from_slice(&[1, 2, 3, 4, 5]);
    let bank = SoundBank::parse(&bytes).unwrap();
    assert_eq!(bank.chunks.len(), 4);
    assert_eq!(bank.to_bytes(), bytes[..n].to_vec());
}

#[test]
fn media_past_the_data_chunk_is_skipped() {
    let mut didx = Vec::new();
    for v in [1u32, 0, 2, 2, 1, 9] {
        didx.extend_from_slice(&le(v));
    }
    let mut out = Vec::new();
    chunk(&mut out, tags::DIDX, &didx);
    chunk(&mut out, tags::DATA, &[4, 5, 6]);
    let bank = SoundBank::parse(&out).unwrap();
    assert_eq!(bank.find_media(1), Some(&[4u8, 5][..]));
    assert_eq!(bank.find_media(2), None);
    assert_eq!(bank.media.len(), 1);
}

#[test]
fn truncated_chunk_is_an_eof_error() {
    let mut out = Vec::new();
    out.extend_from_slice(&le(tags::HIRC));
    out.extend_from_slice(&le(100));
    out.extend_from_slice(&[0; 10]);
    match SoundBank::parse(&out) {
        Err(Error::UnexpectedEof { offset, needed, available }) => {
            assert_eq!(offset, 0);
            assert_eq!(needed, 108);
            assert_eq!(available, 18);
        }
        other => panic!("unexpected {:?}", other),
    };
}

#[test]
fn short_bank_header_is_an_invalid_chunk() {
    let mut out = Vec::new();
    chunk(&mut out, tags::BKHD, &[1, 2, 3]);
    match SoundBank::parse(&out) {
        Err(Error::InvalidChunk { tag, offset, .. }) => {
            assert_eq!(tag, "BKHD");
            assert_eq!(offset, 0);
        }
        other => panic!("unexpected {:?}", other),
    };
}

#[test]
fn empty_input_is_an_empty_bank() {
    let bank = SoundBank::parse(&[]).unwrap();
    assert_eq!(bank.chunks.len(), 0);
    assert_eq!(bank.media.len(), 0);
    assert!(bank.hirc_data.is_none());
    assert_eq!(bank.header.version, 0);
}

#[test]
fn bank_header_round_trip() {
    let h = BankHeader::parse(&header_bytes()).unwrap();
    assert_eq!(h.language_id, 0);
    assert_eq!(h.to_bytes(), header_bytes());
    let mut fb = header_bytes();
    fb[12] = 1;
    assert!(BankHeader::parse(&fb).unwrap().has_feedback());
    assert!(BankHeader::parse(&[0; 19]).is_err());
    let exact = BankHeader::parse(&[0; 20]).unwrap();
    assert!(exact.padding.is_empty());
}

#[test]
fn media_index_ignores_a_partial_entry() {
    let mut data = Vec::new();
    for v in [5u32, 6, 7, 8, 9, 10] {
        data.extend_from_slice(&le(v));
    }
    data.push(0xFF);
    let v = MediaIndex::parse_all(&data).unwrap();
    assert_eq!(v.len(), 2);
    assert_eq!((v[0].id, v[0].offset, v[0].size), (5, 6, 7));
    assert_eq!((v[1].id, v[1].offset, v[1].size), (8, 9, 10));
    assert_eq!(MediaIndex::parse_all(&data[..11]).unwrap().len(), 0);
}

#[test]
fn owned_bank_replaces_media_and_rebuilds_the_index() {
    let bytes = sample_bank();
    let bank = SoundBank::parse(&bytes).unwrap();
    let mut owned = SoundBankOwned::from_borrowed(&bank);
    assert_eq!(owned.media.len(), 2);
    assert!(owned.replace_media(20, vec![9, 9, 9]));
    assert!(!owned.replace_media(99, vec![1]));
    assert_eq!(owned.media.len(), 2);
    let out = owned.to_bytes();
    let again = SoundBank::parse(&out).unwrap();
    assert_eq!(again.find_media(10), Some(&[1u8, 2, 3][..]));
    assert_eq!(again.find_media(20), Some(&[9u8, 9, 9][..]));
    assert_eq!(again.find_media(99), None);
    assert_eq!(again.header.id, 0xABCD);
    assert_eq!(again.header.padding, vec![0xEE; 4]);
    assert_eq!(again.chunks.len(), 4);
    // The DATA chunk now holds the media back to back, by increasing ID.
    assert_eq!(again.chunks[2].data, &[1u8, 2, 3, 9, 9, 9][..]);
}

#[test]
fn owned_bank_without_changes_keeps_its_media() {
    let bytes = sample_bank();
    let bank = SoundBank::parse(&bytes).unwrap();
    let owned = SoundBankOwned::from_borrowed(&bank);
    let again_bytes = owned.to_bytes();
    let again = SoundBank::parse(&again_bytes).unwrap();
    assert_eq!(again.find_media(10), bank.find_media(10));
    assert_eq!(again.find_media(20), bank.find_media(20));
    assert_eq!(again.hirc_data, bank.hirc_data);
}
