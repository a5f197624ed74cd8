use pcktool::pck::{luts_in_bounds, LanguageMap, PckFile, PckWriter, StringMap, WriteEntry};
use pcktool::Error;

fn sample_writer() -> PckWriter {
    let mut w = PckWriter::new();
    w.languages.insert(0, "sfx".to_string());
    w.languages.insert(1, "english(us)".to_string());
    w.languages.insert(7, "german".to_string());
    w.sound_banks.push(WriteEntry { id: 0x1111, block_size: 16, language_id: 0, data: vec![1, 2, 3, 4, 5] });
    w.sound_banks.push(WriteEntry { id: 0x2222, block_size: 1, language_id: 1, data: vec![9; 33] });
    w.streaming_files.push(WriteEntry { id: 0xAAAA, block_size: 2048, language_id: 7, data: vec![7; 100] });
    w.streaming_files.push(WriteEntry { id: 0xBBBB, block_size: 16, language_id: 0, data: vec![] });
    w.external_files.push(WriteEntry { id: 0x1234_5678_9ABC_DEF0, block_size: 4, language_id: 0, data: vec![42, 43, 44] });
    w
}

#[test]
fn round_trip_built_pck() {
    let w = sample_writer();
    let bytes = w.to_bytes();
    assert!(luts_in_bounds(&bytes));
    let f = PckFile::parse(&bytes).expect("parse");
    assert_eq!(f.languages.len(), 3);
    assert_eq!(f.languages.get(0).unwrap(), "sfx");
    assert_eq!(f.languages.get(1).unwrap(), "english(us)");
    assert_eq!(f.languages.get(7).unwrap(), "german");
    assert_eq!(f.sound_banks.len(), 2);
    for (e, x) in f.sound_banks.iter().zip(w.sound_banks.iter()) {
        assert_eq!(e.id, x.id);
        assert_eq!(e.block_size, x.block_size);
        assert_eq!(e.language_id, x.language_id);
        assert_eq!(e.data, &x.data[..]);
    }
    assert_eq!(f.streaming_files.len(), 2);
    for (e, x) in f.streaming_files.iter().zip(w.streaming_files.iter()) {
        assert_eq!(e.id, x.id);
        assert_eq!(e.block_size, x.block_size);
        assert_eq!(e.language_id, x.language_id);
        assert_eq!(e.data, &x.data[..]);
    }
    assert_eq!(f.external_files.len(), 1);
    assert_eq!(f.external_files[0].id, 0x1234_5678_9ABC_DEF0);
    assert_eq!(f.external_files[0].data, &[42u8, 43, 44][..]);
}

#[test]
fn written_layout_is_block_aligned() {
    let w = sample_writer();
    let bytes = w.to_bytes();
    let f = PckFile::parse(&bytes).unwrap();
    // A 2048-byte block size puts the data at a multiple of 2048.
    let stm = &f.streaming_files[0];
    assert_eq!((stm.start_block as usize * 2048) % 2048, 0);
    assert!(stm.start_block >= 1);
    // A block size of 1 records the byte offset itself.
    let b = &f.sound_banks[1];
    assert_eq!(b.start_block as usize + b.data.len() <= bytes.len(), true);
    // The header holds the tag and version.
    assert_eq!(&bytes[0..4], b"AKPK");
    assert_eq!(u32::from_le_bytes([bytes[8], bytes[9], bytes[10], bytes[11]]), 1);
}

#[test]
fn empty_writer_round_trips() {
    let w = PckWriter::new();
    let bytes = w.to_bytes();
    // Tag, header, an empty language map, three empty LUTs.
    assert_eq!(bytes.len(), 28 + 4 + 4 + 4 + 4);
    let f = PckFile::parse(&bytes).unwrap();
    assert_eq!(f.languages.len(), 0);
    assert_eq!(f.sound_banks.len(), 0);
    assert_eq!(f.streaming_files.len(), 0);
    assert_eq!(f.external_files.len(), 0);
}

#[test]
fn language_names() {
    let bytes = sample_writer().to_bytes();
    let f = PckFile::parse(&bytes).unwrap();
    assert_eq!(f.language_name(0), "SFX");
    assert_eq!(f.language_name(1), "english(us)");
    assert_eq!(f.language_name(99), "Unknown");
}

#[test]
fn find_wem_prefers_streaming_files() {
    let bytes = sample_writer().to_bytes();
    let f = PckFile::parse(&bytes).unwrap();
    assert_eq!(f.find_wem(0xAAAA).unwrap().len(), 100);
    assert!(f.find_wem(0xCCCC).is_none());
}

#[test]
fn find_wem_looks_into_banks() {
    // A bank with one embedded media of ID 77.
    let mut bank = Vec::new();
    bank.extend_from_slice(b"DIDX");
    bank.extend_from_slice(&12u32.to_le_bytes());
    bank.extend_from_slice(&77u32.to_le_bytes());
    bank.extend_from_slice(&0u32.to_le_bytes());
    bank.extend_from_slice(&3u32.to_le_bytes());
    bank.extend_from_slice(b"DATA");
    bank.extend_from_slice(&3u32.to_le_bytes());
    bank.extend_from_slice(&[5, 6, 7]);
    let mut w = PckWriter::new();
    w.sound_banks.push(WriteEntry { id: 1, block_size: 1, language_id: 0, data: bank });
    let bytes = w.to_bytes();
    let f = PckFile::parse(&bytes).unwrap();
    assert_eq!(f.find_wem(77).unwrap(), &[5u8, 6, 7][..]);
    assert!(f.find_wem(78).is_none());
}

#[test]
fn parse_rejects_short_data() {
    match PckFile::parse(&[0x41, 0x4B]) {
        Err(Error::UnexpectedEof { offset, needed, available }) => {
            assert_eq!((offset, needed, available), (0, 4, 2));
        }
        other => panic!("unexpected {:?}", other.map(|_| ())),
    }
}

#[test]
fn parse_rejects_bad_magic() {
    let mut bytes = sample_writer().to_bytes();
    bytes[0] = b'X';
    match PckFile::parse(&bytes) {
        Err(Error::InvalidMagic { expected, actual }) => {
            assert_eq!(expected, 0x4B50_4B41);
            assert_eq!(actual, u32::from_le_bytes([b'X', b'K', b'P', b'K']));
        }
        other => panic!("unexpected {:?}", other.map(|_| ())),
    }
}

#[test]
fn parse_rejects_short_header() {
    let bytes = b"AKPK\x00\x00\x00\x00";
    match PckFile::parse(bytes) {
        Err(Error::UnexpectedEof { offset, needed, available }) => {
            assert_eq!((offset, needed, available), (4, 24, 4));
        }
        other => panic!("unexpected {:?}", other.map(|_| ())),
    }
}

#[test]
fn parse_rejects_other_versions() {
    let mut bytes = sample_writer().to_bytes();
    bytes[8] = 2;
    match PckFile::parse(&bytes) {
        Err(Error::UnsupportedVersion(v)) => assert_eq!(v, 2),
        other => panic!("unexpected {:?}", other.map(|_| ())),
    }
}

#[test]
fn parse_rejects_language_map_past_end() {
    let mut bytes = PckWriter::new().to_bytes();
    bytes[12..16].copy_from_slice(&1000u32.to_le_bytes());
    match PckFile::parse(&bytes) {
        Err(Error::UnexpectedEof { offset, needed, available }) => {
            assert_eq!((offset, needed, available), (28, 1000, bytes.len() as u64 - 28));
        }
        other => panic!("unexpected {:?}", other.map(|_| ())),
    }
}

#[test]
fn parse_rejects_entry_past_end() {
    let mut w = PckWriter::new();
    w.sound_banks.push(WriteEntry { id: 5, block_size: 1, language_id: 0, data: vec![1, 2, 3] });
    let mut bytes = w.to_bytes();
    let n = bytes.len();
    bytes.truncate(n - 1);
    match PckFile::parse(&bytes) {
        Err(Error::InvalidEntry { index, .. }) => assert_eq!(index, 0),
        other => panic!("unexpected {:?}", other.map(|_| ())),
    }
}

#[test]
fn parse_rejects_negative_size() {
    let mut w = PckWriter::new();
    w.streaming_files.push(WriteEntry { id: 5, block_size: 1, language_id: 0, data: vec![1] });
    w.streaming_files.push(WriteEntry { id: 6, block_size: 1, language_id: 0, data: vec![2] });
    let mut bytes = w.to_bytes();
    // The second streaming record's size field: after the header, the empty
    // language map (4), the empty bank LUT (4), the count (4) and one record (20).
    let at = 28 + 4 + 4 + 4 + 20 + 8;
    bytes[at..at + 4].copy_from_slice(&(-1i32).to_le_bytes());
    match PckFile::parse(&bytes) {
        Err(Error::InvalidEntry { index, .. }) => assert_eq!(index, 1),
        other => panic!("unexpected {:?}", other.map(|_| ())),
    }
}

#[test]
fn lut_past_end_is_detected() {
    let mut bytes = PckWriter::new().to_bytes();
    bytes[16..20].copy_from_slice(&4000u32.to_le_bytes());
    assert!(!luts_in_bounds(&bytes));
    assert!(luts_in_bounds(&sample_writer().to_bytes()));
}

#[test]
fn string_map_bytes_are_exact() {
    let mut m = StringMap { entries: LanguageMap::new() };
    m.entries.insert(1, "ab".to_string());
    let bytes = m.write();
    assert_eq!(
        bytes,
        vec![1, 0, 0, 0, 12, 0, 0, 0, 1, 0, 0, 0, b'a', 0, b'b', 0, 0, 0, 0, 0]
    );
    let back = StringMap::parse(&bytes).unwrap();
    assert_eq!(back.entries.len(), 1);
    assert_eq!(back.entries.get(1).unwrap(), "ab");
}

#[test]
fn string_map_sorts_by_id() {
    let mut m = StringMap { entries: LanguageMap::new() };
    m.entries.insert(9, "z".to_string());
    m.entries.insert(2, "y".to_string());
    let bytes = m.write();
    // The first pair is ID 2, the second ID 9.
    assert_eq!(u32::from_le_bytes([bytes[8], bytes[9], bytes[10], bytes[11]]), 2);
    assert_eq!(u32::from_le_bytes([bytes[16], bytes[17], bytes[18], bytes[19]]), 9);
}

#[test]
fn string_map_empty_and_short() {
    let m = StringMap { entries: LanguageMap::new() };
    assert_eq!(m.write(), vec![0, 0, 0, 0]);
    assert_eq!(StringMap::parse(&[1, 2]).unwrap().entries.len(), 0);
    // A pair whose offset lies outside the data is skipped.
    let bytes = [1, 0, 0, 0, 200, 0, 0, 0, 3, 0, 0, 0];
    assert_eq!(StringMap::parse(&bytes).unwrap().entries.len(), 0);
}

#[test]
fn string_map_decodes_utf16_lossily() {
    // One pair pointing at a lone high surrogate, then a NUL.
    let bytes = [1, 0, 0, 0, 12, 0, 0, 0, 4, 0, 0, 0, 0x00, 0xD8, 0, 0];
    let m = StringMap::parse(&bytes).unwrap();
    assert_eq!(m.entries.get(4).unwrap(), "\u{FFFD}");
}

fn be(v: u32) -> [u8; 4] {
    v.to_be_bytes()
}

fn big_endian_package() -> Vec<u8> {
    let mut lang = Vec::new();
    lang.extend_from_slice(&be(1));
    lang.extend_from_slice(&be(12));
    lang.extend_from_slice(&be(0));
    for c in "sfx".encode_utf16() {
        lang.extend_from_slice(&c.to_be_bytes());
    }
    lang.extend_from_slice(&[0, 0]);
    let lut = |id: u32, size: u32, start: u32| {
        let mut v = Vec::new();
        v.extend_from_slice(&be(1));
        for x in [id, 1, size, start, 0, 0] {
            v.extend_from_slice(&be(x));
        }
        v
    };
    let banks = lut(0x1111, 3, 100);
    let stm = lut(0xAAAA, 2, 103);
    let mut out = b"AKPK".to_vec();
    for x in [20u32, 1, lang.len() as u32, banks.len() as u32, stm.len() as u32] {
        out.extend_from_slice(&be(x));
    }
    out.extend_from_slice(&lang);
    out.extend_from_slice(&banks);
    out.extend_from_slice(&stm);
    assert_eq!(out.len(), 100);
    out.extend_from_slice(&[1, 2, 3, 9, 9]);
    out
}

#[test]
fn big_endian_package_is_detected() {
    let bytes = big_endian_package();
    assert!(luts_in_bounds(&bytes));
    let f = PckFile::parse(&bytes).expect("parse");
    assert_eq!(f.languages.len(), 1);
    assert_eq!(f.languages.get(0).unwrap(), "sfx");
    assert_eq!(f.sound_banks.len(), 1);
    assert_eq!(f.sound_banks[0].id, 0x1111);
    assert_eq!(f.sound_banks[0].start_block, 100);
    assert_eq!(f.sound_banks[0].data, &[1u8, 2, 3][..]);
    assert_eq!(f.streaming_files.len(), 1);
    assert_eq!(f.streaming_files[0].id, 0xAAAA);
    assert_eq!(f.streaming_files[0].data, &[9u8, 9][..]);
    assert_eq!(f.external_files.len(), 0);
}

#[test]
fn big_endian_short_header_is_an_eof_error() {
    let mut bytes = b"AKPK".to_vec();
    bytes.extend_from_slice(&be(20));
    bytes.extend_from_slice(&be(1));
    bytes.extend_from_slice(&[0; 8]);
    match PckFile::parse(&bytes) {
        Err(Error::UnexpectedEof { offset, needed, available }) => {
            assert_eq!((offset, needed, available), (4, 20, 16));
        }
        other => panic!("unexpected {:?}", other.map(|_| ())),
    };
}

#[test]
fn big_endian_entry_past_end_is_rejected() {
    let mut bytes = big_endian_package();
    bytes.truncate(102);
    match PckFile::parse(&bytes) {
        Err(Error::InvalidEntry { index, .. }) => assert_eq!(index, 0),
        other => panic!("unexpected {:?}", other.map(|_| ())),
    };
}

#[test]
fn sample_writer_fits() {
    assert!(sample_writer().fits());
    assert!(PckWriter::new().fits());
}

#[test]
fn small_string_map_fits() {
    let mut m = StringMap { entries: LanguageMap::new() };
    assert!(m.fits());
    m.entries.insert(1, "english(us)".to_string());
    assert!(m.fits());
}
