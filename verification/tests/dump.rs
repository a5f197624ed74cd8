use pcktool::bnk::tags;
use pcktool::bnk::SoundBank;
use pcktool::dump::{bank_media_plan, dump_plan, DumpDir};
use pcktool::pck::{PckFile, PckWriter, WriteEntry};

fn le(v: u32) -> [u8; 4] {
    v.to_le_bytes()
}

fn chunk(out: &mut Vec<u8>, tag: u32, data: &[u8]) {
    out.extend_from_slice(&le(tag));
    out.extend_from_slice(&le(data.len() as u32));
    out.extend_from_slice(data);
}

fn bank_with_media() -> Vec<u8> {
    let mut didx = Vec::new();
    for v in [20u32, 0, 2, 10, 2, 3] {
        didx.extend_from_slice(&le(v));
    }
    let mut out = Vec::new();
    chunk(&mut out, tags::DIDX, &didx);
    chunk(&mut out, tags::DATA, &[5, 6, 1, 2, 3]);
    out
}

fn package() -> Vec<u8> {
    let mut w = PckWriter::new();
    w.languages.insert(1, "english(us)".to_string());
    w.sound_banks.push(WriteEntry { id: 0x10, block_size: 1, language_id: 1, data: bank_with_media() });
    w.sound_banks.push(WriteEntry { id: 0x11, block_size: 1, language_id: 0, data: vec![0xFF; 3] });
    w.streaming_files.push(WriteEntry { id: 0x20, block_size: 1, language_id: 5, data: vec![7; 4] });
    w.external_files.push(WriteEntry { id: 0x30, block_size: 1, language_id: 0, data: vec![8] });
    w.to_bytes()
}

#[test]
fn dump_plan_lists_banks_media_streams_and_externals() {
    let bytes = package();
    let f = PckFile::parse(&bytes).unwrap();
    let plan = dump_plan(&f, None);
    let shape: Vec<(String, DumpDir, u64)> = plan.iter().map(|i| (i.language.clone(), i.dir, i.id)).collect();
    assert_eq!(
        shape,
        vec![
            ("english(us)".to_string(), DumpDir::Banks, 0x10),
            ("english(us)".to_string(), DumpDir::BankMedia(0x10), 10),
            ("english(us)".to_string(), DumpDir::BankMedia(0x10), 20),
            ("SFX".to_string(), DumpDir::Banks, 0x11),
            ("Unknown".to_string(), DumpDir::Streaming, 0x20),
            ("SFX".to_string(), DumpDir::External, 0x30),
        ]
    );
    assert_eq!(plan[1].data, &[1u8, 2, 3][..]);
    assert_eq!(plan[2].data, &[5u8, 6][..]);
    assert_eq!(plan[4].data, &[7u8; 4][..]);
}

#[test]
fn dump_plan_filters_banks_and_streams_by_id() {
    let bytes = package();
    let f = PckFile::parse(&bytes).unwrap();
    let plan = dump_plan(&f, Some(0x10));
    let dirs: Vec<DumpDir> = plan.iter().map(|i| i.dir).collect();
    // The bank passes with its media; external files are always extracted.
    assert_eq!(dirs, vec![DumpDir::Banks, DumpDir::BankMedia(0x10), DumpDir::BankMedia(0x10), DumpDir::External]);
    let plan = dump_plan(&f, Some(0x20));
    let dirs: Vec<DumpDir> = plan.iter().map(|i| i.dir).collect();
    assert_eq!(dirs, vec![DumpDir::Streaming, DumpDir::External]);
}

#[test]
fn bank_media_plan_sorts_and_filters() {
    let bytes = bank_with_media();
    let bank = SoundBank::parse(&bytes).unwrap();
    let all = bank_media_plan(&bank, None);
    assert_eq!(all, vec![(10, &[1u8, 2, 3][..]), (20, &[5u8, 6][..])]);
    let one = bank_media_plan(&bank, Some(20));
    assert_eq!(one, vec![(20, &[5u8, 6][..])]);
    assert!(bank_media_plan(&bank, Some(99)).is_empty());
}
