use pcktool::bnk::tags;
use pcktool::hash::{fnv1_32, fourcc};

#[test]
fn test_fourcc_akpk() {
    assert_eq!(fourcc(b"AKPK"), 0x4B50_4B41);
}

#[test]
fn test_fourcc_bkhd() {
    assert_eq!(fourcc(b"BKHD"), 0x4448_4B42);
}

#[test]
fn test_fnv1_empty() {
    assert_eq!(fnv1_32(""), 0);
}

#[test]
fn test_fnv1_strips_extension() {
    let with_ext = fnv1_32("test.bnk");
    let without_ext = fnv1_32("test");
    assert_eq!(with_ext, without_ext);
}

#[test]
fn test_fnv1_case_insensitive() {
    assert_eq!(fnv1_32("Hello"), fnv1_32("hello"));
}

#[test]
fn fnv1_known_values() {
    assert_eq!(fnv1_32("test"), 0xbc2c_0be9);
    assert_eq!(fnv1_32("Hello"), 0xb6fa_7167);
    assert_eq!(fnv1_32("a"), 0x050c_5d7e);
    assert_eq!(fnv1_32("Play_Music"), 0xaec3_63df);
}

#[test]
fn fnv1_only_last_extension_is_stripped() {
    assert_eq!(fnv1_32("a.b.c"), fnv1_32("a.b.x"));
    assert_ne!(fnv1_32("a.b.c"), fnv1_32("a"));
    // A leading dot is kept.
    assert_ne!(fnv1_32(".bnk"), fnv1_32(""));
}

#[test]
fn fourcc_matches_chunk_tags() {
    assert_eq!(fourcc(b"BKHD"), tags::BKHD);
    assert_eq!(fourcc(b"DIDX"), tags::DIDX);
    assert_eq!(fourcc(b"DATA"), tags::DATA);
    assert_eq!(fourcc(b"HIRC"), tags::HIRC);
    assert_eq!(fourcc(b"STID"), tags::STID);
    assert_eq!(fourcc(b"STMG"), tags::STMG);
    assert_eq!(fourcc(b"FXPR"), tags::FXPR);
    assert_eq!(fourcc(b"ENVS"), tags::ENVS);
    assert_eq!(fourcc(b"PLAT"), tags::PLAT);
    assert_eq!(fourcc(b"INIT"), tags::INIT);
    assert_eq!(fourcc(b"AKPK"), pcktool::pck::AKPK_TAG);
}
