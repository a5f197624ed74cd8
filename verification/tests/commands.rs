use pcktool::commands::{list_kind, parse_id, ListKind};

#[test]
fn parse_id_reads_hex_with_either_prefix() {
    assert_eq!(parse_id("0x1216854A"), Ok(0x1216_854A));
    assert_eq!(parse_id("0X1a"), Ok(26));
    assert_eq!(parse_id("0xffffffff"), Ok(u32::MAX));
}

#[test]
fn parse_id_reads_decimal() {
    assert_eq!(parse_id("42"), Ok(42));
    assert_eq!(parse_id("+7"), Ok(7));
    assert_eq!(parse_id("0"), Ok(0));
    assert_eq!(parse_id("4294967295"), Ok(u32::MAX));
}

#[test]
fn parse_id_rejects_bad_text() {
    let e = parse_id("0xZZ").unwrap_err();
    assert!(e.starts_with("invalid hex ID '0xZZ': "), "{e}");
    let e = parse_id("abc").unwrap_err();
    assert!(e.starts_with("invalid ID 'abc': "), "{e}");
    assert!(parse_id("").is_err());
    assert!(parse_id("0x").is_err());
    assert!(parse_id("4294967296").is_err());
    assert!(parse_id("0x100000000").is_err());
    assert!(parse_id("-1").is_err());
    assert!(parse_id(" 1").is_err());
}

#[test]
fn list_flags_select_the_table() {
    assert_eq!(list_kind(false, false), ListKind::SoundBanks);
    assert_eq!(list_kind(true, false), ListKind::Streaming);
    assert_eq!(list_kind(true, true), ListKind::Streaming);
    assert_eq!(list_kind(false, true), ListKind::External);
}
