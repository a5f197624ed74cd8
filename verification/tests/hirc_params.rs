use pcktool::bnk::hirc::params::bus::BusInitialFxParams;
use pcktool::bnk::hirc::params::music::{MusicTransitionRule, TrackSwitchParams};
use pcktool::bnk::hirc::params::node::{AuxParams, NodeInitialFxParams};
use pcktool::bnk::hirc::params::source::BankSourceData;
use pcktool::bnk::hirc::params::state::{StateChunk, StateEntry, StateGroup};
use pcktool::bnk::hirc::reader::BinaryReader;
use pcktool::bnk::hirc::writer::BinaryWriter;
use pcktool::Error;

#[test]
fn track_switch_params_read_back() {
    let x = TrackSwitchParams { group_type: 1, group_id: 0xAB, default_switch: 7, switch_associations: vec![3, 4, 5] };
    let mut w = BinaryWriter::new();
    x.write(&mut w);
    let bytes = w.into_inner();
    assert_eq!(bytes.len(), 13 + 12);
    let mut r = BinaryReader::new(&bytes);
    let y = TrackSwitchParams::read(&mut r).unwrap();
    assert_eq!((y.group_type, y.group_id, y.default_switch), (1, 0xAB, 7));
    assert_eq!(y.switch_associations, vec![3, 4, 5]);
    assert!(r.is_empty());
}

#[test]
fn state_chunk_reads_back() {
    let s = StateChunk {
        state_groups: vec![
            StateGroup { state_group_id: 9, state_sync_type: 2, states: vec![StateEntry { state_id: 1, state_instance_id: 2 }] },
            StateGroup { state_group_id: 10, state_sync_type: 0, states: vec![] },
        ],
    };
    let mut w = BinaryWriter::new();
    s.write(&mut w);
    let bytes = w.into_inner();
    let mut r = BinaryReader::new(&bytes);
    let t = StateChunk::read(&mut r).unwrap();
    assert!(r.is_empty());
    assert_eq!(t.state_groups.len(), 2);
    assert_eq!(t.state_groups[0].state_group_id, 9);
    assert_eq!(t.state_groups[0].states[0].state_instance_id, 2);
    assert_eq!(t.state_groups[1].states.len(), 0);
}

#[test]
fn aux_ids_that_do_not_fit_are_an_eof_error() {
    let bytes = [0x08u8, 1, 2, 3, 4, 5];
    let mut r = BinaryReader::new(&bytes);
    assert!(matches!(AuxParams::read(&mut r), Err(Error::UnexpectedEof { .. })));
    let bytes = [0x00u8];
    let mut r = BinaryReader::new(&bytes);
    let a = AuxParams::read(&mut r).unwrap();
    assert!(a.aux_ids.is_none());
    assert_eq!(r.position(), 1);
}

#[test]
fn aux_params_write_flags_as_they_are() {
    let a = AuxParams { flags: 0x08, aux_ids: None };
    let mut w = BinaryWriter::new();
    a.write(&mut w);
    assert_eq!(w.into_inner(), vec![0x08]);
}

#[test]
fn short_list_count_is_an_eof_error() {
    let bytes = [1u8];
    let mut r = BinaryReader::new(&bytes);
    match r.read_list_u16::<u32>() {
        Err(Error::UnexpectedEof { offset, needed, available }) => assert_eq!((offset, needed, available), (0, 2, 1)),
        other => panic!("unexpected {:?}", other),
    }
}

#[test]
fn bank_source_data_writes_back_what_was_read() {
    let mut bytes = Vec::new();
    bytes.extend_from_slice(&0x0002u32.to_le_bytes());
    bytes.push(1);
    bytes.extend_from_slice(&5u32.to_le_bytes());
    bytes.extend_from_slice(&6u32.to_le_bytes());
    bytes.push(0x80);
    bytes.extend_from_slice(&3u32.to_le_bytes());
    bytes.extend_from_slice(&[7, 8, 9]);
    let mut r = BinaryReader::new(&bytes);
    let x = BankSourceData::read(&mut r).unwrap();
    assert!(r.is_empty());
    let mut w = BinaryWriter::new();
    x.write(&mut w);
    assert_eq!(w.into_inner(), bytes);
}

fn transition_rule_bytes(flag: u8) -> Vec<u8> {
    let mut b = Vec::new();
    b.extend_from_slice(&2u32.to_le_bytes());
    b.extend_from_slice(&11u32.to_le_bytes());
    b.extend_from_slice(&12u32.to_le_bytes());
    b.extend_from_slice(&1u32.to_le_bytes());
    b.extend_from_slice(&13u32.to_le_bytes());
    // source rule
    b.extend_from_slice(&(-5i32).to_le_bytes());
    b.extend_from_slice(&4u32.to_le_bytes());
    b.extend_from_slice(&(-6i32).to_le_bytes());
    b.extend_from_slice(&3u32.to_le_bytes());
    b.extend_from_slice(&0xDEAD_BEEFu32.to_le_bytes());
    b.push(1);
    // destination rule
    b.extend_from_slice(&500i32.to_le_bytes());
    b.extend_from_slice(&2u32.to_le_bytes());
    b.extend_from_slice(&0i32.to_le_bytes());
    b.extend_from_slice(&7u32.to_le_bytes());
    b.extend_from_slice(&8u32.to_le_bytes());
    b.extend_from_slice(&0x0102u16.to_le_bytes());
    b.push(0);
    b.push(1);
    b.push(flag);
    if flag != 0 {
        b.extend_from_slice(&99u32.to_le_bytes());
        for v in [10i32, 1, -2, 20, 3, -4] {
            b.extend_from_slice(&v.to_le_bytes());
        }
        b.push(1);
        b.push(0);
    }
    b
}

#[test]
fn transition_rule_writes_back_what_was_read() {
    for flag in [0u8, 1, 0x80] {
        let bytes = transition_rule_bytes(flag);
        let mut r = BinaryReader::new(&bytes);
        let x = MusicTransitionRule::read(&mut r).unwrap();
        assert!(r.is_empty());
        assert_eq!(x.src_ids, vec![11, 12]);
        assert_eq!(x.dst_ids, vec![13]);
        assert_eq!(x.trans_object.is_some(), flag != 0);
        let mut w = BinaryWriter::new();
        x.write(&mut w);
        assert_eq!(w.into_inner(), bytes);
    }
}

fn bus_fx_bytes(share: u8) -> Vec<u8> {
    let mut b = vec![1u8, 5, 0];
    b.extend_from_slice(&7u32.to_le_bytes());
    b.push(share);
    b.push(0);
    b.extend_from_slice(&9u32.to_le_bytes());
    b.push(2);
    b
}

#[test]
fn bus_fx_params_write_back_what_was_read() {
    let bytes = bus_fx_bytes(1);
    let mut r = BinaryReader::new(&bytes);
    let x = BusInitialFxParams::read(&mut r).unwrap();
    assert!(r.is_empty());
    let mut w = BinaryWriter::new();
    x.write(&mut w);
    assert_eq!(w.into_inner(), bytes);
}

#[test]
fn bus_fx_params_normalise_only_chunk_flags() {
    let bytes = bus_fx_bytes(6);
    let mut r = BinaryReader::new(&bytes);
    let x = BusInitialFxParams::read(&mut r).unwrap();
    let mut w = BinaryWriter::new();
    x.write(&mut w);
    // The chunk's share-set byte comes back as 1; the trailing share-set
    // byte (2) is kept as it is.
    assert_eq!(w.into_inner(), bus_fx_bytes(1));
}

#[test]
fn node_fx_params_write_back() {
    let mut bytes = vec![1u8, 1, 1, 4];
    bytes.extend_from_slice(&0x1234u32.to_le_bytes());
    bytes.push(0);
    bytes.push(1);
    let mut r = BinaryReader::new(&bytes);
    let x = NodeInitialFxParams::read(&mut r).unwrap();
    assert!(r.is_empty());
    let mut w = BinaryWriter::new();
    x.write(&mut w);
    assert_eq!(w.into_inner(), bytes);
}

#[test]
fn node_fx_params_normalise_bypass_and_flags() {
    let mut bytes = vec![0u8, 1, 3, 4];
    bytes.extend_from_slice(&0x1234u32.to_le_bytes());
    bytes.push(9);
    bytes.push(0);
    let mut r = BinaryReader::new(&bytes);
    let x = NodeInitialFxParams::read(&mut r).unwrap();
    assert!(x.fx_bypass);
    let mut w = BinaryWriter::new();
    x.write(&mut w);
    let mut expected = vec![0u8, 1, 1, 4];
    expected.extend_from_slice(&0x1234u32.to_le_bytes());
    expected.push(1);
    expected.push(0);
    assert_eq!(w.into_inner(), expected);
}

#[test]
fn failing_list_item_passes_its_error_on() {
    let mut bytes = Vec::new();
    bytes.extend_from_slice(&2u32.to_le_bytes());
    bytes.extend_from_slice(&5u32.to_le_bytes());
    bytes.extend_from_slice(&[1, 2]);
    let mut r = BinaryReader::new(&bytes);
    match r.read_list_u32::<u32>() {
        Err(Error::UnexpectedEof { offset, needed, available }) => assert_eq!((offset, needed, available), (8, 4, 2)),
        other => panic!("unexpected {:?}", other),
    }
    let mut bytes = Vec::new();
    bytes.extend_from_slice(&1u32.to_le_bytes());
    bytes.extend_from_slice(&5u32.to_le_bytes());
    bytes.extend_from_slice(&[1, 2]);
    let mut r = BinaryReader::new(&bytes);
    match r.read_list_u32::<StateEntry>() {
        Err(Error::UnexpectedEof { offset, needed, available }) => assert_eq!((offset, needed, available), (8, 4, 2)),
        other => panic!("unexpected {:?}", other),
    }
}
