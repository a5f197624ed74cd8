use pcktool::bnk::hirc::items::action::ActionValues;
use pcktool::bnk::hirc::items::music::MusicMarker;
use pcktool::bnk::hirc::params::props::{Prop, PropBundle};
use pcktool::bnk::hirc::types::ActionType;
use pcktool::bnk::hirc::params::decision_tree::DecisionTree;
use pcktool::bnk::hirc::reader::BinaryReader;
use pcktool::bnk::hirc::types::HircType;
use pcktool::bnk::hirc::writer::BinaryWriter;
use pcktool::bnk::hirc::items::{HircBody, HircItem};
use pcktool::Error;

fn le(v: u32) -> [u8; 4] {
    v.to_le_bytes()
}

fn event_item(id: u32, actions: &[u32], extra: usize) -> Vec<u8> {
    let mut body = Vec::new();
    body.extend_from_slice(&le(actions.len() as u32));
    for a in actions {
        body.extend_from_slice(&le(*a));
    }
    body.extend(std::iter::repeat(0xAB).take(extra));
    let mut out = vec![4u8];
    out.extend_from_slice(&le(4 + body.len() as u32));
    out.extend_from_slice(&le(id));
    out.extend_from_slice(&body);
    out
}

#[test]
fn event_item_reads_and_writes_back() {
    let bytes = event_item(0x1234, &[7, 8, 9], 0);
    let mut r = BinaryReader::new(&bytes);
    let item = HircItem::read(&mut r, false).expect("read");
    assert_eq!(item.hirc_type, HircType::Event);
    assert_eq!(item.id, 0x1234);
    match &item.body {
        HircBody::Event(e) => assert_eq!(e.actions, vec![7, 8, 9]),
        other => panic!("unexpected body {:?}", other),
    }
    assert_eq!(r.position(), bytes.len());
    let mut w = BinaryWriter::new();
    item.write(&mut w);
    assert_eq!(w.into_inner(), bytes);
}

#[test]
fn reader_skips_to_the_declared_end() {
    let bytes = event_item(1, &[2], 5);
    let mut r = BinaryReader::new(&bytes);
    let item = HircItem::read(&mut r, false).unwrap();
    assert_eq!(item.id, 1);
    assert_eq!(r.position(), bytes.len());
}

#[test]
fn unknown_type_keeps_its_payload() {
    let mut bytes = vec![0x63u8];
    bytes.extend_from_slice(&le(7));
    bytes.extend_from_slice(&le(0xCAFE));
    bytes.extend_from_slice(&[1, 2, 3]);
    let mut r = BinaryReader::new(&bytes);
    let item = HircItem::read(&mut r, false).unwrap();
    assert_eq!(item.id, 0xCAFE);
    assert_eq!(item.hirc_type, HircType::State);
    match &item.body {
        HircBody::Unknown(d) => assert_eq!(d, &vec![1, 2, 3]),
        other => panic!("unexpected body {:?}", other),
    }
    assert_eq!(r.position(), bytes.len());
}

#[test]
fn truncated_item_is_an_eof_error() {
    let bytes = event_item(1, &[2, 3], 0);
    let short = &bytes[..bytes.len() - 2];
    let mut r = BinaryReader::new(short);
    match HircItem::read(&mut r, false) {
        Err(Error::UnexpectedEof { .. }) => {}
        other => panic!("unexpected {:?}", other),
    }
}

#[test]
fn type_bytes_round_trip() {
    for v in 0u8..=30 {
        match HircType::from_u8(v) {
            Some(t) => {
                assert!((1..=23).contains(&v));
                assert_eq!(t.to_u8(), v);
            }
            None => assert!(v == 0 || v > 23),
        }
    }
    assert_eq!(HircType::MusicSwitch.name(), "MusicSwitch");
}

#[test]
fn marker_name_is_written_with_an_extra_nul() {
    let m = MusicMarker { id: 3, position: 0x4000_0000_0000_0000, name: Some("ab".to_string()) };
    let mut w = BinaryWriter::new();
    m.write(&mut w);
    let bytes = w.into_inner();
    assert_eq!(bytes.len(), 4 + 8 + 4 + 4);
    assert_eq!(&bytes[12..16], &le(3));
    assert_eq!(&bytes[16..], &[b'a', b'b', 0, 0]);
    let mut r = BinaryReader::new(&bytes);
    let back = MusicMarker::read(&mut r).unwrap();
    assert_eq!(back.id, 3);
    assert_eq!(back.position, 0x4000_0000_0000_0000);
    assert_eq!(back.name.as_deref(), Some("ab"));
    assert_eq!(r.position(), bytes.len() - 1);
}

#[test]
fn unnamed_marker_round_trips() {
    let m = MusicMarker { id: 9, position: 1, name: None };
    let mut w = BinaryWriter::new();
    m.write(&mut w);
    let bytes = w.into_inner();
    assert_eq!(bytes.len(), 16);
    let mut r = BinaryReader::new(&bytes);
    let back = MusicMarker::read(&mut r).unwrap();
    assert!(back.name.is_none());
    assert_eq!(r.position(), 16);
}

fn node(out: &mut Vec<u8>, key: u32, next: u32, weight: u16, prob: u16) {
    out.extend_from_slice(&le(key));
    out.extend_from_slice(&le(next));
    out.extend_from_slice(&weight.to_le_bytes());
    out.extend_from_slice(&prob.to_le_bytes());
}

#[test]
fn decision_tree_reads_levels_and_writes_back() {
    let mut bytes = Vec::new();
    node(&mut bytes, 0, 1 | (2 << 16), 50, 100);
    node(&mut bytes, 5, 100, 1, 2);
    node(&mut bytes, 6, 200, 3, 4);
    let mut r = BinaryReader::new(&bytes);
    let t = DecisionTree::read(&mut r, 1, 36).unwrap();
    assert!(t.raw_tree_data.is_none());
    assert_eq!(t.root_nodes.len(), 1);
    let root = &t.root_nodes[0];
    assert!(!root.is_audio_node);
    assert_eq!((root.children_idx, root.children_count), (1, 2));
    assert_eq!(root.children.len(), 2);
    assert!(root.children[0].is_audio_node);
    assert_eq!(root.children[0].audio_node_id, 100);
    assert_eq!(root.children[1].key, 6);
    assert_eq!(root.children[1].probability, 4);
    assert_eq!(r.position(), 36);
    let mut w = BinaryWriter::new();
    t.write(&mut w, 1);
    assert_eq!(w.into_inner(), bytes);
}

#[test]
fn decision_tree_keeps_unreadable_bytes_raw() {
    let mut bytes = Vec::new();
    node(&mut bytes, 0, 1 | (1 << 16), 0, 0);
    bytes.extend_from_slice(&[0xAA, 0xBB]);
    let mut r = BinaryReader::new(&bytes);
    let t = DecisionTree::read(&mut r, 5, 14).unwrap();
    assert!(t.root_nodes.is_empty());
    assert_eq!(t.raw_tree_data, Some(vec![0xAA, 0xBB]));
    assert_eq!(r.position(), 14);
}

#[test]
fn small_decision_tree_is_empty() {
    let bytes = [1u8; 11];
    let mut r = BinaryReader::new(&bytes);
    let t = DecisionTree::read(&mut r, 3, 11).unwrap();
    assert!(t.root_nodes.is_empty());
    assert!(t.raw_tree_data.is_none());
    assert_eq!(r.position(), 0);
}

#[test]
fn action_without_its_parameters_writes_none() {
    let props: Vec<Prop> = (0..3).map(|i| Prop { id: i, raw_value: vec![i; 2] }).collect();
    let a = ActionValues {
        action_type: ActionType(0x0403),
        ext: 7,
        ext4: 1,
        prop_bundle1: PropBundle { props },
        prop_bundle2: PropBundle::default(),
        play_params: None,
        active_params: None,
        state_params: None,
        switch_params: None,
        game_param_params: None,
        value_params: None,
        bypass_fx_params: None,
        seek_params: None,
    };
    let mut w = BinaryWriter::new();
    a.write(&mut w);
    let bytes = w.into_inner();
    let mut expected = vec![0x03, 0x04, 7, 0, 0, 0, 1];
    expected.extend_from_slice(&[3, 0, 1, 2, 0, 0, 1, 1, 2, 2]);
    expected.push(0);
    assert_eq!(bytes, expected);
}
