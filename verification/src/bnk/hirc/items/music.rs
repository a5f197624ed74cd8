//! Music item values: MusicSegment, MusicTrack, MusicSwitch, MusicRanSeq.

use vstd::prelude::*;
use vstd::string::StringSliceAdditionalSpecFns;
use crate::bytes::{
    encoded_at, group_bytes, spec_i16_to_le_bytes, spec_i32_to_le_bytes, spec_u16_to_le_bytes,
    spec_u32_to_le_bytes, spec_u64_to_le_bytes,
};
use crate::error::{Error, Result};
use super::super::reader::{lemma_nul_end, nul_end, BinaryReader};
use super::super::wire::{
    Wire, group_wire, all_wf, i16_at, i32_at, lemma_list_canonical, list_bytes, list_decodes_at,
    list_u32_bytes, u16_at, u32_at, u64_at, u8_at,
};
use super::super::writer::BinaryWriter;
use super::super::params::decision_tree::{tree_bytes, tree_read, tree_writable, DecisionTree};
use super::super::params::music::{
    ClipAutomation, MusicNodeParams, MusicTransNodeParams, TrackSrcInfo, TrackSwitchParams,
    TrackTransParams,
};
use super::super::params::node::NodeBaseParams;
use super::super::params::source::BankSourceData;
use super::fx::{read_tree_block, tree_block_bytes, tree_block_read_as, tree_block_readable, write_tree_block, GameSyncArgument};

verus! {

broadcast use group_bytes, group_wire, BinaryReader::lemma_pos_nonneg;

// ─── MusicSegment ───────────────────────────────────────────────────

/// A marker in a music segment.
#[derive(Debug, Clone)]
pub struct MusicMarker {
    pub id: u32,
    /// IEEE-754 bits of an `f64`.
    pub position: u64,
    pub name: Option<String>,
}

/// The little-endian `u32` at `p`.
pub open spec fn le32_at(d: Seq<u8>, p: int) -> u32 {
    crate::bytes::spec_u32_from_le_bytes(d.subrange(p, p + 4))
}

/// The string size field of the marker at `p`.
pub open spec fn marker_name_size(d: Seq<u8>, p: int) -> int {
    le32_at(d, p + 12) as int
}

/// The name bytes of the marker at `p`: its string field up to the first
/// NUL.
pub open spec fn marker_text(d: Seq<u8>, p: int) -> Seq<u8> {
    let field = d.subrange(p + 16, p + 16 + marker_name_size(d, p));
    field.take(nul_end(field))
}

/// The marker at `p` can be read: its fixed fields and its string field are
/// there, and the name is valid UTF-8.
pub open spec fn marker_readable(d: Seq<u8>, p: int) -> bool {
    &&& 0 <= p && p + 16 <= d.len()
    &&& marker_name_size(d, p) > 0 ==> {
        &&& p + 16 + marker_name_size(d, p) <= d.len()
        &&& vstd::utf8::valid_utf8(marker_text(d, p))
    }
}

/// `m` is the marker read at `p`.
pub open spec fn marker_read_as(m: MusicMarker, d: Seq<u8>, p: int) -> bool {
    &&& m.id == le32_at(d, p)
    &&& u64_at(d, p + 4, m.position)
    &&& if marker_name_size(d, p) == 0 {
        m.name is None
    } else {
        m.name matches Some(n) && n@ == vstd::utf8::decode_utf8(marker_text(d, p))
    }
}

/// The bytes the marker at `p` spans.
pub open spec fn marker_span(d: Seq<u8>, p: int) -> int {
    16 + marker_name_size(d, p)
}

/// The bytes the writer produces for a marker: a name is written with a
/// size one more than its UTF-8 length, then its bytes and two NULs.
pub open spec fn marker_bytes(m: MusicMarker) -> Seq<u8> {
    spec_u32_to_le_bytes(m.id) + spec_u64_to_le_bytes(m.position) + match m.name {
        Some(n) => spec_u32_to_le_bytes((vstd::utf8::encode_utf8(n@).len() + 1) as u32)
            + vstd::utf8::encode_utf8(n@) + seq![0u8, 0u8],
        None => spec_u32_to_le_bytes(0),
    }
}

/// A marker can be written: its name's length plus one fits in a `usize`.
pub open spec fn marker_writable(m: MusicMarker) -> bool {
    m.name matches Some(n) ==> vstd::utf8::encode_utf8(n@).len() < usize::MAX
}

impl MusicMarker {
    /// Read a marker.
    pub fn read(r: &mut BinaryReader) -> (res: Result<Self>)
        ensures
            final(r).data() == old(r).data(),
            res is Ok <==> marker_readable(old(r).data(), old(r).pos()),
            res matches Ok(m) ==> marker_read_as(m, old(r).data(), old(r).pos()) && final(r).pos()
                == old(r).pos() + marker_span(old(r).data(), old(r).pos()),
    {
        let id = r.read_u32()?;
        let position = r.read_u64()?;
        let string_size = r.read_u32()?;
        let name = if string_size > 0 {
            let s = r.read_string(string_size as usize)?;
            Some(s)
        } else {
            None
        };
        Ok(Self { id, position, name })
    }

    /// Write a marker.
    pub fn write(&self, w: &mut BinaryWriter)
        requires
            marker_writable(*self),
        ensures
            final(w)@ == old(w)@ + marker_bytes(*self),
    {
        w.write_u32(self.id);
        w.write_u64(self.position);
        if let Some(n) = &self.name {
            let bytes_len = n.as_str().len() + 1;
            w.write_u32(bytes_len as u32);
            w.write_string(n.as_str());
            w.write_u8(0);
        } else {
            w.write_u32(0);
        }
    }
}

/// Where marker `i` of a list starting at `q` sits.
pub open spec fn marker_pos(d: Seq<u8>, q: int, i: int) -> int
    decreases i,
{
    if i <= 0 {
        q
    } else {
        let e = marker_pos(d, q, i - 1);
        e + marker_span(d, e)
    }
}

/// The first `n` markers of a list starting at `q` can be read.
pub open spec fn markers_readable(d: Seq<u8>, q: int, n: int) -> bool {
    forall|i: int| 0 <= i < n ==> #[trigger] marker_readable(d, marker_pos(d, q, i))
}

/// `ms` are the markers read from a list starting at `q`.
pub open spec fn markers_read_as(ms: Seq<MusicMarker>, d: Seq<u8>, q: int) -> bool {
    forall|i: int| 0 <= i < ms.len() ==> marker_read_as(#[trigger] ms[i], d, marker_pos(d, q, i))
}

/// The bytes of a list of markers.
pub open spec fn markers_bytes(ms: Seq<MusicMarker>) -> Seq<u8>
    decreases ms.len(),
{
    if ms.len() == 0 {
        Seq::empty()
    } else {
        markers_bytes(ms.drop_last()) + marker_bytes(ms.last())
    }
}

/// A marker written and read back holds the same ID, position and name; a
/// named marker's reading stops one byte before the end of what was
/// written, at the second NUL. This holds for names whose UTF-8 bytes hold
/// no NUL.
pub proof fn lemma_marker_round_trip(m: MusicMarker, d: Seq<u8>, p: int)
    requires
        marker_writable(m),
        m.name matches Some(n) ==> vstd::utf8::encode_utf8(n@).len() + 1 <= u32::MAX && !vstd::utf8::encode_utf8(
            n@,
        ).contains(0u8),
        encoded_at(d, p, marker_bytes(m)),
    ensures
        marker_readable(d, p),
        marker_read_as(m, d, p),
        marker_span(d, p) == marker_bytes(m).len() - if m.name is Some { 1int } else { 0 },
{
    let b = marker_bytes(m);
    assert(d.subrange(p, p + 4) =~= spec_u32_to_le_bytes(m.id));
    assert(d.subrange(p + 4, p + 12) =~= spec_u64_to_le_bytes(m.position));
    match m.name {
        Some(n) => {
            let e = vstd::utf8::encode_utf8(n@);
            assert(d.subrange(p + 12, p + 16) =~= spec_u32_to_le_bytes((e.len() + 1) as u32));
            assert(marker_name_size(d, p) == e.len() + 1);
            let field = d.subrange(p + 16, p + 16 + e.len() + 1);
            assert(field =~= e + seq![0u8]);
            assert forall|j: int| 0 <= j < e.len() implies field[j] != 0 by {
                if field[j] == 0 {
                    assert(e[j] == 0);
                    assert(e.contains(0u8));
                }
            }
            lemma_nul_end(field, e.len() as int);
            assert(marker_text(d, p) =~= e);
            vstd::utf8::encode_utf8_valid_utf8(n@);
            vstd::utf8::encode_utf8_decode_utf8(n@);
        },
        None => {
            assert(d.subrange(p + 12, p + 16) =~= spec_u32_to_le_bytes(0));
        },
    }
}

/// A list of markers with a `u32` count, read with `MusicMarker::read`.
fn read_markers(r: &mut BinaryReader) -> (res: Result<Vec<MusicMarker>>)
    ensures
        final(r).data() == old(r).data(),
        ({
            let d = old(r).data();
            let p = old(r).pos();
            let ok = p + 4 <= d.len() && markers_readable(d, p + 4, le32_at(d, p) as int);
            &&& res is Ok <==> ok
            &&& res matches Ok(ms) ==> {
                &&& ms@.len() == le32_at(d, p)
                &&& markers_read_as(ms@, d, p + 4)
                &&& final(r).pos() == marker_pos(d, p + 4, ms@.len() as int)
            }
        }),
{
    let ghost d = r.data();
    let ghost p = r.pos();
    let count = match r.read_u32() {
        Ok(c) => c,
        Err(e) => {
            return Err(e);
        },
    };
    let mut markers: Vec<MusicMarker> = Vec::new();
    let mut i: u32 = 0;
    while i < count
        invariant
            r.data() == d,
            d == old(r).data(),
            p == old(r).pos(),
            p + 4 <= d.len(),
            count == le32_at(d, p),
            i <= count,
            r.pos() == marker_pos(d, p + 4, i as int),
            markers@.len() == i,
            forall|j: int| 0 <= j < i ==> #[trigger] marker_readable(d, marker_pos(d, p + 4, j)),
            markers_read_as(markers@, d, p + 4),
        decreases count - i,
    {
        let m = match MusicMarker::read(r) {
            Ok(m) => m,
            Err(e) => {
                assert(!marker_readable(d, marker_pos(d, p + 4, i as int)));
                return Err(e);
            },
        };
        markers.push(m);
        i = i + 1;
    }
    Ok(markers)
}

/// A music segment: its music node, duration and markers.
#[derive(Debug, Clone)]
pub struct MusicSegmentValues {
    pub music_node_params: MusicNodeParams,
    /// IEEE-754 bits of an `f64`.
    pub duration: u64,
    pub markers: Vec<MusicMarker>,
}

/// After a segment's music node, at `q`: the duration, then a readable
/// list of markers.
pub open spec fn segment_tail_readable(d: Seq<u8>, q: int) -> bool {
    &&& q + 12 <= d.len()
    &&& markers_readable(d, q + 12, le32_at(d, q + 8) as int)
}

/// The bytes the writer produces for a segment.
pub open spec fn segment_bytes(v: MusicSegmentValues) -> Seq<u8> {
    v.music_node_params.spec_bytes() + spec_u64_to_le_bytes(v.duration) + spec_u32_to_le_bytes(
        v.markers@.len() as u32,
    ) + markers_bytes(v.markers@)
}

/// A segment can be written.
pub open spec fn segment_writable(v: MusicSegmentValues) -> bool {
    &&& v.music_node_params.wf()
    &&& v.markers@.len() <= u32::MAX
    &&& forall|i: int| 0 <= i < v.markers@.len() ==> marker_writable(#[trigger] v.markers@[i])
}

impl MusicSegmentValues {
    /// Read a segment; `has_feedback` says whether the bank carries feedback
    /// fields.
    pub fn read(r: &mut BinaryReader, has_feedback: bool) -> (res: Result<Self>)
        ensures
            final(r).data() == old(r).data(),
            res matches Ok(v) ==> {
                let q = old(r).pos() + v.music_node_params.spec_bytes().len();
                &&& v.music_node_params.wf()
                &&& v.music_node_params.ctx_ok(has_feedback)
                &&& v.music_node_params.decodes_at(old(r).data(), old(r).pos())
                &&& u64_at(old(r).data(), q, v.duration)
                &&& v.markers@.len() == le32_at(old(r).data(), q + 8)
                &&& segment_tail_readable(old(r).data(), q)
                &&& markers_read_as(v.markers@, old(r).data(), q + 12)
                &&& final(r).pos() == marker_pos(old(r).data(), q + 12, v.markers@.len() as int)
            },
            forall|w: MusicNodeParams|
                #[trigger] w.decodes_at(old(r).data(), old(r).pos()) && w.wf() && w.ctx_ok(has_feedback)
                    && segment_tail_readable(old(r).data(), old(r).pos() + w.spec_bytes().len())
                    ==> res is Ok,
    {
        let music_node_params = MusicNodeParams::read(r, has_feedback)?;
        let ghost q = r.pos();
        let duration = match r.read_u64() {
            Ok(v) => v,
            Err(e) => {
                return Err(e);
            },
        };
        let markers = match read_markers(r) {
            Ok(v) => v,
            Err(e) => {
                return Err(e);
            },
        };
        Ok(Self { music_node_params, duration, markers })
    }

    /// Write a segment.
    pub fn write(&self, w: &mut BinaryWriter)
        requires
            segment_writable(*self),
        ensures
            final(w)@ == old(w)@ + segment_bytes(*self),
    {
        self.music_node_params.write(w);
        w.write_u64(self.duration);
        w.write_u32(self.markers.len() as u32);
        let ghost start = w@;
        let mut i: usize = 0;
        while i < self.markers.len()
            invariant
                segment_writable(*self),
                i <= self.markers@.len(),
                w@ == start + markers_bytes(self.markers@.take(i as int)),
            decreases self.markers@.len() - i,
        {
            self.markers[i].write(w);
            assert(self.markers@.take(i + 1).drop_last() =~= self.markers@.take(i as int));
            i = i + 1;
        }
        assert(self.markers@.take(self.markers@.len() as int) =~= self.markers@);
    }
}

// ─── MusicTrack ─────────────────────────────────────────────────────

/// A music track: its sources, playlist, clip automation, node, and for a
/// switch track (type 3) its switch and transition parameters.
#[derive(Debug, Clone)]
pub struct MusicTrackValues {
    pub overrides: u8,
    pub sources: Vec<BankSourceData>,
    pub playlist: Vec<TrackSrcInfo>,
    pub num_sub_track: u32,
    pub clip_automation_items: Vec<ClipAutomation>,
    pub node_base_params: NodeBaseParams,
    pub track_type: u8,
    pub switch_params: Option<TrackSwitchParams>,
    pub trans_params: Option<TrackTransParams>,
    pub look_ahead_time: i32,
}

impl MusicTrackValues {
    /// The sub-track count, present only after a non-empty playlist.
    pub open spec fn sub_track_bytes(&self) -> Seq<u8> {
        if self.playlist@.len() > 0 {
            spec_u32_to_le_bytes(self.num_sub_track)
        } else {
            Seq::empty()
        }
    }

    /// The switch and transition parameters, present only for a switch
    /// track.
    pub open spec fn switch_bytes(&self) -> Seq<u8> {
        if self.track_type == 3 {
            self.switch_params.unwrap().spec_bytes() + self.trans_params.unwrap().spec_bytes()
        } else {
            Seq::empty()
        }
    }

    /// The value can be written and read back.
    pub open spec fn wf(&self) -> bool {
        &&& self.sources@.len() <= u32::MAX && all_wf(self.sources@)
        &&& self.playlist@.len() <= u32::MAX && all_wf(self.playlist@)
        &&& self.playlist@.len() == 0 ==> self.num_sub_track == 0
        &&& self.clip_automation_items@.len() <= u32::MAX && all_wf(self.clip_automation_items@)
        &&& self.node_base_params.wf()
        &&& (self.switch_params is Some) == (self.track_type == 3)
        &&& (self.trans_params is Some) == (self.track_type == 3)
        &&& self.switch_params matches Some(x) ==> x.wf()
        &&& self.trans_params matches Some(x) ==> x.wf()
    }

    /// Optional feedback fields are present exactly when the bank has feedback.
    pub open spec fn ctx_ok(&self, has_feedback: bool) -> bool {
        self.node_base_params.ctx_ok(has_feedback)
    }

    /// The bytes the writer produces.
    pub open spec fn spec_bytes(&self) -> Seq<u8> {
        seq![self.overrides] + list_u32_bytes(self.sources@) + list_u32_bytes(self.playlist@)
            + self.sub_track_bytes() + list_u32_bytes(self.clip_automation_items@)
            + self.node_base_params.spec_bytes() + seq![self.track_type] + self.switch_bytes()
            + spec_i32_to_le_bytes(self.look_ahead_time)
    }

    /// `data` holds, at `pos`, bytes that the reader turns into this value.
    pub open spec fn decodes_at(&self, data: Seq<u8>, pos: int) -> bool {
        let o1 = pos + 1;
        let o2 = o1 + list_u32_bytes(self.sources@).len();
        let o3 = o2 + list_u32_bytes(self.playlist@).len();
        let o4 = o3 + self.sub_track_bytes().len();
        let o5 = o4 + list_u32_bytes(self.clip_automation_items@).len();
        let o6 = o5 + self.node_base_params.spec_bytes().len();
        let o7 = o6 + 1;
        let o8 = o7 + self.switch_bytes().len();
        &&& u8_at(data, pos, self.overrides)
        &&& u32_at(data, o1, self.sources@.len() as u32)
        &&& list_decodes_at(self.sources@, data, o1 + 4)
        &&& u32_at(data, o2, self.playlist@.len() as u32)
        &&& list_decodes_at(self.playlist@, data, o2 + 4)
        &&& self.playlist@.len() > 0 ==> u32_at(data, o3, self.num_sub_track)
        &&& u32_at(data, o4, self.clip_automation_items@.len() as u32)
        &&& list_decodes_at(self.clip_automation_items@, data, o4 + 4)
        &&& self.node_base_params.decodes_at(data, o5)
        &&& u8_at(data, o6, self.track_type)
        &&& self.track_type == 3 ==> {
            &&& self.switch_params.unwrap().decodes_at(data, o7)
            &&& self.trans_params.unwrap().decodes_at(data, o7 + self.switch_params.unwrap().spec_bytes().len())
        }
        &&& i32_at(data, o8, self.look_ahead_time)
    }

    /// Read a music track; `has_feedback` says whether the bank carries
    /// feedback fields.
    #[verifier::spinoff_prover]
    #[verifier::rlimit(100)]
    pub fn read(r: &mut BinaryReader, has_feedback: bool) -> (res: Result<Self>)
        ensures
            final(r).data() == old(r).data(),
            res matches Ok(v) ==> {
                &&& v.wf()
                &&& v.ctx_ok(has_feedback)
                &&& v.decodes_at(old(r).data(), old(r).pos())
                &&& final(r).pos() == old(r).pos() + v.spec_bytes().len()
            },
            forall|w: Self|
                #[trigger] w.decodes_at(old(r).data(), old(r).pos()) && w.wf() && w.ctx_ok(has_feedback)
                    ==> (res matches Ok(v) && v.spec_bytes() == w.spec_bytes()),
    {
        let overrides = r.read_u8()?;
        let sources = r.read_list_u32::<BankSourceData>()?;
        let num_playlist = r.read_u32()?;
        let playlist = r.read_items::<TrackSrcInfo>(num_playlist as usize)?;
        let num_sub_track = if num_playlist > 0 {
            r.read_u32()?
        } else {
            0
        };
        let clip_automation_items = r.read_list_u32::<ClipAutomation>()?;
        let node_base_params = NodeBaseParams::read(r, has_feedback)?;
        let track_type = r.read_u8()?;
        let (switch_params, trans_params) = if track_type == 0x3 {
            let sp = TrackSwitchParams::read(r)?;
            let tp = TrackTransParams::read(r)?;
            (Some(sp), Some(tp))
        } else {
            (None, None)
        };
        let look_ahead_time = r.read_i32()?;
        Ok(
            Self {
                overrides,
                sources,
                playlist,
                num_sub_track,
                clip_automation_items,
                node_base_params,
                track_type,
                switch_params,
                trans_params,
                look_ahead_time,
            },
        )
    }

    /// Write a music track.
    #[verifier::spinoff_prover]
    #[verifier::rlimit(100)]
    pub fn write(&self, w: &mut BinaryWriter)
        requires
            self.wf(),
        ensures
            final(w)@ == old(w)@ + self.spec_bytes(),
    {
        w.write_u8(self.overrides);
        w.write_list_u32(self.sources.as_slice());
        w.write_u32(self.playlist.len() as u32);
        w.write_items(self.playlist.as_slice());
        if self.playlist.len() > 0 {
            w.write_u32(self.num_sub_track);
        }
        w.write_list_u32(self.clip_automation_items.as_slice());
        self.node_base_params.write(w);
        w.write_u8(self.track_type);
        if self.track_type == 0x3 {
            if let Some(sp) = &self.switch_params {
                sp.write(w);
            }
            if let Some(tp) = &self.trans_params {
                tp.write(w);
            }
        }
        w.write_i32(self.look_ahead_time);
        assert(final(w)@ =~= old(w)@ + self.spec_bytes());
    }

    /// The written bytes are accepted by the reader as this very value.
    #[verifier::spinoff_prover]
    #[verifier::rlimit(100)]
    pub proof fn lemma_canonical(&self, data: Seq<u8>, pos: int)
        requires
            self.wf(),
            encoded_at(data, pos, self.spec_bytes()),
        ensures
            self.decodes_at(data, pos),
    {
        let b0 = seq![self.overrides];
        let b1 = list_u32_bytes(self.sources@);
        let b2 = list_u32_bytes(self.playlist@);
        let b3 = self.sub_track_bytes();
        let b4 = list_u32_bytes(self.clip_automation_items@);
        let b5 = self.node_base_params.spec_bytes();
        let b6 = seq![self.track_type];
        let b7 = self.switch_bytes();
        let b8 = spec_i32_to_le_bytes(self.look_ahead_time);
        assert(encoded_at(data, pos, b0 + b1 + b2 + b3 + b4 + b5 + b6 + b7));
        assert(encoded_at(data, pos, b0 + b1 + b2 + b3 + b4 + b5 + b6));
        assert(encoded_at(data, pos, b0 + b1 + b2 + b3 + b4 + b5));
        assert(encoded_at(data, pos, b0 + b1 + b2 + b3 + b4));
        assert(encoded_at(data, pos, b0 + b1 + b2 + b3));
        assert(encoded_at(data, pos, b0 + b1 + b2));
        assert(encoded_at(data, pos, b0 + b1));
        let o1 = pos + 1;
        let o2 = o1 + b1.len();
        let o3 = o2 + b2.len();
        let o4 = o3 + b3.len();
        let o5 = o4 + b4.len();
        let o6 = o5 + b5.len();
        let o7 = o6 + 1;
        let o8 = o7 + b7.len();
        assert(encoded_at(data, o1, b1));
        assert(encoded_at(data, o1, spec_u32_to_le_bytes(self.sources@.len() as u32)));
        assert(encoded_at(data, o1 + 4, list_bytes(self.sources@)));
        lemma_list_canonical(self.sources@, data, o1 + 4);
        assert(encoded_at(data, o2, b2));
        assert(encoded_at(data, o2, spec_u32_to_le_bytes(self.playlist@.len() as u32)));
        assert(encoded_at(data, o2 + 4, list_bytes(self.playlist@)));
        lemma_list_canonical(self.playlist@, data, o2 + 4);
        assert(encoded_at(data, o3, b3));
        assert(encoded_at(data, o4, b4));
        assert(encoded_at(data, o4, spec_u32_to_le_bytes(self.clip_automation_items@.len() as u32)));
        assert(encoded_at(data, o4 + 4, list_bytes(self.clip_automation_items@)));
        lemma_list_canonical(self.clip_automation_items@, data, o4 + 4);
        assert(encoded_at(data, o5, b5));
        self.node_base_params.lemma_canonical(data, o5);
        assert(encoded_at(data, o6, b6));
        assert(encoded_at(data, o7, b7));
        if self.track_type == 3 {
            let sw = self.switch_params.unwrap();
            let tr = self.trans_params.unwrap();
            assert(encoded_at(data, o7, sw.spec_bytes()));
            assert(encoded_at(data, o7 + sw.spec_bytes().len(), tr.spec_bytes()));
            sw.lemma_canonical(data, o7);
            tr.lemma_canonical(data, o7 + sw.spec_bytes().len());
        }
        assert(encoded_at(data, o8, b8));
    }
}

// ─── MusicSwitch ────────────────────────────────────────────────────

/// A music switch container: its transitions and a decision tree over game
/// syncs.
#[derive(Debug)]
pub struct MusicSwitchValues {
    pub music_trans_node_params: MusicTransNodeParams,
    pub is_continue_playback: u8,
    pub tree_depth: u32,
    pub arguments: Vec<GameSyncArgument>,
    pub tree_data_size: u32,
    pub tree_mode: u8,
    pub decision_tree: DecisionTree,
}

/// The bytes the writer produces for a music switch.
pub open spec fn music_switch_bytes(v: MusicSwitchValues) -> Seq<u8> {
    v.music_trans_node_params.spec_bytes() + seq![v.is_continue_playback] + tree_block_bytes(
        v.tree_depth,
        v.arguments@,
        v.tree_data_size,
        v.tree_mode,
        v.decision_tree,
    )
}

impl MusicSwitchValues {
    /// Read a music switch; `has_feedback` says whether the bank carries
    /// feedback fields.
    pub fn read(r: &mut BinaryReader, has_feedback: bool) -> (res: Result<Self>)
        ensures
            final(r).data() == old(r).data(),
            res matches Ok(v) ==> {
                let q = old(r).pos() + v.music_trans_node_params.spec_bytes().len();
                &&& v.music_trans_node_params.wf()
                &&& v.music_trans_node_params.ctx_ok(has_feedback)
                &&& v.music_trans_node_params.decodes_at(old(r).data(), old(r).pos())
                &&& q + 1 <= old(r).data().len()
                &&& v.is_continue_playback == old(r).data()[q]
                &&& tree_block_readable(old(r).data(), q + 1)
                &&& tree_block_read_as(
                    v.tree_depth,
                    v.arguments@,
                    v.tree_data_size,
                    v.tree_mode,
                    v.decision_tree,
                    old(r).data(),
                    q + 1,
                    final(r).pos(),
                )
            },
            forall|w: MusicTransNodeParams|
                #[trigger] w.decodes_at(old(r).data(), old(r).pos()) && w.wf() && w.ctx_ok(has_feedback)
                    && old(r).pos() + w.spec_bytes().len() + 1 <= old(r).data().len() && tree_block_readable(
                    old(r).data(),
                    old(r).pos() + w.spec_bytes().len() + 1,
                ) ==> res is Ok,
    {
        let music_trans_node_params = MusicTransNodeParams::read(r, has_feedback)?;
        let is_continue_playback = match r.read_u8() {
            Ok(v) => v,
            Err(e) => {
                return Err(e);
            },
        };
        let (tree_depth, arguments, tree_data_size, tree_mode, decision_tree) = match read_tree_block(r) {
            Ok(b) => b,
            Err(e) => {
                return Err(e);
            },
        };
        Ok(
            Self {
                music_trans_node_params,
                is_continue_playback,
                tree_depth,
                arguments,
                tree_data_size,
                tree_mode,
                decision_tree,
            },
        )
    }

    /// Write a music switch.
    pub fn write(&self, w: &mut BinaryWriter)
        requires
            self.music_trans_node_params.wf(),
            tree_writable(self.decision_tree),
        ensures
            final(w)@ == old(w)@ + music_switch_bytes(*self),
    {
        self.music_trans_node_params.write(w);
        w.write_u8(self.is_continue_playback);
        write_tree_block(w, self.tree_depth, &self.arguments, self.tree_data_size, self.tree_mode, &self.decision_tree);
        assert(final(w)@ =~= old(w)@ + music_switch_bytes(*self));
    }
}

// ─── MusicRanSeq ────────────────────────────────────────────────────

/// An item of a music playlist: a segment or a group of child items.
#[derive(Debug)]
pub struct MusicRanSeqPlaylistItem {
    pub segment_id: u32,
    pub playlist_item_id: u32,
    pub num_children: u32,
    pub rs_type: u32,
    pub loop_val: i16,
    pub loop_min: i16,
    pub loop_max: i16,
    pub weight: u32,
    pub avoid_repeat_count: u16,
    pub is_using_weight: u8,
    pub is_shuffle: u8,
    pub children: Vec<MusicRanSeqPlaylistItem>,
}

/// The size of an item's own fields.
pub const PLAYLIST_ITEM_SIZE: usize = 30;

/// Reading `count` items at `p`, each followed by its children: whether it
/// succeeds, and where it ends.
pub open spec fn playlist_parse(d: Seq<u8>, p: int, count: int) -> (bool, int)
    decreases d.len() - p, count,
{
    if count <= 0 {
        (true, p)
    } else if p < 0 || p + 30 > d.len() {
        (false, p)
    } else {
        let c = playlist_item_end(d, p);
        if !c.0 {
            (false, c.1)
        } else if c.1 < p || c.1 > d.len() {
            (false, c.1)
        } else {
            playlist_parse(d, c.1, count - 1)
        }
    }
}

/// Reading the children of the item at `p` (whose own fields fit): whether
/// it succeeds, and where the item ends.
pub open spec fn playlist_item_end(d: Seq<u8>, p: int) -> (bool, int)
    decreases d.len() - p, 0int,
{
    if p < 0 || p + 30 > d.len() {
        (false, p)
    } else if le32_at(d, p + 8) > 0 {
        playlist_parse(d, p + 30, le32_at(d, p + 8) as int)
    } else {
        (true, p + 30)
    }
}

/// Where item `i` of a list starting at `p` sits.
pub open spec fn playlist_pos(d: Seq<u8>, p: int, i: int) -> int
    decreases i,
{
    if i <= 0 {
        p
    } else {
        playlist_item_end(d, playlist_pos(d, p, i - 1)).1
    }
}

/// `it` holds the fields of the item at `q`.
pub open spec fn playlist_item_fields(it: MusicRanSeqPlaylistItem, d: Seq<u8>, q: int) -> bool {
    &&& it.segment_id == le32_at(d, q)
    &&& it.playlist_item_id == le32_at(d, q + 4)
    &&& it.num_children == le32_at(d, q + 8)
    &&& it.rs_type == le32_at(d, q + 12)
    &&& i16_at(d, q + 16, it.loop_val)
    &&& i16_at(d, q + 18, it.loop_min)
    &&& i16_at(d, q + 20, it.loop_max)
    &&& it.weight == le32_at(d, q + 22)
    &&& u16_at(d, q + 26, it.avoid_repeat_count)
    &&& it.is_using_weight == d[q + 28]
    &&& it.is_shuffle == d[q + 29]
}

/// `items` are the items read from a list of `items.len()` at `p`, each
/// with its children.
pub open spec fn playlist_read_as(items: Seq<MusicRanSeqPlaylistItem>, d: Seq<u8>, p: int) -> bool
    decreases items,
{
    forall|i: int|
        0 <= i < items.len() ==> {
            let q = playlist_pos(d, p, i);
            &&& playlist_item_fields(#[trigger] items[i], d, q)
            &&& if items[i].num_children > 0 {
                items[i].children@.len() == items[i].num_children && playlist_read_as(
                    items[i].children@,
                    d,
                    q + 30,
                )
            } else {
                items[i].children@.len() == 0
            }
        }
}

/// The own fields of an item as written.
pub open spec fn playlist_item_bytes(it: MusicRanSeqPlaylistItem) -> Seq<u8> {
    spec_u32_to_le_bytes(it.segment_id) + spec_u32_to_le_bytes(it.playlist_item_id)
        + spec_u32_to_le_bytes(it.num_children) + spec_u32_to_le_bytes(it.rs_type)
        + spec_i16_to_le_bytes(it.loop_val) + spec_i16_to_le_bytes(it.loop_min)
        + spec_i16_to_le_bytes(it.loop_max) + spec_u32_to_le_bytes(it.weight)
        + spec_u16_to_le_bytes(it.avoid_repeat_count) + seq![it.is_using_weight, it.is_shuffle]
}

/// The bytes written for items `i..` of a list: each item's fields, then its
/// children when its child count is not zero.
pub open spec fn playlist_bytes_from(items: Seq<MusicRanSeqPlaylistItem>, i: int) -> Seq<u8>
    decreases items, items.len() - i,
{
    if i >= items.len() || i < 0 {
        Seq::empty()
    } else {
        let below = if items[i].num_children > 0 {
            proof {
                assert(decreases_to!(items => items[i]));
            }
            playlist_bytes_from(items[i].children@, 0)
        } else {
            Seq::empty()
        };
        playlist_item_bytes(items[i]) + below + playlist_bytes_from(items, i + 1)
    }
}

proof fn lemma_playlist_parse_bounds(d: Seq<u8>, p: int, count: int)
    requires
        0 <= p <= d.len(),
    ensures
        playlist_parse(d, p, count).0 ==> p <= playlist_parse(d, p, count).1 <= d.len(),
    decreases d.len() - p, count,
{
    if count > 0 && p + 30 <= d.len() {
        lemma_playlist_item_end_bounds(d, p);
        let c = playlist_item_end(d, p);
        if c.0 && p <= c.1 <= d.len() {
            lemma_playlist_parse_bounds(d, c.1, count - 1);
        }
    }
}

proof fn lemma_playlist_item_end_bounds(d: Seq<u8>, p: int)
    requires
        0 <= p <= d.len(),
    ensures
        playlist_item_end(d, p).0 ==> p + 30 <= playlist_item_end(d, p).1 <= d.len(),
    decreases d.len() - p, 0int,
{
    if p + 30 <= d.len() && le32_at(d, p + 8) > 0 {
        lemma_playlist_parse_bounds(d, p + 30, le32_at(d, p + 8) as int);
    }
}

impl MusicRanSeqPlaylistItem {
    /// Read `count` items, each followed by its children.
    fn read_recursive(r: &mut BinaryReader, count: u32) -> (res: Result<Vec<Self>>)
        ensures
            final(r).data() == old(r).data(),
            res is Ok <==> playlist_parse(old(r).data(), old(r).pos(), count as int).0,
            res matches Ok(items) ==> {
                &&& items@.len() == count
                &&& playlist_read_as(items@, old(r).data(), old(r).pos())
                &&& final(r).pos() == playlist_parse(old(r).data(), old(r).pos(), count as int).1
            },
        decreases old(r).data().len() - old(r).pos(), count,
    {
        let ghost d = r.data();
        let ghost p = r.pos();
        let _ = r.position();
        let mut items: Vec<Self> = Vec::new();
        let mut i: u32 = 0;
        while i < count
            invariant
                r.data() == d,
                d == old(r).data(),
                p == old(r).pos(),
                0 <= p <= d.len(),
                i <= count,
                r.pos() == playlist_pos(d, p, i as int),
                p <= r.pos() <= d.len(),
                playlist_parse(d, p, count as int) == playlist_parse(d, r.pos(), count - i),
                items@.len() == i,
                forall|j: int|
                    0 <= j < i ==> {
                        let q = playlist_pos(d, p, j);
                        &&& playlist_item_fields(#[trigger] items@[j], d, q)
                        &&& if items@[j].num_children > 0 {
                            items@[j].children@.len() == items@[j].num_children && playlist_read_as(
                                items@[j].children@,
                                d,
                                q + 30,
                            )
                        } else {
                            items@[j].children@.len() == 0
                        }
                    },
            decreases count - i,
        {
            let ghost q = r.pos();
            let segment_id = r.read_u32()?;
            let playlist_item_id = r.read_u32()?;
            let num_children = r.read_u32()?;
            let rs_type = r.read_u32()?;
            let loop_val = r.read_i16()?;
            let loop_min = r.read_i16()?;
            let loop_max = r.read_i16()?;
            let weight = r.read_u32()?;
            let avoid_repeat_count = r.read_u16()?;
            let is_using_weight = r.read_u8()?;
            let is_shuffle = r.read_u8()?;
            proof {
                lemma_playlist_item_end_bounds(d, q);
            }
            let children = if num_children > 0 {
                match Self::read_recursive(r, num_children) {
                    Ok(v) => v,
                    Err(e) => {
                        return Err(e);
                    },
                }
            } else {
                Vec::new()
            };
            proof {
                lemma_playlist_item_end_bounds(d, q);
                let c = playlist_item_end(d, q);
                assert(c.0 && c.1 == r.pos());
                lemma_playlist_parse_bounds(d, c.1, count - i - 1);
            }
            items.push(
                Self {
                    segment_id,
                    playlist_item_id,
                    num_children,
                    rs_type,
                    loop_val,
                    loop_min,
                    loop_max,
                    weight,
                    avoid_repeat_count,
                    is_using_weight,
                    is_shuffle,
                    children,
                },
            );
            i = i + 1;
        }
        proof {
            assert(playlist_read_as(items@, d, p));
        }
        Ok(items)
    }

    /// Write items, each followed by its children when its child count is
    /// not zero.
    fn write_recursive(items: &[Self], w: &mut BinaryWriter)
        ensures
            final(w)@ == old(w)@ + playlist_bytes_from(items@, 0),
        decreases items@,
    {
        let mut i: usize = 0;
        while i < items.len()
            invariant
                i <= items@.len(),
                old(w)@ + playlist_bytes_from(items@, 0) == w@ + playlist_bytes_from(items@, i as int),
            decreases items@.len() - i,
        {
            let item = &items[i];
            let ghost before = w@;
            w.write_u32(item.segment_id);
            w.write_u32(item.playlist_item_id);
            w.write_u32(item.num_children);
            w.write_u32(item.rs_type);
            w.write_i16(item.loop_val);
            w.write_i16(item.loop_min);
            w.write_i16(item.loop_max);
            w.write_u32(item.weight);
            w.write_u16(item.avoid_repeat_count);
            w.write_u8(item.is_using_weight);
            w.write_u8(item.is_shuffle);
            assert(w@ =~= before + playlist_item_bytes(items@[i as int]));
            if item.num_children > 0 {
                proof {
                    assert(decreases_to!(items@ => items@[i as int]));
                }
                Self::write_recursive(item.children.as_slice(), w);
            }
            assert(old(w)@ + playlist_bytes_from(items@, 0) =~= w@ + playlist_bytes_from(items@, i + 1));
            i = i + 1;
        }
        assert(playlist_bytes_from(items@, items@.len() as int) =~= Seq::<u8>::empty());
        assert(w@ + Seq::<u8>::empty() =~= w@);
    }
}

/// A music playlist container: its transitions, the playlist item count it
/// declares, and its playlist (one root item with its children).
#[derive(Debug)]
pub struct MusicRanSeqValues {
    pub music_trans_node_params: MusicTransNodeParams,
    pub num_playlist_items: u32,
    pub playlist: Vec<MusicRanSeqPlaylistItem>,
}

/// The bytes the writer produces for a music playlist container.
pub open spec fn music_ranseq_bytes(v: MusicRanSeqValues) -> Seq<u8> {
    v.music_trans_node_params.spec_bytes() + spec_u32_to_le_bytes(v.num_playlist_items)
        + playlist_bytes_from(v.playlist@, 0)
}

impl MusicRanSeqValues {
    /// Read a music playlist container; `has_feedback` says whether the bank
    /// carries feedback fields.
    pub fn read(r: &mut BinaryReader, has_feedback: bool) -> (res: Result<Self>)
        ensures
            final(r).data() == old(r).data(),
            res matches Ok(v) ==> {
                let q = old(r).pos() + v.music_trans_node_params.spec_bytes().len();
                &&& v.music_trans_node_params.wf()
                &&& v.music_trans_node_params.ctx_ok(has_feedback)
                &&& v.music_trans_node_params.decodes_at(old(r).data(), old(r).pos())
                &&& q + 4 <= old(r).data().len()
                &&& v.num_playlist_items == le32_at(old(r).data(), q)
                &&& v.playlist@.len() == 1
                &&& playlist_parse(old(r).data(), q + 4, 1).0
                &&& playlist_read_as(v.playlist@, old(r).data(), q + 4)
                &&& final(r).pos() == playlist_parse(old(r).data(), q + 4, 1).1
            },
            forall|w: MusicTransNodeParams|
                #[trigger] w.decodes_at(old(r).data(), old(r).pos()) && w.wf() && w.ctx_ok(has_feedback)
                    && old(r).pos() + w.spec_bytes().len() + 4 <= old(r).data().len() && playlist_parse(
                    old(r).data(),
                    old(r).pos() + w.spec_bytes().len() + 4,
                    1,
                ).0 ==> res is Ok,
    {
        let music_trans_node_params = MusicTransNodeParams::read(r, has_feedback)?;
        let num_playlist_items = match r.read_u32() {
            Ok(v) => v,
            Err(e) => {
                return Err(e);
            },
        };
        let playlist = match MusicRanSeqPlaylistItem::read_recursive(r, 1) {
            Ok(v) => v,
            Err(e) => {
                return Err(e);
            },
        };
        Ok(Self { music_trans_node_params, num_playlist_items, playlist })
    }

    /// Write a music playlist container.
    pub fn write(&self, w: &mut BinaryWriter)
        requires
            self.music_trans_node_params.wf(),
        ensures
            final(w)@ == old(w)@ + music_ranseq_bytes(*self),
    {
        self.music_trans_node_params.write(w);
        w.write_u32(self.num_playlist_items);
        MusicRanSeqPlaylistItem::write_recursive(self.playlist.as_slice(), w);
        assert(final(w)@ =~= old(w)@ + music_ranseq_bytes(*self));
    }
}

} // verus!
