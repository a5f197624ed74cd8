//! Music system parameter types.

use vstd::prelude::*;
#[allow(unused_imports)]
use crate::bytes::{
    encoded_at, group_bytes, spec_i16_to_le_bytes, spec_i32_to_le_bytes, spec_u16_to_le_bytes,
    spec_u32_to_le_bytes, spec_u64_to_le_bytes,
};
#[allow(unused_imports)]
use crate::error::{Error, Result};
#[allow(unused_imports)]
use super::super::reader::BinaryReader;
#[allow(unused_imports)]
use super::super::wire::{
    Wire, layout_error, group_wire, all_wf, bool_at, bool_byte, i16_at, i32_at, i8_at, lemma_list_canonical, list_bytes,
    lemma_u32_list_unique, lemma_i32_rewrite, lemma_u16_rewrite, lemma_u32_list_rewrite, lemma_u32_rewrite,
    lemma_u8_rewrite, list_decodes_at, list_u16_bytes, list_u32_bytes, reads_value, u16_at, u32_at, u64_at, u8_at,
};
#[allow(unused_imports)]
use super::super::writer::BinaryWriter;
use super::node::{Children, NodeBaseParams};
use super::rtpc::RtpcGraphPoint;

verus! {

broadcast use group_bytes, group_wire, BinaryReader::lemma_pos_nonneg;

/// Tempo and time signature of a music node.
#[derive(Debug, Clone)]
pub struct MeterInfo {
    /// IEEE-754 bits of an `f64`.
    pub grid_period: u64,
    /// IEEE-754 bits of an `f64`.
    pub grid_offset: u64,
    /// IEEE-754 bits of an `f32`.
    pub tempo: u32,
    pub time_sig_num_beats_bar: u8,
    pub time_sig_beat_value: u8,
}

impl Wire for MeterInfo {
    open spec fn wf(&self) -> bool {
        true
    }

    open spec fn spec_bytes(&self) -> Seq<u8> {
        spec_u64_to_le_bytes(self.grid_period)
            + spec_u64_to_le_bytes(self.grid_offset)
            + spec_u32_to_le_bytes(self.tempo)
            + seq![self.time_sig_num_beats_bar]
            + seq![self.time_sig_beat_value]
    }

    open spec fn decodes_at(&self, data: Seq<u8>, pos: int) -> bool {
        &&& u64_at(data, pos, self.grid_period)
        &&& u64_at(data, pos + 8, self.grid_offset)
        &&& u32_at(data, pos + 8 + 8, self.tempo)
        &&& u8_at(data, pos + 8 + 8 + 4, self.time_sig_num_beats_bar)
        &&& u8_at(data, pos + 8 + 8 + 4 + 1, self.time_sig_beat_value)
    }

    open spec fn read_error(data: Seq<u8>, pos: int) -> Option<Error> {
        layout_error(data, pos, seq![8, 8, 4, 1, 1])
    }

    fn wire_read(r: &mut BinaryReader) -> (res: Result<Self>) {
        proof {
            reveal_with_fuel(layout_error, 6);
        }
        let grid_period = r.read_u64()?;
        let grid_offset = r.read_u64()?;
        let tempo = r.read_u32()?;
        let time_sig_num_beats_bar = r.read_u8()?;
        let time_sig_beat_value = r.read_u8()?;
        Ok(Self { grid_period, grid_offset, tempo, time_sig_num_beats_bar, time_sig_beat_value })
    }

    fn wire_write(&self, w: &mut BinaryWriter) {
        w.write_u64(self.grid_period);
        w.write_u64(self.grid_offset);
        w.write_u32(self.tempo);
        w.write_u8(self.time_sig_num_beats_bar);
        w.write_u8(self.time_sig_beat_value);
    }

    proof fn lemma_canonical(&self, data: Seq<u8>, pos: int) {
        assert(encoded_at(data, pos, spec_u64_to_le_bytes(self.grid_period) + spec_u64_to_le_bytes(self.grid_offset) + spec_u32_to_le_bytes(self.tempo) + seq![self.time_sig_num_beats_bar]));
        assert(encoded_at(data, pos + 8 + 8 + 4 + 1, seq![self.time_sig_beat_value]));
        assert(encoded_at(data, pos, spec_u64_to_le_bytes(self.grid_period) + spec_u64_to_le_bytes(self.grid_offset) + spec_u32_to_le_bytes(self.tempo)));
        assert(encoded_at(data, pos + 8 + 8 + 4, seq![self.time_sig_num_beats_bar]));
        assert(encoded_at(data, pos, spec_u64_to_le_bytes(self.grid_period) + spec_u64_to_le_bytes(self.grid_offset)));
        assert(encoded_at(data, pos + 8 + 8, spec_u32_to_le_bytes(self.tempo)));
        assert(encoded_at(data, pos, spec_u64_to_le_bytes(self.grid_period)));
        assert(encoded_at(data, pos + 8, spec_u64_to_le_bytes(self.grid_offset)));
    }
}

/// The layout of a `MeterInfo` as Wwise writes it, 22 bytes: `grid_period` (`u64`) at 0,
/// `grid_offset` (`u64`) at 8, `tempo` (`u32`) at 16, `time_sig_num_beats_bar` (byte) at 20,
/// `time_sig_beat_value` (byte) at 21.
pub proof fn lemma_meter_info_layout(v: MeterInfo, data: Seq<u8>, pos: int)
    requires
        v.decodes_at(data, pos),
    ensures
        u64_at(data, pos, v.grid_period),
        u64_at(data, pos + 8, v.grid_offset),
        u32_at(data, pos + 16, v.tempo),
        u8_at(data, pos + 20, v.time_sig_num_beats_bar),
        u8_at(data, pos + 21, v.time_sig_beat_value),
        v.spec_bytes() == spec_u64_to_le_bytes(v.grid_period) + spec_u64_to_le_bytes(v.grid_offset) + spec_u32_to_le_bytes(v.tempo) + seq![v.time_sig_num_beats_bar] + seq![v.time_sig_beat_value],
{
    assert(v.spec_bytes() =~= spec_u64_to_le_bytes(v.grid_period) + spec_u64_to_le_bytes(v.grid_offset) + spec_u32_to_le_bytes(v.tempo) + seq![v.time_sig_num_beats_bar] + seq![v.time_sig_beat_value]);
}
/// A stinger: a segment played on a trigger.
#[derive(Debug, Clone)]
pub struct Stinger {
    pub trigger_id: u32,
    pub segment_id: u32,
    pub sync_play_at: u32,
    pub cue_filter_hash: u32,
    pub dont_repeat_time: i32,
    pub num_segment_look_ahead: u32,
}

impl Wire for Stinger {
    open spec fn wf(&self) -> bool {
        true
    }

    open spec fn spec_bytes(&self) -> Seq<u8> {
        spec_u32_to_le_bytes(self.trigger_id)
            + spec_u32_to_le_bytes(self.segment_id)
            + spec_u32_to_le_bytes(self.sync_play_at)
            + spec_u32_to_le_bytes(self.cue_filter_hash)
            + spec_i32_to_le_bytes(self.dont_repeat_time)
            + spec_u32_to_le_bytes(self.num_segment_look_ahead)
    }

    open spec fn decodes_at(&self, data: Seq<u8>, pos: int) -> bool {
        &&& u32_at(data, pos, self.trigger_id)
        &&& u32_at(data, pos + 4, self.segment_id)
        &&& u32_at(data, pos + 4 + 4, self.sync_play_at)
        &&& u32_at(data, pos + 4 + 4 + 4, self.cue_filter_hash)
        &&& i32_at(data, pos + 4 + 4 + 4 + 4, self.dont_repeat_time)
        &&& u32_at(data, pos + 4 + 4 + 4 + 4 + 4, self.num_segment_look_ahead)
    }

    open spec fn read_error(data: Seq<u8>, pos: int) -> Option<Error> {
        layout_error(data, pos, seq![4, 4, 4, 4, 4, 4])
    }

    fn wire_read(r: &mut BinaryReader) -> (res: Result<Self>) {
        proof {
            reveal_with_fuel(layout_error, 7);
        }
        let trigger_id = r.read_u32()?;
        let segment_id = r.read_u32()?;
        let sync_play_at = r.read_u32()?;
        let cue_filter_hash = r.read_u32()?;
        let dont_repeat_time = r.read_i32()?;
        let num_segment_look_ahead = r.read_u32()?;
        Ok(Self { trigger_id, segment_id, sync_play_at, cue_filter_hash, dont_repeat_time, num_segment_look_ahead })
    }

    fn wire_write(&self, w: &mut BinaryWriter) {
        w.write_u32(self.trigger_id);
        w.write_u32(self.segment_id);
        w.write_u32(self.sync_play_at);
        w.write_u32(self.cue_filter_hash);
        w.write_i32(self.dont_repeat_time);
        w.write_u32(self.num_segment_look_ahead);
    }

    proof fn lemma_canonical(&self, data: Seq<u8>, pos: int) {
        assert(encoded_at(data, pos, spec_u32_to_le_bytes(self.trigger_id) + spec_u32_to_le_bytes(self.segment_id) + spec_u32_to_le_bytes(self.sync_play_at) + spec_u32_to_le_bytes(self.cue_filter_hash) + spec_i32_to_le_bytes(self.dont_repeat_time)));
        assert(encoded_at(data, pos + 4 + 4 + 4 + 4 + 4, spec_u32_to_le_bytes(self.num_segment_look_ahead)));
        assert(encoded_at(data, pos, spec_u32_to_le_bytes(self.trigger_id) + spec_u32_to_le_bytes(self.segment_id) + spec_u32_to_le_bytes(self.sync_play_at) + spec_u32_to_le_bytes(self.cue_filter_hash)));
        assert(encoded_at(data, pos + 4 + 4 + 4 + 4, spec_i32_to_le_bytes(self.dont_repeat_time)));
        assert(encoded_at(data, pos, spec_u32_to_le_bytes(self.trigger_id) + spec_u32_to_le_bytes(self.segment_id) + spec_u32_to_le_bytes(self.sync_play_at)));
        assert(encoded_at(data, pos + 4 + 4 + 4, spec_u32_to_le_bytes(self.cue_filter_hash)));
        assert(encoded_at(data, pos, spec_u32_to_le_bytes(self.trigger_id) + spec_u32_to_le_bytes(self.segment_id)));
        assert(encoded_at(data, pos + 4 + 4, spec_u32_to_le_bytes(self.sync_play_at)));
        assert(encoded_at(data, pos, spec_u32_to_le_bytes(self.trigger_id)));
        assert(encoded_at(data, pos + 4, spec_u32_to_le_bytes(self.segment_id)));
    }
}

/// The layout of a `Stinger` as Wwise writes it, 24 bytes: `trigger_id` (`u32`) at 0,
/// `segment_id` (`u32`) at 4, `sync_play_at` (`u32`) at 8, `cue_filter_hash` (`u32`) at 12,
/// `dont_repeat_time` (`i32`) at 16, `num_segment_look_ahead` (`u32`) at 20.
pub proof fn lemma_stinger_layout(v: Stinger, data: Seq<u8>, pos: int)
    requires
        v.decodes_at(data, pos),
    ensures
        u32_at(data, pos, v.trigger_id),
        u32_at(data, pos + 4, v.segment_id),
        u32_at(data, pos + 8, v.sync_play_at),
        u32_at(data, pos + 12, v.cue_filter_hash),
        i32_at(data, pos + 16, v.dont_repeat_time),
        u32_at(data, pos + 20, v.num_segment_look_ahead),
        v.spec_bytes() == spec_u32_to_le_bytes(v.trigger_id) + spec_u32_to_le_bytes(v.segment_id) + spec_u32_to_le_bytes(v.sync_play_at) + spec_u32_to_le_bytes(v.cue_filter_hash) + spec_i32_to_le_bytes(v.dont_repeat_time) + spec_u32_to_le_bytes(v.num_segment_look_ahead),
{
    assert(v.spec_bytes() =~= spec_u32_to_le_bytes(v.trigger_id) + spec_u32_to_le_bytes(v.segment_id) + spec_u32_to_le_bytes(v.sync_play_at) + spec_u32_to_le_bytes(v.cue_filter_hash) + spec_i32_to_le_bytes(v.dont_repeat_time) + spec_u32_to_le_bytes(v.num_segment_look_ahead));
}
/// The parameters every music node starts with.
#[derive(Debug, Clone)]
pub struct MusicNodeParams {
    pub flags: u8,
    pub node_base_params: NodeBaseParams,
    pub children: Children,
    pub meter_info: MeterInfo,
    pub meter_info_flag: u8,
    pub stingers: Vec<Stinger>,
}

impl MusicNodeParams {
    /// The value can be written and read back.
    pub open spec fn wf(&self) -> bool {
        self.node_base_params.wf() && self.children.wf() && self.meter_info.wf() && self.stingers@.len() <= u32::MAX && all_wf(self.stingers@)
    }

    /// Optional feedback fields are present exactly when the bank has feedback.
    pub open spec fn ctx_ok(&self, has_feedback: bool) -> bool {
        self.node_base_params.ctx_ok(has_feedback)
    }

    /// The bytes the writer produces.
    pub open spec fn spec_bytes(&self) -> Seq<u8> {
        seq![self.flags]
            + self.node_base_params.spec_bytes()
            + self.children.spec_bytes()
            + self.meter_info.spec_bytes()
            + seq![self.meter_info_flag]
            + list_u32_bytes(self.stingers@)
    }

    /// `data` holds, at `pos`, bytes that the reader turns into this value.
    pub open spec fn decodes_at(&self, data: Seq<u8>, pos: int) -> bool {
        &&& u8_at(data, pos, self.flags)
        &&& self.node_base_params.decodes_at(data, pos + 1)
        &&& self.children.decodes_at(data, pos + 1 + self.node_base_params.spec_bytes().len())
        &&& self.meter_info.decodes_at(data, pos + 1 + self.node_base_params.spec_bytes().len() + self.children.spec_bytes().len())
        &&& u8_at(data, pos + 1 + self.node_base_params.spec_bytes().len() + self.children.spec_bytes().len() + self.meter_info.spec_bytes().len(), self.meter_info_flag)
        &&& u32_at(data, pos + 1 + self.node_base_params.spec_bytes().len() + self.children.spec_bytes().len() + self.meter_info.spec_bytes().len() + 1, self.stingers@.len() as u32)
        &&& list_decodes_at(self.stingers@, data, pos + 1 + self.node_base_params.spec_bytes().len() + self.children.spec_bytes().len() + self.meter_info.spec_bytes().len() + 1 + 4)
    }

    /// Read one value; `has_feedback` says whether the bank carries feedback fields.
    pub fn read(r: &mut BinaryReader, has_feedback: bool) -> (res: Result<Self>)
        ensures
            final(r).data() == old(r).data(),
            res matches Ok(v) ==> {
                &&& v.wf()
                &&& v.ctx_ok(has_feedback)
                &&& v.decodes_at(old(r).data(), old(r).pos())
                &&& final(r).pos() == old(r).pos() + v.spec_bytes().len()
            },
            forall|w: Self|
                #[trigger] w.decodes_at(old(r).data(), old(r).pos()) && w.wf() && w.ctx_ok(has_feedback)
                    ==> (res matches Ok(v) && v.spec_bytes() == w.spec_bytes()),
    {
        let flags = r.read_u8()?;
        let node_base_params = NodeBaseParams::read(r, has_feedback)?;
        let children = Children::wire_read(r)?;
        let meter_info = MeterInfo::wire_read(r)?;
        let meter_info_flag = r.read_u8()?;
        let stingers = r.read_list_u32::<Stinger>()?;
        Ok(Self { flags, node_base_params, children, meter_info, meter_info_flag, stingers })
    }

    /// Write this value.
    pub fn write(&self, w: &mut BinaryWriter)
        requires
            self.wf(),
        ensures
            final(w)@ == old(w)@ + self.spec_bytes(),
    {
        w.write_u8(self.flags);
        self.node_base_params.write(w);
        self.children.wire_write(w);
        self.meter_info.wire_write(w);
        w.write_u8(self.meter_info_flag);
        w.write_list_u32(self.stingers.as_slice());
    }

    /// The written bytes are accepted by the reader as this very value.
    #[verifier::spinoff_prover]
    #[verifier::rlimit(50)]
    pub proof fn lemma_canonical(&self, data: Seq<u8>, pos: int)
        requires
            self.wf(),
            encoded_at(data, pos, self.spec_bytes()),
        ensures
            self.decodes_at(data, pos),
    {
        assert(encoded_at(data, pos, seq![self.flags] + self.node_base_params.spec_bytes() + self.children.spec_bytes() + self.meter_info.spec_bytes() + seq![self.meter_info_flag]));
        assert(encoded_at(data, pos + 1 + self.node_base_params.spec_bytes().len() + self.children.spec_bytes().len() + self.meter_info.spec_bytes().len() + 1, list_u32_bytes(self.stingers@)));
        assert(encoded_at(data, pos, seq![self.flags] + self.node_base_params.spec_bytes() + self.children.spec_bytes() + self.meter_info.spec_bytes()));
        assert(encoded_at(data, pos + 1 + self.node_base_params.spec_bytes().len() + self.children.spec_bytes().len() + self.meter_info.spec_bytes().len(), seq![self.meter_info_flag]));
        assert(encoded_at(data, pos, seq![self.flags] + self.node_base_params.spec_bytes() + self.children.spec_bytes()));
        assert(encoded_at(data, pos + 1 + self.node_base_params.spec_bytes().len() + self.children.spec_bytes().len(), self.meter_info.spec_bytes()));
        assert(encoded_at(data, pos, seq![self.flags] + self.node_base_params.spec_bytes()));
        assert(encoded_at(data, pos + 1 + self.node_base_params.spec_bytes().len(), self.children.spec_bytes()));
        assert(encoded_at(data, pos, seq![self.flags]));
        assert(encoded_at(data, pos + 1, self.node_base_params.spec_bytes()));
        self.node_base_params.lemma_canonical(data, pos + 1);
        self.children.lemma_canonical(data, pos + 1 + self.node_base_params.spec_bytes().len());
        self.meter_info.lemma_canonical(data, pos + 1 + self.node_base_params.spec_bytes().len() + self.children.spec_bytes().len());
        lemma_list_canonical(self.stingers@, data, pos + 1 + self.node_base_params.spec_bytes().len() + self.children.spec_bytes().len() + self.meter_info.spec_bytes().len() + 1 + 4);
    }
}

/// A music node's parameters as Wwise lays them out: the flags byte first,
/// then the node's base parameters, its children, the meter information, the
/// meter flag byte and the `u32`-counted stingers.
pub proof fn lemma_music_node_layout(v: MusicNodeParams, data: Seq<u8>, pos: int)
    requires
        v.decodes_at(data, pos),
    ensures
        ({
            let n = v.node_base_params.spec_bytes().len() as int;
            let c = v.children.spec_bytes().len() as int;
            &&& u8_at(data, pos, v.flags)
            &&& v.node_base_params.decodes_at(data, pos + 1)
            &&& v.children.decodes_at(data, pos + 1 + n)
            &&& v.meter_info.decodes_at(data, pos + 1 + n + c)
            &&& u8_at(data, pos + 1 + n + c + v.meter_info.spec_bytes().len(), v.meter_info_flag)
        }),
{
}
/// A fade: duration, curve and offset.
#[derive(Debug, Clone, Copy)]
pub struct MusicFade {
    pub transition_time: i32,
    pub fade_curve: u32,
    pub fade_offset: i32,
}

impl Wire for MusicFade {
    open spec fn wf(&self) -> bool {
        true
    }

    open spec fn spec_bytes(&self) -> Seq<u8> {
        spec_i32_to_le_bytes(self.transition_time)
            + spec_u32_to_le_bytes(self.fade_curve)
            + spec_i32_to_le_bytes(self.fade_offset)
    }

    open spec fn decodes_at(&self, data: Seq<u8>, pos: int) -> bool {
        &&& i32_at(data, pos, self.transition_time)
        &&& u32_at(data, pos + 4, self.fade_curve)
        &&& i32_at(data, pos + 4 + 4, self.fade_offset)
    }

    open spec fn read_error(data: Seq<u8>, pos: int) -> Option<Error> {
        layout_error(data, pos, seq![4, 4, 4])
    }

    fn wire_read(r: &mut BinaryReader) -> (res: Result<Self>) {
        proof {
            reveal_with_fuel(layout_error, 4);
        }
        let transition_time = r.read_i32()?;
        let fade_curve = r.read_u32()?;
        let fade_offset = r.read_i32()?;
        Ok(Self { transition_time, fade_curve, fade_offset })
    }

    fn wire_write(&self, w: &mut BinaryWriter) {
        w.write_i32(self.transition_time);
        w.write_u32(self.fade_curve);
        w.write_i32(self.fade_offset);
    }

    proof fn lemma_canonical(&self, data: Seq<u8>, pos: int) {
    }
}

/// The layout of a `MusicFade` as Wwise writes it, 12 bytes: `transition_time` (`i32`) at 0,
/// `fade_curve` (`u32`) at 4, `fade_offset` (`i32`) at 8.
pub proof fn lemma_music_fade_layout(v: MusicFade, data: Seq<u8>, pos: int)
    requires
        v.decodes_at(data, pos),
    ensures
        i32_at(data, pos, v.transition_time),
        u32_at(data, pos + 4, v.fade_curve),
        i32_at(data, pos + 8, v.fade_offset),
        v.spec_bytes() == spec_i32_to_le_bytes(v.transition_time) + spec_u32_to_le_bytes(v.fade_curve) + spec_i32_to_le_bytes(v.fade_offset),
{
    assert(v.spec_bytes() =~= spec_i32_to_le_bytes(v.transition_time) + spec_u32_to_le_bytes(v.fade_curve) + spec_i32_to_le_bytes(v.fade_offset));
}

impl MusicFade {
    /// Read one value.
    pub fn read(r: &mut BinaryReader) -> (res: Result<Self>)
        ensures
            reads_value(*old(r), *final(r), res),
    {
        Self::wire_read(r)
    }

    /// Write this value.
    pub fn write(&self, w: &mut BinaryWriter)
        requires
            self.wf(),
        ensures
            final(w)@ == old(w)@ + self.spec_bytes(),
    {
        self.wire_write(w)
    }
}
/// A transition segment with its fades.
#[derive(Debug, Clone)]
pub struct MusicTransitionObject {
    pub segment_id: u32,
    pub fade_in: MusicFade,
    pub fade_out: MusicFade,
    pub play_pre_entry: u8,
    pub play_post_exit: u8,
}

impl Wire for MusicTransitionObject {
    open spec fn wf(&self) -> bool {
        self.fade_in.wf() && self.fade_out.wf()
    }

    open spec fn spec_bytes(&self) -> Seq<u8> {
        spec_u32_to_le_bytes(self.segment_id)
            + self.fade_in.spec_bytes()
            + self.fade_out.spec_bytes()
            + seq![self.play_pre_entry]
            + seq![self.play_post_exit]
    }

    open spec fn decodes_at(&self, data: Seq<u8>, pos: int) -> bool {
        &&& u32_at(data, pos, self.segment_id)
        &&& self.fade_in.decodes_at(data, pos + 4)
        &&& self.fade_out.decodes_at(data, pos + 4 + self.fade_in.spec_bytes().len())
        &&& u8_at(data, pos + 4 + self.fade_in.spec_bytes().len() + self.fade_out.spec_bytes().len(), self.play_pre_entry)
        &&& u8_at(data, pos + 4 + self.fade_in.spec_bytes().len() + self.fade_out.spec_bytes().len() + 1, self.play_post_exit)
    }

    fn wire_read(r: &mut BinaryReader) -> (res: Result<Self>) {
        let segment_id = r.read_u32()?;
        let fade_in = MusicFade::wire_read(r)?;
        let fade_out = MusicFade::wire_read(r)?;
        let play_pre_entry = r.read_u8()?;
        let play_post_exit = r.read_u8()?;
        Ok(Self { segment_id, fade_in, fade_out, play_pre_entry, play_post_exit })
    }

    fn wire_write(&self, w: &mut BinaryWriter) {
        w.write_u32(self.segment_id);
        self.fade_in.wire_write(w);
        self.fade_out.wire_write(w);
        w.write_u8(self.play_pre_entry);
        w.write_u8(self.play_post_exit);
    }

    proof fn lemma_canonical(&self, data: Seq<u8>, pos: int) {
        assert(encoded_at(data, pos, spec_u32_to_le_bytes(self.segment_id) + self.fade_in.spec_bytes() + self.fade_out.spec_bytes() + seq![self.play_pre_entry]));
        assert(encoded_at(data, pos + 4 + self.fade_in.spec_bytes().len() + self.fade_out.spec_bytes().len() + 1, seq![self.play_post_exit]));
        assert(encoded_at(data, pos, spec_u32_to_le_bytes(self.segment_id) + self.fade_in.spec_bytes() + self.fade_out.spec_bytes()));
        assert(encoded_at(data, pos + 4 + self.fade_in.spec_bytes().len() + self.fade_out.spec_bytes().len(), seq![self.play_pre_entry]));
        assert(encoded_at(data, pos, spec_u32_to_le_bytes(self.segment_id) + self.fade_in.spec_bytes()));
        assert(encoded_at(data, pos + 4 + self.fade_in.spec_bytes().len(), self.fade_out.spec_bytes()));
        assert(encoded_at(data, pos, spec_u32_to_le_bytes(self.segment_id)));
        assert(encoded_at(data, pos + 4, self.fade_in.spec_bytes()));
        self.fade_in.lemma_canonical(data, pos + 4);
        self.fade_out.lemma_canonical(data, pos + 4 + self.fade_in.spec_bytes().len());
    }
}

/// A transition object as Wwise lays it out: the segment ID (`u32`), the
/// fade-in and fade-out (12 bytes each), then the play-pre-entry and
/// play-post-exit bytes.
pub proof fn lemma_transition_object_layout(v: MusicTransitionObject, data: Seq<u8>, pos: int)
    requires
        v.decodes_at(data, pos),
    ensures
        u32_at(data, pos, v.segment_id),
        v.fade_in.decodes_at(data, pos + 4),
        v.fade_out.decodes_at(data, pos + 16),
        u8_at(data, pos + 28, v.play_pre_entry),
        u8_at(data, pos + 29, v.play_post_exit),
{
}

impl MusicTransitionObject {
    /// Read one value.
    pub fn read(r: &mut BinaryReader) -> (res: Result<Self>)
        ensures
            reads_value(*old(r), *final(r), res),
    {
        Self::wire_read(r)
    }

    /// Write this value.
    pub fn write(&self, w: &mut BinaryWriter)
        requires
            self.wf(),
        ensures
            final(w)@ == old(w)@ + self.spec_bytes(),
    {
        self.wire_write(w)
    }
}
/// How a transition leaves its source.
#[derive(Debug, Clone)]
pub struct MusicTransSrcRule {
    pub transition_time: i32,
    pub fade_curve: u32,
    pub fade_offset: i32,
    pub sync_type: u32,
    pub cue_filter_hash: u32,
    pub play_post_exit: u8,
}

impl Wire for MusicTransSrcRule {
    open spec fn wf(&self) -> bool {
        true
    }

    open spec fn spec_bytes(&self) -> Seq<u8> {
        spec_i32_to_le_bytes(self.transition_time)
            + spec_u32_to_le_bytes(self.fade_curve)
            + spec_i32_to_le_bytes(self.fade_offset)
            + spec_u32_to_le_bytes(self.sync_type)
            + spec_u32_to_le_bytes(self.cue_filter_hash)
            + seq![self.play_post_exit]
    }

    open spec fn decodes_at(&self, data: Seq<u8>, pos: int) -> bool {
        &&& i32_at(data, pos, self.transition_time)
        &&& u32_at(data, pos + 4, self.fade_curve)
        &&& i32_at(data, pos + 4 + 4, self.fade_offset)
        &&& u32_at(data, pos + 4 + 4 + 4, self.sync_type)
        &&& u32_at(data, pos + 4 + 4 + 4 + 4, self.cue_filter_hash)
        &&& u8_at(data, pos + 4 + 4 + 4 + 4 + 4, self.play_post_exit)
    }

    open spec fn read_error(data: Seq<u8>, pos: int) -> Option<Error> {
        layout_error(data, pos, seq![4, 4, 4, 4, 4, 1])
    }

    fn wire_read(r: &mut BinaryReader) -> (res: Result<Self>) {
        proof {
            reveal_with_fuel(layout_error, 7);
        }
        let transition_time = r.read_i32()?;
        let fade_curve = r.read_u32()?;
        let fade_offset = r.read_i32()?;
        let sync_type = r.read_u32()?;
        let cue_filter_hash = r.read_u32()?;
        let play_post_exit = r.read_u8()?;
        Ok(Self { transition_time, fade_curve, fade_offset, sync_type, cue_filter_hash, play_post_exit })
    }

    fn wire_write(&self, w: &mut BinaryWriter) {
        w.write_i32(self.transition_time);
        w.write_u32(self.fade_curve);
        w.write_i32(self.fade_offset);
        w.write_u32(self.sync_type);
        w.write_u32(self.cue_filter_hash);
        w.write_u8(self.play_post_exit);
    }

    proof fn lemma_canonical(&self, data: Seq<u8>, pos: int) {
        assert(encoded_at(data, pos, spec_i32_to_le_bytes(self.transition_time) + spec_u32_to_le_bytes(self.fade_curve) + spec_i32_to_le_bytes(self.fade_offset) + spec_u32_to_le_bytes(self.sync_type) + spec_u32_to_le_bytes(self.cue_filter_hash)));
        assert(encoded_at(data, pos + 4 + 4 + 4 + 4 + 4, seq![self.play_post_exit]));
        assert(encoded_at(data, pos, spec_i32_to_le_bytes(self.transition_time) + spec_u32_to_le_bytes(self.fade_curve) + spec_i32_to_le_bytes(self.fade_offset) + spec_u32_to_le_bytes(self.sync_type)));
        assert(encoded_at(data, pos + 4 + 4 + 4 + 4, spec_u32_to_le_bytes(self.cue_filter_hash)));
        assert(encoded_at(data, pos, spec_i32_to_le_bytes(self.transition_time) + spec_u32_to_le_bytes(self.fade_curve) + spec_i32_to_le_bytes(self.fade_offset)));
        assert(encoded_at(data, pos + 4 + 4 + 4, spec_u32_to_le_bytes(self.sync_type)));
        assert(encoded_at(data, pos, spec_i32_to_le_bytes(self.transition_time) + spec_u32_to_le_bytes(self.fade_curve)));
        assert(encoded_at(data, pos + 4 + 4, spec_i32_to_le_bytes(self.fade_offset)));
        assert(encoded_at(data, pos, spec_i32_to_le_bytes(self.transition_time)));
        assert(encoded_at(data, pos + 4, spec_u32_to_le_bytes(self.fade_curve)));
    }
}

/// The layout of a `MusicTransSrcRule` as Wwise writes it, 21 bytes: `transition_time` (`i32`)
/// at 0, `fade_curve` (`u32`) at 4, `fade_offset` (`i32`) at 8, `sync_type` (`u32`) at 12,
/// `cue_filter_hash` (`u32`) at 16, `play_post_exit` (byte) at 20.
pub proof fn lemma_music_trans_src_rule_layout(v: MusicTransSrcRule, data: Seq<u8>, pos: int)
    requires
        v.decodes_at(data, pos),
    ensures
        i32_at(data, pos, v.transition_time),
        u32_at(data, pos + 4, v.fade_curve),
        i32_at(data, pos + 8, v.fade_offset),
        u32_at(data, pos + 12, v.sync_type),
        u32_at(data, pos + 16, v.cue_filter_hash),
        u8_at(data, pos + 20, v.play_post_exit),
        v.spec_bytes() == spec_i32_to_le_bytes(v.transition_time) + spec_u32_to_le_bytes(v.fade_curve) + spec_i32_to_le_bytes(v.fade_offset) + spec_u32_to_le_bytes(v.sync_type) + spec_u32_to_le_bytes(v.cue_filter_hash) + seq![v.play_post_exit],
{
    assert(v.spec_bytes() =~= spec_i32_to_le_bytes(v.transition_time) + spec_u32_to_le_bytes(v.fade_curve) + spec_i32_to_le_bytes(v.fade_offset) + spec_u32_to_le_bytes(v.sync_type) + spec_u32_to_le_bytes(v.cue_filter_hash) + seq![v.play_post_exit]);
}
/// How a transition enters its destination.
#[derive(Debug, Clone)]
pub struct MusicTransDstRule {
    pub transition_time: i32,
    pub fade_curve: u32,
    pub fade_offset: i32,
    pub cue_filter_hash: u32,
    pub jump_to_id: u32,
    pub entry_type: u16,
    pub play_pre_entry: u8,
    pub dest_match_source_cue_name: u8,
}

impl Wire for MusicTransDstRule {
    open spec fn wf(&self) -> bool {
        true
    }

    open spec fn spec_bytes(&self) -> Seq<u8> {
        spec_i32_to_le_bytes(self.transition_time)
            + spec_u32_to_le_bytes(self.fade_curve)
            + spec_i32_to_le_bytes(self.fade_offset)
            + spec_u32_to_le_bytes(self.cue_filter_hash)
            + spec_u32_to_le_bytes(self.jump_to_id)
            + spec_u16_to_le_bytes(self.entry_type)
            + seq![self.play_pre_entry]
            + seq![self.dest_match_source_cue_name]
    }

    open spec fn decodes_at(&self, data: Seq<u8>, pos: int) -> bool {
        &&& i32_at(data, pos, self.transition_time)
        &&& u32_at(data, pos + 4, self.fade_curve)
        &&& i32_at(data, pos + 4 + 4, self.fade_offset)
        &&& u32_at(data, pos + 4 + 4 + 4, self.cue_filter_hash)
        &&& u32_at(data, pos + 4 + 4 + 4 + 4, self.jump_to_id)
        &&& u16_at(data, pos + 4 + 4 + 4 + 4 + 4, self.entry_type)
        &&& u8_at(data, pos + 4 + 4 + 4 + 4 + 4 + 2, self.play_pre_entry)
        &&& u8_at(data, pos + 4 + 4 + 4 + 4 + 4 + 2 + 1, self.dest_match_source_cue_name)
    }

    open spec fn read_error(data: Seq<u8>, pos: int) -> Option<Error> {
        layout_error(data, pos, seq![4, 4, 4, 4, 4, 2, 1, 1])
    }

    fn wire_read(r: &mut BinaryReader) -> (res: Result<Self>) {
        proof {
            reveal_with_fuel(layout_error, 9);
        }
        let transition_time = r.read_i32()?;
        let fade_curve = r.read_u32()?;
        let fade_offset = r.read_i32()?;
        let cue_filter_hash = r.read_u32()?;
        let jump_to_id = r.read_u32()?;
        let entry_type = r.read_u16()?;
        let play_pre_entry = r.read_u8()?;
        let dest_match_source_cue_name = r.read_u8()?;
        Ok(Self { transition_time, fade_curve, fade_offset, cue_filter_hash, jump_to_id, entry_type, play_pre_entry, dest_match_source_cue_name })
    }

    fn wire_write(&self, w: &mut BinaryWriter) {
        w.write_i32(self.transition_time);
        w.write_u32(self.fade_curve);
        w.write_i32(self.fade_offset);
        w.write_u32(self.cue_filter_hash);
        w.write_u32(self.jump_to_id);
        w.write_u16(self.entry_type);
        w.write_u8(self.play_pre_entry);
        w.write_u8(self.dest_match_source_cue_name);
    }

    proof fn lemma_canonical(&self, data: Seq<u8>, pos: int) {
        assert(encoded_at(data, pos, spec_i32_to_le_bytes(self.transition_time) + spec_u32_to_le_bytes(self.fade_curve) + spec_i32_to_le_bytes(self.fade_offset) + spec_u32_to_le_bytes(self.cue_filter_hash) + spec_u32_to_le_bytes(self.jump_to_id) + spec_u16_to_le_bytes(self.entry_type) + seq![self.play_pre_entry]));
        assert(encoded_at(data, pos + 4 + 4 + 4 + 4 + 4 + 2 + 1, seq![self.dest_match_source_cue_name]));
        assert(encoded_at(data, pos, spec_i32_to_le_bytes(self.transition_time) + spec_u32_to_le_bytes(self.fade_curve) + spec_i32_to_le_bytes(self.fade_offset) + spec_u32_to_le_bytes(self.cue_filter_hash) + spec_u32_to_le_bytes(self.jump_to_id) + spec_u16_to_le_bytes(self.entry_type)));
        assert(encoded_at(data, pos + 4 + 4 + 4 + 4 + 4 + 2, seq![self.play_pre_entry]));
        assert(encoded_at(data, pos, spec_i32_to_le_bytes(self.transition_time) + spec_u32_to_le_bytes(self.fade_curve) + spec_i32_to_le_bytes(self.fade_offset) + spec_u32_to_le_bytes(self.cue_filter_hash) + spec_u32_to_le_bytes(self.jump_to_id)));
        assert(encoded_at(data, pos + 4 + 4 + 4 + 4 + 4, spec_u16_to_le_bytes(self.entry_type)));
        assert(encoded_at(data, pos, spec_i32_to_le_bytes(self.transition_time) + spec_u32_to_le_bytes(self.fade_curve) + spec_i32_to_le_bytes(self.fade_offset) + spec_u32_to_le_bytes(self.cue_filter_hash)));
        assert(encoded_at(data, pos + 4 + 4 + 4 + 4, spec_u32_to_le_bytes(self.jump_to_id)));
        assert(encoded_at(data, pos, spec_i32_to_le_bytes(self.transition_time) + spec_u32_to_le_bytes(self.fade_curve) + spec_i32_to_le_bytes(self.fade_offset)));
        assert(encoded_at(data, pos + 4 + 4 + 4, spec_u32_to_le_bytes(self.cue_filter_hash)));
        assert(encoded_at(data, pos, spec_i32_to_le_bytes(self.transition_time) + spec_u32_to_le_bytes(self.fade_curve)));
        assert(encoded_at(data, pos + 4 + 4, spec_i32_to_le_bytes(self.fade_offset)));
        assert(encoded_at(data, pos, spec_i32_to_le_bytes(self.transition_time)));
        assert(encoded_at(data, pos + 4, spec_u32_to_le_bytes(self.fade_curve)));
    }
}

/// The layout of a `MusicTransDstRule` as Wwise writes it, 24 bytes: `transition_time` (`i32`)
/// at 0, `fade_curve` (`u32`) at 4, `fade_offset` (`i32`) at 8, `cue_filter_hash` (`u32`) at
/// 12, `jump_to_id` (`u32`) at 16, `entry_type` (`u16`) at 20, `play_pre_entry` (byte) at 22,
/// `dest_match_source_cue_name` (byte) at 23.
pub proof fn lemma_music_trans_dst_rule_layout(v: MusicTransDstRule, data: Seq<u8>, pos: int)
    requires
        v.decodes_at(data, pos),
    ensures
        i32_at(data, pos, v.transition_time),
        u32_at(data, pos + 4, v.fade_curve),
        i32_at(data, pos + 8, v.fade_offset),
        u32_at(data, pos + 12, v.cue_filter_hash),
        u32_at(data, pos + 16, v.jump_to_id),
        u16_at(data, pos + 20, v.entry_type),
        u8_at(data, pos + 22, v.play_pre_entry),
        u8_at(data, pos + 23, v.dest_match_source_cue_name),
        v.spec_bytes() == spec_i32_to_le_bytes(v.transition_time) + spec_u32_to_le_bytes(v.fade_curve) + spec_i32_to_le_bytes(v.fade_offset) + spec_u32_to_le_bytes(v.cue_filter_hash) + spec_u32_to_le_bytes(v.jump_to_id) + spec_u16_to_le_bytes(v.entry_type) + seq![v.play_pre_entry] + seq![v.dest_match_source_cue_name],
{
    assert(v.spec_bytes() =~= spec_i32_to_le_bytes(v.transition_time) + spec_u32_to_le_bytes(v.fade_curve) + spec_i32_to_le_bytes(v.fade_offset) + spec_u32_to_le_bytes(v.cue_filter_hash) + spec_u32_to_le_bytes(v.jump_to_id) + spec_u16_to_le_bytes(v.entry_type) + seq![v.play_pre_entry] + seq![v.dest_match_source_cue_name]);
}
/// A transition rule between music nodes; the transition object is present
/// exactly when its flag is non-zero.
#[derive(Debug, Clone)]
pub struct MusicTransitionRule {
    pub src_ids: Vec<u32>,
    pub dst_ids: Vec<u32>,
    pub src_rule: MusicTransSrcRule,
    pub dst_rule: MusicTransDstRule,
    pub alloc_trans_object_flag: u8,
    pub trans_object: Option<MusicTransitionObject>,
}

impl Wire for MusicTransitionRule {
    open spec fn wf(&self) -> bool {
        &&& self.src_ids@.len() <= u32::MAX
        &&& self.dst_ids@.len() <= u32::MAX
        &&& (self.trans_object is Some) == (self.alloc_trans_object_flag != 0)
    }

    open spec fn spec_bytes(&self) -> Seq<u8> {
        list_u32_bytes(self.src_ids@) + list_u32_bytes(self.dst_ids@) + self.src_rule.spec_bytes()
            + self.dst_rule.spec_bytes() + seq![self.alloc_trans_object_flag] + match self.trans_object {
            Some(t) => t.spec_bytes(),
            None => Seq::empty(),
        }
    }

    open spec fn decodes_at(&self, data: Seq<u8>, pos: int) -> bool {
        let p1 = pos + list_u32_bytes(self.src_ids@).len();
        let p2 = p1 + list_u32_bytes(self.dst_ids@).len();
        let p3 = p2 + self.src_rule.spec_bytes().len();
        let p4 = p3 + self.dst_rule.spec_bytes().len();
        &&& u32_at(data, pos, self.src_ids@.len() as u32)
        &&& list_decodes_at(self.src_ids@, data, pos + 4)
        &&& u32_at(data, p1, self.dst_ids@.len() as u32)
        &&& list_decodes_at(self.dst_ids@, data, p1 + 4)
        &&& self.src_rule.decodes_at(data, p2)
        &&& self.dst_rule.decodes_at(data, p3)
        &&& u8_at(data, p4, self.alloc_trans_object_flag)
        &&& self.trans_object matches Some(t) ==> t.decodes_at(data, p4 + 1)
    }

    fn wire_read(r: &mut BinaryReader) -> (res: Result<Self>) {
        let src_ids = r.read_list_u32::<u32>()?;
        let dst_ids = r.read_list_u32::<u32>()?;
        let src_rule = MusicTransSrcRule::wire_read(r)?;
        let dst_rule = MusicTransDstRule::wire_read(r)?;
        let flag = r.read_u8()?;
        let trans_object = if flag != 0 {
            Some(MusicTransitionObject::wire_read(r)?)
        } else {
            None
        };
        Ok(Self { src_ids, dst_ids, src_rule, dst_rule, alloc_trans_object_flag: flag, trans_object })
    }

    fn wire_write(&self, w: &mut BinaryWriter) {
        self.write_fields(w)
    }

    proof fn lemma_canonical(&self, data: Seq<u8>, pos: int) {
        let p1 = pos + list_u32_bytes(self.src_ids@).len();
        let p2 = p1 + list_u32_bytes(self.dst_ids@).len();
        let p3 = p2 + self.src_rule.spec_bytes().len();
        let p4 = p3 + self.dst_rule.spec_bytes().len();
        let a = list_u32_bytes(self.src_ids@);
        let b = list_u32_bytes(self.dst_ids@);
        let c = self.src_rule.spec_bytes();
        let d = self.dst_rule.spec_bytes();
        let e = seq![self.alloc_trans_object_flag];
        assert(encoded_at(data, pos, a + b + c + d + e));
        assert(encoded_at(data, pos, a + b + c + d));
        assert(encoded_at(data, pos, a + b + c));
        assert(encoded_at(data, pos, a + b));
        lemma_list_canonical(self.src_ids@, data, pos + 4);
        lemma_list_canonical(self.dst_ids@, data, p1 + 4);
        self.src_rule.lemma_canonical(data, p2);
        self.dst_rule.lemma_canonical(data, p3);
        if let Some(t) = self.trans_object {
            t.lemma_canonical(data, p4 + 1);
        }
    }
}

/// Whatever reads back from the bytes written for a transition rule holds
/// the same source and destination IDs, the same source and destination
/// rules, the same flag byte and the same transition object (with both
/// fades), and spans the same bytes.
#[verifier::spinoff_prover]
#[verifier::rlimit(50)]
pub proof fn lemma_transition_rule_round_trip(x: MusicTransitionRule, y: MusicTransitionRule)
    requires
        x.wf(),
        y.wf(),
        y.decodes_at(x.spec_bytes(), 0),
    ensures
        y.src_ids@ == x.src_ids@,
        y.dst_ids@ == x.dst_ids@,
        y.src_rule == x.src_rule,
        y.dst_rule == x.dst_rule,
        y.alloc_trans_object_flag == x.alloc_trans_object_flag,
        y.trans_object == x.trans_object,
        y.spec_bytes().len() == x.spec_bytes().len(),
{
    let d = x.spec_bytes();
    assert(encoded_at(d, 0, d)) by {
        assert(d.subrange(0, d.len() as int) =~= d);
    }
    x.lemma_canonical(d, 0);
    assert(y.src_ids@.len() == x.src_ids@.len());
    lemma_u32_list_unique(y.src_ids@, x.src_ids@, d, 4);
    let p1 = list_u32_bytes(x.src_ids@).len() as int;
    assert(y.dst_ids@.len() == x.dst_ids@.len());
    lemma_u32_list_unique(y.dst_ids@, x.dst_ids@, d, p1 + 4);
}

proof fn lemma_fade_rewrite(x: MusicFade, data: Seq<u8>, pos: int)
    requires
        x.decodes_at(data, pos),
    ensures
        encoded_at(data, pos, x.spec_bytes()),
{
    let a = spec_i32_to_le_bytes(x.transition_time);
    let b = spec_u32_to_le_bytes(x.fade_curve);
    let c = spec_i32_to_le_bytes(x.fade_offset);
    lemma_i32_rewrite(data, pos, x.transition_time);
    lemma_u32_rewrite(data, pos + 4, x.fade_curve);
    lemma_i32_rewrite(data, pos + 4 + 4, x.fade_offset);
    assert(encoded_at(data, pos, a + b));
    assert(encoded_at(data, pos, a + b + c));
}

proof fn lemma_trans_object_rewrite(x: MusicTransitionObject, data: Seq<u8>, pos: int)
    requires
        x.decodes_at(data, pos),
    ensures
        encoded_at(data, pos, x.spec_bytes()),
{
    let a = spec_u32_to_le_bytes(x.segment_id);
    let b = x.fade_in.spec_bytes();
    let c = x.fade_out.spec_bytes();
    let q = pos + 4 + b.len() + c.len();
    lemma_u32_rewrite(data, pos, x.segment_id);
    lemma_fade_rewrite(x.fade_in, data, pos + 4);
    lemma_fade_rewrite(x.fade_out, data, pos + 4 + b.len());
    lemma_u8_rewrite(data, q, x.play_pre_entry);
    lemma_u8_rewrite(data, q + 1, x.play_post_exit);
    assert(encoded_at(data, pos, a + b));
    assert(encoded_at(data, pos, a + b + c));
    assert(encoded_at(data, pos, a + b + c + seq![x.play_pre_entry]));
    assert(encoded_at(data, pos, a + b + c + seq![x.play_pre_entry] + seq![x.play_post_exit]));
}

proof fn lemma_src_rule_rewrite(x: MusicTransSrcRule, data: Seq<u8>, pos: int)
    requires
        x.decodes_at(data, pos),
    ensures
        encoded_at(data, pos, x.spec_bytes()),
{
    let a = spec_i32_to_le_bytes(x.transition_time);
    let b = spec_u32_to_le_bytes(x.fade_curve);
    let c = spec_i32_to_le_bytes(x.fade_offset);
    let d = spec_u32_to_le_bytes(x.sync_type);
    let e = spec_u32_to_le_bytes(x.cue_filter_hash);
    lemma_i32_rewrite(data, pos, x.transition_time);
    lemma_u32_rewrite(data, pos + 4, x.fade_curve);
    lemma_i32_rewrite(data, pos + 8, x.fade_offset);
    lemma_u32_rewrite(data, pos + 12, x.sync_type);
    lemma_u32_rewrite(data, pos + 16, x.cue_filter_hash);
    lemma_u8_rewrite(data, pos + 20, x.play_post_exit);
    assert(encoded_at(data, pos, a + b));
    assert(encoded_at(data, pos, a + b + c));
    assert(encoded_at(data, pos, a + b + c + d));
    assert(encoded_at(data, pos, a + b + c + d + e));
    assert(encoded_at(data, pos, a + b + c + d + e + seq![x.play_post_exit]));
}

proof fn lemma_dst_rule_rewrite(x: MusicTransDstRule, data: Seq<u8>, pos: int)
    requires
        x.decodes_at(data, pos),
    ensures
        encoded_at(data, pos, x.spec_bytes()),
{
    let a = spec_i32_to_le_bytes(x.transition_time);
    let b = spec_u32_to_le_bytes(x.fade_curve);
    let c = spec_i32_to_le_bytes(x.fade_offset);
    let d = spec_u32_to_le_bytes(x.cue_filter_hash);
    let e = spec_u32_to_le_bytes(x.jump_to_id);
    let f = spec_u16_to_le_bytes(x.entry_type);
    lemma_i32_rewrite(data, pos, x.transition_time);
    lemma_u32_rewrite(data, pos + 4, x.fade_curve);
    lemma_i32_rewrite(data, pos + 8, x.fade_offset);
    lemma_u32_rewrite(data, pos + 12, x.cue_filter_hash);
    lemma_u32_rewrite(data, pos + 16, x.jump_to_id);
    lemma_u16_rewrite(data, pos + 20, x.entry_type);
    lemma_u8_rewrite(data, pos + 22, x.play_pre_entry);
    lemma_u8_rewrite(data, pos + 23, x.dest_match_source_cue_name);
    assert(encoded_at(data, pos, a + b));
    assert(encoded_at(data, pos, a + b + c));
    assert(encoded_at(data, pos, a + b + c + d));
    assert(encoded_at(data, pos, a + b + c + d + e));
    assert(encoded_at(data, pos, a + b + c + d + e + f));
    assert(encoded_at(data, pos, a + b + c + d + e + f + seq![x.play_pre_entry]));
    assert(encoded_at(data, pos, a + b + c + d + e + f + seq![x.play_pre_entry] + seq![x.dest_match_source_cue_name]));
}

/// Writing back a transition rule that was read gives the very bytes it
/// was read from: the flag byte is written as it was read, and the
/// transition object exactly when it was there.
#[verifier::spinoff_prover]
#[verifier::rlimit(50)]
pub proof fn lemma_transition_rule_rewrite(x: MusicTransitionRule, data: Seq<u8>, pos: int)
    requires
        x.wf(),
        x.decodes_at(data, pos),
    ensures
        encoded_at(data, pos, x.spec_bytes()),
{
    let a = list_u32_bytes(x.src_ids@);
    let b = list_u32_bytes(x.dst_ids@);
    let c = x.src_rule.spec_bytes();
    let d = x.dst_rule.spec_bytes();
    let e = seq![x.alloc_trans_object_flag];
    let p1 = pos + a.len();
    let p2 = p1 + b.len();
    let p3 = p2 + c.len();
    let p4 = p3 + d.len();
    lemma_u32_list_rewrite(x.src_ids@, data, pos);
    lemma_u32_list_rewrite(x.dst_ids@, data, p1);
    lemma_src_rule_rewrite(x.src_rule, data, p2);
    lemma_dst_rule_rewrite(x.dst_rule, data, p3);
    lemma_u8_rewrite(data, p4, x.alloc_trans_object_flag);
    assert(encoded_at(data, pos, a + b));
    assert(encoded_at(data, pos, a + b + c));
    assert(encoded_at(data, pos, a + b + c + d));
    assert(encoded_at(data, pos, a + b + c + d + e));
    match x.trans_object {
        Some(t) => {
            lemma_trans_object_rewrite(t, data, p4 + 1);
            assert(encoded_at(data, pos, a + b + c + d + e + t.spec_bytes()));
        },
        None => {
            assert(a + b + c + d + e + Seq::<u8>::empty() =~= a + b + c + d + e);
        },
    }
}

impl MusicTransitionRule {
    /// Read one value.
    pub fn read(r: &mut BinaryReader) -> (res: Result<Self>)
        ensures
            reads_value(*old(r), *final(r), res),
    {
        Self::wire_read(r)
    }

    fn write_fields(&self, w: &mut BinaryWriter)
        requires
            self.src_ids@.len() <= u32::MAX && self.dst_ids@.len() <= u32::MAX && self.src_rule.wf()
                && self.dst_rule.wf() && (self.trans_object matches Some(t) ==> t.wf()),
        ensures
            final(w)@ == old(w)@ + self.spec_bytes(),
    {
        w.write_list_u32(self.src_ids.as_slice());
        w.write_list_u32(self.dst_ids.as_slice());
        self.src_rule.wire_write(w);
        self.dst_rule.wire_write(w);
        w.write_u8(self.alloc_trans_object_flag);
        if let Some(obj) = &self.trans_object {
            obj.wire_write(w);
        }
    }

    /// Write this value: the flag byte as it is, then the transition object when present.
    pub fn write(&self, w: &mut BinaryWriter)
        requires
            self.src_ids@.len() <= u32::MAX && self.dst_ids@.len() <= u32::MAX && self.src_rule.wf()
                && self.dst_rule.wf() && (self.trans_object matches Some(t) ==> t.wf()),
        ensures
            final(w)@ == old(w)@ + self.spec_bytes(),
    {
        self.write_fields(w)
    }
}

/// A music node with its transition rules.
#[derive(Debug, Clone)]
pub struct MusicTransNodeParams {
    pub music_node_params: MusicNodeParams,
    pub rules: Vec<MusicTransitionRule>,
}

impl MusicTransNodeParams {
    /// The value can be written and read back.
    pub open spec fn wf(&self) -> bool {
        self.music_node_params.wf() && self.rules@.len() <= u32::MAX && all_wf(self.rules@)
    }

    /// Optional feedback fields are present exactly when the bank has feedback.
    pub open spec fn ctx_ok(&self, has_feedback: bool) -> bool {
        self.music_node_params.ctx_ok(has_feedback)
    }

    /// The bytes the writer produces.
    pub open spec fn spec_bytes(&self) -> Seq<u8> {
        self.music_node_params.spec_bytes()
            + list_u32_bytes(self.rules@)
    }

    /// `data` holds, at `pos`, bytes that the reader turns into this value.
    pub open spec fn decodes_at(&self, data: Seq<u8>, pos: int) -> bool {
        &&& self.music_node_params.decodes_at(data, pos)
        &&& u32_at(data, pos + self.music_node_params.spec_bytes().len(), self.rules@.len() as u32)
        &&& list_decodes_at(self.rules@, data, pos + self.music_node_params.spec_bytes().len() + 4)
    }

    /// Read one value; `has_feedback` says whether the bank carries feedback fields.
    pub fn read(r: &mut BinaryReader, has_feedback: bool) -> (res: Result<Self>)
        ensures
            final(r).data() == old(r).data(),
            res matches Ok(v) ==> {
                &&& v.wf()
                &&& v.ctx_ok(has_feedback)
                &&& v.decodes_at(old(r).data(), old(r).pos())
                &&& final(r).pos() == old(r).pos() + v.spec_bytes().len()
            },
            forall|w: Self|
                #[trigger] w.decodes_at(old(r).data(), old(r).pos()) && w.wf() && w.ctx_ok(has_feedback)
                    ==> (res matches Ok(v) && v.spec_bytes() == w.spec_bytes()),
    {
        let music_node_params = MusicNodeParams::read(r, has_feedback)?;
        let rules = r.read_list_u32::<MusicTransitionRule>()?;
        Ok(Self { music_node_params, rules })
    }

    /// Write this value.
    pub fn write(&self, w: &mut BinaryWriter)
        requires
            self.wf(),
        ensures
            final(w)@ == old(w)@ + self.spec_bytes(),
    {
        self.music_node_params.write(w);
        w.write_list_u32(self.rules.as_slice());
    }

    /// The written bytes are accepted by the reader as this very value.
    #[verifier::spinoff_prover]
    #[verifier::rlimit(50)]
    pub proof fn lemma_canonical(&self, data: Seq<u8>, pos: int)
        requires
            self.wf(),
            encoded_at(data, pos, self.spec_bytes()),
        ensures
            self.decodes_at(data, pos),
    {
        self.music_node_params.lemma_canonical(data, pos);
        lemma_list_canonical(self.rules@, data, pos + self.music_node_params.spec_bytes().len() + 4);
    }
}
/// Where a source plays within a music track.
#[derive(Debug, Clone)]
pub struct TrackSrcInfo {
    pub track_id: u32,
    pub source_id: u32,
    /// IEEE-754 bits of an `f64`.
    pub play_at: u64,
    /// IEEE-754 bits of an `f64`.
    pub begin_trim_offset: u64,
    /// IEEE-754 bits of an `f64`.
    pub end_trim_offset: u64,
    /// IEEE-754 bits of an `f64`.
    pub src_duration: u64,
}

impl Wire for TrackSrcInfo {
    open spec fn wf(&self) -> bool {
        true
    }

    open spec fn spec_bytes(&self) -> Seq<u8> {
        spec_u32_to_le_bytes(self.track_id)
            + spec_u32_to_le_bytes(self.source_id)
            + spec_u64_to_le_bytes(self.play_at)
            + spec_u64_to_le_bytes(self.begin_trim_offset)
            + spec_u64_to_le_bytes(self.end_trim_offset)
            + spec_u64_to_le_bytes(self.src_duration)
    }

    open spec fn decodes_at(&self, data: Seq<u8>, pos: int) -> bool {
        &&& u32_at(data, pos, self.track_id)
        &&& u32_at(data, pos + 4, self.source_id)
        &&& u64_at(data, pos + 4 + 4, self.play_at)
        &&& u64_at(data, pos + 4 + 4 + 8, self.begin_trim_offset)
        &&& u64_at(data, pos + 4 + 4 + 8 + 8, self.end_trim_offset)
        &&& u64_at(data, pos + 4 + 4 + 8 + 8 + 8, self.src_duration)
    }

    open spec fn read_error(data: Seq<u8>, pos: int) -> Option<Error> {
        layout_error(data, pos, seq![4, 4, 8, 8, 8, 8])
    }

    fn wire_read(r: &mut BinaryReader) -> (res: Result<Self>) {
        proof {
            reveal_with_fuel(layout_error, 7);
        }
        let track_id = r.read_u32()?;
        let source_id = r.read_u32()?;
        let play_at = r.read_u64()?;
        let begin_trim_offset = r.read_u64()?;
        let end_trim_offset = r.read_u64()?;
        let src_duration = r.read_u64()?;
        Ok(Self { track_id, source_id, play_at, begin_trim_offset, end_trim_offset, src_duration })
    }

    fn wire_write(&self, w: &mut BinaryWriter) {
        w.write_u32(self.track_id);
        w.write_u32(self.source_id);
        w.write_u64(self.play_at);
        w.write_u64(self.begin_trim_offset);
        w.write_u64(self.end_trim_offset);
        w.write_u64(self.src_duration);
    }

    proof fn lemma_canonical(&self, data: Seq<u8>, pos: int) {
        assert(encoded_at(data, pos, spec_u32_to_le_bytes(self.track_id) + spec_u32_to_le_bytes(self.source_id) + spec_u64_to_le_bytes(self.play_at) + spec_u64_to_le_bytes(self.begin_trim_offset) + spec_u64_to_le_bytes(self.end_trim_offset)));
        assert(encoded_at(data, pos + 4 + 4 + 8 + 8 + 8, spec_u64_to_le_bytes(self.src_duration)));
        assert(encoded_at(data, pos, spec_u32_to_le_bytes(self.track_id) + spec_u32_to_le_bytes(self.source_id) + spec_u64_to_le_bytes(self.play_at) + spec_u64_to_le_bytes(self.begin_trim_offset)));
        assert(encoded_at(data, pos + 4 + 4 + 8 + 8, spec_u64_to_le_bytes(self.end_trim_offset)));
        assert(encoded_at(data, pos, spec_u32_to_le_bytes(self.track_id) + spec_u32_to_le_bytes(self.source_id) + spec_u64_to_le_bytes(self.play_at)));
        assert(encoded_at(data, pos + 4 + 4 + 8, spec_u64_to_le_bytes(self.begin_trim_offset)));
        assert(encoded_at(data, pos, spec_u32_to_le_bytes(self.track_id) + spec_u32_to_le_bytes(self.source_id)));
        assert(encoded_at(data, pos + 4 + 4, spec_u64_to_le_bytes(self.play_at)));
        assert(encoded_at(data, pos, spec_u32_to_le_bytes(self.track_id)));
        assert(encoded_at(data, pos + 4, spec_u32_to_le_bytes(self.source_id)));
    }
}

/// The layout of a `TrackSrcInfo` as Wwise writes it, 40 bytes: `track_id` (`u32`) at 0,
/// `source_id` (`u32`) at 4, `play_at` (`u64`) at 8, `begin_trim_offset` (`u64`) at 16,
/// `end_trim_offset` (`u64`) at 24, `src_duration` (`u64`) at 32.
pub proof fn lemma_track_src_info_layout(v: TrackSrcInfo, data: Seq<u8>, pos: int)
    requires
        v.decodes_at(data, pos),
    ensures
        u32_at(data, pos, v.track_id),
        u32_at(data, pos + 4, v.source_id),
        u64_at(data, pos + 8, v.play_at),
        u64_at(data, pos + 16, v.begin_trim_offset),
        u64_at(data, pos + 24, v.end_trim_offset),
        u64_at(data, pos + 32, v.src_duration),
        v.spec_bytes() == spec_u32_to_le_bytes(v.track_id) + spec_u32_to_le_bytes(v.source_id) + spec_u64_to_le_bytes(v.play_at) + spec_u64_to_le_bytes(v.begin_trim_offset) + spec_u64_to_le_bytes(v.end_trim_offset) + spec_u64_to_le_bytes(v.src_duration),
{
    assert(v.spec_bytes() =~= spec_u32_to_le_bytes(v.track_id) + spec_u32_to_le_bytes(v.source_id) + spec_u64_to_le_bytes(v.play_at) + spec_u64_to_le_bytes(v.begin_trim_offset) + spec_u64_to_le_bytes(v.end_trim_offset) + spec_u64_to_le_bytes(v.src_duration));
}

impl TrackSrcInfo {
    /// Read one value.
    pub fn read(r: &mut BinaryReader) -> (res: Result<Self>)
        ensures
            reads_value(*old(r), *final(r), res),
    {
        Self::wire_read(r)
    }

    /// Write this value.
    pub fn write(&self, w: &mut BinaryWriter)
        requires
            self.wf(),
        ensures
            final(w)@ == old(w)@ + self.spec_bytes(),
    {
        self.wire_write(w)
    }
}
/// An automation curve on a clip.
#[derive(Debug, Clone)]
pub struct ClipAutomation {
    pub clip_index: u32,
    pub auto_type: u32,
    pub graph_points: Vec<RtpcGraphPoint>,
}

impl Wire for ClipAutomation {
    open spec fn wf(&self) -> bool {
        self.graph_points@.len() <= u32::MAX && all_wf(self.graph_points@)
    }

    open spec fn spec_bytes(&self) -> Seq<u8> {
        spec_u32_to_le_bytes(self.clip_index)
            + spec_u32_to_le_bytes(self.auto_type)
            + list_u32_bytes(self.graph_points@)
    }

    open spec fn decodes_at(&self, data: Seq<u8>, pos: int) -> bool {
        &&& u32_at(data, pos, self.clip_index)
        &&& u32_at(data, pos + 4, self.auto_type)
        &&& u32_at(data, pos + 4 + 4, self.graph_points@.len() as u32)
        &&& list_decodes_at(self.graph_points@, data, pos + 4 + 4 + 4)
    }

    fn wire_read(r: &mut BinaryReader) -> (res: Result<Self>) {
        let clip_index = r.read_u32()?;
        let auto_type = r.read_u32()?;
        let graph_points = r.read_list_u32::<RtpcGraphPoint>()?;
        Ok(Self { clip_index, auto_type, graph_points })
    }

    fn wire_write(&self, w: &mut BinaryWriter) {
        w.write_u32(self.clip_index);
        w.write_u32(self.auto_type);
        w.write_list_u32(self.graph_points.as_slice());
    }

    proof fn lemma_canonical(&self, data: Seq<u8>, pos: int) {
        lemma_list_canonical(self.graph_points@, data, pos + 4 + 4 + 4);
    }
}

/// A clip automation as Wwise lays it out: the clip index and automation
/// type (`u32` each), then the `u32` count of graph points at 8 and the points.
pub proof fn lemma_clip_automation_layout(v: ClipAutomation, data: Seq<u8>, pos: int)
    requires
        v.decodes_at(data, pos),
    ensures
        u32_at(data, pos, v.clip_index),
        u32_at(data, pos + 4, v.auto_type),
        u32_at(data, pos + 8, v.graph_points@.len() as u32),
        list_decodes_at(v.graph_points@, data, pos + 12),
{
}

impl ClipAutomation {
    /// Read one value.
    pub fn read(r: &mut BinaryReader) -> (res: Result<Self>)
        ensures
            reads_value(*old(r), *final(r), res),
    {
        Self::wire_read(r)
    }

    /// Write this value.
    pub fn write(&self, w: &mut BinaryWriter)
        requires
            self.wf(),
        ensures
            final(w)@ == old(w)@ + self.spec_bytes(),
    {
        self.wire_write(w)
    }
}
/// The switch group that selects a track's sub-tracks.
#[derive(Debug, Clone)]
pub struct TrackSwitchParams {
    pub group_type: u8,
    pub group_id: u32,
    pub default_switch: u32,
    pub switch_associations: Vec<u32>,
}

impl Wire for TrackSwitchParams {
    open spec fn wf(&self) -> bool {
        self.switch_associations@.len() <= u32::MAX && all_wf(self.switch_associations@)
    }

    open spec fn spec_bytes(&self) -> Seq<u8> {
        seq![self.group_type]
            + spec_u32_to_le_bytes(self.group_id)
            + spec_u32_to_le_bytes(self.default_switch)
            + list_u32_bytes(self.switch_associations@)
    }

    open spec fn decodes_at(&self, data: Seq<u8>, pos: int) -> bool {
        &&& u8_at(data, pos, self.group_type)
        &&& u32_at(data, pos + 1, self.group_id)
        &&& u32_at(data, pos + 1 + 4, self.default_switch)
        &&& u32_at(data, pos + 1 + 4 + 4, self.switch_associations@.len() as u32)
        &&& list_decodes_at(self.switch_associations@, data, pos + 1 + 4 + 4 + 4)
    }

    fn wire_read(r: &mut BinaryReader) -> (res: Result<Self>) {
        let group_type = r.read_u8()?;
        let group_id = r.read_u32()?;
        let default_switch = r.read_u32()?;
        let switch_associations = r.read_list_u32::<u32>()?;
        Ok(Self { group_type, group_id, default_switch, switch_associations })
    }

    fn wire_write(&self, w: &mut BinaryWriter) {
        w.write_u8(self.group_type);
        w.write_u32(self.group_id);
        w.write_u32(self.default_switch);
        w.write_list_u32(self.switch_associations.as_slice());
    }

    proof fn lemma_canonical(&self, data: Seq<u8>, pos: int) {
        assert(encoded_at(data, pos, seq![self.group_type] + spec_u32_to_le_bytes(self.group_id) + spec_u32_to_le_bytes(self.default_switch)));
        assert(encoded_at(data, pos + 1 + 4 + 4, list_u32_bytes(self.switch_associations@)));
        assert(encoded_at(data, pos, seq![self.group_type] + spec_u32_to_le_bytes(self.group_id)));
        assert(encoded_at(data, pos + 1 + 4, spec_u32_to_le_bytes(self.default_switch)));
        assert(encoded_at(data, pos, seq![self.group_type]));
        assert(encoded_at(data, pos + 1, spec_u32_to_le_bytes(self.group_id)));
        lemma_list_canonical(self.switch_associations@, data, pos + 1 + 4 + 4 + 4);
    }
}

/// A track's switch parameters as Wwise lays them out: the group type
/// byte, the group ID (`u32`) at 1, the default switch (`u32`) at 5, then the
/// `u32` count of switch associations at 9 and the associations.
pub proof fn lemma_track_switch_layout(v: TrackSwitchParams, data: Seq<u8>, pos: int)
    requires
        v.decodes_at(data, pos),
    ensures
        u8_at(data, pos, v.group_type),
        u32_at(data, pos + 1, v.group_id),
        u32_at(data, pos + 5, v.default_switch),
        u32_at(data, pos + 9, v.switch_associations@.len() as u32),
        list_decodes_at(v.switch_associations@, data, pos + 13),
{
}

/// Whatever reads back from the bytes written for switch parameters holds
/// the same group type, group ID, default switch and switch associations,
/// and spans the same bytes.
pub proof fn lemma_track_switch_round_trip(x: TrackSwitchParams, y: TrackSwitchParams)
    requires
        x.wf(),
        y.wf(),
        y.decodes_at(x.spec_bytes(), 0),
    ensures
        y.group_type == x.group_type,
        y.group_id == x.group_id,
        y.default_switch == x.default_switch,
        y.switch_associations@ == x.switch_associations@,
        y.spec_bytes().len() == x.spec_bytes().len(),
{
    let d = x.spec_bytes();
    assert(encoded_at(d, 0, d)) by {
        assert(d.subrange(0, d.len() as int) =~= d);
    }
    x.lemma_canonical(d, 0);
    assert(y.switch_associations@.len() == x.switch_associations@.len());
    lemma_u32_list_unique(y.switch_associations@, x.switch_associations@, d, 13);
}

impl TrackSwitchParams {
    /// Read one value.
    pub fn read(r: &mut BinaryReader) -> (res: Result<Self>)
        ensures
            reads_value(*old(r), *final(r), res),
    {
        Self::wire_read(r)
    }

    /// Write this value.
    pub fn write(&self, w: &mut BinaryWriter)
        requires
            self.wf(),
        ensures
            final(w)@ == old(w)@ + self.spec_bytes(),
    {
        self.wire_write(w)
    }
}
/// How a switch track changes sub-track.
#[derive(Debug, Clone)]
pub struct TrackTransParams {
    pub src_fade_params: MusicFade,
    pub sync_type: u32,
    pub cue_filter_hash: u32,
    pub dest_fade_params: MusicFade,
}

impl Wire for TrackTransParams {
    open spec fn wf(&self) -> bool {
        self.src_fade_params.wf() && self.dest_fade_params.wf()
    }

    open spec fn spec_bytes(&self) -> Seq<u8> {
        self.src_fade_params.spec_bytes()
            + spec_u32_to_le_bytes(self.sync_type)
            + spec_u32_to_le_bytes(self.cue_filter_hash)
            + self.dest_fade_params.spec_bytes()
    }

    open spec fn decodes_at(&self, data: Seq<u8>, pos: int) -> bool {
        &&& self.src_fade_params.decodes_at(data, pos)
        &&& u32_at(data, pos + self.src_fade_params.spec_bytes().len(), self.sync_type)
        &&& u32_at(data, pos + self.src_fade_params.spec_bytes().len() + 4, self.cue_filter_hash)
        &&& self.dest_fade_params.decodes_at(data, pos + self.src_fade_params.spec_bytes().len() + 4 + 4)
    }

    fn wire_read(r: &mut BinaryReader) -> (res: Result<Self>) {
        let src_fade_params = MusicFade::wire_read(r)?;
        let sync_type = r.read_u32()?;
        let cue_filter_hash = r.read_u32()?;
        let dest_fade_params = MusicFade::wire_read(r)?;
        Ok(Self { src_fade_params, sync_type, cue_filter_hash, dest_fade_params })
    }

    fn wire_write(&self, w: &mut BinaryWriter) {
        self.src_fade_params.wire_write(w);
        w.write_u32(self.sync_type);
        w.write_u32(self.cue_filter_hash);
        self.dest_fade_params.wire_write(w);
    }

    proof fn lemma_canonical(&self, data: Seq<u8>, pos: int) {
        assert(encoded_at(data, pos, self.src_fade_params.spec_bytes() + spec_u32_to_le_bytes(self.sync_type) + spec_u32_to_le_bytes(self.cue_filter_hash)));
        assert(encoded_at(data, pos + self.src_fade_params.spec_bytes().len() + 4 + 4, self.dest_fade_params.spec_bytes()));
        assert(encoded_at(data, pos, self.src_fade_params.spec_bytes() + spec_u32_to_le_bytes(self.sync_type)));
        assert(encoded_at(data, pos + self.src_fade_params.spec_bytes().len() + 4, spec_u32_to_le_bytes(self.cue_filter_hash)));
        assert(encoded_at(data, pos, self.src_fade_params.spec_bytes()));
        assert(encoded_at(data, pos + self.src_fade_params.spec_bytes().len(), spec_u32_to_le_bytes(self.sync_type)));
        self.src_fade_params.lemma_canonical(data, pos);
        self.dest_fade_params.lemma_canonical(data, pos + self.src_fade_params.spec_bytes().len() + 4 + 4);
    }
}

/// A track's transition parameters as Wwise lays them out: the source fade
/// (12 bytes), the sync type (`u32`) at 12, the cue filter hash (`u32`) at
/// 16, then the destination fade at 20.
pub proof fn lemma_track_trans_layout(v: TrackTransParams, data: Seq<u8>, pos: int)
    requires
        v.decodes_at(data, pos),
    ensures
        v.src_fade_params.decodes_at(data, pos),
        u32_at(data, pos + 12, v.sync_type),
        u32_at(data, pos + 16, v.cue_filter_hash),
        v.dest_fade_params.decodes_at(data, pos + 20),
{
}

impl TrackTransParams {
    /// Read one value.
    pub fn read(r: &mut BinaryReader) -> (res: Result<Self>)
        ensures
            reads_value(*old(r), *final(r), res),
    {
        Self::wire_read(r)
    }

    /// Write this value.
    pub fn write(&self, w: &mut BinaryWriter)
        requires
            self.wf(),
        ensures
            final(w)@ == old(w)@ + self.spec_bytes(),
    {
        self.wire_write(w)
    }
}
} // verus!
