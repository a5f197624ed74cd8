//! Container item values: RanSeqCntr, SwitchCntr, LayerCntr.

use vstd::prelude::*;
#[allow(unused_imports)]
use crate::bytes::{
    encoded_at, group_bytes, spec_i16_to_le_bytes, spec_i32_to_le_bytes, spec_u16_to_le_bytes,
    spec_u32_to_le_bytes, spec_u64_to_le_bytes,
};
#[allow(unused_imports)]
use crate::error::{Error, Result};
#[allow(unused_imports)]
use super::super::reader::BinaryReader;
#[allow(unused_imports)]
use super::super::wire::{
    Wire, layout_error, group_wire, all_wf, bool_at, bool_byte, i16_at, i32_at, i8_at, lemma_list_canonical, list_bytes,
    list_decodes_at, list_u16_bytes, list_u32_bytes, reads_value, u16_at, u32_at, u64_at, u8_at,
};
#[allow(unused_imports)]
use super::super::writer::BinaryWriter;
use super::super::params::node::{Children, NodeBaseParams};
use super::super::params::action::Playlist;
use super::super::params::rtpc::{InitialRtpc, RtpcGraphPoint};

verus! {

broadcast use group_bytes, group_wire, BinaryReader::lemma_pos_nonneg;

/// A random/sequence container.
#[derive(Debug, Clone)]
pub struct RanSeqCntrValues {
    pub node_base_params: NodeBaseParams,
    pub loop_count: u16,
    pub loop_mod_min: u16,
    pub loop_mod_max: u16,
    /// IEEE-754 bits of an `f32`.
    pub transition_time: u32,
    /// IEEE-754 bits of an `f32`.
    pub transition_time_mod_min: u32,
    /// IEEE-754 bits of an `f32`.
    pub transition_time_mod_max: u32,
    pub avoid_repeat_count: u16,
    pub transition_mode: u8,
    pub random_mode: u8,
    pub mode: u8,
    pub bit_vector: u8,
    pub children: Children,
    pub playlist: Playlist,
}

impl RanSeqCntrValues {
    /// The value can be written and read back.
    pub open spec fn wf(&self) -> bool {
        self.node_base_params.wf() && self.children.wf() && self.playlist.wf()
    }

    /// Optional feedback fields are present exactly when the bank has feedback.
    pub open spec fn ctx_ok(&self, has_feedback: bool) -> bool {
        self.node_base_params.ctx_ok(has_feedback)
    }

    /// The bytes the writer produces.
    pub open spec fn spec_bytes(&self) -> Seq<u8> {
        self.node_base_params.spec_bytes()
            + spec_u16_to_le_bytes(self.loop_count)
            + spec_u16_to_le_bytes(self.loop_mod_min)
            + spec_u16_to_le_bytes(self.loop_mod_max)
            + spec_u32_to_le_bytes(self.transition_time)
            + spec_u32_to_le_bytes(self.transition_time_mod_min)
            + spec_u32_to_le_bytes(self.transition_time_mod_max)
            + spec_u16_to_le_bytes(self.avoid_repeat_count)
            + seq![self.transition_mode]
            + seq![self.random_mode]
            + seq![self.mode]
            + seq![self.bit_vector]
            + self.children.spec_bytes()
            + self.playlist.spec_bytes()
    }

    /// `data` holds, at `pos`, bytes that the reader turns into this value.
    pub open spec fn decodes_at(&self, data: Seq<u8>, pos: int) -> bool {
        &&& self.node_base_params.decodes_at(data, pos)
        &&& u16_at(data, pos + self.node_base_params.spec_bytes().len(), self.loop_count)
        &&& u16_at(data, pos + self.node_base_params.spec_bytes().len() + 2, self.loop_mod_min)
        &&& u16_at(data, pos + self.node_base_params.spec_bytes().len() + 2 + 2, self.loop_mod_max)
        &&& u32_at(data, pos + self.node_base_params.spec_bytes().len() + 2 + 2 + 2, self.transition_time)
        &&& u32_at(data, pos + self.node_base_params.spec_bytes().len() + 2 + 2 + 2 + 4, self.transition_time_mod_min)
        &&& u32_at(data, pos + self.node_base_params.spec_bytes().len() + 2 + 2 + 2 + 4 + 4, self.transition_time_mod_max)
        &&& u16_at(data, pos + self.node_base_params.spec_bytes().len() + 2 + 2 + 2 + 4 + 4 + 4, self.avoid_repeat_count)
        &&& u8_at(data, pos + self.node_base_params.spec_bytes().len() + 2 + 2 + 2 + 4 + 4 + 4 + 2, self.transition_mode)
        &&& u8_at(data, pos + self.node_base_params.spec_bytes().len() + 2 + 2 + 2 + 4 + 4 + 4 + 2 + 1, self.random_mode)
        &&& u8_at(data, pos + self.node_base_params.spec_bytes().len() + 2 + 2 + 2 + 4 + 4 + 4 + 2 + 1 + 1, self.mode)
        &&& u8_at(data, pos + self.node_base_params.spec_bytes().len() + 2 + 2 + 2 + 4 + 4 + 4 + 2 + 1 + 1 + 1, self.bit_vector)
        &&& self.children.decodes_at(data, pos + self.node_base_params.spec_bytes().len() + 2 + 2 + 2 + 4 + 4 + 4 + 2 + 1 + 1 + 1 + 1)
        &&& self.playlist.decodes_at(data, pos + self.node_base_params.spec_bytes().len() + 2 + 2 + 2 + 4 + 4 + 4 + 2 + 1 + 1 + 1 + 1 + self.children.spec_bytes().len())
    }

    /// Read one value; `has_feedback` says whether the bank carries feedback fields.
    pub fn read(r: &mut BinaryReader, has_feedback: bool) -> (res: Result<Self>)
        ensures
            final(r).data() == old(r).data(),
            res matches Ok(v) ==> {
                &&& v.wf()
                &&& v.ctx_ok(has_feedback)
                &&& v.decodes_at(old(r).data(), old(r).pos())
                &&& final(r).pos() == old(r).pos() + v.spec_bytes().len()
            },
            forall|w: Self|
                #[trigger] w.decodes_at(old(r).data(), old(r).pos()) && w.wf() && w.ctx_ok(has_feedback)
                    ==> (res matches Ok(v) && v.spec_bytes() == w.spec_bytes()),
    {
        let node_base_params = NodeBaseParams::read(r, has_feedback)?;
        let loop_count = r.read_u16()?;
        let loop_mod_min = r.read_u16()?;
        let loop_mod_max = r.read_u16()?;
        let transition_time = r.read_u32()?;
        let transition_time_mod_min = r.read_u32()?;
        let transition_time_mod_max = r.read_u32()?;
        let avoid_repeat_count = r.read_u16()?;
        let transition_mode = r.read_u8()?;
        let random_mode = r.read_u8()?;
        let mode = r.read_u8()?;
        let bit_vector = r.read_u8()?;
        let children = Children::wire_read(r)?;
        let playlist = Playlist::wire_read(r)?;
        Ok(Self { node_base_params, loop_count, loop_mod_min, loop_mod_max, transition_time, transition_time_mod_min, transition_time_mod_max, avoid_repeat_count, transition_mode, random_mode, mode, bit_vector, children, playlist })
    }

    /// Write this value.
    pub fn write(&self, w: &mut BinaryWriter)
        requires
            self.wf(),
        ensures
            final(w)@ == old(w)@ + self.spec_bytes(),
    {
        self.node_base_params.write(w);
        w.write_u16(self.loop_count);
        w.write_u16(self.loop_mod_min);
        w.write_u16(self.loop_mod_max);
        w.write_u32(self.transition_time);
        w.write_u32(self.transition_time_mod_min);
        w.write_u32(self.transition_time_mod_max);
        w.write_u16(self.avoid_repeat_count);
        w.write_u8(self.transition_mode);
        w.write_u8(self.random_mode);
        w.write_u8(self.mode);
        w.write_u8(self.bit_vector);
        self.children.wire_write(w);
        self.playlist.wire_write(w);
    }

    /// The written bytes are accepted by the reader as this very value.
    #[verifier::spinoff_prover]
    #[verifier::rlimit(50)]
    pub proof fn lemma_canonical(&self, data: Seq<u8>, pos: int)
        requires
            self.wf(),
            encoded_at(data, pos, self.spec_bytes()),
        ensures
            self.decodes_at(data, pos),
    {
        assert(encoded_at(data, pos, self.node_base_params.spec_bytes() + spec_u16_to_le_bytes(self.loop_count) + spec_u16_to_le_bytes(self.loop_mod_min) + spec_u16_to_le_bytes(self.loop_mod_max) + spec_u32_to_le_bytes(self.transition_time) + spec_u32_to_le_bytes(self.transition_time_mod_min) + spec_u32_to_le_bytes(self.transition_time_mod_max) + spec_u16_to_le_bytes(self.avoid_repeat_count) + seq![self.transition_mode] + seq![self.random_mode] + seq![self.mode] + seq![self.bit_vector] + self.children.spec_bytes()));
        assert(encoded_at(data, pos + self.node_base_params.spec_bytes().len() + 2 + 2 + 2 + 4 + 4 + 4 + 2 + 1 + 1 + 1 + 1 + self.children.spec_bytes().len(), self.playlist.spec_bytes()));
        assert(encoded_at(data, pos, self.node_base_params.spec_bytes() + spec_u16_to_le_bytes(self.loop_count) + spec_u16_to_le_bytes(self.loop_mod_min) + spec_u16_to_le_bytes(self.loop_mod_max) + spec_u32_to_le_bytes(self.transition_time) + spec_u32_to_le_bytes(self.transition_time_mod_min) + spec_u32_to_le_bytes(self.transition_time_mod_max) + spec_u16_to_le_bytes(self.avoid_repeat_count) + seq![self.transition_mode] + seq![self.random_mode] + seq![self.mode] + seq![self.bit_vector]));
        assert(encoded_at(data, pos + self.node_base_params.spec_bytes().len() + 2 + 2 + 2 + 4 + 4 + 4 + 2 + 1 + 1 + 1 + 1, self.children.spec_bytes()));
        assert(encoded_at(data, pos, self.node_base_params.spec_bytes() + spec_u16_to_le_bytes(self.loop_count) + spec_u16_to_le_bytes(self.loop_mod_min) + spec_u16_to_le_bytes(self.loop_mod_max) + spec_u32_to_le_bytes(self.transition_time) + spec_u32_to_le_bytes(self.transition_time_mod_min) + spec_u32_to_le_bytes(self.transition_time_mod_max) + spec_u16_to_le_bytes(self.avoid_repeat_count) + seq![self.transition_mode] + seq![self.random_mode] + seq![self.mode]));
        assert(encoded_at(data, pos + self.node_base_params.spec_bytes().len() + 2 + 2 + 2 + 4 + 4 + 4 + 2 + 1 + 1 + 1, seq![self.bit_vector]));
        assert(encoded_at(data, pos, self.node_base_params.spec_bytes() + spec_u16_to_le_bytes(self.loop_count) + spec_u16_to_le_bytes(self.loop_mod_min) + spec_u16_to_le_bytes(self.loop_mod_max) + spec_u32_to_le_bytes(self.transition_time) + spec_u32_to_le_bytes(self.transition_time_mod_min) + spec_u32_to_le_bytes(self.transition_time_mod_max) + spec_u16_to_le_bytes(self.avoid_repeat_count) + seq![self.transition_mode] + seq![self.random_mode]));
        assert(encoded_at(data, pos + self.node_base_params.spec_bytes().len() + 2 + 2 + 2 + 4 + 4 + 4 + 2 + 1 + 1, seq![self.mode]));
        assert(encoded_at(data, pos, self.node_base_params.spec_bytes() + spec_u16_to_le_bytes(self.loop_count) + spec_u16_to_le_bytes(self.loop_mod_min) + spec_u16_to_le_bytes(self.loop_mod_max) + spec_u32_to_le_bytes(self.transition_time) + spec_u32_to_le_bytes(self.transition_time_mod_min) + spec_u32_to_le_bytes(self.transition_time_mod_max) + spec_u16_to_le_bytes(self.avoid_repeat_count) + seq![self.transition_mode]));
        assert(encoded_at(data, pos + self.node_base_params.spec_bytes().len() + 2 + 2 + 2 + 4 + 4 + 4 + 2 + 1, seq![self.random_mode]));
        assert(encoded_at(data, pos, self.node_base_params.spec_bytes() + spec_u16_to_le_bytes(self.loop_count) + spec_u16_to_le_bytes(self.loop_mod_min) + spec_u16_to_le_bytes(self.loop_mod_max) + spec_u32_to_le_bytes(self.transition_time) + spec_u32_to_le_bytes(self.transition_time_mod_min) + spec_u32_to_le_bytes(self.transition_time_mod_max) + spec_u16_to_le_bytes(self.avoid_repeat_count)));
        assert(encoded_at(data, pos + self.node_base_params.spec_bytes().len() + 2 + 2 + 2 + 4 + 4 + 4 + 2, seq![self.transition_mode]));
        assert(encoded_at(data, pos, self.node_base_params.spec_bytes() + spec_u16_to_le_bytes(self.loop_count) + spec_u16_to_le_bytes(self.loop_mod_min) + spec_u16_to_le_bytes(self.loop_mod_max) + spec_u32_to_le_bytes(self.transition_time) + spec_u32_to_le_bytes(self.transition_time_mod_min) + spec_u32_to_le_bytes(self.transition_time_mod_max)));
        assert(encoded_at(data, pos + self.node_base_params.spec_bytes().len() + 2 + 2 + 2 + 4 + 4 + 4, spec_u16_to_le_bytes(self.avoid_repeat_count)));
        assert(encoded_at(data, pos, self.node_base_params.spec_bytes() + spec_u16_to_le_bytes(self.loop_count) + spec_u16_to_le_bytes(self.loop_mod_min) + spec_u16_to_le_bytes(self.loop_mod_max) + spec_u32_to_le_bytes(self.transition_time) + spec_u32_to_le_bytes(self.transition_time_mod_min)));
        assert(encoded_at(data, pos + self.node_base_params.spec_bytes().len() + 2 + 2 + 2 + 4 + 4, spec_u32_to_le_bytes(self.transition_time_mod_max)));
        assert(encoded_at(data, pos, self.node_base_params.spec_bytes() + spec_u16_to_le_bytes(self.loop_count) + spec_u16_to_le_bytes(self.loop_mod_min) + spec_u16_to_le_bytes(self.loop_mod_max) + spec_u32_to_le_bytes(self.transition_time)));
        assert(encoded_at(data, pos + self.node_base_params.spec_bytes().len() + 2 + 2 + 2 + 4, spec_u32_to_le_bytes(self.transition_time_mod_min)));
        assert(encoded_at(data, pos, self.node_base_params.spec_bytes() + spec_u16_to_le_bytes(self.loop_count) + spec_u16_to_le_bytes(self.loop_mod_min) + spec_u16_to_le_bytes(self.loop_mod_max)));
        assert(encoded_at(data, pos + self.node_base_params.spec_bytes().len() + 2 + 2 + 2, spec_u32_to_le_bytes(self.transition_time)));
        assert(encoded_at(data, pos, self.node_base_params.spec_bytes() + spec_u16_to_le_bytes(self.loop_count) + spec_u16_to_le_bytes(self.loop_mod_min)));
        assert(encoded_at(data, pos + self.node_base_params.spec_bytes().len() + 2 + 2, spec_u16_to_le_bytes(self.loop_mod_max)));
        assert(encoded_at(data, pos, self.node_base_params.spec_bytes() + spec_u16_to_le_bytes(self.loop_count)));
        assert(encoded_at(data, pos + self.node_base_params.spec_bytes().len() + 2, spec_u16_to_le_bytes(self.loop_mod_min)));
        assert(encoded_at(data, pos, self.node_base_params.spec_bytes()));
        assert(encoded_at(data, pos + self.node_base_params.spec_bytes().len(), spec_u16_to_le_bytes(self.loop_count)));
        self.node_base_params.lemma_canonical(data, pos);
        self.children.lemma_canonical(data, pos + self.node_base_params.spec_bytes().len() + 2 + 2 + 2 + 4 + 4 + 4 + 2 + 1 + 1 + 1 + 1);
        self.playlist.lemma_canonical(data, pos + self.node_base_params.spec_bytes().len() + 2 + 2 + 2 + 4 + 4 + 4 + 2 + 1 + 1 + 1 + 1 + self.children.spec_bytes().len());
    }
}

/// A random/sequence container body, after the node's base parameters
/// (`n` bytes), holds as Wwise lays it out: the loop count, minimum and
/// maximum loop modifiers as `u16` at `n`, `n + 2` and `n + 4`; the
/// transition time and its minimum and maximum modifiers as 32-bit values at
/// `n + 6`, `n + 10` and `n + 14`; the avoid-repeat count as `u16` at
/// `n + 18`; then one byte each: transition mode at `n + 20`, random mode
/// (right after it) at `n + 21`, mode at `n + 22` and the bit vector at
/// `n + 23`; the children from `n + 24`. What is written for a
/// random/sequence container has the same layout.
#[verifier::spinoff_prover]
#[verifier::rlimit(50)]
pub proof fn lemma_ran_seq_cntr_layout(v: RanSeqCntrValues, data: Seq<u8>, pos: int)
    requires
        v.decodes_at(data, pos),
    ensures
        ({
            let n = v.node_base_params.spec_bytes().len() as int;
            let b = v.spec_bytes();
            &&& v.node_base_params.decodes_at(data, pos)
            &&& u16_at(data, pos + n, v.loop_count)
            &&& u16_at(data, pos + n + 2, v.loop_mod_min)
            &&& u16_at(data, pos + n + 4, v.loop_mod_max)
            &&& u32_at(data, pos + n + 6, v.transition_time)
            &&& u32_at(data, pos + n + 10, v.transition_time_mod_min)
            &&& u32_at(data, pos + n + 14, v.transition_time_mod_max)
            &&& u16_at(data, pos + n + 18, v.avoid_repeat_count)
            &&& u8_at(data, pos + n + 20, v.transition_mode)
            &&& u8_at(data, pos + n + 21, v.random_mode)
            &&& u8_at(data, pos + n + 22, v.mode)
            &&& u8_at(data, pos + n + 23, v.bit_vector)
            &&& v.children.decodes_at(data, pos + n + 24)
            &&& b.subrange(0, n) == v.node_base_params.spec_bytes()
            &&& b.subrange(n, n + 2) == spec_u16_to_le_bytes(v.loop_count)
            &&& b.subrange(n + 6, n + 10) == spec_u32_to_le_bytes(v.transition_time)
            &&& b.subrange(n + 18, n + 20) == spec_u16_to_le_bytes(v.avoid_repeat_count)
            &&& b[n + 20] == v.transition_mode
            &&& b[n + 21] == v.random_mode
            &&& b[n + 22] == v.mode
            &&& b[n + 23] == v.bit_vector
        }),
{
    let nb = v.node_base_params.spec_bytes();
    let n = nb.len() as int;
    let head = nb + spec_u16_to_le_bytes(v.loop_count) + spec_u16_to_le_bytes(v.loop_mod_min)
        + spec_u16_to_le_bytes(v.loop_mod_max) + spec_u32_to_le_bytes(v.transition_time)
        + spec_u32_to_le_bytes(v.transition_time_mod_min) + spec_u32_to_le_bytes(v.transition_time_mod_max)
        + spec_u16_to_le_bytes(v.avoid_repeat_count) + seq![v.transition_mode] + seq![v.random_mode]
        + seq![v.mode] + seq![v.bit_vector];
    let tail = v.children.spec_bytes() + v.playlist.spec_bytes();
    let b = v.spec_bytes();
    assert(b =~= head + tail);
    assert(b.subrange(0, n) =~= head.subrange(0, n));
    assert(head.subrange(0, n) =~= nb);
    assert(b.subrange(n, n + 2) =~= head.subrange(n, n + 2));
    assert(head.subrange(n, n + 2) =~= spec_u16_to_le_bytes(v.loop_count));
    assert(b.subrange(n + 6, n + 10) =~= head.subrange(n + 6, n + 10));
    assert(head.subrange(n + 6, n + 10) =~= spec_u32_to_le_bytes(v.transition_time));
    assert(b.subrange(n + 18, n + 20) =~= head.subrange(n + 18, n + 20));
    assert(head.subrange(n + 18, n + 20) =~= spec_u16_to_le_bytes(v.avoid_repeat_count));
    assert(b[n + 20] == head[n + 20]);
    assert(b[n + 21] == head[n + 21]);
    assert(b[n + 22] == head[n + 22]);
    assert(b[n + 23] == head[n + 23]);
}
/// The nodes played for one switch value.
#[derive(Debug, Clone)]
pub struct SwitchPackage {
    pub switch_id: u32,
    pub node_ids: Vec<u32>,
}

impl Wire for SwitchPackage {
    open spec fn wf(&self) -> bool {
        self.node_ids@.len() <= u32::MAX && all_wf(self.node_ids@)
    }

    open spec fn spec_bytes(&self) -> Seq<u8> {
        spec_u32_to_le_bytes(self.switch_id)
            + list_u32_bytes(self.node_ids@)
    }

    open spec fn decodes_at(&self, data: Seq<u8>, pos: int) -> bool {
        &&& u32_at(data, pos, self.switch_id)
        &&& u32_at(data, pos + 4, self.node_ids@.len() as u32)
        &&& list_decodes_at(self.node_ids@, data, pos + 4 + 4)
    }

    fn wire_read(r: &mut BinaryReader) -> (res: Result<Self>) {
        let switch_id = r.read_u32()?;
        let node_ids = r.read_list_u32::<u32>()?;
        Ok(Self { switch_id, node_ids })
    }

    fn wire_write(&self, w: &mut BinaryWriter) {
        w.write_u32(self.switch_id);
        w.write_list_u32(self.node_ids.as_slice());
    }

    proof fn lemma_canonical(&self, data: Seq<u8>, pos: int) {
        lemma_list_canonical(self.node_ids@, data, pos + 4 + 4);
    }
}

/// A switch package as Wwise lays it out: the switch ID (`u32`), then the
/// `u32` count of node IDs and the IDs.
pub proof fn lemma_switch_package_layout(v: SwitchPackage, data: Seq<u8>, pos: int)
    requires
        v.decodes_at(data, pos),
    ensures
        u32_at(data, pos, v.switch_id),
        u32_at(data, pos + 4, v.node_ids@.len() as u32),
        list_decodes_at(v.node_ids@, data, pos + 8),
        v.spec_bytes() == spec_u32_to_le_bytes(v.switch_id) + list_u32_bytes(v.node_ids@),
{
}

impl SwitchPackage {
    /// Read one value.
    pub fn read(r: &mut BinaryReader) -> (res: Result<Self>)
        ensures
            reads_value(*old(r), *final(r), res),
    {
        Self::wire_read(r)
    }

    /// Write this value.
    pub fn write(&self, w: &mut BinaryWriter)
        requires
            self.wf(),
        ensures
            final(w)@ == old(w)@ + self.spec_bytes(),
    {
        self.wire_write(w)
    }
}
/// Per-node switch behaviour.
#[derive(Debug, Clone)]
pub struct SwitchNodeParams {
    pub node_id: u32,
    pub bit_vector: u8,
    pub mode_bit_vector: u8,
    pub fade_out_time: i32,
    pub fade_in_time: i32,
}

impl Wire for SwitchNodeParams {
    open spec fn wf(&self) -> bool {
        true
    }

    open spec fn spec_bytes(&self) -> Seq<u8> {
        spec_u32_to_le_bytes(self.node_id)
            + seq![self.bit_vector]
            + seq![self.mode_bit_vector]
            + spec_i32_to_le_bytes(self.fade_out_time)
            + spec_i32_to_le_bytes(self.fade_in_time)
    }

    open spec fn decodes_at(&self, data: Seq<u8>, pos: int) -> bool {
        &&& u32_at(data, pos, self.node_id)
        &&& u8_at(data, pos + 4, self.bit_vector)
        &&& u8_at(data, pos + 4 + 1, self.mode_bit_vector)
        &&& i32_at(data, pos + 4 + 1 + 1, self.fade_out_time)
        &&& i32_at(data, pos + 4 + 1 + 1 + 4, self.fade_in_time)
    }

    open spec fn read_error(data: Seq<u8>, pos: int) -> Option<Error> {
        layout_error(data, pos, seq![4, 1, 1, 4, 4])
    }

    fn wire_read(r: &mut BinaryReader) -> (res: Result<Self>) {
        proof {
            reveal_with_fuel(layout_error, 6);
        }
        let node_id = r.read_u32()?;
        let bit_vector = r.read_u8()?;
        let mode_bit_vector = r.read_u8()?;
        let fade_out_time = r.read_i32()?;
        let fade_in_time = r.read_i32()?;
        Ok(Self { node_id, bit_vector, mode_bit_vector, fade_out_time, fade_in_time })
    }

    fn wire_write(&self, w: &mut BinaryWriter) {
        w.write_u32(self.node_id);
        w.write_u8(self.bit_vector);
        w.write_u8(self.mode_bit_vector);
        w.write_i32(self.fade_out_time);
        w.write_i32(self.fade_in_time);
    }

    proof fn lemma_canonical(&self, data: Seq<u8>, pos: int) {
        assert(encoded_at(data, pos, spec_u32_to_le_bytes(self.node_id) + seq![self.bit_vector] + seq![self.mode_bit_vector] + spec_i32_to_le_bytes(self.fade_out_time)));
        assert(encoded_at(data, pos + 4 + 1 + 1 + 4, spec_i32_to_le_bytes(self.fade_in_time)));
        assert(encoded_at(data, pos, spec_u32_to_le_bytes(self.node_id) + seq![self.bit_vector] + seq![self.mode_bit_vector]));
        assert(encoded_at(data, pos + 4 + 1 + 1, spec_i32_to_le_bytes(self.fade_out_time)));
        assert(encoded_at(data, pos, spec_u32_to_le_bytes(self.node_id) + seq![self.bit_vector]));
        assert(encoded_at(data, pos + 4 + 1, seq![self.mode_bit_vector]));
        assert(encoded_at(data, pos, spec_u32_to_le_bytes(self.node_id)));
        assert(encoded_at(data, pos + 4, seq![self.bit_vector]));
    }
}

/// The layout of a `SwitchNodeParams` as Wwise writes it, 14 bytes: `node_id` (`u32`) at 0,
/// `bit_vector` (byte) at 4, `mode_bit_vector` (byte) at 5, `fade_out_time` (`i32`) at 6,
/// `fade_in_time` (`i32`) at 10.
pub proof fn lemma_switch_node_params_layout(v: SwitchNodeParams, data: Seq<u8>, pos: int)
    requires
        v.decodes_at(data, pos),
    ensures
        u32_at(data, pos, v.node_id),
        u8_at(data, pos + 4, v.bit_vector),
        u8_at(data, pos + 5, v.mode_bit_vector),
        i32_at(data, pos + 6, v.fade_out_time),
        i32_at(data, pos + 10, v.fade_in_time),
        v.spec_bytes() == spec_u32_to_le_bytes(v.node_id) + seq![v.bit_vector] + seq![v.mode_bit_vector] + spec_i32_to_le_bytes(v.fade_out_time) + spec_i32_to_le_bytes(v.fade_in_time),
{
    assert(v.spec_bytes() =~= spec_u32_to_le_bytes(v.node_id) + seq![v.bit_vector] + seq![v.mode_bit_vector] + spec_i32_to_le_bytes(v.fade_out_time) + spec_i32_to_le_bytes(v.fade_in_time));
}

impl SwitchNodeParams {
    /// Read one value.
    pub fn read(r: &mut BinaryReader) -> (res: Result<Self>)
        ensures
            reads_value(*old(r), *final(r), res),
    {
        Self::wire_read(r)
    }

    /// Write this value.
    pub fn write(&self, w: &mut BinaryWriter)
        requires
            self.wf(),
        ensures
            final(w)@ == old(w)@ + self.spec_bytes(),
    {
        self.wire_write(w)
    }
}
/// A switch container.
#[derive(Debug, Clone)]
pub struct SwitchCntrValues {
    pub node_base_params: NodeBaseParams,
    pub group_type: u8,
    pub group_id: u32,
    pub default_switch: u32,
    pub is_continuous_validation: u8,
    pub children: Children,
    pub switch_list: Vec<SwitchPackage>,
    pub switch_params: Vec<SwitchNodeParams>,
}

impl SwitchCntrValues {
    /// The value can be written and read back.
    pub open spec fn wf(&self) -> bool {
        self.node_base_params.wf() && self.children.wf() && self.switch_list@.len() <= u32::MAX && all_wf(self.switch_list@) && self.switch_params@.len() <= u32::MAX && all_wf(self.switch_params@)
    }

    /// Optional feedback fields are present exactly when the bank has feedback.
    pub open spec fn ctx_ok(&self, has_feedback: bool) -> bool {
        self.node_base_params.ctx_ok(has_feedback)
    }

    /// The bytes the writer produces.
    pub open spec fn spec_bytes(&self) -> Seq<u8> {
        self.node_base_params.spec_bytes()
            + seq![self.group_type]
            + spec_u32_to_le_bytes(self.group_id)
            + spec_u32_to_le_bytes(self.default_switch)
            + seq![self.is_continuous_validation]
            + self.children.spec_bytes()
            + list_u32_bytes(self.switch_list@)
            + list_u32_bytes(self.switch_params@)
    }

    /// `data` holds, at `pos`, bytes that the reader turns into this value.
    pub open spec fn decodes_at(&self, data: Seq<u8>, pos: int) -> bool {
        &&& self.node_base_params.decodes_at(data, pos)
        &&& u8_at(data, pos + self.node_base_params.spec_bytes().len(), self.group_type)
        &&& u32_at(data, pos + self.node_base_params.spec_bytes().len() + 1, self.group_id)
        &&& u32_at(data, pos + self.node_base_params.spec_bytes().len() + 1 + 4, self.default_switch)
        &&& u8_at(data, pos + self.node_base_params.spec_bytes().len() + 1 + 4 + 4, self.is_continuous_validation)
        &&& self.children.decodes_at(data, pos + self.node_base_params.spec_bytes().len() + 1 + 4 + 4 + 1)
        &&& u32_at(data, pos + self.node_base_params.spec_bytes().len() + 1 + 4 + 4 + 1 + self.children.spec_bytes().len(), self.switch_list@.len() as u32)
        &&& list_decodes_at(self.switch_list@, data, pos + self.node_base_params.spec_bytes().len() + 1 + 4 + 4 + 1 + self.children.spec_bytes().len() + 4)
        &&& u32_at(data, pos + self.node_base_params.spec_bytes().len() + 1 + 4 + 4 + 1 + self.children.spec_bytes().len() + list_u32_bytes(self.switch_list@).len(), self.switch_params@.len() as u32)
        &&& list_decodes_at(self.switch_params@, data, pos + self.node_base_params.spec_bytes().len() + 1 + 4 + 4 + 1 + self.children.spec_bytes().len() + list_u32_bytes(self.switch_list@).len() + 4)
    }

    /// Read one value; `has_feedback` says whether the bank carries feedback fields.
    pub fn read(r: &mut BinaryReader, has_feedback: bool) -> (res: Result<Self>)
        ensures
            final(r).data() == old(r).data(),
            res matches Ok(v) ==> {
                &&& v.wf()
                &&& v.ctx_ok(has_feedback)
                &&& v.decodes_at(old(r).data(), old(r).pos())
                &&& final(r).pos() == old(r).pos() + v.spec_bytes().len()
            },
            forall|w: Self|
                #[trigger] w.decodes_at(old(r).data(), old(r).pos()) && w.wf() && w.ctx_ok(has_feedback)
                    ==> (res matches Ok(v) && v.spec_bytes() == w.spec_bytes()),
    {
        let node_base_params = NodeBaseParams::read(r, has_feedback)?;
        let group_type = r.read_u8()?;
        let group_id = r.read_u32()?;
        let default_switch = r.read_u32()?;
        let is_continuous_validation = r.read_u8()?;
        let children = Children::wire_read(r)?;
        let switch_list = r.read_list_u32::<SwitchPackage>()?;
        let switch_params = r.read_list_u32::<SwitchNodeParams>()?;
        Ok(Self { node_base_params, group_type, group_id, default_switch, is_continuous_validation, children, switch_list, switch_params })
    }

    /// Write this value.
    pub fn write(&self, w: &mut BinaryWriter)
        requires
            self.wf(),
        ensures
            final(w)@ == old(w)@ + self.spec_bytes(),
    {
        self.node_base_params.write(w);
        w.write_u8(self.group_type);
        w.write_u32(self.group_id);
        w.write_u32(self.default_switch);
        w.write_u8(self.is_continuous_validation);
        self.children.wire_write(w);
        w.write_list_u32(self.switch_list.as_slice());
        w.write_list_u32(self.switch_params.as_slice());
    }

    /// The written bytes are accepted by the reader as this very value.
    #[verifier::spinoff_prover]
    #[verifier::rlimit(50)]
    pub proof fn lemma_canonical(&self, data: Seq<u8>, pos: int)
        requires
            self.wf(),
            encoded_at(data, pos, self.spec_bytes()),
        ensures
            self.decodes_at(data, pos),
    {
        assert(encoded_at(data, pos, self.node_base_params.spec_bytes() + seq![self.group_type] + spec_u32_to_le_bytes(self.group_id) + spec_u32_to_le_bytes(self.default_switch) + seq![self.is_continuous_validation] + self.children.spec_bytes() + list_u32_bytes(self.switch_list@)));
        assert(encoded_at(data, pos + self.node_base_params.spec_bytes().len() + 1 + 4 + 4 + 1 + self.children.spec_bytes().len() + list_u32_bytes(self.switch_list@).len(), list_u32_bytes(self.switch_params@)));
        assert(encoded_at(data, pos, self.node_base_params.spec_bytes() + seq![self.group_type] + spec_u32_to_le_bytes(self.group_id) + spec_u32_to_le_bytes(self.default_switch) + seq![self.is_continuous_validation] + self.children.spec_bytes()));
        assert(encoded_at(data, pos + self.node_base_params.spec_bytes().len() + 1 + 4 + 4 + 1 + self.children.spec_bytes().len(), list_u32_bytes(self.switch_list@)));
        assert(encoded_at(data, pos, self.node_base_params.spec_bytes() + seq![self.group_type] + spec_u32_to_le_bytes(self.group_id) + spec_u32_to_le_bytes(self.default_switch) + seq![self.is_continuous_validation]));
        assert(encoded_at(data, pos + self.node_base_params.spec_bytes().len() + 1 + 4 + 4 + 1, self.children.spec_bytes()));
        assert(encoded_at(data, pos, self.node_base_params.spec_bytes() + seq![self.group_type] + spec_u32_to_le_bytes(self.group_id) + spec_u32_to_le_bytes(self.default_switch)));
        assert(encoded_at(data, pos + self.node_base_params.spec_bytes().len() + 1 + 4 + 4, seq![self.is_continuous_validation]));
        assert(encoded_at(data, pos, self.node_base_params.spec_bytes() + seq![self.group_type] + spec_u32_to_le_bytes(self.group_id)));
        assert(encoded_at(data, pos + self.node_base_params.spec_bytes().len() + 1 + 4, spec_u32_to_le_bytes(self.default_switch)));
        assert(encoded_at(data, pos, self.node_base_params.spec_bytes() + seq![self.group_type]));
        assert(encoded_at(data, pos + self.node_base_params.spec_bytes().len() + 1, spec_u32_to_le_bytes(self.group_id)));
        assert(encoded_at(data, pos, self.node_base_params.spec_bytes()));
        assert(encoded_at(data, pos + self.node_base_params.spec_bytes().len(), seq![self.group_type]));
        self.node_base_params.lemma_canonical(data, pos);
        self.children.lemma_canonical(data, pos + self.node_base_params.spec_bytes().len() + 1 + 4 + 4 + 1);
        lemma_list_canonical(self.switch_list@, data, pos + self.node_base_params.spec_bytes().len() + 1 + 4 + 4 + 1 + self.children.spec_bytes().len() + 4);
        lemma_list_canonical(self.switch_params@, data, pos + self.node_base_params.spec_bytes().len() + 1 + 4 + 4 + 1 + self.children.spec_bytes().len() + list_u32_bytes(self.switch_list@).len() + 4);
    }
}

/// A switch container body, after the node's base parameters (`n` bytes),
/// holds as Wwise lays it out: the group type byte at `n`, the group ID as
/// the `u32` at `n + 1`, the default switch as the `u32` at `n + 5`, the
/// continuous-validation byte at `n + 9` and the children from `n + 10`.
/// What is written for a switch container has the same layout.
#[verifier::spinoff_prover]
#[verifier::rlimit(50)]
pub proof fn lemma_switch_cntr_layout(v: SwitchCntrValues, data: Seq<u8>, pos: int)
    requires
        v.decodes_at(data, pos),
    ensures
        ({
            let n = v.node_base_params.spec_bytes().len() as int;
            let b = v.spec_bytes();
            &&& v.node_base_params.decodes_at(data, pos)
            &&& u8_at(data, pos + n, v.group_type)
            &&& u32_at(data, pos + n + 1, v.group_id)
            &&& u32_at(data, pos + n + 5, v.default_switch)
            &&& u8_at(data, pos + n + 9, v.is_continuous_validation)
            &&& v.children.decodes_at(data, pos + n + 10)
            &&& b.subrange(0, n) == v.node_base_params.spec_bytes()
            &&& b[n] == v.group_type
            &&& b.subrange(n + 1, n + 5) == spec_u32_to_le_bytes(v.group_id)
            &&& b.subrange(n + 5, n + 9) == spec_u32_to_le_bytes(v.default_switch)
            &&& b[n + 9] == v.is_continuous_validation
        }),
{
    let nb = v.node_base_params.spec_bytes();
    let n = nb.len() as int;
    let head = nb + seq![v.group_type] + spec_u32_to_le_bytes(v.group_id) + spec_u32_to_le_bytes(
        v.default_switch,
    ) + seq![v.is_continuous_validation];
    let tail = v.children.spec_bytes() + list_u32_bytes(v.switch_list@) + list_u32_bytes(v.switch_params@);
    let b = v.spec_bytes();
    assert(b =~= head + tail);
    assert(b.subrange(0, n) =~= head.subrange(0, n));
    assert(head.subrange(0, n) =~= nb);
    assert(b.subrange(n + 1, n + 5) =~= head.subrange(n + 1, n + 5));
    assert(head.subrange(n + 1, n + 5) =~= spec_u32_to_le_bytes(v.group_id));
    assert(b.subrange(n + 5, n + 9) =~= head.subrange(n + 5, n + 9));
    assert(head.subrange(n + 5, n + 9) =~= spec_u32_to_le_bytes(v.default_switch));
    assert(b[n] == head[n]);
    assert(b[n + 9] == head[n + 9]);
}
/// A child of a layer with its crossfade curve.
#[derive(Debug, Clone)]
pub struct AssociatedChildData {
    pub associated_child_id: u32,
    pub curve: Vec<RtpcGraphPoint>,
}

impl Wire for AssociatedChildData {
    open spec fn wf(&self) -> bool {
        self.curve@.len() <= u32::MAX && all_wf(self.curve@)
    }

    open spec fn spec_bytes(&self) -> Seq<u8> {
        spec_u32_to_le_bytes(self.associated_child_id)
            + list_u32_bytes(self.curve@)
    }

    open spec fn decodes_at(&self, data: Seq<u8>, pos: int) -> bool {
        &&& u32_at(data, pos, self.associated_child_id)
        &&& u32_at(data, pos + 4, self.curve@.len() as u32)
        &&& list_decodes_at(self.curve@, data, pos + 4 + 4)
    }

    fn wire_read(r: &mut BinaryReader) -> (res: Result<Self>) {
        let associated_child_id = r.read_u32()?;
        let curve = r.read_list_u32::<RtpcGraphPoint>()?;
        Ok(Self { associated_child_id, curve })
    }

    fn wire_write(&self, w: &mut BinaryWriter) {
        w.write_u32(self.associated_child_id);
        w.write_list_u32(self.curve.as_slice());
    }

    proof fn lemma_canonical(&self, data: Seq<u8>, pos: int) {
        lemma_list_canonical(self.curve@, data, pos + 4 + 4);
    }
}

/// An associated child as Wwise lays it out: the child ID (`u32`), then the
/// `u32` count of curve points and the points.
pub proof fn lemma_associated_child_layout(v: AssociatedChildData, data: Seq<u8>, pos: int)
    requires
        v.decodes_at(data, pos),
    ensures
        u32_at(data, pos, v.associated_child_id),
        u32_at(data, pos + 4, v.curve@.len() as u32),
        list_decodes_at(v.curve@, data, pos + 8),
        v.spec_bytes() == spec_u32_to_le_bytes(v.associated_child_id) + list_u32_bytes(v.curve@),
{
}

impl AssociatedChildData {
    /// Read one value.
    pub fn read(r: &mut BinaryReader) -> (res: Result<Self>)
        ensures
            reads_value(*old(r), *final(r), res),
    {
        Self::wire_read(r)
    }

    /// Write this value.
    pub fn write(&self, w: &mut BinaryWriter)
        requires
            self.wf(),
        ensures
            final(w)@ == old(w)@ + self.spec_bytes(),
    {
        self.wire_write(w)
    }
}
/// One layer of a layer container.
#[derive(Debug, Clone)]
pub struct LayerValues {
    pub layer_id: u32,
    pub initial_rtpc: InitialRtpc,
    pub rtpc_id: u32,
    pub rtpc_type: u8,
    pub associations: Vec<AssociatedChildData>,
}

impl Wire for LayerValues {
    open spec fn wf(&self) -> bool {
        self.initial_rtpc.wf() && self.associations@.len() <= u32::MAX && all_wf(self.associations@)
    }

    open spec fn spec_bytes(&self) -> Seq<u8> {
        spec_u32_to_le_bytes(self.layer_id)
            + self.initial_rtpc.spec_bytes()
            + spec_u32_to_le_bytes(self.rtpc_id)
            + seq![self.rtpc_type]
            + list_u32_bytes(self.associations@)
    }

    open spec fn decodes_at(&self, data: Seq<u8>, pos: int) -> bool {
        &&& u32_at(data, pos, self.layer_id)
        &&& self.initial_rtpc.decodes_at(data, pos + 4)
        &&& u32_at(data, pos + 4 + self.initial_rtpc.spec_bytes().len(), self.rtpc_id)
        &&& u8_at(data, pos + 4 + self.initial_rtpc.spec_bytes().len() + 4, self.rtpc_type)
        &&& u32_at(data, pos + 4 + self.initial_rtpc.spec_bytes().len() + 4 + 1, self.associations@.len() as u32)
        &&& list_decodes_at(self.associations@, data, pos + 4 + self.initial_rtpc.spec_bytes().len() + 4 + 1 + 4)
    }

    fn wire_read(r: &mut BinaryReader) -> (res: Result<Self>) {
        let layer_id = r.read_u32()?;
        let initial_rtpc = InitialRtpc::wire_read(r)?;
        let rtpc_id = r.read_u32()?;
        let rtpc_type = r.read_u8()?;
        let associations = r.read_list_u32::<AssociatedChildData>()?;
        Ok(Self { layer_id, initial_rtpc, rtpc_id, rtpc_type, associations })
    }

    fn wire_write(&self, w: &mut BinaryWriter) {
        w.write_u32(self.layer_id);
        self.initial_rtpc.wire_write(w);
        w.write_u32(self.rtpc_id);
        w.write_u8(self.rtpc_type);
        w.write_list_u32(self.associations.as_slice());
    }

    proof fn lemma_canonical(&self, data: Seq<u8>, pos: int) {
        assert(encoded_at(data, pos, spec_u32_to_le_bytes(self.layer_id) + self.initial_rtpc.spec_bytes() + spec_u32_to_le_bytes(self.rtpc_id) + seq![self.rtpc_type]));
        assert(encoded_at(data, pos + 4 + self.initial_rtpc.spec_bytes().len() + 4 + 1, list_u32_bytes(self.associations@)));
        assert(encoded_at(data, pos, spec_u32_to_le_bytes(self.layer_id) + self.initial_rtpc.spec_bytes() + spec_u32_to_le_bytes(self.rtpc_id)));
        assert(encoded_at(data, pos + 4 + self.initial_rtpc.spec_bytes().len() + 4, seq![self.rtpc_type]));
        assert(encoded_at(data, pos, spec_u32_to_le_bytes(self.layer_id) + self.initial_rtpc.spec_bytes()));
        assert(encoded_at(data, pos + 4 + self.initial_rtpc.spec_bytes().len(), spec_u32_to_le_bytes(self.rtpc_id)));
        assert(encoded_at(data, pos, spec_u32_to_le_bytes(self.layer_id)));
        assert(encoded_at(data, pos + 4, self.initial_rtpc.spec_bytes()));
        self.initial_rtpc.lemma_canonical(data, pos + 4);
        lemma_list_canonical(self.associations@, data, pos + 4 + self.initial_rtpc.spec_bytes().len() + 4 + 1 + 4);
    }
}

/// A layer as Wwise lays it out: its ID (`u32`), its RTPCs, the RTPC ID
/// (`u32`) and type (a byte), then the `u32` count of associated children and
/// the children.
pub proof fn lemma_layer_layout(v: LayerValues, data: Seq<u8>, pos: int)
    requires
        v.decodes_at(data, pos),
    ensures
        ({
            let r = v.initial_rtpc.spec_bytes().len() as int;
            &&& u32_at(data, pos, v.layer_id)
            &&& v.initial_rtpc.decodes_at(data, pos + 4)
            &&& u32_at(data, pos + 4 + r, v.rtpc_id)
            &&& u8_at(data, pos + 8 + r, v.rtpc_type)
            &&& u32_at(data, pos + 9 + r, v.associations@.len() as u32)
            &&& list_decodes_at(v.associations@, data, pos + 13 + r)
            &&& v.spec_bytes() == spec_u32_to_le_bytes(v.layer_id) + v.initial_rtpc.spec_bytes()
                + spec_u32_to_le_bytes(v.rtpc_id) + seq![v.rtpc_type] + list_u32_bytes(v.associations@)
        }),
{
}

impl LayerValues {
    /// Read one value.
    pub fn read(r: &mut BinaryReader) -> (res: Result<Self>)
        ensures
            reads_value(*old(r), *final(r), res),
    {
        Self::wire_read(r)
    }

    /// Write this value.
    pub fn write(&self, w: &mut BinaryWriter)
        requires
            self.wf(),
        ensures
            final(w)@ == old(w)@ + self.spec_bytes(),
    {
        self.wire_write(w)
    }
}
/// A layer container.
#[derive(Debug, Clone)]
pub struct LayerCntrValues {
    pub node_base_params: NodeBaseParams,
    pub children: Children,
    pub layers: Vec<LayerValues>,
}

impl LayerCntrValues {
    /// The value can be written and read back.
    pub open spec fn wf(&self) -> bool {
        self.node_base_params.wf() && self.children.wf() && self.layers@.len() <= u32::MAX && all_wf(self.layers@)
    }

    /// Optional feedback fields are present exactly when the bank has feedback.
    pub open spec fn ctx_ok(&self, has_feedback: bool) -> bool {
        self.node_base_params.ctx_ok(has_feedback)
    }

    /// The bytes the writer produces.
    pub open spec fn spec_bytes(&self) -> Seq<u8> {
        self.node_base_params.spec_bytes()
            + self.children.spec_bytes()
            + list_u32_bytes(self.layers@)
    }

    /// `data` holds, at `pos`, bytes that the reader turns into this value.
    pub open spec fn decodes_at(&self, data: Seq<u8>, pos: int) -> bool {
        &&& self.node_base_params.decodes_at(data, pos)
        &&& self.children.decodes_at(data, pos + self.node_base_params.spec_bytes().len())
        &&& u32_at(data, pos + self.node_base_params.spec_bytes().len() + self.children.spec_bytes().len(), self.layers@.len() as u32)
        &&& list_decodes_at(self.layers@, data, pos + self.node_base_params.spec_bytes().len() + self.children.spec_bytes().len() + 4)
    }

    /// Read one value; `has_feedback` says whether the bank carries feedback fields.
    pub fn read(r: &mut BinaryReader, has_feedback: bool) -> (res: Result<Self>)
        ensures
            final(r).data() == old(r).data(),
            res matches Ok(v) ==> {
                &&& v.wf()
                &&& v.ctx_ok(has_feedback)
                &&& v.decodes_at(old(r).data(), old(r).pos())
                &&& final(r).pos() == old(r).pos() + v.spec_bytes().len()
            },
            forall|w: Self|
                #[trigger] w.decodes_at(old(r).data(), old(r).pos()) && w.wf() && w.ctx_ok(has_feedback)
                    ==> (res matches Ok(v) && v.spec_bytes() == w.spec_bytes()),
    {
        let node_base_params = NodeBaseParams::read(r, has_feedback)?;
        let children = Children::wire_read(r)?;
        let layers = r.read_list_u32::<LayerValues>()?;
        Ok(Self { node_base_params, children, layers })
    }

    /// Write this value.
    pub fn write(&self, w: &mut BinaryWriter)
        requires
            self.wf(),
        ensures
            final(w)@ == old(w)@ + self.spec_bytes(),
    {
        self.node_base_params.write(w);
        self.children.wire_write(w);
        w.write_list_u32(self.layers.as_slice());
    }

    /// The written bytes are accepted by the reader as this very value.
    #[verifier::spinoff_prover]
    #[verifier::rlimit(50)]
    pub proof fn lemma_canonical(&self, data: Seq<u8>, pos: int)
        requires
            self.wf(),
            encoded_at(data, pos, self.spec_bytes()),
        ensures
            self.decodes_at(data, pos),
    {
        self.node_base_params.lemma_canonical(data, pos);
        self.children.lemma_canonical(data, pos + self.node_base_params.spec_bytes().len());
        lemma_list_canonical(self.layers@, data, pos + self.node_base_params.spec_bytes().len() + self.children.spec_bytes().len() + 4);
    }
}

/// A layer container body as Wwise lays it out: the node's base
/// parameters, its children, then the `u32` count of layers and the layers.
pub proof fn lemma_layer_cntr_layout(v: LayerCntrValues, data: Seq<u8>, pos: int)
    requires
        v.decodes_at(data, pos),
    ensures
        ({
            let n = v.node_base_params.spec_bytes().len() as int;
            let c = v.children.spec_bytes().len() as int;
            &&& v.node_base_params.decodes_at(data, pos)
            &&& v.children.decodes_at(data, pos + n)
            &&& u32_at(data, pos + n + c, v.layers@.len() as u32)
            &&& list_decodes_at(v.layers@, data, pos + n + c + 4)
            &&& v.spec_bytes() == v.node_base_params.spec_bytes() + v.children.spec_bytes() + list_u32_bytes(
                v.layers@,
            )
        }),
{
}
} // verus!
