//! Bus, State, and Attenuation item values.

use vstd::prelude::*;
#[allow(unused_imports)]
use crate::bytes::{
    encoded_at, group_bytes, spec_i16_to_le_bytes, spec_i32_to_le_bytes, spec_u16_to_le_bytes,
    spec_u32_to_le_bytes, spec_u64_to_le_bytes,
};
#[allow(unused_imports)]
use crate::error::{Error, Result};
#[allow(unused_imports)]
use super::super::reader::BinaryReader;
#[allow(unused_imports)]
use super::super::wire::{
    Wire, layout_error, group_wire, all_wf, bool_at, bool_byte, i16_at, i32_at, i8_at, lemma_list_canonical, list_bytes,
    list_decodes_at, list_u16_bytes, list_u32_bytes, reads_value, u16_at, u32_at, u64_at, u8_at,
};
#[allow(unused_imports)]
use super::super::writer::BinaryWriter;
use super::super::params::bus::{BusInitialFxParams, BusInitialParams};
use super::super::params::rtpc::{ConversionTable, InitialRtpc};
use super::super::params::state::StateChunk;

verus! {

broadcast use group_bytes, group_wire, BinaryReader::lemma_pos_nonneg;

/// How a bus ducks another bus.
#[derive(Debug, Clone)]
pub struct DuckInfo {
    pub bus_id: u32,
    /// IEEE-754 bits of an `f32`.
    pub duck_volume: u32,
    pub fade_out_time: i32,
    pub fade_in_time: i32,
    pub fade_curve: u8,
    pub target_prop: u8,
}

impl Wire for DuckInfo {
    open spec fn wf(&self) -> bool {
        true
    }

    open spec fn spec_bytes(&self) -> Seq<u8> {
        spec_u32_to_le_bytes(self.bus_id)
            + spec_u32_to_le_bytes(self.duck_volume)
            + spec_i32_to_le_bytes(self.fade_out_time)
            + spec_i32_to_le_bytes(self.fade_in_time)
            + seq![self.fade_curve]
            + seq![self.target_prop]
    }

    open spec fn decodes_at(&self, data: Seq<u8>, pos: int) -> bool {
        &&& u32_at(data, pos, self.bus_id)
        &&& u32_at(data, pos + 4, self.duck_volume)
        &&& i32_at(data, pos + 4 + 4, self.fade_out_time)
        &&& i32_at(data, pos + 4 + 4 + 4, self.fade_in_time)
        &&& u8_at(data, pos + 4 + 4 + 4 + 4, self.fade_curve)
        &&& u8_at(data, pos + 4 + 4 + 4 + 4 + 1, self.target_prop)
    }

    open spec fn read_error(data: Seq<u8>, pos: int) -> Option<Error> {
        layout_error(data, pos, seq![4, 4, 4, 4, 1, 1])
    }

    fn wire_read(r: &mut BinaryReader) -> (res: Result<Self>) {
        proof {
            reveal_with_fuel(layout_error, 7);
        }
        let bus_id = r.read_u32()?;
        let duck_volume = r.read_u32()?;
        let fade_out_time = r.read_i32()?;
        let fade_in_time = r.read_i32()?;
        let fade_curve = r.read_u8()?;
        let target_prop = r.read_u8()?;
        Ok(Self { bus_id, duck_volume, fade_out_time, fade_in_time, fade_curve, target_prop })
    }

    fn wire_write(&self, w: &mut BinaryWriter) {
        w.write_u32(self.bus_id);
        w.write_u32(self.duck_volume);
        w.write_i32(self.fade_out_time);
        w.write_i32(self.fade_in_time);
        w.write_u8(self.fade_curve);
        w.write_u8(self.target_prop);
    }

    proof fn lemma_canonical(&self, data: Seq<u8>, pos: int) {
        assert(encoded_at(data, pos, spec_u32_to_le_bytes(self.bus_id) + spec_u32_to_le_bytes(self.duck_volume) + spec_i32_to_le_bytes(self.fade_out_time) + spec_i32_to_le_bytes(self.fade_in_time) + seq![self.fade_curve]));
        assert(encoded_at(data, pos + 4 + 4 + 4 + 4 + 1, seq![self.target_prop]));
        assert(encoded_at(data, pos, spec_u32_to_le_bytes(self.bus_id) + spec_u32_to_le_bytes(self.duck_volume) + spec_i32_to_le_bytes(self.fade_out_time) + spec_i32_to_le_bytes(self.fade_in_time)));
        assert(encoded_at(data, pos + 4 + 4 + 4 + 4, seq![self.fade_curve]));
        assert(encoded_at(data, pos, spec_u32_to_le_bytes(self.bus_id) + spec_u32_to_le_bytes(self.duck_volume) + spec_i32_to_le_bytes(self.fade_out_time)));
        assert(encoded_at(data, pos + 4 + 4 + 4, spec_i32_to_le_bytes(self.fade_in_time)));
        assert(encoded_at(data, pos, spec_u32_to_le_bytes(self.bus_id) + spec_u32_to_le_bytes(self.duck_volume)));
        assert(encoded_at(data, pos + 4 + 4, spec_i32_to_le_bytes(self.fade_out_time)));
        assert(encoded_at(data, pos, spec_u32_to_le_bytes(self.bus_id)));
        assert(encoded_at(data, pos + 4, spec_u32_to_le_bytes(self.duck_volume)));
    }
}

/// The layout of a `DuckInfo` as Wwise writes it, 18 bytes: `bus_id` (`u32`) at 0,
/// `duck_volume` (`u32`) at 4, `fade_out_time` (`i32`) at 8, `fade_in_time` (`i32`) at 12,
/// `fade_curve` (byte) at 16, `target_prop` (byte) at 17.
pub proof fn lemma_duck_info_layout(v: DuckInfo, data: Seq<u8>, pos: int)
    requires
        v.decodes_at(data, pos),
    ensures
        u32_at(data, pos, v.bus_id),
        u32_at(data, pos + 4, v.duck_volume),
        i32_at(data, pos + 8, v.fade_out_time),
        i32_at(data, pos + 12, v.fade_in_time),
        u8_at(data, pos + 16, v.fade_curve),
        u8_at(data, pos + 17, v.target_prop),
        v.spec_bytes() == spec_u32_to_le_bytes(v.bus_id) + spec_u32_to_le_bytes(v.duck_volume) + spec_i32_to_le_bytes(v.fade_out_time) + spec_i32_to_le_bytes(v.fade_in_time) + seq![v.fade_curve] + seq![v.target_prop],
{
    assert(v.spec_bytes() =~= spec_u32_to_le_bytes(v.bus_id) + spec_u32_to_le_bytes(v.duck_volume) + spec_i32_to_le_bytes(v.fade_out_time) + spec_i32_to_le_bytes(v.fade_in_time) + seq![v.fade_curve] + seq![v.target_prop]);
}

impl DuckInfo {
    /// Read one value.
    pub fn read(r: &mut BinaryReader) -> (res: Result<Self>)
        ensures
            reads_value(*old(r), *final(r), res),
    {
        Self::wire_read(r)
    }

    /// Write this value.
    pub fn write(&self, w: &mut BinaryWriter)
        requires
            self.wf(),
        ensures
            final(w)@ == old(w)@ + self.spec_bytes(),
    {
        self.wire_write(w)
    }
}
/// A bus (also an aux or feedback bus).
#[derive(Debug, Clone)]
pub struct BusValues {
    pub override_bus_id: u32,
    pub bus_initial_params: BusInitialParams,
    pub recovery_time: i32,
    /// IEEE-754 bits of an `f32`.
    pub max_duck_volume: u32,
    pub ducks: Vec<DuckInfo>,
    pub bus_initial_fx_params: BusInitialFxParams,
    pub override_attachment_params: u8,
    pub initial_rtpc: InitialRtpc,
    pub state_chunk: StateChunk,
    /// Whether the bank carries feedback fields.
    pub has_feedback: bool,
    /// Written only when `has_feedback`; read as 0 otherwise.
    pub feedback_bus_id: u32,
}

impl BusValues {
    /// The value can be written and read back.
    pub open spec fn wf(&self) -> bool {
        self.bus_initial_params.wf() && self.ducks@.len() <= u32::MAX && all_wf(self.ducks@) && self.bus_initial_fx_params.wf() && self.initial_rtpc.wf() && self.state_chunk.wf()
    }

    /// Optional feedback fields are present exactly when the bank has feedback.
    pub open spec fn ctx_ok(&self, has_feedback: bool) -> bool {
        self.has_feedback == has_feedback && (!has_feedback ==> self.feedback_bus_id == 0)
    }

    /// The bytes the writer produces.
    pub open spec fn spec_bytes(&self) -> Seq<u8> {
        spec_u32_to_le_bytes(self.override_bus_id)
            + self.bus_initial_params.spec_bytes()
            + spec_i32_to_le_bytes(self.recovery_time)
            + spec_u32_to_le_bytes(self.max_duck_volume)
            + list_u32_bytes(self.ducks@)
            + self.bus_initial_fx_params.spec_bytes()
            + seq![self.override_attachment_params]
            + self.initial_rtpc.spec_bytes()
            + self.state_chunk.spec_bytes()
            + (if self.has_feedback { spec_u32_to_le_bytes(self.feedback_bus_id) } else { Seq::<u8>::empty() })
    }

    /// `data` holds, at `pos`, bytes that the reader turns into this value.
    pub open spec fn decodes_at(&self, data: Seq<u8>, pos: int) -> bool {
        &&& u32_at(data, pos, self.override_bus_id)
        &&& self.bus_initial_params.decodes_at(data, pos + 4)
        &&& i32_at(data, pos + 4 + self.bus_initial_params.spec_bytes().len(), self.recovery_time)
        &&& u32_at(data, pos + 4 + self.bus_initial_params.spec_bytes().len() + 4, self.max_duck_volume)
        &&& u32_at(data, pos + 4 + self.bus_initial_params.spec_bytes().len() + 4 + 4, self.ducks@.len() as u32)
        &&& list_decodes_at(self.ducks@, data, pos + 4 + self.bus_initial_params.spec_bytes().len() + 4 + 4 + 4)
        &&& self.bus_initial_fx_params.decodes_at(data, pos + 4 + self.bus_initial_params.spec_bytes().len() + 4 + 4 + list_u32_bytes(self.ducks@).len())
        &&& u8_at(data, pos + 4 + self.bus_initial_params.spec_bytes().len() + 4 + 4 + list_u32_bytes(self.ducks@).len() + self.bus_initial_fx_params.spec_bytes().len(), self.override_attachment_params)
        &&& self.initial_rtpc.decodes_at(data, pos + 4 + self.bus_initial_params.spec_bytes().len() + 4 + 4 + list_u32_bytes(self.ducks@).len() + self.bus_initial_fx_params.spec_bytes().len() + 1)
        &&& self.state_chunk.decodes_at(data, pos + 4 + self.bus_initial_params.spec_bytes().len() + 4 + 4 + list_u32_bytes(self.ducks@).len() + self.bus_initial_fx_params.spec_bytes().len() + 1 + self.initial_rtpc.spec_bytes().len())
        &&& (self.has_feedback ==> u32_at(data, pos + 4 + self.bus_initial_params.spec_bytes().len() + 4 + 4 + list_u32_bytes(self.ducks@).len() + self.bus_initial_fx_params.spec_bytes().len() + 1 + self.initial_rtpc.spec_bytes().len() + self.state_chunk.spec_bytes().len(), self.feedback_bus_id))
    }

    /// Read one value; `has_feedback` says whether the bank carries feedback fields.
    pub fn read(r: &mut BinaryReader, has_feedback: bool) -> (res: Result<Self>)
        ensures
            final(r).data() == old(r).data(),
            res matches Ok(v) ==> {
                &&& v.wf()
                &&& v.ctx_ok(has_feedback)
                &&& v.decodes_at(old(r).data(), old(r).pos())
                &&& final(r).pos() == old(r).pos() + v.spec_bytes().len()
            },
            forall|w: Self|
                #[trigger] w.decodes_at(old(r).data(), old(r).pos()) && w.wf() && w.ctx_ok(has_feedback)
                    ==> (res matches Ok(v) && v.spec_bytes() == w.spec_bytes()),
    {
        let override_bus_id = r.read_u32()?;
        let bus_initial_params = BusInitialParams::wire_read(r)?;
        let recovery_time = r.read_i32()?;
        let max_duck_volume = r.read_u32()?;
        let ducks = r.read_list_u32::<DuckInfo>()?;
        let bus_initial_fx_params = BusInitialFxParams::wire_read(r)?;
        let override_attachment_params = r.read_u8()?;
        let initial_rtpc = InitialRtpc::wire_read(r)?;
        let state_chunk = StateChunk::wire_read(r)?;
        let has_feedback = has_feedback;
        let feedback_bus_id = if has_feedback { r.read_u32()? } else { 0 };
        Ok(Self { override_bus_id, bus_initial_params, recovery_time, max_duck_volume, ducks, bus_initial_fx_params, override_attachment_params, initial_rtpc, state_chunk, has_feedback, feedback_bus_id })
    }

    /// Write this value.
    pub fn write(&self, w: &mut BinaryWriter)
        requires
            self.wf(),
        ensures
            final(w)@ == old(w)@ + self.spec_bytes(),
    {
        w.write_u32(self.override_bus_id);
        self.bus_initial_params.wire_write(w);
        w.write_i32(self.recovery_time);
        w.write_u32(self.max_duck_volume);
        w.write_list_u32(self.ducks.as_slice());
        self.bus_initial_fx_params.wire_write(w);
        w.write_u8(self.override_attachment_params);
        self.initial_rtpc.wire_write(w);
        self.state_chunk.wire_write(w);
        if self.has_feedback {
            w.write_u32(self.feedback_bus_id);
        }
    }

    /// The written bytes are accepted by the reader as this very value.
    #[verifier::spinoff_prover]
    #[verifier::rlimit(50)]
    pub proof fn lemma_canonical(&self, data: Seq<u8>, pos: int)
        requires
            self.wf(),
            encoded_at(data, pos, self.spec_bytes()),
        ensures
            self.decodes_at(data, pos),
    {
        assert(encoded_at(data, pos, spec_u32_to_le_bytes(self.override_bus_id) + self.bus_initial_params.spec_bytes() + spec_i32_to_le_bytes(self.recovery_time) + spec_u32_to_le_bytes(self.max_duck_volume) + list_u32_bytes(self.ducks@) + self.bus_initial_fx_params.spec_bytes() + seq![self.override_attachment_params] + self.initial_rtpc.spec_bytes() + self.state_chunk.spec_bytes()));
        assert(encoded_at(data, pos + 4 + self.bus_initial_params.spec_bytes().len() + 4 + 4 + list_u32_bytes(self.ducks@).len() + self.bus_initial_fx_params.spec_bytes().len() + 1 + self.initial_rtpc.spec_bytes().len() + self.state_chunk.spec_bytes().len(), (if self.has_feedback { spec_u32_to_le_bytes(self.feedback_bus_id) } else { Seq::<u8>::empty() })));
        assert(encoded_at(data, pos, spec_u32_to_le_bytes(self.override_bus_id) + self.bus_initial_params.spec_bytes() + spec_i32_to_le_bytes(self.recovery_time) + spec_u32_to_le_bytes(self.max_duck_volume) + list_u32_bytes(self.ducks@) + self.bus_initial_fx_params.spec_bytes() + seq![self.override_attachment_params] + self.initial_rtpc.spec_bytes()));
        assert(encoded_at(data, pos + 4 + self.bus_initial_params.spec_bytes().len() + 4 + 4 + list_u32_bytes(self.ducks@).len() + self.bus_initial_fx_params.spec_bytes().len() + 1 + self.initial_rtpc.spec_bytes().len(), self.state_chunk.spec_bytes()));
        assert(encoded_at(data, pos, spec_u32_to_le_bytes(self.override_bus_id) + self.bus_initial_params.spec_bytes() + spec_i32_to_le_bytes(self.recovery_time) + spec_u32_to_le_bytes(self.max_duck_volume) + list_u32_bytes(self.ducks@) + self.bus_initial_fx_params.spec_bytes() + seq![self.override_attachment_params]));
        assert(encoded_at(data, pos + 4 + self.bus_initial_params.spec_bytes().len() + 4 + 4 + list_u32_bytes(self.ducks@).len() + self.bus_initial_fx_params.spec_bytes().len() + 1, self.initial_rtpc.spec_bytes()));
        assert(encoded_at(data, pos, spec_u32_to_le_bytes(self.override_bus_id) + self.bus_initial_params.spec_bytes() + spec_i32_to_le_bytes(self.recovery_time) + spec_u32_to_le_bytes(self.max_duck_volume) + list_u32_bytes(self.ducks@) + self.bus_initial_fx_params.spec_bytes()));
        assert(encoded_at(data, pos + 4 + self.bus_initial_params.spec_bytes().len() + 4 + 4 + list_u32_bytes(self.ducks@).len() + self.bus_initial_fx_params.spec_bytes().len(), seq![self.override_attachment_params]));
        assert(encoded_at(data, pos, spec_u32_to_le_bytes(self.override_bus_id) + self.bus_initial_params.spec_bytes() + spec_i32_to_le_bytes(self.recovery_time) + spec_u32_to_le_bytes(self.max_duck_volume) + list_u32_bytes(self.ducks@)));
        assert(encoded_at(data, pos + 4 + self.bus_initial_params.spec_bytes().len() + 4 + 4 + list_u32_bytes(self.ducks@).len(), self.bus_initial_fx_params.spec_bytes()));
        assert(encoded_at(data, pos, spec_u32_to_le_bytes(self.override_bus_id) + self.bus_initial_params.spec_bytes() + spec_i32_to_le_bytes(self.recovery_time) + spec_u32_to_le_bytes(self.max_duck_volume)));
        assert(encoded_at(data, pos + 4 + self.bus_initial_params.spec_bytes().len() + 4 + 4, list_u32_bytes(self.ducks@)));
        assert(encoded_at(data, pos, spec_u32_to_le_bytes(self.override_bus_id) + self.bus_initial_params.spec_bytes() + spec_i32_to_le_bytes(self.recovery_time)));
        assert(encoded_at(data, pos + 4 + self.bus_initial_params.spec_bytes().len() + 4, spec_u32_to_le_bytes(self.max_duck_volume)));
        assert(encoded_at(data, pos, spec_u32_to_le_bytes(self.override_bus_id) + self.bus_initial_params.spec_bytes()));
        assert(encoded_at(data, pos + 4 + self.bus_initial_params.spec_bytes().len(), spec_i32_to_le_bytes(self.recovery_time)));
        assert(encoded_at(data, pos, spec_u32_to_le_bytes(self.override_bus_id)));
        assert(encoded_at(data, pos + 4, self.bus_initial_params.spec_bytes()));
        self.bus_initial_params.lemma_canonical(data, pos + 4);
        lemma_list_canonical(self.ducks@, data, pos + 4 + self.bus_initial_params.spec_bytes().len() + 4 + 4 + 4);
        self.bus_initial_fx_params.lemma_canonical(data, pos + 4 + self.bus_initial_params.spec_bytes().len() + 4 + 4 + list_u32_bytes(self.ducks@).len());
        self.initial_rtpc.lemma_canonical(data, pos + 4 + self.bus_initial_params.spec_bytes().len() + 4 + 4 + list_u32_bytes(self.ducks@).len() + self.bus_initial_fx_params.spec_bytes().len() + 1);
        self.state_chunk.lemma_canonical(data, pos + 4 + self.bus_initial_params.spec_bytes().len() + 4 + 4 + list_u32_bytes(self.ducks@).len() + self.bus_initial_fx_params.spec_bytes().len() + 1 + self.initial_rtpc.spec_bytes().len());
    }
}

/// A bus body as Wwise lays it out: the override bus ID (`u32`) first, its
/// initial parameters, the recovery time (`i32`) and maximum duck volume (32
/// bits) after them, the `u32` count of ducks and the ducks, the effect
/// parameters, the override-attachment byte, the RTPCs, the state chunk and,
/// when the bank carries feedback, the feedback bus ID (`u32`).
#[verifier::spinoff_prover]
pub proof fn lemma_bus_layout(v: BusValues, data: Seq<u8>, pos: int)
    requires
        v.decodes_at(data, pos),
    ensures
        ({
            let i = v.bus_initial_params.spec_bytes().len() as int;
            let d = list_u32_bytes(v.ducks@).len() as int;
            let f = v.bus_initial_fx_params.spec_bytes().len() as int;
            &&& u32_at(data, pos, v.override_bus_id)
            &&& v.bus_initial_params.decodes_at(data, pos + 4)
            &&& i32_at(data, pos + 4 + i, v.recovery_time)
            &&& u32_at(data, pos + 8 + i, v.max_duck_volume)
            &&& u32_at(data, pos + 12 + i, v.ducks@.len() as u32)
            &&& list_decodes_at(v.ducks@, data, pos + 16 + i)
            &&& v.bus_initial_fx_params.decodes_at(data, pos + 12 + i + d)
            &&& u8_at(data, pos + 12 + i + d + f, v.override_attachment_params)
            &&& v.initial_rtpc.decodes_at(data, pos + 13 + i + d + f)
            &&& v.state_chunk.decodes_at(data, pos + 13 + i + d + f + v.initial_rtpc.spec_bytes().len())
            &&& v.spec_bytes().subrange(0, 4) == spec_u32_to_le_bytes(v.override_bus_id)
            &&& v.spec_bytes().subrange(4 + i, 8 + i) == spec_i32_to_le_bytes(v.recovery_time)
            &&& v.spec_bytes().subrange(8 + i, 12 + i) == spec_u32_to_le_bytes(v.max_duck_volume)
        }),
{
    let i = v.bus_initial_params.spec_bytes().len() as int;
    let head = spec_u32_to_le_bytes(v.override_bus_id) + v.bus_initial_params.spec_bytes()
        + spec_i32_to_le_bytes(v.recovery_time) + spec_u32_to_le_bytes(v.max_duck_volume);
    let b = v.spec_bytes();
    assert(b.subrange(0, 12 + i) =~= head);
    assert(b.subrange(0, 4) =~= head.subrange(0, 4));
    assert(b.subrange(4 + i, 8 + i) =~= head.subrange(4 + i, 8 + i));
    assert(b.subrange(8 + i, 12 + i) =~= head.subrange(8 + i, 12 + i));
    assert(head.subrange(0, 4) =~= spec_u32_to_le_bytes(v.override_bus_id));
    assert(head.subrange(4 + i, 8 + i) =~= spec_i32_to_le_bytes(v.recovery_time));
    assert(head.subrange(8 + i, 12 + i) =~= spec_u32_to_le_bytes(v.max_duck_volume));
}
/// One property value of a state (an `f32`, kept as its bits).
#[derive(Debug, Clone)]
pub struct StateProp {
    pub prop_id: u8,
    /// IEEE-754 bits of an `f32`.
    pub value: u32,
}

/// The property IDs, in order.
pub open spec fn state_prop_ids(props: Seq<StateProp>) -> Seq<u8>
    decreases props.len(),
{
    if props.len() == 0 {
        Seq::empty()
    } else {
        state_prop_ids(props.drop_last()).push(props.last().prop_id)
    }
}

/// The property values, each as four little-endian bytes.
pub open spec fn state_prop_values(props: Seq<StateProp>) -> Seq<u8>
    decreases props.len(),
{
    if props.len() == 0 {
        Seq::empty()
    } else {
        state_prop_values(props.drop_last()) + spec_u32_to_le_bytes(props.last().value)
    }
}

proof fn lemma_state_prop_lens(props: Seq<StateProp>)
    ensures
        state_prop_ids(props).len() == props.len(),
        state_prop_values(props).len() == 4 * props.len(),
    decreases props.len(),
{
    if props.len() > 0 {
        lemma_state_prop_lens(props.drop_last());
    }
}

/// A state: property IDs then their values.
#[derive(Debug, Clone)]
pub struct StateValues {
    pub props: Vec<StateProp>,
}

impl Wire for StateValues {
    open spec fn wf(&self) -> bool {
        self.props@.len() <= u8::MAX
    }

    open spec fn spec_bytes(&self) -> Seq<u8> {
        seq![self.props@.len() as u8] + state_prop_ids(self.props@) + state_prop_values(self.props@)
    }

    open spec fn decodes_at(&self, data: Seq<u8>, pos: int) -> bool {
        &&& u8_at(data, pos, self.props@.len() as u8)
        &&& encoded_at(data, pos + 1, state_prop_ids(self.props@))
        &&& encoded_at(data, pos + 1 + self.props@.len(), state_prop_values(self.props@))
    }

    fn wire_read(r: &mut BinaryReader) -> (res: Result<Self>) {
        let ghost d = r.data();
        let ghost p = r.pos();
        let count = r.read_u8()?;
        assert(p + 1 <= d.len() && d[p] == count);
        let n = count as usize;
        let mut ids: Vec<u8> = Vec::new();
        let mut i: usize = 0;
        while i < n
            invariant
                d == old(r).data(),
                p == old(r).pos(),
                r.data() == d,
                d.len() >= p + 1,
                d[p] == count,
                n == count,
                0 <= i <= n,
                ids@.len() == i,
                ids@ == d.subrange(p + 1, p + 1 + i),
                p + 1 + i <= d.len(),
                r.pos() == p + 1 + i,
            decreases n - i,
        {
            let b = match r.read_u8() {
                Ok(b) => b,
                Err(e) => {
                    proof {
                        assert forall|w: Self| #[trigger]
                            w.decodes_at(d, p) && w.wf() implies false by {
                            lemma_state_prop_lens(w.props@);
                        }
                    }
                    return Err(e);
                },
            };
            ids.push(b);
            assert(ids@ =~= d.subrange(p + 1, p + 1 + i + 1));
            i = i + 1;
        }
        let mut props: Vec<StateProp> = Vec::new();
        let mut j: usize = 0;
        assert(state_prop_values(props@) =~= d.subrange(p + 1 + n, p + 1 + n));
        assert(state_prop_ids(props@) =~= ids@.take(0));
        while j < n
            invariant
                d == old(r).data(),
                p == old(r).pos(),
                r.data() == d,
                d.len() >= p + 1 + n,
                d[p] == count,
                n == count,
                ids@ == d.subrange(p + 1, p + 1 + n),
                ids@.len() == n,
                0 <= j <= n,
                props@.len() == j,
                state_prop_ids(props@) == ids@.take(j as int),
                state_prop_values(props@) == d.subrange(p + 1 + n, p + 1 + n + 4 * j),
                p + 1 + n + 4 * j <= d.len(),
                r.pos() == p + 1 + n + 4 * j,
            decreases n - j,
        {
            let value = match r.read_u32() {
                Ok(v) => v,
                Err(e) => {
                    proof {
                        assert forall|w: Self| #[trigger]
                            w.decodes_at(d, p) && w.wf() implies false by {
                            lemma_state_prop_lens(w.props@);
                        }
                    }
                    return Err(e);
                },
            };
            let ghost old_props = props@;
            props.push(StateProp { prop_id: ids[j], value });
            proof {
                assert(props@.drop_last() =~= old_props);
                assert(ids@.take(j + 1) =~= ids@.take(j as int).push(ids@[j as int]));
                let q = p + 1 + n + 4 * j;
                assert(spec_u32_to_le_bytes(value) == d.subrange(q, q + 4));
                assert(state_prop_values(props@) =~= d.subrange(p + 1 + n, p + 1 + n + 4 * (j + 1)));
            }
            j = j + 1;
        }
        let v = Self { props };
        proof {
            assert(ids@.take(n as int) =~= ids@);
            lemma_state_prop_lens(v.props@);
            assert forall|w: Self| #[trigger]
                w.decodes_at(d, p) && w.wf() implies v.spec_bytes() == w.spec_bytes() by {
                lemma_state_prop_lens(w.props@);
                assert(w.props@.len() == n);
            }
        }
        Ok(v)
    }

    fn wire_write(&self, w: &mut BinaryWriter) {
        let n = self.props.len();
        w.write_u8(n as u8);
        let mut i: usize = 0;
        while i < n
            invariant
                n == self.props@.len(),
                0 <= i <= n,
                w@ == old(w)@ + seq![n as u8] + state_prop_ids(self.props@.take(i as int)),
            decreases n - i,
        {
            w.write_u8(self.props[i].prop_id);
            assert(self.props@.take(i + 1).drop_last() =~= self.props@.take(i as int));
            i = i + 1;
        }
        assert(self.props@.take(n as int) =~= self.props@);
        let mut j: usize = 0;
        while j < n
            invariant
                n == self.props@.len(),
                0 <= j <= n,
                w@ == old(w)@ + seq![n as u8] + state_prop_ids(self.props@) + state_prop_values(
                    self.props@.take(j as int),
                ),
            decreases n - j,
        {
            w.write_u32(self.props[j].value);
            assert(self.props@.take(j + 1).drop_last() =~= self.props@.take(j as int));
            assert(w@ =~= old(w)@ + seq![n as u8] + state_prop_ids(self.props@) + state_prop_values(
                self.props@.take(j + 1),
            ));
            j = j + 1;
        }
        assert(self.props@.take(n as int) =~= self.props@);
    }

    proof fn lemma_canonical(&self, data: Seq<u8>, pos: int) {
        lemma_state_prop_lens(self.props@);
    }
}

impl StateValues {
    /// Read a state: the `u8` count, the property IDs, then one `f32` per ID.
    pub fn read(r: &mut BinaryReader) -> (res: Result<Self>)
        ensures
            reads_value(*old(r), *final(r), res),
    {
        Self::wire_read(r)
    }

    /// Write the state.
    pub fn write(&self, w: &mut BinaryWriter)
        requires
            self.wf(),
        ensures
            final(w)@ == old(w)@ + self.spec_bytes(),
    {
        self.wire_write(w)
    }
}

/// The attenuation curve selectors, as bytes.
pub open spec fn curve_bytes(c: [i8; 7]) -> Seq<u8> {
    Seq::new(7, |i: int| c@[i] as u8)
}

/// An attenuation: cone flag, curve selectors, curves and RTPCs.
#[derive(Debug, Clone)]
pub struct AttenuationValues {
    pub is_cone_enabled: bool,
    pub curve_to_use: [i8; 7],
    pub curves: Vec<ConversionTable>,
    pub initial_rtpc: InitialRtpc,
}

impl Wire for AttenuationValues {
    open spec fn wf(&self) -> bool {
        &&& self.curves@.len() <= u8::MAX
        &&& all_wf(self.curves@)
        &&& self.initial_rtpc.wf()
    }

    open spec fn spec_bytes(&self) -> Seq<u8> {
        bool_byte(self.is_cone_enabled) + curve_bytes(self.curve_to_use) + seq![self.curves@.len() as u8]
            + list_bytes(self.curves@) + self.initial_rtpc.spec_bytes()
    }

    open spec fn decodes_at(&self, data: Seq<u8>, pos: int) -> bool {
        &&& 0 <= pos < data.len()
        &&& (data[pos] == 1) == self.is_cone_enabled
        &&& forall|i: int| 0 <= i < 7 ==> #[trigger] i8_at(data, pos + 1 + i, self.curve_to_use@[i])
        &&& u8_at(data, pos + 8, self.curves@.len() as u8)
        &&& list_decodes_at(self.curves@, data, pos + 9)
        &&& self.initial_rtpc.decodes_at(data, pos + 9 + list_bytes(self.curves@).len())
    }

    fn wire_read(r: &mut BinaryReader) -> (res: Result<Self>) {
        let ghost d = r.data();
        let ghost p = r.pos();
        let is_cone_enabled = r.read_u8()? == 1;
        let c0 = r.read_i8()?;
        let c1 = r.read_i8()?;
        let c2 = r.read_i8()?;
        let c3 = r.read_i8()?;
        let c4 = r.read_i8()?;
        let c5 = r.read_i8()?;
        let c6 = r.read_i8()?;
        let curve_to_use = [c0, c1, c2, c3, c4, c5, c6];
        assert(curve_to_use@ == seq![c0, c1, c2, c3, c4, c5, c6]);
        assert(forall|i: int| 0 <= i < 7 ==> #[trigger] i8_at(d, p + 1 + i, curve_to_use@[i]));
        let num_curves = r.read_u8()?;
        let curves = r.read_items::<ConversionTable>(num_curves as usize)?;
        let initial_rtpc = InitialRtpc::read(r)?;
        proof {
            assert forall|w: Self| #[trigger] w.decodes_at(d, p) && w.wf() implies curve_bytes(
                w.curve_to_use,
            ) == curve_bytes(curve_to_use) by {
                assert forall|i: int| 0 <= i < 7 implies w.curve_to_use@[i] == curve_to_use@[i] by {
                    assert(i8_at(d, p + 1 + i, w.curve_to_use@[i]));
                    assert(i8_at(d, p + 1 + i, curve_to_use@[i]));
                }
                assert(curve_bytes(w.curve_to_use) =~= curve_bytes(curve_to_use));
            }
        }
        Ok(Self { is_cone_enabled, curve_to_use, curves, initial_rtpc })
    }

    fn wire_write(&self, w: &mut BinaryWriter) {
        let ghost start = w@;
        w.write_u8(if self.is_cone_enabled { 1 } else { 0 });
        w.write_i8(self.curve_to_use[0]);
        w.write_i8(self.curve_to_use[1]);
        w.write_i8(self.curve_to_use[2]);
        w.write_i8(self.curve_to_use[3]);
        w.write_i8(self.curve_to_use[4]);
        w.write_i8(self.curve_to_use[5]);
        w.write_i8(self.curve_to_use[6]);
        assert(w@ =~= start + bool_byte(self.is_cone_enabled) + curve_bytes(self.curve_to_use));
        w.write_u8(self.curves.len() as u8);
        w.write_items(self.curves.as_slice());
        self.initial_rtpc.write(w);
    }

    proof fn lemma_canonical(&self, data: Seq<u8>, pos: int) {
        let a = bool_byte(self.is_cone_enabled);
        let b = curve_bytes(self.curve_to_use);
        let c = seq![self.curves@.len() as u8];
        let e = list_bytes(self.curves@);
        assert(encoded_at(data, pos, a + b + c + e));
        assert(encoded_at(data, pos, a + b + c));
        assert(encoded_at(data, pos, a + b));
        assert(data.subrange(pos, pos + 1)[0] == data[pos]);
        assert forall|i: int| 0 <= i < 7 implies #[trigger] i8_at(data, pos + 1 + i, self.curve_to_use@[i]) by {
            assert(data.subrange(pos + 1, pos + 8)[i] == data[pos + 1 + i]);
        }
        lemma_list_canonical(self.curves@, data, pos + 9);
        self.initial_rtpc.lemma_canonical(data, pos + 9 + e.len());
    }
}

impl AttenuationValues {
    /// Read an attenuation.
    pub fn read(r: &mut BinaryReader) -> (res: Result<Self>)
        ensures
            reads_value(*old(r), *final(r), res),
    {
        Self::wire_read(r)
    }

    /// Write the attenuation.
    pub fn write(&self, w: &mut BinaryWriter)
        requires
            self.wf(),
        ensures
            final(w)@ == old(w)@ + self.spec_bytes(),
    {
        self.wire_write(w)
    }
}

} // verus!
