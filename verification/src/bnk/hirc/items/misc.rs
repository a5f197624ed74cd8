//! FeedbackNode and Modulator item values.

use vstd::prelude::*;
#[allow(unused_imports)]
use crate::bytes::{
    encoded_at, group_bytes, spec_i16_to_le_bytes, spec_i32_to_le_bytes, spec_u16_to_le_bytes,
    spec_u32_to_le_bytes, spec_u64_to_le_bytes,
};
#[allow(unused_imports)]
use crate::error::{Error, Result};
#[allow(unused_imports)]
use super::super::reader::BinaryReader;
#[allow(unused_imports)]
use super::super::wire::{
    Wire, group_wire, all_wf, bool_at, bool_byte, i16_at, i32_at, i8_at, lemma_list_canonical, list_bytes,
    list_decodes_at, list_u16_bytes, list_u32_bytes, reads_value, u16_at, u32_at, u64_at, u8_at,
};
#[allow(unused_imports)]
use super::super::writer::BinaryWriter;
use super::super::params::node::{Children, NodeBaseParams};
use super::super::params::source::BankSourceData;
use super::super::params::props::PropBundle;
use super::super::params::rtpc::InitialRtpc;

verus! {

broadcast use group_bytes, group_wire, BinaryReader::lemma_pos_nonneg;

/// A feedback source of a feedback node.
#[derive(Debug, Clone)]
pub struct FeedbackSource {
    pub company_id: u16,
    pub device_id: u16,
    /// IEEE-754 bits of an `f32`.
    pub volume_offset: u32,
    pub bank_source_data: BankSourceData,
}

impl Wire for FeedbackSource {
    open spec fn wf(&self) -> bool {
        self.bank_source_data.wf()
    }

    open spec fn spec_bytes(&self) -> Seq<u8> {
        spec_u16_to_le_bytes(self.company_id)
            + spec_u16_to_le_bytes(self.device_id)
            + spec_u32_to_le_bytes(self.volume_offset)
            + self.bank_source_data.spec_bytes()
    }

    open spec fn decodes_at(&self, data: Seq<u8>, pos: int) -> bool {
        &&& u16_at(data, pos, self.company_id)
        &&& u16_at(data, pos + 2, self.device_id)
        &&& u32_at(data, pos + 2 + 2, self.volume_offset)
        &&& self.bank_source_data.decodes_at(data, pos + 2 + 2 + 4)
    }

    fn wire_read(r: &mut BinaryReader) -> (res: Result<Self>) {
        let company_id = r.read_u16()?;
        let device_id = r.read_u16()?;
        let volume_offset = r.read_u32()?;
        let bank_source_data = BankSourceData::wire_read(r)?;
        Ok(Self { company_id, device_id, volume_offset, bank_source_data })
    }

    fn wire_write(&self, w: &mut BinaryWriter) {
        w.write_u16(self.company_id);
        w.write_u16(self.device_id);
        w.write_u32(self.volume_offset);
        self.bank_source_data.wire_write(w);
    }

    proof fn lemma_canonical(&self, data: Seq<u8>, pos: int) {
        assert(encoded_at(data, pos, spec_u16_to_le_bytes(self.company_id) + spec_u16_to_le_bytes(self.device_id) + spec_u32_to_le_bytes(self.volume_offset)));
        assert(encoded_at(data, pos + 2 + 2 + 4, self.bank_source_data.spec_bytes()));
        assert(encoded_at(data, pos, spec_u16_to_le_bytes(self.company_id) + spec_u16_to_le_bytes(self.device_id)));
        assert(encoded_at(data, pos + 2 + 2, spec_u32_to_le_bytes(self.volume_offset)));
        assert(encoded_at(data, pos, spec_u16_to_le_bytes(self.company_id)));
        assert(encoded_at(data, pos + 2, spec_u16_to_le_bytes(self.device_id)));
        self.bank_source_data.lemma_canonical(data, pos + 2 + 2 + 4);
    }
}

/// A feedback source as Wwise lays it out: company ID and device ID
/// (`u16` each), volume offset (32 bits), then the source data.
pub proof fn lemma_feedback_source_layout(v: FeedbackSource, data: Seq<u8>, pos: int)
    requires
        v.decodes_at(data, pos),
    ensures
        u16_at(data, pos, v.company_id),
        u16_at(data, pos + 2, v.device_id),
        u32_at(data, pos + 4, v.volume_offset),
        v.bank_source_data.decodes_at(data, pos + 8),
        v.spec_bytes() == spec_u16_to_le_bytes(v.company_id) + spec_u16_to_le_bytes(v.device_id)
            + spec_u32_to_le_bytes(v.volume_offset) + v.bank_source_data.spec_bytes(),
{
}

impl FeedbackSource {
    /// Read one value.
    pub fn read(r: &mut BinaryReader) -> (res: Result<Self>)
        ensures
            reads_value(*old(r), *final(r), res),
    {
        Self::wire_read(r)
    }

    /// Write this value.
    pub fn write(&self, w: &mut BinaryWriter)
        requires
            self.wf(),
        ensures
            final(w)@ == old(w)@ + self.spec_bytes(),
    {
        self.wire_write(w)
    }
}
/// A feedback node: its sources and node parameters.
#[derive(Debug, Clone)]
pub struct FeedbackNodeValues {
    pub sources: Vec<FeedbackSource>,
    pub node_base_params: NodeBaseParams,
}

impl FeedbackNodeValues {
    /// The value can be written and read back.
    pub open spec fn wf(&self) -> bool {
        self.sources@.len() <= u32::MAX && all_wf(self.sources@) && self.node_base_params.wf()
    }

    /// Optional feedback fields are present exactly when the bank has feedback.
    pub open spec fn ctx_ok(&self, has_feedback: bool) -> bool {
        self.node_base_params.ctx_ok(has_feedback)
    }

    /// The bytes the writer produces.
    pub open spec fn spec_bytes(&self) -> Seq<u8> {
        list_u32_bytes(self.sources@)
            + self.node_base_params.spec_bytes()
    }

    /// `data` holds, at `pos`, bytes that the reader turns into this value.
    pub open spec fn decodes_at(&self, data: Seq<u8>, pos: int) -> bool {
        &&& u32_at(data, pos, self.sources@.len() as u32)
        &&& list_decodes_at(self.sources@, data, pos + 4)
        &&& self.node_base_params.decodes_at(data, pos + list_u32_bytes(self.sources@).len())
    }

    /// Read one value; `has_feedback` says whether the bank carries feedback fields.
    pub fn read(r: &mut BinaryReader, has_feedback: bool) -> (res: Result<Self>)
        ensures
            final(r).data() == old(r).data(),
            res matches Ok(v) ==> {
                &&& v.wf()
                &&& v.ctx_ok(has_feedback)
                &&& v.decodes_at(old(r).data(), old(r).pos())
                &&& final(r).pos() == old(r).pos() + v.spec_bytes().len()
            },
            forall|w: Self|
                #[trigger] w.decodes_at(old(r).data(), old(r).pos()) && w.wf() && w.ctx_ok(has_feedback)
                    ==> (res matches Ok(v) && v.spec_bytes() == w.spec_bytes()),
    {
        let sources = r.read_list_u32::<FeedbackSource>()?;
        let node_base_params = NodeBaseParams::read(r, has_feedback)?;
        Ok(Self { sources, node_base_params })
    }

    /// Write this value.
    pub fn write(&self, w: &mut BinaryWriter)
        requires
            self.wf(),
        ensures
            final(w)@ == old(w)@ + self.spec_bytes(),
    {
        w.write_list_u32(self.sources.as_slice());
        self.node_base_params.write(w);
    }

    /// The written bytes are accepted by the reader as this very value.
    #[verifier::spinoff_prover]
    #[verifier::rlimit(50)]
    pub proof fn lemma_canonical(&self, data: Seq<u8>, pos: int)
        requires
            self.wf(),
            encoded_at(data, pos, self.spec_bytes()),
        ensures
            self.decodes_at(data, pos),
    {
        lemma_list_canonical(self.sources@, data, pos + 4);
        self.node_base_params.lemma_canonical(data, pos + list_u32_bytes(self.sources@).len());
    }
}

/// A feedback node body as Wwise lays it out: the `u32` count of sources
/// and the sources first, then the node's base parameters.
pub proof fn lemma_feedback_node_layout(v: FeedbackNodeValues, data: Seq<u8>, pos: int)
    requires
        v.decodes_at(data, pos),
    ensures
        u32_at(data, pos, v.sources@.len() as u32),
        list_decodes_at(v.sources@, data, pos + 4),
        v.node_base_params.decodes_at(data, pos + list_u32_bytes(v.sources@).len()),
        v.spec_bytes() == list_u32_bytes(v.sources@) + v.node_base_params.spec_bytes(),
{
}
/// An LFO or envelope modulator.
#[derive(Debug, Clone)]
pub struct ModulatorValues {
    pub prop_bundle: PropBundle,
    pub prop_bundle_ranged: PropBundle,
    pub initial_rtpc: InitialRtpc,
}

impl Wire for ModulatorValues {
    open spec fn wf(&self) -> bool {
        self.prop_bundle.wf() && self.prop_bundle_ranged.wf() && self.initial_rtpc.wf()
    }

    open spec fn spec_bytes(&self) -> Seq<u8> {
        self.prop_bundle.spec_bytes()
            + self.prop_bundle_ranged.spec_bytes()
            + self.initial_rtpc.spec_bytes()
    }

    open spec fn decodes_at(&self, data: Seq<u8>, pos: int) -> bool {
        &&& self.prop_bundle.decodes_at(data, pos)
        &&& self.prop_bundle_ranged.decodes_at(data, pos + self.prop_bundle.spec_bytes().len())
        &&& self.initial_rtpc.decodes_at(data, pos + self.prop_bundle.spec_bytes().len() + self.prop_bundle_ranged.spec_bytes().len())
    }

    fn wire_read(r: &mut BinaryReader) -> (res: Result<Self>) {
        let prop_bundle = PropBundle::read(r, false, true)?;
        let prop_bundle_ranged = PropBundle::read(r, true, true)?;
        let initial_rtpc = InitialRtpc::wire_read(r)?;
        Ok(Self { prop_bundle, prop_bundle_ranged, initial_rtpc })
    }

    fn wire_write(&self, w: &mut BinaryWriter) {
        self.prop_bundle.wire_write(w);
        self.prop_bundle_ranged.wire_write(w);
        self.initial_rtpc.wire_write(w);
    }

    proof fn lemma_canonical(&self, data: Seq<u8>, pos: int) {
        self.prop_bundle.lemma_canonical(data, pos);
        self.prop_bundle_ranged.lemma_canonical(data, pos + self.prop_bundle.spec_bytes().len());
        self.initial_rtpc.lemma_canonical(data, pos + self.prop_bundle.spec_bytes().len() + self.prop_bundle_ranged.spec_bytes().len());
    }
}

/// A modulator body as Wwise lays it out: its property bundle, its ranged
/// property bundle, then its RTPCs.
pub proof fn lemma_modulator_layout(v: ModulatorValues, data: Seq<u8>, pos: int)
    requires
        v.decodes_at(data, pos),
    ensures
        v.prop_bundle.decodes_at(data, pos),
        v.prop_bundle_ranged.decodes_at(data, pos + v.prop_bundle.spec_bytes().len()),
        v.initial_rtpc.decodes_at(
            data,
            pos + v.prop_bundle.spec_bytes().len() + v.prop_bundle_ranged.spec_bytes().len(),
        ),
        v.spec_bytes() == v.prop_bundle.spec_bytes() + v.prop_bundle_ranged.spec_bytes() + v.initial_rtpc.spec_bytes(),
{
}

impl ModulatorValues {
    /// Read one value.
    pub fn read(r: &mut BinaryReader) -> (res: Result<Self>)
        ensures
            reads_value(*old(r), *final(r), res),
    {
        Self::wire_read(r)
    }

    /// Write this value.
    pub fn write(&self, w: &mut BinaryWriter)
        requires
            self.wf(),
        ensures
            final(w)@ == old(w)@ + self.spec_bytes(),
    {
        self.wire_write(w)
    }
}
} // verus!
