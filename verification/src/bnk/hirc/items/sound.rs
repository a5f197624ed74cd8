//! Sound, Event, and ActorMixer item values.

use vstd::prelude::*;
#[allow(unused_imports)]
use crate::bytes::{
    encoded_at, group_bytes, spec_i16_to_le_bytes, spec_i32_to_le_bytes, spec_u16_to_le_bytes,
    spec_u32_to_le_bytes, spec_u64_to_le_bytes,
};
#[allow(unused_imports)]
use crate::error::{Error, Result};
#[allow(unused_imports)]
use super::super::reader::BinaryReader;
#[allow(unused_imports)]
use super::super::wire::{
    Wire, group_wire, all_wf, bool_at, bool_byte, i16_at, i32_at, i8_at, lemma_list_canonical, list_bytes,
    list_decodes_at, list_u16_bytes, list_u32_bytes, reads_value, u16_at, u32_at, u64_at, u8_at,
};
#[allow(unused_imports)]
use super::super::writer::BinaryWriter;
use super::super::params::node::{Children, NodeBaseParams};
use super::super::params::source::{has_plugin_params, BankSourceData};

verus! {

broadcast use group_bytes, group_wire, BinaryReader::lemma_pos_nonneg;

/// A sound: its source and node parameters.
#[derive(Debug, Clone)]
pub struct SoundValues {
    pub bank_source_data: BankSourceData,
    pub node_base_params: NodeBaseParams,
}

impl SoundValues {
    /// The value can be written and read back.
    pub open spec fn wf(&self) -> bool {
        self.bank_source_data.wf() && self.node_base_params.wf()
    }

    /// Optional feedback fields are present exactly when the bank has feedback.
    pub open spec fn ctx_ok(&self, has_feedback: bool) -> bool {
        self.node_base_params.ctx_ok(has_feedback)
    }

    /// The bytes the writer produces.
    pub open spec fn spec_bytes(&self) -> Seq<u8> {
        self.bank_source_data.spec_bytes()
            + self.node_base_params.spec_bytes()
    }

    /// `data` holds, at `pos`, bytes that the reader turns into this value.
    pub open spec fn decodes_at(&self, data: Seq<u8>, pos: int) -> bool {
        &&& self.bank_source_data.decodes_at(data, pos)
        &&& self.node_base_params.decodes_at(data, pos + self.bank_source_data.spec_bytes().len())
    }

    /// Read one value; `has_feedback` says whether the bank carries feedback fields.
    pub fn read(r: &mut BinaryReader, has_feedback: bool) -> (res: Result<Self>)
        ensures
            final(r).data() == old(r).data(),
            res matches Ok(v) ==> {
                &&& v.wf()
                &&& v.ctx_ok(has_feedback)
                &&& v.decodes_at(old(r).data(), old(r).pos())
                &&& final(r).pos() == old(r).pos() + v.spec_bytes().len()
            },
            forall|w: Self|
                #[trigger] w.decodes_at(old(r).data(), old(r).pos()) && w.wf() && w.ctx_ok(has_feedback)
                    ==> (res matches Ok(v) && v.spec_bytes() == w.spec_bytes()),
    {
        let bank_source_data = BankSourceData::wire_read(r)?;
        let node_base_params = NodeBaseParams::read(r, has_feedback)?;
        Ok(Self { bank_source_data, node_base_params })
    }

    /// Write this value.
    pub fn write(&self, w: &mut BinaryWriter)
        requires
            self.wf(),
        ensures
            final(w)@ == old(w)@ + self.spec_bytes(),
    {
        self.bank_source_data.wire_write(w);
        self.node_base_params.write(w);
    }

    /// The written bytes are accepted by the reader as this very value.
    #[verifier::spinoff_prover]
    #[verifier::rlimit(50)]
    pub proof fn lemma_canonical(&self, data: Seq<u8>, pos: int)
        requires
            self.wf(),
            encoded_at(data, pos, self.spec_bytes()),
        ensures
            self.decodes_at(data, pos),
    {
        self.bank_source_data.lemma_canonical(data, pos);
        self.node_base_params.lemma_canonical(data, pos + self.bank_source_data.spec_bytes().len());
    }
}

/// The length of a Sound's source block as Wwise lays it out: plugin ID
/// (4), stream type (1), media information (9), then, for plugin types 2 and
/// 5, a 4-byte size and that many parameter bytes.
pub open spec fn sound_source_len(b: BankSourceData) -> int {
    14 + if has_plugin_params(b.plugin_id) {
        4 + b.plugin_params_size.unwrap_or(0)
    } else {
        0
    }
}

/// A Sound body begins with its source: the plugin ID is the `u32` at its
/// start, the stream type the byte after it and the media's source ID the
/// `u32` after that; the node's base parameters follow the source block.
/// What is written for a Sound has the same layout.
pub proof fn lemma_sound_layout(v: SoundValues, data: Seq<u8>, pos: int)
    requires
        v.wf(),
        v.decodes_at(data, pos),
    ensures
        u32_at(data, pos, v.bank_source_data.plugin_id),
        u8_at(data, pos + 4, v.bank_source_data.stream_type),
        u32_at(data, pos + 5, v.bank_source_data.media_info.source_id),
        v.bank_source_data.decodes_at(data, pos),
        v.node_base_params.decodes_at(data, pos + sound_source_len(v.bank_source_data)),
        v.spec_bytes().subrange(0, 4) == spec_u32_to_le_bytes(v.bank_source_data.plugin_id),
        v.spec_bytes()[4] == v.bank_source_data.stream_type,
        v.spec_bytes().subrange(5, 9) == spec_u32_to_le_bytes(v.bank_source_data.media_info.source_id),
        v.spec_bytes().subrange(sound_source_len(v.bank_source_data), v.spec_bytes().len() as int)
            == v.node_base_params.spec_bytes(),
{
    let b = v.bank_source_data;
    assert(b.spec_bytes().len() == sound_source_len(b));
    let bs = b.spec_bytes();
    let all = v.spec_bytes();
    assert(all.subrange(0, 4) =~= bs.subrange(0, 4));
    assert(bs.subrange(0, 4) =~= spec_u32_to_le_bytes(b.plugin_id));
    assert(all.subrange(5, 9) =~= bs.subrange(5, 9));
    assert(bs.subrange(5, 9) =~= spec_u32_to_le_bytes(b.media_info.source_id));
    assert(all[4] == bs[4]);
    assert(all.subrange(sound_source_len(b), all.len() as int) =~= v.node_base_params.spec_bytes());
}
/// An event: the IDs of its actions.
#[derive(Debug, Clone)]
pub struct EventValues {
    pub actions: Vec<u32>,
}

impl Wire for EventValues {
    open spec fn wf(&self) -> bool {
        self.actions@.len() <= u32::MAX && all_wf(self.actions@)
    }

    open spec fn spec_bytes(&self) -> Seq<u8> {
        list_u32_bytes(self.actions@)
    }

    open spec fn decodes_at(&self, data: Seq<u8>, pos: int) -> bool {
        &&& u32_at(data, pos, self.actions@.len() as u32)
        &&& list_decodes_at(self.actions@, data, pos + 4)
    }

    fn wire_read(r: &mut BinaryReader) -> (res: Result<Self>) {
        let actions = r.read_list_u32::<u32>()?;
        Ok(Self { actions })
    }

    fn wire_write(&self, w: &mut BinaryWriter) {
        w.write_list_u32(self.actions.as_slice());
    }

    proof fn lemma_canonical(&self, data: Seq<u8>, pos: int) {
        lemma_list_canonical(self.actions@, data, pos + 4);
    }
}

impl EventValues {
    /// Read one value.
    pub fn read(r: &mut BinaryReader) -> (res: Result<Self>)
        ensures
            reads_value(*old(r), *final(r), res),
    {
        Self::wire_read(r)
    }

    /// Write this value.
    pub fn write(&self, w: &mut BinaryWriter)
        requires
            self.wf(),
        ensures
            final(w)@ == old(w)@ + self.spec_bytes(),
    {
        self.wire_write(w)
    }
}
/// An actor-mixer: node parameters and children.
#[derive(Debug, Clone)]
pub struct ActorMixerValues {
    pub node_base_params: NodeBaseParams,
    pub children: Children,
}

impl ActorMixerValues {
    /// The value can be written and read back.
    pub open spec fn wf(&self) -> bool {
        self.node_base_params.wf() && self.children.wf()
    }

    /// Optional feedback fields are present exactly when the bank has feedback.
    pub open spec fn ctx_ok(&self, has_feedback: bool) -> bool {
        self.node_base_params.ctx_ok(has_feedback)
    }

    /// The bytes the writer produces.
    pub open spec fn spec_bytes(&self) -> Seq<u8> {
        self.node_base_params.spec_bytes()
            + self.children.spec_bytes()
    }

    /// `data` holds, at `pos`, bytes that the reader turns into this value.
    pub open spec fn decodes_at(&self, data: Seq<u8>, pos: int) -> bool {
        &&& self.node_base_params.decodes_at(data, pos)
        &&& self.children.decodes_at(data, pos + self.node_base_params.spec_bytes().len())
    }

    /// Read one value; `has_feedback` says whether the bank carries feedback fields.
    pub fn read(r: &mut BinaryReader, has_feedback: bool) -> (res: Result<Self>)
        ensures
            final(r).data() == old(r).data(),
            res matches Ok(v) ==> {
                &&& v.wf()
                &&& v.ctx_ok(has_feedback)
                &&& v.decodes_at(old(r).data(), old(r).pos())
                &&& final(r).pos() == old(r).pos() + v.spec_bytes().len()
            },
            forall|w: Self|
                #[trigger] w.decodes_at(old(r).data(), old(r).pos()) && w.wf() && w.ctx_ok(has_feedback)
                    ==> (res matches Ok(v) && v.spec_bytes() == w.spec_bytes()),
    {
        let node_base_params = NodeBaseParams::read(r, has_feedback)?;
        let children = Children::wire_read(r)?;
        Ok(Self { node_base_params, children })
    }

    /// Write this value.
    pub fn write(&self, w: &mut BinaryWriter)
        requires
            self.wf(),
        ensures
            final(w)@ == old(w)@ + self.spec_bytes(),
    {
        self.node_base_params.write(w);
        self.children.wire_write(w);
    }

    /// The written bytes are accepted by the reader as this very value.
    #[verifier::spinoff_prover]
    #[verifier::rlimit(50)]
    pub proof fn lemma_canonical(&self, data: Seq<u8>, pos: int)
        requires
            self.wf(),
            encoded_at(data, pos, self.spec_bytes()),
        ensures
            self.decodes_at(data, pos),
    {
        self.node_base_params.lemma_canonical(data, pos);
        self.children.lemma_canonical(data, pos + self.node_base_params.spec_bytes().len());
    }
}

/// An actor-mixer body as Wwise lays it out: the node's base parameters,
/// then its children.
pub proof fn lemma_actor_mixer_layout(v: ActorMixerValues, data: Seq<u8>, pos: int)
    requires
        v.decodes_at(data, pos),
    ensures
        v.node_base_params.decodes_at(data, pos),
        v.children.decodes_at(data, pos + v.node_base_params.spec_bytes().len()),
        v.spec_bytes() == v.node_base_params.spec_bytes() + v.children.spec_bytes(),
{
}
} // verus!
