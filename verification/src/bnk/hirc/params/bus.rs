//! Bus parameter types.

use vstd::prelude::*;
#[allow(unused_imports)]
use crate::bytes::{
    encoded_at, group_bytes, spec_i16_to_le_bytes, spec_i32_to_le_bytes, spec_u16_to_le_bytes,
    spec_u32_to_le_bytes, spec_u64_to_le_bytes,
};
#[allow(unused_imports)]
use crate::error::{Error, Result};
#[allow(unused_imports)]
use super::super::reader::BinaryReader;
#[allow(unused_imports)]
use super::super::wire::{
    Wire, group_wire, all_wf, bool_at, bool_byte, i16_at, i32_at, i8_at, lemma_list_canonical, list_bytes,
    lemma_u32_rewrite, list_decodes_at, list_u16_bytes, list_u32_bytes, reads_value, u16_at, u32_at, u64_at, u8_at,
};
#[allow(unused_imports)]
use super::super::writer::BinaryWriter;
use super::node::{fx_chunks_rewritten, fx_flags_binary, lemma_fx_chunks_rewrite, lemma_fx_chunks_rewritten_same, lemma_same_but_middle, FxChunk};
use super::props::{lemma_prop_bundle_unique, PropBundle};

verus! {

broadcast use group_bytes, group_wire, BinaryReader::lemma_pos_nonneg;

/// The initial parameters of a bus.
#[derive(Debug, Clone)]
pub struct BusInitialParams {
    pub prop_bundle: PropBundle,
    pub flags1: u8,
    pub flags2: u8,
    pub max_num_instance: u16,
    pub channel_config: u32,
    pub flags3: u8,
}

impl Wire for BusInitialParams {
    open spec fn wf(&self) -> bool {
        self.prop_bundle.wf()
    }

    open spec fn spec_bytes(&self) -> Seq<u8> {
        self.prop_bundle.spec_bytes()
            + seq![self.flags1]
            + seq![self.flags2]
            + spec_u16_to_le_bytes(self.max_num_instance)
            + spec_u32_to_le_bytes(self.channel_config)
            + seq![self.flags3]
    }

    open spec fn decodes_at(&self, data: Seq<u8>, pos: int) -> bool {
        &&& self.prop_bundle.decodes_at(data, pos)
        &&& u8_at(data, pos + self.prop_bundle.spec_bytes().len(), self.flags1)
        &&& u8_at(data, pos + self.prop_bundle.spec_bytes().len() + 1, self.flags2)
        &&& u16_at(data, pos + self.prop_bundle.spec_bytes().len() + 1 + 1, self.max_num_instance)
        &&& u32_at(data, pos + self.prop_bundle.spec_bytes().len() + 1 + 1 + 2, self.channel_config)
        &&& u8_at(data, pos + self.prop_bundle.spec_bytes().len() + 1 + 1 + 2 + 4, self.flags3)
    }

    fn wire_read(r: &mut BinaryReader) -> (res: Result<Self>) {
        let prop_bundle = PropBundle::read(r, false, false)?;
        let flags1 = r.read_u8()?;
        let flags2 = r.read_u8()?;
        let max_num_instance = r.read_u16()?;
        let channel_config = r.read_u32()?;
        let flags3 = r.read_u8()?;
        Ok(Self { prop_bundle, flags1, flags2, max_num_instance, channel_config, flags3 })
    }

    fn wire_write(&self, w: &mut BinaryWriter) {
        self.prop_bundle.wire_write(w);
        w.write_u8(self.flags1);
        w.write_u8(self.flags2);
        w.write_u16(self.max_num_instance);
        w.write_u32(self.channel_config);
        w.write_u8(self.flags3);
    }

    proof fn lemma_canonical(&self, data: Seq<u8>, pos: int) {
        assert(encoded_at(data, pos, self.prop_bundle.spec_bytes() + seq![self.flags1] + seq![self.flags2] + spec_u16_to_le_bytes(self.max_num_instance) + spec_u32_to_le_bytes(self.channel_config)));
        assert(encoded_at(data, pos + self.prop_bundle.spec_bytes().len() + 1 + 1 + 2 + 4, seq![self.flags3]));
        assert(encoded_at(data, pos, self.prop_bundle.spec_bytes() + seq![self.flags1] + seq![self.flags2] + spec_u16_to_le_bytes(self.max_num_instance)));
        assert(encoded_at(data, pos + self.prop_bundle.spec_bytes().len() + 1 + 1 + 2, spec_u32_to_le_bytes(self.channel_config)));
        assert(encoded_at(data, pos, self.prop_bundle.spec_bytes() + seq![self.flags1] + seq![self.flags2]));
        assert(encoded_at(data, pos + self.prop_bundle.spec_bytes().len() + 1 + 1, spec_u16_to_le_bytes(self.max_num_instance)));
        assert(encoded_at(data, pos, self.prop_bundle.spec_bytes() + seq![self.flags1]));
        assert(encoded_at(data, pos + self.prop_bundle.spec_bytes().len() + 1, seq![self.flags2]));
        assert(encoded_at(data, pos, self.prop_bundle.spec_bytes()));
        assert(encoded_at(data, pos + self.prop_bundle.spec_bytes().len(), seq![self.flags1]));
        self.prop_bundle.lemma_canonical(data, pos);
    }
}

/// A bus's initial parameters as Wwise lays them out: the property bundle
/// (`b` bytes), two flag bytes at `b` and `b + 1`, the instance limit
/// (`u16`) at `b + 2`, the channel configuration (`u32`) at `b + 4` and a
/// third flag byte at `b + 8`.
pub proof fn lemma_bus_initial_layout(v: BusInitialParams, data: Seq<u8>, pos: int)
    requires
        v.decodes_at(data, pos),
    ensures
        ({
            let b = v.prop_bundle.spec_bytes().len() as int;
            &&& u8_at(data, pos + b, v.flags1)
            &&& u8_at(data, pos + b + 1, v.flags2)
            &&& u16_at(data, pos + b + 2, v.max_num_instance)
            &&& u32_at(data, pos + b + 4, v.channel_config)
            &&& u8_at(data, pos + b + 8, v.flags3)
            &&& v.prop_bundle.decodes_at(data, pos)
        }),
{
}

/// Whatever reads back from the bytes written for a bus's initial
/// parameters holds the same props (IDs and raw values, in order) and the
/// same flags, instance limit and channel configuration.
pub proof fn lemma_bus_initial_round_trip(x: BusInitialParams, y: BusInitialParams)
    requires
        x.wf(),
        y.wf(),
        y.decodes_at(x.spec_bytes(), 0),
    ensures
        y.prop_bundle.props@.len() == x.prop_bundle.props@.len(),
        forall|i: int| 0 <= i < x.prop_bundle.props@.len() ==> (#[trigger] y.prop_bundle.props@[i]).id
            == x.prop_bundle.props@[i].id && y.prop_bundle.props@[i].raw_value@
            == x.prop_bundle.props@[i].raw_value@,
        y.flags1 == x.flags1,
        y.flags2 == x.flags2,
        y.max_num_instance == x.max_num_instance,
        y.channel_config == x.channel_config,
        y.flags3 == x.flags3,
        y.spec_bytes().len() == x.spec_bytes().len(),
{
    let d = x.spec_bytes();
    assert(encoded_at(d, 0, d)) by {
        assert(d.subrange(0, d.len() as int) =~= d);
    }
    x.lemma_canonical(d, 0);
    lemma_prop_bundle_unique(x.prop_bundle, y.prop_bundle, d, 0);
}

impl BusInitialParams {
    /// Read one value.
    pub fn read(r: &mut BinaryReader) -> (res: Result<Self>)
        ensures
            reads_value(*old(r), *final(r), res),
    {
        Self::wire_read(r)
    }

    /// Write this value.
    pub fn write(&self, w: &mut BinaryWriter)
        requires
            self.wf(),
        ensures
            final(w)@ == old(w)@ + self.spec_bytes(),
    {
        self.wire_write(w)
    }
}
/// The effects of a bus: bypass bits and effect slots, then one more effect.
#[derive(Debug, Clone)]
pub struct BusInitialFxParams {
    pub bits_fx_bypass: Option<u8>,
    pub fx_chunks: Vec<FxChunk>,
    pub fx_id_0: u32,
    pub is_share_set_0: u8,
}

impl Wire for BusInitialFxParams {
    open spec fn wf(&self) -> bool {
        &&& self.fx_chunks@.len() <= u8::MAX
        &&& all_wf(self.fx_chunks@)
        &&& (self.bits_fx_bypass is Some) == (self.fx_chunks@.len() > 0)
    }

    open spec fn spec_bytes(&self) -> Seq<u8> {
        seq![self.fx_chunks@.len() as u8] + match self.bits_fx_bypass {
            Some(b) => seq![b] + list_bytes(self.fx_chunks@),
            None => Seq::empty(),
        } + spec_u32_to_le_bytes(self.fx_id_0) + seq![self.is_share_set_0]
    }

    open spec fn decodes_at(&self, data: Seq<u8>, pos: int) -> bool {
        let tail = pos + 1 + match self.bits_fx_bypass {
            Some(b) => 1 + list_bytes(self.fx_chunks@).len(),
            None => 0,
        };
        &&& u8_at(data, pos, self.fx_chunks@.len() as u8)
        &&& self.bits_fx_bypass matches Some(b) ==> {
            &&& u8_at(data, pos + 1, b)
            &&& list_decodes_at(self.fx_chunks@, data, pos + 2)
        }
        &&& u32_at(data, tail, self.fx_id_0)
        &&& u8_at(data, tail + 4, self.is_share_set_0)
    }

    fn wire_read(r: &mut BinaryReader) -> (res: Result<Self>) {
        let num_fx = r.read_u8()?;
        let (bits_fx_bypass, fx_chunks) = if num_fx > 0 {
            let bits = r.read_u8()?;
            let chunks = r.read_items::<FxChunk>(num_fx as usize)?;
            (Some(bits), chunks)
        } else {
            (None, Vec::new())
        };
        let fx_id_0 = r.read_u32()?;
        let is_share_set_0 = r.read_u8()?;
        Ok(Self { bits_fx_bypass, fx_chunks, fx_id_0, is_share_set_0 })
    }

    fn wire_write(&self, w: &mut BinaryWriter) {
        self.write_fields(w)
    }

    proof fn lemma_canonical(&self, data: Seq<u8>, pos: int) {
        if let Some(b) = self.bits_fx_bypass {
            lemma_list_canonical(self.fx_chunks@, data, pos + 2);
        }
    }
}

/// Writing back the effect parameters of a bus that were read gives bytes
/// of the same length that differ from those read only in the flag bytes of
/// the effect chunks, each of which comes back as 1 when it was non-zero.
/// So the bytes come back unchanged exactly when every such flag byte is 0
/// or 1.
#[verifier::spinoff_prover]
#[verifier::rlimit(50)]
pub proof fn lemma_bus_initial_fx_rewrite(x: BusInitialFxParams, data: Seq<u8>, pos: int)
    requires
        x.wf(),
        x.decodes_at(data, pos),
    ensures
        ({
            let n = x.fx_chunks@.len();
            let q = if n > 0 { pos + 2 } else { pos + 1 };
            &&& pos + x.spec_bytes().len() <= data.len()
            &&& x.spec_bytes() == data.subrange(pos, q) + fx_chunks_rewritten(data, q, n)
                + data.subrange(q + 7 * n, q + 7 * n + 5)
            &&& encoded_at(data, pos, x.spec_bytes()) <==> fx_flags_binary(data, q, n)
        }),
{
    let n = x.fx_chunks@.len();
    let q = if n > 0 { pos + 2 } else { pos + 1 };
    let tail = q + 7 * n;
    lemma_fx_chunks_rewrite(x.fx_chunks@, data, q);
    lemma_fx_chunks_rewritten_same(data, q, n);
    lemma_u32_rewrite(data, tail, x.fx_id_0);
    let a = data.subrange(pos, q);
    let r = fx_chunks_rewritten(data, q, n);
    let m = data.subrange(q, tail);
    let c = data.subrange(tail, tail + 5);
    assert(c =~= spec_u32_to_le_bytes(x.fx_id_0) + seq![x.is_share_set_0]);
    match x.bits_fx_bypass {
        Some(b) => {
            assert(a =~= seq![n as u8] + seq![b]);
            assert(x.spec_bytes() =~= a + r + c);
        },
        None => {
            assert(a =~= seq![n as u8]);
            assert(r =~= Seq::<u8>::empty());
            assert(x.spec_bytes() =~= a + r + c);
        },
    }
    assert(data.subrange(pos, tail + 5) =~= a + m + c);
    lemma_same_but_middle(a, r, m, c);
}

impl BusInitialFxParams {
    /// Read one value.
    pub fn read(r: &mut BinaryReader) -> (res: Result<Self>)
        ensures
            reads_value(*old(r), *final(r), res),
    {
        Self::wire_read(r)
    }

    fn write_fields(&self, w: &mut BinaryWriter)
        requires
            self.fx_chunks@.len() <= u8::MAX && all_wf(self.fx_chunks@),
        ensures
            final(w)@ == old(w)@ + self.spec_bytes(),
    {
        w.write_u8(self.fx_chunks.len() as u8);
        if let Some(bits) = self.bits_fx_bypass {
            w.write_u8(bits);
            w.write_items(self.fx_chunks.as_slice());
        }
        w.write_u32(self.fx_id_0);
        w.write_u8(self.is_share_set_0);
    }

    /// Write this value: the chunk count, then the bypass bits when present, then the chunks.
    pub fn write(&self, w: &mut BinaryWriter)
        requires
            self.fx_chunks@.len() <= u8::MAX && all_wf(self.fx_chunks@),
        ensures
            final(w)@ == old(w)@ + self.spec_bytes(),
    {
        self.write_fields(w)
    }
}

} // verus!
