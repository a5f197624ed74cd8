//! Node base parameter types.

use vstd::prelude::*;
#[allow(unused_imports)]
use crate::bytes::{
    encoded_at, group_bytes, spec_i16_to_le_bytes, spec_i32_to_le_bytes, spec_u16_to_le_bytes,
    spec_u32_to_le_bytes, spec_u64_to_le_bytes,
};
#[allow(unused_imports)]
use crate::error::{Error, Result};
#[allow(unused_imports)]
use super::super::reader::BinaryReader;
#[allow(unused_imports)]
use super::super::wire::{
    Wire, layout_error, group_wire, all_wf, bool_at, bool_byte, i16_at, i32_at, i8_at, lemma_list_canonical, list_bytes,
    lemma_u32_rewrite, list_decodes_at, list_u16_bytes, list_u32_bytes, reads_value, u16_at, u32_at, u64_at, u8_at,
};
#[allow(unused_imports)]
use super::super::writer::BinaryWriter;
use super::props::PropBundle;
use super::rtpc::InitialRtpc;
use super::state::StateChunk;

verus! {

broadcast use group_bytes, group_wire, BinaryReader::lemma_pos_nonneg;

/// The IDs of a node's children (`u32`-counted).
#[derive(Debug, Clone, Default)]
pub struct Children {
    pub child_ids: Vec<u32>,
}

impl Wire for Children {
    open spec fn wf(&self) -> bool {
        self.child_ids@.len() <= u32::MAX && all_wf(self.child_ids@)
    }

    open spec fn spec_bytes(&self) -> Seq<u8> {
        list_u32_bytes(self.child_ids@)
    }

    open spec fn decodes_at(&self, data: Seq<u8>, pos: int) -> bool {
        &&& u32_at(data, pos, self.child_ids@.len() as u32)
        &&& list_decodes_at(self.child_ids@, data, pos + 4)
    }

    fn wire_read(r: &mut BinaryReader) -> (res: Result<Self>) {
        let child_ids = r.read_list_u32::<u32>()?;
        Ok(Self { child_ids })
    }

    fn wire_write(&self, w: &mut BinaryWriter) {
        w.write_list_u32(self.child_ids.as_slice());
    }

    proof fn lemma_canonical(&self, data: Seq<u8>, pos: int) {
        lemma_list_canonical(self.child_ids@, data, pos + 4);
    }
}

impl Children {
    /// Read one value.
    pub fn read(r: &mut BinaryReader) -> (res: Result<Self>)
        ensures
            reads_value(*old(r), *final(r), res),
    {
        Self::wire_read(r)
    }

    /// Write this value.
    pub fn write(&self, w: &mut BinaryWriter)
        requires
            self.wf(),
        ensures
            final(w)@ == old(w)@ + self.spec_bytes(),
    {
        self.wire_write(w)
    }
}
/// One effect slot of a node.
#[derive(Debug, Clone)]
pub struct FxChunk {
    pub fx_index: u8,
    pub fx_id: u32,
    pub is_share_set: bool,
    pub is_rendered: bool,
}

impl Wire for FxChunk {
    open spec fn wf(&self) -> bool {
        true
    }

    open spec fn spec_bytes(&self) -> Seq<u8> {
        seq![self.fx_index]
            + spec_u32_to_le_bytes(self.fx_id)
            + bool_byte(self.is_share_set)
            + bool_byte(self.is_rendered)
    }

    open spec fn decodes_at(&self, data: Seq<u8>, pos: int) -> bool {
        &&& u8_at(data, pos, self.fx_index)
        &&& u32_at(data, pos + 1, self.fx_id)
        &&& bool_at(data, pos + 1 + 4, self.is_share_set)
        &&& bool_at(data, pos + 1 + 4 + 1, self.is_rendered)
    }

    open spec fn read_error(data: Seq<u8>, pos: int) -> Option<Error> {
        layout_error(data, pos, seq![1, 4, 1, 1])
    }

    fn wire_read(r: &mut BinaryReader) -> (res: Result<Self>) {
        proof {
            reveal_with_fuel(layout_error, 5);
        }
        let fx_index = r.read_u8()?;
        let fx_id = r.read_u32()?;
        let is_share_set = r.read_u8()? != 0;
        let is_rendered = r.read_u8()? != 0;
        Ok(Self { fx_index, fx_id, is_share_set, is_rendered })
    }

    fn wire_write(&self, w: &mut BinaryWriter) {
        w.write_u8(self.fx_index);
        w.write_u32(self.fx_id);
        w.write_u8(if self.is_share_set { 1 } else { 0 });
        w.write_u8(if self.is_rendered { 1 } else { 0 });
    }

    proof fn lemma_canonical(&self, data: Seq<u8>, pos: int) {
        assert(encoded_at(data, pos, seq![self.fx_index] + spec_u32_to_le_bytes(self.fx_id) + bool_byte(self.is_share_set)));
        assert(encoded_at(data, pos + 1 + 4 + 1, bool_byte(self.is_rendered)));
        assert(encoded_at(data, pos, seq![self.fx_index] + spec_u32_to_le_bytes(self.fx_id)));
        assert(encoded_at(data, pos + 1 + 4, bool_byte(self.is_share_set)));
        assert(encoded_at(data, pos, seq![self.fx_index]));
        assert(encoded_at(data, pos + 1, spec_u32_to_le_bytes(self.fx_id)));
    }
}

/// The layout of a `FxChunk` as Wwise writes it, 7 bytes: `fx_index` (byte) at 0, `fx_id`
/// (`u32`) at 1, `is_share_set` (a flag byte) at 5, `is_rendered` (a flag byte) at 6.
pub proof fn lemma_fx_chunk_layout(v: FxChunk, data: Seq<u8>, pos: int)
    requires
        v.decodes_at(data, pos),
    ensures
        u8_at(data, pos, v.fx_index),
        u32_at(data, pos + 1, v.fx_id),
        bool_at(data, pos + 5, v.is_share_set),
        bool_at(data, pos + 6, v.is_rendered),
        v.spec_bytes() == seq![v.fx_index] + spec_u32_to_le_bytes(v.fx_id) + bool_byte(v.is_share_set) + bool_byte(v.is_rendered),
{
    assert(v.spec_bytes() =~= seq![v.fx_index] + spec_u32_to_le_bytes(v.fx_id) + bool_byte(v.is_share_set) + bool_byte(v.is_rendered));
}

impl FxChunk {
    /// Read one value.
    pub fn read(r: &mut BinaryReader) -> (res: Result<Self>)
        ensures
            reads_value(*old(r), *final(r), res),
    {
        Self::wire_read(r)
    }

    /// Write this value.
    pub fn write(&self, w: &mut BinaryWriter)
        requires
            self.wf(),
        ensures
            final(w)@ == old(w)@ + self.spec_bytes(),
    {
        self.wire_write(w)
    }
}
/// The byte a flag byte is written back as once read: 1 for any non-zero byte.
pub open spec fn flag_rewritten(b: u8) -> u8 {
    if b != 0 {
        1
    } else {
        0
    }
}

/// The bytes an effect chunk read at `q` is written back as: its index and
/// effect ID as they were, each of its two flag bytes as 0 or 1.
pub open spec fn fx_chunk_rewritten(data: Seq<u8>, q: int) -> Seq<u8> {
    data.subrange(q, q + 5) + seq![flag_rewritten(data[q + 5]), flag_rewritten(data[q + 6])]
}

/// The bytes `n` effect chunks read from `q` are written back as.
pub open spec fn fx_chunks_rewritten(data: Seq<u8>, q: int, n: nat) -> Seq<u8>
    decreases n,
{
    if n == 0 {
        Seq::empty()
    } else {
        fx_chunks_rewritten(data, q, (n - 1) as nat) + fx_chunk_rewritten(data, q + 7 * (n - 1))
    }
}

/// The two flag bytes of each of the `n` effect chunks from `q` are 0 or 1.
pub open spec fn fx_flags_binary(data: Seq<u8>, q: int, n: nat) -> bool
    decreases n,
{
    if n == 0 {
        true
    } else {
        &&& fx_flags_binary(data, q, (n - 1) as nat)
        &&& data[q + 7 * (n - 1) + 5] <= 1
        &&& data[q + 7 * (n - 1) + 6] <= 1
    }
}

proof fn lemma_fx_chunk_rewrite(c: FxChunk, data: Seq<u8>, q: int)
    requires
        c.decodes_at(data, q),
    ensures
        c.spec_bytes() == fx_chunk_rewritten(data, q),
{
    lemma_u32_rewrite(data, q + 1, c.fx_id);
    assert(c.spec_bytes() =~= fx_chunk_rewritten(data, q));
}

/// Effect chunks that were read are written back as `fx_chunks_rewritten`
/// of the bytes they were read from.
pub proof fn lemma_fx_chunks_rewrite(items: Seq<FxChunk>, data: Seq<u8>, q: int)
    requires
        list_decodes_at(items, data, q),
    ensures
        list_bytes(items) == fx_chunks_rewritten(data, q, items.len()),
        list_bytes(items).len() == 7 * items.len(),
        0 <= q && q + 7 * items.len() <= data.len(),
    decreases items.len(),
{
    if items.len() > 0 {
        let init = items.drop_last();
        lemma_fx_chunks_rewrite(init, data, q);
        lemma_fx_chunk_rewrite(items.last(), data, q + 7 * init.len());
    }
}

/// The rewritten chunks equal the bytes they were read from exactly when
/// every flag byte among them is 0 or 1.
pub proof fn lemma_fx_chunks_rewritten_same(data: Seq<u8>, q: int, n: nat)
    requires
        0 <= q,
        q + 7 * n <= data.len(),
    ensures
        fx_chunks_rewritten(data, q, n).len() == 7 * n,
        (fx_chunks_rewritten(data, q, n) == data.subrange(q, q + 7 * n)) <==> fx_flags_binary(data, q, n),
    decreases n,
{
    if n > 0 {
        let m = (n - 1) as nat;
        let c = q + 7 * m;
        let k: int = (7 * m) as int;
        let l: int = (7 * n) as int;
        lemma_fx_chunks_rewritten_same(data, q, m);
        let a = fx_chunks_rewritten(data, q, m);
        let b = fx_chunk_rewritten(data, c);
        assert(data.subrange(q, q + 7 * n) =~= data.subrange(q, c) + data.subrange(c, c + 7));
        if a + b == data.subrange(q, q + 7 * n) {
            assert((a + b).subrange(0, k) =~= a);
            assert((a + b).subrange(k, l) =~= b);
            assert(data.subrange(q, q + l).subrange(0, k) =~= data.subrange(q, c));
            assert(data.subrange(q, q + l).subrange(k, l) =~= data.subrange(c, c + 7));
            assert(b[5] == data.subrange(c, c + 7)[5]);
            assert(b[6] == data.subrange(c, c + 7)[6]);
        }
        if fx_flags_binary(data, q, n) {
            assert(b =~= data.subrange(c, c + 7));
        }
    } else {
        assert(data.subrange(q, q) =~= Seq::<u8>::empty());
    }
}

/// The effects of a node: override flag, bypass flag and effect slots.
#[derive(Debug, Clone, Default)]
pub struct NodeInitialFxParams {
    pub is_override_parent_fx: u8,
    pub fx_bypass: bool,
    pub fx_chunks: Vec<FxChunk>,
}

impl Wire for NodeInitialFxParams {
    open spec fn wf(&self) -> bool {
        &&& self.fx_chunks@.len() <= u8::MAX
        &&& all_wf(self.fx_chunks@)
        &&& self.fx_chunks@.len() == 0 ==> !self.fx_bypass
    }

    open spec fn spec_bytes(&self) -> Seq<u8> {
        seq![self.is_override_parent_fx] + seq![self.fx_chunks@.len() as u8] + if self.fx_chunks@.len() > 0 {
            seq![if self.fx_bypass { 1u8 } else { 0u8 }] + list_bytes(self.fx_chunks@)
        } else {
            Seq::empty()
        }
    }

    open spec fn decodes_at(&self, data: Seq<u8>, pos: int) -> bool {
        &&& u8_at(data, pos, self.is_override_parent_fx)
        &&& u8_at(data, pos + 1, self.fx_chunks@.len() as u8)
        &&& self.fx_chunks@.len() > 0 ==> {
            &&& pos + 2 < data.len()
            &&& ((data[pos + 2] & 0x01) != 0) == self.fx_bypass
            &&& list_decodes_at(self.fx_chunks@, data, pos + 3)
        }
    }

    fn wire_read(r: &mut BinaryReader) -> (res: Result<Self>) {
        let is_override_parent_fx = r.read_u8()?;
        let num_fx = r.read_u8()?;
        if num_fx > 0 {
            let bits = r.read_u8()?;
            let fx_bypass = (bits & 0x01) != 0;
            let fx_chunks = r.read_items::<FxChunk>(num_fx as usize)?;
            Ok(Self { is_override_parent_fx, fx_bypass, fx_chunks })
        } else {
            Ok(Self { is_override_parent_fx, fx_bypass: false, fx_chunks: Vec::new() })
        }
    }

    fn wire_write(&self, w: &mut BinaryWriter) {
        self.write_fields(w)
    }

    proof fn lemma_canonical(&self, data: Seq<u8>, pos: int) {
        assert(1u8 & 0x01u8 == 1u8) by (bit_vector);
        assert(0u8 & 0x01u8 == 0u8) by (bit_vector);
        if self.fx_chunks@.len() > 0 {
            let b = seq![if self.fx_bypass { 1u8 } else { 0u8 }];
            assert(encoded_at(data, pos + 2, b + list_bytes(self.fx_chunks@)));
            assert(data.subrange(pos + 2, pos + 3)[0] == data[pos + 2]);
            lemma_list_canonical(self.fx_chunks@, data, pos + 3);
        }
    }
}

/// Two byte strings that agree before and after a middle part of one
/// length are equal exactly when their middle parts are.
pub proof fn lemma_same_but_middle(a: Seq<u8>, m1: Seq<u8>, m2: Seq<u8>, c: Seq<u8>)
    requires
        m1.len() == m2.len(),
    ensures
        (a + m1 + c == a + m2 + c) <==> (m1 == m2),
{
    if a + m1 + c == a + m2 + c {
        assert((a + m1 + c).subrange(a.len() as int, (a.len() + m1.len()) as int) =~= m1);
        assert((a + m2 + c).subrange(a.len() as int, (a.len() + m2.len()) as int) =~= m2);
    }
}

/// Writing back the effect parameters of a node that were read gives bytes
/// of the same length that differ from those read only where the original
/// is not canonical: the bypass byte comes back as its lowest bit, and each
/// flag byte of an effect chunk as 1 when it was non-zero. So the bytes come
/// back unchanged exactly when the bypass byte (if there is one) and every
/// flag byte are 0 or 1.
#[verifier::spinoff_prover]
#[verifier::rlimit(50)]
pub proof fn lemma_node_initial_fx_rewrite(x: NodeInitialFxParams, data: Seq<u8>, pos: int)
    requires
        x.wf(),
        x.decodes_at(data, pos),
    ensures
        pos + x.spec_bytes().len() <= data.len(),
        x.spec_bytes() == data.subrange(pos, pos + 2) + if x.fx_chunks@.len() > 0 {
            seq![data[pos + 2] & 1] + fx_chunks_rewritten(data, pos + 3, x.fx_chunks@.len())
        } else {
            Seq::empty()
        },
        encoded_at(data, pos, x.spec_bytes()) <==> ((x.fx_chunks@.len() == 0 || data[pos + 2] <= 1)
            && fx_flags_binary(data, pos + 3, x.fx_chunks@.len())),
{
    let n = x.fx_chunks@.len();
    let head = data.subrange(pos, pos + 2);
    assert(head =~= seq![x.is_override_parent_fx] + seq![n as u8]);
    if n > 0 {
        lemma_fx_chunks_rewrite(x.fx_chunks@, data, pos + 3);
        lemma_fx_chunks_rewritten_same(data, pos + 3, n);
        let bb = data[pos + 2];
        let r = fx_chunks_rewritten(data, pos + 3, n);
        let m = data.subrange(pos + 3, pos + 3 + 7 * n);
        assert(bb & 1u8 == 0u8 || bb & 1u8 == 1u8) by (bit_vector);
        assert((bb & 1u8 == bb) <==> bb <= 1) by (bit_vector);
        let wb: u8 = if x.fx_bypass { 1u8 } else { 0u8 };
        assert(wb == bb & 1);
        assert(x.spec_bytes() =~= head + (seq![bb & 1] + r));
        let t = data.subrange(pos, pos + 3 + 7 * n);
        assert(t =~= head + (seq![bb] + m) + Seq::<u8>::empty());
        assert(x.spec_bytes() =~= head + (seq![bb & 1] + r) + Seq::<u8>::empty());
        lemma_same_but_middle(head, seq![bb & 1] + r, seq![bb] + m, Seq::<u8>::empty());
        lemma_same_but_middle(Seq::<u8>::empty(), seq![bb & 1], seq![bb], r);
        lemma_same_but_middle(seq![bb], r, m, Seq::<u8>::empty());
        assert(Seq::<u8>::empty() + seq![bb & 1] + r =~= seq![bb & 1] + r);
        assert(Seq::<u8>::empty() + seq![bb] + r =~= seq![bb] + r);
        assert(seq![bb] + r + Seq::<u8>::empty() =~= seq![bb] + r);
        assert(seq![bb] + m + Seq::<u8>::empty() =~= seq![bb] + m);
    } else {
        assert(x.spec_bytes() =~= head);
        assert(x.spec_bytes() =~= head + Seq::<u8>::empty());
    }
}

impl NodeInitialFxParams {
    /// Read one value.
    pub fn read(r: &mut BinaryReader) -> (res: Result<Self>)
        ensures
            reads_value(*old(r), *final(r), res),
    {
        Self::wire_read(r)
    }

    fn write_fields(&self, w: &mut BinaryWriter)
        requires
            self.fx_chunks@.len() <= u8::MAX && all_wf(self.fx_chunks@),
        ensures
            final(w)@ == old(w)@ + self.spec_bytes(),
    {
        w.write_u8(self.is_override_parent_fx);
        w.write_u8(self.fx_chunks.len() as u8);
        if self.fx_chunks.len() > 0 {
            w.write_u8(if self.fx_bypass { 0x01 } else { 0x00 });
            w.write_items(self.fx_chunks.as_slice());
        }
    }

    /// Write this value: the bypass flag and the chunks as they are.
    pub fn write(&self, w: &mut BinaryWriter)
        requires
            self.fx_chunks@.len() <= u8::MAX && all_wf(self.fx_chunks@),
        ensures
            final(w)@ == old(w)@ + self.spec_bytes(),
    {
        self.write_fields(w)
    }
}

/// The property bundles of a node (plain and ranged).
#[derive(Debug, Clone, Default)]
pub struct NodeInitialParams {
    pub prop_bundle: PropBundle,
    pub prop_bundle_ranged: PropBundle,
}

impl Wire for NodeInitialParams {
    open spec fn wf(&self) -> bool {
        self.prop_bundle.wf() && self.prop_bundle_ranged.wf()
    }

    open spec fn spec_bytes(&self) -> Seq<u8> {
        self.prop_bundle.spec_bytes()
            + self.prop_bundle_ranged.spec_bytes()
    }

    open spec fn decodes_at(&self, data: Seq<u8>, pos: int) -> bool {
        &&& self.prop_bundle.decodes_at(data, pos)
        &&& self.prop_bundle_ranged.decodes_at(data, pos + self.prop_bundle.spec_bytes().len())
    }

    fn wire_read(r: &mut BinaryReader) -> (res: Result<Self>) {
        let prop_bundle = PropBundle::read(r, false, false)?;
        let prop_bundle_ranged = PropBundle::read(r, true, false)?;
        Ok(Self { prop_bundle, prop_bundle_ranged })
    }

    fn wire_write(&self, w: &mut BinaryWriter) {
        self.prop_bundle.wire_write(w);
        self.prop_bundle_ranged.wire_write(w);
    }

    proof fn lemma_canonical(&self, data: Seq<u8>, pos: int) {
        self.prop_bundle.lemma_canonical(data, pos);
        self.prop_bundle_ranged.lemma_canonical(data, pos + self.prop_bundle.spec_bytes().len());
    }
}

impl NodeInitialParams {
    /// Read one value.
    pub fn read(r: &mut BinaryReader) -> (res: Result<Self>)
        ensures
            reads_value(*old(r), *final(r), res),
    {
        Self::wire_read(r)
    }

    /// Write this value.
    pub fn write(&self, w: &mut BinaryWriter)
        requires
            self.wf(),
        ensures
            final(w)@ == old(w)@ + self.spec_bytes(),
    {
        self.wire_write(w)
    }
}
/// A vertex of a 3D path.
#[derive(Debug, Clone)]
pub struct PathVertex {
    /// IEEE-754 bits of an `f32`.
    pub x: u32,
    /// IEEE-754 bits of an `f32`.
    pub y: u32,
    /// IEEE-754 bits of an `f32`.
    pub z: u32,
    pub duration: i32,
}

impl Wire for PathVertex {
    open spec fn wf(&self) -> bool {
        true
    }

    open spec fn spec_bytes(&self) -> Seq<u8> {
        spec_u32_to_le_bytes(self.x)
            + spec_u32_to_le_bytes(self.y)
            + spec_u32_to_le_bytes(self.z)
            + spec_i32_to_le_bytes(self.duration)
    }

    open spec fn decodes_at(&self, data: Seq<u8>, pos: int) -> bool {
        &&& u32_at(data, pos, self.x)
        &&& u32_at(data, pos + 4, self.y)
        &&& u32_at(data, pos + 4 + 4, self.z)
        &&& i32_at(data, pos + 4 + 4 + 4, self.duration)
    }

    open spec fn read_error(data: Seq<u8>, pos: int) -> Option<Error> {
        layout_error(data, pos, seq![4, 4, 4, 4])
    }

    fn wire_read(r: &mut BinaryReader) -> (res: Result<Self>) {
        proof {
            reveal_with_fuel(layout_error, 5);
        }
        let x = r.read_u32()?;
        let y = r.read_u32()?;
        let z = r.read_u32()?;
        let duration = r.read_i32()?;
        Ok(Self { x, y, z, duration })
    }

    fn wire_write(&self, w: &mut BinaryWriter) {
        w.write_u32(self.x);
        w.write_u32(self.y);
        w.write_u32(self.z);
        w.write_i32(self.duration);
    }

    proof fn lemma_canonical(&self, data: Seq<u8>, pos: int) {
        assert(encoded_at(data, pos, spec_u32_to_le_bytes(self.x) + spec_u32_to_le_bytes(self.y) + spec_u32_to_le_bytes(self.z)));
        assert(encoded_at(data, pos + 4 + 4 + 4, spec_i32_to_le_bytes(self.duration)));
        assert(encoded_at(data, pos, spec_u32_to_le_bytes(self.x) + spec_u32_to_le_bytes(self.y)));
        assert(encoded_at(data, pos + 4 + 4, spec_u32_to_le_bytes(self.z)));
        assert(encoded_at(data, pos, spec_u32_to_le_bytes(self.x)));
        assert(encoded_at(data, pos + 4, spec_u32_to_le_bytes(self.y)));
    }
}

/// The layout of a `PathVertex` as Wwise writes it, 16 bytes: `x` (`u32`) at 0, `y` (`u32`) at
/// 4, `z` (`u32`) at 8, `duration` (`i32`) at 12.
pub proof fn lemma_path_vertex_layout(v: PathVertex, data: Seq<u8>, pos: int)
    requires
        v.decodes_at(data, pos),
    ensures
        u32_at(data, pos, v.x),
        u32_at(data, pos + 4, v.y),
        u32_at(data, pos + 8, v.z),
        i32_at(data, pos + 12, v.duration),
        v.spec_bytes() == spec_u32_to_le_bytes(v.x) + spec_u32_to_le_bytes(v.y) + spec_u32_to_le_bytes(v.z) + spec_i32_to_le_bytes(v.duration),
{
    assert(v.spec_bytes() =~= spec_u32_to_le_bytes(v.x) + spec_u32_to_le_bytes(v.y) + spec_u32_to_le_bytes(v.z) + spec_i32_to_le_bytes(v.duration));
}
/// Where one path starts in the vertex list and how long it is.
#[derive(Debug, Clone)]
pub struct PathListItemOffset {
    pub vertices_offset: u32,
    pub num_vertices: u32,
}

impl Wire for PathListItemOffset {
    open spec fn wf(&self) -> bool {
        true
    }

    open spec fn spec_bytes(&self) -> Seq<u8> {
        spec_u32_to_le_bytes(self.vertices_offset)
            + spec_u32_to_le_bytes(self.num_vertices)
    }

    open spec fn decodes_at(&self, data: Seq<u8>, pos: int) -> bool {
        &&& u32_at(data, pos, self.vertices_offset)
        &&& u32_at(data, pos + 4, self.num_vertices)
    }

    open spec fn read_error(data: Seq<u8>, pos: int) -> Option<Error> {
        layout_error(data, pos, seq![4, 4])
    }

    fn wire_read(r: &mut BinaryReader) -> (res: Result<Self>) {
        proof {
            reveal_with_fuel(layout_error, 3);
        }
        let vertices_offset = r.read_u32()?;
        let num_vertices = r.read_u32()?;
        Ok(Self { vertices_offset, num_vertices })
    }

    fn wire_write(&self, w: &mut BinaryWriter) {
        w.write_u32(self.vertices_offset);
        w.write_u32(self.num_vertices);
    }

    proof fn lemma_canonical(&self, data: Seq<u8>, pos: int) {
    }
}

/// The layout of a `PathListItemOffset` as Wwise writes it, 8 bytes: `vertices_offset` (`u32`)
/// at 0, `num_vertices` (`u32`) at 4.
pub proof fn lemma_path_list_item_offset_layout(v: PathListItemOffset, data: Seq<u8>, pos: int)
    requires
        v.decodes_at(data, pos),
    ensures
        u32_at(data, pos, v.vertices_offset),
        u32_at(data, pos + 4, v.num_vertices),
        v.spec_bytes() == spec_u32_to_le_bytes(v.vertices_offset) + spec_u32_to_le_bytes(v.num_vertices),
{
    assert(v.spec_bytes() =~= spec_u32_to_le_bytes(v.vertices_offset) + spec_u32_to_le_bytes(v.num_vertices));
}
/// The random ranges of one 3D path.
#[derive(Debug, Clone)]
pub struct Ak3DAutomationParams {
    /// IEEE-754 bits of an `f32`.
    pub x_range: u32,
    /// IEEE-754 bits of an `f32`.
    pub y_range: u32,
    /// IEEE-754 bits of an `f32`.
    pub z_range: u32,
}

impl Wire for Ak3DAutomationParams {
    open spec fn wf(&self) -> bool {
        true
    }

    open spec fn spec_bytes(&self) -> Seq<u8> {
        spec_u32_to_le_bytes(self.x_range)
            + spec_u32_to_le_bytes(self.y_range)
            + spec_u32_to_le_bytes(self.z_range)
    }

    open spec fn decodes_at(&self, data: Seq<u8>, pos: int) -> bool {
        &&& u32_at(data, pos, self.x_range)
        &&& u32_at(data, pos + 4, self.y_range)
        &&& u32_at(data, pos + 4 + 4, self.z_range)
    }

    open spec fn read_error(data: Seq<u8>, pos: int) -> Option<Error> {
        layout_error(data, pos, seq![4, 4, 4])
    }

    fn wire_read(r: &mut BinaryReader) -> (res: Result<Self>) {
        proof {
            reveal_with_fuel(layout_error, 4);
        }
        let x_range = r.read_u32()?;
        let y_range = r.read_u32()?;
        let z_range = r.read_u32()?;
        Ok(Self { x_range, y_range, z_range })
    }

    fn wire_write(&self, w: &mut BinaryWriter) {
        w.write_u32(self.x_range);
        w.write_u32(self.y_range);
        w.write_u32(self.z_range);
    }

    proof fn lemma_canonical(&self, data: Seq<u8>, pos: int) {
    }
}

/// The layout of a `Ak3DAutomationParams` as Wwise writes it, 12 bytes: `x_range` (`u32`) at 0,
/// `y_range` (`u32`) at 4, `z_range` (`u32`) at 8.
pub proof fn lemma_ak3d_automation_params_layout(v: Ak3DAutomationParams, data: Seq<u8>, pos: int)
    requires
        v.decodes_at(data, pos),
    ensures
        u32_at(data, pos, v.x_range),
        u32_at(data, pos + 4, v.y_range),
        u32_at(data, pos + 8, v.z_range),
        v.spec_bytes() == spec_u32_to_le_bytes(v.x_range) + spec_u32_to_le_bytes(v.y_range) + spec_u32_to_le_bytes(v.z_range),
{
    assert(v.spec_bytes() =~= spec_u32_to_le_bytes(v.x_range) + spec_u32_to_le_bytes(v.y_range) + spec_u32_to_le_bytes(v.z_range));
}
/// Flag bit 3 of the positioning flags: the node is positioned in 3D.
pub open spec fn is_3d(flags: u8) -> bool {
    (flags & 0x08) != 0
}

/// A 3D position type other than 1 carries path data.
pub open spec fn has_path(flags_3d: u8) -> bool {
    (flags_3d & 0x03) != 1
}

/// Positioning of a node; the 3D parts are present as the flags announce.
#[derive(Debug, Clone)]
pub struct PositioningParams {
    pub flags: u8,
    pub flags_3d: Option<u8>,
    pub attenuation_id: Option<u32>,
    pub path_mode: Option<u8>,
    pub transition_time: Option<i32>,
    pub path_vertices: Vec<PathVertex>,
    pub path_list_items: Vec<PathListItemOffset>,
    pub automation_params: Vec<Ak3DAutomationParams>,
}

impl Wire for PositioningParams {
    open spec fn wf(&self) -> bool {
        &&& (self.flags_3d is Some) == is_3d(self.flags)
        &&& all_wf(self.path_vertices@) && all_wf(self.path_list_items@) && all_wf(self.automation_params@)
        &&& match self.flags_3d {
            Some(f) => {
                &&& self.attenuation_id is Some
                &&& (self.path_mode is Some) == has_path(f)
                &&& (self.transition_time is Some) == has_path(f)
                &&& has_path(f) ==> {
                    &&& self.path_vertices@.len() <= u32::MAX
                    &&& self.path_list_items@.len() <= u32::MAX
                    &&& self.automation_params@.len() == self.path_list_items@.len()
                }
                &&& !has_path(f) ==> {
                    &&& self.path_vertices@.len() == 0
                    &&& self.path_list_items@.len() == 0
                    &&& self.automation_params@.len() == 0
                }
            },
            None => {
                &&& self.attenuation_id is None
                &&& self.path_mode is None
                &&& self.transition_time is None
                &&& self.path_vertices@.len() == 0
                &&& self.path_list_items@.len() == 0
                &&& self.automation_params@.len() == 0
            },
        }
    }

    open spec fn spec_bytes(&self) -> Seq<u8> {
        seq![self.flags] + match self.flags_3d {
            Some(f) => seq![f] + spec_u32_to_le_bytes(
                match self.attenuation_id {
                    Some(a) => a,
                    None => 0,
                },
            ) + if has_path(f) {
                seq![
                    match self.path_mode {
                        Some(m) => m,
                        None => 0,
                    },
                ] + spec_i32_to_le_bytes(
                    match self.transition_time {
                        Some(t) => t,
                        None => 0,
                    },
                )
                    + list_u32_bytes(self.path_vertices@) + list_u32_bytes(self.path_list_items@)
                    + list_bytes(self.automation_params@)
            } else {
                Seq::empty()
            },
            None => Seq::empty(),
        }
    }

    open spec fn decodes_at(&self, data: Seq<u8>, pos: int) -> bool {
        &&& u8_at(data, pos, self.flags)
        &&& self.flags_3d matches Some(f) ==> {
            &&& u8_at(data, pos + 1, f)
            &&& self.attenuation_id matches Some(a) && u32_at(data, pos + 2, a)
            &&& has_path(f) ==> {
                let lv = list_bytes(self.path_vertices@).len();
                let li = list_bytes(self.path_list_items@).len();
                &&& self.path_mode matches Some(m) && u8_at(data, pos + 6, m)
                &&& self.transition_time matches Some(t) && i32_at(data, pos + 7, t)
                &&& u32_at(data, pos + 11, self.path_vertices@.len() as u32)
                &&& list_decodes_at(self.path_vertices@, data, pos + 15)
                &&& u32_at(data, pos + 15 + lv, self.path_list_items@.len() as u32)
                &&& list_decodes_at(self.path_list_items@, data, pos + 19 + lv)
                &&& list_decodes_at(self.automation_params@, data, pos + 19 + lv + li)
            }
        }
    }

    fn wire_read(r: &mut BinaryReader) -> (res: Result<Self>) {
        let flags = r.read_u8()?;
        let is_3d = (flags & 0x08) != 0;
        if !is_3d {
            return Ok(Self {
                flags,
                flags_3d: None,
                attenuation_id: None,
                path_mode: None,
                transition_time: None,
                path_vertices: Vec::new(),
                path_list_items: Vec::new(),
                automation_params: Vec::new(),
            });
        }
        let f3d = r.read_u8()?;
        let attenuation_id = r.read_u32()?;
        let e3d_position_type = f3d & 0x03;
        if e3d_position_type == 1 {
            return Ok(Self {
                flags,
                flags_3d: Some(f3d),
                attenuation_id: Some(attenuation_id),
                path_mode: None,
                transition_time: None,
                path_vertices: Vec::new(),
                path_list_items: Vec::new(),
                automation_params: Vec::new(),
            });
        }
        let path_mode = r.read_u8()?;
        let transition_time = r.read_i32()?;
        let path_vertices = r.read_list_u32::<PathVertex>()?;
        let path_list_items = r.read_list_u32::<PathListItemOffset>()?;
        let automation_params = r.read_items::<Ak3DAutomationParams>(path_list_items.len())?;
        Ok(Self {
            flags,
            flags_3d: Some(f3d),
            attenuation_id: Some(attenuation_id),
            path_mode: Some(path_mode),
            transition_time: Some(transition_time),
            path_vertices,
            path_list_items,
            automation_params,
        })
    }

    fn wire_write(&self, w: &mut BinaryWriter) {
        self.write_fields(w)
    }

    proof fn lemma_canonical(&self, data: Seq<u8>, pos: int) {
        if let Some(f) = self.flags_3d {
            if has_path(f) {
                lemma_list_canonical(self.path_vertices@, data, pos + 15);
                let lv = list_bytes(self.path_vertices@).len();
                lemma_list_canonical(self.path_list_items@, data, pos + 19 + lv);
                let li = list_bytes(self.path_list_items@).len();
                lemma_list_canonical(self.automation_params@, data, pos + 19 + lv + li);
            }
        }
    }
}

impl PositioningParams {
    /// Read one value.
    pub fn read(r: &mut BinaryReader) -> (res: Result<Self>)
        ensures
            reads_value(*old(r), *final(r), res),
    {
        Self::wire_read(r)
    }

    fn write_fields(&self, w: &mut BinaryWriter)
        requires
            all_wf(self.path_vertices@) && all_wf(self.path_list_items@) && all_wf(self.automation_params@)
                && self.path_vertices@.len() <= u32::MAX && self.path_list_items@.len() <= u32::MAX,
        ensures
            final(w)@ == old(w)@ + self.spec_bytes(),
    {
        w.write_u8(self.flags);
        if let Some(f3d) = self.flags_3d {
            w.write_u8(f3d);
            match self.attenuation_id {
                Some(a) => w.write_u32(a),
                None => w.write_u32(0),
            }
            let e3d_position_type = f3d & 0x03;
            if e3d_position_type != 1 {
                match self.path_mode {
                    Some(m) => w.write_u8(m),
                    None => w.write_u8(0),
                }
                match self.transition_time {
                    Some(t) => w.write_i32(t),
                    None => w.write_i32(0),
                }
                w.write_list_u32(self.path_vertices.as_slice());
                w.write_list_u32(self.path_list_items.as_slice());
                w.write_items(self.automation_params.as_slice());
            }
        }
    }

    /// Write this value: the flags as they are, then, when the 3D flags are present, the attenuation ID (0 when absent) and, for a position type with a path, the path mode and transition time (0 when absent) and the path lists.
    pub fn write(&self, w: &mut BinaryWriter)
        requires
            all_wf(self.path_vertices@) && all_wf(self.path_list_items@) && all_wf(self.automation_params@)
                && self.path_vertices@.len() <= u32::MAX && self.path_list_items@.len() <= u32::MAX,
        ensures
            final(w)@ == old(w)@ + self.spec_bytes(),
    {
        self.write_fields(w)
    }
}

/// Advanced playback settings of a node.
#[derive(Debug, Clone)]
pub struct AdvSettingsParams {
    pub flags: u8,
    pub virtual_queue_behavior: u8,
    pub max_num_instances: u16,
    pub below_threshold_behavior: u8,
    pub flags2: u8,
}

impl Wire for AdvSettingsParams {
    open spec fn wf(&self) -> bool {
        true
    }

    open spec fn spec_bytes(&self) -> Seq<u8> {
        seq![self.flags]
            + seq![self.virtual_queue_behavior]
            + spec_u16_to_le_bytes(self.max_num_instances)
            + seq![self.below_threshold_behavior]
            + seq![self.flags2]
    }

    open spec fn decodes_at(&self, data: Seq<u8>, pos: int) -> bool {
        &&& u8_at(data, pos, self.flags)
        &&& u8_at(data, pos + 1, self.virtual_queue_behavior)
        &&& u16_at(data, pos + 1 + 1, self.max_num_instances)
        &&& u8_at(data, pos + 1 + 1 + 2, self.below_threshold_behavior)
        &&& u8_at(data, pos + 1 + 1 + 2 + 1, self.flags2)
    }

    open spec fn read_error(data: Seq<u8>, pos: int) -> Option<Error> {
        layout_error(data, pos, seq![1, 1, 2, 1, 1])
    }

    fn wire_read(r: &mut BinaryReader) -> (res: Result<Self>) {
        proof {
            reveal_with_fuel(layout_error, 6);
        }
        let flags = r.read_u8()?;
        let virtual_queue_behavior = r.read_u8()?;
        let max_num_instances = r.read_u16()?;
        let below_threshold_behavior = r.read_u8()?;
        let flags2 = r.read_u8()?;
        Ok(Self { flags, virtual_queue_behavior, max_num_instances, below_threshold_behavior, flags2 })
    }

    fn wire_write(&self, w: &mut BinaryWriter) {
        w.write_u8(self.flags);
        w.write_u8(self.virtual_queue_behavior);
        w.write_u16(self.max_num_instances);
        w.write_u8(self.below_threshold_behavior);
        w.write_u8(self.flags2);
    }

    proof fn lemma_canonical(&self, data: Seq<u8>, pos: int) {
        assert(encoded_at(data, pos, seq![self.flags] + seq![self.virtual_queue_behavior] + spec_u16_to_le_bytes(self.max_num_instances) + seq![self.below_threshold_behavior]));
        assert(encoded_at(data, pos + 1 + 1 + 2 + 1, seq![self.flags2]));
        assert(encoded_at(data, pos, seq![self.flags] + seq![self.virtual_queue_behavior] + spec_u16_to_le_bytes(self.max_num_instances)));
        assert(encoded_at(data, pos + 1 + 1 + 2, seq![self.below_threshold_behavior]));
        assert(encoded_at(data, pos, seq![self.flags] + seq![self.virtual_queue_behavior]));
        assert(encoded_at(data, pos + 1 + 1, spec_u16_to_le_bytes(self.max_num_instances)));
        assert(encoded_at(data, pos, seq![self.flags]));
        assert(encoded_at(data, pos + 1, seq![self.virtual_queue_behavior]));
    }
}

/// The layout of a `AdvSettingsParams` as Wwise writes it, 6 bytes: `flags` (byte) at 0,
/// `virtual_queue_behavior` (byte) at 1, `max_num_instances` (`u16`) at 2,
/// `below_threshold_behavior` (byte) at 4, `flags2` (byte) at 5.
pub proof fn lemma_adv_settings_params_layout(v: AdvSettingsParams, data: Seq<u8>, pos: int)
    requires
        v.decodes_at(data, pos),
    ensures
        u8_at(data, pos, v.flags),
        u8_at(data, pos + 1, v.virtual_queue_behavior),
        u16_at(data, pos + 2, v.max_num_instances),
        u8_at(data, pos + 4, v.below_threshold_behavior),
        u8_at(data, pos + 5, v.flags2),
        v.spec_bytes() == seq![v.flags] + seq![v.virtual_queue_behavior] + spec_u16_to_le_bytes(v.max_num_instances) + seq![v.below_threshold_behavior] + seq![v.flags2],
{
    assert(v.spec_bytes() =~= seq![v.flags] + seq![v.virtual_queue_behavior] + spec_u16_to_le_bytes(v.max_num_instances) + seq![v.below_threshold_behavior] + seq![v.flags2]);
}

impl AdvSettingsParams {
    /// Read one value.
    pub fn read(r: &mut BinaryReader) -> (res: Result<Self>)
        ensures
            reads_value(*old(r), *final(r), res),
    {
        Self::wire_read(r)
    }

    /// Write this value.
    pub fn write(&self, w: &mut BinaryWriter)
        requires
            self.wf(),
        ensures
            final(w)@ == old(w)@ + self.spec_bytes(),
    {
        self.wire_write(w)
    }
}
/// Flag bit 3 of the aux flags: four aux bus IDs follow.
pub open spec fn has_aux(flags: u8) -> bool {
    (flags & 0x08) != 0
}

/// The aux sends of a node.
#[derive(Debug, Clone)]
pub struct AuxParams {
    pub flags: u8,
    pub aux_ids: Option<[u32; 4]>,
}

impl Wire for AuxParams {
    open spec fn wf(&self) -> bool {
        (self.aux_ids is Some) == has_aux(self.flags)
    }

    open spec fn spec_bytes(&self) -> Seq<u8> {
        seq![self.flags] + match self.aux_ids {
            Some(ids) => spec_u32_to_le_bytes(ids@[0]) + spec_u32_to_le_bytes(ids@[1]) + spec_u32_to_le_bytes(ids@[2])
                + spec_u32_to_le_bytes(ids@[3]),
            None => Seq::empty(),
        }
    }

    open spec fn decodes_at(&self, data: Seq<u8>, pos: int) -> bool {
        &&& u8_at(data, pos, self.flags)
        &&& self.aux_ids matches Some(ids) ==> {
            &&& u32_at(data, pos + 1, ids@[0])
            &&& u32_at(data, pos + 5, ids@[1])
            &&& u32_at(data, pos + 9, ids@[2])
            &&& u32_at(data, pos + 13, ids@[3])
        }
    }

    fn wire_read(r: &mut BinaryReader) -> (res: Result<Self>) {
        Self::read_fields(r)
    }

    fn wire_write(&self, w: &mut BinaryWriter) {
        self.write_fields(w)
    }

    proof fn lemma_canonical(&self, data: Seq<u8>, pos: int) {

    }
}

impl AuxParams {
    fn read_fields(r: &mut BinaryReader) -> (res: Result<Self>)
        ensures
            final(r).data() == old(r).data(),
            res matches Ok(v) ==> {
                &&& v.wf()
                &&& v.decodes_at(old(r).data(), old(r).pos())
                &&& final(r).pos() == old(r).pos() + v.spec_bytes().len()
            },
            forall|w: Self|
                #[trigger] w.decodes_at(old(r).data(), old(r).pos()) && w.wf() ==> (res matches Ok(v)
                    && v.spec_bytes() == w.spec_bytes()),
            ({
                let d = old(r).data();
                let p = old(r).pos();
                p < d.len() && has_aux(d[p]) && p + 17 > d.len() ==> res matches Err(Error::UnexpectedEof { .. })
            }),
    {
        let flags = r.read_u8()?;
        let has_aux = (flags & 0x08) != 0;
        if has_aux {
            let a = r.read_u32()?;
            let b = r.read_u32()?;
            let c = r.read_u32()?;
            let d = r.read_u32()?;
            let ids = [a, b, c, d];
            assert(ids@ == seq![a, b, c, d]);
            Ok(Self { flags, aux_ids: Some(ids) })
        } else {
            Ok(Self { flags, aux_ids: None })
        }
    }

    /// Read one value: the flags, then four IDs when the flags announce
    /// them; when they are announced but do not fit, the read ends with an
    /// end-of-data error.
    pub fn read(r: &mut BinaryReader) -> (res: Result<Self>)
        ensures
            reads_value(*old(r), *final(r), res),
            ({
                let d = old(r).data();
                let p = old(r).pos();
                p < d.len() && has_aux(d[p]) && p + 17 > d.len() ==> res matches Err(Error::UnexpectedEof { .. })
            }),
    {
        Self::read_fields(r)
    }

    fn write_fields(&self, w: &mut BinaryWriter)
        ensures
            final(w)@ == old(w)@ + self.spec_bytes(),
    {
        w.write_u8(self.flags);
        if let Some(ids) = &self.aux_ids {
            w.write_u32(ids[0]);
            w.write_u32(ids[1]);
            w.write_u32(ids[2]);
            w.write_u32(ids[3]);
        }
    }

    /// Write this value: the flags as they are, then the four IDs when present.
    pub fn write(&self, w: &mut BinaryWriter)
        ensures
            final(w)@ == old(w)@ + self.spec_bytes(),
    {
        self.write_fields(w)
    }
}

/// The parameters every audio node starts with.
#[derive(Debug, Clone)]
pub struct NodeBaseParams {
    pub node_initial_fx_params: NodeInitialFxParams,
    pub override_attachment_params: u8,
    pub override_bus_id: u32,
    pub direct_parent_id: u32,
    pub flags: u8,
    pub node_initial_params: NodeInitialParams,
    pub positioning_params: PositioningParams,
    pub aux_params: AuxParams,
    pub adv_settings_params: AdvSettingsParams,
    pub state_chunk: StateChunk,
    pub initial_rtpc: InitialRtpc,
    /// Present exactly when the bank has feedback.
    pub feedback_bus_id: Option<u32>,
}

impl NodeBaseParams {
    /// The value can be written and read back.
    pub open spec fn wf(&self) -> bool {
        self.node_initial_fx_params.wf() && self.node_initial_params.wf() && self.positioning_params.wf() && self.aux_params.wf() && self.adv_settings_params.wf() && self.state_chunk.wf() && self.initial_rtpc.wf()
    }

    /// Optional feedback fields are present exactly when the bank has feedback.
    pub open spec fn ctx_ok(&self, has_feedback: bool) -> bool {
        (self.feedback_bus_id is Some) == has_feedback
    }

    /// The bytes the writer produces.
    pub open spec fn spec_bytes(&self) -> Seq<u8> {
        self.node_initial_fx_params.spec_bytes()
            + seq![self.override_attachment_params]
            + spec_u32_to_le_bytes(self.override_bus_id)
            + spec_u32_to_le_bytes(self.direct_parent_id)
            + seq![self.flags]
            + self.node_initial_params.spec_bytes()
            + self.positioning_params.spec_bytes()
            + self.aux_params.spec_bytes()
            + self.adv_settings_params.spec_bytes()
            + self.state_chunk.spec_bytes()
            + self.initial_rtpc.spec_bytes()
            + (match self.feedback_bus_id { Some(x) => spec_u32_to_le_bytes(x), None => Seq::<u8>::empty() })
    }

    /// `data` holds, at `pos`, bytes that the reader turns into this value.
    pub open spec fn decodes_at(&self, data: Seq<u8>, pos: int) -> bool {
        &&& self.node_initial_fx_params.decodes_at(data, pos)
        &&& u8_at(data, pos + self.node_initial_fx_params.spec_bytes().len(), self.override_attachment_params)
        &&& u32_at(data, pos + self.node_initial_fx_params.spec_bytes().len() + 1, self.override_bus_id)
        &&& u32_at(data, pos + self.node_initial_fx_params.spec_bytes().len() + 1 + 4, self.direct_parent_id)
        &&& u8_at(data, pos + self.node_initial_fx_params.spec_bytes().len() + 1 + 4 + 4, self.flags)
        &&& self.node_initial_params.decodes_at(data, pos + self.node_initial_fx_params.spec_bytes().len() + 1 + 4 + 4 + 1)
        &&& self.positioning_params.decodes_at(data, pos + self.node_initial_fx_params.spec_bytes().len() + 1 + 4 + 4 + 1 + self.node_initial_params.spec_bytes().len())
        &&& self.aux_params.decodes_at(data, pos + self.node_initial_fx_params.spec_bytes().len() + 1 + 4 + 4 + 1 + self.node_initial_params.spec_bytes().len() + self.positioning_params.spec_bytes().len())
        &&& self.adv_settings_params.decodes_at(data, pos + self.node_initial_fx_params.spec_bytes().len() + 1 + 4 + 4 + 1 + self.node_initial_params.spec_bytes().len() + self.positioning_params.spec_bytes().len() + self.aux_params.spec_bytes().len())
        &&& self.state_chunk.decodes_at(data, pos + self.node_initial_fx_params.spec_bytes().len() + 1 + 4 + 4 + 1 + self.node_initial_params.spec_bytes().len() + self.positioning_params.spec_bytes().len() + self.aux_params.spec_bytes().len() + self.adv_settings_params.spec_bytes().len())
        &&& self.initial_rtpc.decodes_at(data, pos + self.node_initial_fx_params.spec_bytes().len() + 1 + 4 + 4 + 1 + self.node_initial_params.spec_bytes().len() + self.positioning_params.spec_bytes().len() + self.aux_params.spec_bytes().len() + self.adv_settings_params.spec_bytes().len() + self.state_chunk.spec_bytes().len())
        &&& (self.feedback_bus_id matches Some(x) ==> u32_at(data, pos + self.node_initial_fx_params.spec_bytes().len() + 1 + 4 + 4 + 1 + self.node_initial_params.spec_bytes().len() + self.positioning_params.spec_bytes().len() + self.aux_params.spec_bytes().len() + self.adv_settings_params.spec_bytes().len() + self.state_chunk.spec_bytes().len() + self.initial_rtpc.spec_bytes().len(), x))
    }

    /// Read one value; `has_feedback` says whether the bank carries feedback fields.
    pub fn read(r: &mut BinaryReader, has_feedback: bool) -> (res: Result<Self>)
        ensures
            final(r).data() == old(r).data(),
            res matches Ok(v) ==> {
                &&& v.wf()
                &&& v.ctx_ok(has_feedback)
                &&& v.decodes_at(old(r).data(), old(r).pos())
                &&& final(r).pos() == old(r).pos() + v.spec_bytes().len()
            },
            forall|w: Self|
                #[trigger] w.decodes_at(old(r).data(), old(r).pos()) && w.wf() && w.ctx_ok(has_feedback)
                    ==> (res matches Ok(v) && v.spec_bytes() == w.spec_bytes()),
    {
        let node_initial_fx_params = NodeInitialFxParams::wire_read(r)?;
        let override_attachment_params = r.read_u8()?;
        let override_bus_id = r.read_u32()?;
        let direct_parent_id = r.read_u32()?;
        let flags = r.read_u8()?;
        let node_initial_params = NodeInitialParams::wire_read(r)?;
        let positioning_params = PositioningParams::wire_read(r)?;
        let aux_params = AuxParams::wire_read(r)?;
        let adv_settings_params = AdvSettingsParams::wire_read(r)?;
        let state_chunk = StateChunk::wire_read(r)?;
        let initial_rtpc = InitialRtpc::wire_read(r)?;
        let feedback_bus_id = if has_feedback { Some(r.read_u32()?) } else { None };
        Ok(Self { node_initial_fx_params, override_attachment_params, override_bus_id, direct_parent_id, flags, node_initial_params, positioning_params, aux_params, adv_settings_params, state_chunk, initial_rtpc, feedback_bus_id })
    }

    /// Write this value.
    #[verifier::spinoff_prover]
    #[verifier::rlimit(50)]
    pub fn write(&self, w: &mut BinaryWriter)
        requires
            self.wf(),
        ensures
            final(w)@ == old(w)@ + self.spec_bytes(),
    {
        self.node_initial_fx_params.wire_write(w);
        w.write_u8(self.override_attachment_params);
        w.write_u32(self.override_bus_id);
        w.write_u32(self.direct_parent_id);
        w.write_u8(self.flags);
        self.node_initial_params.wire_write(w);
        self.positioning_params.wire_write(w);
        self.aux_params.wire_write(w);
        self.adv_settings_params.wire_write(w);
        self.state_chunk.wire_write(w);
        self.initial_rtpc.wire_write(w);
        if let Some(x) = self.feedback_bus_id {
            w.write_u32(x);
        }
    }

    /// The written bytes are accepted by the reader as this very value.
    #[verifier::spinoff_prover]
    #[verifier::rlimit(50)]
    pub proof fn lemma_canonical(&self, data: Seq<u8>, pos: int)
        requires
            self.wf(),
            encoded_at(data, pos, self.spec_bytes()),
        ensures
            self.decodes_at(data, pos),
    {
        assert(encoded_at(data, pos, self.node_initial_fx_params.spec_bytes() + seq![self.override_attachment_params] + spec_u32_to_le_bytes(self.override_bus_id) + spec_u32_to_le_bytes(self.direct_parent_id) + seq![self.flags] + self.node_initial_params.spec_bytes() + self.positioning_params.spec_bytes() + self.aux_params.spec_bytes() + self.adv_settings_params.spec_bytes() + self.state_chunk.spec_bytes() + self.initial_rtpc.spec_bytes()));
        assert(encoded_at(data, pos + self.node_initial_fx_params.spec_bytes().len() + 1 + 4 + 4 + 1 + self.node_initial_params.spec_bytes().len() + self.positioning_params.spec_bytes().len() + self.aux_params.spec_bytes().len() + self.adv_settings_params.spec_bytes().len() + self.state_chunk.spec_bytes().len() + self.initial_rtpc.spec_bytes().len(), (match self.feedback_bus_id { Some(x) => spec_u32_to_le_bytes(x), None => Seq::<u8>::empty() })));
        assert(encoded_at(data, pos, self.node_initial_fx_params.spec_bytes() + seq![self.override_attachment_params] + spec_u32_to_le_bytes(self.override_bus_id) + spec_u32_to_le_bytes(self.direct_parent_id) + seq![self.flags] + self.node_initial_params.spec_bytes() + self.positioning_params.spec_bytes() + self.aux_params.spec_bytes() + self.adv_settings_params.spec_bytes() + self.state_chunk.spec_bytes()));
        assert(encoded_at(data, pos + self.node_initial_fx_params.spec_bytes().len() + 1 + 4 + 4 + 1 + self.node_initial_params.spec_bytes().len() + self.positioning_params.spec_bytes().len() + self.aux_params.spec_bytes().len() + self.adv_settings_params.spec_bytes().len() + self.state_chunk.spec_bytes().len(), self.initial_rtpc.spec_bytes()));
        assert(encoded_at(data, pos, self.node_initial_fx_params.spec_bytes() + seq![self.override_attachment_params] + spec_u32_to_le_bytes(self.override_bus_id) + spec_u32_to_le_bytes(self.direct_parent_id) + seq![self.flags] + self.node_initial_params.spec_bytes() + self.positioning_params.spec_bytes() + self.aux_params.spec_bytes() + self.adv_settings_params.spec_bytes()));
        assert(encoded_at(data, pos + self.node_initial_fx_params.spec_bytes().len() + 1 + 4 + 4 + 1 + self.node_initial_params.spec_bytes().len() + self.positioning_params.spec_bytes().len() + self.aux_params.spec_bytes().len() + self.adv_settings_params.spec_bytes().len(), self.state_chunk.spec_bytes()));
        assert(encoded_at(data, pos, self.node_initial_fx_params.spec_bytes() + seq![self.override_attachment_params] + spec_u32_to_le_bytes(self.override_bus_id) + spec_u32_to_le_bytes(self.direct_parent_id) + seq![self.flags] + self.node_initial_params.spec_bytes() + self.positioning_params.spec_bytes() + self.aux_params.spec_bytes()));
        assert(encoded_at(data, pos + self.node_initial_fx_params.spec_bytes().len() + 1 + 4 + 4 + 1 + self.node_initial_params.spec_bytes().len() + self.positioning_params.spec_bytes().len() + self.aux_params.spec_bytes().len(), self.adv_settings_params.spec_bytes()));
        assert(encoded_at(data, pos, self.node_initial_fx_params.spec_bytes() + seq![self.override_attachment_params] + spec_u32_to_le_bytes(self.override_bus_id) + spec_u32_to_le_bytes(self.direct_parent_id) + seq![self.flags] + self.node_initial_params.spec_bytes() + self.positioning_params.spec_bytes()));
        assert(encoded_at(data, pos + self.node_initial_fx_params.spec_bytes().len() + 1 + 4 + 4 + 1 + self.node_initial_params.spec_bytes().len() + self.positioning_params.spec_bytes().len(), self.aux_params.spec_bytes()));
        assert(encoded_at(data, pos, self.node_initial_fx_params.spec_bytes() + seq![self.override_attachment_params] + spec_u32_to_le_bytes(self.override_bus_id) + spec_u32_to_le_bytes(self.direct_parent_id) + seq![self.flags] + self.node_initial_params.spec_bytes()));
        assert(encoded_at(data, pos + self.node_initial_fx_params.spec_bytes().len() + 1 + 4 + 4 + 1 + self.node_initial_params.spec_bytes().len(), self.positioning_params.spec_bytes()));
        assert(encoded_at(data, pos, self.node_initial_fx_params.spec_bytes() + seq![self.override_attachment_params] + spec_u32_to_le_bytes(self.override_bus_id) + spec_u32_to_le_bytes(self.direct_parent_id) + seq![self.flags]));
        assert(encoded_at(data, pos + self.node_initial_fx_params.spec_bytes().len() + 1 + 4 + 4 + 1, self.node_initial_params.spec_bytes()));
        assert(encoded_at(data, pos, self.node_initial_fx_params.spec_bytes() + seq![self.override_attachment_params] + spec_u32_to_le_bytes(self.override_bus_id) + spec_u32_to_le_bytes(self.direct_parent_id)));
        assert(encoded_at(data, pos + self.node_initial_fx_params.spec_bytes().len() + 1 + 4 + 4, seq![self.flags]));
        assert(encoded_at(data, pos, self.node_initial_fx_params.spec_bytes() + seq![self.override_attachment_params] + spec_u32_to_le_bytes(self.override_bus_id)));
        assert(encoded_at(data, pos + self.node_initial_fx_params.spec_bytes().len() + 1 + 4, spec_u32_to_le_bytes(self.direct_parent_id)));
        assert(encoded_at(data, pos, self.node_initial_fx_params.spec_bytes() + seq![self.override_attachment_params]));
        assert(encoded_at(data, pos + self.node_initial_fx_params.spec_bytes().len() + 1, spec_u32_to_le_bytes(self.override_bus_id)));
        assert(encoded_at(data, pos, self.node_initial_fx_params.spec_bytes()));
        assert(encoded_at(data, pos + self.node_initial_fx_params.spec_bytes().len(), seq![self.override_attachment_params]));
        self.node_initial_fx_params.lemma_canonical(data, pos);
        self.node_initial_params.lemma_canonical(data, pos + self.node_initial_fx_params.spec_bytes().len() + 1 + 4 + 4 + 1);
        self.positioning_params.lemma_canonical(data, pos + self.node_initial_fx_params.spec_bytes().len() + 1 + 4 + 4 + 1 + self.node_initial_params.spec_bytes().len());
        self.aux_params.lemma_canonical(data, pos + self.node_initial_fx_params.spec_bytes().len() + 1 + 4 + 4 + 1 + self.node_initial_params.spec_bytes().len() + self.positioning_params.spec_bytes().len());
        self.adv_settings_params.lemma_canonical(data, pos + self.node_initial_fx_params.spec_bytes().len() + 1 + 4 + 4 + 1 + self.node_initial_params.spec_bytes().len() + self.positioning_params.spec_bytes().len() + self.aux_params.spec_bytes().len());
        self.state_chunk.lemma_canonical(data, pos + self.node_initial_fx_params.spec_bytes().len() + 1 + 4 + 4 + 1 + self.node_initial_params.spec_bytes().len() + self.positioning_params.spec_bytes().len() + self.aux_params.spec_bytes().len() + self.adv_settings_params.spec_bytes().len());
        self.initial_rtpc.lemma_canonical(data, pos + self.node_initial_fx_params.spec_bytes().len() + 1 + 4 + 4 + 1 + self.node_initial_params.spec_bytes().len() + self.positioning_params.spec_bytes().len() + self.aux_params.spec_bytes().len() + self.adv_settings_params.spec_bytes().len() + self.state_chunk.spec_bytes().len());
    }
}

/// The base parameters of a node as Wwise lays them out: the effect
/// parameters (`f` bytes), the override-attachment byte at `f`, the override
/// bus ID (`u32`) at `f + 1`, the direct parent ID (`u32`) at `f + 5`, the
/// flags byte at `f + 9`, then the initial parameters, positioning, auxiliary
/// sends, advanced settings, state chunk and RTPCs one after another, and,
/// when the bank carries feedback, the feedback bus ID (`u32`) last.
#[verifier::spinoff_prover]
#[verifier::rlimit(50)]
pub proof fn lemma_node_base_layout(v: NodeBaseParams, data: Seq<u8>, pos: int)
    requires
        v.decodes_at(data, pos),
    ensures
        ({
            let f = v.node_initial_fx_params.spec_bytes().len() as int;
            let a = pos + f + 10 + v.node_initial_params.spec_bytes().len();
            let b = a + v.positioning_params.spec_bytes().len();
            let c = b + v.aux_params.spec_bytes().len();
            let d = c + v.adv_settings_params.spec_bytes().len();
            let e = d + v.state_chunk.spec_bytes().len();
            let g = e + v.initial_rtpc.spec_bytes().len();
            &&& v.node_initial_fx_params.decodes_at(data, pos)
            &&& u8_at(data, pos + f, v.override_attachment_params)
            &&& u32_at(data, pos + f + 1, v.override_bus_id)
            &&& u32_at(data, pos + f + 5, v.direct_parent_id)
            &&& u8_at(data, pos + f + 9, v.flags)
            &&& v.node_initial_params.decodes_at(data, pos + f + 10)
            &&& v.positioning_params.decodes_at(data, a)
            &&& v.aux_params.decodes_at(data, b)
            &&& v.adv_settings_params.decodes_at(data, c)
            &&& v.state_chunk.decodes_at(data, d)
            &&& v.initial_rtpc.decodes_at(data, e)
            &&& v.feedback_bus_id matches Some(x) ==> u32_at(data, g, x)
            &&& v.spec_bytes().subrange(f + 1, f + 5) == spec_u32_to_le_bytes(v.override_bus_id)
            &&& v.spec_bytes().subrange(f + 5, f + 9) == spec_u32_to_le_bytes(v.direct_parent_id)
            &&& v.spec_bytes()[f] == v.override_attachment_params
            &&& v.spec_bytes()[f + 9] == v.flags
        }),
{
    let f = v.node_initial_fx_params.spec_bytes().len() as int;
    let head = v.node_initial_fx_params.spec_bytes() + seq![v.override_attachment_params] + spec_u32_to_le_bytes(
        v.override_bus_id,
    ) + spec_u32_to_le_bytes(v.direct_parent_id) + seq![v.flags];
    let bs = v.spec_bytes();
    assert(bs.subrange(0, f + 10) =~= head);
    assert(bs.subrange(f + 1, f + 5) =~= head.subrange(f + 1, f + 5));
    assert(bs.subrange(f + 5, f + 9) =~= head.subrange(f + 5, f + 9));
    assert(head.subrange(f + 1, f + 5) =~= spec_u32_to_le_bytes(v.override_bus_id));
    assert(head.subrange(f + 5, f + 9) =~= spec_u32_to_le_bytes(v.direct_parent_id));
    assert(bs[f] == head[f]);
    assert(bs[f + 9] == head[f + 9]);
}
} // verus!
