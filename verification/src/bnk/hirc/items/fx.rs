//! DialogueEvent and FxBase item values.

use vstd::prelude::*;
#[allow(unused_imports)]
use crate::bytes::{
    encoded_at, group_bytes, spec_i16_to_le_bytes, spec_i32_to_le_bytes, spec_u16_to_le_bytes,
    spec_u32_to_le_bytes, spec_u64_to_le_bytes,
};
#[allow(unused_imports)]
use crate::error::{Error, Result};
#[allow(unused_imports)]
use super::super::reader::BinaryReader;
#[allow(unused_imports)]
use super::super::wire::{
    Wire, layout_error, group_wire, all_wf, bool_at, bool_byte, i16_at, i32_at, i8_at, lemma_list_canonical, list_bytes,
    list_decodes_at, list_u16_bytes, list_u32_bytes, reads_value, u16_at, u32_at, u64_at, u8_at,
};
#[allow(unused_imports)]
use super::super::writer::BinaryWriter;
use super::super::params::plugin::{DelayFxParams, FxSrcSilenceParams, PluginId, PluginParam};
use super::super::params::rtpc::InitialRtpc;
use super::super::params::decision_tree::{tree_bytes, tree_read, tree_read_ok, tree_writable, DecisionTree};

verus! {

broadcast use group_bytes, group_wire, BinaryReader::lemma_pos_nonneg;

/// A game-sync group that a decision tree branches on.
#[derive(Debug, Clone)]
pub struct GameSyncArgument {
    pub group_id: u32,
    pub group_type: u8,
}

impl Wire for GameSyncArgument {
    open spec fn wf(&self) -> bool {
        true
    }

    open spec fn spec_bytes(&self) -> Seq<u8> {
        spec_u32_to_le_bytes(self.group_id)
            + seq![self.group_type]
    }

    open spec fn decodes_at(&self, data: Seq<u8>, pos: int) -> bool {
        &&& u32_at(data, pos, self.group_id)
        &&& u8_at(data, pos + 4, self.group_type)
    }

    open spec fn read_error(data: Seq<u8>, pos: int) -> Option<Error> {
        layout_error(data, pos, seq![4, 1])
    }

    fn wire_read(r: &mut BinaryReader) -> (res: Result<Self>) {
        proof {
            reveal_with_fuel(layout_error, 3);
        }
        let group_id = r.read_u32()?;
        let group_type = r.read_u8()?;
        Ok(Self { group_id, group_type })
    }

    fn wire_write(&self, w: &mut BinaryWriter) {
        w.write_u32(self.group_id);
        w.write_u8(self.group_type);
    }

    proof fn lemma_canonical(&self, data: Seq<u8>, pos: int) {
    }
}

/// The layout of a `GameSyncArgument` as Wwise writes it, 5 bytes: `group_id` (`u32`) at 0,
/// `group_type` (byte) at 4.
pub proof fn lemma_game_sync_argument_layout(v: GameSyncArgument, data: Seq<u8>, pos: int)
    requires
        v.decodes_at(data, pos),
    ensures
        u32_at(data, pos, v.group_id),
        u8_at(data, pos + 4, v.group_type),
        v.spec_bytes() == spec_u32_to_le_bytes(v.group_id) + seq![v.group_type],
{
    assert(v.spec_bytes() =~= spec_u32_to_le_bytes(v.group_id) + seq![v.group_type]);
}
/// A media source used by an effect.
#[derive(Debug, Clone)]
pub struct MediaMapEntry {
    pub index: u8,
    pub source_id: u32,
}

impl Wire for MediaMapEntry {
    open spec fn wf(&self) -> bool {
        true
    }

    open spec fn spec_bytes(&self) -> Seq<u8> {
        seq![self.index]
            + spec_u32_to_le_bytes(self.source_id)
    }

    open spec fn decodes_at(&self, data: Seq<u8>, pos: int) -> bool {
        &&& u8_at(data, pos, self.index)
        &&& u32_at(data, pos + 1, self.source_id)
    }

    open spec fn read_error(data: Seq<u8>, pos: int) -> Option<Error> {
        layout_error(data, pos, seq![1, 4])
    }

    fn wire_read(r: &mut BinaryReader) -> (res: Result<Self>) {
        proof {
            reveal_with_fuel(layout_error, 3);
        }
        let index = r.read_u8()?;
        let source_id = r.read_u32()?;
        Ok(Self { index, source_id })
    }

    fn wire_write(&self, w: &mut BinaryWriter) {
        w.write_u8(self.index);
        w.write_u32(self.source_id);
    }

    proof fn lemma_canonical(&self, data: Seq<u8>, pos: int) {
    }
}

/// The layout of a `MediaMapEntry` as Wwise writes it, 5 bytes: `index` (byte) at 0,
/// `source_id` (`u32`) at 1.
pub proof fn lemma_media_map_entry_layout(v: MediaMapEntry, data: Seq<u8>, pos: int)
    requires
        v.decodes_at(data, pos),
    ensures
        u8_at(data, pos, v.index),
        u32_at(data, pos + 1, v.source_id),
        v.spec_bytes() == seq![v.index] + spec_u32_to_le_bytes(v.source_id),
{
    assert(v.spec_bytes() =~= seq![v.index] + spec_u32_to_le_bytes(v.source_id));
}
/// The initial value of an RTPC-driven effect parameter.
#[derive(Debug, Clone)]
pub struct RtpcInit {
    pub param_id: u8,
    /// IEEE-754 bits of an `f32`.
    pub init_value: u32,
}

impl Wire for RtpcInit {
    open spec fn wf(&self) -> bool {
        true
    }

    open spec fn spec_bytes(&self) -> Seq<u8> {
        seq![self.param_id]
            + spec_u32_to_le_bytes(self.init_value)
    }

    open spec fn decodes_at(&self, data: Seq<u8>, pos: int) -> bool {
        &&& u8_at(data, pos, self.param_id)
        &&& u32_at(data, pos + 1, self.init_value)
    }

    open spec fn read_error(data: Seq<u8>, pos: int) -> Option<Error> {
        layout_error(data, pos, seq![1, 4])
    }

    fn wire_read(r: &mut BinaryReader) -> (res: Result<Self>) {
        proof {
            reveal_with_fuel(layout_error, 3);
        }
        let param_id = r.read_u8()?;
        let init_value = r.read_u32()?;
        Ok(Self { param_id, init_value })
    }

    fn wire_write(&self, w: &mut BinaryWriter) {
        w.write_u8(self.param_id);
        w.write_u32(self.init_value);
    }

    proof fn lemma_canonical(&self, data: Seq<u8>, pos: int) {
    }
}

/// The layout of a `RtpcInit` as Wwise writes it, 5 bytes: `param_id` (byte) at 0, `init_value`
/// (`u32`) at 1.
pub proof fn lemma_rtpc_init_layout(v: RtpcInit, data: Seq<u8>, pos: int)
    requires
        v.decodes_at(data, pos),
    ensures
        u8_at(data, pos, v.param_id),
        u32_at(data, pos + 1, v.init_value),
        v.spec_bytes() == seq![v.param_id] + spec_u32_to_le_bytes(v.init_value),
{
    assert(v.spec_bytes() =~= seq![v.param_id] + spec_u32_to_le_bytes(v.init_value));
}
/// An effect (share set, custom effect or audio device): plugin, its
/// parameters, media, RTPCs and initial RTPC values.
#[derive(Debug, Clone)]
pub struct FxBaseValues {
    pub fx_id: PluginId,
    pub size: u32,
    pub plugin_param: Option<PluginParam>,
    pub fx_src_silence_params: Option<FxSrcSilenceParams>,
    pub delay_fx_params: Option<DelayFxParams>,
    pub raw_plugin_data: Option<Vec<u8>>,
    pub media_map: Vec<MediaMapEntry>,
    pub initial_rtpc: InitialRtpc,
    pub rtpc_init_list: Vec<RtpcInit>,
}

impl FxBaseValues {
    /// The bytes of the plugin parameters: none when `size` is 0, else the
    /// block that the plugin ID calls for.
    pub open spec fn plugin_body_bytes(&self) -> Seq<u8> {
        if self.size > 0 {
            if self.fx_id.0 == PluginId::WWISE_COMPRESSOR {
                match self.plugin_param {
                    Some(p) => p.param_block@,
                    None => Seq::empty(),
                }
            } else if self.fx_id.0 == PluginId::WWISE_SILENCE {
                match self.fx_src_silence_params {
                    Some(p) => p.spec_bytes(),
                    None => Seq::empty(),
                }
            } else if self.fx_id.0 == PluginId::WWISE_DELAY {
                match self.delay_fx_params {
                    Some(p) => p.spec_bytes(),
                    None => Seq::empty(),
                }
            } else {
                match self.raw_plugin_data {
                    Some(d) => d@,
                    None => Seq::empty(),
                }
            }
        } else {
            Seq::empty()
        }
    }

    /// The plugin parameters decode at `pos`.
    pub open spec fn plugin_body_decodes(&self, data: Seq<u8>, pos: int) -> bool {
        if self.size > 0 {
            if self.fx_id.0 == PluginId::WWISE_COMPRESSOR {
                encoded_at(data, pos, self.plugin_param.unwrap().param_block@)
            } else if self.fx_id.0 == PluginId::WWISE_SILENCE {
                self.fx_src_silence_params.unwrap().decodes_at(data, pos)
            } else if self.fx_id.0 == PluginId::WWISE_DELAY {
                self.delay_fx_params.unwrap().decodes_at(data, pos)
            } else {
                encoded_at(data, pos, self.raw_plugin_data.unwrap()@)
            }
        } else {
            true
        }
    }
}

impl Wire for FxBaseValues {
    open spec fn wf(&self) -> bool {
        let id = self.fx_id.0;
        &&& self.size == 0 ==> {
            &&& self.plugin_param is None
            &&& self.fx_src_silence_params is None
            &&& self.delay_fx_params is None
            &&& self.raw_plugin_data is None
        }
        &&& self.size > 0 ==> {
            &&& (self.plugin_param is Some) == (id == PluginId::WWISE_COMPRESSOR)
            &&& (self.fx_src_silence_params is Some) == (id == PluginId::WWISE_SILENCE)
            &&& (self.delay_fx_params is Some) == (id == PluginId::WWISE_DELAY)
            &&& (self.raw_plugin_data is Some) == (id != PluginId::WWISE_COMPRESSOR && id
                != PluginId::WWISE_SILENCE && id != PluginId::WWISE_DELAY)
            &&& self.plugin_param matches Some(p) ==> p.param_block@.len() == self.size
            &&& self.raw_plugin_data matches Some(d) ==> d@.len() == self.size
        }
        &&& self.media_map@.len() <= u8::MAX
        &&& self.rtpc_init_list@.len() <= u16::MAX
        &&& self.initial_rtpc.wf()
    }

    open spec fn spec_bytes(&self) -> Seq<u8> {
        spec_u32_to_le_bytes(self.fx_id.0) + spec_u32_to_le_bytes(self.size) + self.plugin_body_bytes()
            + seq![self.media_map@.len() as u8] + list_bytes(self.media_map@)
            + self.initial_rtpc.spec_bytes() + list_u16_bytes(self.rtpc_init_list@)
    }

    open spec fn decodes_at(&self, data: Seq<u8>, pos: int) -> bool {
        let q = pos + 8 + self.plugin_body_bytes().len();
        let q2 = q + 1 + list_bytes(self.media_map@).len();
        let q3 = q2 + self.initial_rtpc.spec_bytes().len();
        &&& u32_at(data, pos, self.fx_id.0)
        &&& u32_at(data, pos + 4, self.size)
        &&& self.plugin_body_decodes(data, pos + 8)
        &&& u8_at(data, q, self.media_map@.len() as u8)
        &&& list_decodes_at(self.media_map@, data, q + 1)
        &&& self.initial_rtpc.decodes_at(data, q2)
        &&& u16_at(data, q3, self.rtpc_init_list@.len() as u16)
        &&& list_decodes_at(self.rtpc_init_list@, data, q3 + 2)
    }

    fn wire_read(r: &mut BinaryReader) -> (res: Result<Self>) {
        let fx_id = PluginId(r.read_u32()?);
        let size = r.read_u32()?;
        let mut plugin_param = None;
        let mut fx_src_silence_params = None;
        let mut delay_fx_params = None;
        let mut raw_plugin_data = None;
        if size > 0 {
            if fx_id.0 == PluginId::WWISE_COMPRESSOR {
                plugin_param = Some(PluginParam::read(r, size)?);
            } else if fx_id.0 == PluginId::WWISE_SILENCE {
                fx_src_silence_params = Some(FxSrcSilenceParams::read(r)?);
            } else if fx_id.0 == PluginId::WWISE_DELAY {
                delay_fx_params = Some(DelayFxParams::read(r)?);
            } else {
                let bytes = r.read_bytes(size as usize)?;
                raw_plugin_data = Some(vstd::slice::slice_to_vec(bytes));
            }
        }
        let num_bank_data = r.read_u8()?;
        let media_map = r.read_items::<MediaMapEntry>(num_bank_data as usize)?;
        let initial_rtpc = InitialRtpc::read(r)?;
        let rtpc_init_list = r.read_list_u16::<RtpcInit>()?;
        Ok(Self {
            fx_id,
            size,
            plugin_param,
            fx_src_silence_params,
            delay_fx_params,
            raw_plugin_data,
            media_map,
            initial_rtpc,
            rtpc_init_list,
        })
    }

    fn wire_write(&self, w: &mut BinaryWriter) {
        self.write_fields(w)
    }

    proof fn lemma_canonical(&self, data: Seq<u8>, pos: int) {
        let a = spec_u32_to_le_bytes(self.fx_id.0);
        let b = spec_u32_to_le_bytes(self.size);
        let c = self.plugin_body_bytes();
        let d = seq![self.media_map@.len() as u8];
        let e = list_bytes(self.media_map@);
        let f = self.initial_rtpc.spec_bytes();
        let q = pos + 8 + c.len();
        assert(encoded_at(data, pos, a + b + c + d + e + f));
        assert(encoded_at(data, pos, a + b + c + d + e));
        assert(encoded_at(data, pos, a + b + c + d));
        assert(encoded_at(data, pos, a + b + c));
        assert(encoded_at(data, pos, a + b));
        if self.size > 0 {
            if self.fx_id.0 == PluginId::WWISE_SILENCE {
                self.fx_src_silence_params.unwrap().lemma_canonical(data, pos + 8);
            } else if self.fx_id.0 == PluginId::WWISE_DELAY {
                self.delay_fx_params.unwrap().lemma_canonical(data, pos + 8);
            }
        }
        lemma_list_canonical(self.media_map@, data, q + 1);
        self.initial_rtpc.lemma_canonical(data, q + 1 + e.len());
        lemma_list_canonical(self.rtpc_init_list@, data, q + 1 + e.len() + f.len() + 2);
    }
}

impl FxBaseValues {
    /// Read an effect.
    pub fn read(r: &mut BinaryReader) -> (res: Result<Self>)
        ensures
            reads_value(*old(r), *final(r), res),
    {
        Self::wire_read(r)
    }

    fn write_fields(&self, w: &mut BinaryWriter)
        requires
            all_wf(self.media_map@) && self.initial_rtpc.wf() && self.rtpc_init_list@.len() <= u16::MAX
                && all_wf(self.rtpc_init_list@),
        ensures
            final(w)@ == old(w)@ + self.spec_bytes(),
    {
        w.write_u32(self.fx_id.0);
        w.write_u32(self.size);
        if self.size > 0 {
            if self.fx_id.0 == PluginId::WWISE_COMPRESSOR {
                if let Some(p) = &self.plugin_param {
                    p.write(w);
                }
            } else if self.fx_id.0 == PluginId::WWISE_SILENCE {
                if let Some(p) = &self.fx_src_silence_params {
                    p.write(w);
                }
            } else if self.fx_id.0 == PluginId::WWISE_DELAY {
                if let Some(p) = &self.delay_fx_params {
                    p.write(w);
                }
            } else {
                if let Some(d) = &self.raw_plugin_data {
                    w.write_bytes(d.as_slice());
                }
            }
        }
        w.write_u8(self.media_map.len() as u8);
        w.write_items(self.media_map.as_slice());
        self.initial_rtpc.write(w);
        w.write_list_u16(self.rtpc_init_list.as_slice());
    }

    /// Write this value: the ID and size as they are, then the plugin parameters of its kind when present, then the media map, RTPCs and RTPC init list.
    pub fn write(&self, w: &mut BinaryWriter)
        requires
            all_wf(self.media_map@) && self.initial_rtpc.wf() && self.rtpc_init_list@.len() <= u16::MAX
                && all_wf(self.rtpc_init_list@),
        ensures
            final(w)@ == old(w)@ + self.spec_bytes(),
    {
        self.write_fields(w)
    }
}

// ─── Decision tree blocks ───────────────────────────────────────────

/// The little-endian `u32` at `p`.
pub open spec fn le32_at(d: Seq<u8>, p: int) -> u32 {
    crate::bytes::spec_u32_from_le_bytes(d.subrange(p, p + 4))
}

/// Where the tree size field of a tree block at `q` sits: after the depth,
/// one group ID and one group type per level.
pub open spec fn tree_size_pos(d: Seq<u8>, q: int) -> int {
    q + 4 + 5 * le32_at(d, q)
}

/// The tree block at `q` can be read: depth, arguments, tree size and mode
/// are there, and the tree can be read after them.
pub open spec fn tree_block_readable(d: Seq<u8>, q: int) -> bool {
    let t = tree_size_pos(d, q);
    &&& 0 <= q && q + 4 <= d.len()
    &&& t + 5 <= d.len()
    &&& tree_read_ok(d, t + 5, le32_at(d, q), le32_at(d, t))
}

/// The tree block at `q` reads as the given depth, arguments, tree size,
/// mode and tree, ending at `end`.
pub open spec fn tree_block_read_as(
    depth: u32,
    arguments: Seq<GameSyncArgument>,
    size: u32,
    mode: u8,
    tree: DecisionTree,
    d: Seq<u8>,
    q: int,
    end: int,
) -> bool {
    let t = tree_size_pos(d, q);
    &&& depth == le32_at(d, q)
    &&& arguments.len() == depth
    &&& forall|i: int|
        0 <= i < depth ==> (#[trigger] arguments[i]).group_id == le32_at(d, q + 4 + 4 * i)
            && arguments[i].group_type == d[q + 4 + 4 * depth + i]
    &&& size == le32_at(d, t)
    &&& mode == d[t + 4]
    &&& tree_read(d, t + 5, depth, size, Ok(tree), end)
}

/// The group IDs of the first `k` arguments.
pub open spec fn group_ids_bytes(a: Seq<GameSyncArgument>, k: int) -> Seq<u8>
    decreases k,
{
    if k <= 0 {
        Seq::empty()
    } else {
        group_ids_bytes(a, k - 1) + spec_u32_to_le_bytes(a[k - 1].group_id)
    }
}

/// The group types of the first `k` arguments.
pub open spec fn group_types_bytes(a: Seq<GameSyncArgument>, k: int) -> Seq<u8>
    decreases k,
{
    if k <= 0 {
        Seq::empty()
    } else {
        group_types_bytes(a, k - 1) + seq![a[k - 1].group_type]
    }
}

/// The bytes of a tree block: the depth, all group IDs, all group types,
/// the tree size, the mode and the tree.
pub open spec fn tree_block_bytes(depth: u32, arguments: Seq<GameSyncArgument>, size: u32, mode: u8, tree: DecisionTree) -> Seq<u8> {
    spec_u32_to_le_bytes(depth) + group_ids_bytes(arguments, arguments.len() as int)
        + group_types_bytes(arguments, arguments.len() as int) + spec_u32_to_le_bytes(size) + seq![mode]
        + tree_bytes(tree)
}

/// Reads a tree block: the depth, a group ID per level, a group type per
/// level, the tree size, the mode and the tree.
pub(crate) fn read_tree_block(r: &mut BinaryReader) -> (res: Result<(u32, Vec<GameSyncArgument>, u32, u8, DecisionTree)>)
    ensures
        final(r).data() == old(r).data(),
        res is Ok <==> tree_block_readable(old(r).data(), old(r).pos()),
        res matches Ok(b) ==> tree_block_read_as(b.0, b.1@, b.2, b.3, b.4, old(r).data(), old(r).pos(), final(r).pos()),
{
    let ghost d = r.data();
    let ghost q = r.pos();
    let tree_depth = r.read_u32()?;
    let mut group_ids: Vec<u32> = Vec::new();
    let mut i: u32 = 0;
    while i < tree_depth
        invariant
            r.data() == d,
            d == old(r).data(),
            q == old(r).pos(),
            q + 4 <= d.len(),
            tree_depth == le32_at(d, q),
            i <= tree_depth,
            r.pos() == q + 4 + 4 * i,
            r.pos() <= d.len(),
            group_ids@.len() == i,
            forall|j: int| 0 <= j < i ==> #[trigger] group_ids@[j] == le32_at(d, q + 4 + 4 * j),
        decreases tree_depth - i,
    {
        let id = match r.read_u32() {
            Ok(v) => v,
            Err(e) => {
                return Err(e);
            },
        };
        group_ids.push(id);
        i = i + 1;
    }
    let mut group_types: Vec<u8> = Vec::new();
    let mut i: u32 = 0;
    while i < tree_depth
        invariant
            r.data() == d,
            d == old(r).data(),
            q == old(r).pos(),
            tree_depth == le32_at(d, q),
            q + 4 + 4 * tree_depth <= d.len(),
            i <= tree_depth,
            r.pos() == q + 4 + 4 * tree_depth + i,
            group_types@.len() == i,
            forall|j: int| 0 <= j < i ==> #[trigger] group_types@[j] == d[q + 4 + 4 * tree_depth + j],
        decreases tree_depth - i,
    {
        let t = match r.read_u8() {
            Ok(v) => v,
            Err(e) => {
                return Err(e);
            },
        };
        group_types.push(t);
        i = i + 1;
    }
    let mut arguments: Vec<GameSyncArgument> = Vec::new();
    let mut i: usize = 0;
    while i < group_ids.len()
        invariant
            group_ids@.len() == tree_depth,
            group_types@.len() == tree_depth,
            i <= tree_depth,
            arguments@.len() == i,
            forall|j: int|
                0 <= j < i ==> (#[trigger] arguments@[j]).group_id == group_ids@[j]
                    && arguments@[j].group_type == group_types@[j],
        decreases tree_depth - i,
    {
        arguments.push(GameSyncArgument { group_id: group_ids[i], group_type: group_types[i] });
        i = i + 1;
    }
    let tree_data_size = r.read_u32()?;
    let tree_mode = r.read_u8()?;
    let decision_tree = match DecisionTree::read(r, tree_depth, tree_data_size) {
        Ok(t) => t,
        Err(e) => {
            return Err(e);
        },
    };
    Ok((tree_depth, arguments, tree_data_size, tree_mode, decision_tree))
}

/// Writes a tree block.
pub(crate) fn write_tree_block(w: &mut BinaryWriter, depth: u32, arguments: &Vec<GameSyncArgument>, size: u32, mode: u8, tree: &DecisionTree)
    requires
        tree_writable(*tree),
    ensures
        final(w)@ == old(w)@ + tree_block_bytes(depth, arguments@, size, mode, *tree),
{
    w.write_u32(depth);
    let ghost s0 = w@;
    let mut i: usize = 0;
    while i < arguments.len()
        invariant
            i <= arguments@.len(),
            w@ == s0 + group_ids_bytes(arguments@, i as int),
        decreases arguments@.len() - i,
    {
        w.write_u32(arguments[i].group_id);
        i = i + 1;
    }
    let ghost s1 = w@;
    let mut i: usize = 0;
    while i < arguments.len()
        invariant
            i <= arguments@.len(),
            w@ == s1 + group_types_bytes(arguments@, i as int),
        decreases arguments@.len() - i,
    {
        w.write_u8(arguments[i].group_type);
        i = i + 1;
    }
    w.write_u32(size);
    w.write_u8(mode);
    tree.write(w, depth);
    assert(final(w)@ =~= old(w)@ + tree_block_bytes(depth, arguments@, size, mode, *tree));
}

// ─── DialogueEvent ──────────────────────────────────────────────────

/// A dialogue event: a probability and a decision tree over game syncs.
#[derive(Debug)]
pub struct DialogueEventValues {
    pub probability: u8,
    pub tree_depth: u32,
    pub arguments: Vec<GameSyncArgument>,
    pub tree_data_size: u32,
    pub tree_mode: u8,
    pub decision_tree: DecisionTree,
}

/// The bytes the writer produces for a dialogue event.
pub open spec fn dialogue_event_bytes(v: DialogueEventValues) -> Seq<u8> {
    seq![v.probability] + tree_block_bytes(v.tree_depth, v.arguments@, v.tree_data_size, v.tree_mode, v.decision_tree)
}

impl DialogueEventValues {
    /// Read a dialogue event.
    pub fn read(r: &mut BinaryReader) -> (res: Result<Self>)
        ensures
            final(r).data() == old(r).data(),
            res is Ok <==> old(r).pos() + 1 <= old(r).data().len() && tree_block_readable(
                old(r).data(),
                old(r).pos() + 1,
            ),
            res matches Ok(v) ==> {
                &&& v.probability == old(r).data()[old(r).pos()]
                &&& tree_block_read_as(
                    v.tree_depth,
                    v.arguments@,
                    v.tree_data_size,
                    v.tree_mode,
                    v.decision_tree,
                    old(r).data(),
                    old(r).pos() + 1,
                    final(r).pos(),
                )
            },
    {
        let probability = r.read_u8()?;
        let (tree_depth, arguments, tree_data_size, tree_mode, decision_tree) = read_tree_block(r)?;
        Ok(Self { probability, tree_depth, arguments, tree_data_size, tree_mode, decision_tree })
    }

    /// Write a dialogue event.
    pub fn write(&self, w: &mut BinaryWriter)
        requires
            tree_writable(self.decision_tree),
        ensures
            final(w)@ == old(w)@ + dialogue_event_bytes(*self),
    {
        w.write_u8(self.probability);
        write_tree_block(w, self.tree_depth, &self.arguments, self.tree_data_size, self.tree_mode, &self.decision_tree);
        assert(final(w)@ =~= old(w)@ + dialogue_event_bytes(*self));
    }
}

} // verus!
