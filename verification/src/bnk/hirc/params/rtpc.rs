//! RTPC (Real-Time Parameter Control) types.

use vstd::prelude::*;
#[allow(unused_imports)]
use crate::bytes::{
    encoded_at, group_bytes, spec_i16_to_le_bytes, spec_i32_to_le_bytes, spec_u16_to_le_bytes,
    spec_u32_to_le_bytes, spec_u64_to_le_bytes,
};
#[allow(unused_imports)]
use crate::error::{Error, Result};
#[allow(unused_imports)]
use super::super::reader::BinaryReader;
#[allow(unused_imports)]
use super::super::wire::{
    Wire, layout_error, group_wire, all_wf, bool_at, bool_byte, i16_at, i32_at, i8_at, lemma_list_canonical, list_bytes,
    list_decodes_at, list_u16_bytes, list_u32_bytes, reads_value, u16_at, u32_at, u64_at, u8_at,
};
#[allow(unused_imports)]
use super::super::writer::BinaryWriter;

verus! {

broadcast use group_bytes, group_wire, BinaryReader::lemma_pos_nonneg;

/// A point on an RTPC graph curve.
#[derive(Debug, Clone, Copy)]
pub struct RtpcGraphPoint {
    /// IEEE-754 bits of an `f32`.
    pub from: u32,
    /// IEEE-754 bits of an `f32`.
    pub to: u32,
    pub interpolation: u32,
}

impl Wire for RtpcGraphPoint {
    open spec fn wf(&self) -> bool {
        true
    }

    open spec fn spec_bytes(&self) -> Seq<u8> {
        spec_u32_to_le_bytes(self.from)
            + spec_u32_to_le_bytes(self.to)
            + spec_u32_to_le_bytes(self.interpolation)
    }

    open spec fn decodes_at(&self, data: Seq<u8>, pos: int) -> bool {
        &&& u32_at(data, pos, self.from)
        &&& u32_at(data, pos + 4, self.to)
        &&& u32_at(data, pos + 4 + 4, self.interpolation)
    }

    open spec fn read_error(data: Seq<u8>, pos: int) -> Option<Error> {
        layout_error(data, pos, seq![4, 4, 4])
    }

    fn wire_read(r: &mut BinaryReader) -> (res: Result<Self>) {
        proof {
            reveal_with_fuel(layout_error, 4);
        }
        let from = r.read_u32()?;
        let to = r.read_u32()?;
        let interpolation = r.read_u32()?;
        Ok(Self { from, to, interpolation })
    }

    fn wire_write(&self, w: &mut BinaryWriter) {
        w.write_u32(self.from);
        w.write_u32(self.to);
        w.write_u32(self.interpolation);
    }

    proof fn lemma_canonical(&self, data: Seq<u8>, pos: int) {
    }
}

/// The layout of a `RtpcGraphPoint` as Wwise writes it, 12 bytes: `from` (`u32`) at 0, `to`
/// (`u32`) at 4, `interpolation` (`u32`) at 8.
pub proof fn lemma_rtpc_graph_point_layout(v: RtpcGraphPoint, data: Seq<u8>, pos: int)
    requires
        v.decodes_at(data, pos),
    ensures
        u32_at(data, pos, v.from),
        u32_at(data, pos + 4, v.to),
        u32_at(data, pos + 8, v.interpolation),
        v.spec_bytes() == spec_u32_to_le_bytes(v.from) + spec_u32_to_le_bytes(v.to) + spec_u32_to_le_bytes(v.interpolation),
{
    assert(v.spec_bytes() =~= spec_u32_to_le_bytes(v.from) + spec_u32_to_le_bytes(v.to) + spec_u32_to_le_bytes(v.interpolation));
}

impl RtpcGraphPoint {
    /// Read one value.
    pub fn read(r: &mut BinaryReader) -> (res: Result<Self>)
        ensures
            reads_value(*old(r), *final(r), res),
    {
        Self::wire_read(r)
    }

    /// Write this value.
    pub fn write(&self, w: &mut BinaryWriter)
        requires
            self.wf(),
        ensures
            final(w)@ == old(w)@ + self.spec_bytes(),
    {
        self.wire_write(w)
    }
}
/// One RTPC binding and its curve.
#[derive(Debug, Clone)]
pub struct RtpcManager {
    pub rtpc_id: u32,
    pub rtpc_type: u8,
    pub rtpc_accum: u8,
    pub param_id: u8,
    pub rtpc_curve_id: u32,
    pub scaling: u8,
    pub graph_points: Vec<RtpcGraphPoint>,
}

impl Wire for RtpcManager {
    open spec fn wf(&self) -> bool {
        self.graph_points@.len() <= u16::MAX && all_wf(self.graph_points@)
    }

    open spec fn spec_bytes(&self) -> Seq<u8> {
        spec_u32_to_le_bytes(self.rtpc_id)
            + seq![self.rtpc_type]
            + seq![self.rtpc_accum]
            + seq![self.param_id]
            + spec_u32_to_le_bytes(self.rtpc_curve_id)
            + seq![self.scaling]
            + list_u16_bytes(self.graph_points@)
    }

    open spec fn decodes_at(&self, data: Seq<u8>, pos: int) -> bool {
        &&& u32_at(data, pos, self.rtpc_id)
        &&& u8_at(data, pos + 4, self.rtpc_type)
        &&& u8_at(data, pos + 4 + 1, self.rtpc_accum)
        &&& u8_at(data, pos + 4 + 1 + 1, self.param_id)
        &&& u32_at(data, pos + 4 + 1 + 1 + 1, self.rtpc_curve_id)
        &&& u8_at(data, pos + 4 + 1 + 1 + 1 + 4, self.scaling)
        &&& u16_at(data, pos + 4 + 1 + 1 + 1 + 4 + 1, self.graph_points@.len() as u16)
        &&& list_decodes_at(self.graph_points@, data, pos + 4 + 1 + 1 + 1 + 4 + 1 + 2)
    }

    fn wire_read(r: &mut BinaryReader) -> (res: Result<Self>) {
        let rtpc_id = r.read_u32()?;
        let rtpc_type = r.read_u8()?;
        let rtpc_accum = r.read_u8()?;
        let param_id = r.read_u8()?;
        let rtpc_curve_id = r.read_u32()?;
        let scaling = r.read_u8()?;
        let graph_points = r.read_list_u16::<RtpcGraphPoint>()?;
        Ok(Self { rtpc_id, rtpc_type, rtpc_accum, param_id, rtpc_curve_id, scaling, graph_points })
    }

    fn wire_write(&self, w: &mut BinaryWriter) {
        w.write_u32(self.rtpc_id);
        w.write_u8(self.rtpc_type);
        w.write_u8(self.rtpc_accum);
        w.write_u8(self.param_id);
        w.write_u32(self.rtpc_curve_id);
        w.write_u8(self.scaling);
        w.write_list_u16(self.graph_points.as_slice());
    }

    proof fn lemma_canonical(&self, data: Seq<u8>, pos: int) {
        assert(encoded_at(data, pos, spec_u32_to_le_bytes(self.rtpc_id) + seq![self.rtpc_type] + seq![self.rtpc_accum] + seq![self.param_id] + spec_u32_to_le_bytes(self.rtpc_curve_id) + seq![self.scaling]));
        assert(encoded_at(data, pos + 4 + 1 + 1 + 1 + 4 + 1, list_u16_bytes(self.graph_points@)));
        assert(encoded_at(data, pos, spec_u32_to_le_bytes(self.rtpc_id) + seq![self.rtpc_type] + seq![self.rtpc_accum] + seq![self.param_id] + spec_u32_to_le_bytes(self.rtpc_curve_id)));
        assert(encoded_at(data, pos + 4 + 1 + 1 + 1 + 4, seq![self.scaling]));
        assert(encoded_at(data, pos, spec_u32_to_le_bytes(self.rtpc_id) + seq![self.rtpc_type] + seq![self.rtpc_accum] + seq![self.param_id]));
        assert(encoded_at(data, pos + 4 + 1 + 1 + 1, spec_u32_to_le_bytes(self.rtpc_curve_id)));
        assert(encoded_at(data, pos, spec_u32_to_le_bytes(self.rtpc_id) + seq![self.rtpc_type] + seq![self.rtpc_accum]));
        assert(encoded_at(data, pos + 4 + 1 + 1, seq![self.param_id]));
        assert(encoded_at(data, pos, spec_u32_to_le_bytes(self.rtpc_id) + seq![self.rtpc_type]));
        assert(encoded_at(data, pos + 4 + 1, seq![self.rtpc_accum]));
        assert(encoded_at(data, pos, spec_u32_to_le_bytes(self.rtpc_id)));
        assert(encoded_at(data, pos + 4, seq![self.rtpc_type]));
        lemma_list_canonical(self.graph_points@, data, pos + 4 + 1 + 1 + 1 + 4 + 1 + 2);
    }
}

/// An RTPC as Wwise lays it out: its ID (`u32`), type, accumulation and
/// parameter bytes at 4, 5 and 6, the curve ID (`u32`) at 7, the scaling
/// byte at 11, then the `u16` count of graph points at 12 and the points.
pub proof fn lemma_rtpc_manager_layout(v: RtpcManager, data: Seq<u8>, pos: int)
    requires
        v.decodes_at(data, pos),
    ensures
        u32_at(data, pos, v.rtpc_id),
        u8_at(data, pos + 4, v.rtpc_type),
        u8_at(data, pos + 5, v.rtpc_accum),
        u8_at(data, pos + 6, v.param_id),
        u32_at(data, pos + 7, v.rtpc_curve_id),
        u8_at(data, pos + 11, v.scaling),
        u16_at(data, pos + 12, v.graph_points@.len() as u16),
        list_decodes_at(v.graph_points@, data, pos + 14),
{
}

impl RtpcManager {
    /// Read one value.
    pub fn read(r: &mut BinaryReader) -> (res: Result<Self>)
        ensures
            reads_value(*old(r), *final(r), res),
    {
        Self::wire_read(r)
    }

    /// Write this value.
    pub fn write(&self, w: &mut BinaryWriter)
        requires
            self.wf(),
        ensures
            final(w)@ == old(w)@ + self.spec_bytes(),
    {
        self.wire_write(w)
    }
}
/// The RTPC bindings of an object (`u16`-counted).
#[derive(Debug, Clone, Default)]
pub struct InitialRtpc {
    pub rtpc_managers: Vec<RtpcManager>,
}

impl Wire for InitialRtpc {
    open spec fn wf(&self) -> bool {
        self.rtpc_managers@.len() <= u16::MAX && all_wf(self.rtpc_managers@)
    }

    open spec fn spec_bytes(&self) -> Seq<u8> {
        list_u16_bytes(self.rtpc_managers@)
    }

    open spec fn decodes_at(&self, data: Seq<u8>, pos: int) -> bool {
        &&& u16_at(data, pos, self.rtpc_managers@.len() as u16)
        &&& list_decodes_at(self.rtpc_managers@, data, pos + 2)
    }

    fn wire_read(r: &mut BinaryReader) -> (res: Result<Self>) {
        let rtpc_managers = r.read_list_u16::<RtpcManager>()?;
        Ok(Self { rtpc_managers })
    }

    fn wire_write(&self, w: &mut BinaryWriter) {
        w.write_list_u16(self.rtpc_managers.as_slice());
    }

    proof fn lemma_canonical(&self, data: Seq<u8>, pos: int) {
        lemma_list_canonical(self.rtpc_managers@, data, pos + 2);
    }
}

impl InitialRtpc {
    /// Read one value.
    pub fn read(r: &mut BinaryReader) -> (res: Result<Self>)
        ensures
            reads_value(*old(r), *final(r), res),
    {
        Self::wire_read(r)
    }

    /// Write this value.
    pub fn write(&self, w: &mut BinaryWriter)
        requires
            self.wf(),
        ensures
            final(w)@ == old(w)@ + self.spec_bytes(),
    {
        self.wire_write(w)
    }
}
/// A scaled conversion curve.
#[derive(Debug, Clone)]
pub struct ConversionTable {
    pub scaling: u8,
    pub points: Vec<RtpcGraphPoint>,
}

impl Wire for ConversionTable {
    open spec fn wf(&self) -> bool {
        self.points@.len() <= u16::MAX && all_wf(self.points@)
    }

    open spec fn spec_bytes(&self) -> Seq<u8> {
        seq![self.scaling]
            + list_u16_bytes(self.points@)
    }

    open spec fn decodes_at(&self, data: Seq<u8>, pos: int) -> bool {
        &&& u8_at(data, pos, self.scaling)
        &&& u16_at(data, pos + 1, self.points@.len() as u16)
        &&& list_decodes_at(self.points@, data, pos + 1 + 2)
    }

    fn wire_read(r: &mut BinaryReader) -> (res: Result<Self>) {
        let scaling = r.read_u8()?;
        let points = r.read_list_u16::<RtpcGraphPoint>()?;
        Ok(Self { scaling, points })
    }

    fn wire_write(&self, w: &mut BinaryWriter) {
        w.write_u8(self.scaling);
        w.write_list_u16(self.points.as_slice());
    }

    proof fn lemma_canonical(&self, data: Seq<u8>, pos: int) {
        lemma_list_canonical(self.points@, data, pos + 1 + 2);
    }
}

/// A conversion table as Wwise lays it out: the scaling byte, then the
/// `u16` count of points at 1 and the points.
pub proof fn lemma_conversion_table_layout(v: ConversionTable, data: Seq<u8>, pos: int)
    requires
        v.decodes_at(data, pos),
    ensures
        u8_at(data, pos, v.scaling),
        u16_at(data, pos + 1, v.points@.len() as u16),
        list_decodes_at(v.points@, data, pos + 3),
{
}

impl ConversionTable {
    /// Read one value.
    pub fn read(r: &mut BinaryReader) -> (res: Result<Self>)
        ensures
            reads_value(*old(r), *final(r), res),
    {
        Self::wire_read(r)
    }

    /// Write this value.
    pub fn write(&self, w: &mut BinaryWriter)
        requires
            self.wf(),
        ensures
            final(w)@ == old(w)@ + self.spec_bytes(),
    {
        self.wire_write(w)
    }
}
} // verus!
