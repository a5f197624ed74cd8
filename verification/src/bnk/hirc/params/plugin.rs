//! Plugin types and parameters.

use vstd::prelude::*;
#[allow(unused_imports)]
use crate::bytes::{
    encoded_at, group_bytes, spec_i16_to_le_bytes, spec_i32_to_le_bytes, spec_u16_to_le_bytes,
    spec_u32_to_le_bytes, spec_u64_to_le_bytes,
};
#[allow(unused_imports)]
use crate::error::{Error, Result};
#[allow(unused_imports)]
use super::super::reader::BinaryReader;
#[allow(unused_imports)]
use super::super::wire::{
    Wire, layout_error, group_wire, all_wf, bool_at, bool_byte, i16_at, i32_at, i8_at, lemma_list_canonical, list_bytes,
    list_decodes_at, list_u16_bytes, list_u32_bytes, reads_value, u16_at, u32_at, u64_at, u8_at,
};
#[allow(unused_imports)]
use super::super::writer::BinaryWriter;

verus! {

broadcast use group_bytes, group_wire, BinaryReader::lemma_pos_nonneg;

/// Known Wwise plugin IDs.
#[derive(Debug, Clone, Copy, PartialEq, Eq, Hash)]
pub struct PluginId(pub u32);

/// The raw values of the known plugin IDs (`PluginId(PluginId::WWISE_DELAY)` is the delay plugin).
impl PluginId {
    pub const NONE: u32 = 0x00000000;
    pub const WWISE_SILENCE: u32 = 0x00650002;
    pub const WWISE_DELAY: u32 = 0x006A0003;
    pub const WWISE_COMPRESSOR: u32 = 0x006C0003;
}

/// Opaque plugin parameter block.
#[derive(Debug, Clone)]
pub struct PluginParam {
    pub param_block: Vec<u8>,
}

impl PluginParam {
    /// Read a parameter block of `size` bytes.
    pub fn read(r: &mut BinaryReader, size: u32) -> (res: Result<Self>)
        ensures
            final(r).data() == old(r).data(),
            old(r).pos() + size <= old(r).data().len() ==> {
                &&& res matches Ok(v) && v.param_block@ == old(r).data().subrange(
                    old(r).pos(),
                    old(r).pos() + size,
                )
                &&& final(r).pos() == old(r).pos() + size
            },
            old(r).pos() + size > old(r).data().len() ==> res is Err,
    {
        let bytes = r.read_bytes(size as usize)?;
        Ok(Self { param_block: vstd::slice::slice_to_vec(bytes) })
    }

    /// Write the parameter block.
    pub fn write(&self, w: &mut BinaryWriter)
        ensures
            final(w)@ == old(w)@ + self.param_block@,
    {
        w.write_bytes(self.param_block.as_slice());
    }
}

/// Parameters of the Wwise Silence source.
#[derive(Debug, Clone)]
pub struct FxSrcSilenceParams {
    /// IEEE-754 bits of an `f32`.
    pub duration: u32,
    /// IEEE-754 bits of an `f32`.
    pub randomized_length_minus: u32,
    /// IEEE-754 bits of an `f32`.
    pub randomized_length_plus: u32,
}

impl Wire for FxSrcSilenceParams {
    open spec fn wf(&self) -> bool {
        true
    }

    open spec fn spec_bytes(&self) -> Seq<u8> {
        spec_u32_to_le_bytes(self.duration)
            + spec_u32_to_le_bytes(self.randomized_length_minus)
            + spec_u32_to_le_bytes(self.randomized_length_plus)
    }

    open spec fn decodes_at(&self, data: Seq<u8>, pos: int) -> bool {
        &&& u32_at(data, pos, self.duration)
        &&& u32_at(data, pos + 4, self.randomized_length_minus)
        &&& u32_at(data, pos + 4 + 4, self.randomized_length_plus)
    }

    open spec fn read_error(data: Seq<u8>, pos: int) -> Option<Error> {
        layout_error(data, pos, seq![4, 4, 4])
    }

    fn wire_read(r: &mut BinaryReader) -> (res: Result<Self>) {
        proof {
            reveal_with_fuel(layout_error, 4);
        }
        let duration = r.read_u32()?;
        let randomized_length_minus = r.read_u32()?;
        let randomized_length_plus = r.read_u32()?;
        Ok(Self { duration, randomized_length_minus, randomized_length_plus })
    }

    fn wire_write(&self, w: &mut BinaryWriter) {
        w.write_u32(self.duration);
        w.write_u32(self.randomized_length_minus);
        w.write_u32(self.randomized_length_plus);
    }

    proof fn lemma_canonical(&self, data: Seq<u8>, pos: int) {
    }
}

/// The layout of a `FxSrcSilenceParams` as Wwise writes it, 12 bytes: `duration` (`u32`) at 0,
/// `randomized_length_minus` (`u32`) at 4, `randomized_length_plus` (`u32`) at 8.
pub proof fn lemma_fx_src_silence_params_layout(v: FxSrcSilenceParams, data: Seq<u8>, pos: int)
    requires
        v.decodes_at(data, pos),
    ensures
        u32_at(data, pos, v.duration),
        u32_at(data, pos + 4, v.randomized_length_minus),
        u32_at(data, pos + 8, v.randomized_length_plus),
        v.spec_bytes() == spec_u32_to_le_bytes(v.duration) + spec_u32_to_le_bytes(v.randomized_length_minus) + spec_u32_to_le_bytes(v.randomized_length_plus),
{
    assert(v.spec_bytes() =~= spec_u32_to_le_bytes(v.duration) + spec_u32_to_le_bytes(v.randomized_length_minus) + spec_u32_to_le_bytes(v.randomized_length_plus));
}

impl FxSrcSilenceParams {
    /// Read one value.
    pub fn read(r: &mut BinaryReader) -> (res: Result<Self>)
        ensures
            reads_value(*old(r), *final(r), res),
    {
        Self::wire_read(r)
    }

    /// Write this value.
    pub fn write(&self, w: &mut BinaryWriter)
        requires
            self.wf(),
        ensures
            final(w)@ == old(w)@ + self.spec_bytes(),
    {
        self.wire_write(w)
    }
}
/// Parameters of the Wwise Delay effect.
#[derive(Debug, Clone)]
pub struct DelayFxParams {
    /// IEEE-754 bits of an `f32`.
    pub non_rtpc_delay_time: u32,
    /// IEEE-754 bits of an `f32`.
    pub rtpc_feedback: u32,
    /// IEEE-754 bits of an `f32`.
    pub rtpc_wet_dry_mix: u32,
    /// IEEE-754 bits of an `f32`.
    pub rtpc_output_level: u32,
    pub rtpc_feedback_enabled: u8,
    pub non_rtpc_process_lfe: u8,
}

impl Wire for DelayFxParams {
    open spec fn wf(&self) -> bool {
        true
    }

    open spec fn spec_bytes(&self) -> Seq<u8> {
        spec_u32_to_le_bytes(self.non_rtpc_delay_time)
            + spec_u32_to_le_bytes(self.rtpc_feedback)
            + spec_u32_to_le_bytes(self.rtpc_wet_dry_mix)
            + spec_u32_to_le_bytes(self.rtpc_output_level)
            + seq![self.rtpc_feedback_enabled]
            + seq![self.non_rtpc_process_lfe]
    }

    open spec fn decodes_at(&self, data: Seq<u8>, pos: int) -> bool {
        &&& u32_at(data, pos, self.non_rtpc_delay_time)
        &&& u32_at(data, pos + 4, self.rtpc_feedback)
        &&& u32_at(data, pos + 4 + 4, self.rtpc_wet_dry_mix)
        &&& u32_at(data, pos + 4 + 4 + 4, self.rtpc_output_level)
        &&& u8_at(data, pos + 4 + 4 + 4 + 4, self.rtpc_feedback_enabled)
        &&& u8_at(data, pos + 4 + 4 + 4 + 4 + 1, self.non_rtpc_process_lfe)
    }

    open spec fn read_error(data: Seq<u8>, pos: int) -> Option<Error> {
        layout_error(data, pos, seq![4, 4, 4, 4, 1, 1])
    }

    fn wire_read(r: &mut BinaryReader) -> (res: Result<Self>) {
        proof {
            reveal_with_fuel(layout_error, 7);
        }
        let non_rtpc_delay_time = r.read_u32()?;
        let rtpc_feedback = r.read_u32()?;
        let rtpc_wet_dry_mix = r.read_u32()?;
        let rtpc_output_level = r.read_u32()?;
        let rtpc_feedback_enabled = r.read_u8()?;
        let non_rtpc_process_lfe = r.read_u8()?;
        Ok(Self { non_rtpc_delay_time, rtpc_feedback, rtpc_wet_dry_mix, rtpc_output_level, rtpc_feedback_enabled, non_rtpc_process_lfe })
    }

    fn wire_write(&self, w: &mut BinaryWriter) {
        w.write_u32(self.non_rtpc_delay_time);
        w.write_u32(self.rtpc_feedback);
        w.write_u32(self.rtpc_wet_dry_mix);
        w.write_u32(self.rtpc_output_level);
        w.write_u8(self.rtpc_feedback_enabled);
        w.write_u8(self.non_rtpc_process_lfe);
    }

    proof fn lemma_canonical(&self, data: Seq<u8>, pos: int) {
        assert(encoded_at(data, pos, spec_u32_to_le_bytes(self.non_rtpc_delay_time) + spec_u32_to_le_bytes(self.rtpc_feedback) + spec_u32_to_le_bytes(self.rtpc_wet_dry_mix) + spec_u32_to_le_bytes(self.rtpc_output_level) + seq![self.rtpc_feedback_enabled]));
        assert(encoded_at(data, pos + 4 + 4 + 4 + 4 + 1, seq![self.non_rtpc_process_lfe]));
        assert(encoded_at(data, pos, spec_u32_to_le_bytes(self.non_rtpc_delay_time) + spec_u32_to_le_bytes(self.rtpc_feedback) + spec_u32_to_le_bytes(self.rtpc_wet_dry_mix) + spec_u32_to_le_bytes(self.rtpc_output_level)));
        assert(encoded_at(data, pos + 4 + 4 + 4 + 4, seq![self.rtpc_feedback_enabled]));
        assert(encoded_at(data, pos, spec_u32_to_le_bytes(self.non_rtpc_delay_time) + spec_u32_to_le_bytes(self.rtpc_feedback) + spec_u32_to_le_bytes(self.rtpc_wet_dry_mix)));
        assert(encoded_at(data, pos + 4 + 4 + 4, spec_u32_to_le_bytes(self.rtpc_output_level)));
        assert(encoded_at(data, pos, spec_u32_to_le_bytes(self.non_rtpc_delay_time) + spec_u32_to_le_bytes(self.rtpc_feedback)));
        assert(encoded_at(data, pos + 4 + 4, spec_u32_to_le_bytes(self.rtpc_wet_dry_mix)));
        assert(encoded_at(data, pos, spec_u32_to_le_bytes(self.non_rtpc_delay_time)));
        assert(encoded_at(data, pos + 4, spec_u32_to_le_bytes(self.rtpc_feedback)));
    }
}

/// The layout of a `DelayFxParams` as Wwise writes it, 18 bytes: `non_rtpc_delay_time` (`u32`)
/// at 0, `rtpc_feedback` (`u32`) at 4, `rtpc_wet_dry_mix` (`u32`) at 8, `rtpc_output_level`
/// (`u32`) at 12, `rtpc_feedback_enabled` (byte) at 16, `non_rtpc_process_lfe` (byte) at 17.
pub proof fn lemma_delay_fx_params_layout(v: DelayFxParams, data: Seq<u8>, pos: int)
    requires
        v.decodes_at(data, pos),
    ensures
        u32_at(data, pos, v.non_rtpc_delay_time),
        u32_at(data, pos + 4, v.rtpc_feedback),
        u32_at(data, pos + 8, v.rtpc_wet_dry_mix),
        u32_at(data, pos + 12, v.rtpc_output_level),
        u8_at(data, pos + 16, v.rtpc_feedback_enabled),
        u8_at(data, pos + 17, v.non_rtpc_process_lfe),
        v.spec_bytes() == spec_u32_to_le_bytes(v.non_rtpc_delay_time) + spec_u32_to_le_bytes(v.rtpc_feedback) + spec_u32_to_le_bytes(v.rtpc_wet_dry_mix) + spec_u32_to_le_bytes(v.rtpc_output_level) + seq![v.rtpc_feedback_enabled] + seq![v.non_rtpc_process_lfe],
{
    assert(v.spec_bytes() =~= spec_u32_to_le_bytes(v.non_rtpc_delay_time) + spec_u32_to_le_bytes(v.rtpc_feedback) + spec_u32_to_le_bytes(v.rtpc_wet_dry_mix) + spec_u32_to_le_bytes(v.rtpc_output_level) + seq![v.rtpc_feedback_enabled] + seq![v.non_rtpc_process_lfe]);
}

impl DelayFxParams {
    /// Read one value.
    pub fn read(r: &mut BinaryReader) -> (res: Result<Self>)
        ensures
            reads_value(*old(r), *final(r), res),
    {
        Self::wire_read(r)
    }

    /// Write this value.
    pub fn write(&self, w: &mut BinaryWriter)
        requires
            self.wf(),
        ensures
            final(w)@ == old(w)@ + self.spec_bytes(),
    {
        self.wire_write(w)
    }
}
} // verus!
