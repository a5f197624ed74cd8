//! Media source types.

use vstd::prelude::*;
#[allow(unused_imports)]
use crate::bytes::{
    encoded_at, group_bytes, spec_i16_to_le_bytes, spec_i32_to_le_bytes, spec_u16_to_le_bytes,
    spec_u32_to_le_bytes, spec_u64_to_le_bytes,
};
#[allow(unused_imports)]
use crate::error::{Error, Result};
#[allow(unused_imports)]
use super::super::reader::BinaryReader;
#[allow(unused_imports)]
use super::super::wire::{
    Wire, layout_error, group_wire, all_wf, bool_at, bool_byte, i16_at, i32_at, i8_at, lemma_list_canonical, list_bytes,
    list_decodes_at, list_u16_bytes, list_u32_bytes, reads_value, u16_at, u32_at, u64_at, u8_at,
};
#[allow(unused_imports)]
use super::super::writer::BinaryWriter;

verus! {

broadcast use group_bytes, group_wire, BinaryReader::lemma_pos_nonneg;

/// Where a source's media lives and how large it is.
#[derive(Debug, Clone)]
pub struct MediaInformation {
    pub source_id: u32,
    pub in_memory_media_size: u32,
    pub source_bits: u8,
}

impl Wire for MediaInformation {
    open spec fn wf(&self) -> bool {
        true
    }

    open spec fn spec_bytes(&self) -> Seq<u8> {
        spec_u32_to_le_bytes(self.source_id)
            + spec_u32_to_le_bytes(self.in_memory_media_size)
            + seq![self.source_bits]
    }

    open spec fn decodes_at(&self, data: Seq<u8>, pos: int) -> bool {
        &&& u32_at(data, pos, self.source_id)
        &&& u32_at(data, pos + 4, self.in_memory_media_size)
        &&& u8_at(data, pos + 4 + 4, self.source_bits)
    }

    open spec fn read_error(data: Seq<u8>, pos: int) -> Option<Error> {
        layout_error(data, pos, seq![4, 4, 1])
    }

    fn wire_read(r: &mut BinaryReader) -> (res: Result<Self>) {
        proof {
            reveal_with_fuel(layout_error, 4);
        }
        let source_id = r.read_u32()?;
        let in_memory_media_size = r.read_u32()?;
        let source_bits = r.read_u8()?;
        Ok(Self { source_id, in_memory_media_size, source_bits })
    }

    fn wire_write(&self, w: &mut BinaryWriter) {
        w.write_u32(self.source_id);
        w.write_u32(self.in_memory_media_size);
        w.write_u8(self.source_bits);
    }

    proof fn lemma_canonical(&self, data: Seq<u8>, pos: int) {
    }
}

/// The layout of a `MediaInformation` as Wwise writes it, 9 bytes: `source_id` (`u32`) at 0,
/// `in_memory_media_size` (`u32`) at 4, `source_bits` (byte) at 8.
pub proof fn lemma_media_information_layout(v: MediaInformation, data: Seq<u8>, pos: int)
    requires
        v.decodes_at(data, pos),
    ensures
        u32_at(data, pos, v.source_id),
        u32_at(data, pos + 4, v.in_memory_media_size),
        u8_at(data, pos + 8, v.source_bits),
        v.spec_bytes() == spec_u32_to_le_bytes(v.source_id) + spec_u32_to_le_bytes(v.in_memory_media_size) + seq![v.source_bits],
{
    assert(v.spec_bytes() =~= spec_u32_to_le_bytes(v.source_id) + spec_u32_to_le_bytes(v.in_memory_media_size) + seq![v.source_bits]);
}

impl MediaInformation {
    /// Read one value.
    pub fn read(r: &mut BinaryReader) -> (res: Result<Self>)
        ensures
            reads_value(*old(r), *final(r), res),
    {
        Self::wire_read(r)
    }

    /// Write this value.
    pub fn write(&self, w: &mut BinaryWriter)
        requires
            self.wf(),
        ensures
            final(w)@ == old(w)@ + self.spec_bytes(),
    {
        self.wire_write(w)
    }
}
impl MediaInformation {
    /// Bit 0 of the source bits: the media depends on the language.
    pub fn is_language_specific(&self) -> (b: bool)
        ensures
            b == ((self.source_bits & 0x01) != 0),
    {
        (self.source_bits & 0x01) != 0
    }

    /// Bit 7 of the source bits: the source has media.
    pub fn has_source(&self) -> (b: bool)
        ensures
            b == ((self.source_bits & 0x80) != 0),
    {
        (self.source_bits & 0x80) != 0
    }
}

/// Plugin types 2 and 5 (low four bits of the plugin ID) carry a parameter block.
pub open spec fn has_plugin_params(plugin_id: u32) -> bool {
    (plugin_id & 0x000F) == 2 || (plugin_id & 0x000F) == 5
}

/// The source of a sound: plugin, stream type, media and plugin parameters.
#[derive(Debug, Clone)]
pub struct BankSourceData {
    pub plugin_id: u32,
    pub stream_type: u8,
    pub media_info: MediaInformation,
    pub plugin_params_size: Option<u32>,
    pub plugin_params: Option<Vec<u8>>,
}

impl Wire for BankSourceData {
    open spec fn wf(&self) -> bool {
        &&& self.media_info.wf()
        &&& if has_plugin_params(self.plugin_id) {
            &&& self.plugin_params_size is Some
            &&& match self.plugin_params {
                Some(p) => p@.len() > 0 && p@.len() == self.plugin_params_size.unwrap(),
                None => self.plugin_params_size == Some(0u32),
            }
        } else {
            self.plugin_params_size is None && self.plugin_params is None
        }
    }

    open spec fn spec_bytes(&self) -> Seq<u8> {
        spec_u32_to_le_bytes(self.plugin_id) + seq![self.stream_type] + self.media_info.spec_bytes()
            + if has_plugin_params(self.plugin_id) {
            match self.plugin_params {
                Some(p) => spec_u32_to_le_bytes(p@.len() as u32) + p@,
                None => spec_u32_to_le_bytes(0),
            }
        } else {
            Seq::empty()
        }
    }

    open spec fn decodes_at(&self, data: Seq<u8>, pos: int) -> bool {
        &&& u32_at(data, pos, self.plugin_id)
        &&& u8_at(data, pos + 4, self.stream_type)
        &&& self.media_info.decodes_at(data, pos + 5)
        &&& has_plugin_params(self.plugin_id) ==> {
            &&& self.plugin_params_size matches Some(s) && u32_at(data, pos + 14, s)
            &&& self.plugin_params matches Some(p) ==> encoded_at(data, pos + 18, p@)
        }
    }

    fn wire_read(r: &mut BinaryReader) -> (res: Result<Self>) {
        let plugin_id = r.read_u32()?;
        let stream_type = r.read_u8()?;
        let media_info = MediaInformation::wire_read(r)?;
        let plugin_type_value = plugin_id & 0x000F;
        if plugin_type_value == 2 || plugin_type_value == 5 {
            let size = r.read_u32()?;
            let params = if size > 0 {
                let bytes = r.read_bytes(size as usize)?;
                Some(vstd::slice::slice_to_vec(bytes))
            } else {
                None
            };
            Ok(Self { plugin_id, stream_type, media_info, plugin_params_size: Some(size), plugin_params: params })
        } else {
            Ok(Self { plugin_id, stream_type, media_info, plugin_params_size: None, plugin_params: None })
        }
    }

    fn wire_write(&self, w: &mut BinaryWriter) {
        self.write_fields(w)
    }

    proof fn lemma_canonical(&self, data: Seq<u8>, pos: int) {
        self.media_info.lemma_canonical(data, pos + 5);
    }
}

impl BankSourceData {
    /// Read one value.
    pub fn read(r: &mut BinaryReader) -> (res: Result<Self>)
        ensures
            reads_value(*old(r), *final(r), res),
    {
        Self::wire_read(r)
    }

    fn write_fields(&self, w: &mut BinaryWriter)
        ensures
            final(w)@ == old(w)@ + self.spec_bytes(),
    {
        w.write_u32(self.plugin_id);
        w.write_u8(self.stream_type);
        self.media_info.wire_write(w);
        let plugin_type_value = self.plugin_id & 0x000F;
        if plugin_type_value == 2 || plugin_type_value == 5 {
            match &self.plugin_params {
                Some(p) => {
                    w.write_u32(p.len() as u32);
                    w.write_bytes(p.as_slice());
                },
                None => {
                    w.write_u32(0);
                },
            }
        }
    }

    /// Write this value: for a plugin type with parameters, their size (taken from the parameters) and the parameters, whatever the size field held.
    pub fn write(&self, w: &mut BinaryWriter)
        ensures
            final(w)@ == old(w)@ + self.spec_bytes(),
    {
        self.write_fields(w)
    }
}


/// Writing back a source that was read gives the bytes it was read from:
/// the parameter size field, recomputed from the parameters, equals the one
/// read.
pub proof fn lemma_bank_source_rewrite(x: BankSourceData, data: Seq<u8>, pos: int)
    requires
        x.wf(),
        x.decodes_at(data, pos),
    ensures
        encoded_at(data, pos, x.spec_bytes()),
{
    broadcast use crate::bytes::lemma_u32_from_le;

    let m = x.media_info;
    assert(data.subrange(pos, pos + 4) =~= spec_u32_to_le_bytes(x.plugin_id));
    assert(data.subrange(pos + 5, pos + 9) =~= spec_u32_to_le_bytes(m.source_id));
    assert(data.subrange(pos + 9, pos + 13) =~= spec_u32_to_le_bytes(m.in_memory_media_size));
    let head = spec_u32_to_le_bytes(x.plugin_id) + seq![x.stream_type] + m.spec_bytes();
    assert(data.subrange(pos, pos + 14) =~= head);
    if has_plugin_params(x.plugin_id) {
        let s = x.plugin_params_size.unwrap();
        assert(data.subrange(pos + 14, pos + 18) =~= spec_u32_to_le_bytes(s));
        match x.plugin_params {
            Some(p) => {
                assert(p@.len() as u32 == s);
                assert(data.subrange(pos, pos + 18 + p@.len()) =~= head + spec_u32_to_le_bytes(s) + p@);
            },
            None => {
                assert(s == 0);
                assert(data.subrange(pos, pos + 18) =~= head + spec_u32_to_le_bytes(0));
            },
        }
    } else {
        assert(x.spec_bytes() =~= head);
    }
}

} // verus!
