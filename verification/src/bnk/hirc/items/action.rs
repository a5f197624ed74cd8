//! Action item values.

use vstd::prelude::*;
#[allow(unused_imports)]
use crate::bytes::{
    encoded_at, group_bytes, spec_i16_to_le_bytes, spec_i32_to_le_bytes, spec_u16_to_le_bytes,
    spec_u32_to_le_bytes, spec_u64_to_le_bytes,
};
#[allow(unused_imports)]
use crate::error::{Error, Result};
#[allow(unused_imports)]
use super::super::reader::BinaryReader;
#[allow(unused_imports)]
use super::super::wire::{
    Wire, group_wire, all_wf, bool_at, bool_byte, i16_at, i32_at, i8_at, lemma_list_canonical, list_bytes,
    list_decodes_at, list_u16_bytes, list_u32_bytes, reads_value, u16_at, u32_at, u64_at, u8_at,
};
#[allow(unused_imports)]
use super::super::writer::BinaryWriter;
use super::super::params::action::{
    ActiveActionParams, BypassFXActionParams, GameParamActionParams, PlayActionParams,
    SeekActionParams, StateActionParams, SwitchActionParams, ValueActionParams,
};
use super::super::params::props::PropBundle;
use super::super::types::{ActionCategory, ActionType, lemma_action_categories, spec_category};

verus! {

broadcast use group_bytes, group_wire, BinaryReader::lemma_pos_nonneg;

/// An action: its type, common fields, property bundles, and the parameters
/// that its category calls for.
#[derive(Debug, Clone)]
pub struct ActionValues {
    pub action_type: ActionType,
    pub ext: u32,
    pub ext4: u8,
    pub prop_bundle1: PropBundle,
    pub prop_bundle2: PropBundle,
    pub play_params: Option<PlayActionParams>,
    pub active_params: Option<ActiveActionParams>,
    pub state_params: Option<StateActionParams>,
    pub switch_params: Option<SwitchActionParams>,
    pub game_param_params: Option<GameParamActionParams>,
    pub value_params: Option<ValueActionParams>,
    pub bypass_fx_params: Option<BypassFXActionParams>,
    pub seek_params: Option<SeekActionParams>,
}

/// The bytes of an optional value: its encoding, or nothing.
pub open spec fn opt_bytes<T: Wire>(v: Option<T>) -> Seq<u8> {
    match v {
        Some(x) => x.spec_bytes(),
        None => Seq::empty(),
    }
}

impl ActionValues {
    /// Exactly the parameters of the action's category are present, and are writable.
    pub open spec fn params_consistent(&self) -> bool {
        let c = spec_category(self.action_type.0);
        &&& (self.play_params is Some) == (c == ActionCategory::Play)
        &&& (self.active_params is Some) == (c == ActionCategory::Active)
        &&& (self.state_params is Some) == (c == ActionCategory::State)
        &&& (self.switch_params is Some) == (c == ActionCategory::Switch)
        &&& (self.game_param_params is Some) == (c == ActionCategory::GameParam)
        &&& (self.value_params is Some) == (c == ActionCategory::Value)
        &&& (self.bypass_fx_params is Some) == (c == ActionCategory::BypassFX)
        &&& (self.seek_params is Some) == (c == ActionCategory::Seek)
        &&& self.play_params matches Some(p) ==> p.wf()
        &&& self.active_params matches Some(p) ==> p.wf()
        &&& self.state_params matches Some(p) ==> p.wf()
        &&& self.switch_params matches Some(p) ==> p.wf()
        &&& self.game_param_params matches Some(p) ==> p.wf()
        &&& self.value_params matches Some(p) ==> p.wf()
        &&& self.bypass_fx_params matches Some(p) ==> p.wf()
        &&& self.seek_params matches Some(p) ==> p.wf()
    }

    /// The bytes of the category's parameters: those of its parameter value
    /// when present, nothing otherwise.
    pub open spec fn params_bytes(&self) -> Seq<u8> {
        match spec_category(self.action_type.0) {
            ActionCategory::Play => opt_bytes(self.play_params),
            ActionCategory::Active => opt_bytes(self.active_params),
            ActionCategory::State => opt_bytes(self.state_params),
            ActionCategory::Switch => opt_bytes(self.switch_params),
            ActionCategory::GameParam => opt_bytes(self.game_param_params),
            ActionCategory::Value => opt_bytes(self.value_params),
            ActionCategory::BypassFX => opt_bytes(self.bypass_fx_params),
            ActionCategory::Seek => opt_bytes(self.seek_params),
            _ => Seq::empty(),
        }
    }

    /// Every parameter value present can be written (its lists fit their
    /// count fields).
    pub open spec fn params_writable(&self) -> bool {
        &&& self.play_params matches Some(p) ==> p.wf()
        &&& self.active_params matches Some(p) ==> p.wf()
        &&& self.state_params matches Some(p) ==> p.wf()
        &&& self.switch_params matches Some(p) ==> p.wf()
        &&& self.game_param_params matches Some(p) ==> p.wf()
        &&& self.value_params matches Some(p) ==> p.wf()
        &&& self.bypass_fx_params matches Some(p) ==> p.wf()
        &&& self.seek_params matches Some(p) ==> p.wf()
    }

    /// The category's parameters decode at `pos`.
    pub open spec fn params_decode(&self, data: Seq<u8>, pos: int) -> bool {
        match spec_category(self.action_type.0) {
            ActionCategory::Play => self.play_params.unwrap().decodes_at(data, pos),
            ActionCategory::Active => self.active_params.unwrap().decodes_at(data, pos),
            ActionCategory::State => self.state_params.unwrap().decodes_at(data, pos),
            ActionCategory::Switch => self.switch_params.unwrap().decodes_at(data, pos),
            ActionCategory::GameParam => self.game_param_params.unwrap().decodes_at(data, pos),
            ActionCategory::Value => self.value_params.unwrap().decodes_at(data, pos),
            ActionCategory::BypassFX => self.bypass_fx_params.unwrap().decodes_at(data, pos),
            ActionCategory::Seek => self.seek_params.unwrap().decodes_at(data, pos),
            _ => true,
        }
    }
}

/// An action as Wwise lays it out: its type is the `u16` at its start,
/// then a `u32` and a byte, the two property bundles, and the parameters that
/// its type calls for: play parameters for the Play types, the Stop/Pause/
/// Resume parameters for every Stop (0x01xx), Pause (0x02xx) and Resume
/// (0x03xx) type, and so on; the Play Event and parameterless types carry
/// none. Whatever parameters the type calls for are read right after the
/// property bundles, and no others are held.
#[verifier::spinoff_prover]
#[verifier::rlimit(50)]
pub proof fn lemma_action_layout(v: ActionValues, data: Seq<u8>, pos: int)
    requires
        v.wf(),
        v.decodes_at(data, pos),
    ensures
        ({
            let t = v.action_type.0;
            let q = pos + 7 + v.prop_bundle1.spec_bytes().len() + v.prop_bundle2.spec_bytes().len();
            &&& u16_at(data, pos, t)
            &&& u32_at(data, pos + 2, v.ext)
            &&& u8_at(data, pos + 6, v.ext4)
            &&& v.prop_bundle1.decodes_at(data, pos + 7)
            &&& (t == 0x0403 || t == 0x0503 || t == 0x2303) ==> (v.play_params matches Some(p)
                && p.decodes_at(data, q))
            &&& (t == 0x0102 || t == 0x0103 || t == 0x0104 || t == 0x0105 || t == 0x0108 || t == 0x0109
                || t == 0x0202 || t == 0x0203 || t == 0x0204 || t == 0x0205 || t == 0x0208 || t == 0x0209
                || t == 0x0302 || t == 0x0303 || t == 0x0304 || t == 0x0305 || t == 0x0308 || t == 0x0309) ==> (v.active_params matches Some(p) && p.decodes_at(data, q))
            &&& t == 0x1204 ==> (v.state_params matches Some(p) && p.decodes_at(data, q))
            &&& t == 0x1901 ==> (v.switch_params matches Some(p) && p.decodes_at(data, q))
            &&& (t == 0x1302 || t == 0x1303 || t == 0x1402 || t == 0x1403) ==> (v.game_param_params matches Some(p)
                && p.decodes_at(data, q))
            &&& (t == 0x0602 || t == 0x0603 || t == 0x0702 || t == 0x0703 || t == 0x0704 || t == 0x0705
                || t == 0x0708 || t == 0x0709 || t == 0x0A02 || t == 0x0A03 || t == 0x0B02 || t == 0x0B03
                || t == 0x0B04 || t == 0x0B05 || t == 0x0B08 || t == 0x0B09 || t == 0x0802 || t == 0x0803
                || t == 0x0902 || t == 0x0903 || t == 0x0904 || t == 0x0905 || t == 0x0908 || t == 0x0909
                || t == 0x0E02 || t == 0x0E03 || t == 0x0F02 || t == 0x0F03 || t == 0x0F04 || t == 0x0F05
                || t == 0x0F08 || t == 0x0F09 || t == 0x2002 || t == 0x2003 || t == 0x3002 || t == 0x3003
                || t == 0x3004 || t == 0x3005 || t == 0x3008 || t == 0x3009 || t == 0x0C02 || t == 0x0C03
                || t == 0x0D02 || t == 0x0D03 || t == 0x0D04 || t == 0x0D08) ==> (v.value_params matches Some(p) && p.decodes_at(data, q))
            &&& (t == 0x1A02 || t == 0x1A03 || t == 0x1B02 || t == 0x1B03 || t == 0x1B04 || t == 0x1B05
                || t == 0x1B08 || t == 0x1B09 || t == 0x3302 || t == 0x3303 || t == 0x3402 || t == 0x3403
                || t == 0x3404 || t == 0x3405 || t == 0x3502 || t == 0x3503 || t == 0x3602 || t == 0x3603
                || t == 0x3604 || t == 0x3605 || t == 0x3702 || t == 0x3703 || t == 0x3704 || t == 0x3705) ==> (v.bypass_fx_params matches Some(p) && p.decodes_at(data, q))
            &&& (t == 0x1E02 || t == 0x1E03 || t == 0x1E04 || t == 0x1E05 || t == 0x1E08 || t == 0x1E09)
                ==> (v.seek_params matches Some(p) && p.decodes_at(data, q))
            &&& (t == 0x2103 || t == 0x1002 || t == 0x1102 || t == 0x1C02 || t == 0x1C03 || t == 0x1D00
                || t == 0x1D01 || t == 0x1D02 || t == 0x1D03 || t == 0x1B00 || t == 0x1B01 || t == 0x1820
                || t == 0x1F02 || t == 0x1F03 || t == 0x2202 || t == 0x2203 || t == 0x3102 || t == 0x3202
                || t == 0x3204 || t == 0x1511 || t == 0x1611 || t == 0x1711 || t == 0x4000 || t == 0x0000) ==> (v.play_params is None && v.active_params is None && v.state_params is None
                && v.switch_params is None && v.game_param_params is None && v.value_params is None
                && v.bypass_fx_params is None && v.seek_params is None && v.spec_bytes().len() == q - pos)
        }),
{
    lemma_action_categories(v.action_type.0);
}

impl Wire for ActionValues {
    open spec fn wf(&self) -> bool {
        &&& self.prop_bundle1.wf()
        &&& self.prop_bundle2.wf()
        &&& self.params_consistent()
    }

    open spec fn spec_bytes(&self) -> Seq<u8> {
        spec_u16_to_le_bytes(self.action_type.0) + spec_u32_to_le_bytes(self.ext) + seq![self.ext4]
            + self.prop_bundle1.spec_bytes() + self.prop_bundle2.spec_bytes() + self.params_bytes()
    }

    open spec fn decodes_at(&self, data: Seq<u8>, pos: int) -> bool {
        let l1 = self.prop_bundle1.spec_bytes().len();
        let l2 = self.prop_bundle2.spec_bytes().len();
        &&& u16_at(data, pos, self.action_type.0)
        &&& u32_at(data, pos + 2, self.ext)
        &&& u8_at(data, pos + 6, self.ext4)
        &&& self.prop_bundle1.decodes_at(data, pos + 7)
        &&& self.prop_bundle2.decodes_at(data, pos + 7 + l1)
        &&& self.params_decode(data, pos + 7 + l1 + l2)
    }

    fn wire_read(r: &mut BinaryReader) -> (res: Result<Self>) {
        let action_type = ActionType(r.read_u16()?);
        let ext = r.read_u32()?;
        let ext4 = r.read_u8()?;
        let prop_bundle1 = PropBundle::read(r, false, false)?;
        let prop_bundle2 = PropBundle::read(r, true, false)?;
        let cat = action_type.category();
        let mut v = ActionValues {
            action_type,
            ext,
            ext4,
            prop_bundle1,
            prop_bundle2,
            play_params: None,
            active_params: None,
            state_params: None,
            switch_params: None,
            game_param_params: None,
            value_params: None,
            bypass_fx_params: None,
            seek_params: None,
        };
        match cat {
            ActionCategory::Play => v.play_params = Some(PlayActionParams::read(r)?),
            ActionCategory::Active => v.active_params = Some(ActiveActionParams::read(r)?),
            ActionCategory::State => v.state_params = Some(StateActionParams::read(r)?),
            ActionCategory::Switch => v.switch_params = Some(SwitchActionParams::read(r)?),
            ActionCategory::GameParam => {
                v.game_param_params = Some(GameParamActionParams::read(r)?)
            },
            ActionCategory::Value => v.value_params = Some(ValueActionParams::read(r)?),
            ActionCategory::BypassFX => v.bypass_fx_params = Some(BypassFXActionParams::read(r)?),
            ActionCategory::Seek => v.seek_params = Some(SeekActionParams::read(r)?),
            ActionCategory::NoParams | ActionCategory::Event | ActionCategory::PlayEvent => {},
            ActionCategory::Unknown => {},
        }
        Ok(v)
    }

    fn wire_write(&self, w: &mut BinaryWriter) {
        self.write_fields(w)
    }

    proof fn lemma_canonical(&self, data: Seq<u8>, pos: int) {
        let a = spec_u16_to_le_bytes(self.action_type.0);
        let b = spec_u32_to_le_bytes(self.ext);
        let c = seq![self.ext4];
        let d = self.prop_bundle1.spec_bytes();
        let e = self.prop_bundle2.spec_bytes();
        let q = pos + 7 + d.len() + e.len();
        assert(encoded_at(data, pos, a + b + c + d + e));
        assert(encoded_at(data, pos, a + b + c + d));
        assert(encoded_at(data, pos, a + b + c));
        assert(encoded_at(data, pos, a + b));
        self.prop_bundle1.lemma_canonical(data, pos + 7);
        self.prop_bundle2.lemma_canonical(data, pos + 7 + d.len());
        assert(encoded_at(data, q, self.params_bytes()));
        match spec_category(self.action_type.0) {
            ActionCategory::Play => self.play_params.unwrap().lemma_canonical(data, q),
            ActionCategory::Active => self.active_params.unwrap().lemma_canonical(data, q),
            ActionCategory::State => self.state_params.unwrap().lemma_canonical(data, q),
            ActionCategory::Switch => self.switch_params.unwrap().lemma_canonical(data, q),
            ActionCategory::GameParam => self.game_param_params.unwrap().lemma_canonical(data, q),
            ActionCategory::Value => self.value_params.unwrap().lemma_canonical(data, q),
            ActionCategory::BypassFX => self.bypass_fx_params.unwrap().lemma_canonical(data, q),
            ActionCategory::Seek => self.seek_params.unwrap().lemma_canonical(data, q),
            _ => {},
        }
    }
}

impl ActionValues {
    /// Read an action; which parameters follow depends on the action type's category.
    pub fn read(r: &mut BinaryReader) -> (res: Result<Self>)
        ensures
            reads_value(*old(r), *final(r), res),
    {
        Self::wire_read(r)
    }

    fn write_fields(&self, w: &mut BinaryWriter)
        requires
            self.params_writable(),
        ensures
            final(w)@ == old(w)@ + self.spec_bytes(),
    {
        w.write_u16(self.action_type.0);
        w.write_u32(self.ext);
        w.write_u8(self.ext4);
        self.prop_bundle1.write(w);
        self.prop_bundle2.write(w);
        let cat = self.action_type.category();
        match cat {
            ActionCategory::Play => {
                if let Some(p) = &self.play_params {
                    p.write(w);
                }
            },
            ActionCategory::Active => {
                if let Some(p) = &self.active_params {
                    p.write(w);
                }
            },
            ActionCategory::State => {
                if let Some(p) = &self.state_params {
                    p.write(w);
                }
            },
            ActionCategory::Switch => {
                if let Some(p) = &self.switch_params {
                    p.write(w);
                }
            },
            ActionCategory::GameParam => {
                if let Some(p) = &self.game_param_params {
                    p.write(w);
                }
            },
            ActionCategory::Value => {
                if let Some(p) = &self.value_params {
                    p.write(w);
                }
            },
            ActionCategory::BypassFX => {
                if let Some(p) = &self.bypass_fx_params {
                    p.write(w);
                }
            },
            ActionCategory::Seek => {
                if let Some(p) = &self.seek_params {
                    p.write(w);
                }
            },
            _ => {},
        }
    }

    /// Write the action: its type, fields and property bundles, then the
    /// parameters of its category when they are present.
    pub fn write(&self, w: &mut BinaryWriter)
        requires
            self.params_writable(),
        ensures
            final(w)@ == old(w)@ + self.spec_bytes(),
    {
        self.write_fields(w)
    }
}

} // verus!
