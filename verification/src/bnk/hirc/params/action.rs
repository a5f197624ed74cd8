//! Action-specific parameter types and playlist/exception types.

use vstd::prelude::*;
#[allow(unused_imports)]
use crate::bytes::{
    encoded_at, group_bytes, spec_i16_to_le_bytes, spec_i32_to_le_bytes, spec_u16_to_le_bytes,
    spec_u32_to_le_bytes, spec_u64_to_le_bytes,
};
#[allow(unused_imports)]
use crate::error::{Error, Result};
#[allow(unused_imports)]
use super::super::reader::BinaryReader;
#[allow(unused_imports)]
use super::super::wire::{
    Wire, layout_error, group_wire, all_wf, bool_at, bool_byte, i16_at, i32_at, i8_at, lemma_list_canonical, list_bytes,
    list_decodes_at, list_u16_bytes, list_u32_bytes, reads_value, u16_at, u32_at, u64_at, u8_at,
};
#[allow(unused_imports)]
use super::super::writer::BinaryWriter;

verus! {

broadcast use group_bytes, group_wire, BinaryReader::lemma_pos_nonneg;

/// One weighted entry of a playlist.
#[derive(Debug, Clone)]
pub struct PlaylistItem {
    pub play_id: i32,
    pub weight: i32,
}

impl Wire for PlaylistItem {
    open spec fn wf(&self) -> bool {
        true
    }

    open spec fn spec_bytes(&self) -> Seq<u8> {
        spec_i32_to_le_bytes(self.play_id)
            + spec_i32_to_le_bytes(self.weight)
    }

    open spec fn decodes_at(&self, data: Seq<u8>, pos: int) -> bool {
        &&& i32_at(data, pos, self.play_id)
        &&& i32_at(data, pos + 4, self.weight)
    }

    open spec fn read_error(data: Seq<u8>, pos: int) -> Option<Error> {
        layout_error(data, pos, seq![4, 4])
    }

    fn wire_read(r: &mut BinaryReader) -> (res: Result<Self>) {
        proof {
            reveal_with_fuel(layout_error, 3);
        }
        let play_id = r.read_i32()?;
        let weight = r.read_i32()?;
        Ok(Self { play_id, weight })
    }

    fn wire_write(&self, w: &mut BinaryWriter) {
        w.write_i32(self.play_id);
        w.write_i32(self.weight);
    }

    proof fn lemma_canonical(&self, data: Seq<u8>, pos: int) {
    }
}

/// The layout of a `PlaylistItem` as Wwise writes it, 8 bytes: `play_id` (`i32`) at 0, `weight`
/// (`i32`) at 4.
pub proof fn lemma_playlist_item_layout(v: PlaylistItem, data: Seq<u8>, pos: int)
    requires
        v.decodes_at(data, pos),
    ensures
        i32_at(data, pos, v.play_id),
        i32_at(data, pos + 4, v.weight),
        v.spec_bytes() == spec_i32_to_le_bytes(v.play_id) + spec_i32_to_le_bytes(v.weight),
{
    assert(v.spec_bytes() =~= spec_i32_to_le_bytes(v.play_id) + spec_i32_to_le_bytes(v.weight));
}
/// A weighted playlist (`u16`-counted).
#[derive(Debug, Clone, Default)]
pub struct Playlist {
    pub items: Vec<PlaylistItem>,
}

impl Wire for Playlist {
    open spec fn wf(&self) -> bool {
        self.items@.len() <= u16::MAX && all_wf(self.items@)
    }

    open spec fn spec_bytes(&self) -> Seq<u8> {
        list_u16_bytes(self.items@)
    }

    open spec fn decodes_at(&self, data: Seq<u8>, pos: int) -> bool {
        &&& u16_at(data, pos, self.items@.len() as u16)
        &&& list_decodes_at(self.items@, data, pos + 2)
    }

    fn wire_read(r: &mut BinaryReader) -> (res: Result<Self>) {
        let items = r.read_list_u16::<PlaylistItem>()?;
        Ok(Self { items })
    }

    fn wire_write(&self, w: &mut BinaryWriter) {
        w.write_list_u16(self.items.as_slice());
    }

    proof fn lemma_canonical(&self, data: Seq<u8>, pos: int) {
        lemma_list_canonical(self.items@, data, pos + 2);
    }
}

impl Playlist {
    /// Read one value.
    pub fn read(r: &mut BinaryReader) -> (res: Result<Self>)
        ensures
            reads_value(*old(r), *final(r), res),
    {
        Self::wire_read(r)
    }

    /// Write this value.
    pub fn write(&self, w: &mut BinaryWriter)
        requires
            self.wf(),
        ensures
            final(w)@ == old(w)@ + self.spec_bytes(),
    {
        self.wire_write(w)
    }
}
/// A base value with random range (three `f32`s).
#[derive(Debug, Clone, Copy)]
pub struct RandomizerModifier {
    /// IEEE-754 bits of an `f32`.
    pub base: u32,
    /// IEEE-754 bits of an `f32`.
    pub min: u32,
    /// IEEE-754 bits of an `f32`.
    pub max: u32,
}

impl Wire for RandomizerModifier {
    open spec fn wf(&self) -> bool {
        true
    }

    open spec fn spec_bytes(&self) -> Seq<u8> {
        spec_u32_to_le_bytes(self.base)
            + spec_u32_to_le_bytes(self.min)
            + spec_u32_to_le_bytes(self.max)
    }

    open spec fn decodes_at(&self, data: Seq<u8>, pos: int) -> bool {
        &&& u32_at(data, pos, self.base)
        &&& u32_at(data, pos + 4, self.min)
        &&& u32_at(data, pos + 4 + 4, self.max)
    }

    open spec fn read_error(data: Seq<u8>, pos: int) -> Option<Error> {
        layout_error(data, pos, seq![4, 4, 4])
    }

    fn wire_read(r: &mut BinaryReader) -> (res: Result<Self>) {
        proof {
            reveal_with_fuel(layout_error, 4);
        }
        let base = r.read_u32()?;
        let min = r.read_u32()?;
        let max = r.read_u32()?;
        Ok(Self { base, min, max })
    }

    fn wire_write(&self, w: &mut BinaryWriter) {
        w.write_u32(self.base);
        w.write_u32(self.min);
        w.write_u32(self.max);
    }

    proof fn lemma_canonical(&self, data: Seq<u8>, pos: int) {
    }
}

/// The layout of a `RandomizerModifier` as Wwise writes it, 12 bytes: `base` (`u32`) at 0,
/// `min` (`u32`) at 4, `max` (`u32`) at 8.
pub proof fn lemma_randomizer_modifier_layout(v: RandomizerModifier, data: Seq<u8>, pos: int)
    requires
        v.decodes_at(data, pos),
    ensures
        u32_at(data, pos, v.base),
        u32_at(data, pos + 4, v.min),
        u32_at(data, pos + 8, v.max),
        v.spec_bytes() == spec_u32_to_le_bytes(v.base) + spec_u32_to_le_bytes(v.min) + spec_u32_to_le_bytes(v.max),
{
    assert(v.spec_bytes() =~= spec_u32_to_le_bytes(v.base) + spec_u32_to_le_bytes(v.min) + spec_u32_to_le_bytes(v.max));
}

impl RandomizerModifier {
    /// Read one value.
    pub fn read(r: &mut BinaryReader) -> (res: Result<Self>)
        ensures
            reads_value(*old(r), *final(r), res),
    {
        Self::wire_read(r)
    }

    /// Write this value.
    pub fn write(&self, w: &mut BinaryWriter)
        requires
            self.wf(),
        ensures
            final(w)@ == old(w)@ + self.spec_bytes(),
    {
        self.wire_write(w)
    }
}
/// An element excluded from an action.
#[derive(Debug, Clone)]
pub struct ElementException {
    pub id: u32,
    pub is_bus_id: bool,
}

impl Wire for ElementException {
    open spec fn wf(&self) -> bool {
        true
    }

    open spec fn spec_bytes(&self) -> Seq<u8> {
        spec_u32_to_le_bytes(self.id)
            + bool_byte(self.is_bus_id)
    }

    open spec fn decodes_at(&self, data: Seq<u8>, pos: int) -> bool {
        &&& u32_at(data, pos, self.id)
        &&& bool_at(data, pos + 4, self.is_bus_id)
    }

    open spec fn read_error(data: Seq<u8>, pos: int) -> Option<Error> {
        layout_error(data, pos, seq![4, 1])
    }

    fn wire_read(r: &mut BinaryReader) -> (res: Result<Self>) {
        proof {
            reveal_with_fuel(layout_error, 3);
        }
        let id = r.read_u32()?;
        let is_bus_id = r.read_u8()? != 0;
        Ok(Self { id, is_bus_id })
    }

    fn wire_write(&self, w: &mut BinaryWriter) {
        w.write_u32(self.id);
        w.write_u8(if self.is_bus_id { 1 } else { 0 });
    }

    proof fn lemma_canonical(&self, data: Seq<u8>, pos: int) {
    }
}

/// The layout of a `ElementException` as Wwise writes it, 5 bytes: `id` (`u32`) at 0,
/// `is_bus_id` (a flag byte) at 4.
pub proof fn lemma_element_exception_layout(v: ElementException, data: Seq<u8>, pos: int)
    requires
        v.decodes_at(data, pos),
    ensures
        u32_at(data, pos, v.id),
        bool_at(data, pos + 4, v.is_bus_id),
        v.spec_bytes() == spec_u32_to_le_bytes(v.id) + bool_byte(v.is_bus_id),
{
    assert(v.spec_bytes() =~= spec_u32_to_le_bytes(v.id) + bool_byte(v.is_bus_id));
}
/// The elements an action does not apply to.
#[derive(Debug, Clone, Default)]
pub struct ExceptParams {
    pub exceptions: Vec<ElementException>,
}

impl Wire for ExceptParams {
    open spec fn wf(&self) -> bool {
        self.exceptions@.len() <= u32::MAX && all_wf(self.exceptions@)
    }

    open spec fn spec_bytes(&self) -> Seq<u8> {
        list_u32_bytes(self.exceptions@)
    }

    open spec fn decodes_at(&self, data: Seq<u8>, pos: int) -> bool {
        &&& u32_at(data, pos, self.exceptions@.len() as u32)
        &&& list_decodes_at(self.exceptions@, data, pos + 4)
    }

    fn wire_read(r: &mut BinaryReader) -> (res: Result<Self>) {
        let exceptions = r.read_list_u32::<ElementException>()?;
        Ok(Self { exceptions })
    }

    fn wire_write(&self, w: &mut BinaryWriter) {
        w.write_list_u32(self.exceptions.as_slice());
    }

    proof fn lemma_canonical(&self, data: Seq<u8>, pos: int) {
        lemma_list_canonical(self.exceptions@, data, pos + 4);
    }
}

impl ExceptParams {
    /// Read one value.
    pub fn read(r: &mut BinaryReader) -> (res: Result<Self>)
        ensures
            reads_value(*old(r), *final(r), res),
    {
        Self::wire_read(r)
    }

    /// Write this value.
    pub fn write(&self, w: &mut BinaryWriter)
        requires
            self.wf(),
        ensures
            final(w)@ == old(w)@ + self.spec_bytes(),
    {
        self.wire_write(w)
    }
}
/// Parameters of a Play action.
#[derive(Debug, Clone)]
pub struct PlayActionParams {
    pub bit_vector: u8,
    pub file_id: u32,
}

impl Wire for PlayActionParams {
    open spec fn wf(&self) -> bool {
        true
    }

    open spec fn spec_bytes(&self) -> Seq<u8> {
        seq![self.bit_vector]
            + spec_u32_to_le_bytes(self.file_id)
    }

    open spec fn decodes_at(&self, data: Seq<u8>, pos: int) -> bool {
        &&& u8_at(data, pos, self.bit_vector)
        &&& u32_at(data, pos + 1, self.file_id)
    }

    open spec fn read_error(data: Seq<u8>, pos: int) -> Option<Error> {
        layout_error(data, pos, seq![1, 4])
    }

    fn wire_read(r: &mut BinaryReader) -> (res: Result<Self>) {
        proof {
            reveal_with_fuel(layout_error, 3);
        }
        let bit_vector = r.read_u8()?;
        let file_id = r.read_u32()?;
        Ok(Self { bit_vector, file_id })
    }

    fn wire_write(&self, w: &mut BinaryWriter) {
        w.write_u8(self.bit_vector);
        w.write_u32(self.file_id);
    }

    proof fn lemma_canonical(&self, data: Seq<u8>, pos: int) {
    }
}

/// The layout of a `PlayActionParams` as Wwise writes it, 5 bytes: `bit_vector` (byte) at 0,
/// `file_id` (`u32`) at 1.
pub proof fn lemma_play_action_params_layout(v: PlayActionParams, data: Seq<u8>, pos: int)
    requires
        v.decodes_at(data, pos),
    ensures
        u8_at(data, pos, v.bit_vector),
        u32_at(data, pos + 1, v.file_id),
        v.spec_bytes() == seq![v.bit_vector] + spec_u32_to_le_bytes(v.file_id),
{
    assert(v.spec_bytes() =~= seq![v.bit_vector] + spec_u32_to_le_bytes(v.file_id));
}

impl PlayActionParams {
    /// Read one value.
    pub fn read(r: &mut BinaryReader) -> (res: Result<Self>)
        ensures
            reads_value(*old(r), *final(r), res),
    {
        Self::wire_read(r)
    }

    /// Write this value.
    pub fn write(&self, w: &mut BinaryWriter)
        requires
            self.wf(),
        ensures
            final(w)@ == old(w)@ + self.spec_bytes(),
    {
        self.wire_write(w)
    }
}
/// Parameters of a Stop/Pause/Resume action.
#[derive(Debug, Clone)]
pub struct ActiveActionParams {
    pub bit_vector: u8,
    pub action_specific_flags: u8,
    pub except_params: ExceptParams,
}

impl Wire for ActiveActionParams {
    open spec fn wf(&self) -> bool {
        self.except_params.wf()
    }

    open spec fn spec_bytes(&self) -> Seq<u8> {
        seq![self.bit_vector]
            + seq![self.action_specific_flags]
            + self.except_params.spec_bytes()
    }

    open spec fn decodes_at(&self, data: Seq<u8>, pos: int) -> bool {
        &&& u8_at(data, pos, self.bit_vector)
        &&& u8_at(data, pos + 1, self.action_specific_flags)
        &&& self.except_params.decodes_at(data, pos + 1 + 1)
    }

    fn wire_read(r: &mut BinaryReader) -> (res: Result<Self>) {
        let bit_vector = r.read_u8()?;
        let action_specific_flags = r.read_u8()?;
        let except_params = ExceptParams::wire_read(r)?;
        Ok(Self { bit_vector, action_specific_flags, except_params })
    }

    fn wire_write(&self, w: &mut BinaryWriter) {
        w.write_u8(self.bit_vector);
        w.write_u8(self.action_specific_flags);
        self.except_params.wire_write(w);
    }

    proof fn lemma_canonical(&self, data: Seq<u8>, pos: int) {
        self.except_params.lemma_canonical(data, pos + 1 + 1);
    }
}

/// The Stop/Pause/Resume parameters as Wwise lays them out: the bit vector
/// byte, the action-specific flags byte at 1, then the exceptions at 2.
pub proof fn lemma_active_action_layout(v: ActiveActionParams, data: Seq<u8>, pos: int)
    requires
        v.decodes_at(data, pos),
    ensures
        u8_at(data, pos, v.bit_vector),
        u8_at(data, pos + 1, v.action_specific_flags),
        v.except_params.decodes_at(data, pos + 2),
{
}

impl ActiveActionParams {
    /// Read one value.
    pub fn read(r: &mut BinaryReader) -> (res: Result<Self>)
        ensures
            reads_value(*old(r), *final(r), res),
    {
        Self::wire_read(r)
    }

    /// Write this value.
    pub fn write(&self, w: &mut BinaryWriter)
        requires
            self.wf(),
        ensures
            final(w)@ == old(w)@ + self.spec_bytes(),
    {
        self.wire_write(w)
    }
}
/// Parameters of a SetState action.
#[derive(Debug, Clone)]
pub struct StateActionParams {
    pub state_group_id: u32,
    pub target_state_id: u32,
}

impl Wire for StateActionParams {
    open spec fn wf(&self) -> bool {
        true
    }

    open spec fn spec_bytes(&self) -> Seq<u8> {
        spec_u32_to_le_bytes(self.state_group_id)
            + spec_u32_to_le_bytes(self.target_state_id)
    }

    open spec fn decodes_at(&self, data: Seq<u8>, pos: int) -> bool {
        &&& u32_at(data, pos, self.state_group_id)
        &&& u32_at(data, pos + 4, self.target_state_id)
    }

    open spec fn read_error(data: Seq<u8>, pos: int) -> Option<Error> {
        layout_error(data, pos, seq![4, 4])
    }

    fn wire_read(r: &mut BinaryReader) -> (res: Result<Self>) {
        proof {
            reveal_with_fuel(layout_error, 3);
        }
        let state_group_id = r.read_u32()?;
        let target_state_id = r.read_u32()?;
        Ok(Self { state_group_id, target_state_id })
    }

    fn wire_write(&self, w: &mut BinaryWriter) {
        w.write_u32(self.state_group_id);
        w.write_u32(self.target_state_id);
    }

    proof fn lemma_canonical(&self, data: Seq<u8>, pos: int) {
    }
}

/// The layout of a `StateActionParams` as Wwise writes it, 8 bytes: `state_group_id` (`u32`) at
/// 0, `target_state_id` (`u32`) at 4.
pub proof fn lemma_state_action_params_layout(v: StateActionParams, data: Seq<u8>, pos: int)
    requires
        v.decodes_at(data, pos),
    ensures
        u32_at(data, pos, v.state_group_id),
        u32_at(data, pos + 4, v.target_state_id),
        v.spec_bytes() == spec_u32_to_le_bytes(v.state_group_id) + spec_u32_to_le_bytes(v.target_state_id),
{
    assert(v.spec_bytes() =~= spec_u32_to_le_bytes(v.state_group_id) + spec_u32_to_le_bytes(v.target_state_id));
}

impl StateActionParams {
    /// Read one value.
    pub fn read(r: &mut BinaryReader) -> (res: Result<Self>)
        ensures
            reads_value(*old(r), *final(r), res),
    {
        Self::wire_read(r)
    }

    /// Write this value.
    pub fn write(&self, w: &mut BinaryWriter)
        requires
            self.wf(),
        ensures
            final(w)@ == old(w)@ + self.spec_bytes(),
    {
        self.wire_write(w)
    }
}
/// Parameters of a SetSwitch action.
#[derive(Debug, Clone)]
pub struct SwitchActionParams {
    pub switch_group_id: u32,
    pub switch_state_id: u32,
}

impl Wire for SwitchActionParams {
    open spec fn wf(&self) -> bool {
        true
    }

    open spec fn spec_bytes(&self) -> Seq<u8> {
        spec_u32_to_le_bytes(self.switch_group_id)
            + spec_u32_to_le_bytes(self.switch_state_id)
    }

    open spec fn decodes_at(&self, data: Seq<u8>, pos: int) -> bool {
        &&& u32_at(data, pos, self.switch_group_id)
        &&& u32_at(data, pos + 4, self.switch_state_id)
    }

    open spec fn read_error(data: Seq<u8>, pos: int) -> Option<Error> {
        layout_error(data, pos, seq![4, 4])
    }

    fn wire_read(r: &mut BinaryReader) -> (res: Result<Self>) {
        proof {
            reveal_with_fuel(layout_error, 3);
        }
        let switch_group_id = r.read_u32()?;
        let switch_state_id = r.read_u32()?;
        Ok(Self { switch_group_id, switch_state_id })
    }

    fn wire_write(&self, w: &mut BinaryWriter) {
        w.write_u32(self.switch_group_id);
        w.write_u32(self.switch_state_id);
    }

    proof fn lemma_canonical(&self, data: Seq<u8>, pos: int) {
    }
}

/// The layout of a `SwitchActionParams` as Wwise writes it, 8 bytes: `switch_group_id` (`u32`)
/// at 0, `switch_state_id` (`u32`) at 4.
pub proof fn lemma_switch_action_params_layout(v: SwitchActionParams, data: Seq<u8>, pos: int)
    requires
        v.decodes_at(data, pos),
    ensures
        u32_at(data, pos, v.switch_group_id),
        u32_at(data, pos + 4, v.switch_state_id),
        v.spec_bytes() == spec_u32_to_le_bytes(v.switch_group_id) + spec_u32_to_le_bytes(v.switch_state_id),
{
    assert(v.spec_bytes() =~= spec_u32_to_le_bytes(v.switch_group_id) + spec_u32_to_le_bytes(v.switch_state_id));
}

impl SwitchActionParams {
    /// Read one value.
    pub fn read(r: &mut BinaryReader) -> (res: Result<Self>)
        ensures
            reads_value(*old(r), *final(r), res),
    {
        Self::wire_read(r)
    }

    /// Write this value.
    pub fn write(&self, w: &mut BinaryWriter)
        requires
            self.wf(),
        ensures
            final(w)@ == old(w)@ + self.spec_bytes(),
    {
        self.wire_write(w)
    }
}
/// Parameters of a game-parameter action.
#[derive(Debug, Clone)]
pub struct GameParamActionParams {
    pub bit_vector: u8,
    pub bypass_transition: u8,
    pub value_meaning: u8,
    /// IEEE-754 bits of an `f32`.
    pub base: u32,
    /// IEEE-754 bits of an `f32`.
    pub min: u32,
    /// IEEE-754 bits of an `f32`.
    pub max: u32,
    pub except_params: ExceptParams,
}

impl Wire for GameParamActionParams {
    open spec fn wf(&self) -> bool {
        self.except_params.wf()
    }

    open spec fn spec_bytes(&self) -> Seq<u8> {
        seq![self.bit_vector]
            + seq![self.bypass_transition]
            + seq![self.value_meaning]
            + spec_u32_to_le_bytes(self.base)
            + spec_u32_to_le_bytes(self.min)
            + spec_u32_to_le_bytes(self.max)
            + self.except_params.spec_bytes()
    }

    open spec fn decodes_at(&self, data: Seq<u8>, pos: int) -> bool {
        &&& u8_at(data, pos, self.bit_vector)
        &&& u8_at(data, pos + 1, self.bypass_transition)
        &&& u8_at(data, pos + 1 + 1, self.value_meaning)
        &&& u32_at(data, pos + 1 + 1 + 1, self.base)
        &&& u32_at(data, pos + 1 + 1 + 1 + 4, self.min)
        &&& u32_at(data, pos + 1 + 1 + 1 + 4 + 4, self.max)
        &&& self.except_params.decodes_at(data, pos + 1 + 1 + 1 + 4 + 4 + 4)
    }

    fn wire_read(r: &mut BinaryReader) -> (res: Result<Self>) {
        let bit_vector = r.read_u8()?;
        let bypass_transition = r.read_u8()?;
        let value_meaning = r.read_u8()?;
        let base = r.read_u32()?;
        let min = r.read_u32()?;
        let max = r.read_u32()?;
        let except_params = ExceptParams::wire_read(r)?;
        Ok(Self { bit_vector, bypass_transition, value_meaning, base, min, max, except_params })
    }

    fn wire_write(&self, w: &mut BinaryWriter) {
        w.write_u8(self.bit_vector);
        w.write_u8(self.bypass_transition);
        w.write_u8(self.value_meaning);
        w.write_u32(self.base);
        w.write_u32(self.min);
        w.write_u32(self.max);
        self.except_params.wire_write(w);
    }

    proof fn lemma_canonical(&self, data: Seq<u8>, pos: int) {
        assert(encoded_at(data, pos, seq![self.bit_vector] + seq![self.bypass_transition] + seq![self.value_meaning] + spec_u32_to_le_bytes(self.base) + spec_u32_to_le_bytes(self.min) + spec_u32_to_le_bytes(self.max)));
        assert(encoded_at(data, pos + 1 + 1 + 1 + 4 + 4 + 4, self.except_params.spec_bytes()));
        assert(encoded_at(data, pos, seq![self.bit_vector] + seq![self.bypass_transition] + seq![self.value_meaning] + spec_u32_to_le_bytes(self.base) + spec_u32_to_le_bytes(self.min)));
        assert(encoded_at(data, pos + 1 + 1 + 1 + 4 + 4, spec_u32_to_le_bytes(self.max)));
        assert(encoded_at(data, pos, seq![self.bit_vector] + seq![self.bypass_transition] + seq![self.value_meaning] + spec_u32_to_le_bytes(self.base)));
        assert(encoded_at(data, pos + 1 + 1 + 1 + 4, spec_u32_to_le_bytes(self.min)));
        assert(encoded_at(data, pos, seq![self.bit_vector] + seq![self.bypass_transition] + seq![self.value_meaning]));
        assert(encoded_at(data, pos + 1 + 1 + 1, spec_u32_to_le_bytes(self.base)));
        assert(encoded_at(data, pos, seq![self.bit_vector] + seq![self.bypass_transition]));
        assert(encoded_at(data, pos + 1 + 1, seq![self.value_meaning]));
        assert(encoded_at(data, pos, seq![self.bit_vector]));
        assert(encoded_at(data, pos + 1, seq![self.bypass_transition]));
        self.except_params.lemma_canonical(data, pos + 1 + 1 + 1 + 4 + 4 + 4);
    }
}

impl GameParamActionParams {
    /// Read one value.
    pub fn read(r: &mut BinaryReader) -> (res: Result<Self>)
        ensures
            reads_value(*old(r), *final(r), res),
    {
        Self::wire_read(r)
    }

    /// Write this value.
    pub fn write(&self, w: &mut BinaryWriter)
        requires
            self.wf(),
        ensures
            final(w)@ == old(w)@ + self.spec_bytes(),
    {
        self.wire_write(w)
    }
}
/// Parameters of a value action (volume, pitch, filters, mute).
#[derive(Debug, Clone)]
pub struct ValueActionParams {
    pub bit_vector: u8,
    pub value_meaning: u8,
    pub randomizer: RandomizerModifier,
    pub except_params: ExceptParams,
}

impl Wire for ValueActionParams {
    open spec fn wf(&self) -> bool {
        self.randomizer.wf() && self.except_params.wf()
    }

    open spec fn spec_bytes(&self) -> Seq<u8> {
        seq![self.bit_vector]
            + seq![self.value_meaning]
            + self.randomizer.spec_bytes()
            + self.except_params.spec_bytes()
    }

    open spec fn decodes_at(&self, data: Seq<u8>, pos: int) -> bool {
        &&& u8_at(data, pos, self.bit_vector)
        &&& u8_at(data, pos + 1, self.value_meaning)
        &&& self.randomizer.decodes_at(data, pos + 1 + 1)
        &&& self.except_params.decodes_at(data, pos + 1 + 1 + self.randomizer.spec_bytes().len())
    }

    fn wire_read(r: &mut BinaryReader) -> (res: Result<Self>) {
        let bit_vector = r.read_u8()?;
        let value_meaning = r.read_u8()?;
        let randomizer = RandomizerModifier::wire_read(r)?;
        let except_params = ExceptParams::wire_read(r)?;
        Ok(Self { bit_vector, value_meaning, randomizer, except_params })
    }

    fn wire_write(&self, w: &mut BinaryWriter) {
        w.write_u8(self.bit_vector);
        w.write_u8(self.value_meaning);
        self.randomizer.wire_write(w);
        self.except_params.wire_write(w);
    }

    proof fn lemma_canonical(&self, data: Seq<u8>, pos: int) {
        assert(encoded_at(data, pos, seq![self.bit_vector] + seq![self.value_meaning] + self.randomizer.spec_bytes()));
        assert(encoded_at(data, pos + 1 + 1 + self.randomizer.spec_bytes().len(), self.except_params.spec_bytes()));
        assert(encoded_at(data, pos, seq![self.bit_vector] + seq![self.value_meaning]));
        assert(encoded_at(data, pos + 1 + 1, self.randomizer.spec_bytes()));
        assert(encoded_at(data, pos, seq![self.bit_vector]));
        assert(encoded_at(data, pos + 1, seq![self.value_meaning]));
        self.randomizer.lemma_canonical(data, pos + 1 + 1);
        self.except_params.lemma_canonical(data, pos + 1 + 1 + self.randomizer.spec_bytes().len());
    }
}

impl ValueActionParams {
    /// Read one value.
    pub fn read(r: &mut BinaryReader) -> (res: Result<Self>)
        ensures
            reads_value(*old(r), *final(r), res),
    {
        Self::wire_read(r)
    }

    /// Write this value.
    pub fn write(&self, w: &mut BinaryWriter)
        requires
            self.wf(),
        ensures
            final(w)@ == old(w)@ + self.spec_bytes(),
    {
        self.wire_write(w)
    }
}
/// Parameters of a BypassFX action.
#[derive(Debug, Clone)]
pub struct BypassFXActionParams {
    pub is_bypass: u8,
    pub target_mask: u8,
    pub except_params: ExceptParams,
}

impl Wire for BypassFXActionParams {
    open spec fn wf(&self) -> bool {
        self.except_params.wf()
    }

    open spec fn spec_bytes(&self) -> Seq<u8> {
        seq![self.is_bypass]
            + seq![self.target_mask]
            + self.except_params.spec_bytes()
    }

    open spec fn decodes_at(&self, data: Seq<u8>, pos: int) -> bool {
        &&& u8_at(data, pos, self.is_bypass)
        &&& u8_at(data, pos + 1, self.target_mask)
        &&& self.except_params.decodes_at(data, pos + 1 + 1)
    }

    fn wire_read(r: &mut BinaryReader) -> (res: Result<Self>) {
        let is_bypass = r.read_u8()?;
        let target_mask = r.read_u8()?;
        let except_params = ExceptParams::wire_read(r)?;
        Ok(Self { is_bypass, target_mask, except_params })
    }

    fn wire_write(&self, w: &mut BinaryWriter) {
        w.write_u8(self.is_bypass);
        w.write_u8(self.target_mask);
        self.except_params.wire_write(w);
    }

    proof fn lemma_canonical(&self, data: Seq<u8>, pos: int) {
        self.except_params.lemma_canonical(data, pos + 1 + 1);
    }
}

impl BypassFXActionParams {
    /// Read one value.
    pub fn read(r: &mut BinaryReader) -> (res: Result<Self>)
        ensures
            reads_value(*old(r), *final(r), res),
    {
        Self::wire_read(r)
    }

    /// Write this value.
    pub fn write(&self, w: &mut BinaryWriter)
        requires
            self.wf(),
        ensures
            final(w)@ == old(w)@ + self.spec_bytes(),
    {
        self.wire_write(w)
    }
}
/// Parameters of a Seek action.
#[derive(Debug, Clone)]
pub struct SeekActionParams {
    pub is_seek_relative: u8,
    pub seek_value: RandomizerModifier,
    pub snap_to_nearest_marker: u8,
    pub except_params: ExceptParams,
}

impl Wire for SeekActionParams {
    open spec fn wf(&self) -> bool {
        self.seek_value.wf() && self.except_params.wf()
    }

    open spec fn spec_bytes(&self) -> Seq<u8> {
        seq![self.is_seek_relative]
            + self.seek_value.spec_bytes()
            + seq![self.snap_to_nearest_marker]
            + self.except_params.spec_bytes()
    }

    open spec fn decodes_at(&self, data: Seq<u8>, pos: int) -> bool {
        &&& u8_at(data, pos, self.is_seek_relative)
        &&& self.seek_value.decodes_at(data, pos + 1)
        &&& u8_at(data, pos + 1 + self.seek_value.spec_bytes().len(), self.snap_to_nearest_marker)
        &&& self.except_params.decodes_at(data, pos + 1 + self.seek_value.spec_bytes().len() + 1)
    }

    fn wire_read(r: &mut BinaryReader) -> (res: Result<Self>) {
        let is_seek_relative = r.read_u8()?;
        let seek_value = RandomizerModifier::wire_read(r)?;
        let snap_to_nearest_marker = r.read_u8()?;
        let except_params = ExceptParams::wire_read(r)?;
        Ok(Self { is_seek_relative, seek_value, snap_to_nearest_marker, except_params })
    }

    fn wire_write(&self, w: &mut BinaryWriter) {
        w.write_u8(self.is_seek_relative);
        self.seek_value.wire_write(w);
        w.write_u8(self.snap_to_nearest_marker);
        self.except_params.wire_write(w);
    }

    proof fn lemma_canonical(&self, data: Seq<u8>, pos: int) {
        assert(encoded_at(data, pos, seq![self.is_seek_relative] + self.seek_value.spec_bytes() + seq![self.snap_to_nearest_marker]));
        assert(encoded_at(data, pos + 1 + self.seek_value.spec_bytes().len() + 1, self.except_params.spec_bytes()));
        assert(encoded_at(data, pos, seq![self.is_seek_relative] + self.seek_value.spec_bytes()));
        assert(encoded_at(data, pos + 1 + self.seek_value.spec_bytes().len(), seq![self.snap_to_nearest_marker]));
        assert(encoded_at(data, pos, seq![self.is_seek_relative]));
        assert(encoded_at(data, pos + 1, self.seek_value.spec_bytes()));
        self.seek_value.lemma_canonical(data, pos + 1);
        self.except_params.lemma_canonical(data, pos + 1 + self.seek_value.spec_bytes().len() + 1);
    }
}

impl SeekActionParams {
    /// Read one value.
    pub fn read(r: &mut BinaryReader) -> (res: Result<Self>)
        ensures
            reads_value(*old(r), *final(r), res),
    {
        Self::wire_read(r)
    }

    /// Write this value.
    pub fn write(&self, w: &mut BinaryWriter)
        requires
            self.wf(),
        ensures
            final(w)@ == old(w)@ + self.spec_bytes(),
    {
        self.wire_write(w)
    }
}
/// Property-specific parameters of an action.
#[derive(Debug, Clone)]
pub struct PropActionSpecificParams {
    pub value_meaning: u8,
    pub randomizer_modifier: RandomizerModifier,
}

impl Wire for PropActionSpecificParams {
    open spec fn wf(&self) -> bool {
        self.randomizer_modifier.wf()
    }

    open spec fn spec_bytes(&self) -> Seq<u8> {
        seq![self.value_meaning]
            + self.randomizer_modifier.spec_bytes()
    }

    open spec fn decodes_at(&self, data: Seq<u8>, pos: int) -> bool {
        &&& u8_at(data, pos, self.value_meaning)
        &&& self.randomizer_modifier.decodes_at(data, pos + 1)
    }

    fn wire_read(r: &mut BinaryReader) -> (res: Result<Self>) {
        let value_meaning = r.read_u8()?;
        let randomizer_modifier = RandomizerModifier::wire_read(r)?;
        Ok(Self { value_meaning, randomizer_modifier })
    }

    fn wire_write(&self, w: &mut BinaryWriter) {
        w.write_u8(self.value_meaning);
        self.randomizer_modifier.wire_write(w);
    }

    proof fn lemma_canonical(&self, data: Seq<u8>, pos: int) {
        self.randomizer_modifier.lemma_canonical(data, pos + 1);
    }
}

impl PropActionSpecificParams {
    /// Read one value.
    pub fn read(r: &mut BinaryReader) -> (res: Result<Self>)
        ensures
            reads_value(*old(r), *final(r), res),
    {
        Self::wire_read(r)
    }

    /// Write this value.
    pub fn write(&self, w: &mut BinaryWriter)
        requires
            self.wf(),
        ensures
            final(w)@ == old(w)@ + self.spec_bytes(),
    {
        self.wire_write(w)
    }
}
/// Resume-specific flags of an action.
#[derive(Debug, Clone)]
pub struct ResumeActionSpecificParams {
    pub flags: u8,
}

impl Wire for ResumeActionSpecificParams {
    open spec fn wf(&self) -> bool {
        true
    }

    open spec fn spec_bytes(&self) -> Seq<u8> {
        seq![self.flags]
    }

    open spec fn decodes_at(&self, data: Seq<u8>, pos: int) -> bool {
        &&& u8_at(data, pos, self.flags)
    }

    open spec fn read_error(data: Seq<u8>, pos: int) -> Option<Error> {
        layout_error(data, pos, seq![1])
    }

    fn wire_read(r: &mut BinaryReader) -> (res: Result<Self>) {
        proof {
            reveal_with_fuel(layout_error, 2);
        }
        let flags = r.read_u8()?;
        Ok(Self { flags })
    }

    fn wire_write(&self, w: &mut BinaryWriter) {
        w.write_u8(self.flags);
    }

    proof fn lemma_canonical(&self, data: Seq<u8>, pos: int) {
    }
}

/// The layout of a `ResumeActionSpecificParams` as Wwise writes it, 1 bytes: `flags` (byte) at
/// 0.
pub proof fn lemma_resume_action_specific_params_layout(v: ResumeActionSpecificParams, data: Seq<u8>, pos: int)
    requires
        v.decodes_at(data, pos),
    ensures
        u8_at(data, pos, v.flags),
        v.spec_bytes() == seq![v.flags],
{
    assert(v.spec_bytes() =~= seq![v.flags]);
}

impl ResumeActionSpecificParams {
    /// Read one value.
    pub fn read(r: &mut BinaryReader) -> (res: Result<Self>)
        ensures
            reads_value(*old(r), *final(r), res),
    {
        Self::wire_read(r)
    }

    /// Write this value.
    pub fn write(&self, w: &mut BinaryWriter)
        requires
            self.wf(),
        ensures
            final(w)@ == old(w)@ + self.spec_bytes(),
    {
        self.wire_write(w)
    }
}
impl ResumeActionSpecificParams {
    pub const FLAG_IS_MASTER_RESUME: u8 = 0x01;
    pub const FLAG_APPLY_TO_STATE_TRANSITIONS: u8 = 0x02;
    pub const FLAG_APPLY_TO_DYNAMIC_SEQUENCE: u8 = 0x04;
}

} // verus!
