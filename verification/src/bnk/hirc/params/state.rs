//! State chunk types.

use vstd::prelude::*;
#[allow(unused_imports)]
use crate::bytes::{
    encoded_at, group_bytes, spec_i16_to_le_bytes, spec_i32_to_le_bytes, spec_u16_to_le_bytes,
    spec_u32_to_le_bytes, spec_u64_to_le_bytes,
};
#[allow(unused_imports)]
use crate::error::{Error, Result};
#[allow(unused_imports)]
use super::super::reader::BinaryReader;
#[allow(unused_imports)]
use super::super::wire::{
    Wire, layout_error, group_wire, all_wf, bool_at, bool_byte, i16_at, i32_at, i8_at, lemma_list_canonical, list_bytes,
    list_decodes_at, list_u16_bytes, list_u32_bytes, reads_value, u16_at, u32_at, u64_at, u8_at,
};
#[allow(unused_imports)]
use super::super::writer::BinaryWriter;

verus! {

broadcast use group_bytes, group_wire, BinaryReader::lemma_pos_nonneg;

/// A state and the object instance it selects.
#[derive(Debug, Clone)]
pub struct StateEntry {
    pub state_id: u32,
    pub state_instance_id: u32,
}

impl Wire for StateEntry {
    open spec fn wf(&self) -> bool {
        true
    }

    open spec fn spec_bytes(&self) -> Seq<u8> {
        spec_u32_to_le_bytes(self.state_id)
            + spec_u32_to_le_bytes(self.state_instance_id)
    }

    open spec fn decodes_at(&self, data: Seq<u8>, pos: int) -> bool {
        &&& u32_at(data, pos, self.state_id)
        &&& u32_at(data, pos + 4, self.state_instance_id)
    }

    open spec fn read_error(data: Seq<u8>, pos: int) -> Option<Error> {
        layout_error(data, pos, seq![4, 4])
    }

    fn wire_read(r: &mut BinaryReader) -> (res: Result<Self>) {
        proof {
            reveal_with_fuel(layout_error, 3);
        }
        let state_id = r.read_u32()?;
        let state_instance_id = r.read_u32()?;
        Ok(Self { state_id, state_instance_id })
    }

    fn wire_write(&self, w: &mut BinaryWriter) {
        w.write_u32(self.state_id);
        w.write_u32(self.state_instance_id);
    }

    proof fn lemma_canonical(&self, data: Seq<u8>, pos: int) {
    }
}

/// The layout of a `StateEntry` as Wwise writes it, 8 bytes: `state_id` (`u32`) at 0,
/// `state_instance_id` (`u32`) at 4.
pub proof fn lemma_state_entry_layout(v: StateEntry, data: Seq<u8>, pos: int)
    requires
        v.decodes_at(data, pos),
    ensures
        u32_at(data, pos, v.state_id),
        u32_at(data, pos + 4, v.state_instance_id),
        v.spec_bytes() == spec_u32_to_le_bytes(v.state_id) + spec_u32_to_le_bytes(v.state_instance_id),
{
    assert(v.spec_bytes() =~= spec_u32_to_le_bytes(v.state_id) + spec_u32_to_le_bytes(v.state_instance_id));
}
/// A state group with its states (`u16`-counted).
#[derive(Debug, Clone)]
pub struct StateGroup {
    pub state_group_id: u32,
    pub state_sync_type: u8,
    pub states: Vec<StateEntry>,
}

impl Wire for StateGroup {
    open spec fn wf(&self) -> bool {
        self.states@.len() <= u16::MAX && all_wf(self.states@)
    }

    open spec fn spec_bytes(&self) -> Seq<u8> {
        spec_u32_to_le_bytes(self.state_group_id)
            + seq![self.state_sync_type]
            + list_u16_bytes(self.states@)
    }

    open spec fn decodes_at(&self, data: Seq<u8>, pos: int) -> bool {
        &&& u32_at(data, pos, self.state_group_id)
        &&& u8_at(data, pos + 4, self.state_sync_type)
        &&& u16_at(data, pos + 4 + 1, self.states@.len() as u16)
        &&& list_decodes_at(self.states@, data, pos + 4 + 1 + 2)
    }

    fn wire_read(r: &mut BinaryReader) -> (res: Result<Self>) {
        let state_group_id = r.read_u32()?;
        let state_sync_type = r.read_u8()?;
        let states = r.read_list_u16::<StateEntry>()?;
        Ok(Self { state_group_id, state_sync_type, states })
    }

    fn wire_write(&self, w: &mut BinaryWriter) {
        w.write_u32(self.state_group_id);
        w.write_u8(self.state_sync_type);
        w.write_list_u16(self.states.as_slice());
    }

    proof fn lemma_canonical(&self, data: Seq<u8>, pos: int) {
        lemma_list_canonical(self.states@, data, pos + 4 + 1 + 2);
    }
}

/// A state group as Wwise lays it out: the group ID (`u32`), the sync type
/// byte at 4, then the `u16` count of states at 5 and the states.
pub proof fn lemma_state_group_layout(v: StateGroup, data: Seq<u8>, pos: int)
    requires
        v.decodes_at(data, pos),
    ensures
        u32_at(data, pos, v.state_group_id),
        u8_at(data, pos + 4, v.state_sync_type),
        u16_at(data, pos + 5, v.states@.len() as u16),
        list_decodes_at(v.states@, data, pos + 7),
{
}
/// The state groups of a node (`u32`-counted).
#[derive(Debug, Clone, Default)]
pub struct StateChunk {
    pub state_groups: Vec<StateGroup>,
}

impl Wire for StateChunk {
    open spec fn wf(&self) -> bool {
        self.state_groups@.len() <= u32::MAX && all_wf(self.state_groups@)
    }

    open spec fn spec_bytes(&self) -> Seq<u8> {
        list_u32_bytes(self.state_groups@)
    }

    open spec fn decodes_at(&self, data: Seq<u8>, pos: int) -> bool {
        &&& u32_at(data, pos, self.state_groups@.len() as u32)
        &&& list_decodes_at(self.state_groups@, data, pos + 4)
    }

    fn wire_read(r: &mut BinaryReader) -> (res: Result<Self>) {
        let state_groups = r.read_list_u32::<StateGroup>()?;
        Ok(Self { state_groups })
    }

    fn wire_write(&self, w: &mut BinaryWriter) {
        w.write_list_u32(self.state_groups.as_slice());
    }

    proof fn lemma_canonical(&self, data: Seq<u8>, pos: int) {
        lemma_list_canonical(self.state_groups@, data, pos + 4);
    }
}

impl StateChunk {
    /// Read one value.
    pub fn read(r: &mut BinaryReader) -> (res: Result<Self>)
        ensures
            reads_value(*old(r), *final(r), res),
    {
        Self::wire_read(r)
    }

    /// Write this value.
    pub fn write(&self, w: &mut BinaryWriter)
        requires
            self.wf(),
        ensures
            final(w)@ == old(w)@ + self.spec_bytes(),
    {
        self.wire_write(w)
    }
}

/// Two state groups hold the same values: ID, sync type and states.
pub open spec fn same_group(x: StateGroup, y: StateGroup) -> bool {
    x.state_group_id == y.state_group_id && x.state_sync_type == y.state_sync_type && x.states@ == y.states@
}

proof fn lemma_entries_unique(a: Seq<StateEntry>, b: Seq<StateEntry>, data: Seq<u8>, pos: int)
    requires
        a.len() == b.len(),
        list_decodes_at(a, data, pos),
        list_decodes_at(b, data, pos),
    ensures
        a == b,
    decreases a.len(),
{
    if a.len() > 0 {
        lemma_entries_unique(a.drop_last(), b.drop_last(), data, pos);
        assert(a.last() == b.last());
        assert(a =~= a.drop_last().push(a.last()));
        assert(b =~= b.drop_last().push(b.last()));
    } else {
        assert(a =~= b);
    }
}

proof fn lemma_group_unique(x: StateGroup, y: StateGroup, data: Seq<u8>, pos: int)
    requires
        x.wf(),
        y.wf(),
        x.decodes_at(data, pos),
        y.decodes_at(data, pos),
    ensures
        same_group(x, y),
        x.spec_bytes() == y.spec_bytes(),
{
    assert(x.states@.len() == y.states@.len());
    lemma_entries_unique(x.states@, y.states@, data, pos + 7);
}

proof fn lemma_groups_bytes(a: Seq<StateGroup>, b: Seq<StateGroup>)
    requires
        a.len() == b.len(),
        forall|i: int| 0 <= i < a.len() ==> same_group(#[trigger] a[i], b[i]),
    ensures
        list_bytes(a) == list_bytes(b),
    decreases a.len(),
{
    if a.len() > 0 {
        lemma_groups_bytes(a.drop_last(), b.drop_last());
        assert(same_group(a[a.len() - 1], b[b.len() - 1]));
        assert(a.last().spec_bytes() == b.last().spec_bytes());
    }
}

proof fn lemma_groups_unique(a: Seq<StateGroup>, b: Seq<StateGroup>, data: Seq<u8>, pos: int)
    requires
        a.len() == b.len(),
        all_wf(a),
        all_wf(b),
        list_decodes_at(a, data, pos),
        list_decodes_at(b, data, pos),
    ensures
        forall|i: int| 0 <= i < a.len() ==> same_group(#[trigger] a[i], b[i]),
    decreases a.len(),
{
    if a.len() > 0 {
        let (a0, b0) = (a.drop_last(), b.drop_last());
        assert(all_wf(a0)) by {
            assert forall|i: int| 0 <= i < a0.len() implies #[trigger] a0[i].wf() by {
                assert(a0[i] == a[i]);
            }
        }
        assert(all_wf(b0)) by {
            assert forall|i: int| 0 <= i < b0.len() implies #[trigger] b0[i].wf() by {
                assert(b0[i] == b[i]);
            }
        }
        lemma_groups_unique(a0, b0, data, pos);
        assert forall|i: int| 0 <= i < a0.len() implies same_group(#[trigger] a0[i], b0[i]) by {
        }
        lemma_groups_bytes(a0, b0);
        let n = a.len() - 1;
        assert(a[n].wf() && b[n].wf());
        lemma_group_unique(a.last(), b.last(), data, pos + list_bytes(a0).len());
        assert forall|i: int| 0 <= i < a.len() implies same_group(#[trigger] a[i], b[i]) by {
            if i < n {
                assert(a0[i] == a[i] && b0[i] == b[i]);
            }
        }
    }
}

/// Whatever reads back from the bytes written for a state chunk holds the
/// same state groups, in order: each with its ID, sync type and states (IDs
/// and instance IDs, in order); and it spans the same bytes.
pub proof fn lemma_state_chunk_round_trip(x: StateChunk, y: StateChunk)
    requires
        x.wf(),
        y.wf(),
        y.decodes_at(x.spec_bytes(), 0),
    ensures
        y.state_groups@.len() == x.state_groups@.len(),
        forall|i: int| 0 <= i < x.state_groups@.len() ==> same_group(#[trigger] y.state_groups@[i], x.state_groups@[i]),
        y.spec_bytes().len() == x.spec_bytes().len(),
{
    let d = x.spec_bytes();
    assert(encoded_at(d, 0, d)) by {
        assert(d.subrange(0, d.len() as int) =~= d);
    }
    x.lemma_canonical(d, 0);
    assert(y.state_groups@.len() == x.state_groups@.len());
    lemma_groups_unique(y.state_groups@, x.state_groups@, d, 4);
    lemma_groups_bytes(y.state_groups@, x.state_groups@);
}

} // verus!
