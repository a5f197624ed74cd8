//! Property types and bundles.

use vstd::prelude::*;
#[allow(unused_imports)]
use crate::bytes::{
    encoded_at, group_bytes, spec_i16_to_le_bytes, spec_i32_to_le_bytes, spec_u16_to_le_bytes,
    spec_u32_to_le_bytes, spec_u64_to_le_bytes,
};
#[allow(unused_imports)]
use crate::error::{Error, Result};
#[allow(unused_imports)]
use super::super::reader::BinaryReader;
#[allow(unused_imports)]
use super::super::wire::{
    Wire, group_wire, all_wf, bool_at, bool_byte, i16_at, i32_at, i8_at, lemma_list_canonical, list_bytes,
    list_decodes_at, list_u16_bytes, list_u32_bytes, reads_value, u16_at, u32_at, u64_at, u8_at,
};
#[allow(unused_imports)]
use super::super::writer::BinaryWriter;

verus! {

broadcast use group_bytes, group_wire, BinaryReader::lemma_pos_nonneg;

/// A single property: ID + raw value bytes.
#[derive(Debug, Clone)]
pub struct Prop {
    pub id: u8,
    pub raw_value: Vec<u8>,
}

/// The IDs of `props`, in order.
pub open spec fn prop_ids(props: Seq<Prop>) -> Seq<u8>
    decreases props.len(),
{
    if props.len() == 0 {
        Seq::empty()
    } else {
        prop_ids(props.drop_last()).push(props.last().id)
    }
}

/// The raw values of `props`, one after another.
pub open spec fn prop_values(props: Seq<Prop>) -> Seq<u8>
    decreases props.len(),
{
    if props.len() == 0 {
        Seq::empty()
    } else {
        prop_values(props.drop_last()) + props.last().raw_value@
    }
}

proof fn lemma_prop_lens(props: Seq<Prop>)
    requires
        forall|i: int| 0 <= i < props.len() ==> (#[trigger] props[i]).raw_value@.len() == 4,
    ensures
        prop_ids(props).len() == props.len(),
        prop_values(props).len() == 4 * props.len(),
    decreases props.len(),
{
    if props.len() > 0 {
        assert forall|i: int| 0 <= i < props.drop_last().len() implies (
        #[trigger] props.drop_last()[i]).raw_value@.len() == 4 by {
            assert(props.drop_last()[i] == props[i]);
        }
        lemma_prop_lens(props.drop_last());
        assert(props[props.len() - 1].raw_value@.len() == 4);
    }
}

/// Determines byte size of a property value by ID.
fn prop_value_size(_id: u8, _is_ranged: bool, _is_modulator: bool) -> (n: usize)
    ensures
        n == 4,
{
    4
}

/// A collection of properties, read in two passes (IDs then values).
#[derive(Debug, Clone, Default)]
pub struct PropBundle {
    pub props: Vec<Prop>,
}

impl Wire for PropBundle {
    open spec fn wf(&self) -> bool {
        &&& self.props@.len() <= u8::MAX
        &&& forall|i: int|
            0 <= i < self.props@.len() ==> (#[trigger] self.props@[i]).raw_value@.len() == 4
    }

    open spec fn spec_bytes(&self) -> Seq<u8> {
        seq![self.props@.len() as u8] + prop_ids(self.props@) + prop_values(self.props@)
    }

    open spec fn decodes_at(&self, data: Seq<u8>, pos: int) -> bool {
        &&& u8_at(data, pos, self.props@.len() as u8)
        &&& encoded_at(data, pos + 1, prop_ids(self.props@))
        &&& encoded_at(data, pos + 1 + self.props@.len(), prop_values(self.props@))
    }

    fn wire_read(r: &mut BinaryReader) -> (res: Result<Self>) {
        Self::read_values(r)
    }

    fn wire_write(&self, w: &mut BinaryWriter) {
        self.write_values(w)
    }

    proof fn lemma_canonical(&self, data: Seq<u8>, pos: int) {
        lemma_prop_lens(self.props@);
    }
}

impl PropBundle {
    fn read_values(r: &mut BinaryReader) -> (res: Result<Self>)
        ensures
            final(r).data() == old(r).data(),
            res matches Ok(v) ==> {
                &&& v.wf()
                &&& v.decodes_at(old(r).data(), old(r).pos())
                &&& final(r).pos() == old(r).pos() + v.spec_bytes().len()
            },
            forall|w: Self|
                #[trigger] w.decodes_at(old(r).data(), old(r).pos()) && w.wf() ==> (res matches Ok(v)
                    && v.spec_bytes() == w.spec_bytes()),
    {
        let ghost d = r.data();
        let ghost p = r.pos();
        let count = r.read_u8()?;
        assert(p + 1 <= d.len() && d[p] == count);
        let n = count as usize;
        let mut ids: Vec<u8> = Vec::new();
        let mut i: usize = 0;
        while i < n
            invariant
                d == old(r).data(),
                p == old(r).pos(),
                r.data() == d,
                d.len() >= p + 1,
                d[p] == count,
                n == count,
                0 <= i <= n,
                ids@.len() == i,
                ids@ == d.subrange(p + 1, p + 1 + i),
                p + 1 + i <= d.len(),
                r.pos() == p + 1 + i,
            decreases n - i,
        {
            let b = match r.read_u8() {
                Ok(b) => b,
                Err(e) => {
                    proof {
                        assert forall|w: Self| #[trigger]
                            w.decodes_at(d, p) && w.wf() implies false by {
                            lemma_prop_lens(w.props@);
                        }
                    }
                    return Err(e);
                },
            };
            ids.push(b);
            assert(ids@ =~= d.subrange(p + 1, p + 1 + i + 1));
            i = i + 1;
        }
        let mut props: Vec<Prop> = Vec::new();
        let mut j: usize = 0;
        assert(prop_values(props@) =~= d.subrange(p + 1 + n, p + 1 + n));
        assert(prop_ids(props@) =~= ids@.take(0));
        while j < n
            invariant
                d == old(r).data(),
                p == old(r).pos(),
                r.data() == d,
                d.len() >= p + 1 + n,
                d[p] == count,
                n == count,
                ids@ == d.subrange(p + 1, p + 1 + n),
                ids@.len() == n,
                0 <= j <= n,
                props@.len() == j,
                forall|k: int| 0 <= k < j ==> (#[trigger] props@[k]).raw_value@.len() == 4,
                prop_ids(props@) == ids@.take(j as int),
                prop_values(props@) == d.subrange(p + 1 + n, p + 1 + n + 4 * j),
                p + 1 + n + 4 * j <= d.len(),
                r.pos() == p + 1 + n + 4 * j,
            decreases n - j,
        {
            let size = prop_value_size(ids[j], false, false);
            let raw = match r.read_bytes(size) {
                Ok(raw) => raw,
                Err(e) => {
                    proof {
                        assert forall|w: Self| #[trigger]
                            w.decodes_at(d, p) && w.wf() implies false by {
                            lemma_prop_lens(w.props@);
                        }
                    }
                    return Err(e);
                },
            };
            let raw_value = vstd::slice::slice_to_vec(raw);
            let ghost old_props = props@;
            props.push(Prop { id: ids[j], raw_value });
            proof {
                assert(props@.drop_last() =~= old_props);
                assert(ids@.take(j + 1) =~= ids@.take(j as int).push(ids@[j as int]));
                assert(prop_values(props@) =~= d.subrange(p + 1 + n, p + 1 + n + 4 * (j + 1)));
            }
            j = j + 1;
        }
        let v = Self { props };
        proof {
            assert(ids@.take(n as int) =~= ids@);
            lemma_prop_lens(v.props@);
            assert forall|w: Self| #[trigger]
                w.decodes_at(d, p) && w.wf() implies v.spec_bytes() == w.spec_bytes() by {
                lemma_prop_lens(w.props@);
                assert(w.props@.len() == n);
            }
        }
        Ok(v)
    }

    /// Read a property bundle (one `u8` count, the IDs, then a 4-byte value per ID).
    pub fn read(r: &mut BinaryReader, is_ranged: bool, is_modulator: bool) -> (res: Result<Self>)
        ensures
            reads_value(*old(r), *final(r), res),
    {
        Self::read_values(r)
    }

    fn write_values(&self, w: &mut BinaryWriter)
        ensures
            final(w)@ == old(w)@ + self.spec_bytes(),
    {
        let n = self.props.len();
        w.write_u8(n as u8);
        let mut i: usize = 0;
        while i < n
            invariant
                n == self.props@.len(),
                0 <= i <= n,
                w@ == old(w)@ + seq![n as u8] + prop_ids(self.props@.take(i as int)),
            decreases n - i,
        {
            w.write_u8(self.props[i].id);
            assert(self.props@.take(i + 1).drop_last() =~= self.props@.take(i as int));
            i = i + 1;
        }
        assert(self.props@.take(n as int) =~= self.props@);
        let mut j: usize = 0;
        while j < n
            invariant
                n == self.props@.len(),
                0 <= j <= n,
                w@ == old(w)@ + seq![n as u8] + prop_ids(self.props@) + prop_values(
                    self.props@.take(j as int),
                ),
            decreases n - j,
        {
            w.write_bytes(self.props[j].raw_value.as_slice());
            assert(self.props@.take(j + 1).drop_last() =~= self.props@.take(j as int));
            assert(w@ =~= old(w)@ + seq![n as u8] + prop_ids(self.props@) + prop_values(
                self.props@.take(j + 1),
            ));
            j = j + 1;
        }
        assert(self.props@.take(n as int) =~= self.props@);
    }

    /// Write the bundle: the count (the low byte of the number of props),
    /// the IDs, then the raw values as they are.
    pub fn write(&self, w: &mut BinaryWriter)
        ensures
            final(w)@ == old(w)@ + self.spec_bytes(),
    {
        self.write_values(w)
    }
}


/// Two lists of 4-byte props with the same IDs and values hold the same
/// props, in order.
proof fn lemma_props_unique(a: Seq<Prop>, b: Seq<Prop>)
    requires
        a.len() == b.len(),
        forall|i: int| 0 <= i < a.len() ==> (#[trigger] a[i]).raw_value@.len() == 4,
        forall|i: int| 0 <= i < b.len() ==> (#[trigger] b[i]).raw_value@.len() == 4,
        prop_ids(a) == prop_ids(b),
        prop_values(a) == prop_values(b),
    ensures
        forall|i: int| 0 <= i < a.len() ==> (#[trigger] a[i]).id == b[i].id && a[i].raw_value@ == b[i].raw_value@,
    decreases a.len(),
{
    if a.len() > 0 {
        let n = a.len() - 1;
        let (a0, b0) = (a.drop_last(), b.drop_last());
        assert forall|i: int| 0 <= i < a0.len() implies (#[trigger] a0[i]).raw_value@.len() == 4 by {
            assert(a0[i] == a[i]);
        }
        assert forall|i: int| 0 <= i < b0.len() implies (#[trigger] b0[i]).raw_value@.len() == 4 by {
            assert(b0[i] == b[i]);
        }
        lemma_prop_lens(a0);
        lemma_prop_lens(b0);
        assert(prop_ids(a) == prop_ids(a0).push(a[n].id));
        assert(prop_ids(b) == prop_ids(b0).push(b[n].id));
        assert(prop_ids(a0) =~= prop_ids(a).drop_last());
        assert(prop_ids(b0) =~= prop_ids(b).drop_last());
        assert(a[n].id == prop_ids(a).last());
        let va = prop_values(a);
        assert(va == prop_values(a0) + a[n].raw_value@);
        assert(prop_values(b) == prop_values(b0) + b[n].raw_value@);
        assert(prop_values(a0) =~= va.subrange(0, 4 * n));
        assert(prop_values(b0) =~= va.subrange(0, 4 * n));
        assert(a[n].raw_value@ =~= va.subrange(4 * n, 4 * n + 4));
        assert(b[n].raw_value@ =~= va.subrange(4 * n, 4 * n + 4));
        lemma_props_unique(a0, b0);
        assert forall|i: int| 0 <= i < a.len() implies (#[trigger] a[i]).id == b[i].id && a[i].raw_value@
            == b[i].raw_value@ by {
            if i < n {
                assert(a0[i] == a[i] && b0[i] == b[i]);
            }
        }
    }
}

/// Two writable bundles that decode at the same place hold the same props:
/// the same IDs and raw values, in order.
pub proof fn lemma_prop_bundle_unique(x: PropBundle, y: PropBundle, data: Seq<u8>, pos: int)
    requires
        x.wf(),
        y.wf(),
        x.decodes_at(data, pos),
        y.decodes_at(data, pos),
    ensures
        y.props@.len() == x.props@.len(),
        forall|i: int| 0 <= i < x.props@.len() ==> (#[trigger] y.props@[i]).id == x.props@[i].id
            && y.props@[i].raw_value@ == x.props@[i].raw_value@,
        y.spec_bytes().len() == x.spec_bytes().len(),
{
    lemma_prop_lens(x.props@);
    lemma_prop_lens(y.props@);
    let n = x.props@.len() as int;
    assert(data.subrange(pos + 1, pos + 1 + n) == prop_ids(x.props@));
    assert(data.subrange(pos + 1, pos + 1 + n) == prop_ids(y.props@));
    lemma_props_unique(y.props@, x.props@);
}

} // verus!
