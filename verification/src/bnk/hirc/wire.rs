//! The contract shared by every HIRC value that moves between bytes and a
//! typed value: what it writes, what bytes it accepts when read, and which
//! values can be written at all.

use vstd::prelude::*;
use crate::bytes::{encoded_at, group_bytes, lemma_encoded_at_concat, spec_i32_to_le_bytes, spec_u64_to_le_bytes, spec_i32_from_le_bytes, spec_u16_from_le_bytes, spec_u16_to_le_bytes, spec_u32_from_le_bytes, spec_u32_to_le_bytes, spec_u64_from_le_bytes};
use crate::error::{Error, Result};
use super::reader::BinaryReader;
use super::writer::BinaryWriter;

verus! {

broadcast use group_bytes, BinaryReader::lemma_pos_nonneg;

/// A HIRC value with a binary encoding.
pub trait Wire: Sized {
    /// The value can be written and read back (counts fit their prefixes,
    /// optional parts agree with the flags that announce them).
    spec fn wf(&self) -> bool;

    /// The bytes the writer produces for this value.
    spec fn spec_bytes(&self) -> Seq<u8>;

    /// `data` holds, at `pos`, bytes that the reader turns into this value.
    /// The accepted bytes always span `spec_bytes().len()` bytes.
    spec fn decodes_at(&self, data: Seq<u8>, pos: int) -> bool;

    /// The error a read at `pos` fails with, where the type states it
    /// (`None`: the read succeeds there, or the type leaves its error open).
    open spec fn read_error(data: Seq<u8>, pos: int) -> Option<Error> {
        None
    }

    /// Read one value (the `read` of the type).
    fn wire_read(r: &mut BinaryReader) -> (res: Result<Self>)
        ensures
            final(r).data() == old(r).data(),
            res matches Err(e) ==> (Self::read_error(old(r).data(), old(r).pos()) matches Some(f) ==> e == f),
            res matches Ok(v) ==> {
                &&& v.wf()
                &&& v.decodes_at(old(r).data(), old(r).pos())
                &&& final(r).pos() == old(r).pos() + v.spec_bytes().len()
            },
            forall|w: Self|
                #[trigger] w.decodes_at(old(r).data(), old(r).pos()) && w.wf() ==> (res matches Ok(v)
                    && v.spec_bytes() == w.spec_bytes()),
    ;

    /// Write one value (the `write` of the type).
    fn wire_write(&self, w: &mut BinaryWriter)
        requires
            self.wf(),
        ensures
            final(w)@ == old(w)@ + self.spec_bytes(),
    ;

    /// The written bytes are accepted by the reader as this very value.
    proof fn lemma_canonical(&self, data: Seq<u8>, pos: int)
        requires
            self.wf(),
            encoded_at(data, pos, self.spec_bytes()),
        ensures
            self.decodes_at(data, pos),
    ;
}

impl Wire for u32 {
    open spec fn wf(&self) -> bool {
        true
    }

    open spec fn spec_bytes(&self) -> Seq<u8> {
        spec_u32_to_le_bytes(*self)
    }

    open spec fn decodes_at(&self, data: Seq<u8>, pos: int) -> bool {
        u32_at(data, pos, *self)
    }

    open spec fn read_error(data: Seq<u8>, pos: int) -> Option<Error> {
        if pos + 4 > data.len() {
            Some(eof_at(data, pos, 4))
        } else {
            None
        }
    }

    fn wire_read(r: &mut BinaryReader) -> (res: Result<Self>) {
        r.read_u32()
    }

    fn wire_write(&self, w: &mut BinaryWriter) {
        w.write_u32(*self)
    }

    proof fn lemma_canonical(&self, data: Seq<u8>, pos: int) {
    }
}

/// The error of a read that wants `needed` bytes at `pos` of `data`.
pub open spec fn eof_at(data: Seq<u8>, pos: int, needed: int) -> Error {
    Error::UnexpectedEof { offset: pos as u64, needed: needed as u64, available: (data.len() - pos) as u64 }
}

/// The error of a read of fields of the given sizes, one after another from
/// `pos`: the end-of-data error of the first field that does not fit, or
/// `None` when all of them fit.
pub open spec fn layout_error(data: Seq<u8>, pos: int, sizes: Seq<int>) -> Option<Error>
    decreases sizes.len(),
{
    if sizes.len() == 0 {
        None
    } else if pos + sizes[0] > data.len() {
        Some(eof_at(data, pos, sizes[0]))
    } else {
        layout_error(data, pos + sizes[0], sizes.drop_first())
    }
}

/// A read of `count` items from `pos` failed with `e` at its first failing
/// item: some `k < count` items decode one after another from `pos`, no
/// writable item decodes after them, and `e` is the error that the item type
/// states for a read there.
#[verifier::opaque]
pub open spec fn items_fail_with<T: Wire>(data: Seq<u8>, pos: int, count: nat, e: Error) -> bool {
    exists|ws: Seq<T>|
        #![trigger list_decodes_at(ws, data, pos)]
        {
            &&& ws.len() < count
            &&& all_wf(ws)
            &&& list_decodes_at(ws, data, pos)
            &&& forall|w: T| #[trigger] w.decodes_at(data, pos + list_bytes(ws).len()) ==> !w.wf()
            &&& T::read_error(data, pos + list_bytes(ws).len()) matches Some(f) ==> e == f
        }
}

/// A read of one `T`: on success the value is writable, the bytes at the
/// start position decode to it and the cursor moves past its encoding;
/// whenever the bytes there decode to some writable value, the read
/// succeeds with a value of the same encoding; and a failed read returns
/// the error that the type states for that position.
pub open spec fn reads_value<'a, T: Wire>(
    before: BinaryReader<'a>,
    after: BinaryReader<'a>,
    res: Result<T>,
) -> bool {
    &&& after.data() == before.data()
    &&& res matches Ok(v) ==> {
        &&& v.wf()
        &&& v.decodes_at(before.data(), before.pos())
        &&& after.pos() == before.pos() + v.spec_bytes().len()
    }
    &&& forall|w: T|
        #[trigger] w.decodes_at(before.data(), before.pos()) && w.wf() ==> (res matches Ok(v)
            && v.spec_bytes() == w.spec_bytes())
    &&& res matches Err(e) ==> (T::read_error(before.data(), before.pos()) matches Some(f) ==> e == f)
}

/// Every item is writable.
pub open spec fn all_wf<T: Wire>(items: Seq<T>) -> bool {
    forall|i: int| 0 <= i < items.len() ==> #[trigger] items[i].wf()
}

/// The items' encodings, one after another.
pub open spec fn list_bytes<T: Wire>(items: Seq<T>) -> Seq<u8>
    decreases items.len(),
{
    if items.len() == 0 {
        Seq::empty()
    } else {
        list_bytes(items.drop_last()) + items.last().spec_bytes()
    }
}

/// The items decode one after another from `pos`.
pub open spec fn list_decodes_at<T: Wire>(items: Seq<T>, data: Seq<u8>, pos: int) -> bool
    decreases items.len(),
{
    if items.len() == 0 {
        0 <= pos <= data.len()
    } else {
        &&& list_decodes_at(items.drop_last(), data, pos)
        &&& items.last().decodes_at(data, pos + list_bytes(items.drop_last()).len())
    }
}

/// The encoding of a `u32`-counted list.
pub open spec fn list_u32_bytes<T: Wire>(items: Seq<T>) -> Seq<u8> {
    spec_u32_to_le_bytes(items.len() as u32) + list_bytes(items)
}

/// The encoding of a `u16`-counted list.
pub open spec fn list_u16_bytes<T: Wire>(items: Seq<T>) -> Seq<u8> {
    spec_u16_to_le_bytes(items.len() as u16) + list_bytes(items)
}

/// A `u32` field with value `v` sits at `pos`.
pub open spec fn u32_at(data: Seq<u8>, pos: int, v: u32) -> bool {
    &&& 0 <= pos && pos + 4 <= data.len()
    &&& spec_u32_from_le_bytes(data.subrange(pos, pos + 4)) == v
}

/// A `u16` field with value `v` sits at `pos`.
pub open spec fn u16_at(data: Seq<u8>, pos: int, v: u16) -> bool {
    &&& 0 <= pos && pos + 2 <= data.len()
    &&& spec_u16_from_le_bytes(data.subrange(pos, pos + 2)) == v
}

/// A `u64` field with value `v` sits at `pos`.
pub open spec fn u64_at(data: Seq<u8>, pos: int, v: u64) -> bool {
    &&& 0 <= pos && pos + 8 <= data.len()
    &&& spec_u64_from_le_bytes(data.subrange(pos, pos + 8)) == v
}

/// An `i32` field with value `v` sits at `pos`.
pub open spec fn i32_at(data: Seq<u8>, pos: int, v: i32) -> bool {
    &&& 0 <= pos && pos + 4 <= data.len()
    &&& spec_i32_from_le_bytes(data.subrange(pos, pos + 4)) == v
}

/// An `i16` field with value `v` sits at `pos`.
pub open spec fn i16_at(data: Seq<u8>, pos: int, v: i16) -> bool {
    &&& 0 <= pos && pos + 2 <= data.len()
    &&& spec_u16_from_le_bytes(data.subrange(pos, pos + 2)) as i16 == v
}

/// A byte with value `v` sits at `pos`.
pub open spec fn u8_at(data: Seq<u8>, pos: int, v: u8) -> bool {
    &&& 0 <= pos < data.len()
    &&& data[pos] == v
}

/// A byte whose value is `v` as `i8` sits at `pos`.
pub open spec fn i8_at(data: Seq<u8>, pos: int, v: i8) -> bool {
    &&& 0 <= pos < data.len()
    &&& data[pos] as i8 == v
}

/// A flag byte sits at `pos`: any non-zero byte reads as `true`.
pub open spec fn bool_at(data: Seq<u8>, pos: int, v: bool) -> bool {
    &&& 0 <= pos < data.len()
    &&& (data[pos] != 0) == v
}

/// The byte written for a flag.
pub open spec fn bool_byte(b: bool) -> Seq<u8> {
    seq![if b { 1u8 } else { 0u8 }]
}

/// A read of a `u32`-counted list of `T`.
pub open spec fn reads_list_u32<'a, T: Wire>(
    before: BinaryReader<'a>,
    after: BinaryReader<'a>,
    res: Result<Vec<T>>,
) -> bool {
    let d = before.data();
    let p = before.pos();
    &&& after.data() == d
    &&& res matches Ok(v) ==> {
        &&& all_wf(v@)
        &&& v@.len() <= u32::MAX
        &&& u32_at(d, p, v@.len() as u32)
        &&& list_decodes_at(v@, d, p + 4)
        &&& after.pos() == p + list_u32_bytes(v@).len()
    }
    &&& forall|ws: Seq<T>|
        #![trigger list_decodes_at(ws, d, p + 4)]
        ws.len() <= u32::MAX && all_wf(ws) && u32_at(d, p, ws.len() as u32) && list_decodes_at(
            ws,
            d,
            p + 4,
        ) ==> (res matches Ok(v) && list_bytes(v@) == list_bytes(ws) && v@.len() == ws.len())
}

/// A read of a `u16`-counted list of `T`.
pub open spec fn reads_list_u16<'a, T: Wire>(
    before: BinaryReader<'a>,
    after: BinaryReader<'a>,
    res: Result<Vec<T>>,
) -> bool {
    let d = before.data();
    let p = before.pos();
    &&& after.data() == d
    &&& res matches Ok(v) ==> {
        &&& all_wf(v@)
        &&& v@.len() <= u16::MAX
        &&& u16_at(d, p, v@.len() as u16)
        &&& list_decodes_at(v@, d, p + 2)
        &&& after.pos() == p + list_u16_bytes(v@).len()
    }
    &&& forall|ws: Seq<T>|
        #![trigger list_decodes_at(ws, d, p + 2)]
        ws.len() <= u16::MAX && all_wf(ws) && u16_at(d, p, ws.len() as u16) && list_decodes_at(
            ws,
            d,
            p + 2,
        ) ==> (res matches Ok(v) && list_bytes(v@) == list_bytes(ws) && v@.len() == ws.len())
}

/// A written byte is read back as that byte.
pub broadcast proof fn lemma_u8_encoded(data: Seq<u8>, pos: int, b: u8)
    requires
        #[trigger] encoded_at(data, pos, seq![b]),
    ensures
        u8_at(data, pos, b),
{
    assert(data.subrange(pos, pos + 1)[0] == data[pos]);
}

/// A written signed byte is read back as that value.
pub broadcast proof fn lemma_i8_encoded(data: Seq<u8>, pos: int, b: i8)
    requires
        #[trigger] encoded_at(data, pos, seq![b as u8]),
    ensures
        i8_at(data, pos, b),
{
    assert(data.subrange(pos, pos + 1)[0] == data[pos]);
}

/// A written flag is read back as that flag.
pub broadcast proof fn lemma_bool_encoded(data: Seq<u8>, pos: int, b: bool)
    requires
        #[trigger] encoded_at(data, pos, bool_byte(b)),
    ensures
        bool_at(data, pos, b),
{
    assert(data.subrange(pos, pos + 1)[0] == data[pos]);
}

/// A written `u16` is read back as that value.
pub broadcast proof fn lemma_u16_encoded(data: Seq<u8>, pos: int, v: u16)
    requires
        #[trigger] encoded_at(data, pos, spec_u16_to_le_bytes(v)),
    ensures
        u16_at(data, pos, v),
{
}

/// A written `i16` is read back as that value.
pub broadcast proof fn lemma_i16_encoded(data: Seq<u8>, pos: int, v: i16)
    requires
        #[trigger] encoded_at(data, pos, spec_u16_to_le_bytes(v as u16)),
    ensures
        i16_at(data, pos, v),
{
}

/// A written `u32` is read back as that value.
pub broadcast proof fn lemma_u32_encoded(data: Seq<u8>, pos: int, v: u32)
    requires
        #[trigger] encoded_at(data, pos, spec_u32_to_le_bytes(v)),
    ensures
        u32_at(data, pos, v),
{
}

/// A written `i32` is read back as that value.
pub broadcast proof fn lemma_i32_encoded(data: Seq<u8>, pos: int, v: i32)
    requires
        #[trigger] encoded_at(data, pos, spec_u32_to_le_bytes(v as u32)),
    ensures
        i32_at(data, pos, v),
{
}

/// A written `u64` is read back as that value.
pub broadcast proof fn lemma_u64_encoded(data: Seq<u8>, pos: int, v: u64)
    requires
        #[trigger] encoded_at(data, pos, spec_u64_to_le_bytes(v)),
    ensures
        u64_at(data, pos, v),
{
}

pub broadcast group group_wire {
    lemma_u8_encoded,
    lemma_i8_encoded,
    lemma_bool_encoded,
    lemma_u16_encoded,
    lemma_i16_encoded,
    lemma_u32_encoded,
    lemma_i32_encoded,
    lemma_u64_encoded,
}

/// A list that decodes also decodes in each of its prefixes.
pub proof fn lemma_list_decodes_prefix<T: Wire>(ws: Seq<T>, data: Seq<u8>, pos: int, k: int)
    requires
        0 <= k <= ws.len(),
        list_decodes_at(ws, data, pos),
    ensures
        list_decodes_at(ws.take(k), data, pos),
    decreases ws.len(),
{
    if k < ws.len() {
        assert(ws.drop_last().take(k) =~= ws.take(k));
        lemma_list_decodes_prefix(ws.drop_last(), data, pos, k);
    } else {
        assert(ws.take(k) =~= ws);
    }
}

/// A list of `u32` values is determined by its count and its bytes: two
/// lists of one length that decode at the same place are equal.
pub proof fn lemma_u32_list_unique(a: Seq<u32>, b: Seq<u32>, data: Seq<u8>, pos: int)
    requires
        a.len() == b.len(),
        list_decodes_at(a, data, pos),
        list_decodes_at(b, data, pos),
    ensures
        a == b,
    decreases a.len(),
{
    if a.len() > 0 {
        lemma_u32_list_unique(a.drop_last(), b.drop_last(), data, pos);
        assert(a.drop_last() == b.drop_last());
        assert(a.last() == b.last());
        assert(a =~= a.drop_last().push(a.last()));
        assert(b =~= b.drop_last().push(b.last()));
    } else {
        assert(a =~= b);
    }
}

/// The encoding of a concatenation of lists is the concatenation of their encodings.
pub proof fn lemma_list_bytes_append<T: Wire>(a: Seq<T>, b: Seq<T>)
    ensures
        list_bytes(a + b) == list_bytes(a) + list_bytes(b),
    decreases b.len(),
{
    if b.len() == 0 {
        assert(a + b =~= a);
        assert(list_bytes(a) + list_bytes(b) =~= list_bytes(a));
    } else {
        lemma_list_bytes_append(a, b.drop_last());
        assert((a + b).drop_last() =~= a + b.drop_last());
        assert((a + b).last() == b.last());
        assert(list_bytes(a + b) =~= list_bytes(a) + list_bytes(b));
    }
}

/// The written encoding of writable items is accepted by the reader as those items.
pub proof fn lemma_list_canonical<T: Wire>(ws: Seq<T>, data: Seq<u8>, pos: int)
    requires
        all_wf(ws),
        encoded_at(data, pos, list_bytes(ws)),
    ensures
        list_decodes_at(ws, data, pos),
    decreases ws.len(),
{
    if ws.len() > 0 {
        let init = ws.drop_last();
        assert(list_bytes(ws) == list_bytes(init) + ws.last().spec_bytes());
        assert(encoded_at(data, pos, list_bytes(init)));
        assert(all_wf(init)) by {
            assert forall|i: int| 0 <= i < init.len() implies #[trigger] init[i].wf() by {
                assert(init[i] == ws[i]);
            }
        }
        lemma_list_canonical(init, data, pos);
        assert(ws[ws.len() - 1].wf());
        ws.last().lemma_canonical(data, pos + list_bytes(init).len());
    } else {
        assert(0 <= pos <= data.len());
    }
}


/// A list of `u32` values written with a `u16` count reads back: the bytes
/// hold the count and each value at its place, and whatever list of that
/// count decodes there is the list written.
pub proof fn lemma_u16_list_round_trip(items: Seq<u32>, v: Seq<u32>)
    requires
        items.len() <= u16::MAX,
        v.len() <= u16::MAX,
        u16_at(list_u16_bytes(items), 0, v.len() as u16),
        list_decodes_at(v, list_u16_bytes(items), 2),
    ensures
        u16_at(list_u16_bytes(items), 0, items.len() as u16),
        list_decodes_at(items, list_u16_bytes(items), 2),
        v == items,
        list_u16_bytes(v).len() == list_u16_bytes(items).len(),
{
    let d = list_u16_bytes(items);
    let h = spec_u16_to_le_bytes(items.len() as u16);
    assert(d.subrange(0, 2) =~= h);
    assert(encoded_at(d, 0, h));
    lemma_u16_encoded(d, 0, items.len() as u16);
    assert(d.subrange(2, d.len() as int) =~= list_bytes(items));
    assert(all_wf(items));
    lemma_list_canonical(items, d, 2);
    assert(spec_u16_from_le_bytes(spec_u16_to_le_bytes(v.len() as u16)) == v.len() as u16);
    assert(spec_u16_from_le_bytes(spec_u16_to_le_bytes(items.len() as u16)) == items.len() as u16);
    assert(v.len() == items.len());
    lemma_u32_list_unique(v, items, d, 2);
}


/// A decoded `u32` field is the encoding of its value.
pub proof fn lemma_u32_rewrite(data: Seq<u8>, pos: int, v: u32)
    requires
        u32_at(data, pos, v),
    ensures
        encoded_at(data, pos, spec_u32_to_le_bytes(v)),
{
    broadcast use crate::bytes::lemma_u32_from_le;

    assert(spec_u32_to_le_bytes(spec_u32_from_le_bytes(data.subrange(pos, pos + 4))) == data.subrange(pos, pos + 4));
}

/// A decoded `u16` field is the encoding of its value.
pub proof fn lemma_u16_rewrite(data: Seq<u8>, pos: int, v: u16)
    requires
        u16_at(data, pos, v),
    ensures
        encoded_at(data, pos, spec_u16_to_le_bytes(v)),
{
    vstd::bytes::lemma_auto_spec_u16_to_from_le_bytes();
    assert(spec_u16_to_le_bytes(spec_u16_from_le_bytes(data.subrange(pos, pos + 2))) == data.subrange(pos, pos + 2));
}

/// A decoded `i32` field is the encoding of its value.
pub proof fn lemma_i32_rewrite(data: Seq<u8>, pos: int, v: i32)
    requires
        i32_at(data, pos, v),
    ensures
        encoded_at(data, pos, spec_i32_to_le_bytes(v)),
{
    broadcast use crate::bytes::lemma_u32_from_le;

    let u = spec_u32_from_le_bytes(data.subrange(pos, pos + 4));
    assert((u as i32) as u32 == u);
    assert(v as u32 == u);
    assert(spec_u32_to_le_bytes(u) == data.subrange(pos, pos + 4));
}

/// A decoded byte field is that byte.
pub proof fn lemma_u8_rewrite(data: Seq<u8>, pos: int, v: u8)
    requires
        u8_at(data, pos, v),
    ensures
        encoded_at(data, pos, seq![v]),
{
    assert(data.subrange(pos, pos + 1) =~= seq![v]);
}

/// A decoded list of `u32` values with its count is the encoding of the
/// list.
pub proof fn lemma_u32_list_rewrite(a: Seq<u32>, data: Seq<u8>, pos: int)
    requires
        a.len() <= u32::MAX,
        u32_at(data, pos, a.len() as u32),
        list_decodes_at(a, data, pos + 4),
    ensures
        encoded_at(data, pos, list_u32_bytes(a)),
    decreases a.len(),
{
    lemma_u32_rewrite(data, pos, a.len() as u32);
    lemma_list_u32_items_rewrite(a, data, pos + 4);
    lemma_encoded_at_concat(data, pos, spec_u32_to_le_bytes(a.len() as u32), list_bytes(a));
}

proof fn lemma_list_u32_items_rewrite(a: Seq<u32>, data: Seq<u8>, pos: int)
    requires
        list_decodes_at(a, data, pos),
    ensures
        encoded_at(data, pos, list_bytes(a)),
    decreases a.len(),
{
    if a.len() == 0 {
        assert(data.subrange(pos, pos) =~= Seq::<u8>::empty());
    } else {
        lemma_list_u32_items_rewrite(a.drop_last(), data, pos);
        let q = pos + list_bytes(a.drop_last()).len();
        lemma_u32_rewrite(data, q, a.last());
        lemma_encoded_at_concat(data, pos, list_bytes(a.drop_last()), a.last().spec_bytes());
    }
}

} // verus!
