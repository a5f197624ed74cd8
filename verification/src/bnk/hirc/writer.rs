//! Cursor-based binary writer for HIRC serialization.

use vstd::prelude::*;
use vstd::string::StringSliceAdditionalSpecFns;
use crate::bytes::{group_bytes, push_all, push_u32_le, push_u64_le, spec_i16_to_le_bytes, spec_i32_to_le_bytes, spec_u16_to_le_bytes, spec_u32_to_le_bytes, spec_u64_to_le_bytes};
use super::wire::{Wire, all_wf, list_bytes, list_u16_bytes, list_u32_bytes};

verus! {

broadcast use group_bytes;

/// A sequential binary writer into a `Vec<u8>`.
#[derive(Debug)]
pub struct BinaryWriter {
    buf: Vec<u8>,
}

impl View for BinaryWriter {
    type V = Seq<u8>;

    closed spec fn view(&self) -> Seq<u8> {
        self.buf@
    }
}

impl BinaryWriter {
    /// Create a new writer.
    pub fn new() -> (w: Self)
        ensures
            w@ == Seq::<u8>::empty(),
    {
        Self { buf: Vec::new() }
    }

    /// Create a new writer with pre-allocated capacity.
    pub fn with_capacity(cap: usize) -> (w: Self)
        ensures
            w@ == Seq::<u8>::empty(),
    {
        Self { buf: Vec::with_capacity(cap) }
    }

    /// Current write position (length of buffer so far).
    pub fn position(&self) -> (p: usize)
        ensures
            p == self@.len(),
    {
        self.buf.len()
    }

    /// Consume the writer and return the underlying buffer.
    pub fn into_inner(self) -> (b: Vec<u8>)
        ensures
            b@ == self@,
    {
        self.buf
    }

    /// Get a reference to the underlying buffer.
    pub fn as_slice(&self) -> (s: &[u8])
        ensures
            s@ == self@,
    {
        self.buf.as_slice()
    }

    /// Write a `u8`.
    pub fn write_u8(&mut self, v: u8)
        ensures
            final(self)@ == old(self)@ + seq![v],
    {
        self.buf.push(v);
        assert(final(self)@ =~= old(self)@ + seq![v]);
    }

    /// Write an `i8`.
    pub fn write_i8(&mut self, v: i8)
        ensures
            final(self)@ == old(self)@ + seq![v as u8],
    {
        self.write_u8(v as u8);
    }

    /// Write a little-endian `u16`.
    pub fn write_u16(&mut self, v: u16)
        ensures
            final(self)@ == old(self)@ + spec_u16_to_le_bytes(v),
    {
        let b = vstd::bytes::u16_to_le_bytes(v);
        self.buf.push(b[0]);
        self.buf.push(b[1]);
        assert(final(self)@ =~= old(self)@ + spec_u16_to_le_bytes(v));
    }

    /// Write a little-endian `i16`.
    pub fn write_i16(&mut self, v: i16)
        ensures
            final(self)@ == old(self)@ + spec_i16_to_le_bytes(v),
    {
        self.write_u16(v as u16);
    }

    /// Write a little-endian `u32`.
    pub fn write_u32(&mut self, v: u32)
        ensures
            final(self)@ == old(self)@ + spec_u32_to_le_bytes(v),
    {
        push_u32_le(&mut self.buf, v);
    }

    /// Write a little-endian `i32`.
    pub fn write_i32(&mut self, v: i32)
        ensures
            final(self)@ == old(self)@ + spec_i32_to_le_bytes(v),
    {
        self.write_u32(v as u32);
    }

    /// Write a little-endian `u64` (the bits of an `f64` field).
    pub fn write_u64(&mut self, v: u64)
        ensures
            final(self)@ == old(self)@ + spec_u64_to_le_bytes(v),
    {
        push_u64_le(&mut self.buf, v);
    }

    /// Write raw bytes.
    pub fn write_bytes(&mut self, data: &[u8])
        ensures
            final(self)@ == old(self)@ + data@,
    {
        push_all(&mut self.buf, data);
    }

    /// Write a string's UTF-8 bytes followed by a NUL.
    pub fn write_string(&mut self, s: &str)
        ensures
            final(self)@ == old(self)@ + s.spec_bytes() + seq![0u8],
    {
        push_all(&mut self.buf, s.as_bytes());
        self.buf.push(0);
        assert(final(self)@ =~= old(self)@ + s.spec_bytes() + seq![0u8]);
    }

    /// Write consecutive values.
    pub fn write_items<T: Wire>(&mut self, items: &[T])
        requires
            all_wf(items@),
        ensures
            final(self)@ == old(self)@ + list_bytes(items@),
    {
        let mut i: usize = 0;
        while i < items.len()
            invariant
                0 <= i <= items@.len(),
                all_wf(items@),
                self@ == old(self)@ + list_bytes(items@.take(i as int)),
            decreases items@.len() - i,
        {
            assert(items@[i as int].wf());
            items[i].wire_write(self);
            assert(items@.take(i + 1).drop_last() =~= items@.take(i as int));
            assert(self@ =~= old(self)@ + list_bytes(items@.take(i + 1)));
            i = i + 1;
        }
        assert(items@.take(items@.len() as int) =~= items@);
    }

    /// Write a list with a `u32` count prefix.
    pub fn write_list_u32<T: Wire>(&mut self, items: &[T])
        requires
            all_wf(items@),
            items@.len() <= u32::MAX,
        ensures
            final(self)@ == old(self)@ + list_u32_bytes(items@),
    {
        self.write_u32(items.len() as u32);
        self.write_items(items);
        assert(final(self)@ =~= old(self)@ + list_u32_bytes(items@));
    }

    /// Write a list with a `u16` count prefix.
    pub fn write_list_u16<T: Wire>(&mut self, items: &[T])
        requires
            all_wf(items@),
            items@.len() <= u16::MAX,
        ensures
            final(self)@ == old(self)@ + list_u16_bytes(items@),
    {
        self.write_u16(items.len() as u16);
        self.write_items(items);
        assert(final(self)@ =~= old(self)@ + list_u16_bytes(items@));
    }

    /// Overwrite the four bytes at `offset` with the little-endian `v`.
    pub fn patch_u32(&mut self, offset: usize, v: u32)
        requires
            offset + 4 <= old(self)@.len(),
        ensures
            final(self)@ == old(self)@.subrange(0, offset as int) + spec_u32_to_le_bytes(v)
                + old(self)@.subrange(offset + 4, old(self)@.len() as int),
    {
        let bytes = vstd::bytes::u32_to_le_bytes(v);
        assert(offset + 4 <= self.buf.len());
        self.buf.set(offset, bytes[0]);
        self.buf.set(offset + 1, bytes[1]);
        self.buf.set(offset + 2, bytes[2]);
        self.buf.set(offset + 3, bytes[3]);
        assert(final(self)@ =~= old(self)@.subrange(0, offset as int) + spec_u32_to_le_bytes(v)
            + old(self)@.subrange(offset + 4, old(self)@.len() as int));
    }
}

} // verus!
