//! Cursor-based binary reader for HIRC parsing.

use vstd::prelude::*;
use vstd::string::StringExecFns;
use crate::bytes::{group_bytes, lemma_le_bytes_roundtrip, spec_i32_from_le_bytes, spec_u16_from_le_bytes, spec_u32_from_le_bytes, spec_u64_from_le_bytes};
use crate::error::{eof_error, Error, Result};
use super::wire::{Wire, all_wf, items_fail_with, lemma_list_decodes_prefix, list_bytes, list_decodes_at, reads_list_u16, reads_list_u32};

verus! {

broadcast use group_bytes;

/// A cursor over a byte slice for sequential binary reads.
#[derive(Debug)]
pub struct BinaryReader<'a> {
    data: &'a [u8],
    pos: usize,
}

/// The outcome of reading `n` bytes that decode to `value`: success and an
/// advance of `n` when that many bytes remain, else an end-of-data error
/// with the cursor unmoved.
pub open spec fn fixed_read<'a, T>(
    before: BinaryReader<'a>,
    after: BinaryReader<'a>,
    res: Result<T>,
    n: int,
    value: T,
) -> bool {
    &&& after.data() == before.data()
    &&& if before.pos() + n <= before.data().len() {
        &&& res == Ok::<T, Error>(value)
        &&& after.pos() == before.pos() + n
    } else {
        &&& res == Err::<T, Error>(
            Error::UnexpectedEof {
                offset: before.pos() as u64,
                needed: n as u64,
                available: (before.data().len() - before.pos()) as u64,
            },
        )
        &&& after.pos() == before.pos()
    }
}

impl<'a> BinaryReader<'a> {
    #[verifier::type_invariant]
    spec fn inv(self) -> bool {
        self.pos <= self.data@.len()
    }

    /// The bytes under the cursor.
    pub closed spec fn data(self) -> Seq<u8> {
        self.data@
    }

    /// The cursor position.
    pub closed spec fn pos(self) -> int {
        self.pos as int
    }

    /// A position is never negative.
    pub broadcast proof fn lemma_pos_nonneg(self)
        ensures
            #[trigger] self.pos() >= 0,
    {
    }

    /// Create a new reader over `data`.
    pub fn new(data: &'a [u8]) -> (r: Self)
        ensures
            r.data() == data@,
            r.pos() == 0,
    {
        Self { data, pos: 0 }
    }

    /// Current read position.
    pub fn position(&self) -> (p: usize)
        ensures
            p == self.pos(),
            p <= self.data().len(),
    {
        proof {
            use_type_invariant(self);
        }
        self.pos
    }

    /// Remaining bytes.
    pub fn remaining(&self) -> (n: usize)
        ensures
            n == self.data().len() - self.pos(),
    {
        proof {
            use_type_invariant(self);
        }
        self.data.len() - self.pos
    }

    /// Total length of underlying data.
    pub fn len(&self) -> (n: usize)
        ensures
            n == self.data().len(),
    {
        self.data.len()
    }

    /// Whether the reader is at or past the end.
    pub fn is_empty(&self) -> (b: bool)
        ensures
            b == (self.pos() >= self.data().len()),
    {
        self.remaining() == 0
    }

    fn check(&self, n: usize) -> (res: Result<()>)
        ensures
            res is Ok <==> self.pos() + n <= self.data().len(),
            self.pos() + n > self.data().len() ==> res == Err::<(), Error>(
                Error::UnexpectedEof {
                    offset: self.pos() as u64,
                    needed: n as u64,
                    available: (self.data().len() - self.pos()) as u64,
                },
            ),
    {
        proof {
            use_type_invariant(self);
        }
        if n > self.data.len() - self.pos {
            Err(eof_error(self.pos, n, self.data.len() - self.pos))
        } else {
            Ok(())
        }
    }

    /// Read a `u8`.
    pub fn read_u8(&mut self) -> (res: Result<u8>)
        ensures
            fixed_read(*old(self), *final(self), res, 1, old(self).data()[old(self).pos()]),
    {
        proof {
            use_type_invariant(&*self);
        }
        if let Err(e) = self.check(1) {
            return Err(e);
        }
        let v = self.data[self.pos];
        self.pos = self.pos + 1;
        Ok(v)
    }

    /// Read an `i8`.
    pub fn read_i8(&mut self) -> (res: Result<i8>)
        ensures
            fixed_read(*old(self), *final(self), res, 1, old(self).data()[old(self).pos()] as i8),
    {
        let v = self.read_u8()?;
        Ok(v as i8)
    }

    /// Read a little-endian `u16`.
    pub fn read_u16(&mut self) -> (res: Result<u16>)
        ensures
            fixed_read(
                *old(self),
                *final(self),
                res,
                2,
                spec_u16_from_le_bytes(old(self).data().subrange(old(self).pos(), old(self).pos() + 2)),
            ),
    {
        proof {
            use_type_invariant(&*self);
        }
        if let Err(e) = self.check(2) {
            return Err(e);
        }
        assert(self.pos + 2 <= self.data.len());
        let v = vstd::bytes::u16_from_le_bytes(&self.data[self.pos..self.pos + 2]);
        self.pos = self.pos + 2;
        Ok(v)
    }

    /// Read a little-endian `i16`.
    pub fn read_i16(&mut self) -> (res: Result<i16>)
        ensures
            fixed_read(
                *old(self),
                *final(self),
                res,
                2,
                spec_u16_from_le_bytes(old(self).data().subrange(old(self).pos(), old(self).pos() + 2)) as i16,
            ),
    {
        let v = self.read_u16()?;
        Ok(v as i16)
    }

    /// Read a little-endian `u32`.
    pub fn read_u32(&mut self) -> (res: Result<u32>)
        ensures
            fixed_read(
                *old(self),
                *final(self),
                res,
                4,
                spec_u32_from_le_bytes(old(self).data().subrange(old(self).pos(), old(self).pos() + 4)),
            ),
    {
        proof {
            use_type_invariant(&*self);
        }
        if let Err(e) = self.check(4) {
            return Err(e);
        }
        assert(self.pos + 4 <= self.data.len());
        let v = vstd::bytes::u32_from_le_bytes(&self.data[self.pos..self.pos + 4]);
        self.pos = self.pos + 4;
        Ok(v)
    }

    /// Read a little-endian `i32`.
    pub fn read_i32(&mut self) -> (res: Result<i32>)
        ensures
            fixed_read(
                *old(self),
                *final(self),
                res,
                4,
                spec_i32_from_le_bytes(old(self).data().subrange(old(self).pos(), old(self).pos() + 4)),
            ),
    {
        let v = self.read_u32()?;
        Ok(v as i32)
    }

    /// Read a little-endian `u64` (the bits of an `f64` field).
    pub fn read_u64(&mut self) -> (res: Result<u64>)
        ensures
            fixed_read(
                *old(self),
                *final(self),
                res,
                8,
                spec_u64_from_le_bytes(old(self).data().subrange(old(self).pos(), old(self).pos() + 8)),
            ),
    {
        proof {
            use_type_invariant(&*self);
        }
        if let Err(e) = self.check(8) {
            return Err(e);
        }
        assert(self.pos + 8 <= self.data.len());
        let v = vstd::bytes::u64_from_le_bytes(&self.data[self.pos..self.pos + 8]);
        self.pos = self.pos + 8;
        Ok(v)
    }

    /// Read `n` raw bytes.
    pub fn read_bytes(&mut self, n: usize) -> (res: Result<&'a [u8]>)
        ensures
            final(self).data() == old(self).data(),
            old(self).pos() + n <= old(self).data().len() ==> {
                &&& res matches Ok(s) && s@ == old(self).data().subrange(old(self).pos(), old(self).pos() + n)
                &&& final(self).pos() == old(self).pos() + n
            },
            old(self).pos() + n > old(self).data().len() ==> {
                &&& res == Err::<&'a [u8], Error>(
                    Error::UnexpectedEof {
                        offset: old(self).pos() as u64,
                        needed: n as u64,
                        available: (old(self).data().len() - old(self).pos()) as u64,
                    },
                )
                &&& final(self).pos() == old(self).pos()
            },
    {
        proof {
            use_type_invariant(&*self);
        }
        if let Err(e) = self.check(n) {
            return Err(e);
        }
        assert(self.pos + n <= self.data.len());
        let slice = &self.data[self.pos..self.pos + n];
        self.pos = self.pos + n;
        Ok(slice)
    }

    /// Read a list of `T` with a `u32` count prefix.
    pub fn read_list_u32<T: Wire>(&mut self) -> (res: Result<Vec<T>>)
        ensures
            reads_list_u32(*old(self), *final(self), res),
            old(self).pos() + 4 > old(self).data().len() ==> res == Err::<Vec<T>, Error>(
                Error::UnexpectedEof {
                    offset: old(self).pos() as u64,
                    needed: 4,
                    available: (old(self).data().len() - old(self).pos()) as u64,
                },
            ),
            old(self).pos() + 4 <= old(self).data().len() ==> (res matches Err(e) ==> items_fail_with::<T>(
                old(self).data(),
                old(self).pos() + 4,
                spec_u32_from_le_bytes(old(self).data().subrange(old(self).pos(), old(self).pos() + 4)) as nat,
                e,
            )),
    {
        let ghost start = *self;
        let count = self.read_u32()?;
        let items = self.read_items::<T>(count as usize)?;
        proof {
            lemma_le_bytes_roundtrip();
        }
        Ok(items)
    }

    /// Read a list of `T` with a `u16` count prefix.
    pub fn read_list_u16<T: Wire>(&mut self) -> (res: Result<Vec<T>>)
        ensures
            reads_list_u16(*old(self), *final(self), res),
            old(self).pos() + 2 > old(self).data().len() ==> res == Err::<Vec<T>, Error>(
                Error::UnexpectedEof {
                    offset: old(self).pos() as u64,
                    needed: 2,
                    available: (old(self).data().len() - old(self).pos()) as u64,
                },
            ),
            old(self).pos() + 2 <= old(self).data().len() ==> (res matches Err(e) ==> items_fail_with::<T>(
                old(self).data(),
                old(self).pos() + 2,
                spec_u16_from_le_bytes(old(self).data().subrange(old(self).pos(), old(self).pos() + 2)) as nat,
                e,
            )),
    {
        let count = self.read_u16()?;
        let items = self.read_items::<T>(count as usize)?;
        proof {
            lemma_le_bytes_roundtrip();
        }
        Ok(items)
    }

    /// Read exactly `count` consecutive values of `T`.
    pub fn read_items<T: Wire>(&mut self, count: usize) -> (res: Result<Vec<T>>)
        ensures
            final(self).data() == old(self).data(),
            res matches Ok(v) ==> {
                &&& v@.len() == count
                &&& all_wf(v@)
                &&& list_decodes_at(v@, old(self).data(), old(self).pos())
                &&& final(self).pos() == old(self).pos() + list_bytes(v@).len()
            },
            forall|ws: Seq<T>|
                ws.len() == count && all_wf(ws) && #[trigger] list_decodes_at(
                    ws,
                    old(self).data(),
                    old(self).pos(),
                ) ==> (res matches Ok(v) && list_bytes(v@) == list_bytes(ws)),
            res matches Err(e) ==> items_fail_with::<T>(old(self).data(), old(self).pos(), count as nat, e),
    {
        proof {
            use_type_invariant(&*self);
        }
        let ghost d = self.data();
        let ghost p0 = self.pos();
        let mut items: Vec<T> = Vec::new();
        let mut i: usize = 0;
        while i < count
            invariant
                d == old(self).data(),
                p0 == old(self).pos(),
                self.data() == d,
                0 <= i <= count,
                items@.len() == i,
                all_wf(items@),
                list_decodes_at(items@, d, p0),
                self.pos() == p0 + list_bytes(items@).len(),
                forall|ws: Seq<T>|
                    ws.len() == count && all_wf(ws) && #[trigger] list_decodes_at(ws, d, p0)
                        ==> list_bytes(items@) == list_bytes(ws.take(i as int)),
            decreases count - i,
        {
            let ghost before = *self;
            let ghost old_items = items@;
            let r = T::wire_read(self);
            match r {
                Ok(v) => {
                    items.push(v);
                    proof {
                        assert(items@.drop_last() =~= old_items);
                        assert forall|ws: Seq<T>|
                            ws.len() == count && all_wf(ws) && #[trigger] list_decodes_at(ws, d, p0)
                                implies list_bytes(items@) == list_bytes(ws.take(i + 1)) by {
                            lemma_list_decodes_prefix(ws, d, p0, i + 1);
                            let t = ws.take(i + 1);
                            assert(t.drop_last() =~= ws.take(i as int));
                            assert(t.last() == ws[i as int]);
                            assert(ws[i as int].wf());
                        }
                    }
                    i = i + 1;
                },
                Err(e) => {
                    proof {
                        assert forall|ws: Seq<T>|
                            ws.len() == count && all_wf(ws) && #[trigger] list_decodes_at(ws, d, p0)
                                implies false by {
                            lemma_list_decodes_prefix(ws, d, p0, i + 1);
                            let t = ws.take(i + 1);
                            assert(t.drop_last() =~= ws.take(i as int));
                            assert(t.last() == ws[i as int]);
                            assert(ws[i as int].wf());
                        }
                        assert forall|w: T| #[trigger] w.decodes_at(d, p0 + list_bytes(items@).len()) implies !w.wf() by {
                            if w.wf() {
                                assert(w.decodes_at(before.data(), before.pos()));
                            }
                        }
                        assert(list_decodes_at(items@, d, p0));
                        reveal(items_fail_with);
                        assert(items_fail_with::<T>(d, p0, count as nat, e));
                    }
                    return Err(e);
                },
            }
        }
        proof {
            assert forall|ws: Seq<T>|
                ws.len() == count && all_wf(ws) && #[trigger] list_decodes_at(ws, d, p0) implies list_bytes(
                items@,
            ) == list_bytes(ws) by {
                assert(ws.take(count as int) =~= ws);
            }
        }
        Ok(items)
    }

    /// Read a NUL-terminated UTF-8 string stored in `byte_len` bytes; the
    /// value ends at the first NUL.
    pub fn read_string(&mut self, byte_len: usize) -> (res: Result<String>)
        ensures
            final(self).data() == old(self).data(),
            old(self).pos() + byte_len > old(self).data().len() ==> res == Err::<String, Error>(
                Error::UnexpectedEof {
                    offset: old(self).pos() as u64,
                    needed: byte_len as u64,
                    available: (old(self).data().len() - old(self).pos()) as u64,
                },
            ),
            old(self).pos() + byte_len <= old(self).data().len() ==> {
                let field = old(self).data().subrange(old(self).pos(), old(self).pos() + byte_len);
                let text = field.take(nul_end(field));
                &&& final(self).pos() == old(self).pos() + byte_len
                &&& vstd::utf8::valid_utf8(text) ==> (res matches Ok(s) && s@ == vstd::utf8::decode_utf8(text))
                &&& !vstd::utf8::valid_utf8(text) ==> res is Err
            },
    {
        let bytes = self.read_bytes(byte_len)?;
        let mut end: usize = 0;
        while end < bytes.len() && bytes[end] != 0
            invariant
                0 <= end <= bytes@.len(),
                forall|j: int| 0 <= j < end ==> bytes@[j] != 0,
            decreases bytes@.len() - end,
        {
            end = end + 1;
        }
        proof {
            lemma_nul_end(bytes@, end as int);
        }
        let text = &bytes[0..end];
        match utf8_to_string(text) {
            Some(s) => Ok(s),
            None => Err(
                Error::InvalidChunk {
                    tag: String::from_str("HIRC"),
                    offset: (self.position() - byte_len) as u64,
                    reason: String::from_str("invalid UTF-8 string"),
                },
            ),
        }
    }
}

/// Index of the first NUL byte in `s`, or its length when there is none.
pub open spec fn nul_end(s: Seq<u8>) -> int
    decreases s.len(),
{
    if s.len() == 0 {
        0
    } else if s[0] == 0 {
        0
    } else {
        1 + nul_end(s.drop_first())
    }
}

pub(crate) proof fn lemma_nul_end(s: Seq<u8>, k: int)
    requires
        0 <= k <= s.len(),
        forall|j: int| 0 <= j < k ==> s[j] != 0,
        k < s.len() ==> s[k] == 0,
    ensures
        nul_end(s) == k,
    decreases s.len(),
{
    if s.len() > 0 && s[0] != 0 {
        assert forall|j: int| 0 <= j < k - 1 implies s.drop_first()[j] != 0 by {
            assert(s[j + 1] != 0);
        }
        lemma_nul_end(s.drop_first(), k - 1);
    }
}

/// Decodes UTF-8 bytes into a `String` with `String::from_utf8`.
///
/// Trusted: std documents that `from_utf8` succeeds exactly on valid UTF-8,
/// and then the string holds the decoded characters.
#[verifier::external_body]
fn utf8_to_string(bytes: &[u8]) -> (r: Option<String>)
    ensures
        r is Some <==> vstd::utf8::valid_utf8(bytes@),
        r matches Some(s) ==> s@ == vstd::utf8::decode_utf8(bytes@),
{
    match String::from_utf8(bytes.to_vec()) {
        Ok(s) => Some(s),
        Err(_) => None,
    }
}

} // verus!
