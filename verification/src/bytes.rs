//! Byte-level building blocks: where an encoding sits in a buffer, the
//! little-endian encodings of fixed-width integers, and fixed-size record
//! decoding through `zerocopy`.

use vstd::prelude::*;
use zerocopy::FromBytes;

verus! {

pub use vstd::bytes::{
    spec_u16_from_le_bytes, spec_u16_to_le_bytes, spec_u32_from_le_bytes, spec_u32_to_le_bytes,
    spec_u64_from_le_bytes, spec_u64_to_le_bytes,
};

/// `bytes` lies in `data` starting at offset `pos`.
pub open spec fn encoded_at(data: Seq<u8>, pos: int, bytes: Seq<u8>) -> bool {
    &&& 0 <= pos
    &&& pos + bytes.len() <= data.len()
    &&& data.subrange(pos, pos + bytes.len()) == bytes
}

/// Two encodings lie side by side exactly when their concatenation does.
pub broadcast proof fn lemma_encoded_at_concat(data: Seq<u8>, pos: int, a: Seq<u8>, b: Seq<u8>)
    ensures
        #[trigger] encoded_at(data, pos, a + b) <==> (encoded_at(data, pos, a) && encoded_at(
            data,
            pos + a.len(),
            b,
        )),
{
    if encoded_at(data, pos, a + b) {
        assert(data.subrange(pos, pos + a.len()) =~= (a + b).subrange(0, a.len() as int));
        assert((a + b).subrange(0, a.len() as int) =~= a);
        assert(data.subrange(pos + a.len(), pos + a.len() + b.len()) =~= (a + b).subrange(
            a.len() as int,
            (a + b).len() as int,
        ));
        assert((a + b).subrange(a.len() as int, (a + b).len() as int) =~= b);
    }
    if encoded_at(data, pos, a) && encoded_at(data, pos + a.len(), b) {
        assert(data.subrange(pos, pos + (a + b).len()) =~= a + b);
    }
}

/// The little-endian encoding of an `i16`.
pub open spec fn spec_i16_to_le_bytes(v: i16) -> Seq<u8> {
    spec_u16_to_le_bytes(v as u16)
}

/// The little-endian encoding of an `i32`.
pub open spec fn spec_i32_to_le_bytes(v: i32) -> Seq<u8> {
    spec_u32_to_le_bytes(v as u32)
}

/// The little-endian value of four bytes, read as an `i32`.
pub open spec fn spec_i32_from_le_bytes(s: Seq<u8>) -> i32 {
    spec_u32_from_le_bytes(s) as i32
}

/// The encodings of fixed-width integers have their width, and decode back.
pub proof fn lemma_le_bytes_roundtrip()
    ensures
        forall|x: u16|
            {
                &&& #[trigger] spec_u16_to_le_bytes(x).len() == 2
                &&& spec_u16_from_le_bytes(spec_u16_to_le_bytes(x)) == x
            },
        forall|s: Seq<u8>| s.len() == 2 ==> #[trigger] spec_u16_to_le_bytes(spec_u16_from_le_bytes(s)) == s,
        forall|x: u32|
            {
                &&& #[trigger] spec_u32_to_le_bytes(x).len() == 4
                &&& spec_u32_from_le_bytes(spec_u32_to_le_bytes(x)) == x
            },
        forall|s: Seq<u8>| s.len() == 4 ==> #[trigger] spec_u32_to_le_bytes(spec_u32_from_le_bytes(s)) == s,
        forall|x: u64|
            {
                &&& #[trigger] spec_u64_to_le_bytes(x).len() == 8
                &&& spec_u64_from_le_bytes(spec_u64_to_le_bytes(x)) == x
            },
        forall|s: Seq<u8>| s.len() == 8 ==> #[trigger] spec_u64_to_le_bytes(spec_u64_from_le_bytes(s)) == s,
{
    vstd::bytes::lemma_auto_spec_u16_to_from_le_bytes();
    vstd::bytes::lemma_auto_spec_u32_to_from_le_bytes();
    vstd::bytes::lemma_auto_spec_u64_to_from_le_bytes();
}

/// Reinterpreting an integer's bits as the other signedness and back is the identity.
pub broadcast proof fn lemma_cast_u32_i32(a: u32)
    ensures
        #[trigger] ((a as i32) as u32) == a,
{
    assert(((a as i32) as u32) == a) by (bit_vector);
}

/// Reinterpreting an integer's bits as the other signedness and back is the identity.
pub broadcast proof fn lemma_cast_i32_u32(b: i32)
    ensures
        #[trigger] ((b as u32) as i32) == b,
{
    assert(((b as u32) as i32) == b) by (bit_vector);
}

/// Reinterpreting an integer's bits as the other signedness and back is the identity.
pub broadcast proof fn lemma_cast_u16_i16(c: u16)
    ensures
        #[trigger] ((c as i16) as u16) == c,
{
    assert(((c as i16) as u16) == c) by (bit_vector);
}

/// Reinterpreting an integer's bits as the other signedness and back is the identity.
pub broadcast proof fn lemma_cast_i16_u16(d: i16)
    ensures
        #[trigger] ((d as u16) as i16) == d,
{
    assert(((d as u16) as i16) == d) by (bit_vector);
}

/// Reinterpreting an integer's bits as the other signedness and back is the identity.
pub broadcast proof fn lemma_cast_u8_i8(e: u8)
    ensures
        #[trigger] ((e as i8) as u8) == e,
{
    assert(((e as i8) as u8) == e) by (bit_vector);
}

/// Reinterpreting an integer's bits as the other signedness and back is the identity.
pub broadcast proof fn lemma_cast_i8_u8(f: i8)
    ensures
        #[trigger] ((f as u8) as i8) == f,
{
    assert(((f as u8) as i8) == f) by (bit_vector);
}

/// A `u16` encodes to two bytes that decode back to it.
pub broadcast proof fn lemma_u16_le(x: u16)
    ensures
        #[trigger] spec_u16_to_le_bytes(x).len() == 2,
        spec_u16_from_le_bytes(spec_u16_to_le_bytes(x)) == x,
{
    vstd::bytes::lemma_auto_spec_u16_to_from_le_bytes();
    assert(spec_u16_to_le_bytes(x).len() == 2);
    assert(spec_u16_from_le_bytes(spec_u16_to_le_bytes(x)) == x);
}

/// A `u32` encodes to four bytes that decode back to it.
pub broadcast proof fn lemma_u32_le(x: u32)
    ensures
        #[trigger] spec_u32_to_le_bytes(x).len() == 4,
        spec_u32_from_le_bytes(spec_u32_to_le_bytes(x)) == x,
{
    vstd::bytes::lemma_auto_spec_u32_to_from_le_bytes();
    assert(spec_u32_to_le_bytes(x).len() == 4);
    assert(spec_u32_from_le_bytes(spec_u32_to_le_bytes(x)) == x);
}

/// A `u64` encodes to eight bytes that decode back to it.
pub broadcast proof fn lemma_u64_le(x: u64)
    ensures
        #[trigger] spec_u64_to_le_bytes(x).len() == 8,
        spec_u64_from_le_bytes(spec_u64_to_le_bytes(x)) == x,
{
    vstd::bytes::lemma_auto_spec_u64_to_from_le_bytes();
    assert(spec_u64_to_le_bytes(x).len() == 8);
    assert(spec_u64_from_le_bytes(spec_u64_to_le_bytes(x)) == x);
}

/// Four bytes are the encoding of the `u32` they decode to.
pub broadcast proof fn lemma_u32_from_le(s: Seq<u8>)
    requires
        s.len() == 4,
    ensures
        #[trigger] spec_u32_to_le_bytes(spec_u32_from_le_bytes(s)) == s,
{
    vstd::bytes::lemma_auto_spec_u32_to_from_le_bytes();
}

pub broadcast group group_bytes {
    lemma_u32_from_le,
    lemma_u16_le,
    lemma_u32_le,
    lemma_u64_le,
    lemma_encoded_at_concat,
    lemma_cast_u32_i32,
    lemma_cast_i32_u32,
    lemma_cast_u16_i16,
    lemma_cast_i16_u16,
    lemma_cast_u8_i8,
    lemma_cast_i8_u8,
}

/// Decodes a little-endian `u32` record with `zerocopy::little_endian::U32::read_from_bytes`.
///
/// Trusted: zerocopy documents that `read_from_bytes` fails exactly when the
/// slice is not `size_of::<U32>() == 4` bytes long, and `U32::get` returns the
/// little-endian value of those bytes.
#[verifier::external_body]
pub(crate) fn zc_read_u32(bytes: &[u8]) -> (r: Option<u32>)
    ensures
        r is Some <==> bytes@.len() == 4,
        r matches Some(v) ==> v == spec_u32_from_le_bytes(bytes@),
{
    match zerocopy::little_endian::U32::read_from_bytes(bytes) {
        Ok(v) => Some(v.get()),
        Err(_) => None,
    }
}

/// Decodes a little-endian `i32` record with `zerocopy::little_endian::I32::read_from_bytes`.
///
/// Trusted: the call fails exactly when the slice is not 4 bytes long, and
/// `I32::get` returns the two's-complement little-endian value of the bytes.
#[verifier::external_body]
pub(crate) fn zc_read_i32(bytes: &[u8]) -> (r: Option<i32>)
    ensures
        r is Some <==> bytes@.len() == 4,
        r matches Some(v) ==> v == spec_i32_from_le_bytes(bytes@),
{
    match zerocopy::little_endian::I32::read_from_bytes(bytes) {
        Ok(v) => Some(v.get()),
        Err(_) => None,
    }
}

/// Decodes a little-endian `u64` record with `zerocopy::little_endian::U64::read_from_bytes`.
///
/// Trusted: the call fails exactly when the slice is not 8 bytes long, and
/// `U64::get` returns the little-endian value of the bytes.
#[verifier::external_body]
pub(crate) fn zc_read_u64(bytes: &[u8]) -> (r: Option<u64>)
    ensures
        r is Some <==> bytes@.len() == 8,
        r matches Some(v) ==> v == spec_u64_from_le_bytes(bytes@),
{
    match zerocopy::little_endian::U64::read_from_bytes(bytes) {
        Ok(v) => Some(v.get()),
        Err(_) => None,
    }
}

/// The `u32` that four bytes encode in big-endian order.
pub open spec fn spec_u32_from_be_bytes(s: Seq<u8>) -> u32 {
    spec_u32_from_le_bytes(seq![s[3], s[2], s[1], s[0]])
}

/// The `i32` that four bytes encode in big-endian order.
pub open spec fn spec_i32_from_be_bytes(s: Seq<u8>) -> i32 {
    spec_i32_from_le_bytes(seq![s[3], s[2], s[1], s[0]])
}

/// The `u16` that two bytes encode in big-endian order.
pub open spec fn spec_u16_from_be_bytes(s: Seq<u8>) -> u16 {
    spec_u16_from_le_bytes(seq![s[1], s[0]])
}

/// Decodes a big-endian `u32` record with `zerocopy::big_endian::U32::read_from_bytes`.
///
/// Trusted: the call fails exactly when the slice is not 4 bytes long, and
/// `U32::get` returns the big-endian value of the bytes.
#[verifier::external_body]
pub(crate) fn zc_read_u32_be(bytes: &[u8]) -> (r: Option<u32>)
    ensures
        r is Some <==> bytes@.len() == 4,
        r matches Some(v) ==> v == spec_u32_from_be_bytes(bytes@),
{
    match zerocopy::big_endian::U32::read_from_bytes(bytes) {
        Ok(v) => Some(v.get()),
        Err(_) => None,
    }
}

/// Decodes a big-endian `i32` record with `zerocopy::big_endian::I32::read_from_bytes`.
///
/// Trusted: the call fails exactly when the slice is not 4 bytes long, and
/// `I32::get` returns the two's-complement big-endian value of the bytes.
#[verifier::external_body]
pub(crate) fn zc_read_i32_be(bytes: &[u8]) -> (r: Option<i32>)
    ensures
        r is Some <==> bytes@.len() == 4,
        r matches Some(v) ==> v == spec_i32_from_be_bytes(bytes@),
{
    match zerocopy::big_endian::I32::read_from_bytes(bytes) {
        Ok(v) => Some(v.get()),
        Err(_) => None,
    }
}

/// Decodes a big-endian `u16` record with `zerocopy::big_endian::U16::read_from_bytes`.
///
/// Trusted: the call fails exactly when the slice is not 2 bytes long, and
/// `U16::get` returns the big-endian value of the bytes.
#[verifier::external_body]
pub(crate) fn zc_read_u16_be(bytes: &[u8]) -> (r: Option<u16>)
    ensures
        r is Some <==> bytes@.len() == 2,
        r matches Some(v) ==> v == spec_u16_from_be_bytes(bytes@),
{
    match zerocopy::big_endian::U16::read_from_bytes(bytes) {
        Ok(v) => Some(v.get()),
        Err(_) => None,
    }
}

/// Appends the little-endian encoding of `v` to `buf`.
pub fn push_u32_le(buf: &mut Vec<u8>, v: u32)
    ensures
        final(buf)@ == old(buf)@ + spec_u32_to_le_bytes(v),
{
    let b = vstd::bytes::u32_to_le_bytes(v);
    buf.push(b[0]);
    buf.push(b[1]);
    buf.push(b[2]);
    buf.push(b[3]);
    assert(final(buf)@ =~= old(buf)@ + spec_u32_to_le_bytes(v));
}

/// Appends the little-endian encoding of `v` to `buf`.
pub fn push_u64_le(buf: &mut Vec<u8>, v: u64)
    ensures
        final(buf)@ == old(buf)@ + spec_u64_to_le_bytes(v),
{
    let b = vstd::bytes::u64_to_le_bytes(v);
    let mut i: usize = 0;
    while i < 8
        invariant
            b@ == spec_u64_to_le_bytes(v),
            b@.len() == 8,
            0 <= i <= 8,
            buf@ =~= old(buf)@ + b@.subrange(0, i as int),
        decreases 8 - i,
    {
        buf.push(b[i]);
        i = i + 1;
    }
    assert(b@.subrange(0, 8) =~= b@);
}

/// `img` with the four bytes at `pos` replaced by the encoding of `v`.
pub open spec fn patched_u32(img: Seq<u8>, pos: int, v: u32) -> Seq<u8> {
    img.subrange(0, pos) + spec_u32_to_le_bytes(v) + img.subrange(pos + 4, img.len() as int)
}

/// Overwrites the four bytes at `pos` with the little-endian encoding of `v`.
pub fn patch_u32_le(buf: &mut Vec<u8>, pos: usize, v: u32)
    requires
        pos + 4 <= old(buf)@.len(),
    ensures
        final(buf)@ == patched_u32(old(buf)@, pos as int, v),
{
    let b = vstd::bytes::u32_to_le_bytes(v);
    assert(buf@.len() == buf.len());
    buf.set(pos, b[0]);
    buf.set(pos + 1, b[1]);
    buf.set(pos + 2, b[2]);
    buf.set(pos + 3, b[3]);
    assert(final(buf)@ =~= patched_u32(old(buf)@, pos as int, v));
}

/// Appends all of `data` to `buf`.
pub fn push_all(buf: &mut Vec<u8>, data: &[u8])
    ensures
        final(buf)@ == old(buf)@ + data@,
{
    let mut i: usize = 0;
    while i < data.len()
        invariant
            0 <= i <= data@.len(),
            buf@ =~= old(buf)@ + data@.subrange(0, i as int),
        decreases data@.len() - i,
    {
        buf.push(data[i]);
        i = i + 1;
    }
    assert(data@.subrange(0, data@.len() as int) =~= data@);
}

} // verus!
