//! BNK chunk structures.

use vstd::prelude::*;

use crate::bytes::{push_all, push_u32_le, spec_u32_to_le_bytes, zc_read_u32};
use crate::error::{Error, Result};
use crate::pck::string_map::u32_at;

verus! {

broadcast use crate::bytes::group_bytes;

/// BKHD (Bank Header) parsed fields.
#[derive(Debug, Clone)]
pub struct BankHeader {
    /// Wwise version (typically 0x71 for Halo Wars DE).
    pub version: u32,
    /// Unique soundbank ID.
    pub id: u32,
    /// Language ID (0 = SFX).
    pub language_id: u32,
    /// Feedback-in-bank flag.
    pub feedback_in_bank: u32,
    /// Project ID.
    pub project_id: u32,
    /// Any extra padding bytes after the standard 20-byte header.
    pub padding: Vec<u8>,
}

/// On-disk BKHD layout (first 20 bytes), as plain values.
#[derive(Debug, Clone, Copy)]
pub struct RawBankHeader {
    pub version: u32,
    pub id: u32,
    pub language_id: u32,
    pub feedback_in_bank: u32,
    pub project_id: u32,
}

/// The size of the fixed part of a BKHD chunk.
pub const RAW_BANK_HEADER_SIZE: usize = 20;

/// The bytes of a bank header: five little-endian fields, then the padding.
pub open spec fn bank_header_bytes(h: BankHeader) -> Seq<u8> {
    spec_u32_to_le_bytes(h.version) + spec_u32_to_le_bytes(h.id) + spec_u32_to_le_bytes(
        h.language_id,
    ) + spec_u32_to_le_bytes(h.feedback_in_bank) + spec_u32_to_le_bytes(h.project_id) + h.padding@
}

/// `h` is the header that the BKHD data `d` describes.
pub open spec fn bank_header_read_as(h: BankHeader, d: Seq<u8>) -> bool {
    &&& h.version == u32_at(d, 0)
    &&& h.id == u32_at(d, 4)
    &&& h.language_id == u32_at(d, 8)
    &&& h.feedback_in_bank == u32_at(d, 12)
    &&& h.project_id == u32_at(d, 16)
    &&& h.padding@ == d.subrange(20, d.len() as int)
}

/// The error for a BKHD chunk shorter than its fixed part.
pub open spec fn is_short_bkhd_error(e: Error) -> bool {
    e matches Error::InvalidChunk { tag, offset, .. } && tag@ == "BKHD"@ && offset == 0
}

/// The reason given for a short BKHD chunk.
#[verifier::external_body]
fn reason_short_header(need: usize, have: usize) -> String {
    format!("need {need} bytes, have {have}")
}

/// Copies a byte slice into a new vector.
pub(crate) fn copy_bytes(data: &[u8]) -> (v: Vec<u8>)
    ensures
        v@ == data@,
{
    let mut v: Vec<u8> = Vec::new();
    push_all(&mut v, data);
    v
}

impl BankHeader {
    /// Parse from BKHD chunk data.
    pub fn parse(data: &[u8]) -> (r: Result<Self>)
        ensures
            match r {
                Ok(h) => data@.len() >= 20 && bank_header_read_as(h, data@),
                Err(e) => data@.len() < 20 && is_short_bkhd_error(e),
            },
    {
        if data.len() < RAW_BANK_HEADER_SIZE {
            let tag = "BKHD".to_owned();
            proof {
                reveal_strlit("BKHD");
            }
            return Err(
                Error::InvalidChunk {
                    tag,
                    offset: 0,
                    reason: reason_short_header(RAW_BANK_HEADER_SIZE, data.len()),
                },
            );
        }
        let mut fields: [u32; 5] = [0; 5];
        let mut k: usize = 0;
        while k < 5
            invariant
                data@.len() >= 20,
                k <= 5,
                forall|j: int| 0 <= j < k ==> #[trigger] fields@[j] == u32_at(data@, 4 * j),
            decreases 5 - k,
        {
            let v = match zc_read_u32(&data[4 * k..4 * k + 4]) {
                Some(v) => v,
                None => {
                    return Err(Error::ZeroCopyCast { offset: 0, reason: String::new() });
                },
            };
            fields[k] = v;
            k = k + 1;
        }
        let padding = copy_bytes(&data[RAW_BANK_HEADER_SIZE..data.len()]);
        Ok(
            BankHeader {
                version: fields[0],
                id: fields[1],
                language_id: fields[2],
                feedback_in_bank: fields[3],
                project_id: fields[4],
                padding,
            },
        )
    }

    /// Whether feedback is enabled (affects HIRC NodeBaseParams parsing).
    pub fn has_feedback(&self) -> (b: bool)
        ensures
            b == (self.feedback_in_bank % 2 == 1),
    {
        let f = self.feedback_in_bank;
        assert((f & 1) == f % 2) by (bit_vector);
        (f & 1) != 0
    }

    /// Serialize to bytes (the BKHD chunk data, without the chunk header).
    pub fn to_bytes(&self) -> (buf: Vec<u8>)
        ensures
            buf@ == bank_header_bytes(*self),
    {
        let mut buf: Vec<u8> = Vec::new();
        push_u32_le(&mut buf, self.version);
        push_u32_le(&mut buf, self.id);
        push_u32_le(&mut buf, self.language_id);
        push_u32_le(&mut buf, self.feedback_in_bank);
        push_u32_le(&mut buf, self.project_id);
        push_all(&mut buf, self.padding.as_slice());
        buf
    }
}

impl Default for BankHeader {
    fn default() -> (h: Self)
        ensures
            h.version == 0 && h.id == 0 && h.language_id == 0 && h.feedback_in_bank == 0
                && h.project_id == 0 && h.padding@.len() == 0,
    {
        BankHeader {
            version: 0,
            id: 0,
            language_id: 0,
            feedback_in_bank: 0,
            project_id: 0,
            padding: Vec::new(),
        }
    }
}

/// Serializing a header and parsing the bytes gives the same header back.
pub proof fn lemma_bank_header_round_trip(h: BankHeader)
    ensures
        bank_header_bytes(h).len() >= 20,
        bank_header_read_as(h, bank_header_bytes(h)),
{
    let d = bank_header_bytes(h);
    assert(d.subrange(0, 4) =~= spec_u32_to_le_bytes(h.version));
    assert(d.subrange(4, 8) =~= spec_u32_to_le_bytes(h.id));
    assert(d.subrange(8, 12) =~= spec_u32_to_le_bytes(h.language_id));
    assert(d.subrange(12, 16) =~= spec_u32_to_le_bytes(h.feedback_in_bank));
    assert(d.subrange(16, 20) =~= spec_u32_to_le_bytes(h.project_id));
    assert(d.subrange(20, d.len() as int) =~= h.padding@);
}

/// Parsing BKHD data of at least 20 bytes and serializing the header gives
/// the data back.
pub proof fn lemma_bank_header_bytes_round_trip(h: BankHeader, d: Seq<u8>)
    requires
        d.len() >= 20,
        bank_header_read_as(h, d),
    ensures
        bank_header_bytes(h) == d,
{
    broadcast use crate::bytes::lemma_u32_from_le;

    assert(spec_u32_to_le_bytes(u32_at(d, 0)) == d.subrange(0, 4));
    assert(spec_u32_to_le_bytes(u32_at(d, 4)) == d.subrange(4, 8));
    assert(spec_u32_to_le_bytes(u32_at(d, 8)) == d.subrange(8, 12));
    assert(spec_u32_to_le_bytes(u32_at(d, 12)) == d.subrange(12, 16));
    assert(spec_u32_to_le_bytes(u32_at(d, 16)) == d.subrange(16, 20));
    assert(bank_header_bytes(h) =~= d);
}

/// DIDX media index entry (12 bytes each).
#[derive(Debug, Clone, Copy)]
pub struct MediaIndex {
    /// WEM source ID.
    pub id: u32,
    /// Offset within the DATA chunk.
    pub offset: u32,
    /// Size in bytes.
    pub size: u32,
}

/// The size of a DIDX entry.
pub const MEDIA_INDEX_SIZE: usize = 12;

/// `v` holds the DIDX entries of `d`: one per whole 12 bytes.
pub open spec fn media_index_read_as(v: Seq<MediaIndex>, d: Seq<u8>) -> bool {
    &&& v.len() == d.len() / 12
    &&& forall|i: int|
        0 <= i < v.len() ==> (#[trigger] v[i]).id == u32_at(d, 12 * i) && v[i].offset == u32_at(
            d,
            12 * i + 4,
        ) && v[i].size == u32_at(d, 12 * i + 8)
}

impl MediaIndex {
    /// Parse all DIDX entries from chunk data. Trailing bytes that do not
    /// make a whole entry are ignored.
    pub fn parse_all(data: &[u8]) -> (r: Result<Vec<Self>>)
        ensures
            r matches Ok(v) && media_index_read_as(v@, data@),
    {
        let count = data.len() / MEDIA_INDEX_SIZE;
        let mut entries: Vec<MediaIndex> = Vec::new();
        let mut i: usize = 0;
        while i < count
            invariant
                count == data@.len() / 12,
                i <= count,
                entries@.len() == i,
                forall|j: int|
                    0 <= j < i ==> (#[trigger] entries@[j]).id == u32_at(data@, 12 * j)
                        && entries@[j].offset == u32_at(data@, 12 * j + 4) && entries@[j].size
                        == u32_at(data@, 12 * j + 8),
            decreases count - i,
        {
            assert(12 * i + 12 <= data@.len()) by (nonlinear_arith)
                requires
                    i < count,
                    count == data@.len() / 12,
            ;
            assert(data@.len() == data.len());
            let offset = i * MEDIA_INDEX_SIZE;
            let id = vstd::bytes::u32_from_le_bytes(&data[offset..offset + 4]);
            let off = vstd::bytes::u32_from_le_bytes(&data[offset + 4..offset + 8]);
            let size = vstd::bytes::u32_from_le_bytes(&data[offset + 8..offset + 12]);
            entries.push(MediaIndex { id, offset: off, size });
            i = i + 1;
        }
        Ok(entries)
    }
}

/// A single embedded media entry (ID + owned data) for writing.
#[derive(Debug, Clone)]
pub struct MediaEntry {
    pub id: u32,
    pub data: Vec<u8>,
}

} // verus!
