//! BNK (Wwise soundbank) file format support.
//!
//! A BNK file is a sequence of tagged chunks:
//! ```text
//! [chunk_tag: u32][chunk_size: u32][chunk_data: [u8; chunk_size]]
//! ```
//!
//! Known chunk types:
//! - `BKHD` — Bank header (version, bank ID, language, project ID)
//! - `DIDX` — Data index (media ID → offset/size table)
//! - `DATA` — Embedded media data (WEM files)
//! - `HIRC` — Hierarchy (events, actions, sounds, containers)
//! - `STID` — String map (bank ID → name)
//! - `STMG` — State manager (global settings)
//! - `ENVS` — Environment settings
//! - `FXPR` — FX parameters
//! - `PLAT` — Platform-specific data
//! - `INIT` — Plugin initialization
use vstd::prelude::*;

pub mod chunks;
pub mod hirc;
pub mod media;
pub mod tags;

pub use chunks::{BankHeader, MediaEntry, MediaIndex, RawBankHeader};
pub use media::{MediaBuffers, MediaSlices};

use crate::bytes::{push_all, push_u32_le, spec_u32_to_le_bytes};
use crate::error::{Error, Result};
use crate::pck::string_map::u32_at;
use chunks::{
    bank_header_bytes, bank_header_read_as, copy_bytes, is_short_bkhd_error, lemma_bank_header_round_trip,
    media_index_read_as,
};
use crate::listing::{
    is_sorted_listing, lemma_listing_map, lemma_listing_map_full, lemma_sorted_entries_listing,
    lemma_sorted_listing_exists, listing_map, sort_by_id, sorted_listing, viewed,
};
use media::{media_buffer_entries, media_slice_entries};
use tags::{BKHD, DATA, DIDX, HIRC};

verus! {

broadcast use crate::bytes::group_bytes;

/// On-disk chunk header, as plain values.
#[derive(Debug, Clone, Copy)]
pub struct ChunkHeader {
    pub tag: u32,
    pub size: u32,
}

/// The size of a chunk header.
pub const CHUNK_HEADER_SIZE: usize = 8;

// ── Chunk model ──

/// The chunks read from offset `c` on, as (tag, data start, data end), and
/// the offset where reading stops: where fewer than 8 bytes remain, or where
/// a chunk's data would run past the end.
pub open spec fn chunk_walk(d: Seq<u8>, c: int) -> (Seq<(u32, int, int)>, int)
    decreases d.len() - c,
{
    if c < 0 || c + 8 > d.len() {
        (Seq::empty(), c)
    } else {
        let end = c + 8 + u32_at(d, c + 4);
        if end > d.len() {
            (Seq::empty(), c)
        } else {
            let r = chunk_walk(d, end);
            (seq![(u32_at(d, c), c + 8, end)] + r.0, r.1)
        }
    }
}

/// The chunks of a soundbank.
pub open spec fn bnk_chunks(d: Seq<u8>) -> Seq<(u32, int, int)> {
    chunk_walk(d, 0).0
}

/// Where reading the chunks of a soundbank stops.
pub open spec fn bnk_stop(d: Seq<u8>) -> int {
    chunk_walk(d, 0).1
}

/// The data of a chunk.
pub open spec fn chunk_data(d: Seq<u8>, c: (u32, int, int)) -> Seq<u8> {
    d.subrange(c.1, c.2)
}

/// Every BKHD chunk among the first `k` holds the 20-byte fixed part.
pub open spec fn bkhd_chunks_ok(cs: Seq<(u32, int, int)>, k: int) -> bool {
    forall|i: int| 0 <= i < k && (#[trigger] cs[i]).0 == BKHD ==> cs[i].2 - cs[i].1 >= 20
}

/// A soundbank parses: its BKHD chunks are whole, and reading does not stop
/// at a chunk whose data runs past the end.
pub open spec fn bnk_ok(d: Seq<u8>) -> bool {
    &&& bkhd_chunks_ok(bnk_chunks(d), bnk_chunks(d).len() as int)
    &&& bnk_stop(d) + 8 > d.len()
}

/// The error that parsing a soundbank that does not parse reports.
pub open spec fn bnk_error(d: Seq<u8>, e: Error) -> bool {
    if !bkhd_chunks_ok(bnk_chunks(d), bnk_chunks(d).len() as int) {
        is_short_bkhd_error(e)
    } else {
        e == (Error::UnexpectedEof {
            offset: bnk_stop(d) as u64,
            needed: (8 + u32_at(d, bnk_stop(d) + 4)) as u64,
            available: (d.len() - bnk_stop(d)) as u64,
        })
    }
}

/// The index of the last chunk with `tag` among the first `k`, or -1.
pub open spec fn last_chunk_with(cs: Seq<(u32, int, int)>, tag: u32, k: int) -> int
    decreases k,
{
    if k <= 0 {
        -1
    } else if cs[k - 1].0 == tag {
        k - 1
    } else {
        last_chunk_with(cs, tag, k - 1)
    }
}

/// The DIDX data in force after the first `k` chunks: that of the last DIDX
/// chunk among them, or nothing.
pub open spec fn index_after(d: Seq<u8>, cs: Seq<(u32, int, int)>, k: int) -> Seq<u8> {
    let j = last_chunk_with(cs, DIDX, k);
    if j < 0 {
        Seq::empty()
    } else {
        chunk_data(d, cs[j])
    }
}

/// `m` after the first `k` DIDX entries of `idx` are looked up in the DATA
/// chunk `data`: each entry whose range lies inside the data sets its ID to
/// that range.
pub open spec fn apply_index(m: Map<u32, Seq<u8>>, idx: Seq<u8>, data: Seq<u8>, k: int) -> Map<
    u32,
    Seq<u8>,
>
    decreases k,
{
    if k <= 0 {
        m
    } else {
        let prev = apply_index(m, idx, data, k - 1);
        let id = u32_at(idx, 12 * (k - 1));
        let offset = u32_at(idx, 12 * (k - 1) + 4);
        let size = u32_at(idx, 12 * (k - 1) + 8);
        if offset + size <= data.len() {
            prev.insert(id, data.subrange(offset as int, offset + size))
        } else {
            prev
        }
    }
}

/// The media found after the first `k` chunks: each DATA chunk is read with
/// the DIDX data in force before it.
pub open spec fn media_after(d: Seq<u8>, cs: Seq<(u32, int, int)>, k: int) -> Map<u32, Seq<u8>>
    decreases k,
{
    if k <= 0 {
        Map::empty()
    } else {
        let m = media_after(d, cs, k - 1);
        if cs[k - 1].0 == DATA {
            let idx = index_after(d, cs, k - 1);
            apply_index(m, idx, chunk_data(d, cs[k - 1]), idx.len() as int / 12)
        } else {
            m
        }
    }
}

/// The header after the first `k` chunks: that of the last BKHD chunk, or
/// all zeros.
pub open spec fn header_after(h: BankHeader, d: Seq<u8>, cs: Seq<(u32, int, int)>, k: int) -> bool {
    let j = last_chunk_with(cs, BKHD, k);
    if j < 0 {
        h.version == 0 && h.id == 0 && h.language_id == 0 && h.feedback_in_bank == 0
            && h.project_id == 0 && h.padding@.len() == 0
    } else {
        bank_header_read_as(h, chunk_data(d, cs[j]))
    }
}

/// The HIRC data after the first `k` chunks: that of the last HIRC chunk.
pub open spec fn hirc_after(h: Option<Seq<u8>>, d: Seq<u8>, cs: Seq<(u32, int, int)>, k: int) -> bool {
    let j = last_chunk_with(cs, HIRC, k);
    if j < 0 {
        h is None
    } else {
        h == Some(chunk_data(d, cs[j]))
    }
}

/// The chunks of a soundbank as (tag, data).
pub open spec fn chunk_views(d: Seq<u8>) -> Seq<(u32, Seq<u8>)> {
    bnk_chunks(d).map_values(|c: (u32, int, int)| (c.0, chunk_data(d, c)))
}

/// The bytes of a sequence of chunks: each tag, data length and data.
pub open spec fn chunks_bytes(cs: Seq<(u32, Seq<u8>)>) -> Seq<u8>
    decreases cs.len(),
{
    if cs.len() == 0 {
        Seq::empty()
    } else {
        chunks_bytes(cs.drop_last()) + spec_u32_to_le_bytes(cs.last().0) + spec_u32_to_le_bytes(
            cs.last().1.len() as u32,
        ) + cs.last().1
    }
}

/// A parsed Wwise SoundBank.
#[derive(Debug)]
pub struct SoundBank<'a> {
    /// Bank header fields.
    pub header: BankHeader,
    /// Embedded media: source ID → WEM data slice.
    pub media: MediaSlices<'a>,
    /// HIRC chunk raw data (preserved for round-tripping).
    pub hirc_data: Option<&'a [u8]>,
    /// All chunks in order, for round-trip serialization. Known chunks are
    /// also parsed above.
    pub chunks: Vec<Chunk<'a>>,
}

/// A raw chunk reference.
#[derive(Debug, Clone)]
pub struct Chunk<'a> {
    pub tag: u32,
    pub data: &'a [u8],
}

/// Chunks as (tag, data).
pub open spec fn chunk_list(chunks: Seq<Chunk>) -> Seq<(u32, Seq<u8>)> {
    chunks.map_values(|c: Chunk| (c.tag, c.data@))
}

/// `b` holds what the soundbank `d` describes.
pub open spec fn bank_read_as(b: SoundBank, d: Seq<u8>) -> bool {
    let cs = bnk_chunks(d);
    let n = cs.len() as int;
    &&& header_after(b.header, d, cs, n)
    &&& media_slice_entries(b.media) == media_after(d, cs, n)
    &&& hirc_after(
        match b.hirc_data {
            Some(h) => Some(h@),
            None => None,
        },
        d,
        cs,
        n,
    )
    &&& chunk_list(b.chunks@) == chunk_views(d)
}

proof fn lemma_walk_step(d: Seq<u8>, c: int)
    requires
        0 <= c,
        c + 8 <= d.len(),
        c + 8 + u32_at(d, c + 4) <= d.len(),
    ensures
        chunk_walk(d, c).0 == seq![(u32_at(d, c), c + 8, c + 8 + u32_at(d, c + 4))] + chunk_walk(
            d,
            c + 8 + u32_at(d, c + 4),
        ).0,
        chunk_walk(d, c).1 == chunk_walk(d, c + 8 + u32_at(d, c + 4)).1,
{
}

/// The chunks read from offset `c` on, as (tag, data).
pub open spec fn walk_views(d: Seq<u8>, c: int) -> Seq<(u32, Seq<u8>)> {
    chunk_walk(d, c).0.map_values(|x: (u32, int, int)| (x.0, chunk_data(d, x)))
}

proof fn lemma_chunks_bytes_concat(a: Seq<(u32, Seq<u8>)>, b: Seq<(u32, Seq<u8>)>)
    ensures
        chunks_bytes(a + b) == chunks_bytes(a) + chunks_bytes(b),
    decreases b.len(),
{
    if b.len() == 0 {
        assert(a + b =~= a);
        assert(chunks_bytes(a) + chunks_bytes(b) =~= chunks_bytes(a));
    } else {
        lemma_chunks_bytes_concat(a, b.drop_last());
        assert((a + b).drop_last() =~= a + b.drop_last());
        assert(chunks_bytes(a + b) =~= chunks_bytes(a) + chunks_bytes(b));
    }
}

proof fn lemma_walk_bytes(d: Seq<u8>, c: int)
    requires
        0 <= c <= d.len(),
    ensures
        c <= chunk_walk(d, c).1 <= d.len(),
        chunks_bytes(walk_views(d, c)) == d.subrange(c, chunk_walk(d, c).1),
    decreases d.len() - c,
{
    broadcast use crate::bytes::lemma_u32_from_le;

    if c + 8 <= d.len() && c + 8 + u32_at(d, c + 4) <= d.len() {
        let size = u32_at(d, c + 4);
        let end = c + 8 + size;
        lemma_walk_bytes(d, end);
        let head = (u32_at(d, c), d.subrange(c + 8, end));
        assert(walk_views(d, c) =~= seq![head] + walk_views(d, end));
        lemma_chunks_bytes_concat(seq![head], walk_views(d, end));
        assert(seq![head].drop_last() =~= Seq::<(u32, Seq<u8>)>::empty());
        assert(spec_u32_to_le_bytes(u32_at(d, c)) == d.subrange(c, c + 4));
        assert(spec_u32_to_le_bytes(size) == d.subrange(c + 4, c + 8));
        assert(head.1.len() == size);
        assert(chunks_bytes(seq![head]) == chunks_bytes(Seq::<(u32, Seq<u8>)>::empty()) + spec_u32_to_le_bytes(head.0) + spec_u32_to_le_bytes(head.1.len() as u32) + head.1);
        assert(chunks_bytes(seq![head]) =~= d.subrange(c, end));
        assert(chunks_bytes(walk_views(d, c)) =~= d.subrange(c, chunk_walk(d, c).1));
    } else {
        assert(walk_views(d, c) =~= Seq::<(u32, Seq<u8>)>::empty());
        assert(d.subrange(c, c) =~= Seq::<u8>::empty());
    }
}

/// Serializing a parsed soundbank gives back the bytes it was parsed from,
/// up to where parsing stopped: everything but a tail shorter than a chunk
/// header.
pub proof fn lemma_soundbank_round_trip(b: SoundBank, d: Seq<u8>)
    requires
        bnk_ok(d),
        bank_read_as(b, d),
    ensures
        chunks_bytes(chunk_list(b.chunks@)) == d.subrange(0, bnk_stop(d)),
        d.len() - bnk_stop(d) < 8,
{
    lemma_walk_bytes(d, 0);
    assert(walk_views(d, 0) =~= chunk_views(d));
}

/// Looks up each DIDX entry in a DATA chunk and records the media found.
fn apply_media_index<'a>(media: &mut MediaSlices<'a>, index: &Vec<MediaIndex>, chunk: &'a [u8], Ghost(idx): Ghost<Seq<u8>>)
    requires
        media_index_read_as(index@, idx),
    ensures
        media_slice_entries(*final(media)) == apply_index(
            media_slice_entries(*old(media)),
            idx,
            chunk@,
            idx.len() as int / 12,
        ),
{
    let mut j: usize = 0;
    while j < index.len()
        invariant
            media_index_read_as(index@, idx),
            j <= index@.len(),
            media_slice_entries(*media) == apply_index(
                media_slice_entries(*old(media)),
                idx,
                chunk@,
                j as int,
            ),
        decreases index@.len() - j,
    {
        let entry = index[j];
        let start = entry.offset as u64;
        let end = start + entry.size as u64;
        if end <= chunk.len() as u64 {
            media.insert(entry.id, &chunk[start as usize..end as usize]);
        }
        j = j + 1;
    }
}

impl<'a> SoundBank<'a> {
    /// Parse a soundbank from a byte slice.
    pub fn parse(data: &'a [u8]) -> (r: Result<Self>)
        ensures
            match r {
                Ok(b) => bnk_ok(data@) && bank_read_as(b, data@),
                Err(e) => !bnk_ok(data@) && bnk_error(data@, e),
            },
    {
        let ghost d = data@;
        let ghost cs = bnk_chunks(d);
        let mut header = BankHeader::default();
        let mut media_index: Vec<MediaIndex> = Vec::new();
        let mut media = MediaSlices::new();
        let mut hirc_data: Option<&'a [u8]> = None;
        let mut chunks: Vec<Chunk<'a>> = Vec::new();
        let mut cursor: usize = 0;
        proof {
            assert(cs.subrange(0, cs.len() as int) =~= cs);
            assert(media_slice_entries(media) =~= media_after(d, cs, 0));
            assert(media_index_read_as(media_index@, index_after(d, cs, 0)));
        }
        while data.len() - cursor >= CHUNK_HEADER_SIZE
            invariant
                d == data@,
                cs == bnk_chunks(d),
                cursor <= d.len(),
                chunks@.len() <= cs.len(),
                chunk_walk(d, cursor as int).0 == cs.subrange(chunks@.len() as int, cs.len() as int),
                chunk_walk(d, cursor as int).1 == bnk_stop(d),
                forall|i: int| 0 <= i < chunks@.len() ==> (#[trigger] chunks@[i]).tag == cs[i].0
                    && chunks@[i].data@ == chunk_data(d, cs[i]),
                bkhd_chunks_ok(cs, chunks@.len() as int),
                header_after(header, d, cs, chunks@.len() as int),
                media_index_read_as(media_index@, index_after(d, cs, chunks@.len() as int)),
                media_slice_entries(media) == media_after(d, cs, chunks@.len() as int),
                hirc_after(
                    match hirc_data {
                        Some(h) => Some(h@),
                        None => None,
                    },
                    d,
                    cs,
                    chunks@.len() as int,
                ),
            decreases d.len() - cursor,
        {
            let ghost k = chunks@.len() as int;
            let tag = vstd::bytes::u32_from_le_bytes(&data[cursor..cursor + 4]);
            let size = vstd::bytes::u32_from_le_bytes(&data[cursor + 4..cursor + 8]);
            let chunk_start = cursor + CHUNK_HEADER_SIZE;
            if size as u64 > (data.len() - chunk_start) as u64 {
                return Err(
                    Error::UnexpectedEof {
                        offset: cursor as u64,
                        needed: (CHUNK_HEADER_SIZE as u64 + size as u64),
                        available: (data.len() - cursor) as u64,
                    },
                );
            }
            let chunk_end = chunk_start + size as usize;
            proof {
                lemma_walk_step(d, cursor as int);
                let w = chunk_walk(d, cursor as int).0;
                assert(tag == u32_at(d, cursor as int));
                assert(size == u32_at(d, cursor + 4));
                assert(w == seq![(tag, chunk_start as int, chunk_end as int)] + chunk_walk(d, chunk_end as int).0);
                assert(w[0] == (tag, chunk_start as int, chunk_end as int));
                assert(w[0] == cs[k]);
                assert(w.drop_first() =~= chunk_walk(d, chunk_end as int).0);
                assert(w.drop_first() =~= cs.subrange(k + 1, cs.len() as int));
            }
            let chunk_data = &data[chunk_start..chunk_end];
            chunks.push(Chunk { tag, data: chunk_data });
            if tag == tags::BKHD {
                header = match BankHeader::parse(chunk_data) {
                    Ok(h) => h,
                    Err(e) => {
                        proof {
                            assert(!bkhd_chunks_ok(cs, cs.len() as int)) by {
                                assert(cs[k].0 == BKHD);
                            }
                        }
                        return Err(e);
                    },
                };
            } else if tag == tags::DIDX {
                media_index = match MediaIndex::parse_all(chunk_data) {
                    Ok(v) => v,
                    Err(e) => {
                        return Err(e);
                    },
                };
            } else if tag == tags::DATA {
                apply_media_index(&mut media, &media_index, chunk_data, Ghost(index_after(d, cs, k)));
            } else if tag == tags::HIRC {
                hirc_data = Some(chunk_data);
            }
            cursor = chunk_end;
        }
        proof {
            let k = chunks@.len() as int;
            assert(chunk_walk(d, cursor as int).0 =~= Seq::<(u32, int, int)>::empty());
            assert(k == cs.len());
            assert(chunk_list(chunks@) =~= chunk_views(d));
        }
        Ok(SoundBank { header, media, hirc_data, chunks })
    }

    /// Find embedded media by source ID.
    pub fn find_media(&self, source_id: u32) -> (r: Option<&'a [u8]>)
        ensures
            match r {
                Some(m) => media_slice_entries(self.media).contains_key(source_id)
                    && media_slice_entries(self.media)[source_id] == m@,
                None => !media_slice_entries(self.media).contains_key(source_id),
            },
    {
        self.media.get(source_id)
    }

    /// Serialize the soundbank back to bytes: the chunks in the order they
    /// were parsed.
    pub fn to_bytes(&self) -> (buf: Vec<u8>)
        ensures
            buf@ == chunks_bytes(chunk_list(self.chunks@)),
    {
        let mut buf: Vec<u8> = Vec::new();
        let mut i: usize = 0;
        while i < self.chunks.len()
            invariant
                i <= self.chunks@.len(),
                buf@ == chunks_bytes(chunk_list(self.chunks@).subrange(0, i as int)),
            decreases self.chunks@.len() - i,
        {
            let chunk = &self.chunks[i];
            push_u32_le(&mut buf, chunk.tag);
            push_u32_le(&mut buf, chunk.data.len() as u32);
            push_all(&mut buf, chunk.data);
            proof {
                let sub = chunk_list(self.chunks@).subrange(0, i + 1);
                assert(sub.drop_last() =~= chunk_list(self.chunks@).subrange(0, i as int));
            }
            i = i + 1;
        }
        assert(chunk_list(self.chunks@).subrange(0, self.chunks@.len() as int) =~= chunk_list(
            self.chunks@,
        ));
        buf
    }
}

// ── Owned soundbanks ──

/// An owned soundbank that supports media replacement and re-serialization.
#[derive(Debug)]
pub struct SoundBankOwned {
    /// Bank header.
    pub header: BankHeader,
    /// Embedded media: source ID → owned WEM data.
    pub media: MediaBuffers,
    /// HIRC chunk raw data.
    pub hirc_data: Option<Vec<u8>>,
    /// All chunks in the order they were read: (tag, owned data). DIDX, DATA and BKHD
    /// are regenerated on write.
    pub chunks: Vec<OwnedChunk>,
}

/// An owned chunk.
#[derive(Debug, Clone)]
pub struct OwnedChunk {
    pub tag: u32,
    pub data: Vec<u8>,
}

/// Owned chunks as (tag, data).
pub open spec fn owned_chunk_list(chunks: Seq<OwnedChunk>) -> Seq<(u32, Seq<u8>)> {
    chunks.map_values(|c: OwnedChunk| (c.tag, c.data@))
}

/// The total size of the media of a listing's first `k` entries.
pub open spec fn media_size_before(s: Seq<(u32, Seq<u8>)>, k: int) -> int
    decreases k,
{
    if k <= 0 {
        0
    } else {
        media_size_before(s, k - 1) + s[k - 1].1.len()
    }
}

/// The DIDX entries of the first `k` entries of a listing: ID, offset in
/// the DATA chunk, size.
pub open spec fn didx_bytes(s: Seq<(u32, Seq<u8>)>, k: int) -> Seq<u8>
    decreases k,
{
    if k <= 0 {
        Seq::empty()
    } else {
        didx_bytes(s, k - 1) + spec_u32_to_le_bytes(s[k - 1].0) + spec_u32_to_le_bytes(
            media_size_before(s, k - 1) as u32,
        ) + spec_u32_to_le_bytes(s[k - 1].1.len() as u32)
    }
}

/// The DATA bytes of the first `k` entries of a listing: their media, one
/// after another.
pub open spec fn data_bytes(s: Seq<(u32, Seq<u8>)>, k: int) -> Seq<u8>
    decreases k,
{
    if k <= 0 {
        Seq::empty()
    } else {
        data_bytes(s, k - 1) + s[k - 1].1
    }
}

/// The media of an owned bank in increasing ID order.
pub open spec fn owned_media_listing(b: SoundBankOwned) -> Seq<(u32, Seq<u8>)> {
    sorted_listing(media_buffer_entries(b.media))
}

/// The media of an owned bank fits the 32-bit offsets of a DIDX chunk.
pub open spec fn owned_media_fits(b: SoundBankOwned) -> bool {
    let s = owned_media_listing(b);
    media_size_before(s, s.len() as int) <= u32::MAX
}

/// The chunk written for an owned chunk: DIDX and DATA from the media, BKHD
/// from the header, any other chunk as it is.
pub open spec fn owned_chunk_out(b: SoundBankOwned, c: OwnedChunk) -> (u32, Seq<u8>) {
    let s = owned_media_listing(b);
    if c.tag == DIDX {
        (DIDX, didx_bytes(s, s.len() as int))
    } else if c.tag == DATA {
        (DATA, data_bytes(s, s.len() as int))
    } else if c.tag == BKHD {
        (BKHD, bank_header_bytes(b.header))
    } else {
        (c.tag, c.data@)
    }
}

/// The bytes of an owned bank.
pub open spec fn owned_bytes(b: SoundBankOwned) -> Seq<u8> {
    chunks_bytes(b.chunks@.map_values(|c: OwnedChunk| owned_chunk_out(b, c)))
}

/// An exact copy of a header.
fn copy_header(h: &BankHeader) -> (r: BankHeader)
    ensures
        r.version == h.version && r.id == h.id && r.language_id == h.language_id
            && r.feedback_in_bank == h.feedback_in_bank && r.project_id == h.project_id
            && r.padding@ == h.padding@,
{
    BankHeader {
        version: h.version,
        id: h.id,
        language_id: h.language_id,
        feedback_in_bank: h.feedback_in_bank,
        project_id: h.project_id,
        padding: copy_bytes(h.padding.as_slice()),
    }
}

impl SoundBankOwned {
    /// Create an owned copy from a borrowed soundbank.
    pub fn from_borrowed(bank: &SoundBank<'_>) -> (r: Self)
        ensures
            r.header.version == bank.header.version && r.header.id == bank.header.id
                && r.header.language_id == bank.header.language_id
                && r.header.feedback_in_bank == bank.header.feedback_in_bank
                && r.header.project_id == bank.header.project_id && r.header.padding@
                == bank.header.padding@,
            media_buffer_entries(r.media) == media_slice_entries(bank.media),
            match (r.hirc_data, bank.hirc_data) {
                (Some(a), Some(b)) => a@ == b@,
                (None, None) => true,
                _ => false,
            },
            owned_chunk_list(r.chunks@) == chunk_list(bank.chunks@),
    {
        let ghost m = media_slice_entries(bank.media);
        let entries = bank.media.entries();
        let sorted = sort_by_id(entries);
        let ghost s = viewed(sorted@);
        proof {
            lemma_sorted_entries_listing(entries@, sorted@, m);
            lemma_listing_map(s, s.len() as int);
            lemma_listing_map_full(s, m);
        }
        let mut media = MediaBuffers::new();
        let mut i: usize = 0;
        proof {
            assert(media_buffer_entries(media) =~= listing_map(s, 0));
        }
        while i < sorted.len()
            invariant
                s == viewed(sorted@),
                i <= sorted@.len(),
                media_buffer_entries(media) == listing_map(s, i as int),
            decreases sorted@.len() - i,
        {
            let (id, data) = sorted[i];
            media.insert(id, copy_bytes(data));
            i = i + 1;
        }
        let hirc_data = match bank.hirc_data {
            Some(d) => Some(copy_bytes(d)),
            None => None,
        };
        let mut chunks: Vec<OwnedChunk> = Vec::new();
        let mut k: usize = 0;
        while k < bank.chunks.len()
            invariant
                k <= bank.chunks@.len(),
                chunks@.len() == k,
                forall|j: int| 0 <= j < k ==> (#[trigger] chunks@[j]).tag == bank.chunks@[j].tag
                    && chunks@[j].data@ == bank.chunks@[j].data@,
            decreases bank.chunks@.len() - k,
        {
            let c = &bank.chunks[k];
            chunks.push(OwnedChunk { tag: c.tag, data: copy_bytes(c.data) });
            k = k + 1;
        }
        assert(owned_chunk_list(chunks@) =~= chunk_list(bank.chunks@));
        SoundBankOwned { header: copy_header(&bank.header), media, hirc_data, chunks }
    }

    /// Replace embedded media for a given source ID. Returns whether the ID
    /// had media; media is only replaced, never added.
    pub fn replace_media(&mut self, source_id: u32, data: Vec<u8>) -> (replaced: bool)
        ensures
            replaced == media_buffer_entries(old(self).media).contains_key(source_id),
            media_buffer_entries(final(self).media) == (if replaced {
                media_buffer_entries(old(self).media).insert(source_id, data@)
            } else {
                media_buffer_entries(old(self).media)
            }),
            final(self).header == old(self).header,
            final(self).hirc_data == old(self).hirc_data,
            final(self).chunks == old(self).chunks,
    {
        if self.media.contains_key(source_id) {
            self.media.insert(source_id, data);
            true
        } else {
            false
        }
    }

    /// The media in increasing ID order.
    fn sorted_media(&self) -> (v: Vec<(u32, &Vec<u8>)>)
        ensures
            viewed(v@) == owned_media_listing(*self),
    {
        let entries = self.media.entries();
        let sorted = sort_by_id(entries);
        proof {
            lemma_sorted_entries_listing(entries@, sorted@, media_buffer_entries(self.media));
        }
        sorted
    }

    /// The DIDX chunk data: for each media in increasing ID order, its ID,
    /// its offset in the DATA chunk and its size.
    fn build_didx(&self) -> (didx: Vec<u8>)
        requires
            owned_media_fits(*self),
        ensures
            didx@ == didx_bytes(owned_media_listing(*self), owned_media_listing(*self).len() as int),
    {
        let sorted = self.sorted_media();
        let ghost s = owned_media_listing(*self);
        let mut didx: Vec<u8> = Vec::new();
        let mut offset: u32 = 0;
        let mut i: usize = 0;
        while i < sorted.len()
            invariant
                s == viewed(sorted@),
                media_size_before(s, s.len() as int) <= u32::MAX,
                i <= sorted@.len(),
                offset == media_size_before(s, i as int),
                didx@ == didx_bytes(s, i as int),
            decreases sorted@.len() - i,
        {
            proof {
                lemma_media_size_monotone(s, i + 1, s.len() as int);
            }
            let (id, data) = sorted[i];
            let size = data.len() as u32;
            push_u32_le(&mut didx, id);
            push_u32_le(&mut didx, offset);
            push_u32_le(&mut didx, size);
            offset = offset + size;
            i = i + 1;
        }
        didx
    }

    /// The DATA chunk data: the media in increasing ID order, one after
    /// another.
    fn build_data(&self) -> (data: Vec<u8>)
        ensures
            data@ == data_bytes(owned_media_listing(*self), owned_media_listing(*self).len() as int),
    {
        let sorted = self.sorted_media();
        let ghost s = owned_media_listing(*self);
        let mut data: Vec<u8> = Vec::new();
        let mut i: usize = 0;
        while i < sorted.len()
            invariant
                s == viewed(sorted@),
                i <= sorted@.len(),
                data@ == data_bytes(s, i as int),
            decreases sorted@.len() - i,
        {
            let (_, media) = sorted[i];
            push_all(&mut data, media.as_slice());
            i = i + 1;
        }
        data
    }

    /// Serialize to bytes, regenerating DIDX and DATA from the current media
    /// and BKHD from the header.
    pub fn to_bytes(&self) -> (buf: Vec<u8>)
        requires
            owned_media_fits(*self),
        ensures
            buf@ == owned_bytes(*self),
    {
        let ghost outs = self.chunks@.map_values(|c: OwnedChunk| owned_chunk_out(*self, c));
        let mut buf: Vec<u8> = Vec::new();
        let mut i: usize = 0;
        while i < self.chunks.len()
            invariant
                owned_media_fits(*self),
                outs == self.chunks@.map_values(|c: OwnedChunk| owned_chunk_out(*self, c)),
                i <= self.chunks@.len(),
                buf@ == chunks_bytes(outs.subrange(0, i as int)),
            decreases self.chunks@.len() - i,
        {
            let chunk = &self.chunks[i];
            let ghost prev = buf@;
            if chunk.tag == tags::DIDX {
                let didx = self.build_didx();
                push_u32_le(&mut buf, tags::DIDX);
                push_u32_le(&mut buf, didx.len() as u32);
                push_all(&mut buf, didx.as_slice());
            } else if chunk.tag == tags::DATA {
                let data = self.build_data();
                push_u32_le(&mut buf, tags::DATA);
                push_u32_le(&mut buf, data.len() as u32);
                push_all(&mut buf, data.as_slice());
            } else if chunk.tag == tags::BKHD {
                let hdr = self.header.to_bytes();
                push_u32_le(&mut buf, tags::BKHD);
                push_u32_le(&mut buf, hdr.len() as u32);
                push_all(&mut buf, hdr.as_slice());
            } else {
                push_u32_le(&mut buf, chunk.tag);
                push_u32_le(&mut buf, chunk.data.len() as u32);
                push_all(&mut buf, chunk.data.as_slice());
            }
            proof {
                let sub = outs.subrange(0, i + 1);
                assert(sub.drop_last() =~= outs.subrange(0, i as int));
                assert(sub.last() == owned_chunk_out(*self, self.chunks@[i as int]));
            }
            i = i + 1;
        }
        assert(outs.subrange(0, self.chunks@.len() as int) =~= outs);
        buf
    }
}

proof fn lemma_media_size_monotone(s: Seq<(u32, Seq<u8>)>, i: int, j: int)
    requires
        0 <= i <= j,
    ensures
        media_size_before(s, i) <= media_size_before(s, j),
    decreases j - i,
{
    if i < j {
        lemma_media_size_monotone(s, i, j - 1);
    }
}


// ── Writing an owned bank and reading it again ──

/// The chunks that writing an owned bank produces.
pub open spec fn owned_chunks_out(b: SoundBankOwned) -> Seq<(u32, Seq<u8>)> {
    b.chunks@.map_values(|c: OwnedChunk| owned_chunk_out(b, c))
}

/// Every chunk's data length fits the 32-bit size field.
pub open spec fn chunks_fit(cs: Seq<(u32, Seq<u8>)>) -> bool {
    forall|i: int| 0 <= i < cs.len() ==> (#[trigger] cs[i]).1.len() <= u32::MAX
}

/// The chunks hold exactly one DIDX chunk and one DATA chunk, the DIDX
/// chunk first.
pub open spec fn one_index_before_data(cs: Seq<OwnedChunk>) -> bool {
    exists|i: int, j: int|
        0 <= i < j < cs.len() && cs[i].tag == DIDX && cs[j].tag == DATA && (forall|k: int|
            0 <= k < cs.len() ==> (#[trigger] cs[k].tag == DIDX ==> k == i) && (cs[k].tag == DATA ==> k == j))
}

/// Reading chunks written after `pre` gives them back, and stops at the end.
proof fn lemma_walk_written(pre: Seq<u8>, l: Seq<(u32, Seq<u8>)>)
    requires
        chunks_fit(l),
    ensures
        ({
            let d = pre + chunks_bytes(l);
            let w = chunk_walk(d, pre.len() as int);
            &&& w.1 == d.len()
            &&& w.0.len() == l.len()
            &&& forall|i: int|
                0 <= i < l.len() ==> (#[trigger] w.0[i]).0 == l[i].0 && chunk_data(d, w.0[i]) == l[i].1
                    && 0 <= w.0[i].1 && w.0[i].1 + l[i].1.len() == w.0[i].2 && w.0[i].2 <= d.len()
        }),
    decreases l.len(),
{
    let d = pre + chunks_bytes(l);
    let c = pre.len() as int;
    if l.len() == 0 {
        assert(d =~= pre);
    } else {
        let h = l[0];
        let rest = l.drop_first();
        assert(l =~= seq![h] + rest);
        lemma_chunks_bytes_concat(seq![h], rest);
        assert(seq![h].drop_last() =~= Seq::<(u32, Seq<u8>)>::empty());
        let hb = spec_u32_to_le_bytes(h.0) + spec_u32_to_le_bytes(h.1.len() as u32) + h.1;
        assert(chunks_bytes(seq![h]) =~= hb) by {
            reveal_with_fuel(chunks_bytes, 2);
            assert(seq![h].last() == h);
        }
        let pre2 = pre + hb;
        assert(d =~= pre2 + chunks_bytes(rest));
        assert(chunks_fit(rest)) by {
            assert forall|i: int| 0 <= i < rest.len() implies (#[trigger] rest[i]).1.len() <= u32::MAX by {
                assert(rest[i] == l[i + 1]);
            }
        }
        lemma_walk_written(pre2, rest);
        assert(h.1.len() <= u32::MAX);
        assert(d.subrange(c, c + 4) =~= spec_u32_to_le_bytes(h.0));
        assert(d.subrange(c + 4, c + 8) =~= spec_u32_to_le_bytes(h.1.len() as u32));
        assert(u32_at(d, c) == h.0);
        assert(u32_at(d, c + 4) == h.1.len());
        let end = c + 8 + h.1.len();
        assert(end == pre2.len());
        lemma_walk_step(d, c);
        let w = chunk_walk(d, c);
        let w2 = chunk_walk(d, end);
        assert forall|i: int| 0 <= i < l.len() implies (#[trigger] w.0[i]).0 == l[i].0 && chunk_data(
            d,
            w.0[i],
        ) == l[i].1 && 0 <= w.0[i].1 && w.0[i].1 + l[i].1.len() == w.0[i].2 && w.0[i].2 <= d.len() by {
            if i == 0 {
                assert(w.0[0] == (h.0, c + 8, end));
                assert(d.subrange(c + 8, end) =~= h.1);
            } else {
                assert(w.0[i] == w2.0[i - 1]);
                assert(l[i] == rest[i - 1]);
            }
        }
    }
}

proof fn lemma_didx_len(s: Seq<(u32, Seq<u8>)>, n: int)
    requires
        0 <= n <= s.len(),
    ensures
        didx_bytes(s, n).len() == 12 * n,
        data_bytes(s, n).len() == media_size_before(s, n),
    decreases n,
{
    if n > 0 {
        lemma_didx_len(s, n - 1);
    }
}

/// The DIDX entry `i` of a listing's first `n` entries holds its ID, its
/// offset and its size, and the DATA bytes hold its media there.
proof fn lemma_index_entry(s: Seq<(u32, Seq<u8>)>, n: int, i: int)
    requires
        0 <= i < n <= s.len(),
        media_size_before(s, s.len() as int) <= u32::MAX,
    ensures
        u32_at(didx_bytes(s, n), 12 * i) == s[i].0,
        u32_at(didx_bytes(s, n), 12 * i + 4) == media_size_before(s, i),
        u32_at(didx_bytes(s, n), 12 * i + 8) == s[i].1.len(),
        data_bytes(s, n).subrange(media_size_before(s, i), media_size_before(s, i) + s[i].1.len())
            == s[i].1,
    decreases n,
{
    lemma_didx_len(s, n - 1);
    lemma_media_size_monotone(s, i, s.len() as int);
    lemma_media_size_monotone(s, i + 1, s.len() as int);
    let prev = didx_bytes(s, n - 1);
    let dprev = data_bytes(s, n - 1);
    if i < n - 1 {
        lemma_index_entry(s, n - 1, i);
        lemma_media_size_monotone(s, i + 1, n - 1);
        assert(didx_bytes(s, n).subrange(12 * i, 12 * i + 4) =~= prev.subrange(12 * i, 12 * i + 4));
        assert(didx_bytes(s, n).subrange(12 * i + 4, 12 * i + 8) =~= prev.subrange(12 * i + 4, 12 * i + 8));
        assert(didx_bytes(s, n).subrange(12 * i + 8, 12 * i + 12) =~= prev.subrange(12 * i + 8, 12 * i + 12));
        let off = media_size_before(s, i);
        assert(data_bytes(s, n).subrange(off, off + s[i].1.len()) =~= dprev.subrange(off, off + s[i].1.len()));
    } else {
        let b = didx_bytes(s, n);
        assert(b.subrange(12 * i, 12 * i + 4) =~= spec_u32_to_le_bytes(s[i].0));
        assert(b.subrange(12 * i + 4, 12 * i + 8) =~= spec_u32_to_le_bytes(media_size_before(s, i) as u32));
        assert(b.subrange(12 * i + 8, 12 * i + 12) =~= spec_u32_to_le_bytes(s[i].1.len() as u32));
        let off = media_size_before(s, i);
        assert(data_bytes(s, n).subrange(off, off + s[i].1.len()) =~= s[i].1);
    }
}

/// Looking up the written DIDX entries in the written DATA bytes gives the
/// map the listing lists.
proof fn lemma_apply_written_index(s: Seq<(u32, Seq<u8>)>, k: int)
    requires
        0 <= k <= s.len(),
        media_size_before(s, s.len() as int) <= u32::MAX,
    ensures
        apply_index(
            Map::empty(),
            didx_bytes(s, s.len() as int),
            data_bytes(s, s.len() as int),
            k,
        ) == listing_map(s, k),
    decreases k,
{
    if k > 0 {
        let n = s.len() as int;
        lemma_apply_written_index(s, k - 1);
        lemma_index_entry(s, n, k - 1);
        lemma_didx_len(s, n);
        lemma_media_size_monotone(s, k, n);
    }
}

/// The last chunk with `tag` among the first `k` is the only one there.
proof fn lemma_last_chunk_only(cs: Seq<(u32, int, int)>, tag: u32, k: int, i: int)
    requires
        0 <= i < k <= cs.len(),
        cs[i].0 == tag,
        forall|x: int| 0 <= x < k && (#[trigger] cs[x]).0 == tag ==> x == i,
    ensures
        last_chunk_with(cs, tag, k) == i,
    decreases k,
{
    if k - 1 != i {
        lemma_last_chunk_only(cs, tag, k - 1, i);
    }
}

/// The last chunk with `tag` among the first `k`, when there is one, has
/// that tag.
proof fn lemma_last_chunk_found(cs: Seq<(u32, int, int)>, tag: u32, k: int, i: int)
    requires
        0 <= i < k <= cs.len(),
        cs[i].0 == tag,
    ensures
        0 <= last_chunk_with(cs, tag, k) < k,
        cs[last_chunk_with(cs, tag, k)].0 == tag,
    decreases k,
{
    if cs[k - 1].0 != tag {
        lemma_last_chunk_found(cs, tag, k - 1, i);
    }
}

/// With no DATA chunk among chunks `j` to `k - 1`, the media found after
/// `k` chunks are those found after `j`.
proof fn lemma_media_after_skip(d: Seq<u8>, cs: Seq<(u32, int, int)>, j: int, k: int)
    requires
        0 <= j <= k <= cs.len(),
        forall|x: int| j <= x < k ==> (#[trigger] cs[x]).0 != DATA,
    ensures
        media_after(d, cs, k) == media_after(d, cs, j),
    decreases k - j,
{
    if k > j {
        lemma_media_after_skip(d, cs, j, k - 1);
    }
}

/// An owned bank that is written and parsed again holds the chunks that
/// were written, DIDX, DATA and BKHD rebuilt, and exactly the media it held.
/// This holds when the media fit the 32-bit offsets of DIDX, every chunk
/// written fits a 32-bit size, and the bank has one DIDX chunk, before its
/// one DATA chunk.
#[verifier::spinoff_prover]
#[verifier::rlimit(100)]
pub proof fn lemma_owned_round_trip(b: SoundBankOwned, parsed: SoundBank)
    requires
        media_buffer_entries(b.media).dom().finite(),
        owned_media_fits(b),
        chunks_fit(owned_chunks_out(b)),
        one_index_before_data(b.chunks@),
        bank_read_as(parsed, owned_bytes(b)),
    ensures
        bnk_ok(owned_bytes(b)),
        chunk_list(parsed.chunks@) == owned_chunks_out(b),
        media_slice_entries(parsed.media) == media_buffer_entries(b.media),
        (exists|x: int| 0 <= x < b.chunks@.len() && #[trigger] b.chunks@[x].tag == BKHD) ==> {
            &&& parsed.header.version == b.header.version
            &&& parsed.header.id == b.header.id
            &&& parsed.header.language_id == b.header.language_id
            &&& parsed.header.feedback_in_bank == b.header.feedback_in_bank
            &&& parsed.header.project_id == b.header.project_id
            &&& parsed.header.padding@ == b.header.padding@
        },
{
    let l = owned_chunks_out(b);
    let d = owned_bytes(b);
    let m = media_buffer_entries(b.media);
    let s = owned_media_listing(b);
    assert(d == Seq::<u8>::empty() + chunks_bytes(l)) by {
        assert(Seq::<u8>::empty() + chunks_bytes(l) =~= chunks_bytes(l));
    }
    lemma_walk_written(Seq::<u8>::empty(), l);
    let cs = bnk_chunks(d);
    let n = cs.len() as int;
    assert(n == l.len());
    assert forall|x: int| 0 <= x < n implies (#[trigger] cs[x]).0 == l[x].0 && chunk_data(d, cs[x])
        == l[x].1 && l[x] == owned_chunk_out(b, b.chunks@[x]) && cs[x].2 - cs[x].1 == l[x].1.len() by {
        assert(cs[x].0 == l[x].0);
    }
    // The chunks read are the chunks written.
    assert(chunk_views(d) =~= l) by {
        assert forall|x: int| 0 <= x < n implies #[trigger] chunk_views(d)[x] == l[x] by {
            assert(cs[x].0 == l[x].0 && chunk_data(d, cs[x]) == l[x].1);
        }
    }
    // Every BKHD chunk holds a whole header.
    assert(bkhd_chunks_ok(cs, n)) by {
        assert forall|x: int| 0 <= x < n && (#[trigger] cs[x]).0 == BKHD implies cs[x].2 - cs[x].1 >= 20 by {
            assert(cs[x].0 == l[x].0 && chunk_data(d, cs[x]) == l[x].1);
            assert(l[x] == owned_chunk_out(b, b.chunks@[x]));
            lemma_bank_header_round_trip(b.header);
            assert(l[x].1 == bank_header_bytes(b.header));
        }
    }
    // The header.
    if exists|x: int| 0 <= x < b.chunks@.len() && #[trigger] b.chunks@[x].tag == BKHD {
        let x = choose|x: int| 0 <= x < b.chunks@.len() && #[trigger] b.chunks@[x].tag == BKHD;
        assert(cs[x].0 == BKHD);
        lemma_last_chunk_found(cs, BKHD, n, x);
        let y = last_chunk_with(cs, BKHD, n);
        assert(cs[y].0 == l[y].0 && chunk_data(d, cs[y]) == l[y].1);
        assert(l[y] == owned_chunk_out(b, b.chunks@[y]));
        assert(b.chunks@[y].tag == BKHD);
        lemma_bank_header_round_trip(b.header);
        let hb = bank_header_bytes(b.header);
        assert(bank_header_read_as(parsed.header, hb));
        assert(parsed.header.padding@ =~= b.header.padding@);
    }
    // The media.
    let (i, j) = choose|i: int, j: int|
        0 <= i < j < b.chunks@.len() && b.chunks@[i].tag == DIDX && b.chunks@[j].tag == DATA && (forall|k: int|
            0 <= k < b.chunks@.len() ==> (#[trigger] b.chunks@[k].tag == DIDX ==> k == i) && (b.chunks@[k].tag
                == DATA ==> k == j));
    assert forall|x: int| 0 <= x < n implies ((#[trigger] cs[x]).0 == DIDX ==> x == i) && (cs[x].0 == DATA
        ==> x == j) by {
        assert(cs[x].0 == l[x].0);
        assert(l[x] == owned_chunk_out(b, b.chunks@[x]));
        assert(b.chunks@[x].tag == DIDX ==> x == i);
        assert(b.chunks@[x].tag == DATA ==> x == j);
    }
    assert(cs[i].0 == l[i].0 && chunk_data(d, cs[i]) == l[i].1);
    assert(cs[j].0 == l[j].0 && chunk_data(d, cs[j]) == l[j].1);
    assert(l[i] == owned_chunk_out(b, b.chunks@[i]));
    assert(l[j] == owned_chunk_out(b, b.chunks@[j]));
    lemma_last_chunk_only(cs, DIDX, j, i);
    lemma_media_after_skip(d, cs, 0, j);
    lemma_media_after_skip(d, cs, j + 1, n);
    assert(media_after(d, cs, 0) == Map::<u32, Seq<u8>>::empty());
    let idx = didx_bytes(s, s.len() as int);
    let data = data_bytes(s, s.len() as int);
    assert(index_after(d, cs, j) == idx);
    lemma_didx_len(s, s.len() as int);
    assert(idx.len() as int / 12 == s.len()) by (nonlinear_arith)
        requires
            idx.len() == 12 * s.len(),
    ;
    assert(media_after(d, cs, j + 1) == apply_index(Map::empty(), idx, data, s.len() as int));
    lemma_apply_written_index(s, s.len() as int);
    lemma_sorted_listing_exists(m);
    lemma_listing_map_full(s, m);
}

} // verus!
