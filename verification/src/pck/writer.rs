//! PCK file writer: serializes a PCK to `Vec<u8>`.

use vstd::prelude::*;
use vstd::utf8::is_ascii_chars;

use super::string_map::{
    language_map_entries, string_map_bytes, string_map_fits, string_map_fits_exec, string_map_layout,
    LanguageMap,
};
use crate::listing::{is_sorted_listing, lemma_sorted_listing_exists, sorted_listing};
use super::string_map::{lemma_string_map_round_trip, nul_free, plain_names, string_map_of, u32_at};
use super::{
    banks_region, externals_region, lang_region, lut_count, lut_entry_data, lut_entry_ok, lut_fields,
    lut_ok, pck_field, pck_luts_in_bounds, pck_ok, pck_read_as, streams_region, u64_at, PckFile,
    AKPK_TAG, PCK_VERSION,
};
use crate::bytes::{
    patch_u32_le, patched_u32, push_all, push_u32_le, push_u64_le, spec_i32_to_le_bytes,
    spec_u32_to_le_bytes, spec_u64_to_le_bytes,
};

verus! {

broadcast use crate::bytes::group_bytes;

/// An owned entry for writing into a PCK file.
#[derive(Debug, Clone)]
pub struct WriteEntry<K: Copy> {
    pub id: K,
    pub block_size: u32,
    pub language_id: u32,
    pub data: Vec<u8>,
}

/// Builder for writing a PCK file to `Vec<u8>`.
#[derive(Debug)]
pub struct PckWriter {
    pub languages: LanguageMap,
    pub sound_banks: Vec<WriteEntry<u32>>,
    pub streaming_files: Vec<WriteEntry<u32>>,
    pub external_files: Vec<WriteEntry<u64>>,
}

// ── Layout ──

/// `offset` rounded up to a multiple of `alignment` (unchanged for an
/// alignment of 0 or 1).
pub open spec fn align_up(offset: int, alignment: u32) -> int {
    if alignment <= 1 {
        offset
    } else {
        ((offset + alignment - 1) / (alignment as int)) * alignment
    }
}

/// Where the data of the first `k` entries of a group ends, the group's
/// data starting at `start`.
pub open spec fn group_end<K: Copy>(es: Seq<WriteEntry<K>>, start: int, k: int) -> int
    decreases k,
{
    if k <= 0 {
        start
    } else {
        align_up(group_end(es, start, k - 1), es[k - 1].block_size) + es[k - 1].data@.len()
    }
}

/// Where entry `i`'s data is placed: the end of the entries before it,
/// aligned to its block size.
pub open spec fn entry_offset<K: Copy>(es: Seq<WriteEntry<K>>, start: int, i: int) -> int {
    align_up(group_end(es, start, i), es[i].block_size)
}

/// The start block recorded for entry `i`: its offset in blocks (in bytes
/// for a block size of 0 or 1), truncated to 32 bits.
pub open spec fn entry_start_block<K: Copy>(es: Seq<WriteEntry<K>>, start: int, i: int) -> u32 {
    let a = entry_offset(es, start, i);
    let bs = es[i].block_size;
    ((if bs > 1 {
        a / (bs as int)
    } else {
        a
    }) % 0x1_0000_0000) as u32
}

/// Where entry `i`'s data is written: its start block times its block size.
pub open spec fn entry_write_offset<K: Copy>(es: Seq<WriteEntry<K>>, start: int, i: int) -> int {
    entry_start_block(es, start, i) * es[i].block_size
}

/// A LUT record with a 32-bit key.
pub open spec fn lut32_record(e: WriteEntry<u32>, start_block: u32) -> Seq<u8> {
    spec_u32_to_le_bytes(e.id) + spec_u32_to_le_bytes(e.block_size) + spec_i32_to_le_bytes(
        e.data@.len() as i32,
    ) + spec_u32_to_le_bytes(start_block) + spec_u32_to_le_bytes(e.language_id)
}

/// A LUT record with a 64-bit key.
pub open spec fn lut64_record(e: WriteEntry<u64>, start_block: u32) -> Seq<u8> {
    spec_u64_to_le_bytes(e.id) + spec_u32_to_le_bytes(e.block_size) + spec_i32_to_le_bytes(
        e.data@.len() as i32,
    ) + spec_u32_to_le_bytes(start_block) + spec_u32_to_le_bytes(e.language_id)
}

/// The records of the first `k` entries of a 32-bit LUT.
pub open spec fn lut32_records(es: Seq<WriteEntry<u32>>, start: int, k: int) -> Seq<u8>
    decreases k,
{
    if k <= 0 {
        Seq::empty()
    } else {
        lut32_records(es, start, k - 1) + lut32_record(es[k - 1], entry_start_block(es, start, k - 1))
    }
}

/// The records of the first `k` entries of a 64-bit LUT.
pub open spec fn lut64_records(es: Seq<WriteEntry<u64>>, start: int, k: int) -> Seq<u8>
    decreases k,
{
    if k <= 0 {
        Seq::empty()
    } else {
        lut64_records(es, start, k - 1) + lut64_record(es[k - 1], entry_start_block(es, start, k - 1))
    }
}

/// A 32-bit LUT: its count, then its records.
pub open spec fn lut32_bytes(es: Seq<WriteEntry<u32>>, start: int) -> Seq<u8> {
    spec_u32_to_le_bytes(es.len() as u32) + lut32_records(es, start, es.len() as int)
}

/// A 64-bit LUT: its count, then its records.
pub open spec fn lut64_bytes(es: Seq<WriteEntry<u64>>, start: int) -> Seq<u8> {
    spec_u32_to_le_bytes(es.len() as u32) + lut64_records(es, start, es.len() as int)
}

/// The language map's bytes.
pub open spec fn writer_lang_bytes(w: PckWriter) -> Seq<u8> {
    string_map_layout(sorted_listing(language_map_entries(w.languages)))
}

/// The length of everything before the file data: tag, header, language
/// map and the three LUTs.
pub open spec fn writer_header_len(w: PckWriter) -> int {
    28 + writer_lang_bytes(w).len() as int + (4 + 20 * w.sound_banks@.len()) + (4 + 20
        * w.streaming_files@.len()) + (4 + 24 * w.external_files@.len())
}

/// Where the streaming files' data starts.
pub open spec fn streams_start(w: PckWriter) -> int {
    group_end(w.sound_banks@, writer_header_len(w), w.sound_banks@.len() as int)
}

/// Where the external files' data starts.
pub open spec fn externals_start(w: PckWriter) -> int {
    group_end(w.streaming_files@, streams_start(w), w.streaming_files@.len() as int)
}

/// The length of the whole file.
pub open spec fn writer_total_len(w: PckWriter) -> int {
    group_end(w.external_files@, externals_start(w), w.external_files@.len() as int)
}

/// Tag, header with its size fields still zero, language map and LUTs.
pub open spec fn writer_head(w: PckWriter) -> Seq<u8> {
    spec_u32_to_le_bytes(AKPK_TAG) + spec_u32_to_le_bytes(0) + spec_u32_to_le_bytes(PCK_VERSION)
        + spec_u32_to_le_bytes(0) + spec_u32_to_le_bytes(0) + spec_u32_to_le_bytes(0)
        + spec_u32_to_le_bytes(0) + writer_lang_bytes(w) + lut32_bytes(
        w.sound_banks@,
        writer_header_len(w),
    ) + lut32_bytes(w.streaming_files@, streams_start(w)) + lut64_bytes(
        w.external_files@,
        externals_start(w),
    )
}

/// `img` with `data` written over it at `offset`.
pub open spec fn overlay(img: Seq<u8>, offset: int, data: Seq<u8>) -> Seq<u8> {
    img.subrange(0, offset) + data + img.subrange(offset + data.len(), img.len() as int)
}

/// `img` with the data of the first `k` entries of a group written at their
/// write offsets, in order.
pub open spec fn overlay_group<K: Copy>(img: Seq<u8>, es: Seq<WriteEntry<K>>, start: int, k: int) -> Seq<u8>
    decreases k,
{
    if k <= 0 {
        img
    } else {
        overlay(
            overlay_group(img, es, start, k - 1),
            entry_write_offset(es, start, k - 1),
            es[k - 1].data@,
        )
    }
}

/// The bytes of the written file: the head padded with zeros to the total
/// length, each entry's data written at its offset (sound banks, then
/// streaming files, then external files), then the header's size fields
/// filled in.
pub open spec fn pck_image(w: PckWriter) -> Seq<u8> {
    let head = writer_head(w);
    let zeroed = head + Seq::new((writer_total_len(w) - head.len()) as nat, |i: int| 0u8);
    let a = overlay_group(zeroed, w.sound_banks@, writer_header_len(w), w.sound_banks@.len() as int);
    let b = overlay_group(a, w.streaming_files@, streams_start(w), w.streaming_files@.len() as int);
    let c = overlay_group(b, w.external_files@, externals_start(w), w.external_files@.len() as int);
    let p1 = patched_u32(c, 4, (writer_header_len(w) - 8) as u32);
    let p2 = patched_u32(p1, 12, writer_lang_bytes(w).len() as u32);
    let p3 = patched_u32(p2, 16, (4 + 20 * w.sound_banks@.len()) as u32);
    let p4 = patched_u32(p3, 20, (4 + 20 * w.streaming_files@.len()) as u32);
    patched_u32(p4, 24, (4 + 24 * w.external_files@.len()) as u32)
}

/// The file can be laid out: the language map's offsets and the header size
/// fit in 32 bits, and the whole file in memory.
pub open spec fn writer_fits(w: PckWriter) -> bool {
    &&& string_map_fits(language_map_entries(w.languages))
    &&& writer_header_len(w) - 8 <= u32::MAX
    &&& writer_total_len(w) <= usize::MAX
}


// ── Lemmas on the layout ──

proof fn lemma_align_up(offset: int, alignment: u32)
    requires
        offset >= 0,
    ensures
        offset <= align_up(offset, alignment) < offset + (if alignment > 1 { alignment as int } else { 1 }),
        alignment > 1 ==> align_up(offset, alignment) % (alignment as int) == 0,
{
    if alignment > 1 {
        let a = alignment as int;
        let q = (offset + a - 1) / a;
        assert(q * a <= offset + a - 1 < q * a + a) by (nonlinear_arith)
            requires a > 1, q == (offset + a - 1) / a, offset >= 0;
        assert((q * a) % a == 0) by (nonlinear_arith)
            requires a > 1;
    }
}

proof fn lemma_group_end_monotone<K: Copy>(es: Seq<WriteEntry<K>>, start: int, i: int, j: int)
    requires
        start >= 0,
        0 <= i <= j <= es.len(),
    ensures
        start <= group_end(es, start, i) <= group_end(es, start, j),
        i < j ==> entry_offset(es, start, i) + es[i].data@.len() <= group_end(es, start, j),
        i < j ==> group_end(es, start, i) <= entry_offset(es, start, i),
    decreases j - i,
{
    if i < j {
        lemma_group_end_monotone(es, start, i, j - 1);
        lemma_align_up(group_end(es, start, j - 1), es[j - 1].block_size);
        if i < j - 1 {
            lemma_group_end_monotone(es, start, i + 1, j - 1);
        }
        lemma_align_up(group_end(es, start, i), es[i].block_size);
    } else {
        lemma_group_end_ge_start(es, start, i);
    }
}

proof fn lemma_group_end_ge_start<K: Copy>(es: Seq<WriteEntry<K>>, start: int, i: int)
    requires
        start >= 0,
        0 <= i <= es.len(),
    ensures
        start <= group_end(es, start, i),
    decreases i,
{
    if i > 0 {
        lemma_group_end_ge_start(es, start, i - 1);
        lemma_align_up(group_end(es, start, i - 1), es[i - 1].block_size);
    }
}

proof fn lemma_write_offset_le<K: Copy>(es: Seq<WriteEntry<K>>, start: int, i: int)
    requires
        start >= 0,
        0 <= i < es.len(),
    ensures
        0 <= entry_write_offset(es, start, i) <= entry_offset(es, start, i),
{
    lemma_group_end_monotone(es, start, i, i);
    lemma_align_up(group_end(es, start, i), es[i].block_size);
    let a = entry_offset(es, start, i);
    let bs = es[i].block_size as int;
    if bs > 1 {
        let q = a / bs;
        assert(0 <= q * bs <= a) by (nonlinear_arith)
            requires bs > 1, a >= 0, q == a / bs;
        let sb = q % 0x1_0000_0000;
        assert(0 <= sb <= q);
        assert(sb * bs <= q * bs) by (nonlinear_arith)
            requires 0 <= sb <= q, bs > 1;
    } else {
        let sb = a % 0x1_0000_0000;
        assert(0 <= sb <= a);
        assert(sb * bs <= a) by (nonlinear_arith)
            requires 0 <= sb <= a, 0 <= bs <= 1;
    }
}

proof fn lemma_lut32_records_len(es: Seq<WriteEntry<u32>>, start: int, k: int)
    requires
        0 <= k <= es.len(),
    ensures
        lut32_records(es, start, k).len() == 20 * k,
    decreases k,
{
    if k > 0 {
        lemma_lut32_records_len(es, start, k - 1);
    }
}

proof fn lemma_lut64_records_len(es: Seq<WriteEntry<u64>>, start: int, k: int)
    requires
        0 <= k <= es.len(),
    ensures
        lut64_records(es, start, k).len() == 24 * k,
    decreases k,
{
    if k > 0 {
        lemma_lut64_records_len(es, start, k - 1);
    }
}

/// The head is as long as the header length says, and the file is at least
/// that long.
proof fn lemma_writer_lengths(w: PckWriter)
    ensures
        writer_head(w).len() == writer_header_len(w),
        writer_header_len(w) <= streams_start(w) <= externals_start(w) <= writer_total_len(w),
{
    lemma_lut32_records_len(w.sound_banks@, writer_header_len(w), w.sound_banks@.len() as int);
    lemma_lut32_records_len(w.streaming_files@, streams_start(w), w.streaming_files@.len() as int);
    lemma_lut64_records_len(w.external_files@, externals_start(w), w.external_files@.len() as int);
    lemma_group_end_ge_start(w.sound_banks@, writer_header_len(w), w.sound_banks@.len() as int);
    lemma_group_end_ge_start(w.streaming_files@, streams_start(w), w.streaming_files@.len() as int);
    lemma_group_end_ge_start(w.external_files@, externals_start(w), w.external_files@.len() as int);
}

// ── Round trip ──

/// `overlay` keeps the length, changes nothing outside the written range,
/// and leaves the data in it.
proof fn lemma_overlay(img: Seq<u8>, off: int, d: Seq<u8>)
    requires
        0 <= off,
        off + d.len() <= img.len(),
    ensures
        overlay(img, off, d).len() == img.len(),
        forall|p: int|
            0 <= p < img.len() && (p < off || p >= off + d.len()) ==> #[trigger] overlay(img, off, d)[p]
                == img[p],
        overlay(img, off, d).subrange(off, off + d.len()) == d,
{
    let o = overlay(img, off, d);
    assert(o.subrange(off, off + d.len()) =~= d);
}

/// An entry of a group can be read back: a block size of 0 only for empty
/// data, its start block fits in 32 bits, and its size in an `i32`.
pub open spec fn entry_plain<K: Copy>(es: Seq<WriteEntry<K>>, start: int, i: int) -> bool {
    let bs = es[i].block_size;
    let off = entry_offset(es, start, i);
    &&& es[i].data@.len() <= i32::MAX
    &&& bs == 0 ==> es[i].data@.len() == 0
    &&& bs == 1 ==> off < 0x1_0000_0000
    &&& bs > 1 ==> off / (bs as int) < 0x1_0000_0000
}

/// Every entry of a group can be read back.
pub open spec fn group_plain<K: Copy>(es: Seq<WriteEntry<K>>, start: int) -> bool {
    forall|i: int| 0 <= i < es.len() ==> #[trigger] entry_plain(es, start, i)
}

proof fn lemma_write_offset_exact<K: Copy>(es: Seq<WriteEntry<K>>, start: int, i: int)
    requires
        start >= 0,
        0 <= i < es.len(),
        entry_plain(es, start, i),
        es[i].block_size >= 1,
    ensures
        entry_write_offset(es, start, i) == entry_offset(es, start, i),
        entry_start_block(es, start, i) * es[i].block_size == entry_offset(es, start, i),
{
    lemma_group_end_ge_start(es, start, i);
    lemma_align_up(group_end(es, start, i), es[i].block_size);
    let off = entry_offset(es, start, i);
    let bs = es[i].block_size as int;
    if bs > 1 {
        let q = off / bs;
        assert(q * bs == off) by (nonlinear_arith)
            requires bs > 1, off >= 0, off % bs == 0, q == off / bs;
        assert(q % 0x1_0000_0000 == q);
    } else {
        assert(off % 0x1_0000_0000 == off);
    }
}

/// After writing the first `k` entries of a group over `img`: the length is
/// kept, bytes before the group or past its first `k` entries are kept, and
/// each written entry's data sits at its offset.
proof fn lemma_overlay_group<K: Copy>(img: Seq<u8>, es: Seq<WriteEntry<K>>, start: int, k: int)
    requires
        start >= 0,
        0 <= k <= es.len(),
        group_plain(es, start),
        group_end(es, start, es.len() as int) <= img.len(),
    ensures
        overlay_group(img, es, start, k).len() == img.len(),
        forall|p: int|
            0 <= p < img.len() && (p < start || p >= group_end(es, start, k)) ==> #[trigger] overlay_group(
                img,
                es,
                start,
                k,
            )[p] == img[p],
        forall|i: int|
            0 <= i < k ==> #[trigger] overlay_group(img, es, start, k).subrange(
                entry_offset(es, start, i),
                entry_offset(es, start, i) + es[i].data@.len(),
            ) == es[i].data@,
    decreases k,
{
    if k > 0 {
        let j = k - 1;
        lemma_overlay_group(img, es, start, j);
        let prev = overlay_group(img, es, start, j);
        let d = es[j].data@;
        let off = entry_write_offset(es, start, j);
        lemma_group_end_monotone(es, start, j, es.len() as int);
        lemma_group_end_monotone(es, start, k, es.len() as int);
        lemma_group_end_monotone(es, start, j, k);
        lemma_write_offset_le(es, start, j);
        assert(entry_plain(es, start, j));
        lemma_overlay(prev, off, d);
        let cur = overlay_group(img, es, start, k);
        if es[j].block_size >= 1 {
            lemma_write_offset_exact(es, start, j);
        }
        assert forall|i: int| 0 <= i < k implies #[trigger] cur.subrange(
            entry_offset(es, start, i),
            entry_offset(es, start, i) + es[i].data@.len(),
        ) == es[i].data@ by {
            if i < j {
                lemma_group_end_monotone(es, start, i, j);
                let lo = entry_offset(es, start, i);
                let hi = lo + es[i].data@.len();
                lemma_group_end_ge_start(es, start, i);
                lemma_align_up(group_end(es, start, i), es[i].block_size);
                assert(cur.subrange(lo, hi) =~= prev.subrange(lo, hi)) by {
                    assert forall|q: int| lo <= q < hi implies cur[q] == prev[q] by {
                        if d.len() > 0 {
                            assert(q < off);
                        }
                    }
                }
            } else if d.len() == 0 {
                assert(cur.subrange(entry_offset(es, start, i), entry_offset(es, start, i)) =~= d);
            }
        }
        assert forall|p: int|
            0 <= p < img.len() && (p < start || p >= group_end(es, start, k)) implies #[trigger] cur[p]
                == img[p] by {
            lemma_group_end_ge_start(es, start, j);
            if d.len() > 0 {
                assert(p < off || p >= off + d.len());
            }
        }
    }
}

/// The fields of the records of a 32-bit LUT.
proof fn lemma_lut32_fields(es: Seq<WriteEntry<u32>>, start: int, i: int)
    requires
        0 <= i < es.len(),
        es.len() <= u32::MAX,
        es[i].data@.len() <= i32::MAX,
    ensures
        ({
            let lut = lut32_bytes(es, start);
            &&& lut_count(lut) == es.len()
            &&& 4 + 20 * (i + 1) <= lut.len()
            &&& u32_at(lut, 4 + 20 * i) == es[i].id
            &&& lut_fields(lut, 4 + 20 * i, 4) == (
                es[i].block_size,
                es[i].data@.len() as i32,
                entry_start_block(es, start, i),
                es[i].language_id,
            )
        }),
{
    let lut = lut32_bytes(es, start);
    let n = es.len() as int;
    lemma_lut32_records_len(es, start, n);
    lemma_lut32_record_at(es, start, n, i);
    let rec = lut32_record(es[i], entry_start_block(es, start, i));
    let base = 4 + 20 * i;
    assert(lut.subrange(0, 4) =~= spec_u32_to_le_bytes(es.len() as u32));
    assert(lut.subrange(base, base + 20) =~= rec);
    assert(lut.subrange(base, base + 4) =~= rec.subrange(0, 4));
    assert(lut.subrange(base + 4, base + 8) =~= rec.subrange(4, 8));
    assert(lut.subrange(base + 8, base + 12) =~= rec.subrange(8, 12));
    assert(lut.subrange(base + 12, base + 16) =~= rec.subrange(12, 16));
    assert(lut.subrange(base + 16, base + 20) =~= rec.subrange(16, 20));
    assert(rec.subrange(0, 4) =~= spec_u32_to_le_bytes(es[i].id));
    assert(rec.subrange(4, 8) =~= spec_u32_to_le_bytes(es[i].block_size));
    assert(rec.subrange(8, 12) =~= spec_i32_to_le_bytes(es[i].data@.len() as i32));
    assert(rec.subrange(12, 16) =~= spec_u32_to_le_bytes(entry_start_block(es, start, i)));
    assert(rec.subrange(16, 20) =~= spec_u32_to_le_bytes(es[i].language_id));
}

proof fn lemma_lut32_record_at(es: Seq<WriteEntry<u32>>, start: int, k: int, i: int)
    requires
        0 <= i < k <= es.len(),
    ensures
        lut32_records(es, start, k).subrange(20 * i, 20 * i + 20) == lut32_record(
            es[i],
            entry_start_block(es, start, i),
        ),
    decreases k,
{
    lemma_lut32_records_len(es, start, k - 1);
    if i < k - 1 {
        lemma_lut32_record_at(es, start, k - 1, i);
        assert(lut32_records(es, start, k).subrange(20 * i, 20 * i + 20) =~= lut32_records(
            es,
            start,
            k - 1,
        ).subrange(20 * i, 20 * i + 20));
    } else {
        assert(lut32_records(es, start, k).subrange(20 * i, 20 * i + 20) =~= lut32_record(
            es[i],
            entry_start_block(es, start, i),
        ));
    }
}

/// The fields of the records of a 64-bit LUT.
proof fn lemma_lut64_fields(es: Seq<WriteEntry<u64>>, start: int, i: int)
    requires
        0 <= i < es.len(),
        es.len() <= u32::MAX,
        es[i].data@.len() <= i32::MAX,
    ensures
        ({
            let lut = lut64_bytes(es, start);
            &&& lut_count(lut) == es.len()
            &&& 4 + 24 * (i + 1) <= lut.len()
            &&& u64_at(lut, 4 + 24 * i) == es[i].id
            &&& lut_fields(lut, 4 + 24 * i, 8) == (
                es[i].block_size,
                es[i].data@.len() as i32,
                entry_start_block(es, start, i),
                es[i].language_id,
            )
        }),
{
    let lut = lut64_bytes(es, start);
    let n = es.len() as int;
    lemma_lut64_records_len(es, start, n);
    lemma_lut64_record_at(es, start, n, i);
    let rec = lut64_record(es[i], entry_start_block(es, start, i));
    let base = 4 + 24 * i;
    assert(lut.subrange(0, 4) =~= spec_u32_to_le_bytes(es.len() as u32));
    assert(lut.subrange(base, base + 24) =~= rec);
    assert(lut.subrange(base, base + 8) =~= rec.subrange(0, 8));
    assert(lut.subrange(base + 8, base + 12) =~= rec.subrange(8, 12));
    assert(lut.subrange(base + 12, base + 16) =~= rec.subrange(12, 16));
    assert(lut.subrange(base + 16, base + 20) =~= rec.subrange(16, 20));
    assert(lut.subrange(base + 20, base + 24) =~= rec.subrange(20, 24));
    assert(rec.subrange(0, 8) =~= spec_u64_to_le_bytes(es[i].id));
    assert(rec.subrange(8, 12) =~= spec_u32_to_le_bytes(es[i].block_size));
    assert(rec.subrange(12, 16) =~= spec_i32_to_le_bytes(es[i].data@.len() as i32));
    assert(rec.subrange(16, 20) =~= spec_u32_to_le_bytes(entry_start_block(es, start, i)));
    assert(rec.subrange(20, 24) =~= spec_u32_to_le_bytes(es[i].language_id));
}

proof fn lemma_lut64_record_at(es: Seq<WriteEntry<u64>>, start: int, k: int, i: int)
    requires
        0 <= i < k <= es.len(),
    ensures
        lut64_records(es, start, k).subrange(24 * i, 24 * i + 24) == lut64_record(
            es[i],
            entry_start_block(es, start, i),
        ),
    decreases k,
{
    lemma_lut64_records_len(es, start, k - 1);
    if i < k - 1 {
        lemma_lut64_record_at(es, start, k - 1, i);
        assert(lut64_records(es, start, k).subrange(24 * i, 24 * i + 24) =~= lut64_records(
            es,
            start,
            k - 1,
        ).subrange(24 * i, 24 * i + 24));
    } else {
        assert(lut64_records(es, start, k).subrange(24 * i, 24 * i + 24) =~= lut64_record(
            es[i],
            entry_start_block(es, start, i),
        ));
    }
}

proof fn lemma_patched(img: Seq<u8>, pos: int, v: u32)
    requires
        0 <= pos,
        pos + 4 <= img.len(),
    ensures
        patched_u32(img, pos, v).len() == img.len(),
        forall|p: int|
            0 <= p < img.len() && (p < pos || p >= pos + 4) ==> #[trigger] patched_u32(img, pos, v)[p]
                == img[p],
        patched_u32(img, pos, v).subrange(pos, pos + 4) == spec_u32_to_le_bytes(v),
{
    assert(patched_u32(img, pos, v).subrange(pos, pos + 4) =~= spec_u32_to_le_bytes(v));
}

/// A 32-bit group was read back: the LUT `lut` holds each entry's ID, block
/// size, size, start block and language, and the data each record points to
/// in `file` is the entry's data.
pub open spec fn group_read32(es: Seq<WriteEntry<u32>>, start: int, lut: Seq<u8>, file: Seq<u8>) -> bool {
    &&& lut_count(lut) == es.len()
    &&& forall|i: int|
        0 <= i < es.len() ==> {
            &&& u32_at(lut, 4 + 20 * i) == (#[trigger] es[i]).id
            &&& lut_fields(lut, 4 + 20 * i, 4) == (
                es[i].block_size,
                es[i].data@.len() as i32,
                entry_start_block(es, start, i),
                es[i].language_id,
            )
            &&& lut_entry_data(lut, file, i, 20, 4) == es[i].data@
        }
}

/// A 64-bit group was read back.
pub open spec fn group_read64(es: Seq<WriteEntry<u64>>, start: int, lut: Seq<u8>, file: Seq<u8>) -> bool {
    &&& lut_count(lut) == es.len()
    &&& forall|i: int|
        0 <= i < es.len() ==> {
            &&& u64_at(lut, 4 + 24 * i) == (#[trigger] es[i]).id
            &&& lut_fields(lut, 4 + 24 * i, 8) == (
                es[i].block_size,
                es[i].data@.len() as i32,
                entry_start_block(es, start, i),
                es[i].language_id,
            )
            &&& lut_entry_data(lut, file, i, 24, 8) == es[i].data@
        }
}

/// The writer's input can be read back: names are ASCII without NUL, and
/// every entry of every group can be read back.
pub open spec fn writer_plain(w: PckWriter) -> bool {
    &&& forall|k: u32| #[trigger]
        language_map_entries(w.languages).contains_key(k) ==> is_ascii_chars(
            language_map_entries(w.languages)[k],
        ) && nul_free(language_map_entries(w.languages)[k])
    &&& group_plain(w.sound_banks@, writer_header_len(w))
    &&& group_plain(w.streaming_files@, streams_start(w))
    &&& group_plain(w.external_files@, externals_start(w))
}

/// The entries of a group hold their data in `img`.
pub open spec fn group_data_in<K: Copy>(es: Seq<WriteEntry<K>>, start: int, img: Seq<u8>) -> bool {
    forall|i: int|
        0 <= i < es.len() ==> img.subrange(
            entry_offset(es, start, i),
            entry_offset(es, start, i) + (#[trigger] es[i]).data@.len(),
        ) == es[i].data@
}

/// The layout of the written image: its length, the head before the data
/// (but for the header's size fields), those fields, and each entry's data
/// at its offset.
proof fn lemma_image_layout(w: PckWriter)
    requires
        writer_fits(w),
        writer_plain(w),
    ensures
        ({
            let img = pck_image(w);
            let head = writer_head(w);
            &&& img.len() == writer_total_len(w)
            &&& img.subrange(28, writer_header_len(w)) == head.subrange(28, writer_header_len(w))
            &&& u32_at(img, 0) == AKPK_TAG
            &&& pck_field(img, 1) == PCK_VERSION
            &&& pck_field(img, 2) == writer_lang_bytes(w).len()
            &&& pck_field(img, 3) == 4 + 20 * w.sound_banks@.len()
            &&& pck_field(img, 4) == 4 + 20 * w.streaming_files@.len()
            &&& pck_field(img, 5) == 4 + 24 * w.external_files@.len()
            &&& group_data_in(w.sound_banks@, writer_header_len(w), img)
            &&& group_data_in(w.streaming_files@, streams_start(w), img)
            &&& group_data_in(w.external_files@, externals_start(w), img)
        }),
{
    lemma_writer_lengths(w);
    let hl = writer_header_len(w);
    let s1 = streams_start(w);
    let s2 = externals_start(w);
    let t = writer_total_len(w);
    let head = writer_head(w);
    let zeroed = head + Seq::new((t - head.len()) as nat, |i: int| 0u8);
    let banks = w.sound_banks@;
    let stms = w.streaming_files@;
    let exts = w.external_files@;
    let a = overlay_group(zeroed, banks, hl, banks.len() as int);
    let b = overlay_group(a, stms, s1, stms.len() as int);
    let c = overlay_group(b, exts, s2, exts.len() as int);
    lemma_overlay_group(zeroed, banks, hl, banks.len() as int);
    lemma_overlay_group(a, stms, s1, stms.len() as int);
    lemma_overlay_group(b, exts, s2, exts.len() as int);
    let lang_len = writer_lang_bytes(w).len();
    let p1 = patched_u32(c, 4, (hl - 8) as u32);
    let p2 = patched_u32(p1, 12, lang_len as u32);
    let p3 = patched_u32(p2, 16, (4 + 20 * banks.len()) as u32);
    let p4 = patched_u32(p3, 20, (4 + 20 * stms.len()) as u32);
    let img = patched_u32(p4, 24, (4 + 24 * exts.len()) as u32);
    assert(img == pck_image(w));
    lemma_patched(c, 4, (hl - 8) as u32);
    lemma_patched(p1, 12, lang_len as u32);
    lemma_patched(p2, 16, (4 + 20 * banks.len()) as u32);
    lemma_patched(p3, 20, (4 + 20 * stms.len()) as u32);
    lemma_patched(p4, 24, (4 + 24 * exts.len()) as u32);
    // Bytes before the data only change in the patched fields.
    assert forall|p: int| 0 <= p < hl && (p < 4 || (8 <= p < 12) || p >= 28) implies #[trigger] img[p]
        == head[p] by {
        assert(c[p] == b[p]);
        assert(b[p] == a[p]);
        assert(a[p] == zeroed[p]);
    }
    assert(img.subrange(28, hl) =~= head.subrange(28, hl));
    assert(img.subrange(0, 4) =~= head.subrange(0, 4));
    assert(head.subrange(0, 4) =~= spec_u32_to_le_bytes(AKPK_TAG));
    assert(img.subrange(8, 12) =~= head.subrange(8, 12));
    assert(head.subrange(8, 12) =~= spec_u32_to_le_bytes(PCK_VERSION));
    assert(img.subrange(12, 16) =~= p2.subrange(12, 16));
    assert(img.subrange(16, 20) =~= p3.subrange(16, 20));
    assert(img.subrange(20, 24) =~= p4.subrange(20, 24));
    // Data: each entry keeps its data through the later groups and patches.
    assert forall|i: int| 0 <= i < banks.len() implies img.subrange(
        entry_offset(banks, hl, i),
        entry_offset(banks, hl, i) + (#[trigger] banks[i]).data@.len(),
    ) == banks[i].data@ by {
        let lo = entry_offset(banks, hl, i);
        let hi = lo + banks[i].data@.len();
        lemma_group_end_monotone(banks, hl, i, banks.len() as int);
        assert(img.subrange(lo, hi) =~= a.subrange(lo, hi)) by {
            assert forall|q: int| lo <= q < hi implies img[q] == a[q] by {
                assert(c[q] == b[q]);
                assert(b[q] == a[q]);
            }
        }
    }
    assert forall|i: int| 0 <= i < stms.len() implies img.subrange(
        entry_offset(stms, s1, i),
        entry_offset(stms, s1, i) + (#[trigger] stms[i]).data@.len(),
    ) == stms[i].data@ by {
        let lo = entry_offset(stms, s1, i);
        let hi = lo + stms[i].data@.len();
        lemma_group_end_monotone(stms, s1, i, stms.len() as int);
        assert(img.subrange(lo, hi) =~= b.subrange(lo, hi)) by {
            assert forall|q: int| lo <= q < hi implies img[q] == b[q] by {
                assert(c[q] == b[q]);
            }
        }
    }
    assert forall|i: int| 0 <= i < exts.len() implies img.subrange(
        entry_offset(exts, s2, i),
        entry_offset(exts, s2, i) + (#[trigger] exts[i]).data@.len(),
    ) == exts[i].data@ by {
        let lo = entry_offset(exts, s2, i);
        let hi = lo + exts[i].data@.len();
        lemma_group_end_monotone(exts, s2, i, exts.len() as int);
        assert(img.subrange(lo, hi) =~= c.subrange(lo, hi));
    }
}

proof fn lemma_group32_read_back(es: Seq<WriteEntry<u32>>, start: int, lut: Seq<u8>, img: Seq<u8>)
    requires
        start >= 0,
        es.len() <= u32::MAX,
        lut == lut32_bytes(es, start),
        group_plain(es, start),
        group_data_in(es, start, img),
        group_end(es, start, es.len() as int) <= img.len(),
    ensures
        lut_ok(lut, img, 20, 4),
        group_read32(es, start, lut, img),
{
    assert forall|i: int|
        #![trigger lut_entry_ok(lut, img, i, 20, 4)]
        #![trigger es[i]]
        0 <= i < es.len() implies lut_entry_ok(lut, img, i, 20, 4) && {
        &&& u32_at(lut, 4 + 20 * i) == es[i].id
        &&& lut_fields(lut, 4 + 20 * i, 4) == (
            es[i].block_size,
            es[i].data@.len() as i32,
            entry_start_block(es, start, i),
            es[i].language_id,
        )
        &&& lut_entry_data(lut, img, i, 20, 4) == es[i].data@
    } by {
        assert(entry_plain(es, start, i));
        lemma_lut32_fields(es, start, i);
        lemma_group_end_monotone(es, start, i, es.len() as int);
        let off = entry_offset(es, start, i);
        let len = es[i].data@.len() as int;
        assert(img.subrange(off, off + len) == es[i].data@);
        let (bs, fs, sb, lg) = lut_fields(lut, 4 + 20 * i, 4);
        assert(fs == len);
        if es[i].block_size >= 1 {
            lemma_write_offset_exact(es, start, i);
            assert(sb * bs == off);
        } else {
            assert(len == 0);
            assert(sb * bs == 0) by (nonlinear_arith)
                requires bs == 0;
            assert(img.subrange(0, 0) =~= es[i].data@);
        }
        assert(sb * bs + fs <= img.len());
        assert(lut_entry_ok(lut, img, i, 20, 4));
        assert(lut_entry_data(lut, img, i, 20, 4) == es[i].data@);
    }
    lemma_lut32_fields_count(es, start);
}

proof fn lemma_lut32_fields_count(es: Seq<WriteEntry<u32>>, start: int)
    requires
        es.len() <= u32::MAX,
    ensures
        lut_count(lut32_bytes(es, start)) == es.len(),
{
    lemma_lut32_records_len(es, start, es.len() as int);
    assert(lut32_bytes(es, start).subrange(0, 4) =~= spec_u32_to_le_bytes(es.len() as u32));
}

proof fn lemma_group64_read_back(es: Seq<WriteEntry<u64>>, start: int, lut: Seq<u8>, img: Seq<u8>)
    requires
        start >= 0,
        es.len() <= u32::MAX,
        lut == lut64_bytes(es, start),
        group_plain(es, start),
        group_data_in(es, start, img),
        group_end(es, start, es.len() as int) <= img.len(),
    ensures
        lut_ok(lut, img, 24, 8),
        group_read64(es, start, lut, img),
{
    assert forall|i: int|
        #![trigger lut_entry_ok(lut, img, i, 24, 8)]
        #![trigger es[i]]
        0 <= i < es.len() implies lut_entry_ok(lut, img, i, 24, 8) && {
        &&& u64_at(lut, 4 + 24 * i) == es[i].id
        &&& lut_fields(lut, 4 + 24 * i, 8) == (
            es[i].block_size,
            es[i].data@.len() as i32,
            entry_start_block(es, start, i),
            es[i].language_id,
        )
        &&& lut_entry_data(lut, img, i, 24, 8) == es[i].data@
    } by {
        assert(entry_plain(es, start, i));
        lemma_lut64_fields(es, start, i);
        lemma_group_end_monotone(es, start, i, es.len() as int);
        let off = entry_offset(es, start, i);
        let len = es[i].data@.len() as int;
        assert(img.subrange(off, off + len) == es[i].data@);
        let (bs, fs, sb, lg) = lut_fields(lut, 4 + 24 * i, 8);
        assert(fs == len);
        if es[i].block_size >= 1 {
            lemma_write_offset_exact(es, start, i);
            assert(sb * bs == off);
        } else {
            assert(len == 0);
            assert(sb * bs == 0) by (nonlinear_arith)
                requires bs == 0;
            assert(img.subrange(0, 0) =~= es[i].data@);
        }
        assert(sb * bs + fs <= img.len());
        assert(lut_entry_ok(lut, img, i, 24, 8));
        assert(lut_entry_data(lut, img, i, 24, 8) == es[i].data@);
    }
    lemma_lut64_records_len(es, start, es.len() as int);
    assert(lut64_bytes(es, start).subrange(0, 4) =~= spec_u32_to_le_bytes(es.len() as u32));
}

/// The regions that parsing reads from the written image: the language map
/// and the three LUTs, as written.
#[verifier::spinoff_prover]
#[verifier::rlimit(40)]
proof fn lemma_image_regions(w: PckWriter)
    requires
        writer_fits(w),
        writer_plain(w),
    ensures
        ({
            let img = pck_image(w);
            &&& img.len() == writer_total_len(w)
            &&& pck_field(img, 2) == writer_lang_bytes(w).len()
            &&& pck_field(img, 3) == 4 + 20 * w.sound_banks@.len()
            &&& pck_field(img, 4) == 4 + 20 * w.streaming_files@.len()
            &&& pck_field(img, 5) == 4 + 24 * w.external_files@.len()
            &&& lang_region(img) == writer_lang_bytes(w)
            &&& banks_region(img) == lut32_bytes(w.sound_banks@, writer_header_len(w))
            &&& streams_region(img) == lut32_bytes(w.streaming_files@, streams_start(w))
            &&& externals_region(img) == lut64_bytes(w.external_files@, externals_start(w))
        }),
{
    let img = pck_image(w);
    let head = writer_head(w);
    let hl = writer_header_len(w);
    let lang = writer_lang_bytes(w);
    lemma_writer_lengths(w);
    lemma_image_layout(w);
    lemma_lut32_records_len(w.sound_banks@, hl, w.sound_banks@.len() as int);
    lemma_lut32_records_len(w.streaming_files@, streams_start(w), w.streaming_files@.len() as int);
    lemma_lut64_records_len(w.external_files@, externals_start(w), w.external_files@.len() as int);
    let lb = lut32_bytes(w.sound_banks@, hl);
    let ls = lut32_bytes(w.streaming_files@, streams_start(w));
    let le = lut64_bytes(w.external_files@, externals_start(w));
    let l0 = 28 + lang.len() as int;
    let l1 = l0 + lb.len() as int;
    let l2 = l1 + ls.len() as int;
    assert(l2 + le.len() == hl);
    assert(head.subrange(28, l0) =~= lang);
    assert(head.subrange(l0, l1) =~= lb);
    assert(head.subrange(l1, l2) =~= ls);
    assert(head.subrange(l2, hl) =~= le);
    let tail = img.subrange(28, hl);
    assert(lang_region(img) =~= tail.subrange(0, lang.len() as int));
    assert(banks_region(img) =~= tail.subrange(l0 - 28, l1 - 28));
    assert(streams_region(img) =~= tail.subrange(l1 - 28, l2 - 28));
    assert(externals_region(img) =~= tail.subrange(l2 - 28, hl - 28));
}

/// The written image parses, and parsing reads back the writer's languages
/// and entries.
#[verifier::spinoff_prover]
proof fn lemma_image_reads_back(w: PckWriter)
    requires
        writer_fits(w),
        writer_plain(w),
        is_sorted_listing(
            sorted_listing(language_map_entries(w.languages)),
            language_map_entries(w.languages),
        ),
    ensures
        ({
            let img = pck_image(w);
            &&& pck_luts_in_bounds(img)
            &&& pck_ok(img)
            &&& string_map_of(lang_region(img)) == language_map_entries(w.languages)
            &&& group_read32(w.sound_banks@, writer_header_len(w), banks_region(img), img)
            &&& group_read32(w.streaming_files@, streams_start(w), streams_region(img), img)
            &&& group_read64(w.external_files@, externals_start(w), externals_region(img), img)
        }),
{
    let img = pck_image(w);
    let hl = writer_header_len(w);
    let m = language_map_entries(w.languages);
    let listing = sorted_listing(m);
    lemma_writer_lengths(w);
    lemma_image_layout(w);
    lemma_image_regions(w);
    // The languages.
    assert(plain_names(listing)) by {
        assert forall|i: int| 0 <= i < listing.len() implies is_ascii_chars(#[trigger] listing[i].1)
            && nul_free(listing[i].1) by {
            assert(m.contains_key(listing[i].0));
        }
    }
    lemma_string_map_round_trip(listing, m);
    // The entries.
    lemma_group32_read_back(w.sound_banks@, hl, banks_region(img), img);
    lemma_group32_read_back(w.streaming_files@, streams_start(w), streams_region(img), img);
    lemma_group64_read_back(w.external_files@, externals_start(w), externals_region(img), img);
}

/// A package parsed from what the writer wrote holds the writer's languages
/// and, in order, its sound banks, streaming files and external files: each
/// with its ID, block size, language and data, and the start block that the
/// writer placed it at. This holds when every name is ASCII without NUL, no
/// entry with data has a block size of 0, every size fits in an `i32`, and
/// every start block in 32 bits.
pub proof fn lemma_pck_round_trip(w: PckWriter, f: PckFile)
    requires
        writer_fits(w),
        writer_plain(w),
        language_map_entries(w.languages).dom().finite(),
        pck_read_as(f, pck_image(w)),
    ensures
        pck_luts_in_bounds(pck_image(w)),
        pck_ok(pck_image(w)),
        language_map_entries(f.languages) == language_map_entries(w.languages),
        f.sound_banks@.len() == w.sound_banks@.len(),
        forall|i: int|
            0 <= i < w.sound_banks@.len() ==> {
                let (e, x) = (#[trigger] f.sound_banks@[i], w.sound_banks@[i]);
                &&& e.id == x.id && e.block_size == x.block_size && e.language_id == x.language_id
                &&& e.data@ == x.data@
                &&& e.start_block == entry_start_block(w.sound_banks@, writer_header_len(w), i)
            },
        f.streaming_files@.len() == w.streaming_files@.len(),
        forall|i: int|
            0 <= i < w.streaming_files@.len() ==> {
                let (e, x) = (#[trigger] f.streaming_files@[i], w.streaming_files@[i]);
                &&& e.id == x.id && e.block_size == x.block_size && e.language_id == x.language_id
                &&& e.data@ == x.data@
                &&& e.start_block == entry_start_block(w.streaming_files@, streams_start(w), i)
            },
        f.external_files@.len() == w.external_files@.len(),
        forall|i: int|
            0 <= i < w.external_files@.len() ==> {
                let (e, x) = (#[trigger] f.external_files@[i], w.external_files@[i]);
                &&& e.id == x.id && e.block_size == x.block_size && e.language_id == x.language_id
                &&& e.data@ == x.data@
                &&& e.start_block == entry_start_block(w.external_files@, externals_start(w), i)
            },
{
    lemma_sorted_listing_exists(language_map_entries(w.languages));
    lemma_image_reads_back(w);
    let img = pck_image(w);
    lemma_image_layout(w);
    assert(!super::pck_is_be(img));
    assert(super::pck_read_as_le(f, img));
    assert forall|i: int| 0 <= i < w.sound_banks@.len() implies {
        let (e, x) = (#[trigger] f.sound_banks@[i], w.sound_banks@[i]);
        &&& e.id == x.id && e.block_size == x.block_size && e.language_id == x.language_id
        &&& e.data@ == x.data@
        &&& e.start_block == entry_start_block(w.sound_banks@, writer_header_len(w), i)
    } by {
        assert(super::lut32_entry_is(f.sound_banks@[i], banks_region(img), img, i));
        assert(w.sound_banks@[i] == w.sound_banks@[i]);
    }
    assert forall|i: int| 0 <= i < w.streaming_files@.len() implies {
        let (e, x) = (#[trigger] f.streaming_files@[i], w.streaming_files@[i]);
        &&& e.id == x.id && e.block_size == x.block_size && e.language_id == x.language_id
        &&& e.data@ == x.data@
        &&& e.start_block == entry_start_block(w.streaming_files@, streams_start(w), i)
    } by {
        assert(super::lut32_entry_is(f.streaming_files@[i], streams_region(img), img, i));
        assert(w.streaming_files@[i] == w.streaming_files@[i]);
    }
    assert forall|i: int| 0 <= i < w.external_files@.len() implies {
        let (e, x) = (#[trigger] f.external_files@[i], w.external_files@[i]);
        &&& e.id == x.id && e.block_size == x.block_size && e.language_id == x.language_id
        &&& e.data@ == x.data@
        &&& e.start_block == entry_start_block(w.external_files@, externals_start(w), i)
    } by {
        assert(super::lut64_entry_is(f.external_files@[i], externals_region(img), img, i));
        assert(w.external_files@[i] == w.external_files@[i]);
    }
}

// ── Writing ──

/// `offset` rounded up to a multiple of `alignment`.
fn align_up_exec(offset: usize, alignment: u32) -> (r: usize)
    requires
        align_up(offset as int, alignment) <= usize::MAX,
    ensures
        r == align_up(offset as int, alignment),
{
    if alignment <= 1 {
        return offset;
    }
    let a = alignment as usize;
    let q = offset / a;
    let rem = offset % a;
    proof {
        let x = offset as int;
        let ai = a as int;
        assert(x == (x / ai) * ai + x % ai && 0 <= x % ai < ai) by (nonlinear_arith)
            requires ai > 1, x >= 0;
        if rem == 0 {
            assert((x + ai - 1) / ai == x / ai) by (nonlinear_arith)
                requires ai > 1, x >= 0, x == (x / ai) * ai;
        } else {
            assert((x + ai - 1) / ai == x / ai + 1) by (nonlinear_arith)
                requires ai > 1, x >= 0, x == (x / ai) * ai + x % ai, 0 < x % ai < ai;
        }
    }
    if rem == 0 {
        offset
    } else {
        assert((q + 1) * a == align_up(offset as int, alignment));
        assert(q < usize::MAX) by (nonlinear_arith)
            requires q == offset as int / a as int, a > 1, offset <= usize::MAX;
        let q1 = q + 1;
        q1 * a
    }
}

/// The 32-bit truncation of a start block.
fn low_32(v: usize) -> (r: u32)
    ensures
        r == (v as int % 0x1_0000_0000) as u32,
{
    let w = v as u64;
    assert(w & 0xFFFF_FFFF == w % 0x1_0000_0000) by (bit_vector);
    ((w & 0xFFFF_FFFF) as u32)
}

/// The start block and block size of each entry, placing the entries one
/// after another from `*current_offset`, each aligned to its block size;
/// advances `*current_offset` past the last entry.
fn calc_start_blocks<K: Copy>(entries: &[WriteEntry<K>], current_offset: &mut usize) -> (blocks: Vec<(u32, u32)>)
    requires
        group_end(entries@, *old(current_offset) as int, entries@.len() as int) <= usize::MAX,
    ensures
        *final(current_offset) == group_end(entries@, *old(current_offset) as int, entries@.len() as int),
        blocks@.len() == entries@.len(),
        forall|i: int|
            0 <= i < entries@.len() ==> #[trigger] blocks@[i] == (
                entry_start_block(entries@, *old(current_offset) as int, i),
                entries@[i].block_size,
            ),
{
    let ghost start = *current_offset as int;
    let mut blocks: Vec<(u32, u32)> = Vec::new();
    let mut i: usize = 0;
    while i < entries.len()
        invariant
            start >= 0,
            group_end(entries@, start, entries@.len() as int) <= usize::MAX,
            i <= entries@.len(),
            *current_offset == group_end(entries@, start, i as int),
            blocks@.len() == i,
            forall|k: int|
                0 <= k < i ==> #[trigger] blocks@[k] == (
                    entry_start_block(entries@, start, k),
                    entries@[k].block_size,
                ),
        decreases entries@.len() - i,
    {
        proof {
            lemma_group_end_monotone(entries@, start, i as int, entries@.len() as int);
            lemma_group_end_monotone(entries@, start, i + 1, entries@.len() as int);
        }
        let entry = &entries[i];
        let aligned = align_up_exec(*current_offset, entry.block_size);
        let start_block = if entry.block_size > 1 {
            low_32(aligned / entry.block_size as usize)
        } else {
            low_32(aligned)
        };
        blocks.push((start_block, entry.block_size));
        *current_offset = aligned + entry.data.len();
        i = i + 1;
    }
    blocks
}

/// Appends a 32-bit LUT: the count, then one record per entry.
fn write_lut_32(buf: &mut Vec<u8>, entries: &[WriteEntry<u32>], blocks: &[(u32, u32)], Ghost(start): Ghost<int>)
    requires
        blocks@.len() == entries@.len(),
        forall|i: int|
            0 <= i < entries@.len() ==> #[trigger] blocks@[i].0 == entry_start_block(entries@, start, i),
    ensures
        final(buf)@ == old(buf)@ + lut32_bytes(entries@, start),
{
    push_u32_le(buf, entries.len() as u32);
    let mut i: usize = 0;
    while i < entries.len()
        invariant
            blocks@.len() == entries@.len(),
            forall|k: int|
                0 <= k < entries@.len() ==> #[trigger] blocks@[k].0 == entry_start_block(entries@, start, k),
            i <= entries@.len(),
            buf@ == old(buf)@ + spec_u32_to_le_bytes(entries@.len() as u32) + lut32_records(
                entries@,
                start,
                i as int,
            ),
        decreases entries@.len() - i,
    {
        let ghost prev = buf@;
        let entry = &entries[i];
        push_u32_le(buf, entry.id);
        push_u32_le(buf, entry.block_size);
        push_u32_le(buf, (entry.data.len() as i32) as u32);
        push_u32_le(buf, blocks[i].0);
        push_u32_le(buf, entry.language_id);
        assert(buf@ =~= prev + lut32_record(entries@[i as int], entry_start_block(entries@, start, i as int)));
        i = i + 1;
    }
}

/// Appends a 64-bit LUT: the count, then one record per entry.
fn write_lut_64(buf: &mut Vec<u8>, entries: &[WriteEntry<u64>], blocks: &[(u32, u32)], Ghost(start): Ghost<int>)
    requires
        blocks@.len() == entries@.len(),
        forall|i: int|
            0 <= i < entries@.len() ==> #[trigger] blocks@[i].0 == entry_start_block(entries@, start, i),
    ensures
        final(buf)@ == old(buf)@ + lut64_bytes(entries@, start),
{
    push_u32_le(buf, entries.len() as u32);
    let mut i: usize = 0;
    while i < entries.len()
        invariant
            blocks@.len() == entries@.len(),
            forall|k: int|
                0 <= k < entries@.len() ==> #[trigger] blocks@[k].0 == entry_start_block(entries@, start, k),
            i <= entries@.len(),
            buf@ == old(buf)@ + spec_u32_to_le_bytes(entries@.len() as u32) + lut64_records(
                entries@,
                start,
                i as int,
            ),
        decreases entries@.len() - i,
    {
        let ghost prev = buf@;
        let entry = &entries[i];
        push_u64_le(buf, entry.id);
        push_u32_le(buf, entry.block_size);
        push_u32_le(buf, (entry.data.len() as i32) as u32);
        push_u32_le(buf, blocks[i].0);
        push_u32_le(buf, entry.language_id);
        assert(buf@ =~= prev + lut64_record(entries@[i as int], entry_start_block(entries@, start, i as int)));
        i = i + 1;
    }
}

/// Writes `data` over `buf` at `offset`.
fn write_at(buf: &mut Vec<u8>, offset: usize, data: &[u8])
    requires
        offset + data@.len() <= old(buf)@.len(),
    ensures
        final(buf)@ == overlay(old(buf)@, offset as int, data@),
{
    let n = buf.len();
    let mut j: usize = 0;
    while j < data.len()
        invariant
            n == old(buf)@.len(),
            buf@.len() == n,
            offset + data@.len() <= buf@.len(),
            j <= data@.len(),
            buf@ == overlay(old(buf)@, offset as int, data@.subrange(0, j as int)),
        decreases data@.len() - j,
    {
        buf.set(offset + j, data[j]);
        assert(buf@ =~= overlay(old(buf)@, offset as int, data@.subrange(0, j + 1)));
        j = j + 1;
    }
    assert(data@.subrange(0, data@.len() as int) =~= data@);
}

/// Writes each entry's data at its start block times its block size.
fn write_data<K: Copy>(buf: &mut Vec<u8>, entries: &[WriteEntry<K>], blocks: &[(u32, u32)], Ghost(start): Ghost<int>)
    requires
        start >= 0,
        group_end(entries@, start, entries@.len() as int) <= old(buf)@.len(),
        blocks@.len() == entries@.len(),
        forall|i: int|
            0 <= i < entries@.len() ==> #[trigger] blocks@[i] == (
                entry_start_block(entries@, start, i),
                entries@[i].block_size,
            ),
    ensures
        final(buf)@ == overlay_group(old(buf)@, entries@, start, entries@.len() as int),
        final(buf)@.len() == old(buf)@.len(),
{
    let n = buf.len();
    let mut i: usize = 0;
    while i < entries.len()
        invariant
            n == old(buf)@.len(),
            start >= 0,
            group_end(entries@, start, entries@.len() as int) <= old(buf)@.len(),
            blocks@.len() == entries@.len(),
            forall|k: int|
                0 <= k < entries@.len() ==> #[trigger] blocks@[k] == (
                    entry_start_block(entries@, start, k),
                    entries@[k].block_size,
                ),
            i <= entries@.len(),
            buf@ == overlay_group(old(buf)@, entries@, start, i as int),
            buf@.len() == old(buf)@.len(),
        decreases entries@.len() - i,
    {
        proof {
            lemma_write_offset_le(entries@, start, i as int);
            lemma_group_end_monotone(entries@, start, i as int, entries@.len() as int);
        }
        let (start_block, block_size) = blocks[i];
        assert(start_block * block_size == entry_write_offset(entries@, start, i as int));
        let byte_offset = start_block as usize * block_size as usize;
        write_at(buf, byte_offset, entries[i].data.as_slice());
        i = i + 1;
    }
}

/// `offset` rounded up to a multiple of `alignment`, in 128 bits.
fn align_up_wide(offset: u128, alignment: u32) -> (r: u128)
    requires
        offset <= u64::MAX,
    ensures
        r == align_up(offset as int, alignment),
{
    if alignment <= 1 {
        return offset;
    }
    let a = alignment as u128;
    let q = (offset + a - 1) / a;
    assert(q * a <= offset + a - 1) by (nonlinear_arith)
        requires a > 1, q as int == (offset as int + a as int - 1) / (a as int);
    q * a
}

/// Where a group's data ends when it starts at `start`, or `None` when that
/// end lies past the largest `usize`.
fn group_end_within<K: Copy>(es: &[WriteEntry<K>], start: u128) -> (r: Option<u128>)
    requires
        start <= usize::MAX,
    ensures
        match r {
            Some(e) => e == group_end(es@, start as int, es@.len() as int) && e <= usize::MAX,
            None => group_end(es@, start as int, es@.len() as int) > usize::MAX,
        },
{
    assert(usize::MAX <= u64::MAX);
    let mut cur = start;
    let mut i: usize = 0;
    while i < es.len()
        invariant
            start <= usize::MAX,
            usize::MAX <= u64::MAX,
            i <= es@.len(),
            cur == group_end(es@, start as int, i as int),
            cur <= usize::MAX,
        decreases es@.len() - i,
    {
        let aligned = align_up_wide(cur, es[i].block_size);
        proof {
            lemma_align_up(cur as int, es[i as int].block_size);
        }
        let next = aligned + es[i].data.len() as u128;
        if next > usize::MAX as u128 {
            proof {
                lemma_group_end_monotone(es@, start as int, i + 1, es@.len() as int);
            }
            return None;
        }
        cur = next;
        i = i + 1;
    }
    Some(cur)
}

impl PckWriter {
    /// Create a new empty writer.
    pub fn new() -> (w: Self)
        ensures
            language_map_entries(w.languages).dom() == Set::<u32>::empty(),
            w.sound_banks@.len() == 0,
            w.streaming_files@.len() == 0,
            w.external_files@.len() == 0,
    {
        PckWriter {
            languages: LanguageMap::new(),
            sound_banks: Vec::new(),
            streaming_files: Vec::new(),
            external_files: Vec::new(),
        }
    }

    /// Whether the file can be laid out, so that `to_bytes` can be called:
    /// the language map's offsets and the header size fit in 32 bits, and
    /// the whole file in memory.
    pub fn fits(&self) -> (b: bool)
        ensures
            b == writer_fits(*self),
    {
        if !string_map_fits_exec(&self.languages) {
            return false;
        }
        let lang = string_map_bytes(&self.languages);
        assert(lang@ == writer_lang_bytes(*self));
        let header = 28u128 + lang.len() as u128 + (4 + 20 * self.sound_banks.len() as u128) + (4 + 20
            * self.streaming_files.len() as u128) + (4 + 24 * self.external_files.len() as u128);
        assert(header == writer_header_len(*self));
        if header - 8 > 0xFFFF_FFFF {
            return false;
        }
        if header > usize::MAX as u128 {
            proof {
                lemma_group_end_monotone(self.sound_banks@, header as int, 0, self.sound_banks@.len() as int);
                lemma_group_end_monotone(self.streaming_files@, streams_start(*self), 0, self.streaming_files@.len() as int);
                lemma_group_end_monotone(self.external_files@, externals_start(*self), 0, self.external_files@.len() as int);
            }
            return false;
        }
        let s1 = match group_end_within(self.sound_banks.as_slice(), header) {
            Some(e) => e,
            None => {
                proof {
                    lemma_group_end_monotone(self.streaming_files@, streams_start(*self), 0, self.streaming_files@.len() as int);
                    lemma_group_end_monotone(self.external_files@, externals_start(*self), 0, self.external_files@.len() as int);
                }
                return false;
            },
        };
        let s2 = match group_end_within(self.streaming_files.as_slice(), s1) {
            Some(e) => e,
            None => {
                proof {
                    lemma_group_end_monotone(self.external_files@, externals_start(*self), 0, self.external_files@.len() as int);
                }
                return false;
            },
        };
        match group_end_within(self.external_files.as_slice(), s2) {
            Some(_) => true,
            None => false,
        }
    }

    /// Serialize the PCK file to bytes.
    pub fn to_bytes(&self) -> (buf: Vec<u8>)
        requires
            writer_fits(*self),
        ensures
            buf@ == pck_image(*self),
            is_sorted_listing(
                sorted_listing(language_map_entries(self.languages)),
                language_map_entries(self.languages),
            ),
    {
        proof {
            lemma_writer_lengths(*self);
        }
        let mut buf: Vec<u8> = Vec::new();
        // Tag
        push_u32_le(&mut buf, AKPK_TAG);
        // Placeholder for header_size (offset 4)
        let header_size_pos: usize = 4;
        push_u32_le(&mut buf, 0);
        // Version
        push_u32_le(&mut buf, PCK_VERSION);
        // Placeholders for the section sizes (offset 12..28)
        let section_sizes_pos: usize = 12;
        push_u32_le(&mut buf, 0);
        push_u32_le(&mut buf, 0);
        push_u32_le(&mut buf, 0);
        push_u32_le(&mut buf, 0);
        // Language map
        let lang_bytes = string_map_bytes(&self.languages);
        let lang_map_size = lang_bytes.len() as u32;
        push_all(&mut buf, lang_bytes.as_slice());
        // LUT sizes
        let banks_lut_size = lut_size_32(self.sound_banks.len());
        let stm_lut_size = lut_size_32(self.streaming_files.len());
        let ext_lut_size = lut_size_64(self.external_files.len());
        // header_size = everything after tag(4) + header_size field(4)
        let header_size = (buf.len() - 8 + banks_lut_size + stm_lut_size + ext_lut_size) as u32;
        let data_start = 8 + header_size as usize;
        assert(data_start == writer_header_len(*self));
        // Start blocks for all entries
        let mut current_offset = data_start;
        let bank_blocks = calc_start_blocks(self.sound_banks.as_slice(), &mut current_offset);
        assert(current_offset == streams_start(*self));
        let stm_blocks = calc_start_blocks(self.streaming_files.as_slice(), &mut current_offset);
        assert(current_offset == externals_start(*self));
        let ext_blocks = calc_start_blocks(self.external_files.as_slice(), &mut current_offset);
        // LUTs
        write_lut_32(&mut buf, self.sound_banks.as_slice(), bank_blocks.as_slice(), Ghost(writer_header_len(*self)));
        write_lut_32(&mut buf, self.streaming_files.as_slice(), stm_blocks.as_slice(), Ghost(streams_start(*self)));
        write_lut_64(&mut buf, self.external_files.as_slice(), ext_blocks.as_slice(), Ghost(externals_start(*self)));
        assert(buf@ =~= writer_head(*self));
        // File data at the computed offsets
        let total_size = current_offset;
        let ghost head = buf@;
        while buf.len() < total_size
            invariant
                head.len() <= buf@.len() <= total_size,
                buf@ == head + Seq::new((buf@.len() - head.len()) as nat, |i: int| 0u8),
            decreases total_size - buf@.len(),
        {
            buf.push(0);
            assert(buf@ =~= head + Seq::new((buf@.len() - head.len()) as nat, |i: int| 0u8));
        }
        write_data(&mut buf, self.sound_banks.as_slice(), bank_blocks.as_slice(), Ghost(writer_header_len(*self)));
        write_data(&mut buf, self.streaming_files.as_slice(), stm_blocks.as_slice(), Ghost(streams_start(*self)));
        write_data(&mut buf, self.external_files.as_slice(), ext_blocks.as_slice(), Ghost(externals_start(*self)));
        // Header sizes
        patch_u32_le(&mut buf, header_size_pos, header_size);
        patch_u32_le(&mut buf, section_sizes_pos, lang_map_size);
        patch_u32_le(&mut buf, section_sizes_pos + 4, banks_lut_size as u32);
        patch_u32_le(&mut buf, section_sizes_pos + 8, stm_lut_size as u32);
        patch_u32_le(&mut buf, section_sizes_pos + 12, ext_lut_size as u32);
        buf
    }
}

impl Default for PckWriter {
    fn default() -> (w: Self)
        ensures
            language_map_entries(w.languages).dom() == Set::<u32>::empty(),
            w.sound_banks@.len() == 0,
            w.streaming_files@.len() == 0,
            w.external_files@.len() == 0,
    {
        Self::new()
    }
}

/// Four bytes per entry for the key-independent fields plus the key and the
/// count: the size of a 32-bit LUT.
fn lut_size_32(count: usize) -> (n: usize)
    requires
        4 + 20 * count <= usize::MAX,
    ensures
        n == 4 + 20 * count,
{
    4 + count * 20
}

/// The size of a 64-bit LUT.
fn lut_size_64(count: usize) -> (n: usize)
    requires
        4 + 24 * count <= usize::MAX,
    ensures
        n == 4 + 24 * count,
{
    4 + count * 24
}

} // verus!
