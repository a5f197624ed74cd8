//! PCK (Wwise package) file format support.
//!
//! A PCK file contains:
//! - A language string map
//! - Sound bank entries (`.bnk` files)
//! - Streaming file entries (`.wem` files played via streaming)
//! - External file entries (64-bit ID, additional loose media)
//!
//! The on-disk layout is:
//! ```text
//! [AKPK tag: u32][header_size: u32][version: u32]
//! [lang_map_size: u32][banks_lut_size: u32][stm_lut_size: u32][ext_lut_size: u32]
//! [language string map]
//! [soundbank LUT]
//! [streaming file LUT]
//! [external file LUT]
//! [file data (block-aligned)]
//! ```
//!
//! A big-endian package, recognised by its version field at offset 8
//! reading as 1 only in big-endian order, stores every number big-endian,
//! has a compact header without the external file LUT size (and so no
//! external files), 24-byte LUT entries (the five fields and four bytes of
//! padding) and UTF-16BE language names.
use vstd::prelude::*;

mod entry;
pub mod string_map;
pub mod writer;

pub use entry::{ExternalFileEntry, FileEntry, SoundBankEntry, StreamingFileEntry};
pub use string_map::{LanguageMap, StringMap};
pub use writer::{PckWriter, WriteEntry};

use crate::bytes::{
    spec_i32_from_be_bytes, spec_i32_from_le_bytes, spec_u64_from_le_bytes, zc_read_i32, zc_read_i32_be,
    zc_read_u32, zc_read_u32_be, zc_read_u64,
};
use crate::bnk::{bnk_chunks, bnk_ok, media_after, SoundBank};
use crate::error::{Error, Result};
use string_map::{be32_at, language_map_entries, string_map_of, string_map_of_be, u32_at};

verus! {

/// AKPK magic tag (`fourcc(b"AKPK")`).
pub const AKPK_TAG: u32 = 0x4B50_4B41;

/// Expected PCK version.
pub const PCK_VERSION: u32 = 0x1;

/// Size of the fixed header after the tag: six `u32` fields.
pub const PCK_HEADER_SIZE: usize = 24;

/// Size of a LUT entry with a 32-bit key.
pub const LUT_ENTRY_32_SIZE: usize = 20;

/// Size of a LUT entry with a 64-bit key.
pub const LUT_ENTRY_64_SIZE: usize = 24;

// ── LUT model ──

/// The number of entries a LUT declares (none when it is shorter than its count).
pub open spec fn lut_count(lut: Seq<u8>) -> int {
    if lut.len() < 4 {
        0
    } else {
        u32_at(lut, 0) as int
    }
}

/// The little-endian `i32` at `pos`.
pub open spec fn i32_at(d: Seq<u8>, pos: int) -> i32 {
    spec_i32_from_le_bytes(d.subrange(pos, pos + 4))
}

/// The little-endian `u64` at `pos`.
pub open spec fn u64_at(d: Seq<u8>, pos: int) -> u64 {
    spec_u64_from_le_bytes(d.subrange(pos, pos + 8))
}

/// The fields of LUT entry `i`, laid out from `base` with an ID of `id_width`
/// bytes: block size, file size, start block, language ID.
pub open spec fn lut_fields(lut: Seq<u8>, base: int, id_width: int) -> (u32, i32, u32, u32) {
    (
        u32_at(lut, base + id_width),
        i32_at(lut, base + id_width + 4),
        u32_at(lut, base + id_width + 8),
        u32_at(lut, base + id_width + 12),
    )
}

/// Entry `i` of a LUT whose entries are `size` bytes with an ID of
/// `id_width` bytes is whole, has a non-negative size, and its data lies
/// inside the file.
pub open spec fn lut_entry_ok(lut: Seq<u8>, file: Seq<u8>, i: int, size: int, id_width: int) -> bool {
    let base = 4 + size * i;
    let (block_size, file_size, start_block, _) = lut_fields(lut, base, id_width);
    &&& base + size <= lut.len()
    &&& file_size >= 0
    &&& start_block * block_size + file_size <= file.len()
}

/// The data of LUT entry `i`.
pub open spec fn lut_entry_data(lut: Seq<u8>, file: Seq<u8>, i: int, size: int, id_width: int) -> Seq<u8> {
    let (block_size, file_size, start_block, _) = lut_fields(lut, 4 + size * i, id_width);
    file.subrange(start_block * block_size, start_block * block_size + file_size)
}

/// Every entry the LUT declares can be read.
pub open spec fn lut_ok(lut: Seq<u8>, file: Seq<u8>, size: int, id_width: int) -> bool {
    forall|i: int| 0 <= i < lut_count(lut) ==> #[trigger] lut_entry_ok(lut, file, i, size, id_width)
}

/// Entry `i` is the first that cannot be read.
pub open spec fn lut_fails_at(lut: Seq<u8>, file: Seq<u8>, i: int, size: int, id_width: int) -> bool {
    &&& 0 <= i < lut_count(lut)
    &&& !lut_entry_ok(lut, file, i, size, id_width)
    &&& forall|j: int| 0 <= j < i ==> #[trigger] lut_entry_ok(lut, file, j, size, id_width)
}

/// `e` is entry `i` of a LUT with 32-bit keys.
pub open spec fn lut32_entry_is<'a, E: FileEntry<'a, u32>>(e: E, lut: Seq<u8>, file: Seq<u8>, i: int) -> bool {
    let base = 4 + 20 * i;
    let (block_size, _, start_block, language_id) = lut_fields(lut, base, 4);
    &&& e.entry_id() == u32_at(lut, base)
    &&& e.entry_block_size() == block_size
    &&& e.entry_start_block() == start_block
    &&& e.entry_language_id() == language_id
    &&& e.entry_data() == lut_entry_data(lut, file, i, 20, 4)
}

/// `v` holds the entries of a LUT with 32-bit keys, in order.
pub open spec fn lut32_read_as<'a, E: FileEntry<'a, u32>>(v: Seq<E>, lut: Seq<u8>, file: Seq<u8>) -> bool {
    &&& v.len() == lut_count(lut)
    &&& forall|i: int| 0 <= i < v.len() ==> lut32_entry_is(#[trigger] v[i], lut, file, i)
}

/// `e` is entry `i` of a LUT with 64-bit keys.
pub open spec fn lut64_entry_is(e: ExternalFileEntry, lut: Seq<u8>, file: Seq<u8>, i: int) -> bool {
    let base = 4 + 24 * i;
    let (block_size, _, start_block, language_id) = lut_fields(lut, base, 8);
    &&& e.id == u64_at(lut, base)
    &&& e.block_size == block_size
    &&& e.start_block == start_block
    &&& e.language_id == language_id
    &&& e.data@ == lut_entry_data(lut, file, i, 24, 8)
}

/// `v` holds the entries of a LUT with 64-bit keys, in order.
pub open spec fn lut64_read_as(v: Seq<ExternalFileEntry>, lut: Seq<u8>, file: Seq<u8>) -> bool {
    &&& v.len() == lut_count(lut)
    &&& forall|i: int| 0 <= i < v.len() ==> lut64_entry_is(#[trigger] v[i], lut, file, i)
}

/// The reason given for a LUT that ends before entry `i`.
#[verifier::external_body]
fn reason_truncated(i: usize) -> String {
    format!("LUT truncated at entry {i}")
}

/// The reason given for a negative file size.
#[verifier::external_body]
fn reason_negative_size(file_size: i32) -> String {
    format!("negative file size {file_size}")
}

/// The reason given for data that runs past the end of the file.
#[verifier::external_body]
fn reason_out_of_range(start: u64, end: u64, len: usize) -> String {
    format!("data range 0x{start:X}..0x{end:X} exceeds file size 0x{len:X}")
}

/// Reads the fields shared by both LUT layouts for the entry at `offset`
/// (after an ID of `id_width` bytes) and checks them; returns the block
/// size, start block, language ID and the data's byte range.
fn read_lut_fields(
    lut_data: &[u8],
    file_data: &[u8],
    offset: usize,
    id_width: usize,
    index: usize,
) -> (r: Result<(u32, u32, u32, usize, usize)>)
    requires
        offset + id_width + 16 <= lut_data@.len(),
        index <= u32::MAX,
    ensures
        ({
            let (block_size, file_size, start_block, language_id) = lut_fields(
                lut_data@,
                offset as int,
                id_width as int,
            );
            let ok = file_size >= 0 && start_block * block_size + file_size <= file_data@.len();
            match r {
                Ok((b, s, l, start, end)) => ok && b == block_size && s == start_block && l
                    == language_id && start == start_block * block_size && end == start
                    + file_size,
                Err(e) => !ok && (e matches Error::InvalidEntry { index: ix, .. } && ix == index),
            }
        }),
{
    let lut_len = lut_data.len();
    assert(lut_len == lut_data@.len());
    let at = offset + id_width;
    let block_size = match zc_read_u32(&lut_data[at..at + 4]) {
        Some(v) => v,
        None => {
            return Err(Error::ZeroCopyCast { offset: at as u64, reason: String::new() });
        },
    };
    let file_size = match zc_read_i32(&lut_data[at + 4..at + 8]) {
        Some(v) => v,
        None => {
            return Err(Error::ZeroCopyCast { offset: at as u64, reason: String::new() });
        },
    };
    let start_block = match zc_read_u32(&lut_data[at + 8..at + 12]) {
        Some(v) => v,
        None => {
            return Err(Error::ZeroCopyCast { offset: at as u64, reason: String::new() });
        },
    };
    let language_id = match zc_read_u32(&lut_data[at + 12..at + 16]) {
        Some(v) => v,
        None => {
            return Err(Error::ZeroCopyCast { offset: at as u64, reason: String::new() });
        },
    };
    if file_size < 0 {
        return Err(Error::InvalidEntry { index: index as u32, reason: reason_negative_size(file_size) });
    }
    assert((start_block as u64) * (block_size as u64) <= 0xFFFF_FFFE_0000_0001u64) by (nonlinear_arith)
        requires start_block <= 0xFFFF_FFFFu32, block_size <= 0xFFFF_FFFFu32;
    let actual_offset = start_block as u64 * block_size as u64;
    let end = actual_offset + file_size as u64;
    if end > file_data.len() as u64 {
        return Err(
            Error::InvalidEntry {
                index: index as u32,
                reason: reason_out_of_range(actual_offset, end, file_data.len()),
            },
        );
    }
    Ok((block_size, start_block, language_id, actual_offset as usize, end as usize))
}

/// Parse a LUT with 32-bit keys; entry data borrows from `file_data`.
pub fn parse_lut_32<'a, E: FileEntry<'a, u32>>(lut_data: &[u8], file_data: &'a [u8]) -> (r: Result<Vec<E>>)
    ensures
        match r {
            Ok(v) => lut_ok(lut_data@, file_data@, 20, 4) && lut32_read_as(v@, lut_data@, file_data@),
            Err(e) => !lut_ok(lut_data@, file_data@, 20, 4) && (e matches Error::InvalidEntry { index, .. }
                && lut_fails_at(lut_data@, file_data@, index as int, 20, 4)),
        },
{
    if lut_data.len() < 4 {
        return Ok(Vec::new());
    }
    let count = vstd::bytes::u32_from_le_bytes(&lut_data[0..4]) as usize;
    assert(count == lut_count(lut_data@));
    let mut entries: Vec<E> = Vec::new();
    let mut offset: usize = 4;
    let mut i: usize = 0;
    while i < count
        invariant
            count == lut_count(lut_data@),
            count <= u32::MAX,
            i <= count,
            offset == 4 + 20 * i,
            offset <= lut_data@.len(),
            entries@.len() == i,
            forall|j: int| 0 <= j < i ==> #[trigger] lut_entry_ok(lut_data@, file_data@, j, 20, 4),
            forall|j: int| 0 <= j < i ==> lut32_entry_is(#[trigger] entries@[j], lut_data@, file_data@, j),
        decreases count - i,
    {
        if lut_data.len() - offset < LUT_ENTRY_32_SIZE {
            assert(!lut_entry_ok(lut_data@, file_data@, i as int, 20, 4));
            return Err(Error::InvalidEntry { index: i as u32, reason: reason_truncated(i) });
        }
        let id = match zc_read_u32(&lut_data[offset..offset + 4]) {
            Some(v) => v,
            None => {
                return Err(Error::ZeroCopyCast { offset: offset as u64, reason: String::new() });
            },
        };
        let (block_size, start_block, language_id, start, end) = match read_lut_fields(
            lut_data,
            file_data,
            offset,
            4,
            i,
        ) {
            Ok(f) => f,
            Err(e) => {
                assert(!lut_entry_ok(lut_data@, file_data@, i as int, 20, 4));
                assert(lut_fails_at(lut_data@, file_data@, i as int, 20, 4));
                return Err(e);
            },
        };
        let entry = E::from_raw_32(id, block_size, start_block, language_id, &file_data[start..end]);
        entries.push(entry);
        assert(lut_entry_ok(lut_data@, file_data@, i as int, 20, 4));
        assert(lut32_entry_is(entries@[i as int], lut_data@, file_data@, i as int));
        offset = offset + LUT_ENTRY_32_SIZE;
        i = i + 1;
    }
    Ok(entries)
}

/// Parse a LUT with 64-bit keys; entry data borrows from `file_data`.
pub fn parse_lut_64<'a>(lut_data: &[u8], file_data: &'a [u8]) -> (r: Result<Vec<ExternalFileEntry<'a>>>)
    ensures
        match r {
            Ok(v) => lut_ok(lut_data@, file_data@, 24, 8) && lut64_read_as(v@, lut_data@, file_data@),
            Err(e) => !lut_ok(lut_data@, file_data@, 24, 8) && (e matches Error::InvalidEntry { index, .. }
                && lut_fails_at(lut_data@, file_data@, index as int, 24, 8)),
        },
{
    if lut_data.len() < 4 {
        return Ok(Vec::new());
    }
    let count = vstd::bytes::u32_from_le_bytes(&lut_data[0..4]) as usize;
    assert(count == lut_count(lut_data@));
    let mut entries: Vec<ExternalFileEntry<'a>> = Vec::new();
    let mut offset: usize = 4;
    let mut i: usize = 0;
    while i < count
        invariant
            count == lut_count(lut_data@),
            count <= u32::MAX,
            i <= count,
            offset == 4 + 24 * i,
            offset <= lut_data@.len(),
            entries@.len() == i,
            forall|j: int| 0 <= j < i ==> #[trigger] lut_entry_ok(lut_data@, file_data@, j, 24, 8),
            forall|j: int| 0 <= j < i ==> lut64_entry_is(#[trigger] entries@[j], lut_data@, file_data@, j),
        decreases count - i,
    {
        if lut_data.len() - offset < LUT_ENTRY_64_SIZE {
            assert(!lut_entry_ok(lut_data@, file_data@, i as int, 24, 8));
            return Err(Error::InvalidEntry { index: i as u32, reason: reason_truncated(i) });
        }
        let id = match zc_read_u64(&lut_data[offset..offset + 8]) {
            Some(v) => v,
            None => {
                return Err(Error::ZeroCopyCast { offset: offset as u64, reason: String::new() });
            },
        };
        let (block_size, start_block, language_id, start, end) = match read_lut_fields(
            lut_data,
            file_data,
            offset,
            8,
            i,
        ) {
            Ok(f) => f,
            Err(e) => {
                assert(!lut_entry_ok(lut_data@, file_data@, i as int, 24, 8));
                assert(lut_fails_at(lut_data@, file_data@, i as int, 24, 8));
                return Err(e);
            },
        };
        let entry = ExternalFileEntry { id, block_size, start_block, language_id, data: &file_data[start..end] };
        entries.push(entry);
        assert(lut_entry_ok(lut_data@, file_data@, i as int, 24, 8));
        assert(lut64_entry_is(entries@[i as int], lut_data@, file_data@, i as int));
        offset = offset + LUT_ENTRY_64_SIZE;
        i = i + 1;
    }
    Ok(entries)
}

/// Reads and checks the fields of the big-endian LUT entry at `offset`;
/// returns the block size, start block, language ID and the data's byte range.
fn read_lut_fields_be(
    lut_data: &[u8],
    file_data: &[u8],
    offset: usize,
    index: usize,
) -> (r: Result<(u32, u32, u32, usize, usize)>)
    requires
        offset + 20 <= lut_data@.len(),
        index <= u32::MAX,
    ensures
        ({
            let (block_size, file_size, start_block, language_id) = lut_be_fields(lut_data@, offset as int);
            let ok = file_size >= 0 && start_block * block_size + file_size <= file_data@.len();
            match r {
                Ok((b, s, l, start, end)) => ok && b == block_size && s == start_block && l
                    == language_id && start == start_block * block_size && end == start
                    + file_size,
                Err(e) => !ok && (e matches Error::InvalidEntry { index: ix, .. } && ix == index),
            }
        }),
{
    let lut_len = lut_data.len();
    assert(lut_len == lut_data@.len());
    let at = offset + 4;
    let block_size = zc_read_u32_be(&lut_data[at..at + 4]).unwrap();
    let file_size = zc_read_i32_be(&lut_data[at + 4..at + 8]).unwrap();
    let start_block = zc_read_u32_be(&lut_data[at + 8..at + 12]).unwrap();
    let language_id = zc_read_u32_be(&lut_data[at + 12..at + 16]).unwrap();
    assert(lut_data@.subrange(at as int, at + 4) == lut_data@.subrange(offset + 4, offset + 4 + 4));
    if file_size < 0 {
        return Err(Error::InvalidEntry { index: index as u32, reason: reason_negative_size(file_size) });
    }
    assert((start_block as u64) * (block_size as u64) <= 0xFFFF_FFFE_0000_0001u64) by (nonlinear_arith)
        requires start_block <= 0xFFFF_FFFFu32, block_size <= 0xFFFF_FFFFu32;
    let actual_offset = start_block as u64 * block_size as u64;
    let end = actual_offset + file_size as u64;
    if end > file_data.len() as u64 {
        return Err(
            Error::InvalidEntry {
                index: index as u32,
                reason: reason_out_of_range(actual_offset, end, file_data.len()),
            },
        );
    }
    Ok((block_size, start_block, language_id, actual_offset as usize, end as usize))
}

/// Parse a big-endian LUT (24-byte entries with 32-bit keys); entry data
/// borrows from `file_data`.
pub fn parse_lut_be<'a, E: FileEntry<'a, u32>>(lut_data: &[u8], file_data: &'a [u8]) -> (r: Result<Vec<E>>)
    ensures
        match r {
            Ok(v) => lut_be_ok(lut_data@, file_data@) && lut_be_read_as(v@, lut_data@, file_data@),
            Err(e) => !lut_be_ok(lut_data@, file_data@) && (e matches Error::InvalidEntry { index, .. }
                && lut_be_fails_at(lut_data@, file_data@, index as int)),
        },
{
    if lut_data.len() < 4 {
        return Ok(Vec::new());
    }
    let count = zc_read_u32_be(&lut_data[0..4]).unwrap() as usize;
    assert(count == lut_count_be(lut_data@));
    let mut entries: Vec<E> = Vec::new();
    let mut offset: usize = 4;
    let mut i: usize = 0;
    while i < count
        invariant
            count == lut_count_be(lut_data@),
            count <= u32::MAX,
            i <= count,
            offset == 4 + 24 * i,
            offset <= lut_data@.len(),
            entries@.len() == i,
            forall|j: int| 0 <= j < i ==> #[trigger] lut_be_entry_ok(lut_data@, file_data@, j),
            forall|j: int| 0 <= j < i ==> lut_be_entry_is(#[trigger] entries@[j], lut_data@, file_data@, j),
        decreases count - i,
    {
        if lut_data.len() - offset < LUT_ENTRY_BE_SIZE {
            assert(!lut_be_entry_ok(lut_data@, file_data@, i as int));
            return Err(Error::InvalidEntry { index: i as u32, reason: reason_truncated(i) });
        }
        let id = zc_read_u32_be(&lut_data[offset..offset + 4]).unwrap();
        let (block_size, start_block, language_id, start, end) = match read_lut_fields_be(
            lut_data,
            file_data,
            offset,
            i,
        ) {
            Ok(f) => f,
            Err(e) => {
                assert(!lut_be_entry_ok(lut_data@, file_data@, i as int));
                assert(lut_be_fails_at(lut_data@, file_data@, i as int));
                return Err(e);
            },
        };
        let entry = E::from_raw_32(id, block_size, start_block, language_id, &file_data[start..end]);
        entries.push(entry);
        assert(lut_be_entry_ok(lut_data@, file_data@, i as int));
        assert(lut_be_entry_is(entries@[i as int], lut_data@, file_data@, i as int));
        offset = offset + LUT_ENTRY_BE_SIZE;
        i = i + 1;
    }
    Ok(entries)
}

// ── The package ──

/// Field `k` of the fixed header: header size, version, then the sizes of the
/// language map and of the three LUTs.
pub open spec fn pck_field(d: Seq<u8>, k: int) -> u32 {
    u32_at(d, 4 + 4 * k)
}

/// Where the language map ends.
pub open spec fn lang_end(d: Seq<u8>) -> int {
    28 + pck_field(d, 2)
}

/// Where the sound bank LUT ends.
pub open spec fn banks_end(d: Seq<u8>) -> int {
    lang_end(d) + pck_field(d, 3)
}

/// Where the streaming file LUT ends.
pub open spec fn streams_end(d: Seq<u8>) -> int {
    banks_end(d) + pck_field(d, 4)
}

/// Where the external file LUT ends.
pub open spec fn externals_end(d: Seq<u8>) -> int {
    streams_end(d) + pck_field(d, 5)
}

/// The language map's bytes.
pub open spec fn lang_region(d: Seq<u8>) -> Seq<u8> {
    d.subrange(28, lang_end(d))
}

/// The sound bank LUT's bytes.
pub open spec fn banks_region(d: Seq<u8>) -> Seq<u8> {
    d.subrange(lang_end(d), banks_end(d))
}

/// The streaming file LUT's bytes.
pub open spec fn streams_region(d: Seq<u8>) -> Seq<u8> {
    d.subrange(banks_end(d), streams_end(d))
}

/// The external file LUT's bytes.
pub open spec fn externals_region(d: Seq<u8>) -> Seq<u8> {
    d.subrange(streams_end(d), externals_end(d))
}

/// The tag, the fixed header, the version and the language map are all
/// there.
pub open spec fn pck_header_ok(d: Seq<u8>) -> bool {
    &&& d.len() >= 28
    &&& u32_at(d, 0) == AKPK_TAG
    &&& pck_field(d, 1) == PCK_VERSION
    &&& lang_end(d) <= d.len()
}

/// Each LUT that parsing reaches lies inside the data. (Parsing a package
/// whose header declares a LUT past the end of the data is not defined.)
pub open spec fn pck_luts_in_bounds_le(d: Seq<u8>) -> bool {
    pck_header_ok(d) ==> {
        &&& banks_end(d) <= d.len()
        &&& lut_ok(banks_region(d), d, 20, 4) ==> {
            &&& streams_end(d) <= d.len()
            &&& lut_ok(streams_region(d), d, 20, 4) ==> externals_end(d) <= d.len()
        }
    }
}

/// The little-endian package parses.
pub open spec fn pck_ok_le(d: Seq<u8>) -> bool {
    &&& pck_header_ok(d)
    &&& lut_ok(banks_region(d), d, 20, 4)
    &&& lut_ok(streams_region(d), d, 20, 4)
    &&& lut_ok(externals_region(d), d, 24, 8)
}

/// The error that parsing a little-endian package that does not parse
/// reports.
pub open spec fn pck_error_le(d: Seq<u8>, e: Error) -> bool {
    if d.len() < 4 {
        e == (Error::UnexpectedEof { offset: 0, needed: 4, available: d.len() as u64 })
    } else if u32_at(d, 0) != AKPK_TAG {
        e == (Error::InvalidMagic { expected: AKPK_TAG, actual: u32_at(d, 0) })
    } else if d.len() < 28 {
        e == (Error::UnexpectedEof { offset: 4, needed: 24, available: (d.len() - 4) as u64 })
    } else if pck_field(d, 1) != PCK_VERSION {
        e == Error::UnsupportedVersion(pck_field(d, 1))
    } else if lang_end(d) > d.len() {
        e == (Error::UnexpectedEof {
            offset: 28,
            needed: pck_field(d, 2) as u64,
            available: (d.len() - 28) as u64,
        })
    } else if !lut_ok(banks_region(d), d, 20, 4) {
        e matches Error::InvalidEntry { index, .. } && lut_fails_at(banks_region(d), d, index as int, 20, 4)
    } else if !lut_ok(streams_region(d), d, 20, 4) {
        e matches Error::InvalidEntry { index, .. } && lut_fails_at(streams_region(d), d, index as int, 20, 4)
    } else {
        e matches Error::InvalidEntry { index, .. } && lut_fails_at(externals_region(d), d, index as int, 24, 8)
    }
}

// ── The big-endian layout ──

/// The big-endian `i32` at `pos`.
pub open spec fn bei32_at(d: Seq<u8>, pos: int) -> i32 {
    spec_i32_from_be_bytes(d.subrange(pos, pos + 4))
}

/// The size of an entry of a big-endian LUT: ID, block size, file size,
/// start block, language ID and four bytes of padding.
pub const LUT_ENTRY_BE_SIZE: usize = 24;

/// The number of entries a big-endian LUT declares.
pub open spec fn lut_count_be(lut: Seq<u8>) -> int {
    if lut.len() < 4 {
        0
    } else {
        be32_at(lut, 0) as int
    }
}

/// The fields of the big-endian LUT entry at `base`: block size, file size,
/// start block, language ID.
pub open spec fn lut_be_fields(lut: Seq<u8>, base: int) -> (u32, i32, u32, u32) {
    (be32_at(lut, base + 4), bei32_at(lut, base + 8), be32_at(lut, base + 12), be32_at(lut, base + 16))
}

/// Entry `i` of a big-endian LUT is whole, has a non-negative size, and its
/// data lies inside the file.
pub open spec fn lut_be_entry_ok(lut: Seq<u8>, file: Seq<u8>, i: int) -> bool {
    let base = 4 + 24 * i;
    let (block_size, file_size, start_block, _) = lut_be_fields(lut, base);
    &&& base + 24 <= lut.len()
    &&& file_size >= 0
    &&& start_block * block_size + file_size <= file.len()
}

/// The data of entry `i` of a big-endian LUT.
pub open spec fn lut_be_entry_data(lut: Seq<u8>, file: Seq<u8>, i: int) -> Seq<u8> {
    let (block_size, file_size, start_block, _) = lut_be_fields(lut, 4 + 24 * i);
    file.subrange(start_block * block_size, start_block * block_size + file_size)
}

/// Every entry the big-endian LUT declares can be read.
pub open spec fn lut_be_ok(lut: Seq<u8>, file: Seq<u8>) -> bool {
    forall|i: int| 0 <= i < lut_count_be(lut) ==> #[trigger] lut_be_entry_ok(lut, file, i)
}

/// Entry `i` is the first of a big-endian LUT that cannot be read.
pub open spec fn lut_be_fails_at(lut: Seq<u8>, file: Seq<u8>, i: int) -> bool {
    &&& 0 <= i < lut_count_be(lut)
    &&& !lut_be_entry_ok(lut, file, i)
    &&& forall|j: int| 0 <= j < i ==> #[trigger] lut_be_entry_ok(lut, file, j)
}

/// `e` is entry `i` of a big-endian LUT.
pub open spec fn lut_be_entry_is<'a, E: FileEntry<'a, u32>>(e: E, lut: Seq<u8>, file: Seq<u8>, i: int) -> bool {
    let base = 4 + 24 * i;
    let (block_size, _, start_block, language_id) = lut_be_fields(lut, base);
    &&& e.entry_id() == be32_at(lut, base)
    &&& e.entry_block_size() == block_size
    &&& e.entry_start_block() == start_block
    &&& e.entry_language_id() == language_id
    &&& e.entry_data() == lut_be_entry_data(lut, file, i)
}

/// `v` holds the entries of a big-endian LUT, in order.
pub open spec fn lut_be_read_as<'a, E: FileEntry<'a, u32>>(v: Seq<E>, lut: Seq<u8>, file: Seq<u8>) -> bool {
    &&& v.len() == lut_count_be(lut)
    &&& forall|i: int| 0 <= i < v.len() ==> lut_be_entry_is(#[trigger] v[i], lut, file, i)
}

/// The package is big-endian: its tag is there, its version read
/// little-endian is not the supported one, but read big-endian it is.
pub open spec fn pck_is_be(d: Seq<u8>) -> bool {
    &&& d.len() >= 12
    &&& u32_at(d, 0) == AKPK_TAG
    &&& pck_field(d, 1) != PCK_VERSION
    &&& be32_at(d, 8) == PCK_VERSION
}

/// Field `k` of the compact big-endian header: header size, version, then
/// the sizes of the language map and of the two LUTs.
pub open spec fn be_field(d: Seq<u8>, k: int) -> u32 {
    be32_at(d, 4 + 4 * k)
}

/// Where the language map of a big-endian package ends.
pub open spec fn be_lang_end(d: Seq<u8>) -> int {
    24 + be_field(d, 2)
}

/// Where the sound bank LUT of a big-endian package ends.
pub open spec fn be_banks_end(d: Seq<u8>) -> int {
    be_lang_end(d) + be_field(d, 3)
}

/// Where the streaming file LUT of a big-endian package ends.
pub open spec fn be_streams_end(d: Seq<u8>) -> int {
    be_banks_end(d) + be_field(d, 4)
}

/// The language map of a big-endian package.
pub open spec fn be_lang_region(d: Seq<u8>) -> Seq<u8> {
    d.subrange(24, be_lang_end(d))
}

/// The sound bank LUT of a big-endian package.
pub open spec fn be_banks_region(d: Seq<u8>) -> Seq<u8> {
    d.subrange(be_lang_end(d), be_banks_end(d))
}

/// The streaming file LUT of a big-endian package.
pub open spec fn be_streams_region(d: Seq<u8>) -> Seq<u8> {
    d.subrange(be_banks_end(d), be_streams_end(d))
}

/// The compact header and the language map of a big-endian package are there.
pub open spec fn pck_header_ok_be(d: Seq<u8>) -> bool {
    &&& d.len() >= 24
    &&& be_lang_end(d) <= d.len()
}

/// Each LUT that parsing a big-endian package reaches lies inside the data.
pub open spec fn pck_luts_in_bounds_be(d: Seq<u8>) -> bool {
    pck_header_ok_be(d) ==> {
        &&& be_banks_end(d) <= d.len()
        &&& lut_be_ok(be_banks_region(d), d) ==> be_streams_end(d) <= d.len()
    }
}

/// The big-endian package parses.
pub open spec fn pck_ok_be(d: Seq<u8>) -> bool {
    &&& pck_header_ok_be(d)
    &&& lut_be_ok(be_banks_region(d), d)
    &&& lut_be_ok(be_streams_region(d), d)
}

/// The error that parsing a big-endian package that does not parse reports.
pub open spec fn pck_error_be(d: Seq<u8>, e: Error) -> bool {
    if d.len() < 24 {
        e == (Error::UnexpectedEof { offset: 4, needed: 20, available: (d.len() - 4) as u64 })
    } else if be_lang_end(d) > d.len() {
        e == (Error::UnexpectedEof {
            offset: 24,
            needed: be_field(d, 2) as u64,
            available: (d.len() - 24) as u64,
        })
    } else if !lut_be_ok(be_banks_region(d), d) {
        e matches Error::InvalidEntry { index, .. } && lut_be_fails_at(be_banks_region(d), d, index as int)
    } else {
        e matches Error::InvalidEntry { index, .. } && lut_be_fails_at(be_streams_region(d), d, index as int)
    }
}

/// `f` holds what the big-endian package `d` describes; such a package has
/// no external files.
pub open spec fn pck_read_as_be(f: PckFile, d: Seq<u8>) -> bool {
    &&& language_map_entries(f.languages) == string_map_of_be(be_lang_region(d))
    &&& lut_be_read_as(f.sound_banks@, be_banks_region(d), d)
    &&& lut_be_read_as(f.streaming_files@, be_streams_region(d), d)
    &&& f.external_files@.len() == 0
}

// ── Either byte order ──

/// Each LUT that parsing reaches lies inside the data. (Parsing a package
/// whose header declares a LUT past the end of the data is not defined.)
pub open spec fn pck_luts_in_bounds(d: Seq<u8>) -> bool {
    if pck_is_be(d) {
        pck_luts_in_bounds_be(d)
    } else {
        pck_luts_in_bounds_le(d)
    }
}

/// The package parses, in the byte order it is detected to have.
pub open spec fn pck_ok(d: Seq<u8>) -> bool {
    if pck_is_be(d) {
        pck_ok_be(d)
    } else {
        pck_ok_le(d)
    }
}

/// The error that parsing a package that does not parse reports.
pub open spec fn pck_error(d: Seq<u8>, e: Error) -> bool {
    if pck_is_be(d) {
        pck_error_be(d, e)
    } else {
        pck_error_le(d, e)
    }
}

/// `f` holds what the package `d` describes, in its byte order.
pub open spec fn pck_read_as(f: PckFile, d: Seq<u8>) -> bool {
    if pck_is_be(d) {
        pck_read_as_be(f, d)
    } else {
        pck_read_as_le(f, d)
    }
}

/// The media that a soundbank's bytes hold.
pub open spec fn bank_media(d: Seq<u8>) -> Map<u32, Seq<u8>> {
    media_after(d, bnk_chunks(d), bnk_chunks(d).len() as int)
}

/// The soundbank `d` parses and holds media for `id`.
pub open spec fn bank_holds(d: Seq<u8>, id: u32) -> bool {
    bnk_ok(d) && bank_media(d).contains_key(id)
}

/// A parsed PCK file. Borrows file data from the underlying byte slice.
#[derive(Debug)]
pub struct PckFile<'a> {
    /// Language ID → name mapping.
    pub languages: LanguageMap,
    /// Sound bank entries (borrow data from the source slice).
    pub sound_banks: Vec<SoundBankEntry<'a>>,
    /// Streaming file entries (WEM files).
    pub streaming_files: Vec<StreamingFileEntry<'a>>,
    /// External file entries (64-bit IDs).
    pub external_files: Vec<ExternalFileEntry<'a>>,
}

/// `f` holds what the little-endian package `d` describes.
pub open spec fn pck_read_as_le(f: PckFile, d: Seq<u8>) -> bool {
    &&& language_map_entries(f.languages) == string_map_of(lang_region(d))
    &&& lut32_read_as(f.sound_banks@, banks_region(d), d)
    &&& lut32_read_as(f.streaming_files@, streams_region(d), d)
    &&& lut64_read_as(f.external_files@, externals_region(d), d)
}

/// Reads field `k` of the fixed header.
fn read_header_field(data: &[u8], k: usize) -> (v: u32)
    requires
        data@.len() >= 28,
        k < 6,
    ensures
        v == pck_field(data@, k as int),
{
    let at = 4 + 4 * k;
    match zc_read_u32(&data[at..at + 4]) {
        Some(v) => v,
        None => 0,
    }
}

/// Whether `PckFile::parse` is defined on `data`: each LUT that parsing
/// reaches lies inside the data.
pub fn luts_in_bounds(data: &[u8]) -> (b: bool)
    ensures
        b == pck_luts_in_bounds(data@),
{
    if data.len() >= 12 && vstd::bytes::u32_from_le_bytes(&data[0..4]) == AKPK_TAG {
        let version_le = vstd::bytes::u32_from_le_bytes(&data[8..12]);
        if version_le != PCK_VERSION {
            let version_be = zc_read_u32_be(&data[8..12]).unwrap();
            assert(data@.subrange(8, 12) == data@.subrange(4 + 4 * 1int, 4 + 4 * 1int + 4));
            if version_be == PCK_VERSION {
                return luts_in_bounds_be(data);
            }
        }
    }
    luts_in_bounds_le(data)
}

/// Whether each LUT that parsing a big-endian package reaches lies inside
/// the data.
fn luts_in_bounds_be(data: &[u8]) -> (b: bool)
    ensures
        b == pck_luts_in_bounds_be(data@),
{
    if data.len() < 24 {
        return true;
    }
    let lang = zc_read_u32_be(&data[12..16]).unwrap() as u64;
    let banks = zc_read_u32_be(&data[16..20]).unwrap() as u64;
    let stm = zc_read_u32_be(&data[20..24]).unwrap() as u64;
    assert(lang == be_field(data@, 2));
    assert(banks == be_field(data@, 3));
    assert(stm == be_field(data@, 4));
    let len = data.len() as u64;
    if 24 + lang > len {
        return true;
    }
    let lang_end = (24 + lang) as usize;
    if lang_end as u64 + banks > len {
        return false;
    }
    let banks_end = lang_end + banks as usize;
    let banks_ok = parse_lut_be::<SoundBankEntry>(&data[lang_end..banks_end], data).is_ok();
    if !banks_ok {
        return true;
    }
    banks_end as u64 + stm <= len
}

/// Whether each LUT that parsing a little-endian package reaches lies inside
/// the data.
fn luts_in_bounds_le(data: &[u8]) -> (b: bool)
    ensures
        b == pck_luts_in_bounds_le(data@),
{
    if data.len() < 28 {
        return true;
    }
    let tag = vstd::bytes::u32_from_le_bytes(&data[0..4]);
    let version = read_header_field(data, 1);
    let lang = read_header_field(data, 2) as u64;
    let banks = read_header_field(data, 3) as u64;
    let stm = read_header_field(data, 4) as u64;
    let ext = read_header_field(data, 5) as u64;
    let len = data.len() as u64;
    if tag != AKPK_TAG || version != PCK_VERSION || 28 + lang > len {
        return true;
    }
    let lang_end = (28 + lang) as usize;
    if lang_end as u64 + banks > len {
        return false;
    }
    let banks_end = lang_end + banks as usize;
    let banks_ok = parse_lut_32::<SoundBankEntry>(&data[lang_end..banks_end], data).is_ok();
    if !banks_ok {
        return true;
    }
    if banks_end as u64 + stm > len {
        return false;
    }
    let stm_end = banks_end + stm as usize;
    let stm_ok = parse_lut_32::<StreamingFileEntry>(&data[banks_end..stm_end], data).is_ok();
    if !stm_ok {
        return true;
    }
    stm_end as u64 + ext <= len
}

impl<'a> PckFile<'a> {
    /// Parse a PCK file from a byte slice. Entry data borrows from `data`
    /// (zero-copy). The byte order is detected from the version field at
    /// offset 8: a package whose version reads as 1 only big-endian is read
    /// with the big-endian layout (compact header without an external file
    /// LUT, 24-byte LUT entries, UTF-16BE names).
    pub fn parse(data: &'a [u8]) -> (r: Result<Self>)
        requires
            pck_luts_in_bounds(data@),
        ensures
            match r {
                Ok(f) => pck_ok(data@) && pck_read_as(f, data@),
                Err(e) => !pck_ok(data@) && pck_error(data@, e),
            },
    {
        if data.len() >= 12 && vstd::bytes::u32_from_le_bytes(&data[0..4]) == AKPK_TAG {
            let version_le = vstd::bytes::u32_from_le_bytes(&data[8..12]);
            if version_le != PCK_VERSION {
                let version_be = zc_read_u32_be(&data[8..12]).unwrap();
                assert(data@.subrange(8, 12) == data@.subrange(4 + 4 * 1int, 4 + 4 * 1int + 4));
                if version_be == PCK_VERSION {
                    return Self::parse_be(data);
                }
            }
        }
        Self::parse_le(data)
    }

    /// Parse a big-endian package.
    fn parse_be(data: &'a [u8]) -> (r: Result<Self>)
        requires
            pck_is_be(data@),
            pck_luts_in_bounds_be(data@),
        ensures
            match r {
                Ok(f) => pck_ok_be(data@) && pck_read_as_be(f, data@),
                Err(e) => !pck_ok_be(data@) && pck_error_be(data@, e),
            },
    {
        if data.len() < 24 {
            return Err(Error::UnexpectedEof { offset: 4, needed: 20, available: (data.len() - 4) as u64 });
        }
        let lang_map_size = zc_read_u32_be(&data[12..16]).unwrap();
        let banks_lut_size = zc_read_u32_be(&data[16..20]).unwrap();
        let stm_lut_size = zc_read_u32_be(&data[20..24]).unwrap();
        assert(lang_map_size == be_field(data@, 2));
        assert(banks_lut_size == be_field(data@, 3));
        assert(stm_lut_size == be_field(data@, 4));
        let cursor: usize = 24;
        if lang_map_size as u64 > (data.len() - cursor) as u64 {
            return Err(
                Error::UnexpectedEof {
                    offset: cursor as u64,
                    needed: lang_map_size as u64,
                    available: (data.len() - cursor) as u64,
                },
            );
        }
        let lang_end = cursor + lang_map_size as usize;
        let languages = match StringMap::parse_be(&data[cursor..lang_end]) {
            Ok(m) => m,
            Err(e) => {
                return Err(e);
            },
        };
        let banks_end = lang_end + banks_lut_size as usize;
        let sound_banks = match parse_lut_be(&data[lang_end..banks_end], data) {
            Ok(v) => v,
            Err(e) => {
                return Err(e);
            },
        };
        let stm_end = banks_end + stm_lut_size as usize;
        let streaming_files = match parse_lut_be(&data[banks_end..stm_end], data) {
            Ok(v) => v,
            Err(e) => {
                return Err(e);
            },
        };
        Ok(PckFile { languages: languages.entries, sound_banks, streaming_files, external_files: Vec::new() })
    }

    /// Parse a little-endian package.
    fn parse_le(data: &'a [u8]) -> (r: Result<Self>)
        requires
            !pck_is_be(data@),
            pck_luts_in_bounds_le(data@),
        ensures
            match r {
                Ok(f) => pck_ok_le(data@) && pck_read_as_le(f, data@),
                Err(e) => !pck_ok_le(data@) && pck_error_le(data@, e),
            },
    {
        if data.len() < 4 {
            return Err(Error::UnexpectedEof { offset: 0, needed: 4, available: data.len() as u64 });
        }
        let tag = vstd::bytes::u32_from_le_bytes(&data[0..4]);
        if tag != AKPK_TAG {
            return Err(Error::InvalidMagic { expected: AKPK_TAG, actual: tag });
        }
        let header_offset: usize = 4;
        if data.len() < header_offset + PCK_HEADER_SIZE {
            return Err(
                Error::UnexpectedEof {
                    offset: header_offset as u64,
                    needed: PCK_HEADER_SIZE as u64,
                    available: (data.len() - header_offset) as u64,
                },
            );
        }
        let version = read_header_field(data, 1);
        if version != PCK_VERSION {
            return Err(Error::UnsupportedVersion(version));
        }
        let lang_map_size = read_header_field(data, 2);
        let banks_lut_size = read_header_field(data, 3);
        let stm_lut_size = read_header_field(data, 4);
        let ext_lut_size = read_header_field(data, 5);

        let cursor: usize = header_offset + PCK_HEADER_SIZE;
        // Parse the language map.
        if lang_map_size as u64 > (data.len() - cursor) as u64 {
            return Err(
                Error::UnexpectedEof {
                    offset: cursor as u64,
                    needed: lang_map_size as u64,
                    available: (data.len() - cursor) as u64,
                },
            );
        }
        let lang_end = cursor + lang_map_size as usize;
        let languages = match StringMap::parse(&data[cursor..lang_end]) {
            Ok(m) => m,
            Err(e) => {
                return Err(e);
            },
        };
        // Parse the sound bank LUT (32-bit keys).
        let banks_end = lang_end + banks_lut_size as usize;
        let sound_banks = match parse_lut_32(&data[lang_end..banks_end], data) {
            Ok(v) => v,
            Err(e) => {
                return Err(e);
            },
        };
        // Parse the streaming file LUT (32-bit keys).
        let stm_end = banks_end + stm_lut_size as usize;
        let streaming_files = match parse_lut_32(&data[banks_end..stm_end], data) {
            Ok(v) => v,
            Err(e) => {
                return Err(e);
            },
        };
        // Parse the external file LUT (64-bit keys).
        let ext_end = stm_end + ext_lut_size as usize;
        let external_files = match parse_lut_64(&data[stm_end..ext_end], data) {
            Ok(v) => v,
            Err(e) => {
                return Err(e);
            },
        };
        Ok(PckFile { languages: languages.entries, sound_banks, streaming_files, external_files })
    }

    /// Find a WEM by source ID: the first streaming file with that ID, else
    /// the embedded media of the first sound bank that parses and holds it.
    pub fn find_wem(&self, source_id: u32) -> (r: Option<&'a [u8]>)
        ensures
            match r {
                Some(w) => {
                    ||| exists|i: int|
                        0 <= i < self.streaming_files@.len() && self.streaming_files@[i].id == source_id
                            && (forall|j: int| 0 <= j < i ==> (#[trigger] self.streaming_files@[j]).id != source_id)
                            && w@ == self.streaming_files@[i].data@
                    ||| (forall|i: int| 0 <= i < self.streaming_files@.len() ==> (#[trigger] self.streaming_files@[i]).id != source_id)
                        && exists|j: int|
                        0 <= j < self.sound_banks@.len() && bank_holds(self.sound_banks@[j].data@, source_id)
                            && (forall|k: int| 0 <= k < j ==> !bank_holds(#[trigger] self.sound_banks@[k].data@, source_id))
                            && w@ == bank_media(self.sound_banks@[j].data@)[source_id]
                },
                None => (forall|i: int| 0 <= i < self.streaming_files@.len() ==> (#[trigger] self.streaming_files@[i]).id != source_id)
                    && (forall|j: int| 0 <= j < self.sound_banks@.len() ==> !bank_holds(#[trigger] self.sound_banks@[j].data@, source_id)),
            },
    {
        let mut i: usize = 0;
        while i < self.streaming_files.len()
            invariant
                i <= self.streaming_files@.len(),
                forall|j: int| 0 <= j < i ==> (#[trigger] self.streaming_files@[j]).id != source_id,
            decreases self.streaming_files@.len() - i,
        {
            if self.streaming_files[i].id == source_id {
                return Some(self.streaming_files[i].data);
            }
            i = i + 1;
        }
        let mut j: usize = 0;
        while j < self.sound_banks.len()
            invariant
                j <= self.sound_banks@.len(),
                forall|i: int| 0 <= i < self.streaming_files@.len() ==> (#[trigger] self.streaming_files@[i]).id != source_id,
                forall|k: int| 0 <= k < j ==> !bank_holds(#[trigger] self.sound_banks@[k].data@, source_id),
            decreases self.sound_banks@.len() - j,
        {
            let data = self.sound_banks[j].data;
            if let Ok(bank) = SoundBank::parse(data) {
                if let Some(media) = bank.find_media(source_id) {
                    return Some(media);
                }
            }
            j = j + 1;
        }
        None
    }

    /// Look up a language name by ID: "SFX" for ID 0, "Unknown" if missing.
    pub fn language_name(&self, id: u32) -> (name: &str)
        ensures
            id == 0 ==> name@ == "SFX"@,
            id != 0 && language_map_entries(self.languages).contains_key(id) ==> name@
                == language_map_entries(self.languages)[id],
            id != 0 && !language_map_entries(self.languages).contains_key(id) ==> name@
                == "Unknown"@,
    {
        if id == 0 {
            return "SFX";
        }
        match self.languages.get(id) {
            Some(s) => s.as_str(),
            None => "Unknown",
        }
    }
}

} // verus!
