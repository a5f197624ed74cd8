//! PCK file entry types.
//!
//! Each entry in a PCK LUT borrows its data from the package's byte slice.

use vstd::prelude::*;

verus! {

/// Constructing a file entry from raw LUT fields (32-bit key variant).
pub trait FileEntry<'a, K>: Sized {
    /// The entry's ID.
    spec fn entry_id(&self) -> K;

    /// The entry's block size.
    spec fn entry_block_size(&self) -> u32;

    /// The entry's starting block.
    spec fn entry_start_block(&self) -> u32;

    /// The entry's language ID.
    spec fn entry_language_id(&self) -> u32;

    /// The entry's data.
    spec fn entry_data(&self) -> Seq<u8>;

    fn from_raw_32(
        id: K,
        block_size: u32,
        start_block: u32,
        language_id: u32,
        data: &'a [u8],
    ) -> (e: Self)
        ensures
            e.entry_id() == id,
            e.entry_block_size() == block_size,
            e.entry_start_block() == start_block,
            e.entry_language_id() == language_id,
            e.entry_data() == data@,
    ;
}

/// A sound bank (`.bnk`) entry in a PCK file.
#[derive(Debug, Clone)]
pub struct SoundBankEntry<'a> {
    /// Sound bank ID (FNV1 hash).
    pub id: u32,
    /// Block alignment size.
    pub block_size: u32,
    /// Starting block index in the file.
    pub start_block: u32,
    /// Language ID (0 = SFX / language-independent).
    pub language_id: u32,
    /// Raw BNK data (borrows from the PCK file slice).
    pub data: &'a [u8],
}

impl<'a> FileEntry<'a, u32> for SoundBankEntry<'a> {
    open spec fn entry_id(&self) -> u32 {
        self.id
    }

    open spec fn entry_block_size(&self) -> u32 {
        self.block_size
    }

    open spec fn entry_start_block(&self) -> u32 {
        self.start_block
    }

    open spec fn entry_language_id(&self) -> u32 {
        self.language_id
    }

    open spec fn entry_data(&self) -> Seq<u8> {
        self.data@
    }

    fn from_raw_32(
        id: u32,
        block_size: u32,
        start_block: u32,
        language_id: u32,
        data: &'a [u8],
    ) -> (e: Self) {
        Self { id, block_size, start_block, language_id, data }
    }
}

/// A streaming WEM file entry in a PCK file.
#[derive(Debug, Clone)]
pub struct StreamingFileEntry<'a> {
    /// WEM source ID.
    pub id: u32,
    /// Block alignment size.
    pub block_size: u32,
    /// Starting block index in the file.
    pub start_block: u32,
    /// Language ID.
    pub language_id: u32,
    /// Raw WEM data (borrows from the PCK file slice).
    pub data: &'a [u8],
}

impl<'a> FileEntry<'a, u32> for StreamingFileEntry<'a> {
    open spec fn entry_id(&self) -> u32 {
        self.id
    }

    open spec fn entry_block_size(&self) -> u32 {
        self.block_size
    }

    open spec fn entry_start_block(&self) -> u32 {
        self.start_block
    }

    open spec fn entry_language_id(&self) -> u32 {
        self.language_id
    }

    open spec fn entry_data(&self) -> Seq<u8> {
        self.data@
    }

    fn from_raw_32(
        id: u32,
        block_size: u32,
        start_block: u32,
        language_id: u32,
        data: &'a [u8],
    ) -> (e: Self) {
        Self { id, block_size, start_block, language_id, data }
    }
}

/// An external file entry in a PCK file (64-bit ID).
#[derive(Debug, Clone)]
pub struct ExternalFileEntry<'a> {
    /// External file ID (64-bit).
    pub id: u64,
    /// Block alignment size.
    pub block_size: u32,
    /// Starting block index in the file.
    pub start_block: u32,
    /// Language ID.
    pub language_id: u32,
    /// Raw file data (borrows from the PCK file slice).
    pub data: &'a [u8],
}

} // verus!
