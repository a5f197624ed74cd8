//! Error types.

use vstd::prelude::*;

verus! {

/// Errors that can occur when parsing or writing Wwise audio packages.
#[derive(Debug)]
pub enum Error {
    /// The file header magic bytes are invalid.
    InvalidMagic { expected: u32, actual: u32 },
    /// The file version is unsupported.
    UnsupportedVersion(u32),
    /// The file is truncated or a size field points past the end.
    UnexpectedEof { offset: u64, needed: u64, available: u64 },
    /// A LUT entry references invalid data.
    InvalidEntry { index: u32, reason: String },
    /// A BNK chunk could not be parsed.
    InvalidChunk { tag: String, offset: u64, reason: String },
    /// A WEM source ID was not found.
    WemNotFound(u32),
    /// A soundbank ID was not found.
    SoundBankNotFound(u32),
    /// A fixed-size record could not be decoded from the bytes given.
    ZeroCopyCast { offset: u64, reason: String },
}

/// Result alias using [`Error`].
pub type Result<T> = core::result::Result<T, Error>;

/// The error reported when `needed` bytes are wanted at `offset` but only
/// `available` remain.
pub(crate) fn eof_error(offset: usize, needed: usize, available: usize) -> (e: Error)
    ensures
        e == (Error::UnexpectedEof { offset: offset as u64, needed: needed as u64, available: available as u64 }),
{
    Error::UnexpectedEof { offset: offset as u64, needed: needed as u64, available: available as u64 }
}

} // verus!
