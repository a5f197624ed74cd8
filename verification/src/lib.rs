//! # pcktool
//!
//! Zero-copy parsing and writing of Wwise PCK packages and BNK soundbanks,
//! with machine-checked contracts.
//!
//! - **PCK** (`.pck`): a package of soundbanks, streaming files and external files.
//! - **BNK** (`.bnk`): a soundbank of tagged chunks (header, media index, media, hierarchy).
//!
//! All parsing works on `&[u8]` slices and all serialization produces `Vec<u8>`.
//! File I/O is the caller's business.

pub mod bnk;
pub mod bytes;
pub mod commands;
pub mod dump;
pub mod error;
pub mod hash;
pub mod listing;
pub mod pck;

pub use error::{Error, Result};
