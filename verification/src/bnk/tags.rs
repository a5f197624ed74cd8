//! Known Wwise BNK chunk tags: the FOURCC of each tag's four ASCII letters,
//! little-endian packed (see `crate::hash::fourcc`).

use vstd::prelude::*;

verus! {

/// `BKHD`: bank header.
pub const BKHD: u32 = 0x4448_4B42;

/// `DIDX`: media index.
pub const DIDX: u32 = 0x5844_4944;

/// `DATA`: embedded media.
pub const DATA: u32 = 0x4154_4144;

/// `HIRC`: hierarchy.
pub const HIRC: u32 = 0x4352_4948;

/// `STID`: string map.
pub const STID: u32 = 0x4449_5453;

/// `STMG`: state manager.
pub const STMG: u32 = 0x474D_5453;

/// `FXPR`: FX parameters.
pub const FXPR: u32 = 0x5250_5846;

/// `ENVS`: environment settings.
pub const ENVS: u32 = 0x5356_4E45;

/// `PLAT`: platform data.
pub const PLAT: u32 = 0x5441_4C50;

/// `INIT`: plugin initialization.
pub const INIT: u32 = 0x5449_4E49;

} // verus!
