//! HIRC item types — one variant per Wwise object kind.

pub mod containers;
pub mod misc;
pub mod sound;
pub mod bus;
pub mod action;
pub mod fx;
pub mod music;
pub mod item;

pub use item::{HircBody, HircItem};
