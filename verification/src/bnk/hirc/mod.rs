//! The HIRC (hierarchy) chunk: a binary reader and writer, and the object
//! types they move between bytes and values.

pub mod reader;
pub mod wire;
pub mod writer;
pub mod params;
pub mod types;
pub mod items;
