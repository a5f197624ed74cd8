//! Shared HIRC parameter types used by multiple item types.

pub mod action;
pub mod props;
pub mod source;
pub mod state;
pub mod rtpc;
pub mod plugin;
pub mod node;
pub mod bus;
pub mod music;
pub mod decision_tree;
