//! Command lines: what the arguments of each program ask for, and the messages
//! on what is wrong with them.

pub mod behavior;
pub mod bench;
pub mod cache;
pub mod campaign;
pub mod shards;
