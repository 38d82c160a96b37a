//! Log entries and their timestamps.

pub mod entry;
pub mod timestamp;
