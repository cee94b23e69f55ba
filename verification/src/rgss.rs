//! RGSS archive support: the LCG keystream cipher shared by every archive
//! version, plus the readers and writers for the V1 (sequential) and V3
//! (table-of-contents) on-disk layouts.

pub mod entry;
pub mod format;
pub mod key;
pub mod reader;
pub mod writer;
pub mod version;
