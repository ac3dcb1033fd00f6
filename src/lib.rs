//! Parsing and folder-path annotation of the NTFS USN change journal.

pub mod annotate;
pub mod error;
pub mod flags;
pub mod fmt;
pub mod le;
pub mod liveusn;
pub mod mapping;
pub mod record;
pub mod reference;
pub mod timestamp;
pub mod usn;
