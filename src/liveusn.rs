//! The live side: structures the volume ioctls return, their errors, and the
//! listener's decisions.

pub mod error;
pub mod listener;
pub mod live;
pub mod mapping;
pub mod ntfs;
