//! A read-only virtual filesystem of many large files whose contents are
//! regenerated from a single seed on every read.

pub mod content;
pub mod mountoptions;
pub mod inode;
pub mod dir;
pub mod fs;
