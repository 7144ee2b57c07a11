//! Converted documents: how they are named in the cache and when the cache
//! gives old ones up.

pub mod cache;
pub mod conversion;
