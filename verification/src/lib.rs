//! A persisted registry of named records: each record ties a unique name to
//! the origin it came from.
//!
//! The registry lives in memory. It is built from what a backing file held
//! and hands out what the file is to hold next; reading and writing the file
//! is left to the caller.

pub mod cache;
pub mod error;
pub mod item;
pub mod records;

pub use cache::Cache;
pub use error::CacheError;
pub use item::Item;
