//! A typed persistent key-value cache: a string-keyed upsert store with
//! typed accessors layered on top, each owning a fixed well-known key and a
//! codec (decimal text, lowercase hex, JSON).

pub mod accessors;
pub mod decimal;
pub mod hex_codec;
pub mod json_codec;
pub mod laws;
pub mod store;

pub use json_codec::NodeState;
pub use store::CacheEntry;
pub use store::PersistError;
pub use store::SqliteStorage;
