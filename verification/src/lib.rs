//! An in-memory key/value store with last-write-wins timestamps, split into
//! independently lockable shards, together with the framed request/reply
//! protocol that serves it.

pub mod client;
pub mod hash;
pub mod lww;
pub mod protocol;
pub mod server;
pub mod shard;
pub mod stats;
pub mod store;
pub mod value;
pub mod wire;
