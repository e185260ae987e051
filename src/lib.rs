//! A small key/value store over byte strings.
//!
//! Two backends share one interface: `MemStore`, a lock-guarded in-memory
//! hash map, and `SledStore`, an adapter over an embedded `sled` database.
pub mod result;
pub mod storage;

pub use result::{KvsError, Result};
pub use storage::{BatchStore, MemStore, SledStore, Store};
