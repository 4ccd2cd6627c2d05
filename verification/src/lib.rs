//! A typed access layer over a transactional, ordered key-value engine.
//!
//! A table of an engine holds raw bytes under raw keys. This library binds a
//! codec for the keys and a codec for the values to a table, and offers lookups,
//! scans over ranges of keys in either direction, writes and removals in terms
//! of the values that the codecs take and give. Transactions are the engine's:
//! every operation is handed the transaction that it runs in.
//!
//! The modules, from the ground up: `keys` moves a byte string to the next or
//! the previous one; `scan` turns the bounds of a range into the scan that an
//! engine runs; `format`, `layout` and `types` hold the codecs; `engine` states
//! what an engine offers and builds the typed operations on it; `typed` binds
//! codecs to a table; `tables` keeps an engine and its tables together; `paged`
//! runs work in steps; `db` holds what adapters of particular engines decide.

pub mod db;
pub mod engine;
pub mod format;
pub mod keys;
pub mod layout;
pub mod paged;
pub mod scan;
pub mod tables;
pub mod typed;
pub mod types;

pub use crate::engine::{readtx, writetx, Cursor, Failure, Iter, Store, Table, Transaction};
pub use crate::keys::{advance_key, retreat_key};
pub use crate::paged::paged;
pub use crate::tables::Tables;
pub use crate::typed::Typed;
