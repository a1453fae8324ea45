//! Local persistence rules of the Mindwtr desktop store: tolerant text codecs,
//! plans for atomic writes and retried reads, the two-tier configuration table,
//! the one-time legacy migration and the sync-folder reconciliation.
//!
//! The crate decides and computes; it performs no I/O. Callers read and write
//! files and hand the library plain values.

pub mod calendars;
pub mod chars;
pub mod codec;
pub mod config;
pub mod document;
pub mod error;
pub mod json;
pub mod migration;
pub mod paths;
pub mod reader;
pub mod settings;
pub mod sync;
pub mod tiers;
pub mod toml;
pub mod writer;
