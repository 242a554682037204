//! A column-aware key-value store with a verified in-memory implementation.
//!
//! The store partitions a single flat byte-keyed mapping into named logical
//! columns. A fixed registry of column names is supplied when the store is
//! opened; every operation validates its column against that registry and
//! then acts on the flat mapping under a composite key derived from the
//! column name and the caller's key, so each column keeps an independent
//! key space over the one shared container.

pub mod flat;
pub mod keying;
pub mod laws;
pub mod memory_db;
pub mod registry;
