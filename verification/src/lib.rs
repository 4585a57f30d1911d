//! Core of an indexer for migrated stardust outputs: the row models, the two
//! relations with their pairing invariant, the per-checkpoint worker, the
//! progress protocol and the ownership queries, each with a proved contract.

pub mod checkpoint;
pub mod db;
pub mod idempotence;
pub mod metrics;
pub mod models;
pub mod output;
pub mod rest;
pub mod store;
pub mod supervisor;
pub mod sync;
pub mod text;
