//! Checkpoint synchronisation: the clock cell, the worker that applies one
//! checkpoint, the progress store and the executor that drives them.

pub mod clock;
pub mod config;
pub mod executor;
pub mod laws;
pub mod progress_store;
pub mod worker;
