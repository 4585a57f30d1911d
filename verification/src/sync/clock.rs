//! The time of the latest checkpoint that the worker has seen.

use vstd::prelude::*;

verus! {

/// Holds the timestamp of the latest processed checkpoint, in milliseconds,
/// and nothing before the first checkpoint.
#[derive(Debug, Clone, Copy, PartialEq, Eq, Structural)]
pub struct ClockCell {
    latest_checkpoint_timestamp_ms: Option<u64>,
}

impl View for ClockCell {
    type V = Option<u64>;

    closed spec fn view(&self) -> Option<u64> {
        self.latest_checkpoint_timestamp_ms
    }
}

impl ClockCell {
    /// A cell that no checkpoint has been written to.
    pub fn new() -> (cell: Self)
        ensures
            cell@ is None,
    {
        ClockCell { latest_checkpoint_timestamp_ms: None }
    }

    /// Stores the timestamp of a checkpoint.
    pub fn set(&mut self, timestamp_ms: u64)
        ensures
            final(self)@ == Some(timestamp_ms),
    {
        self.latest_checkpoint_timestamp_ms = Some(timestamp_ms);
    }

    /// The timestamp stored last, if any was.
    pub fn get(&self) -> (timestamp_ms: Option<u64>)
        ensures
            timestamp_ms == self@,
    {
        self.latest_checkpoint_timestamp_ms
    }
}

} // verus!
