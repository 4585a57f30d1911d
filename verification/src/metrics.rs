//! The counters and gauges of the service.

use vstd::prelude::*;

verus! {

/// The value that a gauge shows for a sequence number: the number itself,
/// or the largest value of the gauge where it does not fit.
pub open spec fn gauge_value(sequence_number: u64) -> i64 {
    if sequence_number <= i64::MAX as u64 {
        sequence_number as i64
    } else {
        i64::MAX
    }
}

/// A counter after `count` increments: it stops at its largest value.
pub open spec fn counter_after(counter: u64, count: nat) -> u64 {
    if counter + count <= u64::MAX {
        (counter + count) as u64
    } else {
        u64::MAX
    }
}

/// Metrics for the service.
#[derive(Debug, Clone, Copy, PartialEq, Eq, Structural)]
pub struct Metrics {
    /// The last checkpoint whose progress was saved.
    pub last_checkpoint_checked: i64,
    /// The last checkpoint whose writes completed.
    pub last_checkpoint_indexed: i64,
    /// The total number of basic outputs indexed.
    pub indexed_basic_outputs_count: u64,
    /// The total number of NFT outputs indexed.
    pub indexed_nft_outputs_count: u64,
}

/// Converts a sequence number to the value of a gauge.
pub fn to_gauge(sequence_number: u64) -> (value: i64)
    ensures
        value == gauge_value(sequence_number),
{
    if sequence_number <= i64::MAX as u64 {
        sequence_number as i64
    } else {
        i64::MAX
    }
}

impl Metrics {
    /// Metrics of a service that has not indexed anything yet.
    pub fn new() -> (metrics: Self)
        ensures
            metrics == (Metrics {
                last_checkpoint_checked: 0,
                last_checkpoint_indexed: 0,
                indexed_basic_outputs_count: 0,
                indexed_nft_outputs_count: 0,
            }),
    {
        Metrics {
            last_checkpoint_checked: 0,
            last_checkpoint_indexed: 0,
            indexed_basic_outputs_count: 0,
            indexed_nft_outputs_count: 0,
        }
    }

    /// Counts one more indexed basic output.
    pub fn inc_indexed_basic_outputs(&mut self)
        ensures
            *final(self) == (Metrics {
                indexed_basic_outputs_count: counter_after(
                    old(self).indexed_basic_outputs_count,
                    1,
                ),
                ..*old(self)
            }),
    {
        self.indexed_basic_outputs_count = self.indexed_basic_outputs_count.saturating_add(1);
    }

    /// Counts one more indexed NFT output.
    pub fn inc_indexed_nft_outputs(&mut self)
        ensures
            *final(self) == (Metrics {
                indexed_nft_outputs_count: counter_after(old(self).indexed_nft_outputs_count, 1),
                ..*old(self)
            }),
    {
        self.indexed_nft_outputs_count = self.indexed_nft_outputs_count.saturating_add(1);
    }

    /// Records the last checkpoint whose progress was saved.
    pub fn set_last_checkpoint_checked(&mut self, sequence_number: u64)
        ensures
            *final(self) == (Metrics {
                last_checkpoint_checked: gauge_value(sequence_number),
                ..*old(self)
            }),
    {
        self.last_checkpoint_checked = to_gauge(sequence_number);
    }

    /// Records the last checkpoint whose writes completed.
    pub fn set_last_checkpoint_indexed(&mut self, sequence_number: u64)
        ensures
            *final(self) == (Metrics {
                last_checkpoint_indexed: gauge_value(sequence_number),
                ..*old(self)
            }),
    {
        self.last_checkpoint_indexed = to_gauge(sequence_number);
    }
}

} // verus!
