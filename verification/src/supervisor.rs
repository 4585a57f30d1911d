//! The end of a run: how the subsystems have finished decides the exit code.

use vstd::prelude::*;

verus! {

/// How a subsystem has ended.
#[derive(Debug, Clone, Copy, PartialEq, Eq, Structural)]
pub enum SubsystemOutcome {
    /// The subsystem has drained and stopped.
    Completed,
    /// The subsystem has reported a failure.
    Failed,
    /// The subsystem has not stopped within the grace period.
    TimedOut,
}

/// The grace period that a subsystem is given to stop, in milliseconds.
pub const DEFAULT_GRACE_PERIOD_MS: u64 = 1000;

/// The exit code of a clean shutdown.
pub const EXIT_OK: u8 = 0;

/// The exit code when a subsystem has failed.
pub const EXIT_FAILURE: u8 = 1;

/// Whether every subsystem has completed.
pub open spec fn all_completed(outcomes: Seq<SubsystemOutcome>) -> bool {
    forall|i: int| 0 <= i < outcomes.len() ==> #[trigger] outcomes[i] == SubsystemOutcome::Completed
}

/// The exit code of the process: 0 when every subsystem has completed,
/// not 0 when one has failed or has not stopped in time.
pub fn exit_code(outcomes: &Vec<SubsystemOutcome>) -> (code: u8)
    ensures
        code == if all_completed(outcomes@) {
            EXIT_OK
        } else {
            EXIT_FAILURE
        },
{
    let mut i: usize = 0;
    while i < outcomes.len()
        invariant
            i <= outcomes.len(),
            forall|j: int| 0 <= j < i ==> #[trigger] outcomes@[j] == SubsystemOutcome::Completed,
        decreases outcomes.len() - i,
    {
        match outcomes[i] {
            SubsystemOutcome::Completed => {},
            _ => {
                assert(outcomes@[i as int] != SubsystemOutcome::Completed);
                return EXIT_FAILURE;
            },
        }
        i += 1;
    }
    EXIT_OK
}

} // verus!
