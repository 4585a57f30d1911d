//! The executor of one worker task, as a state machine: it resumes after
//! the saved progress, hands each checkpoint to the worker in ascending
//! order and saves progress only for a checkpoint that the worker has
//! completed. The caller performs each action and reports what happened.

use vstd::prelude::*;

verus! {

/// Where the executor of a task stands.
#[derive(Debug, Clone, Copy, PartialEq, Eq, Structural)]
pub enum ExecutorState {
    /// Nothing is known yet: the saved progress is to be loaded.
    Idle,
    /// The progress was loaded; the reader delivers from `last_seq + 1` on.
    Loaded { last_seq: u64 },
    /// The worker is processing the checkpoint.
    Processing { seq: u64 },
    /// The worker has completed the checkpoint; its progress is being saved.
    Saving { seq: u64 },
    /// The progress of the checkpoint is saved.
    Saved { seq: u64 },
    /// The run has ended on a cancellation or at the end of the stream.
    Stopped,
    /// The run has ended on a failure.
    Failed,
}

/// What the caller reports to the executor.
#[derive(Debug, Clone, Copy, PartialEq, Eq, Structural)]
pub enum ExecutorEvent {
    /// The progress store returned the saved sequence number of the task.
    ProgressLoaded { last_seq: u64 },
    /// The reader delivered the checkpoint with this sequence number.
    CheckpointFetched { seq: u64 },
    /// The worker completed the checkpoint it was handed.
    WorkerSucceeded,
    /// The worker failed on the checkpoint it was handed.
    WorkerFailed,
    /// The progress store has saved the progress it was handed.
    ProgressSaved,
    /// The progress store could not save.
    SaveFailed,
    /// Shutdown was requested.
    Cancelled,
    /// The reader has delivered all that this run holds.
    ReaderExhausted,
}

/// Why a run has failed.
#[derive(Debug, Clone, Copy, PartialEq, Eq, Structural)]
pub enum ExecutorFailure {
    /// The worker failed on a checkpoint.
    Worker,
    /// The progress of a completed checkpoint could not be saved.
    Save,
    /// The reader skipped a checkpoint.
    Gap,
    /// No sequence number is left after the saved one.
    SequenceExhausted,
    /// The report does not answer anything the executor has asked for.
    UnexpectedEvent,
}

/// What the executor asks of the caller.
#[derive(Debug, Clone, Copy, PartialEq, Eq, Structural)]
pub enum ExecutorAction {
    /// Start the reader at this sequence number.
    StartReader { start: u64 },
    /// Hand the checkpoint to the worker.
    ProcessCheckpoint { seq: u64 },
    /// Drop the checkpoint: it was completed before.
    SkipCheckpoint { seq: u64 },
    /// Save this sequence number as the progress of the task.
    SaveProgress { seq: u64 },
    /// Show this sequence number on the gauge of checked checkpoints and
    /// wait for the next checkpoint.
    UpdateGauge { seq: u64 },
    /// End the run; nothing is in flight.
    Shutdown,
    /// End the run and report the failure.
    Abort(ExecutorFailure),
    /// Nothing: the run has ended before.
    Nothing,
}

/// The state and the action that follow on the delivery of checkpoint `seq`
/// when `last_seq` is the last checkpoint completed.
pub open spec fn on_checkpoint(state: ExecutorState, last_seq: u64, seq: u64) -> (
    ExecutorState,
    ExecutorAction,
) {
    if seq <= last_seq {
        (state, ExecutorAction::SkipCheckpoint { seq })
    } else if seq == last_seq + 1 {
        (ExecutorState::Processing { seq }, ExecutorAction::ProcessCheckpoint { seq })
    } else {
        (ExecutorState::Failed, ExecutorAction::Abort(ExecutorFailure::Gap))
    }
}

/// The transition of the executor: the state and the action that follow on
/// an event.
pub open spec fn next(state: ExecutorState, event: ExecutorEvent) -> (
    ExecutorState,
    ExecutorAction,
) {
    match (state, event) {
        (ExecutorState::Stopped, _) => (state, ExecutorAction::Nothing),
        (ExecutorState::Failed, _) => (state, ExecutorAction::Nothing),
        (_, ExecutorEvent::Cancelled) => (ExecutorState::Stopped, ExecutorAction::Shutdown),
        (_, ExecutorEvent::ReaderExhausted) => (ExecutorState::Stopped, ExecutorAction::Shutdown),
        (ExecutorState::Idle, ExecutorEvent::ProgressLoaded { last_seq }) => if last_seq
            < u64::MAX {
            (
                ExecutorState::Loaded { last_seq },
                ExecutorAction::StartReader { start: (last_seq + 1) as u64 },
            )
        } else {
            (ExecutorState::Failed, ExecutorAction::Abort(ExecutorFailure::SequenceExhausted))
        },
        (ExecutorState::Loaded { last_seq }, ExecutorEvent::CheckpointFetched { seq }) => {
            on_checkpoint(state, last_seq, seq)
        },
        (ExecutorState::Saved { seq: last_seq }, ExecutorEvent::CheckpointFetched { seq }) => {
            on_checkpoint(state, last_seq, seq)
        },
        (ExecutorState::Processing { seq }, ExecutorEvent::WorkerSucceeded) => (
            ExecutorState::Saving { seq },
            ExecutorAction::SaveProgress { seq },
        ),
        (ExecutorState::Processing { seq }, ExecutorEvent::WorkerFailed) => (
            ExecutorState::Failed,
            ExecutorAction::Abort(ExecutorFailure::Worker),
        ),
        (ExecutorState::Saving { seq }, ExecutorEvent::ProgressSaved) => (
            ExecutorState::Saved { seq },
            ExecutorAction::UpdateGauge { seq },
        ),
        (ExecutorState::Saving { seq }, ExecutorEvent::SaveFailed) => (
            ExecutorState::Failed,
            ExecutorAction::Abort(ExecutorFailure::Save),
        ),
        _ => (ExecutorState::Failed, ExecutorAction::Abort(ExecutorFailure::UnexpectedEvent)),
    }
}

/// The executor of one worker task.
#[derive(Debug, Clone, Copy, PartialEq, Eq, Structural)]
pub struct Executor {
    state: ExecutorState,
}

impl View for Executor {
    type V = ExecutorState;

    closed spec fn view(&self) -> ExecutorState {
        self.state
    }
}

impl Executor {
    /// An executor that has not loaded the progress of its task yet.
    pub fn new() -> (executor: Self)
        ensures
            executor@ == ExecutorState::Idle,
    {
        Executor { state: ExecutorState::Idle }
    }

    /// Where the executor stands.
    pub fn state(&self) -> (state: ExecutorState)
        ensures
            state == self@,
    {
        self.state
    }

    fn checkpoint_fetched(&mut self, last_seq: u64, seq: u64) -> (action: ExecutorAction)
        ensures
            (final(self)@, action) == on_checkpoint(old(self)@, last_seq, seq),
    {
        if seq <= last_seq {
            ExecutorAction::SkipCheckpoint { seq }
        } else if seq - 1 == last_seq {
            self.state = ExecutorState::Processing { seq };
            ExecutorAction::ProcessCheckpoint { seq }
        } else {
            self.state = ExecutorState::Failed;
            ExecutorAction::Abort(ExecutorFailure::Gap)
        }
    }

    fn fail(&mut self, failure: ExecutorFailure) -> (action: ExecutorAction)
        ensures
            final(self)@ == ExecutorState::Failed,
            action == ExecutorAction::Abort(failure),
    {
        self.state = ExecutorState::Failed;
        ExecutorAction::Abort(failure)
    }

    /// Takes the report of the caller and says what to do next.
    pub fn handle(&mut self, event: ExecutorEvent) -> (action: ExecutorAction)
        ensures
            (final(self)@, action) == next(old(self)@, event),
    {
        match self.state {
            ExecutorState::Stopped | ExecutorState::Failed => {
                return ExecutorAction::Nothing;
            },
            _ => {},
        }
        match event {
            ExecutorEvent::Cancelled | ExecutorEvent::ReaderExhausted => {
                self.state = ExecutorState::Stopped;
                return ExecutorAction::Shutdown;
            },
            _ => {},
        }
        match self.state {
            ExecutorState::Idle => match event {
                ExecutorEvent::ProgressLoaded { last_seq } => {
                    if last_seq < u64::MAX {
                        self.state = ExecutorState::Loaded { last_seq };
                        ExecutorAction::StartReader { start: last_seq + 1 }
                    } else {
                        self.fail(ExecutorFailure::SequenceExhausted)
                    }
                },
                _ => self.fail(ExecutorFailure::UnexpectedEvent),
            },
            ExecutorState::Loaded { last_seq } => match event {
                ExecutorEvent::CheckpointFetched { seq } => self.checkpoint_fetched(last_seq, seq),
                _ => self.fail(ExecutorFailure::UnexpectedEvent),
            },
            ExecutorState::Saved { seq: last_seq } => match event {
                ExecutorEvent::CheckpointFetched { seq } => self.checkpoint_fetched(last_seq, seq),
                _ => self.fail(ExecutorFailure::UnexpectedEvent),
            },
            ExecutorState::Processing { seq } => match event {
                ExecutorEvent::WorkerSucceeded => {
                    self.state = ExecutorState::Saving { seq };
                    ExecutorAction::SaveProgress { seq }
                },
                ExecutorEvent::WorkerFailed => self.fail(ExecutorFailure::Worker),
                _ => self.fail(ExecutorFailure::UnexpectedEvent),
            },
            ExecutorState::Saving { seq } => match event {
                ExecutorEvent::ProgressSaved => {
                    self.state = ExecutorState::Saved { seq };
                    ExecutorAction::UpdateGauge { seq }
                },
                ExecutorEvent::SaveFailed => self.fail(ExecutorFailure::Save),
                _ => self.fail(ExecutorFailure::UnexpectedEvent),
            },
            ExecutorState::Stopped | ExecutorState::Failed => ExecutorAction::Nothing,
        }
    }
}

/// What happens around the executor of a task.
#[derive(Debug, Clone, Copy, PartialEq, Eq, Structural)]
pub enum Occurrence {
    /// The process ends, by a crash or a shutdown, and starts anew: what
    /// the executor knew is lost.
    Restart,
    /// The executor is told something. A report that progress was loaded
    /// carries what the progress store holds, whatever the event says.
    Report(ExecutorEvent),
}

/// The executor of a task together with what outlasts it: the saved
/// progress and the checkpoints that the worker has completed.
pub struct TaskHistory {
    pub executor: ExecutorState,
    /// The sequence number that the progress store holds for the task.
    pub progress: u64,
    /// The checkpoints that the worker has completed.
    pub applied: Set<u64>,
}

/// The history of a task that has never run.
pub open spec fn fresh_task() -> TaskHistory {
    TaskHistory { executor: ExecutorState::Idle, progress: 0, applied: Set::empty() }
}

/// The history after one occurrence: a checkpoint counts as applied when
/// the worker reports success on it, and the saved progress moves when the
/// progress store reports that it has saved.
pub open spec fn after(history: TaskHistory, occurrence: Occurrence) -> TaskHistory {
    match occurrence {
        Occurrence::Restart => TaskHistory { executor: ExecutorState::Idle, ..history },
        Occurrence::Report(reported) => {
            let event = match reported {
                ExecutorEvent::ProgressLoaded { last_seq } => ExecutorEvent::ProgressLoaded {
                    last_seq: history.progress,
                },
                _ => reported,
            };
            TaskHistory {
                executor: next(history.executor, event).0,
                progress: match (history.executor, event) {
                    (ExecutorState::Saving { seq }, ExecutorEvent::ProgressSaved) => seq,
                    _ => history.progress,
                },
                applied: match (history.executor, event) {
                    (
                        ExecutorState::Processing { seq },
                        ExecutorEvent::WorkerSucceeded,
                    ) => history.applied.insert(seq),
                    _ => history.applied,
                },
            }
        },
    }
}

/// The history after a sequence of occurrences.
pub open spec fn after_all(history: TaskHistory, occurrences: Seq<Occurrence>) -> TaskHistory
    decreases occurrences.len(),
{
    if occurrences.len() == 0 {
        history
    } else {
        after(after_all(history, occurrences.drop_last()), occurrences.last())
    }
}

/// Every checkpoint up to the saved progress has been applied.
pub open spec fn no_gap(history: TaskHistory) -> bool {
    forall|seq: u64| 1 <= seq <= history.progress ==> #[trigger] history.applied.contains(seq)
}

/// The executor and the saved progress agree: what the executor takes for
/// completed is what is saved, and what it works on is the checkpoint next
/// to it.
pub open spec fn in_step(history: TaskHistory) -> bool {
    match history.executor {
        ExecutorState::Loaded { last_seq } => last_seq == history.progress,
        ExecutorState::Saved { seq } => seq == history.progress,
        ExecutorState::Processing { seq } => seq == history.progress + 1,
        ExecutorState::Saving { seq } => seq == history.progress + 1 && history.applied.contains(
            seq,
        ),
        _ => true,
    }
}

/// One occurrence keeps the history without a gap and never moves the
/// saved progress back.
pub proof fn lemma_occurrence_keeps_progress(history: TaskHistory, occurrence: Occurrence)
    requires
        no_gap(history),
        in_step(history),
    ensures
        no_gap(after(history, occurrence)),
        in_step(after(history, occurrence)),
        history.progress <= after(history, occurrence).progress,
        history.applied.subset_of(after(history, occurrence).applied),
{
    let then = after(history, occurrence);
    assert forall|seq: u64| 1 <= seq <= then.progress implies #[trigger] then.applied.contains(
        seq,
    ) by {
        if seq <= history.progress {
            assert(history.applied.contains(seq));
        }
    }
}

/// At-least-once progress: whatever happens to a task from its first start
/// on, crashes and restarts included, every checkpoint up to the saved
/// progress has been applied, and the saved progress never moves back.
pub proof fn lemma_progress_without_gap(occurrences: Seq<Occurrence>, earlier: int)
    requires
        0 <= earlier <= occurrences.len(),
    ensures
        no_gap(after_all(fresh_task(), occurrences)),
        in_step(after_all(fresh_task(), occurrences)),
        after_all(fresh_task(), occurrences.take(earlier)).progress <= after_all(
            fresh_task(),
            occurrences,
        ).progress,
    decreases occurrences.len(),
{
    if occurrences.len() == 0 {
        assert(occurrences.take(earlier) =~= occurrences);
    } else {
        let front = occurrences.drop_last();
        if earlier == occurrences.len() {
            assert(occurrences.take(earlier) =~= occurrences);
            lemma_progress_without_gap(front, 0);
        } else {
            assert(occurrences.take(earlier) =~= front.take(earlier));
            lemma_progress_without_gap(front, earlier);
        }
        lemma_occurrence_keeps_progress(after_all(fresh_task(), front), occurrences.last());
    }
}

} // verus!
