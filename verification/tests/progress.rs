use stardust_indexer::metrics::Metrics;
use stardust_indexer::models::LastCheckpointSync;
use stardust_indexer::sync::executor::{
    Executor, ExecutorAction, ExecutorEvent, ExecutorFailure, ExecutorState,
};
use stardust_indexer::sync::progress_store::{ProgressDatabase, ProgressError};

#[test]
fn load_returns_zero_on_a_fresh_start() {
    let progress = ProgressDatabase::new();
    assert_eq!(progress.load("primary"), 0);
    assert_eq!(LastCheckpointSync::resume_after(None), Ok(0));
}

#[test]
fn save_upserts_by_task() {
    let mut progress = ProgressDatabase::new();
    let mut metrics = Metrics::new();
    assert_eq!(progress.save("primary".to_string(), 7, &mut metrics), Ok(()));
    assert_eq!(progress.save("secondary".to_string(), 3, &mut metrics), Ok(()));
    assert_eq!(metrics.last_checkpoint_checked, 3);
    assert_eq!(progress.save("primary".to_string(), 8, &mut metrics), Ok(()));
    assert_eq!(progress.load("primary"), 8);
    assert_eq!(progress.load("secondary"), 3);
    assert_eq!(progress.load("tertiary"), 0);
    assert_eq!(metrics.last_checkpoint_checked, 8);
    assert_eq!(metrics.last_checkpoint_indexed, 0);
}

#[test]
fn sequence_number_must_fit_the_column() {
    let mut progress = ProgressDatabase::new();
    let mut metrics = Metrics::new();
    assert_eq!(progress.save("primary".to_string(), i64::MAX as u64, &mut metrics), Ok(()));
    assert_eq!(
        progress.save("primary".to_string(), i64::MAX as u64 + 1, &mut metrics),
        Err(ProgressError::SequenceOutOfRange)
    );
    assert_eq!(progress.load("primary"), i64::MAX as u64);
    assert_eq!(metrics.last_checkpoint_checked, i64::MAX);
    assert_eq!(
        LastCheckpointSync::new("primary".to_string(), u64::MAX),
        Err(ProgressError::SequenceOutOfRange)
    );
    assert_eq!(
        LastCheckpointSync::new("primary".to_string(), 12),
        Ok(LastCheckpointSync { sequence_number: 12, task_id: "primary".to_string() })
    );
}

#[test]
fn stored_progress_is_read_back() {
    let row = LastCheckpointSync { sequence_number: 41, task_id: "primary".to_string() };
    assert_eq!(LastCheckpointSync::resume_after(Some(&row)), Ok(41));
    let negative = LastCheckpointSync { sequence_number: -1, task_id: "primary".to_string() };
    assert_eq!(LastCheckpointSync::resume_after(Some(&negative)), Err(ProgressError::Corrupt));
}

#[test]
fn executor_walks_through_its_states() {
    let mut executor = Executor::new();
    assert_eq!(executor.state(), ExecutorState::Idle);
    assert_eq!(
        executor.handle(ExecutorEvent::ProgressLoaded { last_seq: 9 }),
        ExecutorAction::StartReader { start: 10 }
    );
    assert_eq!(executor.state(), ExecutorState::Loaded { last_seq: 9 });
    assert_eq!(
        executor.handle(ExecutorEvent::CheckpointFetched { seq: 10 }),
        ExecutorAction::ProcessCheckpoint { seq: 10 }
    );
    assert_eq!(executor.state(), ExecutorState::Processing { seq: 10 });
    assert_eq!(
        executor.handle(ExecutorEvent::WorkerSucceeded),
        ExecutorAction::SaveProgress { seq: 10 }
    );
    assert_eq!(executor.state(), ExecutorState::Saving { seq: 10 });
    assert_eq!(
        executor.handle(ExecutorEvent::ProgressSaved),
        ExecutorAction::UpdateGauge { seq: 10 }
    );
    assert_eq!(executor.state(), ExecutorState::Saved { seq: 10 });
    assert_eq!(
        executor.handle(ExecutorEvent::CheckpointFetched { seq: 11 }),
        ExecutorAction::ProcessCheckpoint { seq: 11 }
    );
    assert_eq!(executor.handle(ExecutorEvent::Cancelled), ExecutorAction::Shutdown);
    assert_eq!(executor.state(), ExecutorState::Stopped);
    assert_eq!(executor.handle(ExecutorEvent::WorkerSucceeded), ExecutorAction::Nothing);
    assert_eq!(executor.state(), ExecutorState::Stopped);
}

#[test]
fn executor_never_skips_a_checkpoint() {
    let mut executor = Executor::new();
    executor.handle(ExecutorEvent::ProgressLoaded { last_seq: 4 });
    assert_eq!(
        executor.handle(ExecutorEvent::CheckpointFetched { seq: 4 }),
        ExecutorAction::SkipCheckpoint { seq: 4 }
    );
    assert_eq!(
        executor.handle(ExecutorEvent::CheckpointFetched { seq: 0 }),
        ExecutorAction::SkipCheckpoint { seq: 0 }
    );
    assert_eq!(executor.state(), ExecutorState::Loaded { last_seq: 4 });
    assert_eq!(
        executor.handle(ExecutorEvent::CheckpointFetched { seq: 6 }),
        ExecutorAction::Abort(ExecutorFailure::Gap)
    );
    assert_eq!(executor.state(), ExecutorState::Failed);
    assert_eq!(executor.handle(ExecutorEvent::CheckpointFetched { seq: 5 }), ExecutorAction::Nothing);
}

#[test]
fn executor_fails_with_the_worker_and_does_not_save() {
    let mut executor = Executor::new();
    executor.handle(ExecutorEvent::ProgressLoaded { last_seq: 0 });
    executor.handle(ExecutorEvent::CheckpointFetched { seq: 1 });
    assert_eq!(
        executor.handle(ExecutorEvent::WorkerFailed),
        ExecutorAction::Abort(ExecutorFailure::Worker)
    );
    assert_eq!(executor.state(), ExecutorState::Failed);
}

#[test]
fn executor_refuses_reports_it_did_not_ask_for() {
    let mut executor = Executor::new();
    assert_eq!(
        executor.handle(ExecutorEvent::WorkerSucceeded),
        ExecutorAction::Abort(ExecutorFailure::UnexpectedEvent)
    );
    let mut executor = Executor::new();
    executor.handle(ExecutorEvent::ProgressLoaded { last_seq: 0 });
    assert_eq!(
        executor.handle(ExecutorEvent::ProgressSaved),
        ExecutorAction::Abort(ExecutorFailure::UnexpectedEvent)
    );
    let mut executor = Executor::new();
    assert_eq!(
        executor.handle(ExecutorEvent::ProgressLoaded { last_seq: u64::MAX }),
        ExecutorAction::Abort(ExecutorFailure::SequenceExhausted)
    );
    let mut executor = Executor::new();
    assert_eq!(executor.handle(ExecutorEvent::ReaderExhausted), ExecutorAction::Shutdown);
    assert_eq!(executor.state(), ExecutorState::Stopped);
}

#[test]
fn progress_is_monotone_across_restarts() {
    let mut progress = ProgressDatabase::new();
    let mut metrics = Metrics::new();
    let mut applied: Vec<u64> = vec![];
    let mut saved: Vec<u64> = vec![progress.load("primary")];
    let crashes_after = [3u64, 3, 5, 9];
    let mut next_to_deliver;
    for crash_after in crashes_after {
        let mut executor = Executor::new();
        let last = progress.load("primary");
        match executor.handle(ExecutorEvent::ProgressLoaded { last_seq: last }) {
            ExecutorAction::StartReader { start } => next_to_deliver = start,
            other => panic!("{:?}", other),
        }
        assert_eq!(next_to_deliver, last + 1);
        loop {
            let seq = next_to_deliver;
            assert_eq!(
                executor.handle(ExecutorEvent::CheckpointFetched { seq }),
                ExecutorAction::ProcessCheckpoint { seq }
            );
            applied.push(seq);
            assert_eq!(
                executor.handle(ExecutorEvent::WorkerSucceeded),
                ExecutorAction::SaveProgress { seq }
            );
            if seq == crash_after {
                break;
            }
            progress.save("primary".to_string(), seq, &mut metrics).unwrap();
            executor.handle(ExecutorEvent::ProgressSaved);
            saved.push(progress.load("primary"));
            next_to_deliver += 1;
        }
    }
    assert!(saved.windows(2).all(|pair| pair[0] <= pair[1]));
    for seq in 1..=progress.load("primary") {
        assert!(applied.contains(&seq));
    }
    assert_eq!(progress.load("primary"), 8);
}
