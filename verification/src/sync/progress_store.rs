//! The progress store: for each task, the sequence number of the last
//! checkpoint that it has completed.

use vstd::prelude::*;

use crate::metrics::{gauge_value, Metrics};
use crate::models::{LastCheckpointSync, ProgressRow};
use crate::store::{
    has_key, lemma_position_unique, lemma_upsert, row_of, unique_keys, upsert, Keyed,
};

verus! {

impl Keyed for ProgressRow {
    type Key = Seq<char>;

    open spec fn key(&self) -> Seq<char> {
        self.task_id
    }
}

/// Why progress could not be read or written.
#[derive(Debug, Clone, Copy, PartialEq, Eq, Structural)]
pub enum ProgressError {
    /// The sequence number does not fit the signed column that holds it.
    SequenceOutOfRange,
    /// A stored sequence number is negative.
    Corrupt,
}

/// The rows that a vector of progress records stands for.
pub open spec fn progress_rows(records: Seq<LastCheckpointSync>) -> Seq<ProgressRow> {
    records.map_values(|record: LastCheckpointSync| record@)
}

/// The sequence number that a task resumes after: the one saved for it, or
/// 0 when none was saved.
pub open spec fn saved_progress(rows: Seq<ProgressRow>, task: Seq<char>) -> int {
    if has_key(rows, task) {
        row_of(rows, task).sequence_number
    } else {
        0
    }
}

/// No task has two rows, and no sequence number is negative.
pub open spec fn progress_well_formed(rows: Seq<ProgressRow>) -> bool {
    &&& unique_keys(rows)
    &&& forall|i: int| 0 <= i < rows.len() ==> (#[trigger] rows[i]).sequence_number >= 0
}

impl LastCheckpointSync {
    /// The row that records `checkpoint_number` as the progress of a task.
    pub fn new(task_id: String, checkpoint_number: u64) -> (result: Result<
        LastCheckpointSync,
        ProgressError,
    >)
        ensures
            checkpoint_number <= i64::MAX as u64 ==> (result matches Ok(record) && record@ == (
                ProgressRow { sequence_number: checkpoint_number as int, task_id: task_id@ }
            )),
            checkpoint_number > i64::MAX as u64 ==> result == Err::<
                LastCheckpointSync,
                ProgressError,
            >(ProgressError::SequenceOutOfRange),
    {
        if checkpoint_number <= i64::MAX as u64 {
            Ok(LastCheckpointSync { sequence_number: checkpoint_number as i64, task_id })
        } else {
            Err(ProgressError::SequenceOutOfRange)
        }
    }

    /// The sequence number to resume after, given the row read for a task
    /// or nothing where the task has no row: 0 on a fresh start.
    pub fn resume_after(record: Option<&LastCheckpointSync>) -> (result: Result<u64, ProgressError>)
        ensures
            match record {
                None => result == Ok::<u64, ProgressError>(0),
                Some(record) => if record.sequence_number >= 0 {
                    result == Ok::<u64, ProgressError>(record.sequence_number as u64)
                } else {
                    result == Err::<u64, ProgressError>(ProgressError::Corrupt)
                },
            },
    {
        match record {
            None => Ok(0),
            Some(record) => if record.sequence_number >= 0 {
                Ok(record.sequence_number as u64)
            } else {
                Err(ProgressError::Corrupt)
            },
        }
    }
}

/// The progress database.
#[derive(Debug)]
pub struct ProgressDatabase {
    records: Vec<LastCheckpointSync>,
}

impl View for ProgressDatabase {
    type V = Seq<ProgressRow>;

    closed spec fn view(&self) -> Seq<ProgressRow> {
        progress_rows(self.records@)
    }
}

/// The index of the record of the given task, if it is among `records`.
fn find_task(records: &Vec<LastCheckpointSync>, task_name: &str) -> (found: Option<usize>)
    ensures
        match found {
            Some(i) => i < records@.len() && progress_rows(records@)[i as int].task_id
                == task_name@,
            None => !has_key(progress_rows(records@), task_name@),
        },
{
    let wanted = task_name.to_owned();
    let mut i: usize = 0;
    while i < records.len()
        invariant
            i <= records.len(),
            wanted@ == task_name@,
            forall|j: int|
                0 <= j < i ==> (#[trigger] progress_rows(records@)[j]).key() != task_name@,
        decreases records.len() - i,
    {
        if records[i].task_id == wanted {
            return Some(i);
        }
        i += 1;
    }
    None
}

impl ProgressDatabase {
    /// The contents of a progress database are well formed at all times.
    #[verifier::type_invariant]
    pub open spec fn consistent(&self) -> bool {
        progress_well_formed(self@)
    }

    /// A database in which no task has saved progress.
    pub fn new() -> (database: Self)
        ensures
            database@ == Seq::<ProgressRow>::empty(),
    {
        let database = ProgressDatabase { records: Vec::new() };
        assert(database@ =~= Seq::empty());
        database
    }

    /// The sequence number of the last checkpoint that the task has
    /// completed, 0 when it has completed none.
    pub fn load(&self, task_name: &str) -> (checkpoint_number: u64)
        ensures
            progress_well_formed(self@),
            checkpoint_number == saved_progress(self@, task_name@),
    {
        proof {
            use_type_invariant(self);
        }
        match find_task(&self.records, task_name) {
            Some(i) => {
                proof {
                    lemma_position_unique(self@, i as int);
                }
                self.records[i].sequence_number as u64
            },
            None => 0,
        }
    }

    /// Records `checkpoint_number` as the progress of the task, in place of
    /// what was recorded for it before, and shows it on the gauge of checked
    /// checkpoints. A number that does not fit the column is refused, and
    /// nothing changes.
    pub fn save(&mut self, task_name: String, checkpoint_number: u64, metrics: &mut Metrics) -> (result:
        Result<(), ProgressError>)
        ensures
            progress_well_formed(final(self)@),
            checkpoint_number <= i64::MAX as u64 ==> {
                &&& result is Ok
                &&& final(self)@ == upsert(
                    old(self)@,
                    ProgressRow {
                        sequence_number: checkpoint_number as int,
                        task_id: task_name@,
                    },
                )
                &&& saved_progress(final(self)@, task_name@) == checkpoint_number
                &&& *final(metrics) == (Metrics {
                    last_checkpoint_checked: gauge_value(checkpoint_number),
                    ..*old(metrics)
                })
            },
            checkpoint_number > i64::MAX as u64 ==> {
                &&& result == Err::<(), ProgressError>(ProgressError::SequenceOutOfRange)
                &&& final(self)@ == old(self)@
                &&& *final(metrics) == *old(metrics)
            },
    {
        proof {
            use_type_invariant(&*self);
        }
        let ghost before = self@;
        let found = find_task(&self.records, task_name.as_str());
        let record = match LastCheckpointSync::new(task_name, checkpoint_number) {
            Ok(record) => record,
            Err(e) => {
                return Err(e);
            },
        };
        let ghost row = record@;
        let mut taken = ProgressDatabase::new();
        core::mem::swap(self, &mut taken);
        let ProgressDatabase { mut records } = taken;
        proof {
            lemma_upsert(before, row);
        }
        match found {
            Some(i) => {
                proof {
                    lemma_position_unique(before, i as int);
                }
                records.set(i, record);
            },
            None => {
                records.push(record);
            },
        }
        proof {
            let after = upsert(before, row);
            assert(progress_rows(records@) =~= after);
            assert forall|i: int| 0 <= i < after.len() implies (#[trigger] after[i]).sequence_number
                >= 0 by {
                if after[i] != row {
                    assert(before[i].sequence_number >= 0);
                }
            }
        }
        *self = ProgressDatabase { records };
        metrics.set_last_checkpoint_checked(checkpoint_number);
        Ok(())
    }
}

} // verus!
