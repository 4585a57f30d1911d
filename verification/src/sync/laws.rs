//! What holds of the worker on every checkpoint: expiration rows keep their
//! objects, and a checkpoint that is processed again leaves the database as
//! it was after the first time.

use vstd::prelude::*;

use crate::checkpoint::CheckpointData;
use crate::idempotence::lemma_upserts_then_removal_twice;
use crate::metrics::Metrics;
use crate::models::{ExpirationRow, ObjectRow};
use crate::output::stored_expiration_row;
use crate::store::{
    lemma_delete_well_formed, lemma_upsert_expiration_well_formed,
    lemma_upsert_object_well_formed, upsert_all, StoreError, Tables,
};
use crate::sync::worker::{
    batches_of, checkpoint_outcome, insert_all, insert_stored, WorkerError,
};

verus! {

/// The expiration row that the contents of a stored object carry, if they
/// decode and carry one.
pub open spec fn carried_expiration(stored: ObjectRow) -> Option<ExpirationRow> {
    match stored_expiration_row(stored) {
        Ok(Some(row)) => Some(row),
        _ => None,
    }
}

/// The expiration rows that the objects of a batch carry, in their order.
pub open spec fn expiration_batch(batch: Seq<ObjectRow>) -> Seq<ExpirationRow> {
    batch.filter_map(|stored: ObjectRow| carried_expiration(stored))
}

/// Whether the expiration row that a stored object carries, if any, is
/// keyed by the id of that object.
pub open spec fn names_own_id(stored: ObjectRow) -> bool {
    match carried_expiration(stored) {
        Some(row) => row.object_id == stored.id,
        None => true,
    }
}

/// Writing one stored object leaves the database well formed.
pub proof fn lemma_insert_stored_well_formed(tables: Tables, stored: ObjectRow)
    requires
        tables.well_formed(),
    ensures
        insert_stored(tables, stored) matches Ok(after) ==> after.well_formed(),
        insert_stored(tables, stored) matches Err(e) ==> {
            ||| e matches WorkerError::Output(o) && stored_expiration_row(stored) == Err::<
                Option<ExpirationRow>,
                crate::output::OutputError,
            >(o)
            ||| e == WorkerError::Store(StoreError::ForeignKeyViolation) && !names_own_id(stored)
        },
{
    lemma_upsert_object_well_formed(tables, stored);
    match stored_expiration_row(stored) {
        Ok(Some(row)) => {
            let with_object = tables.upsert_object(stored);
            if crate::store::has_key(with_object.objects, row.object_id) {
                lemma_upsert_expiration_well_formed(with_object, row);
            }
        },
        _ => {},
    }
}

/// Inserting a batch leaves the database well formed, also where an error
/// ends the insertion; an error is that of an object whose contents do not
/// decode or whose expiration row is keyed by another id than its own.
pub proof fn lemma_insert_all_well_formed(tables: Tables, batch: Seq<ObjectRow>)
    requires
        tables.well_formed(),
    ensures
        insert_all(tables, batch).tables.well_formed(),
        insert_all(tables, batch).error matches Some(e) ==> {
            ||| e matches WorkerError::Output(o) && exists|i: int|
                0 <= i < batch.len() && stored_expiration_row(#[trigger] batch[i]) == Err::<
                    Option<ExpirationRow>,
                    crate::output::OutputError,
                >(o)
            ||| e == WorkerError::Store(StoreError::ForeignKeyViolation) && exists|i: int|
                0 <= i < batch.len() && !names_own_id(#[trigger] batch[i])
        },
    decreases batch.len(),
{
    if batch.len() > 0 {
        let front = batch.drop_last();
        let before = insert_all(tables, front);
        lemma_insert_all_well_formed(tables, front);
        if before.error is Some {
            let e = before.error->0;
            if e is Output {
                let o = e->Output_0;
                let i = choose|i: int|
                    0 <= i < front.len() && stored_expiration_row(#[trigger] front[i]) == Err::<
                        Option<ExpirationRow>,
                        crate::output::OutputError,
                    >(o);
                assert(batch[i] == front[i]);
            } else {
                let i = choose|i: int| 0 <= i < front.len() && !names_own_id(#[trigger] front[i]);
                assert(batch[i] == front[i]);
            }
        } else {
            lemma_insert_stored_well_formed(before.tables, batch.last());
            assert(batch[batch.len() - 1] == batch.last());
        }
    }
}

/// An insertion that no error ends has upserted every object of the batch
/// and every expiration row that the batch carries; every object decoded.
pub proof fn lemma_insert_all_tables(tables: Tables, batch: Seq<ObjectRow>)
    requires
        insert_all(tables, batch).error is None,
    ensures
        insert_all(tables, batch).tables == (Tables {
            objects: upsert_all(tables.objects, batch),
            expirations: upsert_all(tables.expirations, expiration_batch(batch)),
        }),
        forall|i: int| 0 <= i < batch.len() ==> stored_expiration_row(#[trigger] batch[i]) is Ok,
    decreases batch.len(),
{
    if batch.len() > 0 {
        let front = batch.drop_last();
        let last = batch.last();
        let before = insert_all(tables, front);
        lemma_insert_all_tables(tables, front);
        assert forall|i: int| 0 <= i < batch.len() implies stored_expiration_row(
            #[trigger] batch[i],
        ) is Ok by {
            if i < front.len() {
                assert(front[i] == batch[i]);
            }
        }
        match carried_expiration(last) {
            Some(row) => {
                let carried = expiration_batch(front) + seq![row];
                assert(expiration_batch(batch) == carried);
                assert(carried.drop_last() =~= expiration_batch(front));
                assert(carried.last() == row);
            },
            None => {
                assert(expiration_batch(batch) == expiration_batch(front));
            },
        }
    }
}

/// Every expiration row has its object after a checkpoint, whatever the
/// checkpoint holds and however its processing ends.
pub proof fn lemma_checkpoint_keeps_pairs(
    package_ids: Seq<Seq<u8>>,
    tables: Tables,
    metrics: Metrics,
    checkpoint: CheckpointData,
)
    requires
        tables.well_formed(),
    ensures
        checkpoint_outcome(package_ids, tables, metrics, checkpoint).tables.well_formed(),
        checkpoint_outcome(package_ids, tables, metrics, checkpoint).tables.pair_integrity(),
{
    match batches_of(package_ids, checkpoint.transactions@) {
        Err(_) => {},
        Ok(batches) => {
            lemma_insert_all_well_formed(tables, batches.created);
            lemma_delete_well_formed(
                insert_all(tables, batches.created).tables,
                batches.deleted.to_set(),
            );
        },
    }
}

/// The number of objects of a batch that are written before the insertion
/// ends: all of them, or those before the first that fails.
pub open spec fn committed_count(tables: Tables, batch: Seq<ObjectRow>) -> nat
    decreases batch.len(),
{
    if batch.len() == 0 {
        0
    } else {
        let before = insert_all(tables, batch.drop_last());
        if before.error is Some {
            committed_count(tables, batch.drop_last())
        } else if insert_stored(before.tables, batch.last()) is Ok {
            batch.len()
        } else {
            (batch.len() - 1) as nat
        }
    }
}

/// An insertion ends as the insertion of the objects that it has written;
/// where an error ends it, the error is that of the object next to them.
pub proof fn lemma_committed_prefix(tables: Tables, batch: Seq<ObjectRow>)
    ensures
        committed_count(tables, batch) <= batch.len(),
        insert_all(tables, batch.take(committed_count(tables, batch) as int)).error is None,
        insert_all(tables, batch.take(committed_count(tables, batch) as int)).tables
            == insert_all(tables, batch).tables,
        insert_all(tables, batch).error matches Some(e) ==> committed_count(tables, batch)
            < batch.len() && insert_stored(
            insert_all(tables, batch).tables,
            batch[committed_count(tables, batch) as int],
        ) == Err::<Tables, WorkerError>(e),
        insert_all(tables, batch).error is None ==> committed_count(tables, batch) == batch.len(),
    decreases batch.len(),
{
    let count = committed_count(tables, batch);
    if batch.len() == 0 {
        assert(batch.take(0) =~= batch);
    } else {
        let front = batch.drop_last();
        let before = insert_all(tables, front);
        lemma_committed_prefix(tables, front);
        if before.error is Some {
            assert(batch.take(count as int) =~= front.take(count as int));
            assert(batch[count as int] == front[count as int]);
        } else if insert_stored(before.tables, batch.last()) is Ok {
            assert(batch.take(count as int) =~= batch);
        } else {
            assert(batch.take(count as int) =~= front);
        }
    }
}

/// A batch that was inserted without an error into one database is
/// inserted without an error into any database that holds at least the
/// same objects.
pub proof fn lemma_insert_all_into_more(tables: Tables, larger: Tables, batch: Seq<ObjectRow>)
    requires
        tables.well_formed(),
        larger.well_formed(),
        insert_all(tables, batch).error is None,
        forall|key: Seq<u8>|
            crate::store::has_key(tables.objects, key) ==> crate::store::has_key(
                larger.objects,
                key,
            ),
    ensures
        insert_all(larger, batch).error is None,
    decreases batch.len(),
{
    if batch.len() > 0 {
        let front = batch.drop_last();
        let last = batch.last();
        lemma_insert_all_into_more(tables, larger, front);
        lemma_insert_all_tables(tables, front);
        lemma_insert_all_tables(larger, front);
        lemma_insert_all_well_formed(tables, front);
        lemma_insert_all_well_formed(larger, front);
        let here = insert_all(tables, front).tables;
        let there = insert_all(larger, front).tables;
        crate::idempotence::lemma_upsert_all(tables.objects, front);
        crate::idempotence::lemma_upsert_all(larger.objects, front);
        crate::store::lemma_upsert(here.objects, last);
        crate::store::lemma_upsert(there.objects, last);
        match stored_expiration_row(last) {
            Ok(Some(row)) => {
                assert(crate::store::has_key(here.upsert_object(last).objects, row.object_id));
                assert(crate::store::has_key(there.upsert_object(last).objects, row.object_id));
            },
            _ => {},
        }
    }
}

/// Processing a checkpoint that has failed again fails in the same way and
/// leaves the database as it is.
pub proof fn lemma_failed_reprocessing(
    package_ids: Seq<Seq<u8>>,
    tables: Tables,
    metrics: Metrics,
    metrics_again: Metrics,
    checkpoint: CheckpointData,
)
    requires
        tables.well_formed(),
        checkpoint_outcome(package_ids, tables, metrics, checkpoint).result is Err,
    ensures
        ({
            let first = checkpoint_outcome(package_ids, tables, metrics, checkpoint);
            let second = checkpoint_outcome(package_ids, first.tables, metrics_again, checkpoint);
            second.tables == first.tables && second.result == first.result
        }),
{
    match batches_of(package_ids, checkpoint.transactions@) {
        Err(_) => {},
        Ok(batches) => {
            let created = batches.created;
            let inserted = insert_all(tables, created);
            let written = inserted.tables;
            let count = committed_count(tables, created) as int;
            let prefix = created.take(count);
            lemma_committed_prefix(tables, created);
            lemma_insert_all_tables(tables, prefix);
            lemma_insert_all_well_formed(tables, prefix);
            crate::idempotence::lemma_upsert_all(tables.objects, prefix);
            lemma_insert_all_into_more(tables, written, prefix);
            lemma_insert_all_tables(written, prefix);
            crate::idempotence::lemma_upsert_all_twice(tables.objects, prefix);
            crate::idempotence::lemma_upsert_all_twice(tables.expirations, expiration_batch(prefix));
            assert(insert_all(written, prefix).tables == written);
            let next = created.take(count + 1);
            assert(next.drop_last() =~= prefix);
            assert(next.last() == created[count]);
            assert(insert_all(written, next).error == inserted.error);
            assert(insert_all(written, next).tables == written);
            crate::sync::worker::lemma_insert_error(written, created, count + 1);
        },
    }
}

/// Processing a checkpoint is idempotent: processing the same checkpoint
/// again ends as it did the first time and leaves the database as it is.
/// The one thing that can stand in the way is an object whose contents carry
/// an expiration keyed by another id than its own: only then can the second
/// run be refused where the first was not, and only for a missing object.
pub proof fn lemma_reprocessing_is_idempotent(
    package_ids: Seq<Seq<u8>>,
    tables: Tables,
    metrics: Metrics,
    metrics_again: Metrics,
    checkpoint: CheckpointData,
)
    requires
        tables.well_formed(),
    ensures
        ({
            let first = checkpoint_outcome(package_ids, tables, metrics, checkpoint);
            let second = checkpoint_outcome(package_ids, first.tables, metrics_again, checkpoint);
            let created = batches_of(package_ids, checkpoint.transactions@)->Ok_0.created;
            &&& second.result == first.result ==> second.tables == first.tables
            &&& first.result is Err ==> second.result == first.result
            &&& first.result is Ok && (forall|i: int|
                0 <= i < created.len() ==> names_own_id(#[trigger] created[i])) ==> second.result
                is Ok
            &&& first.result is Ok && second.result is Err ==> second.result == Err::<
                (),
                WorkerError,
            >(WorkerError::Store(StoreError::ForeignKeyViolation))
        }),
{
    if checkpoint_outcome(package_ids, tables, metrics, checkpoint).result is Err {
        lemma_failed_reprocessing(package_ids, tables, metrics, metrics_again, checkpoint);
    } else {
        let batches = batches_of(package_ids, checkpoint.transactions@)->Ok_0;
        let created = batches.created;
        let deleted = batches.deleted.to_set();
        let carried = expiration_batch(created);
        let inserted = insert_all(tables, created);
        let first = checkpoint_outcome(package_ids, tables, metrics, checkpoint);
        lemma_insert_all_tables(tables, created);
        lemma_insert_all_well_formed(tables, created);
        lemma_delete_well_formed(inserted.tables, deleted);
        let again = insert_all(first.tables, created);
        lemma_insert_all_well_formed(first.tables, created);
        if again.error is None {
            lemma_insert_all_tables(first.tables, created);
            lemma_upserts_then_removal_twice(tables.objects, created, deleted);
            lemma_upserts_then_removal_twice(tables.expirations, carried, deleted);
        }
    }
}

} // verus!
