//! The worker: for one checkpoint it picks the transactions that touch the
//! originating package, collects the indexed outputs they create and the
//! shared objects they remove, and applies both to the objects database.

use vstd::prelude::*;

use crate::checkpoint::{
    stored_row_of, CheckpointData, CheckpointTransaction, InputObjectKind, Object,
};
use crate::metrics::{counter_after, gauge_value, Metrics};
use crate::models::{
    address_bytes, ExpirationUnlockCondition, IotaAddress, ObjectRow, ObjectType, StoredObject,
};
use crate::output::{stored_expiration_row, OutputError};
use crate::store::{
    contains_id, has_key, object_rows, write_views, DatabaseWrite, ObjectsDatabase, StoreError,
    Tables,
};
use crate::sync::clock::ClockCell;

verus! {

/// Why a checkpoint could not be processed.
#[derive(Debug, Clone, Copy, PartialEq, Eq, Structural)]
pub enum WorkerError {
    /// A transaction declares its inputs in a malformed way.
    InvalidInputObjects,
    /// The contents of an indexed object do not decode.
    Output(OutputError),
    /// The objects database refused a write.
    Store(StoreError),
}

/// Whether a declared input is one of the packages with the given ids.
pub open spec fn package_matches(package_ids: Seq<Seq<u8>>, kind: InputObjectKind) -> bool {
    kind matches InputObjectKind::MovePackage(id) && package_ids.contains(id@)
}

/// Whether a transaction is a genesis transaction or declares the package
/// among its inputs; an error where the declaration is needed and malformed.
pub open spec fn touches_stardust(package_ids: Seq<Seq<u8>>, tx: CheckpointTransaction) -> Result<
    bool,
    WorkerError,
> {
    if tx.is_genesis {
        Ok(true)
    } else {
        match tx.input_objects {
            None => Err(WorkerError::InvalidInputObjects),
            Some(inputs) => Ok(
                exists|i: int|
                    0 <= i < inputs@.len() && package_matches(package_ids, #[trigger] inputs@[i]),
            ),
        }
    }
}

/// The earlier form of the filter: an object is shared and its struct is
/// defined in one of the packages.
pub open spec fn defined_in_package(package_ids: Seq<Seq<u8>>, object: Object) -> bool {
    object.shared && match object.data {
        crate::checkpoint::ObjectData::Move { struct_tag, contents } => package_ids.contains(
            struct_tag.address@,
        ),
        crate::checkpoint::ObjectData::Package => false,
    }
}

/// Whether the two forms of the filter disagree on an output of a
/// transaction: the transaction touches the package and the output is
/// shared, but its struct is defined elsewhere, or the other way round.
pub open spec fn filters_disagree(package_ids: Seq<Seq<u8>>, touches: bool, object: Object) -> bool {
    defined_in_package(package_ids, object) != (touches && object.shared)
}

/// The row of an object that is indexed, nothing for any other object.
pub open spec fn indexed_row(object: Object) -> Option<ObjectRow> {
    match stored_row_of(object) {
        Ok(row) => Some(row),
        Err(_) => None,
    }
}

/// The indexed outputs among `objects`, in their order.
pub open spec fn created_rows(objects: Seq<Object>) -> Seq<ObjectRow> {
    objects.filter_map(|object: Object| indexed_row(object))
}

/// The id of an object that is shared, nothing for any other object.
pub open spec fn shared_id(object: Object) -> Option<Seq<u8>> {
    if object.shared {
        Some(object.id@)
    } else {
        None
    }
}

/// The ids of the shared objects among `objects`, in their order.
pub open spec fn removed_ids(objects: Seq<Object>) -> Seq<Seq<u8>> {
    objects.filter_map(|object: Object| shared_id(object))
}

/// What a checkpoint asks of the objects database.
pub struct Batches {
    /// The objects to upsert, in the order of their transactions.
    pub created: Seq<ObjectRow>,
    /// The ids of the objects to delete.
    pub deleted: Seq<Seq<u8>>,
}

/// The batches of the given transactions: the indexed outputs and the
/// removed shared objects of each transaction that touches the package.
pub open spec fn batches_of(package_ids: Seq<Seq<u8>>, txs: Seq<CheckpointTransaction>) -> Result<
    Batches,
    WorkerError,
>
    decreases txs.len(),
{
    if txs.len() == 0 {
        Ok(Batches { created: Seq::empty(), deleted: Seq::empty() })
    } else {
        match batches_of(package_ids, txs.drop_last()) {
            Err(e) => Err(e),
            Ok(batches) => match touches_stardust(package_ids, txs.last()) {
                Err(e) => Err(e),
                Ok(false) => Ok(batches),
                Ok(true) => Ok(
                    Batches {
                        created: batches.created + created_rows(txs.last().output_objects@),
                        deleted: batches.deleted + removed_ids(
                            txs.last().removed_objects_pre_version@,
                        ),
                    },
                ),
            },
        }
    }
}

/// The database after the transaction that writes one stored object: the
/// object is upserted, and with it the expiration row that its contents
/// carry, if any. When the contents do not decode or the expiration row
/// names an object that is not stored, nothing is written.
pub open spec fn insert_stored(tables: Tables, stored: ObjectRow) -> Result<Tables, WorkerError> {
    match stored_expiration_row(stored) {
        Err(e) => Err(WorkerError::Output(e)),
        Ok(None) => Ok(tables.upsert_object(stored)),
        Ok(Some(row)) => {
            let with_object = tables.upsert_object(stored);
            if has_key(with_object.objects, row.object_id) {
                Ok(with_object.upsert_expiration(row))
            } else {
                Err(WorkerError::Store(StoreError::ForeignKeyViolation))
            }
        },
    }
}

/// How the insertion of a batch ends.
pub struct InsertOutcome {
    /// The database after the last transaction that was committed.
    pub tables: Tables,
    /// The number of basic outputs written.
    pub basic: nat,
    /// The number of NFT outputs written.
    pub nft: nat,
    /// The error that stopped the insertion, if one did.
    pub error: Option<WorkerError>,
}

/// Inserts the objects of `batch` one transaction after the other, and stops
/// at the first that fails.
pub open spec fn insert_all(tables: Tables, batch: Seq<ObjectRow>) -> InsertOutcome
    decreases batch.len(),
{
    if batch.len() == 0 {
        InsertOutcome { tables, basic: 0, nft: 0, error: None }
    } else {
        let before = insert_all(tables, batch.drop_last());
        if before.error is Some {
            before
        } else {
            match insert_stored(before.tables, batch.last()) {
                Err(e) => InsertOutcome { error: Some(e), ..before },
                Ok(after) => InsertOutcome {
                    tables: after,
                    basic: if batch.last().object_type == ObjectType::Basic {
                        before.basic + 1
                    } else {
                        before.basic
                    },
                    nft: if batch.last().object_type == ObjectType::Nft {
                        before.nft + 1
                    } else {
                        before.nft
                    },
                    error: None,
                },
            }
        }
    }
}

/// The metrics after `outcome`: each counter has grown by the number of
/// outputs of its variant that were written.
pub open spec fn metrics_after(metrics: Metrics, outcome: InsertOutcome) -> Metrics {
    Metrics {
        indexed_basic_outputs_count: counter_after(
            metrics.indexed_basic_outputs_count,
            outcome.basic,
        ),
        indexed_nft_outputs_count: counter_after(metrics.indexed_nft_outputs_count, outcome.nft),
        ..metrics
    }
}

/// How the processing of a checkpoint ends.
pub struct CheckpointOutcome {
    pub tables: Tables,
    pub metrics: Metrics,
    pub result: Result<(), WorkerError>,
}

/// The effect of a checkpoint on the database and the metrics: creations are
/// applied before deletions; on an error, what was committed before it stays.
pub open spec fn checkpoint_outcome(
    package_ids: Seq<Seq<u8>>,
    tables: Tables,
    metrics: Metrics,
    checkpoint: CheckpointData,
) -> CheckpointOutcome {
    match batches_of(package_ids, checkpoint.transactions@) {
        Err(e) => CheckpointOutcome { tables, metrics, result: Err(e) },
        Ok(batches) => {
            let inserted = insert_all(tables, batches.created);
            match inserted.error {
                Some(e) => CheckpointOutcome {
                    tables: inserted.tables,
                    metrics: metrics_after(metrics, inserted),
                    result: Err(e),
                },
                None => CheckpointOutcome {
                    tables: inserted.tables.delete_objects(batches.deleted.to_set()),
                    metrics: Metrics {
                        last_checkpoint_indexed: gauge_value(
                            checkpoint.checkpoint_summary.sequence_number,
                        ),
                        ..metrics_after(metrics, inserted)
                    },
                    result: Ok(()),
                },
            }
        },
    }
}

/// How a run of writes has ended, and which of them the database has taken.
#[derive(Debug)]
pub struct Committed {
    /// The error that has ended the run, if one has.
    pub result: Result<(), WorkerError>,
    /// The writes that the database has taken, in their order.
    pub writes: Vec<DatabaseWrite>,
}

/// Processes the checkpoints that it is handed and keeps in the objects
/// database what belongs to one originating package.
#[derive(Debug)]
pub struct CheckpointWorker {
    /// Only transactions that touch one of these packages are indexed.
    package_ids: Vec<IotaAddress>,
}

impl CheckpointWorker {
    /// The ids of the packages that the worker indexes.
    pub closed spec fn package_ids(&self) -> Seq<Seq<u8>> {
        address_bytes(self.package_ids@)
    }

    pub fn new(package_ids: Vec<IotaAddress>) -> (worker: Self)
        ensures
            worker.package_ids() == address_bytes(package_ids@),
    {
        CheckpointWorker { package_ids }
    }

    /// Whether the declared input is the package that the worker indexes.
    pub fn package_id_matches(&self, input_obj_kind: &InputObjectKind) -> (same: bool)
        ensures
            same == package_matches(self.package_ids(), *input_obj_kind),
    {
        match input_obj_kind {
            InputObjectKind::MovePackage(id) => contains_id(&self.package_ids, id),
            _ => false,
        }
    }

    /// Whether the transaction is a genesis transaction or declares the
    /// package among its inputs.
    pub fn tx_touches_stardust_objects(&self, checkpoint_tx: &CheckpointTransaction) -> (result:
        Result<bool, WorkerError>)
        ensures
            result == touches_stardust(self.package_ids(), *checkpoint_tx),
    {
        if checkpoint_tx.is_genesis {
            return Ok(true);
        }
        match &checkpoint_tx.input_objects {
            None => Err(WorkerError::InvalidInputObjects),
            Some(inputs) => {
                let mut i: usize = 0;
                while i < inputs.len()
                    invariant
                        i <= inputs.len(),
                        !checkpoint_tx.is_genesis,
                        checkpoint_tx.input_objects == Some(*inputs),
                        forall|j: int|
                            0 <= j < i ==> !package_matches(self.package_ids(), #[trigger] inputs@[j]),
                    decreases inputs.len() - i,
                {
                    if self.package_id_matches(&inputs[i]) {
                        assert(package_matches(self.package_ids(), inputs@[i as int]));
                        assert(checkpoint_tx.input_objects->0@ == inputs@);
                        return Ok(true);
                    }
                    i += 1;
                }
                Ok(false)
            },
        }
    }

    /// The number of outputs of the transaction on which the filter by the
    /// declared inputs and the earlier filter by the package of the struct
    /// disagree.
    pub fn filter_mismatches(&self, checkpoint_tx: &CheckpointTransaction) -> (result: Result<
        usize,
        WorkerError,
    >)
        ensures
            match touches_stardust(self.package_ids(), *checkpoint_tx) {
                Err(e) => result == Err::<usize, WorkerError>(e),
                Ok(touches) => result == Ok::<usize, WorkerError>(
                    checkpoint_tx.output_objects@.filter(
                        |object: Object| filters_disagree(self.package_ids(), touches, object),
                    ).len() as usize,
                ),
            },
    {
        let touches = match self.tx_touches_stardust_objects(checkpoint_tx) {
            Ok(touches) => touches,
            Err(e) => {
                return Err(e);
            },
        };
        let outputs = &checkpoint_tx.output_objects;
        let ghost disagree = |object: Object| filters_disagree(self.package_ids(), touches, object);
        let mut count: usize = 0;
        let mut i: usize = 0;
        proof {
            reveal(Seq::filter);
            assert(outputs@.take(0) =~= Seq::empty());
        }
        while i < outputs.len()
            invariant
                i <= outputs.len(),
                disagree == |object: Object| filters_disagree(self.package_ids(), touches, object),
                count == outputs@.take(i as int).filter(disagree).len(),
                count <= i,
            decreases outputs.len() - i,
        {
            proof {
                assert(outputs@.take(i + 1) =~= outputs@.take(i as int).push(outputs@[i as int]));
                outputs@.take(i as int).lemma_filter_push(outputs@[i as int], disagree);
            }
            let object = &outputs[i];
            let defined = object.shared && match &object.data {
                crate::checkpoint::ObjectData::Move { struct_tag, contents } => contains_id(
                    &self.package_ids,
                    &struct_tag.address,
                ),
                crate::checkpoint::ObjectData::Package => false,
            };
            if defined != (touches && object.shared) {
                count += 1;
            }
            i += 1;
        }
        proof {
            assert(outputs@.take(outputs.len() as int) =~= outputs@);
        }
        Ok(count)
    }

    /// The objects to upsert and the ids to delete that the checkpoint asks for.
    pub fn collect_batches(&self, checkpoint: &CheckpointData) -> (result: Result<
        (Vec<StoredObject>, Vec<IotaAddress>),
        WorkerError,
    >)
        ensures
            match result {
                Ok(batches) => batches_of(self.package_ids(), checkpoint.transactions@) == Ok::<
                    Batches,
                    WorkerError,
                >(
                    Batches {
                        created: object_rows(batches.0@),
                        deleted: address_bytes(batches.1@),
                    },
                ),
                Err(e) => batches_of(self.package_ids(), checkpoint.transactions@) == Err::<
                    Batches,
                    WorkerError,
                >(e),
            },
    {
        let mut created_objects: Vec<StoredObject> = Vec::new();
        let mut deleted_addresses: Vec<IotaAddress> = Vec::new();
        let ghost txs = checkpoint.transactions@;
        let mut t: usize = 0;
        proof {
            assert(txs.take(0) =~= Seq::empty());
            assert(object_rows(created_objects@) =~= Seq::empty());
            assert(address_bytes(deleted_addresses@) =~= Seq::empty());
        }
        while t < checkpoint.transactions.len()
            invariant
                t <= checkpoint.transactions.len(),
                txs == checkpoint.transactions@,
                batches_of(self.package_ids(), txs.take(t as int)) == Ok::<Batches, WorkerError>(
                    Batches {
                        created: object_rows(created_objects@),
                        deleted: address_bytes(deleted_addresses@),
                    },
                ),
            decreases checkpoint.transactions.len() - t,
        {
            let checkpoint_tx = &checkpoint.transactions[t];
            proof {
                assert(txs.take(t + 1).drop_last() =~= txs.take(t as int));
                assert(txs.take(t + 1).last() == txs[t as int]);
            }
            match self.tx_touches_stardust_objects(checkpoint_tx) {
                Err(e) => {
                    proof {
                        lemma_batches_error(self.package_ids(), txs, t + 1);
                    }
                    return Err(e);
                },
                Ok(false) => {},
                Ok(true) => {
                    let ghost created_before = object_rows(created_objects@);
                    let ghost deleted_before = address_bytes(deleted_addresses@);
                    let removed = &checkpoint_tx.removed_objects_pre_version;
                    let mut r: usize = 0;
                    proof {
                        assert(removed@.take(0) =~= Seq::empty());
                        assert(address_bytes(deleted_addresses@) =~= deleted_before
                            + removed_ids(removed@.take(0)));
                    }
                    while r < removed.len()
                        invariant
                            r <= removed.len(),
                            address_bytes(deleted_addresses@) == deleted_before + removed_ids(
                                removed@.take(r as int),
                            ),
                        decreases removed.len() - r,
                    {
                        proof {
                            removed@.lemma_filter_map_take_succ(
                                |object: Object| shared_id(object),
                                r as int,
                            );
                        }
                        if removed[r].shared {
                            let ghost ids = address_bytes(deleted_addresses@);
                            deleted_addresses.push(removed[r].id.clone());
                            assert(address_bytes(deleted_addresses@) =~= ids.push(removed@[r as int].id@));
                        }
                        r += 1;
                    }
                    let outputs = &checkpoint_tx.output_objects;
                    let mut o: usize = 0;
                    proof {
                        assert(removed@.take(removed.len() as int) =~= removed@);
                        assert(outputs@.take(0) =~= Seq::empty());
                        assert(object_rows(created_objects@) =~= created_before + created_rows(
                            outputs@.take(0),
                        ));
                    }
                    while o < outputs.len()
                        invariant
                            o <= outputs.len(),
                            object_rows(created_objects@) == created_before + created_rows(
                                outputs@.take(o as int),
                            ),
                        decreases outputs.len() - o,
                    {
                        proof {
                            outputs@.lemma_filter_map_take_succ(
                                |object: Object| indexed_row(object),
                                o as int,
                            );
                        }
                        match StoredObject::try_from_object(&outputs[o]) {
                            Ok(stored) => {
                                let ghost rows = object_rows(created_objects@);
                                let ghost row = stored@;
                                created_objects.push(stored);
                                assert(object_rows(created_objects@) =~= rows.push(row));
                            },
                            Err(_) => {},
                        }
                        o += 1;
                    }
                    proof {
                        assert(outputs@.take(outputs.len() as int) =~= outputs@);
                    }
                },
            }
            t += 1;
        }
        proof {
            assert(txs.take(checkpoint.transactions.len() as int) =~= txs);
        }
        Ok((created_objects, deleted_addresses))
    }

    /// Writes each stored object in a transaction of its own: the object is
    /// upserted, and with it the expiration row that its contents carry. The
    /// first transaction that fails ends the insertion; what was committed
    /// before it stays, and is listed in the journal of the report.
    pub fn multi_insert_as_database_transactions(
        &self,
        database: &mut ObjectsDatabase,
        metrics: &mut Metrics,
        stored_objects: Vec<StoredObject>,
    ) -> (report: Committed)
        ensures
            final(database)@.well_formed(),
            final(database)@ == insert_all(old(database)@, object_rows(stored_objects@)).tables,
            *final(metrics) == metrics_after(
                *old(metrics),
                insert_all(old(database)@, object_rows(stored_objects@)),
            ),
            match insert_all(old(database)@, object_rows(stored_objects@)).error {
                Some(e) => report.result == Err::<(), WorkerError>(e),
                None => report.result == Ok::<(), WorkerError>(()),
            },
            old(database)@.replay(write_views(report.writes@)) == final(database)@,
    {
        let ghost start = database@;
        let ghost start_metrics = *metrics;
        let ghost batch = object_rows(stored_objects@);
        let mut writes: Vec<DatabaseWrite> = Vec::new();
        let mut i: usize = 0;
        proof {
            assert(batch.take(0) =~= Seq::empty());
            use_type_invariant(&*database);
        }
        while i < stored_objects.len()
            invariant
                i <= stored_objects.len(),
                batch == object_rows(stored_objects@),
                start == old(database)@,
                start_metrics == *old(metrics),
                database@.well_formed(),
                insert_all(start, batch.take(i as int)).error is None,
                database@ == insert_all(start, batch.take(i as int)).tables,
                *metrics == metrics_after(start_metrics, insert_all(start, batch.take(i as int))),
                start.replay(write_views(writes@)) == database@,
            decreases stored_objects.len() - i,
        {
            let stored = &stored_objects[i];
            let ghost journal = write_views(writes@);
            proof {
                assert(batch.take(i + 1).drop_last() =~= batch.take(i as int));
                assert(batch.take(i + 1).last() == stored@);
            }
            let expiration = match ExpirationUnlockCondition::try_from_stored(stored) {
                Ok(expiration) => expiration,
                Err(e) => {
                    proof {
                        lemma_insert_error(start, batch, i + 1);
                    }
                    return Committed { result: Err(WorkerError::Output(e)), writes };
                },
            };
            match &expiration {
                None => {
                    database.upsert_object(stored.clone());
                },
                Some(condition) => {
                    let same_object = condition.object_id == stored.id;
                    if !same_object && !database.contains_object(&condition.object_id) {
                        proof {
                            crate::store::lemma_upsert(database@.objects, stored@);
                            lemma_insert_error(start, batch, i + 1);
                        }
                        return Committed {
                            result: Err(WorkerError::Store(StoreError::ForeignKeyViolation)),
                            writes,
                        };
                    }
                    proof {
                        crate::store::lemma_upsert(database@.objects, stored@);
                    }
                    database.upsert_object(stored.clone());
                    let written = database.upsert_expiration(condition.clone());
                    assert(written is Ok);
                },
            }
            match stored.object_type {
                ObjectType::Basic => metrics.inc_indexed_basic_outputs(),
                ObjectType::Nft => metrics.inc_indexed_nft_outputs(),
            }
            let write = DatabaseWrite::Upsert { object: stored.clone(), expiration };
            proof {
                let after = insert_all(start, batch.take(i + 1));
                assert(after.error is None);
                assert(database@ == after.tables);
                assert(*metrics == metrics_after(start_metrics, after));
                assert(journal.push(write@).drop_last() =~= journal);
                assert(start.replay(journal.push(write@)) == database@);
            }
            writes.push(write);
            assert(write_views(writes@) =~= journal.push(write@));
            i += 1;
        }
        proof {
            assert(batch.take(stored_objects.len() as int) =~= batch);
        }
        Committed { result: Ok(()), writes }
    }

    /// Deletes the objects with the given addresses from the database.
    pub fn delete_objects(&self, database: &mut ObjectsDatabase, addresses: &Vec<IotaAddress>)
        ensures
            final(database)@.well_formed(),
            final(database)@ == old(database)@.delete_objects(address_bytes(addresses@).to_set()),
    {
        database.delete_objects(addresses);
    }

    /// Applies one checkpoint: the clock cell takes the time of the
    /// checkpoint, the indexed outputs of the transactions that touch the
    /// package are upserted, the shared objects that they removed are
    /// deleted, and the metrics follow. The report lists the writes that
    /// the database has taken, for whoever keeps a durable copy of it.
    pub fn process_checkpoint(
        &self,
        database: &mut ObjectsDatabase,
        clock: &mut ClockCell,
        metrics: &mut Metrics,
        checkpoint: &CheckpointData,
    ) -> (report: Committed)
        ensures
            final(clock)@ == Some(checkpoint.checkpoint_summary.timestamp_ms),
            final(database)@.well_formed(),
            final(database)@ == checkpoint_outcome(
                self.package_ids(),
                old(database)@,
                *old(metrics),
                *checkpoint,
            ).tables,
            *final(metrics) == checkpoint_outcome(
                self.package_ids(),
                old(database)@,
                *old(metrics),
                *checkpoint,
            ).metrics,
            report.result == checkpoint_outcome(
                self.package_ids(),
                old(database)@,
                *old(metrics),
                *checkpoint,
            ).result,
            old(database)@.replay(write_views(report.writes@)) == final(database)@,
    {
        clock.set(checkpoint.checkpoint_summary.timestamp_ms);
        proof {
            use_type_invariant(&*database);
        }
        let (created_objects, deleted_addresses) = match self.collect_batches(checkpoint) {
            Ok(batches) => batches,
            Err(e) => {
                return Committed { result: Err(e), writes: Vec::new() };
            },
        };
        let mut report = self.multi_insert_as_database_transactions(
            database,
            metrics,
            created_objects,
        );
        if report.result.is_err() {
            return report;
        }
        if deleted_addresses.len() > 0 {
            let ghost journal = write_views(report.writes@);
            self.delete_objects(database, &deleted_addresses);
            let write = DatabaseWrite::Delete { ids: deleted_addresses };
            proof {
                assert(journal.push(write@).drop_last() =~= journal);
            }
            report.writes.push(write);
            assert(write_views(report.writes@) =~= journal.push(write@));
        } else {
            proof {
                let none = address_bytes(deleted_addresses@).to_set();
                assert(forall|key: Seq<u8>| !none.contains(key));
                crate::idempotence::lemma_without_absent_keys(database@.objects, none);
                crate::idempotence::lemma_without_absent_keys(database@.expirations, none);
            }
        }
        metrics.set_last_checkpoint_indexed(checkpoint.checkpoint_summary.sequence_number);
        report
    }
}

/// Once the batches of a prefix of the transactions are an error, so are
/// those of all the transactions.
pub proof fn lemma_batches_error(package_ids: Seq<Seq<u8>>, txs: Seq<CheckpointTransaction>, n: int)
    requires
        0 <= n <= txs.len(),
        batches_of(package_ids, txs.take(n)) is Err,
    ensures
        batches_of(package_ids, txs) == batches_of(package_ids, txs.take(n)),
    decreases txs.len() - n,
{
    if n == txs.len() {
        assert(txs.take(n) =~= txs);
    } else {
        assert(txs.take(n + 1).drop_last() =~= txs.take(n));
        lemma_batches_error(package_ids, txs, n + 1);
    }
}

/// Once the insertion of a prefix of a batch has failed, the insertion of
/// the batch ends as that of the prefix.
pub proof fn lemma_insert_error(tables: Tables, batch: Seq<ObjectRow>, n: int)
    requires
        0 <= n <= batch.len(),
        insert_all(tables, batch.take(n)).error is Some,
    ensures
        insert_all(tables, batch) == insert_all(tables, batch.take(n)),
    decreases batch.len() - n,
{
    if n == batch.len() {
        assert(batch.take(n) =~= batch);
    } else {
        assert(batch.take(n + 1).drop_last() =~= batch.take(n));
        lemma_insert_error(tables, batch, n + 1);
    }
}

} // verus!
