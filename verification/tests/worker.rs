use stardust_indexer::checkpoint::{
    CheckpointData, CheckpointSummary, CheckpointTransaction, InputObjectKind, Object, ObjectData,
    StructTag,
};
use stardust_indexer::metrics::Metrics;
use stardust_indexer::models::{
    ExpirationUnlockCondition, IotaAddress, ObjectType, StoredObject,
};
use stardust_indexer::output::{BasicOutputWire, NftOutputWire, OutputError};
use stardust_indexer::store::{DatabaseWrite, ObjectsDatabase, StoreError};
use stardust_indexer::sync::clock::ClockCell;
use stardust_indexer::sync::executor::{Executor, ExecutorAction, ExecutorEvent, ExecutorState};
use stardust_indexer::sync::progress_store::ProgressDatabase;
use stardust_indexer::sync::worker::{CheckpointWorker, WorkerError};

const PACKAGE: u8 = 0x10;
const A: u8 = 0xa1;
const B: u8 = 0xb2;

fn address(byte: u8) -> IotaAddress {
    IotaAddress::from_array([byte; 32])
}

fn basic_contents(id: u8, balance: u64, expiration: Option<(u8, u8, u32)>) -> Vec<u8> {
    let wire: BasicOutputWire = (
        [id; 32],
        balance,
        ([0xee; 32], 0),
        None,
        None,
        expiration.map(|(owner, return_address, unix_time)| {
            ([owner; 32], [return_address; 32], unix_time)
        }),
        None,
        None,
        None,
    );
    bcs::to_bytes(&wire).unwrap()
}

fn nft_contents(id: u8, balance: u64, expiration: Option<(u8, u8, u32)>) -> Vec<u8> {
    let wire: NftOutputWire = (
        [id; 32],
        balance,
        ([0xee; 32], 0),
        None,
        None,
        expiration.map(|(owner, return_address, unix_time)| {
            ([owner; 32], [return_address; 32], unix_time)
        }),
    );
    bcs::to_bytes(&wire).unwrap()
}

fn move_object(id: u8, shared: bool, module: &str, name: &str, contents: Vec<u8>) -> Object {
    Object {
        id: address(id),
        shared,
        data: ObjectData::Move {
            struct_tag: StructTag {
                address: address(PACKAGE),
                module: module.to_string(),
                name: name.to_string(),
            },
            contents,
        },
    }
}

fn basic_object(id: u8, balance: u64, expiration: Option<(u8, u8, u32)>) -> Object {
    move_object(id, true, "basic_output", "BasicOutput", basic_contents(id, balance, expiration))
}

fn nft_object(id: u8, balance: u64, expiration: Option<(u8, u8, u32)>) -> Object {
    move_object(id, true, "nft_output", "NftOutput", nft_contents(id, balance, expiration))
}

fn package_tx(outputs: Vec<Object>, removed: Vec<Object>) -> CheckpointTransaction {
    CheckpointTransaction {
        is_genesis: false,
        input_objects: Some(vec![
            InputObjectKind::SharedMoveObject(address(0x77)),
            InputObjectKind::MovePackage(address(PACKAGE)),
        ]),
        output_objects: outputs,
        removed_objects_pre_version: removed,
    }
}

fn checkpoint(seq: u64, ts: u64, transactions: Vec<CheckpointTransaction>) -> CheckpointData {
    CheckpointData {
        checkpoint_summary: CheckpointSummary { sequence_number: seq, timestamp_ms: ts },
        transactions,
    }
}

struct Node {
    worker: CheckpointWorker,
    database: ObjectsDatabase,
    clock: ClockCell,
    metrics: Metrics,
    progress: ProgressDatabase,
}

fn boot() -> Node {
    Node {
        worker: CheckpointWorker::new(vec![address(PACKAGE)]),
        database: ObjectsDatabase::new(),
        clock: ClockCell::new(),
        metrics: Metrics::new(),
        progress: ProgressDatabase::new(),
    }
}

fn process(node: &mut Node, data: &CheckpointData) -> Result<(), WorkerError> {
    node.worker
        .process_checkpoint(&mut node.database, &mut node.clock, &mut node.metrics, data)
        .result
}

fn first_checkpoint() -> CheckpointData {
    checkpoint(1, 500_000_000, vec![package_tx(vec![basic_object(1, 100, Some((A, B, 400_000)))], vec![])])
}

#[test]
fn cold_start_single_basic() {
    let mut node = boot();
    let mut executor = Executor::new();
    let last = node.progress.load("primary");
    assert_eq!(last, 0);
    assert_eq!(
        executor.handle(ExecutorEvent::ProgressLoaded { last_seq: last }),
        ExecutorAction::StartReader { start: 1 }
    );
    let data = first_checkpoint();
    assert_eq!(
        executor.handle(ExecutorEvent::CheckpointFetched { seq: 1 }),
        ExecutorAction::ProcessCheckpoint { seq: 1 }
    );
    assert_eq!(process(&mut node, &data), Ok(()));
    assert_eq!(
        executor.handle(ExecutorEvent::WorkerSucceeded),
        ExecutorAction::SaveProgress { seq: 1 }
    );
    assert_eq!(node.progress.save("primary".to_string(), 1, &mut node.metrics), Ok(()));
    assert_eq!(
        executor.handle(ExecutorEvent::ProgressSaved),
        ExecutorAction::UpdateGauge { seq: 1 }
    );
    assert_eq!(executor.state(), ExecutorState::Saved { seq: 1 });

    assert_eq!(node.database.count_objects(), 1);
    assert_eq!(node.database.count_expirations(), 1);
    assert_eq!(node.progress.load("primary"), 1);
    assert_eq!(node.metrics.last_checkpoint_indexed, 1);
    assert_eq!(node.metrics.last_checkpoint_checked, 1);
    assert_eq!(node.metrics.indexed_basic_outputs_count, 1);
    assert_eq!(node.metrics.indexed_nft_outputs_count, 0);
    assert_eq!(node.clock.get(), Some(500_000_000));
    assert_eq!(
        node.database.get_expiration(&address(1)),
        Some(ExpirationUnlockCondition {
            owner: address(A),
            return_address: address(B),
            unix_time: 400_000,
            object_id: address(1),
        })
    );
    assert_eq!(
        node.database.get_object(&address(1)),
        Some(StoredObject {
            id: address(1),
            object_type: ObjectType::Basic,
            contents: basic_contents(1, 100, Some((A, B, 400_000))),
        })
    );
}

#[test]
fn upsert_overwrite() {
    let mut node = boot();
    assert_eq!(process(&mut node, &first_checkpoint()), Ok(()));
    let second =
        checkpoint(2, 500_001_000, vec![package_tx(vec![basic_object(1, 200, Some((A, B, 400_000)))], vec![])]);
    assert_eq!(process(&mut node, &second), Ok(()));
    assert_eq!(node.database.count_objects(), 1);
    assert_eq!(node.database.count_expirations(), 1);
    assert_eq!(
        node.database.get_object(&address(1)).unwrap().contents,
        basic_contents(1, 200, Some((A, B, 400_000)))
    );
    assert_eq!(node.metrics.indexed_basic_outputs_count, 2);
    assert_eq!(node.metrics.last_checkpoint_indexed, 2);
    assert_eq!(node.clock.get(), Some(500_001_000));
}

#[test]
fn delete_via_removed_pre_version() {
    let mut node = boot();
    assert_eq!(process(&mut node, &first_checkpoint()), Ok(()));
    let third = checkpoint(
        3,
        500_002_000,
        vec![package_tx(vec![], vec![basic_object(1, 100, Some((A, B, 400_000)))])],
    );
    assert_eq!(process(&mut node, &third), Ok(()));
    assert_eq!(node.database.get_object(&address(1)), None);
    assert_eq!(node.database.get_expiration(&address(1)), None);
    assert_eq!(node.database.count_objects(), 0);
    assert_eq!(node.database.count_expirations(), 0);
    assert_eq!(node.metrics.last_checkpoint_indexed, 3);
}

#[test]
fn crash_before_save() {
    let mut node = boot();
    let mut executor = Executor::new();
    executor.handle(ExecutorEvent::ProgressLoaded { last_seq: node.progress.load("primary") });
    executor.handle(ExecutorEvent::CheckpointFetched { seq: 1 });
    assert_eq!(process(&mut node, &first_checkpoint()), Ok(()));
    assert_eq!(
        executor.handle(ExecutorEvent::WorkerSucceeded),
        ExecutorAction::SaveProgress { seq: 1 }
    );
    assert_eq!(
        executor.handle(ExecutorEvent::SaveFailed),
        ExecutorAction::Abort(stardust_indexer::sync::executor::ExecutorFailure::Save)
    );
    assert_eq!(executor.state(), ExecutorState::Failed);
    assert_eq!(node.progress.load("primary"), 0);
    let objects_before = node.database.objects();
    let expirations_before = node.database.expirations();

    let mut executor = Executor::new();
    assert_eq!(
        executor.handle(ExecutorEvent::ProgressLoaded { last_seq: node.progress.load("primary") }),
        ExecutorAction::StartReader { start: 1 }
    );
    assert_eq!(
        executor.handle(ExecutorEvent::CheckpointFetched { seq: 1 }),
        ExecutorAction::ProcessCheckpoint { seq: 1 }
    );
    assert_eq!(process(&mut node, &first_checkpoint()), Ok(()));
    executor.handle(ExecutorEvent::WorkerSucceeded);
    assert_eq!(node.progress.save("primary".to_string(), 1, &mut node.metrics), Ok(()));
    executor.handle(ExecutorEvent::ProgressSaved);
    assert_eq!(node.database.objects(), objects_before);
    assert_eq!(node.database.expirations(), expirations_before);
    assert_eq!(node.progress.load("primary"), 1);
}

#[test]
fn processing_twice_leaves_the_same_rows() {
    let data = checkpoint(
        4,
        1_000,
        vec![
            package_tx(
                vec![
                    basic_object(1, 100, Some((A, B, 10))),
                    nft_object(2, 5, Some((B, A, 20))),
                    basic_object(3, 7, None),
                    basic_object(1, 150, Some((B, B, 30))),
                ],
                vec![nft_object(2, 5, Some((B, A, 20)))],
            ),
            package_tx(vec![nft_object(4, 9, Some((A, A, 40)))], vec![basic_object(9, 1, None)]),
        ],
    );
    let mut node = boot();
    node.database.upsert_object(StoredObject {
        id: address(9),
        object_type: ObjectType::Basic,
        contents: basic_contents(9, 1, None),
    });
    assert_eq!(process(&mut node, &data), Ok(()));
    let objects = node.database.objects();
    let expirations = node.database.expirations();
    assert_eq!(objects.iter().map(|o| o.id.to_sql()[0]).collect::<Vec<u8>>(), vec![1, 3, 4]);
    assert_eq!(
        expirations.iter().map(|e| (e.object_id.to_sql()[0], e.unix_time)).collect::<Vec<(u8, i64)>>(),
        vec![(1, 30), (4, 40)]
    );
    assert_eq!(process(&mut node, &data), Ok(()));
    assert_eq!(node.database.objects(), objects);
    assert_eq!(node.database.expirations(), expirations);
    assert_eq!(node.metrics.indexed_basic_outputs_count, 6);
    assert_eq!(node.metrics.indexed_nft_outputs_count, 4);
}

#[test]
fn every_expiration_row_has_its_object() {
    let mut node = boot();
    let data = checkpoint(
        1,
        1,
        vec![package_tx(
            vec![
                basic_object(1, 1, Some((A, B, 1))),
                nft_object(2, 1, Some((A, B, 1))),
                basic_object(3, 1, None),
            ],
            vec![basic_object(1, 1, Some((A, B, 1)))],
        )],
    );
    assert_eq!(process(&mut node, &data), Ok(()));
    for condition in node.database.expirations() {
        assert!(node.database.contains_object(&condition.object_id));
    }
    assert_eq!(node.database.count_objects(), 2);
    assert_eq!(node.database.count_expirations(), 1);
}

#[test]
fn only_shared_outputs_of_the_two_structs_are_indexed() {
    let mut node = boot();
    let data = checkpoint(
        1,
        1,
        vec![package_tx(
            vec![
                move_object(1, false, "basic_output", "BasicOutput", basic_contents(1, 1, None)),
                move_object(2, true, "coin", "Coin", vec![1, 2, 3]),
                move_object(3, true, "basic_output", "NftOutput", basic_contents(3, 1, None)),
                Object { id: address(4), shared: true, data: ObjectData::Package },
                nft_object(5, 1, None),
            ],
            vec![],
        )],
    );
    assert_eq!(process(&mut node, &data), Ok(()));
    assert_eq!(node.database.objects().len(), 1);
    assert_eq!(node.database.get_object(&address(5)).unwrap().object_type, ObjectType::Nft);
    assert_eq!(node.database.count_expirations(), 0);
    assert_eq!(node.metrics.indexed_nft_outputs_count, 1);
    assert_eq!(node.metrics.indexed_basic_outputs_count, 0);
}

#[test]
fn transactions_that_do_not_touch_the_package_are_skipped() {
    let mut node = boot();
    let other = CheckpointTransaction {
        is_genesis: false,
        input_objects: Some(vec![
            InputObjectKind::MovePackage(address(0x11)),
            InputObjectKind::ImmOrOwnedMoveObject(address(PACKAGE)),
            InputObjectKind::SharedMoveObject(address(PACKAGE)),
        ]),
        output_objects: vec![basic_object(1, 1, Some((A, B, 1)))],
        removed_objects_pre_version: vec![basic_object(7, 1, None)],
    };
    node.database.upsert_object(StoredObject {
        id: address(7),
        object_type: ObjectType::Basic,
        contents: basic_contents(7, 1, None),
    });
    assert_eq!(node.worker.tx_touches_stardust_objects(&other), Ok(false));
    assert_eq!(process(&mut node, &checkpoint(1, 9, vec![other])), Ok(()));
    assert_eq!(node.database.count_objects(), 1);
    assert!(node.database.contains_object(&address(7)));
    assert_eq!(node.clock.get(), Some(9));
}

#[test]
fn genesis_transactions_are_indexed_whatever_their_inputs() {
    let mut node = boot();
    let genesis = CheckpointTransaction {
        is_genesis: true,
        input_objects: None,
        output_objects: vec![basic_object(1, 1, Some((A, B, 1)))],
        removed_objects_pre_version: vec![],
    };
    assert_eq!(node.worker.tx_touches_stardust_objects(&genesis), Ok(true));
    assert_eq!(process(&mut node, &checkpoint(0, 1, vec![genesis])), Ok(()));
    assert_eq!(node.database.count_objects(), 1);
}

#[test]
fn malformed_inputs_fail_the_checkpoint() {
    let mut node = boot();
    let broken = CheckpointTransaction {
        is_genesis: false,
        input_objects: None,
        output_objects: vec![basic_object(2, 1, None)],
        removed_objects_pre_version: vec![],
    };
    let data = checkpoint(
        5,
        77,
        vec![package_tx(vec![basic_object(1, 1, None)], vec![]), broken],
    );
    assert_eq!(process(&mut node, &data), Err(WorkerError::InvalidInputObjects));
    assert_eq!(node.database.count_objects(), 0);
    assert_eq!(node.metrics, Metrics::new());
    assert_eq!(node.clock.get(), Some(77));
}

#[test]
fn contents_that_do_not_decode_fail_the_checkpoint() {
    let mut node = boot();
    let data = checkpoint(
        5,
        77,
        vec![package_tx(
            vec![
                basic_object(1, 1, Some((A, B, 1))),
                move_object(2, true, "basic_output", "BasicOutput", vec![1, 2, 3]),
                basic_object(3, 1, None),
            ],
            vec![basic_object(1, 1, None)],
        )],
    );
    assert_eq!(process(&mut node, &data), Err(WorkerError::Output(OutputError::Malformed)));
    assert_eq!(node.database.count_objects(), 1);
    assert!(node.database.contains_object(&address(1)));
    assert_eq!(node.metrics.indexed_basic_outputs_count, 1);
    assert_eq!(node.metrics.last_checkpoint_indexed, 0);
}

#[test]
fn expiration_of_a_missing_object_is_refused() {
    let mut node = boot();
    let stray = move_object(
        1,
        true,
        "basic_output",
        "BasicOutput",
        basic_contents(2, 1, Some((A, B, 1))),
    );
    let data = checkpoint(1, 1, vec![package_tx(vec![stray], vec![])]);
    assert_eq!(
        process(&mut node, &data),
        Err(WorkerError::Store(StoreError::ForeignKeyViolation))
    );
    assert_eq!(node.database.count_objects(), 0);
    assert_eq!(node.database.count_expirations(), 0);
    assert_eq!(node.metrics.indexed_basic_outputs_count, 0);
}

#[test]
fn object_without_expiration_leaves_the_expiration_row() {
    let mut node = boot();
    assert_eq!(process(&mut node, &first_checkpoint()), Ok(()));
    let again = checkpoint(2, 2, vec![package_tx(vec![basic_object(1, 300, None)], vec![])]);
    assert_eq!(process(&mut node, &again), Ok(()));
    assert_eq!(node.database.get_object(&address(1)).unwrap().contents, basic_contents(1, 300, None));
    assert_eq!(node.database.get_expiration(&address(1)).unwrap().unix_time, 400_000);
}

#[test]
fn batches_keep_the_order_of_the_transactions() {
    let node = boot();
    let data = checkpoint(
        1,
        1,
        vec![
            package_tx(vec![nft_object(5, 1, None)], vec![basic_object(8, 1, None)]),
            package_tx(
                vec![basic_object(6, 1, None)],
                vec![
                    move_object(9, false, "basic_output", "BasicOutput", vec![]),
                    move_object(10, true, "coin", "Coin", vec![]),
                ],
            ),
        ],
    );
    let (created, deleted) = node.worker.collect_batches(&data).unwrap();
    assert_eq!(created.iter().map(|o| o.id.to_sql()[0]).collect::<Vec<u8>>(), vec![5, 6]);
    assert_eq!(deleted, vec![address(8), address(10)]);
}

fn replay(database: &mut ObjectsDatabase, writes: &[DatabaseWrite]) {
    for write in writes {
        match write {
            DatabaseWrite::Upsert { object, expiration } => {
                database.upsert_object(object.clone());
                if let Some(condition) = expiration {
                    database.upsert_expiration(condition.clone()).unwrap();
                }
            }
            DatabaseWrite::Delete { ids } => database.delete_objects(ids),
        }
    }
}

#[test]
fn journal_replays_to_the_same_rows() {
    let mut node = boot();
    let mut copy = ObjectsDatabase::new();
    let checkpoints = vec![
        first_checkpoint(),
        checkpoint(
            2,
            2,
            vec![package_tx(
                vec![nft_object(2, 1, Some((A, B, 5))), basic_object(1, 7, None)],
                vec![basic_object(3, 1, None)],
            )],
        ),
        checkpoint(
            3,
            3,
            vec![package_tx(
                vec![
                    basic_object(4, 1, Some((B, A, 6))),
                    move_object(5, true, "nft_output", "NftOutput", vec![0]),
                    basic_object(6, 1, None),
                ],
                vec![nft_object(2, 1, None)],
            )],
        ),
        checkpoint(4, 4, vec![package_tx(vec![], vec![basic_object(1, 1, None)])]),
    ];
    let expected_writes = [1usize, 3, 1, 1];
    for (data, expected) in checkpoints.iter().zip(expected_writes) {
        let report = node.worker.process_checkpoint(
            &mut node.database,
            &mut node.clock,
            &mut node.metrics,
            data,
        );
        assert_eq!(report.writes.len(), expected);
        replay(&mut copy, &report.writes);
        assert_eq!(copy.objects(), node.database.objects());
        assert_eq!(copy.expirations(), node.database.expirations());
    }
    assert_eq!(
        node.database.objects().iter().map(|o| o.id.to_sql()[0]).collect::<Vec<u8>>(),
        vec![2, 4]
    );
}

#[test]
fn insertion_reports_what_was_committed_before_an_error() {
    let mut node = boot();
    let stored_objects = vec![
        StoredObject {
            id: address(1),
            object_type: ObjectType::Basic,
            contents: basic_contents(1, 1, Some((A, B, 3))),
        },
        StoredObject { id: address(2), object_type: ObjectType::Nft, contents: vec![9] },
        StoredObject {
            id: address(3),
            object_type: ObjectType::Nft,
            contents: nft_contents(3, 1, None),
        },
    ];
    let report = node.worker.multi_insert_as_database_transactions(
        &mut node.database,
        &mut node.metrics,
        stored_objects.clone(),
    );
    assert_eq!(report.result, Err(WorkerError::Output(OutputError::Malformed)));
    assert_eq!(
        report.writes,
        vec![DatabaseWrite::Upsert {
            object: stored_objects[0].clone(),
            expiration: Some(ExpirationUnlockCondition {
                owner: address(A),
                return_address: address(B),
                unix_time: 3,
                object_id: address(1),
            }),
        }]
    );
    assert_eq!(node.database.objects(), vec![stored_objects[0].clone()]);
    node.worker.delete_objects(&mut node.database, &vec![address(1)]);
    assert_eq!(node.database.count_objects(), 0);
    assert_eq!(node.database.count_expirations(), 0);
}

#[test]
fn mismatches_of_the_two_filters_are_counted() {
    let node = boot();
    let foreign = Object {
        id: address(3),
        shared: true,
        data: ObjectData::Move {
            struct_tag: StructTag {
                address: address(0x55),
                module: "basic_output".to_string(),
                name: "BasicOutput".to_string(),
            },
            contents: vec![],
        },
    };
    let tx = package_tx(
        vec![
            basic_object(1, 1, None),
            move_object(2, false, "basic_output", "BasicOutput", vec![]),
            foreign,
            Object { id: address(4), shared: true, data: ObjectData::Package },
        ],
        vec![],
    );
    assert_eq!(node.worker.filter_mismatches(&tx), Ok(2));
    let untouched = CheckpointTransaction {
        is_genesis: false,
        input_objects: Some(vec![]),
        output_objects: vec![basic_object(1, 1, None), nft_object(2, 1, None)],
        removed_objects_pre_version: vec![],
    };
    assert_eq!(node.worker.filter_mismatches(&untouched), Ok(2));
    let broken = CheckpointTransaction {
        is_genesis: false,
        input_objects: None,
        output_objects: vec![],
        removed_objects_pre_version: vec![],
    };
    assert_eq!(node.worker.filter_mismatches(&broken), Err(WorkerError::InvalidInputObjects));
}

#[test]
fn any_of_several_packages_is_enough() {
    let worker = CheckpointWorker::new(vec![address(0x20), address(PACKAGE), address(0x30)]);
    let tx = package_tx(vec![basic_object(1, 1, None)], vec![]);
    assert_eq!(worker.tx_touches_stardust_objects(&tx), Ok(true));
    assert!(worker.package_id_matches(&InputObjectKind::MovePackage(address(0x30))));
    assert!(!worker.package_id_matches(&InputObjectKind::MovePackage(address(0x31))));
    assert!(!worker.package_id_matches(&InputObjectKind::SharedMoveObject(address(0x30))));
    let none = CheckpointWorker::new(vec![]);
    assert_eq!(none.tx_touches_stardust_objects(&tx), Ok(false));
    assert_eq!(none.filter_mismatches(&tx), Ok(0));
}

#[test]
fn expiration_keyed_by_a_deleted_object_refuses_the_second_run() {
    let mut node = boot();
    node.database.upsert_object(StoredObject {
        id: address(2),
        object_type: ObjectType::Basic,
        contents: basic_contents(2, 1, None),
    });
    let stray = move_object(
        1,
        true,
        "basic_output",
        "BasicOutput",
        basic_contents(2, 1, Some((A, B, 1))),
    );
    let data = checkpoint(1, 1, vec![package_tx(vec![stray], vec![basic_object(2, 1, None)])]);
    assert_eq!(process(&mut node, &data), Ok(()));
    assert_eq!(node.database.count_objects(), 1);
    assert_eq!(node.database.count_expirations(), 0);
    assert_eq!(
        process(&mut node, &data),
        Err(WorkerError::Store(StoreError::ForeignKeyViolation))
    );
    assert_eq!(node.database.count_objects(), 1);
    assert_eq!(node.database.count_expirations(), 0);
}
