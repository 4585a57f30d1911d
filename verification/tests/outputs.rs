use stardust_indexer::checkpoint::{ConversionError, Object, ObjectData, StructTag};
use stardust_indexer::models::{
    ExpirationUnlockCondition, IotaAddress, ObjectType, StoredObject,
};
use stardust_indexer::output::{
    Bag, BasicOutput, BasicOutputWire, Expiration, NftOutput, NftOutputWire, OutputError,
    StorageDepositReturn, Timelock,
};
use stardust_indexer::rest::routes::v1::responses;
use stardust_indexer::store::{ObjectsDatabase, StoreError};

fn address(byte: u8) -> IotaAddress {
    IotaAddress::from_array([byte; 32])
}

fn hex(byte: u8) -> String {
    format!("0x{}", format!("{:02x}", byte).repeat(32))
}

fn full_basic_wire() -> BasicOutputWire {
    (
        [1; 32],
        100,
        ([2; 32], 3),
        Some(([4; 32], 5)),
        Some(6),
        Some(([7; 32], [8; 32], 9)),
        Some(vec![10, 11]),
        Some(vec![]),
        Some([12; 32]),
    )
}

fn full_basic() -> BasicOutput {
    BasicOutput {
        id: address(1),
        balance: 100,
        native_tokens: Bag { id: address(2), size: 3 },
        storage_deposit_return: Some(StorageDepositReturn {
            return_address: address(4),
            return_amount: 5,
        }),
        timelock: Some(Timelock { unix_time: 6 }),
        expiration: Some(Expiration { owner: address(7), return_address: address(8), unix_time: 9 }),
        metadata: Some(vec![10, 11]),
        tag: Some(vec![]),
        sender: Some(address(12)),
    }
}

fn stored(object_type: ObjectType, id: u8, contents: Vec<u8>) -> StoredObject {
    StoredObject { id: address(id), object_type, contents }
}

#[test]
fn basic_output_decodes_from_its_fields_in_order() {
    let mut encoded = vec![1u8; 32];
    encoded.extend(100u64.to_le_bytes());
    encoded.extend([2u8; 32]);
    encoded.extend(3u64.to_le_bytes());
    encoded.push(1);
    encoded.extend([4u8; 32]);
    encoded.extend(5u64.to_le_bytes());
    encoded.push(1);
    encoded.extend(6u32.to_le_bytes());
    encoded.push(1);
    encoded.extend([7u8; 32]);
    encoded.extend([8u8; 32]);
    encoded.extend(9u32.to_le_bytes());
    encoded.extend([1, 2, 10, 11]);
    encoded.extend([1, 0]);
    encoded.push(1);
    encoded.extend([12u8; 32]);
    assert_eq!(bcs::to_bytes(&full_basic_wire()).unwrap(), encoded);
    assert_eq!(
        BasicOutput::try_from_stored(&stored(ObjectType::Basic, 1, encoded.clone())),
        Ok(full_basic())
    );
    assert_eq!(BasicOutput::from_wire(full_basic_wire()), full_basic());
    encoded.push(0);
    assert_eq!(
        BasicOutput::try_from_stored(&stored(ObjectType::Basic, 1, encoded)),
        Err(OutputError::Malformed)
    );
}

#[test]
fn nft_output_decodes_from_its_fields_in_order() {
    let wire: NftOutputWire = ([1; 32], 7, ([2; 32], 0), None, None, Some(([3; 32], [4; 32], 5)));
    let contents = bcs::to_bytes(&wire).unwrap();
    assert_eq!(contents.len(), 32 + 8 + 40 + 1 + 1 + 1 + 68);
    let expected = NftOutput {
        id: address(1),
        balance: 7,
        native_tokens: Bag { id: address(2), size: 0 },
        storage_deposit_return: None,
        timelock: None,
        expiration: Some(Expiration { owner: address(3), return_address: address(4), unix_time: 5 }),
    };
    assert_eq!(NftOutput::try_from_stored(&stored(ObjectType::Nft, 1, contents.clone())), Ok(expected));
    assert_eq!(
        NftOutput::try_from_stored(&stored(ObjectType::Nft, 1, contents[..50].to_vec())),
        Err(OutputError::Malformed)
    );
}

#[test]
fn output_of_the_other_variant_is_refused() {
    let basic = bcs::to_bytes(&full_basic_wire()).unwrap();
    assert_eq!(
        NftOutput::try_from_stored(&stored(ObjectType::Basic, 1, basic.clone())),
        Err(OutputError::NotNftOutput)
    );
    assert_eq!(
        BasicOutput::try_from_stored(&stored(ObjectType::Nft, 1, basic.clone())),
        Err(OutputError::NotBasicOutput)
    );
    assert_eq!(
        ExpirationUnlockCondition::try_from_stored(&stored(ObjectType::Nft, 1, basic)),
        Err(OutputError::Malformed)
    );
}

#[test]
fn expiration_row_is_taken_from_the_output() {
    let contents = bcs::to_bytes(&full_basic_wire()).unwrap();
    let expected = ExpirationUnlockCondition {
        owner: address(7),
        return_address: address(8),
        unix_time: 9,
        object_id: address(1),
    };
    assert_eq!(
        ExpirationUnlockCondition::try_from_stored(&stored(ObjectType::Basic, 0x33, contents)),
        Ok(Some(expected.clone()))
    );
    assert_eq!(ExpirationUnlockCondition::try_from_basic(&full_basic()), Some(expected));
    let mut without = full_basic();
    without.expiration = None;
    assert_eq!(ExpirationUnlockCondition::try_from_basic(&without), None);
    let nft = NftOutput {
        id: address(1),
        balance: 7,
        native_tokens: Bag { id: address(2), size: 0 },
        storage_deposit_return: None,
        timelock: None,
        expiration: Some(Expiration {
            owner: address(3),
            return_address: address(4),
            unix_time: u32::MAX,
        }),
    };
    assert_eq!(
        ExpirationUnlockCondition::try_from_nft(&nft),
        Some(ExpirationUnlockCondition {
            owner: address(3),
            return_address: address(4),
            unix_time: 4_294_967_295,
            object_id: address(1),
        })
    );
}

#[test]
fn served_record_is_flat_and_in_hexadecimal() {
    assert_eq!(
        responses::BasicOutput::from_output(full_basic()),
        responses::BasicOutput {
            id: hex(1),
            balance: responses::Balance { value: 100 },
            native_tokens: responses::Bag { id: hex(2), size: 3 },
            storage_deposit_return: Some(responses::StorageDepositReturn {
                return_address: hex(4),
                return_amount: 5,
            }),
            timelock: Some(responses::Timelock { unix_time: 6 }),
            expiration: Some(responses::Expiration {
                owner: hex(7),
                return_address: hex(8),
                unix_time: 9,
            }),
            metadata: Some(vec![10, 11]),
            tag: Some(vec![]),
            sender: Some(hex(12)),
        }
    );
    let nft = NftOutput {
        id: address(0xab),
        balance: 7,
        native_tokens: Bag { id: address(2), size: 0 },
        storage_deposit_return: None,
        timelock: None,
        expiration: None,
    };
    assert_eq!(
        responses::NftOutput::from_output(nft),
        responses::NftOutput {
            id: hex(0xab),
            balance: responses::Balance { value: 7 },
            native_tokens: responses::Bag { id: hex(2), size: 0 },
            storage_deposit_return: None,
            timelock: None,
            expiration: None,
        }
    );
}

fn object(shared: bool, module: &str, name: &str) -> Object {
    Object {
        id: address(5),
        shared,
        data: ObjectData::Move {
            struct_tag: StructTag {
                address: address(0x10),
                module: module.to_string(),
                name: name.to_string(),
            },
            contents: vec![1, 2, 3],
        },
    }
}

#[test]
fn stored_object_is_made_of_a_shared_indexed_output() {
    assert_eq!(
        StoredObject::try_from_object(&object(true, "basic_output", "BasicOutput")),
        Ok(stored(ObjectType::Basic, 5, vec![1, 2, 3]))
    );
    assert_eq!(
        StoredObject::try_from_object(&object(true, "nft_output", "NftOutput")),
        Ok(stored(ObjectType::Nft, 5, vec![1, 2, 3]))
    );
    assert_eq!(
        StoredObject::try_from_object(&object(false, "nft_output", "NftOutput")),
        Err(ConversionError::NotShared)
    );
    assert_eq!(
        StoredObject::try_from_object(&object(true, "nft_output", "BasicOutput")),
        Err(ConversionError::NotEligibleType)
    );
    assert_eq!(
        StoredObject::try_from_object(&object(true, "Basic_output", "BasicOutput")),
        Err(ConversionError::NotEligibleType)
    );
    let package = Object { id: address(5), shared: true, data: ObjectData::Package };
    assert_eq!(StoredObject::try_from_object(&package), Err(ConversionError::NotMoveObject));
    assert_eq!(ObjectType::try_from_object(&package), Err(ConversionError::NotMoveObject));
    let unshared_package = Object { id: address(5), shared: false, data: ObjectData::Package };
    assert_eq!(StoredObject::try_from_object(&unshared_package), Err(ConversionError::NotShared));
    assert_eq!(ObjectType::from_struct_tag("nft_output", "NftOutput"), Some(ObjectType::Nft));
    assert_eq!(ObjectType::from_struct_tag("nft_output", ""), None);
}

#[test]
fn stored_object_round_trip() {
    let data = vec![stored(ObjectType::Nft, 1, vec![]), stored(ObjectType::Nft, 2, vec![])];
    let mut database = ObjectsDatabase::new();
    for object in &data {
        database.upsert_object(object.clone());
    }
    assert_eq!(database.count_objects(), 2);
    let inserted = database.objects();
    assert_eq!(inserted, data);
}

#[test]
fn database_is_rebuilt_from_its_rows() {
    let objects = vec![stored(ObjectType::Basic, 1, vec![9]), stored(ObjectType::Nft, 2, vec![])];
    let condition = |id: u8| ExpirationUnlockCondition {
        owner: address(7),
        return_address: address(8),
        unix_time: -5,
        object_id: address(id),
    };
    let database = ObjectsDatabase::from_rows(objects.clone(), vec![condition(2)]).unwrap();
    assert_eq!(database.objects(), objects);
    assert_eq!(database.expirations(), vec![condition(2)]);
    assert_eq!(
        ObjectsDatabase::from_rows(objects.clone(), vec![condition(3)]).unwrap_err(),
        StoreError::ForeignKeyViolation
    );
    assert_eq!(
        ObjectsDatabase::from_rows(objects.clone(), vec![condition(1), condition(1)]).unwrap_err(),
        StoreError::DuplicateKey
    );
    let mut twice = objects.clone();
    twice.push(stored(ObjectType::Nft, 1, vec![]));
    assert_eq!(
        ObjectsDatabase::from_rows(twice, vec![condition(3)]).unwrap_err(),
        StoreError::DuplicateKey
    );
}

#[test]
fn upserts_and_deletes_keep_insertion_order() {
    let mut database = ObjectsDatabase::new();
    for id in [3u8, 1, 2] {
        database.upsert_object(stored(ObjectType::Basic, id, vec![id]));
    }
    database.upsert_object(stored(ObjectType::Nft, 1, vec![0xff]));
    assert_eq!(
        database.objects(),
        vec![
            stored(ObjectType::Basic, 3, vec![3]),
            stored(ObjectType::Nft, 1, vec![0xff]),
            stored(ObjectType::Basic, 2, vec![2]),
        ]
    );
    let condition = |id: u8, unix_time: i64| ExpirationUnlockCondition {
        owner: address(7),
        return_address: address(8),
        unix_time,
        object_id: address(id),
    };
    assert_eq!(database.upsert_expiration(condition(2, 1)), Ok(()));
    assert_eq!(database.upsert_expiration(condition(3, 2)), Ok(()));
    assert_eq!(database.upsert_expiration(condition(2, 3)), Ok(()));
    assert_eq!(database.upsert_expiration(condition(9, 4)), Err(StoreError::ForeignKeyViolation));
    assert_eq!(database.expirations(), vec![condition(2, 3), condition(3, 2)]);
    database.delete_objects(&vec![address(3), address(9), address(3)]);
    assert_eq!(
        database.objects(),
        vec![stored(ObjectType::Nft, 1, vec![0xff]), stored(ObjectType::Basic, 2, vec![2])]
    );
    assert_eq!(database.expirations(), vec![condition(2, 3)]);
    assert_eq!(database.count_objects_of(ObjectType::Basic), 1);
    assert_eq!(database.count_objects_of(ObjectType::Nft), 1);
    database.delete_objects(&vec![]);
    assert_eq!(database.count_objects(), 2);
}
