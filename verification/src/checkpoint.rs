//! What the worker reads of a checkpoint: its summary and, of each
//! transaction, the declared inputs, the output objects and the objects
//! removed, with their state before the removal.

use vstd::prelude::*;

use crate::models::{
    indexed_struct, IotaAddress, ObjectRow, ObjectType, StoredObject,
};

verus! {

/// The tag of a struct: the package it is defined in, its module and its name.
#[derive(Debug)]
pub struct StructTag {
    pub address: IotaAddress,
    pub module: String,
    pub name: String,
}

/// What an object holds.
#[derive(Debug)]
pub enum ObjectData {
    /// A value of a struct, in its encoded form.
    Move { struct_tag: StructTag, contents: Vec<u8> },
    /// A package.
    Package,
}

/// A ledger object after a transaction.
#[derive(Debug)]
pub struct Object {
    pub id: IotaAddress,
    /// Whether the object is shared, that is addressable by everybody.
    pub shared: bool,
    pub data: ObjectData,
}

/// An input that a transaction declares.
#[derive(Debug)]
pub enum InputObjectKind {
    MovePackage(IotaAddress),
    ImmOrOwnedMoveObject(IotaAddress),
    SharedMoveObject(IotaAddress),
}

/// One transaction of a checkpoint.
#[derive(Debug)]
pub struct CheckpointTransaction {
    /// Whether the transaction is a genesis transaction.
    pub is_genesis: bool,
    /// The declared inputs, or nothing where the declaration is malformed.
    pub input_objects: Option<Vec<InputObjectKind>>,
    pub output_objects: Vec<Object>,
    /// The removed objects, as they were before the transaction.
    pub removed_objects_pre_version: Vec<Object>,
}

/// The summary of a checkpoint.
#[derive(Debug, Clone, Copy, PartialEq, Eq, Structural)]
pub struct CheckpointSummary {
    pub sequence_number: u64,
    pub timestamp_ms: u64,
}

/// A checkpoint: its summary and its transactions in their order.
#[derive(Debug)]
pub struct CheckpointData {
    pub checkpoint_summary: CheckpointSummary,
    pub transactions: Vec<CheckpointTransaction>,
}

/// Why an object is not indexed.
#[derive(Debug, Clone, Copy, PartialEq, Eq, Structural)]
pub enum ConversionError {
    /// The object is not shared.
    NotShared,
    /// The object is a package, not a value of a struct.
    NotMoveObject,
    /// The struct is neither of the two indexed outputs.
    NotEligibleType,
}

/// The variant that an object is indexed as.
pub open spec fn object_type_of(object: Object) -> Result<ObjectType, ConversionError> {
    match object.data {
        ObjectData::Package => Err(ConversionError::NotMoveObject),
        ObjectData::Move { struct_tag, contents } => match indexed_struct(
            struct_tag.module@,
            struct_tag.name@,
        ) {
            Some(object_type) => Ok(object_type),
            None => Err(ConversionError::NotEligibleType),
        },
    }
}

/// The contents of an object that holds a value of a struct.
pub open spec fn contents_of(object: Object) -> Seq<u8> {
    match object.data {
        ObjectData::Package => Seq::empty(),
        ObjectData::Move { struct_tag, contents } => contents@,
    }
}

/// The row that an object is stored as, or why it is not indexed.
pub open spec fn stored_row_of(object: Object) -> Result<ObjectRow, ConversionError> {
    if !object.shared {
        Err(ConversionError::NotShared)
    } else {
        match object_type_of(object) {
            Ok(object_type) => Ok(
                ObjectRow { id: object.id@, object_type, contents: contents_of(object) },
            ),
            Err(e) => Err(e),
        }
    }
}

impl ObjectType {
    /// The variant that an object is indexed as, by the tag of its struct.
    pub fn try_from_object(object: &Object) -> (result: Result<ObjectType, ConversionError>)
        ensures
            result == object_type_of(*object),
    {
        match &object.data {
            ObjectData::Package => Err(ConversionError::NotMoveObject),
            ObjectData::Move { struct_tag, contents } => {
                match ObjectType::from_struct_tag(
                    struct_tag.module.as_str(),
                    struct_tag.name.as_str(),
                ) {
                    Some(object_type) => Ok(object_type),
                    None => Err(ConversionError::NotEligibleType),
                }
            },
        }
    }
}

impl StoredObject {
    /// The stored form of a shared object that holds one of the two indexed
    /// outputs; any other object is refused.
    pub fn try_from_object(object: &Object) -> (result: Result<StoredObject, ConversionError>)
        ensures
            match result {
                Ok(stored) => stored_row_of(*object) == Ok::<ObjectRow, ConversionError>(stored@),
                Err(e) => stored_row_of(*object) == Err::<ObjectRow, ConversionError>(e),
            },
    {
        if !object.shared {
            return Err(ConversionError::NotShared);
        }
        let object_type = match ObjectType::try_from_object(object) {
            Ok(object_type) => object_type,
            Err(e) => {
                return Err(e);
            },
        };
        match &object.data {
            ObjectData::Move { struct_tag, contents } => Ok(
                StoredObject { id: object.id.clone(), object_type, contents: contents.clone() },
            ),
            ObjectData::Package => Err(ConversionError::NotMoveObject),
        }
    }
}

} // verus!
