//! Models of the database relations and their column codecs.

use vstd::prelude::*;

verus! {

/// Length in bytes of a short (legacy) address.
pub const SHORT_ADDRESS_LENGTH: usize = 20;

/// Length in bytes of a full address.
pub const ADDRESS_LENGTH: usize = 32;

/// Failure to interpret a stored column value.
#[derive(Debug, Clone, Copy, PartialEq, Eq, Structural)]
pub enum CodecError {
    /// The value read from a row does not have the type or shape of its column.
    Corrupt,
}

/// Whether `len` is the byte length of an address.
pub open spec fn is_address_length(len: nat) -> bool {
    len == SHORT_ADDRESS_LENGTH as nat || len == ADDRESS_LENGTH as nat
}

/// An address of an account or an object, held in its raw byte form.
#[derive(Debug)]
pub struct IotaAddress {
    bytes: Vec<u8>,
}

impl View for IotaAddress {
    type V = Seq<u8>;

    closed spec fn view(&self) -> Seq<u8> {
        self.bytes@
    }
}

impl IotaAddress {
    #[verifier::type_invariant]
    spec fn well_formed(&self) -> bool {
        is_address_length(self.bytes@.len())
    }

    /// Decodes an address from the bytes stored in a binary column.
    pub fn from_sql(stored: Vec<u8>) -> (result: Result<IotaAddress, CodecError>)
        ensures
            result matches Ok(address) ==> address@ == stored@,
            result is Ok <==> is_address_length(stored@.len()),
            result matches Err(e) ==> e == CodecError::Corrupt,
    {
        if stored.len() == SHORT_ADDRESS_LENGTH || stored.len() == ADDRESS_LENGTH {
            Ok(IotaAddress { bytes: stored })
        } else {
            Err(CodecError::Corrupt)
        }
    }

    /// The full address that the 32 bytes of `bytes` spell.
    pub fn from_array(bytes: [u8; 32]) -> (address: IotaAddress)
        ensures
            address@ == bytes@,
    {
        let mut copied: Vec<u8> = Vec::with_capacity(ADDRESS_LENGTH);
        let mut i: usize = 0;
        while i < ADDRESS_LENGTH
            invariant
                i <= ADDRESS_LENGTH,
                copied@ == bytes@.take(i as int),
            decreases ADDRESS_LENGTH - i,
        {
            copied.push(bytes[i]);
            assert(copied@ =~= bytes@.take(i + 1));
            i += 1;
        }
        assert(copied@ =~= bytes@);
        IotaAddress { bytes: copied }
    }

    /// The bytes written to a binary column.
    pub fn to_sql(&self) -> (stored: Vec<u8>)
        ensures
            stored@ == self@,
    {
        self.bytes.clone()
    }

    /// The raw bytes of the address.
    pub fn as_bytes(&self) -> (bytes: &[u8])
        ensures
            bytes@ == self@,
            is_address_length(bytes@.len()),
    {
        proof {
            use_type_invariant(self);
        }
        self.bytes.as_slice()
    }
}

impl Clone for IotaAddress {
    fn clone(&self) -> (copy: Self)
        ensures
            copy@ == self@,
    {
        proof {
            use_type_invariant(self);
        }
        IotaAddress { bytes: self.bytes.clone() }
    }
}

impl PartialEq for IotaAddress {
    fn eq(&self, other: &Self) -> (equal: bool) {
        let equal = self.bytes == other.bytes;
        proof {
            if equal {
                assert(self.bytes@ =~= other.bytes@);
            }
        }
        equal
    }
}

impl Eq for IotaAddress {}

impl vstd::std_specs::cmp::PartialEqSpecImpl for IotaAddress {
    open spec fn obeys_eq_spec() -> bool {
        true
    }

    open spec fn eq_spec(&self, other: &Self) -> bool {
        self@ == other@
    }
}

/// The bytes of each address of `ids`, in their order.
pub open spec fn address_bytes(ids: Seq<IotaAddress>) -> Seq<Seq<u8>> {
    ids.map_values(|id: IotaAddress| id@)
}

/// The variant of an indexed output, stored as a small integer.
#[derive(Debug, Clone, Copy, PartialEq, Eq, Structural)]
pub enum ObjectType {
    Basic,
    Nft,
}

/// The integer that stands for `object_type` in the `object_type` column.
pub open spec fn object_type_code(object_type: ObjectType) -> int {
    match object_type {
        ObjectType::Basic => 0,
        ObjectType::Nft => 1,
    }
}

/// The variant that a struct of the given module and name is indexed as, if any.
pub open spec fn indexed_struct(module: Seq<char>, name: Seq<char>) -> Option<ObjectType> {
    if module == "nft_output"@ && name == "NftOutput"@ {
        Some(ObjectType::Nft)
    } else if module == "basic_output"@ && name == "BasicOutput"@ {
        Some(ObjectType::Basic)
    } else {
        None
    }
}

impl ObjectType {
    /// Decodes the variant from its primitive number.
    pub fn try_from_primitive(number: u8) -> (result: Result<ObjectType, CodecError>)
        ensures
            result matches Ok(object_type) ==> object_type_code(object_type) == number,
            result is Ok <==> number <= 1,
            result matches Err(e) ==> e == CodecError::Corrupt,
    {
        if number == 0 {
            Ok(ObjectType::Basic)
        } else if number == 1 {
            Ok(ObjectType::Nft)
        } else {
            Err(CodecError::Corrupt)
        }
    }

    /// Decodes the variant from the integer stored in the `object_type` column.
    pub fn from_sql(stored: i32) -> (result: Result<ObjectType, CodecError>)
        ensures
            result matches Ok(object_type) ==> object_type_code(object_type) == stored,
            result is Ok <==> 0 <= stored <= 1,
            result matches Err(e) ==> e == CodecError::Corrupt,
    {
        if 0 <= stored && stored <= 255 {
            Self::try_from_primitive(stored as u8)
        } else {
            Err(CodecError::Corrupt)
        }
    }

    /// The integer written to the `object_type` column.
    pub fn to_sql(&self) -> (stored: i32)
        ensures
            stored == object_type_code(*self),
    {
        match self {
            ObjectType::Basic => 0,
            ObjectType::Nft => 1,
        }
    }

    /// Classifies a struct by the module and name of its tag.
    pub fn from_struct_tag(module: &str, name: &str) -> (result: Option<ObjectType>)
        ensures
            result == indexed_struct(module@, name@),
    {
        if str_equal(module, "nft_output") && str_equal(name, "NftOutput") {
            Some(ObjectType::Nft)
        } else if str_equal(module, "basic_output") && str_equal(name, "BasicOutput") {
            Some(ObjectType::Basic)
        } else {
            None
        }
    }
}

/// Whether two string slices hold the same characters.
pub fn str_equal(left: &str, right: &str) -> (equal: bool)
    ensures
        equal == (left@ == right@),
{
    let left_owned = left.to_owned();
    let right_owned = right.to_owned();
    left_owned == right_owned
}

/// A row of the `objects` relation, as a mathematical value.
pub struct ObjectRow {
    pub id: Seq<u8>,
    pub object_type: ObjectType,
    pub contents: Seq<u8>,
}

/// An indexed output object: its id, its variant and its encoded contents.
#[derive(Debug, PartialEq, Eq)]
pub struct StoredObject {
    pub id: IotaAddress,
    pub object_type: ObjectType,
    pub contents: Vec<u8>,
}

impl View for StoredObject {
    type V = ObjectRow;

    open spec fn view(&self) -> ObjectRow {
        ObjectRow { id: self.id@, object_type: self.object_type, contents: self.contents@ }
    }
}

impl StoredObject {
    /// Decodes a row of `objects` from the values of its columns: refused
    /// when the id is not an address or the variant code is not known.
    pub fn from_sql(id: Vec<u8>, object_type: i32, contents: Vec<u8>) -> (result: Result<
        StoredObject,
        CodecError,
    >)
        ensures
            is_address_length(id@.len()) && 0 <= object_type <= 1 ==> (result matches Ok(stored)
                && stored@.id == id@ && object_type_code(stored@.object_type) == object_type
                && stored@.contents == contents@),
            !(is_address_length(id@.len()) && 0 <= object_type <= 1) ==> result == Err::<
                StoredObject,
                CodecError,
            >(CodecError::Corrupt),
    {
        let id = match IotaAddress::from_sql(id) {
            Ok(id) => id,
            Err(e) => {
                return Err(e);
            },
        };
        let object_type = match ObjectType::from_sql(object_type) {
            Ok(object_type) => object_type,
            Err(e) => {
                return Err(e);
            },
        };
        Ok(StoredObject { id, object_type, contents })
    }
}

impl Clone for StoredObject {
    fn clone(&self) -> (copy: Self)
        ensures
            copy@ == self@,
    {
        StoredObject {
            id: self.id.clone(),
            object_type: self.object_type,
            contents: self.contents.clone(),
        }
    }
}

/// A row of the `expiration_unlock_conditions` relation, as a mathematical value.
pub struct ExpirationRow {
    pub owner: Seq<u8>,
    pub return_address: Seq<u8>,
    pub unix_time: int,
    pub object_id: Seq<u8>,
}

/// The expiration unlock condition of one object: who owns it before and
/// after the expiration time, given in seconds.
#[derive(Debug, PartialEq, Eq)]
pub struct ExpirationUnlockCondition {
    pub owner: IotaAddress,
    pub return_address: IotaAddress,
    pub unix_time: i64,
    pub object_id: IotaAddress,
}

impl View for ExpirationUnlockCondition {
    type V = ExpirationRow;

    open spec fn view(&self) -> ExpirationRow {
        ExpirationRow {
            owner: self.owner@,
            return_address: self.return_address@,
            unix_time: self.unix_time as int,
            object_id: self.object_id@,
        }
    }
}

impl ExpirationUnlockCondition {
    /// Decodes a row of `expiration_unlock_conditions` from the values of
    /// its columns: refused when one of the three is not an address.
    pub fn from_sql(owner: Vec<u8>, return_address: Vec<u8>, unix_time: i64, object_id: Vec<u8>) -> (result:
        Result<ExpirationUnlockCondition, CodecError>)
        ensures
            is_address_length(owner@.len()) && is_address_length(return_address@.len())
                && is_address_length(object_id@.len()) ==> (result matches Ok(condition)
                && condition@ == (ExpirationRow {
                owner: owner@,
                return_address: return_address@,
                unix_time: unix_time as int,
                object_id: object_id@,
            })),
            !(is_address_length(owner@.len()) && is_address_length(return_address@.len())
                && is_address_length(object_id@.len())) ==> result == Err::<
                ExpirationUnlockCondition,
                CodecError,
            >(CodecError::Corrupt),
    {
        let owner = match IotaAddress::from_sql(owner) {
            Ok(owner) => owner,
            Err(e) => {
                return Err(e);
            },
        };
        let return_address = match IotaAddress::from_sql(return_address) {
            Ok(return_address) => return_address,
            Err(e) => {
                return Err(e);
            },
        };
        let object_id = match IotaAddress::from_sql(object_id) {
            Ok(object_id) => object_id,
            Err(e) => {
                return Err(e);
            },
        };
        Ok(ExpirationUnlockCondition { owner, return_address, unix_time, object_id })
    }
}

impl Clone for ExpirationUnlockCondition {
    fn clone(&self) -> (copy: Self)
        ensures
            copy@ == self@,
    {
        ExpirationUnlockCondition {
            owner: self.owner.clone(),
            return_address: self.return_address.clone(),
            unix_time: self.unix_time,
            object_id: self.object_id.clone(),
        }
    }
}

/// A row of the `last_checkpoint_sync` relation, as a mathematical value.
pub struct ProgressRow {
    pub sequence_number: int,
    pub task_id: Seq<char>,
}

/// The last checkpoint that a task has completed.
#[derive(Debug, PartialEq, Eq)]
pub struct LastCheckpointSync {
    pub sequence_number: i64,
    pub task_id: String,
}

impl View for LastCheckpointSync {
    type V = ProgressRow;

    open spec fn view(&self) -> ProgressRow {
        ProgressRow { sequence_number: self.sequence_number as int, task_id: self.task_id@ }
    }
}

impl Clone for LastCheckpointSync {
    fn clone(&self) -> (copy: Self)
        ensures
            copy@ == self@,
    {
        LastCheckpointSync { sequence_number: self.sequence_number, task_id: self.task_id.clone() }
    }
}

} // verus!
