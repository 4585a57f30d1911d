//! The decoded form of the two indexed outputs, and their decoding from the
//! contents of a stored object.

use vstd::prelude::*;

use crate::models::{ExpirationUnlockCondition, IotaAddress, ObjectType, StoredObject};

verus! {

/// A timelock unlock condition: the output is locked until the given time.
#[derive(Debug, Clone, Copy, PartialEq, Eq, Structural)]
pub struct Timelock {
    pub unix_time: u32,
}

/// An expiration unlock condition, as a mathematical value.
pub struct ExpirationView {
    pub owner: Seq<u8>,
    pub return_address: Seq<u8>,
    pub unix_time: u32,
}

/// An expiration unlock condition as an output carries it.
#[derive(Debug, PartialEq, Eq)]
pub struct Expiration {
    pub owner: IotaAddress,
    pub return_address: IotaAddress,
    pub unix_time: u32,
}

impl View for Expiration {
    type V = ExpirationView;

    open spec fn view(&self) -> ExpirationView {
        ExpirationView {
            owner: self.owner@,
            return_address: self.return_address@,
            unix_time: self.unix_time,
        }
    }
}

/// A storage deposit return unlock condition, as a mathematical value.
pub struct StorageDepositReturnView {
    pub return_address: Seq<u8>,
    pub return_amount: u64,
}

/// A storage deposit return unlock condition.
#[derive(Debug, PartialEq, Eq)]
pub struct StorageDepositReturn {
    pub return_address: IotaAddress,
    pub return_amount: u64,
}

impl View for StorageDepositReturn {
    type V = StorageDepositReturnView;

    open spec fn view(&self) -> StorageDepositReturnView {
        StorageDepositReturnView {
            return_address: self.return_address@,
            return_amount: self.return_amount,
        }
    }
}

/// A bag of native tokens, as a mathematical value.
pub struct BagView {
    pub id: Seq<u8>,
    pub size: u64,
}

/// A bag of native tokens: its id and the number of its entries.
#[derive(Debug, PartialEq, Eq)]
pub struct Bag {
    pub id: IotaAddress,
    pub size: u64,
}

impl View for Bag {
    type V = BagView;

    open spec fn view(&self) -> BagView {
        BagView { id: self.id@, size: self.size }
    }
}

/// A basic output, as a mathematical value.
pub struct BasicOutputView {
    pub id: Seq<u8>,
    pub balance: u64,
    pub native_tokens: BagView,
    pub storage_deposit_return: Option<StorageDepositReturnView>,
    pub timelock: Option<Timelock>,
    pub expiration: Option<ExpirationView>,
    pub metadata: Option<Seq<u8>>,
    pub tag: Option<Seq<u8>>,
    pub sender: Option<Seq<u8>>,
}

/// A basic output.
#[derive(Debug, PartialEq, Eq)]
pub struct BasicOutput {
    pub id: IotaAddress,
    pub balance: u64,
    pub native_tokens: Bag,
    pub storage_deposit_return: Option<StorageDepositReturn>,
    pub timelock: Option<Timelock>,
    pub expiration: Option<Expiration>,
    pub metadata: Option<Vec<u8>>,
    pub tag: Option<Vec<u8>>,
    pub sender: Option<IotaAddress>,
}

/// The bytes of an optional byte vector.
pub open spec fn optional_bytes(bytes: Option<Vec<u8>>) -> Option<Seq<u8>> {
    match bytes {
        Some(bytes) => Some(bytes@),
        None => None,
    }
}

/// The bytes of an optional address.
pub open spec fn optional_address(address: Option<IotaAddress>) -> Option<Seq<u8>> {
    match address {
        Some(address) => Some(address@),
        None => None,
    }
}

/// The value of an optional storage deposit return.
pub open spec fn optional_storage_deposit_return(
    condition: Option<StorageDepositReturn>,
) -> Option<StorageDepositReturnView> {
    match condition {
        Some(condition) => Some(condition@),
        None => None,
    }
}

/// The value of an optional expiration.
pub open spec fn optional_expiration(condition: Option<Expiration>) -> Option<ExpirationView> {
    match condition {
        Some(condition) => Some(condition@),
        None => None,
    }
}

impl View for BasicOutput {
    type V = BasicOutputView;

    open spec fn view(&self) -> BasicOutputView {
        BasicOutputView {
            id: self.id@,
            balance: self.balance,
            native_tokens: self.native_tokens@,
            storage_deposit_return: optional_storage_deposit_return(self.storage_deposit_return),
            timelock: self.timelock,
            expiration: optional_expiration(self.expiration),
            metadata: optional_bytes(self.metadata),
            tag: optional_bytes(self.tag),
            sender: optional_address(self.sender),
        }
    }
}

/// An NFT output, as a mathematical value.
pub struct NftOutputView {
    pub id: Seq<u8>,
    pub balance: u64,
    pub native_tokens: BagView,
    pub storage_deposit_return: Option<StorageDepositReturnView>,
    pub timelock: Option<Timelock>,
    pub expiration: Option<ExpirationView>,
}

/// An NFT output.
#[derive(Debug, PartialEq, Eq)]
pub struct NftOutput {
    pub id: IotaAddress,
    pub balance: u64,
    pub native_tokens: Bag,
    pub storage_deposit_return: Option<StorageDepositReturn>,
    pub timelock: Option<Timelock>,
    pub expiration: Option<Expiration>,
}

impl View for NftOutput {
    type V = NftOutputView;

    open spec fn view(&self) -> NftOutputView {
        NftOutputView {
            id: self.id@,
            balance: self.balance,
            native_tokens: self.native_tokens@,
            storage_deposit_return: optional_storage_deposit_return(self.storage_deposit_return),
            timelock: self.timelock,
            expiration: optional_expiration(self.expiration),
        }
    }
}

/// The fields of an address as they are encoded.
pub type AddressWire = [u8; 32];

/// The fields of a bag as they are encoded: id and size.
pub type BagWire = (AddressWire, u64);

/// The fields of a storage deposit return as they are encoded: return
/// address and return amount.
pub type StorageDepositReturnWire = (AddressWire, u64);

/// The fields of an expiration as they are encoded: owner, return address
/// and time.
pub type ExpirationWire = (AddressWire, AddressWire, u32);

/// The fields of a basic output in the order in which they are encoded.
pub type BasicOutputWire = (
    AddressWire,
    u64,
    BagWire,
    Option<StorageDepositReturnWire>,
    Option<u32>,
    Option<ExpirationWire>,
    Option<Vec<u8>>,
    Option<Vec<u8>>,
    Option<AddressWire>,
);

/// The fields of an NFT output in the order in which they are encoded.
pub type NftOutputWire = (
    AddressWire,
    u64,
    BagWire,
    Option<StorageDepositReturnWire>,
    Option<u32>,
    Option<ExpirationWire>,
);

pub open spec fn storage_deposit_return_wire_view(
    wire: Option<StorageDepositReturnWire>,
) -> Option<StorageDepositReturnView> {
    match wire {
        Some(fields) => Some(
            StorageDepositReturnView { return_address: fields.0@, return_amount: fields.1 },
        ),
        None => None,
    }
}

pub open spec fn timelock_wire_view(wire: Option<u32>) -> Option<Timelock> {
    match wire {
        Some(unix_time) => Some(Timelock { unix_time }),
        None => None,
    }
}

pub open spec fn expiration_wire_view(wire: Option<ExpirationWire>) -> Option<ExpirationView> {
    match wire {
        Some(fields) => Some(
            ExpirationView { owner: fields.0@, return_address: fields.1@, unix_time: fields.2 },
        ),
        None => None,
    }
}

pub open spec fn address_wire_view(wire: Option<AddressWire>) -> Option<Seq<u8>> {
    match wire {
        Some(bytes) => Some(bytes@),
        None => None,
    }
}

/// The basic output that encoded fields stand for.
pub open spec fn basic_wire_view(wire: BasicOutputWire) -> BasicOutputView {
    BasicOutputView {
        id: wire.0@,
        balance: wire.1,
        native_tokens: BagView { id: wire.2.0@, size: wire.2.1 },
        storage_deposit_return: storage_deposit_return_wire_view(wire.3),
        timelock: timelock_wire_view(wire.4),
        expiration: expiration_wire_view(wire.5),
        metadata: optional_bytes(wire.6),
        tag: optional_bytes(wire.7),
        sender: address_wire_view(wire.8),
    }
}

/// The NFT output that encoded fields stand for.
pub open spec fn nft_wire_view(wire: NftOutputWire) -> NftOutputView {
    NftOutputView {
        id: wire.0@,
        balance: wire.1,
        native_tokens: BagView { id: wire.2.0@, size: wire.2.1 },
        storage_deposit_return: storage_deposit_return_wire_view(wire.3),
        timelock: timelock_wire_view(wire.4),
        expiration: expiration_wire_view(wire.5),
    }
}

/// The basic output that `contents` is the canonical encoding of, if it is one.
pub uninterp spec fn bcs_basic_output(contents: Seq<u8>) -> Option<BasicOutputView>;

/// The NFT output that `contents` is the canonical encoding of, if it is one.
pub uninterp spec fn bcs_nft_output(contents: Seq<u8>) -> Option<NftOutputView>;

/// The error of `bcs`, of which nothing is read but that it is one.
#[verifier::external_type_specification]
#[verifier::external_body]
pub struct ExBcsError(bcs::Error);

/// Decodes the fields of a basic output.
///
/// Trusted: `bcs::from_bytes`, which reads the fields in their order from
/// `contents`, fails on malformed or trailing bytes, and for the same bytes
/// always gives the same outcome.
#[verifier::external_body]
fn basic_output_from_bytes(contents: &[u8]) -> (decoded: Result<BasicOutputWire, bcs::Error>)
    ensures
        match decoded {
            Ok(wire) => bcs_basic_output(contents@) == Some(basic_wire_view(wire)),
            Err(_) => bcs_basic_output(contents@) is None,
        },
{
    bcs::from_bytes::<BasicOutputWire>(contents)
}

/// Decodes the fields of an NFT output.
///
/// Trusted: `bcs::from_bytes`, which reads the fields in their order from
/// `contents`, fails on malformed or trailing bytes, and for the same bytes
/// always gives the same outcome.
#[verifier::external_body]
fn nft_output_from_bytes(contents: &[u8]) -> (decoded: Result<NftOutputWire, bcs::Error>)
    ensures
        match decoded {
            Ok(wire) => bcs_nft_output(contents@) == Some(nft_wire_view(wire)),
            Err(_) => bcs_nft_output(contents@) is None,
        },
{
    bcs::from_bytes::<NftOutputWire>(contents)
}

/// Why the contents of a stored object give no output.
#[derive(Debug, Clone, Copy, PartialEq, Eq, Structural)]
pub enum OutputError {
    /// The stored object is not a basic output.
    NotBasicOutput,
    /// The stored object is not an NFT output.
    NotNftOutput,
    /// The contents are not the encoding of an output of the stored variant.
    Malformed,
}

fn storage_deposit_return_from_wire(wire: Option<StorageDepositReturnWire>) -> (condition: Option<
    StorageDepositReturn,
>)
    ensures
        optional_storage_deposit_return(condition) == storage_deposit_return_wire_view(wire),
{
    match wire {
        Some(fields) => Some(
            StorageDepositReturn {
                return_address: IotaAddress::from_array(fields.0),
                return_amount: fields.1,
            },
        ),
        None => None,
    }
}

fn timelock_from_wire(wire: Option<u32>) -> (timelock: Option<Timelock>)
    ensures
        timelock == timelock_wire_view(wire),
{
    match wire {
        Some(unix_time) => Some(Timelock { unix_time }),
        None => None,
    }
}

fn expiration_from_wire(wire: Option<ExpirationWire>) -> (condition: Option<Expiration>)
    ensures
        optional_expiration(condition) == expiration_wire_view(wire),
{
    match wire {
        Some(fields) => Some(
            Expiration {
                owner: IotaAddress::from_array(fields.0),
                return_address: IotaAddress::from_array(fields.1),
                unix_time: fields.2,
            },
        ),
        None => None,
    }
}

fn address_from_wire(wire: Option<AddressWire>) -> (address: Option<IotaAddress>)
    ensures
        optional_address(address) == address_wire_view(wire),
{
    match wire {
        Some(bytes) => Some(IotaAddress::from_array(bytes)),
        None => None,
    }
}

/// The basic output that the contents of a stored object decode to.
pub open spec fn decoded_basic_output(stored: crate::models::ObjectRow) -> Result<
    BasicOutputView,
    OutputError,
> {
    if stored.object_type != ObjectType::Basic {
        Err(OutputError::NotBasicOutput)
    } else {
        match bcs_basic_output(stored.contents) {
            Some(output) => Ok(output),
            None => Err(OutputError::Malformed),
        }
    }
}

/// The NFT output that the contents of a stored object decode to.
pub open spec fn decoded_nft_output(stored: crate::models::ObjectRow) -> Result<
    NftOutputView,
    OutputError,
> {
    if stored.object_type != ObjectType::Nft {
        Err(OutputError::NotNftOutput)
    } else {
        match bcs_nft_output(stored.contents) {
            Some(output) => Ok(output),
            None => Err(OutputError::Malformed),
        }
    }
}

impl BasicOutput {
    /// The basic output with the given encoded fields.
    pub fn from_wire(wire: BasicOutputWire) -> (output: BasicOutput)
        ensures
            output@ == basic_wire_view(wire),
    {
        BasicOutput {
            id: IotaAddress::from_array(wire.0),
            balance: wire.1,
            native_tokens: Bag { id: IotaAddress::from_array(wire.2.0), size: wire.2.1 },
            storage_deposit_return: storage_deposit_return_from_wire(wire.3),
            timelock: timelock_from_wire(wire.4),
            expiration: expiration_from_wire(wire.5),
            metadata: wire.6,
            tag: wire.7,
            sender: address_from_wire(wire.8),
        }
    }

    /// Decodes the basic output that a stored object holds.
    pub fn try_from_stored(stored: &StoredObject) -> (result: Result<BasicOutput, OutputError>)
        ensures
            match result {
                Ok(output) => decoded_basic_output(stored@) == Ok::<BasicOutputView, OutputError>(
                    output@,
                ),
                Err(e) => decoded_basic_output(stored@) == Err::<BasicOutputView, OutputError>(e),
            },
    {
        match stored.object_type {
            ObjectType::Basic => {},
            ObjectType::Nft => {
                return Err(OutputError::NotBasicOutput);
            },
        }
        match basic_output_from_bytes(stored.contents.as_slice()) {
            Ok(wire) => Ok(BasicOutput::from_wire(wire)),
            Err(_) => Err(OutputError::Malformed),
        }
    }
}

impl NftOutput {
    /// The NFT output with the given encoded fields.
    pub fn from_wire(wire: NftOutputWire) -> (output: NftOutput)
        ensures
            output@ == nft_wire_view(wire),
    {
        NftOutput {
            id: IotaAddress::from_array(wire.0),
            balance: wire.1,
            native_tokens: Bag { id: IotaAddress::from_array(wire.2.0), size: wire.2.1 },
            storage_deposit_return: storage_deposit_return_from_wire(wire.3),
            timelock: timelock_from_wire(wire.4),
            expiration: expiration_from_wire(wire.5),
        }
    }

    /// Decodes the NFT output that a stored object holds.
    pub fn try_from_stored(stored: &StoredObject) -> (result: Result<NftOutput, OutputError>)
        ensures
            match result {
                Ok(output) => decoded_nft_output(stored@) == Ok::<NftOutputView, OutputError>(
                    output@,
                ),
                Err(e) => decoded_nft_output(stored@) == Err::<NftOutputView, OutputError>(e),
            },
    {
        match stored.object_type {
            ObjectType::Nft => {},
            ObjectType::Basic => {
                return Err(OutputError::NotNftOutput);
            },
        }
        match nft_output_from_bytes(stored.contents.as_slice()) {
            Ok(wire) => Ok(NftOutput::from_wire(wire)),
            Err(_) => Err(OutputError::Malformed),
        }
    }
}

/// The expiration row of the output with the given id, if the output
/// carries an expiration.
pub open spec fn expiration_row_of(id: Seq<u8>, expiration: Option<ExpirationView>) -> Option<
    crate::models::ExpirationRow,
> {
    match expiration {
        Some(condition) => Some(
            crate::models::ExpirationRow {
                owner: condition.owner,
                return_address: condition.return_address,
                unix_time: condition.unix_time as int,
                object_id: id,
            },
        ),
        None => None,
    }
}

/// The expiration row that a stored object gives rise to: none when its
/// output carries no expiration, an error when its contents do not decode.
pub open spec fn stored_expiration_row(stored: crate::models::ObjectRow) -> Result<
    Option<crate::models::ExpirationRow>,
    OutputError,
> {
    match stored.object_type {
        ObjectType::Basic => match decoded_basic_output(stored) {
            Ok(output) => Ok(expiration_row_of(output.id, output.expiration)),
            Err(e) => Err(e),
        },
        ObjectType::Nft => match decoded_nft_output(stored) {
            Ok(output) => Ok(expiration_row_of(output.id, output.expiration)),
            Err(e) => Err(e),
        },
    }
}

/// The row of an optional condition.
pub open spec fn optional_row(condition: Option<ExpirationUnlockCondition>) -> Option<
    crate::models::ExpirationRow,
> {
    match condition {
        Some(condition) => Some(condition@),
        None => None,
    }
}

fn expiration_row(id: &IotaAddress, expiration: &Option<Expiration>) -> (row: Option<
    ExpirationUnlockCondition,
>)
    ensures
        optional_row(row) == expiration_row_of(id@, optional_expiration(*expiration)),
{
    match expiration {
        Some(condition) => Some(
            ExpirationUnlockCondition {
                owner: condition.owner.clone(),
                return_address: condition.return_address.clone(),
                unix_time: condition.unix_time as i64,
                object_id: id.clone(),
            },
        ),
        None => None,
    }
}

impl ExpirationUnlockCondition {
    /// The expiration that the row stands for, as an output carries it.
    /// Refused when the stored time is negative or beyond what an output
    /// can carry.
    pub fn to_expiration(&self) -> (result: Result<Expiration, crate::models::CodecError>)
        ensures
            0 <= self.unix_time <= u32::MAX ==> (result matches Ok(expiration) && expiration@ == (
                ExpirationView {
                    owner: self.owner@,
                    return_address: self.return_address@,
                    unix_time: self.unix_time as u32,
                }
            )),
            !(0 <= self.unix_time <= u32::MAX) ==> result == Err::<
                Expiration,
                crate::models::CodecError,
            >(crate::models::CodecError::Corrupt),
    {
        if 0 <= self.unix_time && self.unix_time <= u32::MAX as i64 {
            Ok(
                Expiration {
                    owner: self.owner.clone(),
                    return_address: self.return_address.clone(),
                    unix_time: self.unix_time as u32,
                },
            )
        } else {
            Err(crate::models::CodecError::Corrupt)
        }
    }

    /// The expiration row of a basic output, if it carries an expiration.
    pub fn try_from_basic(basic: &BasicOutput) -> (row: Option<ExpirationUnlockCondition>)
        ensures
            optional_row(row) == expiration_row_of(basic@.id, basic@.expiration),
    {
        expiration_row(&basic.id, &basic.expiration)
    }

    /// The expiration row of an NFT output, if it carries an expiration.
    pub fn try_from_nft(nft: &NftOutput) -> (row: Option<ExpirationUnlockCondition>)
        ensures
            optional_row(row) == expiration_row_of(nft@.id, nft@.expiration),
    {
        expiration_row(&nft.id, &nft.expiration)
    }

    /// The expiration row that a stored object gives rise to.
    pub fn try_from_stored(stored: &StoredObject) -> (result: Result<
        Option<ExpirationUnlockCondition>,
        OutputError,
    >)
        ensures
            match result {
                Ok(row) => stored_expiration_row(stored@) == Ok::<
                    Option<crate::models::ExpirationRow>,
                    OutputError,
                >(optional_row(row)),
                Err(e) => stored_expiration_row(stored@) == Err::<
                    Option<crate::models::ExpirationRow>,
                    OutputError,
                >(e),
            },
    {
        match stored.object_type {
            ObjectType::Basic => match BasicOutput::try_from_stored(stored) {
                Ok(basic) => Ok(Self::try_from_basic(&basic)),
                Err(e) => Err(e),
            },
            ObjectType::Nft => match NftOutput::try_from_stored(stored) {
                Ok(nft) => Ok(Self::try_from_nft(&nft)),
                Err(e) => Err(e),
            },
        }
    }
}

} // verus!
