//! The bodies of successful responses: each output as a flat record with
//! its addresses in hexadecimal notation.

use vstd::prelude::*;

use crate::models::IotaAddress;
use crate::output::{
    optional_bytes, BagView, BasicOutputView, ExpirationView, NftOutputView,
    StorageDepositReturnView,
};
use crate::text::address_text;

verus! {

#[derive(Debug, Clone, Copy, PartialEq, Eq, Structural)]
pub struct Balance {
    pub value: u64,
}

#[derive(Debug, PartialEq, Eq)]
pub struct Bag {
    pub id: String,
    pub size: u64,
}

#[derive(Debug, PartialEq, Eq)]
pub struct StorageDepositReturn {
    pub return_address: String,
    pub return_amount: u64,
}

#[derive(Debug, Clone, Copy, PartialEq, Eq, Structural)]
pub struct Timelock {
    pub unix_time: u64,
}

#[derive(Debug, PartialEq, Eq)]
pub struct Expiration {
    pub owner: String,
    pub return_address: String,
    pub unix_time: u64,
}

/// A basic output as it is served.
#[derive(Debug, PartialEq, Eq)]
pub struct BasicOutput {
    pub id: String,
    pub balance: Balance,
    pub native_tokens: Bag,
    pub storage_deposit_return: Option<StorageDepositReturn>,
    pub timelock: Option<Timelock>,
    pub expiration: Option<Expiration>,
    pub metadata: Option<Vec<u8>>,
    pub tag: Option<Vec<u8>>,
    pub sender: Option<String>,
}

/// An NFT output as it is served.
#[derive(Debug, PartialEq, Eq)]
pub struct NftOutput {
    pub id: String,
    pub balance: Balance,
    pub native_tokens: Bag,
    pub storage_deposit_return: Option<StorageDepositReturn>,
    pub timelock: Option<Timelock>,
    pub expiration: Option<Expiration>,
}

/// The basic outputs that a query is answered with.
#[derive(Debug, PartialEq, Eq)]
pub struct BasicOutputVec(pub Vec<BasicOutput>);

/// The NFT outputs that a query is answered with.
#[derive(Debug, PartialEq, Eq)]
pub struct NftOutputVec(pub Vec<NftOutput>);

/// Whether `served` shows the bag `bag`.
pub open spec fn shows_bag(served: Bag, bag: BagView) -> bool {
    served.id@ == address_text(bag.id) && served.size == bag.size
}

/// Whether `served` shows the optional storage deposit return `condition`.
pub open spec fn shows_storage_deposit_return(
    served: Option<StorageDepositReturn>,
    condition: Option<StorageDepositReturnView>,
) -> bool {
    match (served, condition) {
        (Some(served), Some(condition)) => served.return_address@ == address_text(
            condition.return_address,
        ) && served.return_amount == condition.return_amount,
        (None, None) => true,
        _ => false,
    }
}

/// Whether `served` shows the optional timelock `timelock`.
pub open spec fn shows_timelock(served: Option<Timelock>, timelock: Option<crate::output::Timelock>)
    -> bool {
    match (served, timelock) {
        (Some(served), Some(timelock)) => served.unix_time == timelock.unix_time,
        (None, None) => true,
        _ => false,
    }
}

/// Whether `served` shows the optional expiration `condition`.
pub open spec fn shows_expiration(served: Option<Expiration>, condition: Option<ExpirationView>)
    -> bool {
    match (served, condition) {
        (Some(served), Some(condition)) => {
            &&& served.owner@ == address_text(condition.owner)
            &&& served.return_address@ == address_text(condition.return_address)
            &&& served.unix_time == condition.unix_time
        },
        (None, None) => true,
        _ => false,
    }
}

/// Whether `served` shows the optional address `address`.
pub open spec fn shows_address(served: Option<String>, address: Option<Seq<u8>>) -> bool {
    match (served, address) {
        (Some(served), Some(address)) => served@ == address_text(address),
        (None, None) => true,
        _ => false,
    }
}

/// Whether `served` is the flat record of the basic output `output`.
pub open spec fn shows_basic_output(served: BasicOutput, output: BasicOutputView) -> bool {
    &&& served.id@ == address_text(output.id)
    &&& served.balance.value == output.balance
    &&& shows_bag(served.native_tokens, output.native_tokens)
    &&& shows_storage_deposit_return(served.storage_deposit_return, output.storage_deposit_return)
    &&& shows_timelock(served.timelock, output.timelock)
    &&& shows_expiration(served.expiration, output.expiration)
    &&& optional_bytes(served.metadata) == output.metadata
    &&& optional_bytes(served.tag) == output.tag
    &&& shows_address(served.sender, output.sender)
}

/// Whether `served` is the flat record of the NFT output `output`.
pub open spec fn shows_nft_output(served: NftOutput, output: NftOutputView) -> bool {
    &&& served.id@ == address_text(output.id)
    &&& served.balance.value == output.balance
    &&& shows_bag(served.native_tokens, output.native_tokens)
    &&& shows_storage_deposit_return(served.storage_deposit_return, output.storage_deposit_return)
    &&& shows_timelock(served.timelock, output.timelock)
    &&& shows_expiration(served.expiration, output.expiration)
}

fn flat_bag(bag: &crate::output::Bag) -> (served: Bag)
    ensures
        shows_bag(served, bag@),
{
    Bag { id: bag.id.to_hex(), size: bag.size }
}

fn flat_storage_deposit_return(condition: &Option<crate::output::StorageDepositReturn>) -> (served:
    Option<StorageDepositReturn>)
    ensures
        shows_storage_deposit_return(
            served,
            crate::output::optional_storage_deposit_return(*condition),
        ),
{
    match condition {
        Some(condition) => Some(
            StorageDepositReturn {
                return_address: condition.return_address.to_hex(),
                return_amount: condition.return_amount,
            },
        ),
        None => None,
    }
}

fn flat_timelock(timelock: &Option<crate::output::Timelock>) -> (served: Option<Timelock>)
    ensures
        shows_timelock(served, *timelock),
{
    match timelock {
        Some(timelock) => Some(Timelock { unix_time: timelock.unix_time as u64 }),
        None => None,
    }
}

fn flat_expiration(condition: &Option<crate::output::Expiration>) -> (served: Option<Expiration>)
    ensures
        shows_expiration(served, crate::output::optional_expiration(*condition)),
{
    match condition {
        Some(condition) => Some(
            Expiration {
                owner: condition.owner.to_hex(),
                return_address: condition.return_address.to_hex(),
                unix_time: condition.unix_time as u64,
            },
        ),
        None => None,
    }
}

fn flat_address(address: &Option<IotaAddress>) -> (served: Option<String>)
    ensures
        shows_address(served, crate::output::optional_address(*address)),
{
    match address {
        Some(address) => Some(address.to_hex()),
        None => None,
    }
}

impl BasicOutput {
    /// The flat record of a basic output.
    pub fn from_output(output: crate::output::BasicOutput) -> (served: BasicOutput)
        ensures
            shows_basic_output(served, output@),
    {
        BasicOutput {
            id: output.id.to_hex(),
            balance: Balance { value: output.balance },
            native_tokens: flat_bag(&output.native_tokens),
            storage_deposit_return: flat_storage_deposit_return(&output.storage_deposit_return),
            timelock: flat_timelock(&output.timelock),
            expiration: flat_expiration(&output.expiration),
            sender: flat_address(&output.sender),
            metadata: output.metadata,
            tag: output.tag,
        }
    }
}

impl NftOutput {
    /// The flat record of an NFT output.
    pub fn from_output(output: crate::output::NftOutput) -> (served: NftOutput)
        ensures
            shows_nft_output(served, output@),
    {
        NftOutput {
            id: output.id.to_hex(),
            balance: Balance { value: output.balance },
            native_tokens: flat_bag(&output.native_tokens),
            storage_deposit_return: flat_storage_deposit_return(&output.storage_deposit_return),
            timelock: flat_timelock(&output.timelock),
            expiration: flat_expiration(&output.expiration),
        }
    }
}

} // verus!
