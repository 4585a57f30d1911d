//! The two queries for NFT outputs.

use vstd::prelude::*;

use crate::models::{IotaAddress, ObjectRow, ObjectType, StoredObject};
use crate::output::decoded_nft_output;
use crate::rest::error::{ApiError, ApiErrorView};
use crate::rest::routes::v1::responses::{shows_nft_output, NftOutput, NftOutputVec};
use crate::rest::routes::v1::{fetch_stored_objects, ownership_of, query_page, PaginationParams};
use crate::store::{object_rows, ObjectsDatabase};

verus! {

/// Whether `served` holds, in their order, the flat records of the NFT
/// outputs that the rows decode to.
pub open spec fn shows_nft_outputs(served: Seq<NftOutput>, rows: Seq<ObjectRow>) -> bool {
    &&& served.len() == rows.len()
    &&& forall|i: int|
        0 <= i < rows.len() ==> decoded_nft_output(#[trigger] rows[i]) is Ok
            && shows_nft_output(served[i], decoded_nft_output(rows[i])->Ok_0)
}

/// Whether every row decodes to a NFT output.
pub open spec fn all_nft_outputs(rows: Seq<ObjectRow>) -> bool {
    forall|i: int| 0 <= i < rows.len() ==> decoded_nft_output(#[trigger] rows[i]) is Ok
}

/// The flat records of stored NFT outputs; an internal error when the
/// contents of one of them do not decode.
pub fn stored_objects_to_nft_outputs(stored_objects: Vec<StoredObject>) -> (result: Result<
    Vec<NftOutput>,
    ApiError,
>)
    ensures
        match result {
            Ok(served) => shows_nft_outputs(served@, object_rows(stored_objects@)),
            Err(e) => e@ == ApiErrorView::InternalServerError && !all_nft_outputs(
                object_rows(stored_objects@),
            ),
        },
{
    let ghost rows = object_rows(stored_objects@);
    let mut served: Vec<NftOutput> = Vec::new();
    let mut i: usize = 0;
    while i < stored_objects.len()
        invariant
            i <= stored_objects.len(),
            rows == object_rows(stored_objects@),
            served@.len() == i,
            forall|j: int|
                0 <= j < i ==> decoded_nft_output(#[trigger] rows[j]) is Ok
                    && shows_nft_output(served@[j], decoded_nft_output(rows[j])->Ok_0),
        decreases stored_objects.len() - i,
    {
        match crate::output::NftOutput::try_from_stored(&stored_objects[i]) {
            Ok(output) => {
                served.push(NftOutput::from_output(output));
            },
            Err(_) => {
                assert(decoded_nft_output(rows[i as int]) is Err);
                return Err(ApiError::InternalServerError);
            },
        }
        i += 1;
    }
    Ok(served)
}

/// What a query for NFT outputs is answered with: the page of the
/// outputs that the address owns, or the error that refuses the query.
pub open spec fn answers_nft_query(
    result: Result<NftOutputVec, ApiError>,
    rows: Seq<ObjectRow>,
) -> bool {
    match result {
        Ok(served) => shows_nft_outputs(served.0@, rows),
        Err(e) => e@ == ApiErrorView::InternalServerError && !all_nft_outputs(rows),
    }
}

/// The NFT outputs that name the address as the owner or as the return
/// address of their expiration, one page of them.
pub fn nft(address: &IotaAddress, pagination: PaginationParams, database: &ObjectsDatabase) -> (result:
    Result<NftOutputVec, ApiError>)
    ensures
        !pagination.valid() ==> (result matches Err(e) && e@ is BadRequest),
        pagination.valid() ==> answers_nft_query(
            result,
            query_page(
                database@,
                address@,
                pagination,
                ObjectType::Nft,
                ownership_of(false, None),
            ),
        ),
{
    let stored_objects = match fetch_stored_objects(
        address,
        pagination,
        database,
        None,
        ObjectType::Nft,
        false,
    ) {
        Ok(stored_objects) => stored_objects,
        Err(e) => {
            return Err(e);
        },
    };
    match stored_objects_to_nft_outputs(stored_objects) {
        Ok(served) => Ok(NftOutputVec(served)),
        Err(e) => Err(e),
    }
}

/// The NFT outputs that the address owns at the time of the latest
/// checkpoint, one page of them: as the owner while the expiration time
/// lies ahead, as the return address once it is reached.
pub fn resolved(
    address: &IotaAddress,
    pagination: PaginationParams,
    database: &ObjectsDatabase,
    latest_checkpoint_timestamp_ms: Option<u64>,
) -> (result: Result<NftOutputVec, ApiError>)
    ensures
        !pagination.valid() ==> (result matches Err(e) && e@ is BadRequest),
        pagination.valid() && latest_checkpoint_timestamp_ms is None ==> (result matches Err(e)
            && e@ == ApiErrorView::ServiceUnavailable("latest checkpoint not synced yet"@)),
        pagination.valid() && latest_checkpoint_timestamp_ms is Some ==> answers_nft_query(
            result,
            query_page(
                database@,
                address@,
                pagination,
                ObjectType::Nft,
                ownership_of(true, latest_checkpoint_timestamp_ms),
            ),
        ),
{
    let stored_objects = match fetch_stored_objects(
        address,
        pagination,
        database,
        latest_checkpoint_timestamp_ms,
        ObjectType::Nft,
        true,
    ) {
        Ok(stored_objects) => stored_objects,
        Err(e) => {
            return Err(e);
        },
    };
    match stored_objects_to_nft_outputs(stored_objects) {
        Ok(served) => Ok(NftOutputVec(served)),
        Err(e) => Err(e),
    }
}

} // verus!
