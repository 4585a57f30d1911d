//! The two queries for basic outputs.

use vstd::prelude::*;

use crate::models::{IotaAddress, ObjectRow, ObjectType, StoredObject};
use crate::output::decoded_basic_output;
use crate::rest::error::{ApiError, ApiErrorView};
use crate::rest::routes::v1::responses::{shows_basic_output, BasicOutput, BasicOutputVec};
use crate::rest::routes::v1::{fetch_stored_objects, ownership_of, query_page, PaginationParams};
use crate::store::{object_rows, ObjectsDatabase};

verus! {

/// Whether `served` holds, in their order, the flat records of the basic
/// outputs that the rows decode to.
pub open spec fn shows_basic_outputs(served: Seq<BasicOutput>, rows: Seq<ObjectRow>) -> bool {
    &&& served.len() == rows.len()
    &&& forall|i: int|
        0 <= i < rows.len() ==> decoded_basic_output(#[trigger] rows[i]) is Ok
            && shows_basic_output(served[i], decoded_basic_output(rows[i])->Ok_0)
}

/// Whether every row decodes to a basic output.
pub open spec fn all_basic_outputs(rows: Seq<ObjectRow>) -> bool {
    forall|i: int| 0 <= i < rows.len() ==> decoded_basic_output(#[trigger] rows[i]) is Ok
}

/// The flat records of stored basic outputs; an internal error when the
/// contents of one of them do not decode.
pub fn stored_objects_to_basic_outputs(stored_objects: Vec<StoredObject>) -> (result: Result<
    Vec<BasicOutput>,
    ApiError,
>)
    ensures
        match result {
            Ok(served) => shows_basic_outputs(served@, object_rows(stored_objects@)),
            Err(e) => e@ == ApiErrorView::InternalServerError && !all_basic_outputs(
                object_rows(stored_objects@),
            ),
        },
{
    let ghost rows = object_rows(stored_objects@);
    let mut served: Vec<BasicOutput> = Vec::new();
    let mut i: usize = 0;
    while i < stored_objects.len()
        invariant
            i <= stored_objects.len(),
            rows == object_rows(stored_objects@),
            served@.len() == i,
            forall|j: int|
                0 <= j < i ==> decoded_basic_output(#[trigger] rows[j]) is Ok
                    && shows_basic_output(served@[j], decoded_basic_output(rows[j])->Ok_0),
        decreases stored_objects.len() - i,
    {
        match crate::output::BasicOutput::try_from_stored(&stored_objects[i]) {
            Ok(output) => {
                served.push(BasicOutput::from_output(output));
            },
            Err(_) => {
                assert(decoded_basic_output(rows[i as int]) is Err);
                return Err(ApiError::InternalServerError);
            },
        }
        i += 1;
    }
    Ok(served)
}

/// What a query for basic outputs is answered with: the page of the
/// outputs that the address owns, or the error that refuses the query.
pub open spec fn answers_basic_query(
    result: Result<BasicOutputVec, ApiError>,
    rows: Seq<ObjectRow>,
) -> bool {
    match result {
        Ok(served) => shows_basic_outputs(served.0@, rows),
        Err(e) => e@ == ApiErrorView::InternalServerError && !all_basic_outputs(rows),
    }
}

/// The basic outputs that name the address as the owner or as the return
/// address of their expiration, one page of them.
pub fn basic(address: &IotaAddress, pagination: PaginationParams, database: &ObjectsDatabase) -> (result:
    Result<BasicOutputVec, ApiError>)
    ensures
        !pagination.valid() ==> (result matches Err(e) && e@ is BadRequest),
        pagination.valid() ==> answers_basic_query(
            result,
            query_page(
                database@,
                address@,
                pagination,
                ObjectType::Basic,
                ownership_of(false, None),
            ),
        ),
{
    let stored_objects = match fetch_stored_objects(
        address,
        pagination,
        database,
        None,
        ObjectType::Basic,
        false,
    ) {
        Ok(stored_objects) => stored_objects,
        Err(e) => {
            return Err(e);
        },
    };
    match stored_objects_to_basic_outputs(stored_objects) {
        Ok(served) => Ok(BasicOutputVec(served)),
        Err(e) => Err(e),
    }
}

/// The basic outputs that the address owns at the time of the latest
/// checkpoint, one page of them: as the owner while the expiration time
/// lies ahead, as the return address once it is reached.
pub fn resolved(
    address: &IotaAddress,
    pagination: PaginationParams,
    database: &ObjectsDatabase,
    latest_checkpoint_timestamp_ms: Option<u64>,
) -> (result: Result<BasicOutputVec, ApiError>)
    ensures
        !pagination.valid() ==> (result matches Err(e) && e@ is BadRequest),
        pagination.valid() && latest_checkpoint_timestamp_ms is None ==> (result matches Err(e)
            && e@ == ApiErrorView::ServiceUnavailable("latest checkpoint not synced yet"@)),
        pagination.valid() && latest_checkpoint_timestamp_ms is Some ==> answers_basic_query(
            result,
            query_page(
                database@,
                address@,
                pagination,
                ObjectType::Basic,
                ownership_of(true, latest_checkpoint_timestamp_ms),
            ),
        ),
{
    let stored_objects = match fetch_stored_objects(
        address,
        pagination,
        database,
        latest_checkpoint_timestamp_ms,
        ObjectType::Basic,
        true,
    ) {
        Ok(stored_objects) => stored_objects,
        Err(e) => {
            return Err(e);
        },
    };
    match stored_objects_to_basic_outputs(stored_objects) {
        Ok(served) => Ok(BasicOutputVec(served)),
        Err(e) => Err(e),
    }
}

} // verus!
