//! The health of the service: how many objects are indexed.

use vstd::prelude::*;

use crate::models::ObjectType;
use crate::store::ObjectsDatabase;

verus! {

/// A count as the signed number that is served: the count itself, or the
/// largest signed number where it does not fit.
pub open spec fn served_count(count: nat) -> i64 {
    if count <= i64::MAX as nat {
        count as i64
    } else {
        i64::MAX
    }
}

/// The body of the health response.
#[derive(Debug, Clone, Copy, PartialEq, Eq, Structural)]
pub struct HealthResponse {
    pub objects_count: i64,
    pub basic_objects_count: i64,
    pub nft_objects_count: i64,
}

fn to_served_count(count: usize) -> (served: i64)
    ensures
        served == served_count(count as nat),
{
    if count as u64 <= i64::MAX as u64 {
        count as i64
    } else {
        i64::MAX
    }
}

/// The number of indexed objects, in all and of each variant.
pub fn health(database: &ObjectsDatabase) -> (response: HealthResponse)
    ensures
        response.objects_count == served_count(database@.objects.len()),
        response.basic_objects_count == served_count(database@.count_of(ObjectType::Basic)),
        response.nft_objects_count == served_count(database@.count_of(ObjectType::Nft)),
{
    HealthResponse {
        objects_count: to_served_count(database.count_objects()),
        basic_objects_count: to_served_count(database.count_objects_of(ObjectType::Basic)),
        nft_objects_count: to_served_count(database.count_objects_of(ObjectType::Nft)),
    }
}

} // verus!
