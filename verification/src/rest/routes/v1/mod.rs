//! Ownership queries by address: all objects that name the address in their
//! expiration condition, or those that it owns once the expiration is
//! resolved against the latest checkpoint time.

use vstd::prelude::*;

use crate::models::{IotaAddress, ObjectType, StoredObject};
use crate::rest::error::{ApiError, ApiErrorView};
use crate::store::{object_rows, page_of, ObjectsDatabase, Ownership, Tables};

pub mod basic;
pub mod nft;
pub mod responses;

verus! {

/// The page that is served when the request names none.
pub const DEFAULT_PAGE: u32 = 1;

/// The page size that is used when the request names none.
pub const DEFAULT_PAGE_SIZE: u32 = 10;

/// The pagination parameters of a request, each optional.
#[derive(Debug, Clone, Copy, PartialEq, Eq, Structural)]
pub struct PaginationParams {
    pub page: Option<u32>,
    pub page_size: Option<u32>,
}

impl PaginationParams {
    /// The page asked for, 1 when none is named.
    pub open spec fn spec_page(self) -> nat {
        match self.page {
            Some(page) => page as nat,
            None => DEFAULT_PAGE as nat,
        }
    }

    /// The page size asked for, 10 when none is named.
    pub open spec fn spec_page_size(self) -> nat {
        match self.page_size {
            Some(page_size) => page_size as nat,
            None => DEFAULT_PAGE_SIZE as nat,
        }
    }

    /// Pages are counted from 1 and hold at least one item.
    pub open spec fn valid(self) -> bool {
        self.spec_page() >= 1 && self.spec_page_size() >= 1
    }

    /// The number of items that come before the page.
    pub open spec fn spec_offset(self) -> nat
        recommends
            self.valid(),
    {
        ((self.spec_page() - 1) * self.spec_page_size()) as nat
    }

    /// The page asked for, 1 when none is named.
    pub fn page(&self) -> (page: u32)
        ensures
            page == self.spec_page(),
    {
        match self.page {
            Some(page) => page,
            None => DEFAULT_PAGE,
        }
    }

    /// The page size asked for, 10 when none is named.
    pub fn page_size(&self) -> (page_size: u32)
        ensures
            page_size == self.spec_page_size(),
    {
        match self.page_size {
            Some(page_size) => page_size,
            None => DEFAULT_PAGE_SIZE,
        }
    }

    /// The number of items that come before the page, or why the parameters
    /// are refused.
    pub fn offset(&self) -> (result: Result<u64, ApiError>)
        ensures
            self.valid() ==> result == Ok::<u64, ApiError>(self.spec_offset() as u64),
            self.valid() ==> self.spec_offset() <= u64::MAX,
            self.spec_page() == 0 ==> (result matches Err(e) && e@ == ApiErrorView::BadRequest(
                "page must be at least 1"@,
            )),
            self.spec_page() >= 1 && self.spec_page_size() == 0 ==> (result matches Err(e) && e@
                == ApiErrorView::BadRequest("page_size must be at least 1"@)),
    {
        let page = self.page();
        let page_size = self.page_size();
        if page == 0 {
            return Err(ApiError::BadRequest(String::from_str("page must be at least 1")));
        }
        if page_size == 0 {
            return Err(ApiError::BadRequest(String::from_str("page_size must be at least 1")));
        }
        let before: u64 = (page - 1) as u64;
        let size: u64 = page_size as u64;
        assert(before * size <= u64::MAX) by (nonlinear_arith)
            requires
                before <= u32::MAX,
                size <= u32::MAX,
        ;
        Ok(before * size)
    }
}

/// The result that a query is answered with when nothing is refused: the
/// page of the objects that `address` owns.
pub open spec fn query_page(
    tables: Tables,
    address: Seq<u8>,
    pagination: PaginationParams,
    object_type: ObjectType,
    ownership: Ownership,
) -> Seq<crate::models::ObjectRow> {
    page_of(
        tables.owned_by(object_type, address, ownership),
        pagination.spec_offset(),
        pagination.spec_page_size(),
    )
}

/// How ownership is decided for a query: by either role of the address, or
/// resolved against the latest checkpoint time when `resolve_expiration_uc`.
pub open spec fn ownership_of(resolve_expiration_uc: bool, latest_checkpoint_timestamp_ms: Option<u64>)
    -> Ownership {
    if resolve_expiration_uc && latest_checkpoint_timestamp_ms is Some {
        Ownership::ResolvedAt(latest_checkpoint_timestamp_ms->0)
    } else {
        Ownership::Either
    }
}

/// The objects of one variant that `address` owns, one page of them.
///
/// Refused with a bad request when the page or the page size is 0, and as
/// unavailable when the expiration is to be resolved and no checkpoint has
/// been seen yet.
pub fn fetch_stored_objects(
    address: &IotaAddress,
    pagination: PaginationParams,
    database: &ObjectsDatabase,
    latest_checkpoint_timestamp_ms: Option<u64>,
    object_type_filter: ObjectType,
    resolve_expiration_uc: bool,
) -> (result: Result<Vec<StoredObject>, ApiError>)
    ensures
        !pagination.valid() ==> (result matches Err(e) && e@ is BadRequest),
        pagination.valid() && resolve_expiration_uc && latest_checkpoint_timestamp_ms is None
            ==> (result matches Err(e) && e@ == ApiErrorView::ServiceUnavailable(
            "latest checkpoint not synced yet"@,
        )),
        pagination.valid() && !(resolve_expiration_uc && latest_checkpoint_timestamp_ms is None)
            ==> (result matches Ok(objects) && object_rows(objects@) == query_page(
            database@,
            address@,
            pagination,
            object_type_filter,
            ownership_of(resolve_expiration_uc, latest_checkpoint_timestamp_ms),
        )),
{
    let offset = match pagination.offset() {
        Ok(offset) => offset,
        Err(e) => {
            return Err(e);
        },
    };
    let ownership = if resolve_expiration_uc {
        match latest_checkpoint_timestamp_ms {
            Some(now_ms) => Ownership::ResolvedAt(now_ms),
            None => {
                return Err(
                    ApiError::ServiceUnavailable(
                        String::from_str("latest checkpoint not synced yet"),
                    ),
                );
            },
        }
    } else {
        Ownership::Either
    };
    Ok(
        database.select_owned(
            object_type_filter,
            address,
            ownership,
            offset,
            pagination.page_size() as u64,
        ),
    )
}

/// Pages 1 to `pages` of `all`, one after the other.
pub open spec fn first_pages<T>(all: Seq<T>, page_size: nat, pages: nat) -> Seq<T>
    decreases pages,
{
    if pages == 0 {
        Seq::empty()
    } else {
        first_pages(all, page_size, (pages - 1) as nat) + page_of(
            all,
            ((pages - 1) * page_size) as nat,
            page_size,
        )
    }
}

/// The smaller of two numbers.
pub open spec fn smaller(a: nat, b: nat) -> nat {
    if a <= b {
        a
    } else {
        b
    }
}

/// Pagination loses and repeats nothing: pages 1 to `pages` of a result,
/// one after the other, are the first `pages * page_size` items of the
/// result in its order, or all of it where it is shorter.
pub proof fn lemma_pagination_round_trip<T>(all: Seq<T>, page_size: nat, pages: nat)
    ensures
        first_pages(all, page_size, pages) == all.take(
            smaller(pages * page_size, all.len()) as int,
        ),
    decreases pages,
{
    if pages == 0 {
        assert(pages * page_size == 0) by (nonlinear_arith)
            requires
                pages == 0,
        ;
        assert(all.take(0) =~= Seq::<T>::empty());
    } else {
        let before = (pages - 1) as nat;
        lemma_pagination_round_trip(all, page_size, before);
        assert(pages * page_size == before * page_size + page_size) by (nonlinear_arith)
            requires
                before == pages - 1,
        ;
        assert(before * page_size >= 0) by (nonlinear_arith);
        assert(first_pages(all, page_size, pages) =~= all.take(
            smaller(pages * page_size, all.len()) as int,
        ));
    }
}

/// The objects of one variant that have an expiration row, `address` as
/// its owner, and an expiration time after `now_ms`.
pub open spec fn owned_before_expiration(
    tables: Tables,
    object_type: ObjectType,
    address: Seq<u8>,
    now_ms: u64,
) -> Seq<crate::models::ObjectRow> {
    tables.objects.filter(
        |row: crate::models::ObjectRow|
            {
                &&& row.object_type == object_type
                &&& crate::store::has_key(tables.expirations, row.id)
                &&& crate::store::row_of(tables.expirations, row.id).owner == address
                &&& crate::store::row_of(tables.expirations, row.id).unix_time * 1000 > now_ms
            },
    )
}

/// The objects of one variant that have an expiration row, `address` as
/// its return address, and an expiration time that `now_ms` has reached.
pub open spec fn returned_after_expiration(
    tables: Tables,
    object_type: ObjectType,
    address: Seq<u8>,
    now_ms: u64,
) -> Seq<crate::models::ObjectRow> {
    tables.objects.filter(
        |row: crate::models::ObjectRow|
            {
                &&& row.object_type == object_type
                &&& crate::store::has_key(tables.expirations, row.id)
                &&& crate::store::row_of(tables.expirations, row.id).return_address == address
                &&& crate::store::row_of(tables.expirations, row.id).unix_time * 1000 <= now_ms
            },
    )
}

/// The resolved split: at any time, the objects that an address owns are
/// those it owns as the owner before the expiration together with those
/// that have come back to it as the return address, and no object is in both.
pub proof fn lemma_resolved_split(
    tables: Tables,
    object_type: ObjectType,
    address: Seq<u8>,
    now_ms: u64,
)
    ensures
        tables.owned_by(object_type, address, Ownership::ResolvedAt(now_ms)).to_set()
            == owned_before_expiration(tables, object_type, address, now_ms).to_set().union(
            returned_after_expiration(tables, object_type, address, now_ms).to_set(),
        ),
        owned_before_expiration(tables, object_type, address, now_ms).to_set().disjoint(
            returned_after_expiration(tables, object_type, address, now_ms).to_set(),
        ),
{
    broadcast use vstd::seq_lib::group_filter_ensures;

    let resolved = |row: crate::models::ObjectRow|
        tables.selects(row, object_type, address, Ownership::ResolvedAt(now_ms));
    let as_owner = |row: crate::models::ObjectRow|
        {
            &&& row.object_type == object_type
            &&& crate::store::has_key(tables.expirations, row.id)
            &&& crate::store::row_of(tables.expirations, row.id).owner == address
            &&& crate::store::row_of(tables.expirations, row.id).unix_time * 1000 > now_ms
        };
    let as_return = |row: crate::models::ObjectRow|
        {
            &&& row.object_type == object_type
            &&& crate::store::has_key(tables.expirations, row.id)
            &&& crate::store::row_of(tables.expirations, row.id).return_address == address
            &&& crate::store::row_of(tables.expirations, row.id).unix_time * 1000 <= now_ms
        };
    let all = tables.objects;
    lemma_filter_membership(all, resolved);
    lemma_filter_membership(all, as_owner);
    lemma_filter_membership(all, as_return);
    let left = all.filter(resolved).to_set();
    let owner_set = all.filter(as_owner).to_set();
    let return_set = all.filter(as_return).to_set();
    assert forall|row: crate::models::ObjectRow| left.contains(row) <==> owner_set.union(
        return_set,
    ).contains(row) by {
        assert(resolved(row) <==> as_owner(row) || as_return(row));
    }
    assert(left =~= owner_set.union(return_set));
    assert forall|row: crate::models::ObjectRow|
        !(owner_set.contains(row) && return_set.contains(row)) by {
        assert(!(as_owner(row) && as_return(row)));
    }
}

/// A filtered sequence holds the items of the sequence that pass the filter.
pub proof fn lemma_filter_membership<T>(all: Seq<T>, keep: spec_fn(T) -> bool)
    ensures
        forall|item: T|
            #![trigger all.filter(keep).to_set().contains(item)]
            all.filter(keep).to_set().contains(item) <==> all.contains(item) && keep(item),
{
    broadcast use vstd::seq_lib::group_filter_ensures;

    assert forall|item: T| #![trigger all.filter(keep).to_set().contains(item)] all.filter(
        keep,
    ).to_set().contains(item) <==> all.contains(item) && keep(item) by {
        if all.filter(keep).contains(item) {
            all.lemma_filter_contains_rev(keep, item);
            let i = choose|i: int| 0 <= i < all.filter(keep).len() && all.filter(keep)[i] == item;
            all.lemma_filter_pred(keep, i);
        }
        if all.contains(item) && keep(item) {
            let i = choose|i: int| 0 <= i < all.len() && all[i] == item;
            all.lemma_filter_contains(keep, i);
        }
    }
}

} // verus!
