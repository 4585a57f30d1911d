//! The objects database: the `objects` and `expiration_unlock_conditions`
//! relations, their keys and the pairing between them.
//!
//! Rows are kept in insertion order. An upsert overwrites the row with the
//! same key in place or appends a new row; a deletion removes the rows of a
//! set of keys from both relations.

use vstd::prelude::*;

use crate::models::{
    address_bytes, ExpirationRow, ExpirationUnlockCondition, IotaAddress, ObjectRow, ObjectType,
    StoredObject,
};

verus! {

/// A row that is identified by its primary key.
pub trait Keyed {
    type Key;

    spec fn key(&self) -> Self::Key;
}

impl Keyed for ObjectRow {
    type Key = Seq<u8>;

    open spec fn key(&self) -> Seq<u8> {
        self.id
    }
}

impl Keyed for ExpirationRow {
    type Key = Seq<u8>;

    open spec fn key(&self) -> Seq<u8> {
        self.object_id
    }
}

/// Whether some row of `rows` has the given key.
pub open spec fn has_key<R: Keyed>(rows: Seq<R>, key: R::Key) -> bool {
    exists|i: int| 0 <= i < rows.len() && (#[trigger] rows[i]).key() == key
}

/// The index of a row of `rows` with the given key.
pub open spec fn position<R: Keyed>(rows: Seq<R>, key: R::Key) -> int {
    choose|i: int| 0 <= i < rows.len() && (#[trigger] rows[i]).key() == key
}

/// The row of `rows` with the given key.
pub open spec fn row_of<R: Keyed>(rows: Seq<R>, key: R::Key) -> R {
    rows[position(rows, key)]
}

/// No two rows share a key.
pub open spec fn unique_keys<R: Keyed>(rows: Seq<R>) -> bool {
    forall|i: int, j: int|
        0 <= i < j < rows.len() ==> (#[trigger] rows[i]).key() != (#[trigger] rows[j]).key()
}

/// Insert `row`, overwriting in place the row that has its key, if there is one.
pub open spec fn upsert<R: Keyed>(rows: Seq<R>, row: R) -> Seq<R> {
    if has_key(rows, row.key()) {
        rows.update(position(rows, row.key()), row)
    } else {
        rows.push(row)
    }
}

/// Upsert the rows of `batch` one after the other.
pub open spec fn upsert_all<R: Keyed>(rows: Seq<R>, batch: Seq<R>) -> Seq<R>
    decreases batch.len(),
{
    if batch.len() == 0 {
        rows
    } else {
        upsert(upsert_all(rows, batch.drop_last()), batch.last())
    }
}

/// The rows whose key is not in `keys`, in their order.
pub open spec fn without_keys<R: Keyed>(rows: Seq<R>, keys: Set<R::Key>) -> Seq<R> {
    rows.filter(|row: R| !keys.contains(row.key()))
}

/// The set of the addresses in `ids`, each as its bytes.
pub open spec fn id_set(ids: Seq<IotaAddress>) -> Set<Seq<u8>> {
    address_bytes(ids).to_set()
}

/// The contents of the objects database.
pub struct Tables {
    pub objects: Seq<ObjectRow>,
    pub expirations: Seq<ExpirationRow>,
}

impl Tables {
    /// The database before anything was written to it.
    pub open spec fn empty() -> Tables {
        Tables { objects: Seq::empty(), expirations: Seq::empty() }
    }

    /// Every expiration row belongs to a row of `objects`.
    pub open spec fn pair_integrity(self) -> bool {
        forall|i: int|
            0 <= i < self.expirations.len() ==> has_key(
                self.objects,
                (#[trigger] self.expirations[i]).object_id,
            )
    }

    /// Keys are unique in both relations and every expiration row has its object.
    pub open spec fn well_formed(self) -> bool {
        &&& unique_keys(self.objects)
        &&& unique_keys(self.expirations)
        &&& self.pair_integrity()
    }

    pub open spec fn upsert_object(self, row: ObjectRow) -> Tables {
        Tables { objects: upsert(self.objects, row), expirations: self.expirations }
    }

    pub open spec fn upsert_expiration(self, row: ExpirationRow) -> Tables {
        Tables { objects: self.objects, expirations: upsert(self.expirations, row) }
    }

    /// Delete the objects with an id in `ids`; their expiration rows go with them.
    pub open spec fn delete_objects(self, ids: Set<Seq<u8>>) -> Tables {
        Tables {
            objects: without_keys(self.objects, ids),
            expirations: without_keys(self.expirations, ids),
        }
    }

    /// The number of objects of the given variant.
    pub open spec fn count_of(self, object_type: ObjectType) -> nat {
        self.objects.filter(|row: ObjectRow| row.object_type == object_type).len()
    }
}

/// One write to the objects database, as a mathematical value.
pub enum WriteView {
    /// One transaction: an object is upserted, and with it its expiration
    /// row where it carries one.
    Upsert { object: ObjectRow, expiration: Option<ExpirationRow> },
    /// The objects with these ids are deleted.
    Delete { ids: Seq<Seq<u8>> },
}

impl Tables {
    /// The database after one write.
    pub open spec fn apply(self, write: WriteView) -> Tables {
        match write {
            WriteView::Upsert { object, expiration } => match expiration {
                Some(row) => self.upsert_object(object).upsert_expiration(row),
                None => self.upsert_object(object),
            },
            WriteView::Delete { ids } => self.delete_objects(ids.to_set()),
        }
    }

    /// The database after the given writes, one after the other.
    pub open spec fn replay(self, writes: Seq<WriteView>) -> Tables
        decreases writes.len(),
    {
        if writes.len() == 0 {
            self
        } else {
            self.replay(writes.drop_last()).apply(writes.last())
        }
    }
}

/// How an address must stand in an expiration row for the object to count as its own.
#[derive(Debug, Clone, Copy, PartialEq, Eq, Structural)]
pub enum Ownership {
    /// The address is the owner or the return address.
    Either,
    /// The address owns the object at the given time, in milliseconds: it is
    /// the owner and the expiration time lies ahead, or it is the return
    /// address and the expiration time has been reached.
    ResolvedAt(u64),
}

/// Whether the object of the expiration row `row` counts as owned by `address`.
pub open spec fn owns(row: ExpirationRow, address: Seq<u8>, ownership: Ownership) -> bool {
    match ownership {
        Ownership::Either => row.owner == address || row.return_address == address,
        Ownership::ResolvedAt(now_ms) => {
            ||| row.owner == address && row.unix_time * 1000 > now_ms
            ||| row.return_address == address && row.unix_time * 1000 <= now_ms
        },
    }
}

/// The part of `all` that starts after `offset` items and holds at most `limit` items.
pub open spec fn page_of<T>(all: Seq<T>, offset: nat, limit: nat) -> Seq<T> {
    let start = if offset <= all.len() {
        offset
    } else {
        all.len()
    };
    let end = if offset + limit <= all.len() {
        offset + limit
    } else {
        all.len()
    };
    all.subrange(start as int, end as int)
}

impl Tables {
    /// Whether the object `row` is of the given variant and has an expiration
    /// row by which `address` owns it.
    pub open spec fn selects(
        self,
        row: ObjectRow,
        object_type: ObjectType,
        address: Seq<u8>,
        ownership: Ownership,
    ) -> bool {
        &&& row.object_type == object_type
        &&& has_key(self.expirations, row.id)
        &&& owns(row_of(self.expirations, row.id), address, ownership)
    }

    /// The objects of the given variant that `address` owns, in insertion order.
    pub open spec fn owned_by(
        self,
        object_type: ObjectType,
        address: Seq<u8>,
        ownership: Ownership,
    ) -> Seq<ObjectRow> {
        self.objects.filter(|row: ObjectRow| self.selects(row, object_type, address, ownership))
    }
}

/// In a relation with unique keys, the row at an index is the row of its key.
pub proof fn lemma_position_unique<R: Keyed>(rows: Seq<R>, i: int)
    requires
        unique_keys(rows),
        0 <= i < rows.len(),
    ensures
        has_key(rows, rows[i].key()),
        position(rows, rows[i].key()) == i,
        row_of(rows, rows[i].key()) == rows[i],
{
    let j = position(rows, rows[i].key());
    assert(0 <= j < rows.len() && rows[j].key() == rows[i].key());
    if j < i {
        assert(rows[j].key() != rows[i].key());
    } else if i < j {
        assert(rows[i].key() != rows[j].key());
    }
}

/// An upsert keeps keys unique, and adds the key of the row and no other.
pub proof fn lemma_upsert<R: Keyed>(rows: Seq<R>, row: R)
    requires
        unique_keys(rows),
    ensures
        unique_keys(upsert(rows, row)),
        has_key(upsert(rows, row), row.key()),
        row_of(upsert(rows, row), row.key()) == row,
        forall|key: R::Key|
            #![trigger has_key(upsert(rows, row), key)]
            has_key(upsert(rows, row), key) <==> has_key(rows, key) || key == row.key(),
        forall|key: R::Key|
            #![trigger row_of(upsert(rows, row), key)]
            has_key(rows, key) && key != row.key() ==> row_of(upsert(rows, row), key) == row_of(
                rows,
                key,
            ),
{
    let out = upsert(rows, row);
    let at = if has_key(rows, row.key()) {
        position(rows, row.key())
    } else {
        rows.len() as int
    };
    assert(0 <= at < out.len() && out[at] == row);
    assert(out.len() >= rows.len());
    assert forall|i: int| 0 <= i < out.len() && i != at implies i < rows.len() && out[i]
        == rows[i] by {}
    assert forall|i: int, j: int| 0 <= i < j < out.len() implies out[i].key() != out[j].key() by {
        if i == at {
            assert(rows[j].key() != row.key()) by {
                if has_key(rows, row.key()) {
                    assert(rows[at].key() != rows[j].key());
                }
            }
        } else if j == at {
            assert(rows[i].key() != row.key()) by {
                if has_key(rows, row.key()) {
                    assert(rows[i].key() != rows[at].key());
                }
            }
        } else {
            assert(rows[i].key() != rows[j].key());
        }
    }
    lemma_position_unique(out, at);
    assert forall|key: R::Key| #![trigger has_key(out, key)] has_key(out, key) <==> has_key(
        rows,
        key,
    ) || key == row.key() by {
        if has_key(out, key) {
            let i = position(out, key);
            if i != at {
                assert(rows[i].key() == key);
            }
        }
        if has_key(rows, key) && key != row.key() {
            let i = position(rows, key);
            assert(i != at);
            assert(out[i].key() == key);
        }
    }
    assert forall|key: R::Key| #![trigger row_of(out, key)] has_key(rows, key) && key
        != row.key() implies row_of(out, key) == row_of(rows, key) by {
        let i = position(rows, key);
        assert(i != at);
        assert(out[i] == rows[i]);
        lemma_position_unique(out, i);
    }
}

/// Removing a set of keys keeps keys unique, keeps the other rows as they
/// are, and leaves no row with a key of the set.
pub proof fn lemma_without_keys<R: Keyed>(rows: Seq<R>, keys: Set<R::Key>)
    requires
        unique_keys(rows),
    ensures
        unique_keys(without_keys(rows, keys)),
        forall|key: R::Key|
            #![trigger has_key(without_keys(rows, keys), key)]
            has_key(without_keys(rows, keys), key) <==> has_key(rows, key) && !keys.contains(key),
        forall|key: R::Key|
            #![trigger row_of(without_keys(rows, keys), key)]
            has_key(rows, key) && !keys.contains(key) ==> row_of(without_keys(rows, keys), key)
                == row_of(rows, key),
    decreases rows.len(),
{
    let keep = |row: R| !keys.contains(row.key());
    let out = without_keys(rows, keys);
    if rows.len() == 0 {
        reveal(Seq::filter);
        assert(out.len() == 0);
    } else {
        let front = rows.drop_last();
        let last = rows.last();
        let front_out = without_keys(front, keys);
        assert(unique_keys(front)) by {
            assert forall|i: int, j: int| 0 <= i < j < front.len() implies front[i].key()
                != front[j].key() by {
                assert(rows[i].key() != rows[j].key());
            }
        }
        lemma_without_keys(front, keys);
        assert(rows =~= front.push(last));
        front.lemma_filter_push(last, keep);
        assert(!has_key(front, last.key())) by {
            if has_key(front, last.key()) {
                let i = position(front, last.key());
                assert(rows[i].key() != rows[rows.len() - 1].key());
            }
        }
        assert forall|key: R::Key| #![trigger has_key(rows, key)] has_key(rows, key) <==> has_key(
            front,
            key,
        ) || key == last.key() by {
            if has_key(rows, key) {
                let i = position(rows, key);
                if i < front.len() {
                    assert(front[i].key() == key);
                }
            }
            if has_key(front, key) {
                let i = position(front, key);
                assert(rows[i].key() == key);
            }
            if key == last.key() {
                assert(rows[rows.len() - 1].key() == key);
            }
        }
        assert forall|key: R::Key| #![trigger row_of(rows, key)] has_key(front, key) implies row_of(
            rows,
            key,
        ) == row_of(front, key) by {
            let i = position(front, key);
            assert(rows[i] == front[i]);
            lemma_position_unique(rows, i);
        }
        lemma_position_unique(rows, rows.len() - 1);
        if keep(last) {
            assert(out == front_out.push(last));
            assert(!has_key(front_out, last.key()));
            assert(upsert(front_out, last) == out);
            lemma_upsert(front_out, last);
            assert forall|key: R::Key| #![trigger row_of(out, key)] has_key(rows, key)
                && !keys.contains(key) implies row_of(out, key) == row_of(rows, key) by {
                if key != last.key() {
                    assert(has_key(front, key));
                    assert(has_key(front_out, key));
                    assert(row_of(out, key) == row_of(front_out, key));
                }
            }
        } else {
            assert(out == front_out);
        }
    }
}

/// The rows that a vector of stored objects stands for.
pub open spec fn object_rows(objects: Seq<StoredObject>) -> Seq<ObjectRow> {
    objects.map_values(|object: StoredObject| object@)
}

/// The rows that a vector of expiration unlock conditions stands for.
pub open spec fn expiration_rows(conditions: Seq<ExpirationUnlockCondition>) -> Seq<ExpirationRow> {
    conditions.map_values(|condition: ExpirationUnlockCondition| condition@)
}

/// Why the objects database turned a write down.
#[derive(Debug, Clone, Copy, PartialEq, Eq, Structural)]
pub enum StoreError {
    /// An expiration row was written for an object that is not stored.
    ForeignKeyViolation,
    /// Two rows of one relation have the same key.
    DuplicateKey,
}

/// One write that the objects database has taken.
#[derive(Debug, PartialEq, Eq)]
pub enum DatabaseWrite {
    /// One transaction: an object is upserted, and with it its expiration
    /// row where it carries one.
    Upsert { object: StoredObject, expiration: Option<ExpirationUnlockCondition> },
    /// The objects with these ids are deleted.
    Delete { ids: Vec<IotaAddress> },
}

impl View for DatabaseWrite {
    type V = WriteView;

    open spec fn view(&self) -> WriteView {
        match self {
            DatabaseWrite::Upsert { object, expiration } => WriteView::Upsert {
                object: object@,
                expiration: match expiration {
                    Some(condition) => Some(condition@),
                    None => None,
                },
            },
            DatabaseWrite::Delete { ids } => WriteView::Delete { ids: address_bytes(ids@) },
        }
    }
}

/// The writes that a journal stands for, in their order.
pub open spec fn write_views(journal: Seq<DatabaseWrite>) -> Seq<WriteView> {
    journal.map_values(|write: DatabaseWrite| write@)
}

/// The objects database.
#[derive(Debug)]
pub struct ObjectsDatabase {
    objects: Vec<StoredObject>,
    expirations: Vec<ExpirationUnlockCondition>,
}

impl View for ObjectsDatabase {
    type V = Tables;

    closed spec fn view(&self) -> Tables {
        Tables {
            objects: object_rows(self.objects@),
            expirations: expiration_rows(self.expirations@),
        }
    }
}

/// Whether `ids` holds the address `id`.
pub fn contains_id(ids: &Vec<IotaAddress>, id: &IotaAddress) -> (found: bool)
    ensures
        found == id_set(ids@).contains(id@),
{
    let mut i: usize = 0;
    while i < ids.len()
        invariant
            i <= ids.len(),
            forall|j: int| 0 <= j < i ==> (#[trigger] address_bytes(ids@)[j]) != id@,
        decreases ids.len() - i,
    {
        if ids[i] == *id {
            assert(address_bytes(ids@)[i as int] == id@);
            return true;
        }
        i += 1;
    }
    false
}

/// The index of the object with the given id, if it is among `objects`.
fn find_object(objects: &Vec<StoredObject>, id: &IotaAddress) -> (found: Option<usize>)
    ensures
        match found {
            Some(i) => i < objects@.len() && object_rows(objects@)[i as int].id == id@,
            None => !has_key(object_rows(objects@), id@),
        },
{
    let mut i: usize = 0;
    while i < objects.len()
        invariant
            i <= objects.len(),
            forall|j: int| 0 <= j < i ==> (#[trigger] object_rows(objects@)[j]).key() != id@,
        decreases objects.len() - i,
    {
        if objects[i].id == *id {
            return Some(i);
        }
        i += 1;
    }
    None
}

/// The index of the expiration row of the given object, if it is among `conditions`.
fn find_expiration(conditions: &Vec<ExpirationUnlockCondition>, id: &IotaAddress) -> (found: Option<
    usize,
>)
    ensures
        match found {
            Some(i) => i < conditions@.len() && expiration_rows(conditions@)[i as int].object_id
                == id@,
            None => !has_key(expiration_rows(conditions@), id@),
        },
{
    let mut i: usize = 0;
    while i < conditions.len()
        invariant
            i <= conditions.len(),
            forall|j: int|
                0 <= j < i ==> (#[trigger] expiration_rows(conditions@)[j]).key() != id@,
        decreases conditions.len() - i,
    {
        if conditions[i].object_id == *id {
            return Some(i);
        }
        i += 1;
    }
    None
}

impl ObjectsDatabase {
    /// The contents of a database are well formed at all times.
    #[verifier::type_invariant]
    pub open spec fn consistent(&self) -> bool {
        self@.well_formed()
    }

    /// A database without rows.
    pub fn new() -> (database: Self)
        ensures
            database@ == Tables::empty(),
    {
        let database = ObjectsDatabase { objects: Vec::new(), expirations: Vec::new() };
        assert(database@.objects =~= Seq::empty());
        assert(database@.expirations =~= Seq::empty());
        database
    }

    /// The database that holds the given rows, in their order. Refused when
    /// two rows of a relation share a key, and else when an expiration row
    /// has no object.
    pub fn from_rows(objects: Vec<StoredObject>, expirations: Vec<ExpirationUnlockCondition>) -> (result:
        Result<ObjectsDatabase, StoreError>)
        ensures
            match result {
                Ok(database) => database@ == (Tables {
                    objects: object_rows(objects@),
                    expirations: expiration_rows(expirations@),
                }) && database@.well_formed(),
                Err(StoreError::DuplicateKey) => !unique_keys(object_rows(objects@))
                    || !unique_keys(expiration_rows(expirations@)),
                Err(StoreError::ForeignKeyViolation) => {
                    &&& unique_keys(object_rows(objects@))
                    &&& unique_keys(expiration_rows(expirations@))
                    &&& !(Tables {
                        objects: object_rows(objects@),
                        expirations: expiration_rows(expirations@),
                    }).pair_integrity()
                },
            },
    {
        let ghost rows = object_rows(objects@);
        let ghost conditions = expiration_rows(expirations@);
        let mut i: usize = 0;
        while i < objects.len()
            invariant
                i <= objects.len(),
                rows == object_rows(objects@),
                forall|a: int, b: int|
                    0 <= a < b < i ==> (#[trigger] rows[a]).key() != (#[trigger] rows[b]).key(),
            decreases objects.len() - i,
        {
            let mut j: usize = 0;
            while j < i
                invariant
                    j <= i < objects.len(),
                    rows == object_rows(objects@),
                    forall|a: int| 0 <= a < j ==> (#[trigger] rows[a]).key() != rows[i as int].key(),
                decreases i - j,
            {
                if objects[j].id == objects[i].id {
                    assert(rows[j as int].key() == rows[i as int].key());
                    return Err(StoreError::DuplicateKey);
                }
                j += 1;
            }
            i += 1;
        }
        let mut i: usize = 0;
        while i < expirations.len()
            invariant
                i <= expirations.len(),
                conditions == expiration_rows(expirations@),
                forall|a: int, b: int|
                    0 <= a < b < i ==> (#[trigger] conditions[a]).key() != (
                    #[trigger] conditions[b]).key(),
            decreases expirations.len() - i,
        {
            let mut j: usize = 0;
            while j < i
                invariant
                    j <= i < expirations.len(),
                    conditions == expiration_rows(expirations@),
                    forall|a: int|
                        0 <= a < j ==> (#[trigger] conditions[a]).key() != conditions[i as int].key(),
                decreases i - j,
            {
                if expirations[j].object_id == expirations[i].object_id {
                    assert(conditions[j as int].key() == conditions[i as int].key());
                    return Err(StoreError::DuplicateKey);
                }
                j += 1;
            }
            i += 1;
        }
        assert(unique_keys(rows));
        assert(unique_keys(conditions));
        let mut i: usize = 0;
        while i < expirations.len()
            invariant
                i <= expirations.len(),
                rows == object_rows(objects@),
                conditions == expiration_rows(expirations@),
                unique_keys(rows),
                unique_keys(conditions),
                forall|a: int| 0 <= a < i ==> has_key(rows, (#[trigger] conditions[a]).object_id),
            decreases expirations.len() - i,
        {
            if find_object(&objects, &expirations[i].object_id).is_none() {
                proof {
                    let tables = Tables { objects: rows, expirations: conditions };
                    assert(!has_key(tables.objects, tables.expirations[i as int].object_id));
                    assert(!tables.pair_integrity());
                }
                return Err(StoreError::ForeignKeyViolation);
            }
            i += 1;
        }
        Ok(ObjectsDatabase { objects, expirations })
    }

    /// The stored objects, in insertion order.
    pub fn objects(&self) -> (objects: Vec<StoredObject>)
        ensures
            object_rows(objects@) == self@.objects,
    {
        let mut objects: Vec<StoredObject> = Vec::new();
        let mut i: usize = 0;
        assert(object_rows(objects@) =~= self@.objects.take(0));
        while i < self.objects.len()
            invariant
                i <= self.objects.len(),
                object_rows(objects@) == self@.objects.take(i as int),
            decreases self.objects.len() - i,
        {
            let ghost before = object_rows(objects@);
            objects.push(self.objects[i].clone());
            assert(object_rows(objects@) =~= before.push(self@.objects[i as int]));
            assert(before.push(self@.objects[i as int]) =~= self@.objects.take(i + 1));
            i += 1;
        }
        assert(self@.objects.take(self.objects.len() as int) =~= self@.objects);
        objects
    }

    /// The stored expiration rows, in insertion order.
    pub fn expirations(&self) -> (conditions: Vec<ExpirationUnlockCondition>)
        ensures
            expiration_rows(conditions@) == self@.expirations,
    {
        let mut conditions: Vec<ExpirationUnlockCondition> = Vec::new();
        let mut i: usize = 0;
        assert(expiration_rows(conditions@) =~= self@.expirations.take(0));
        while i < self.expirations.len()
            invariant
                i <= self.expirations.len(),
                expiration_rows(conditions@) == self@.expirations.take(i as int),
            decreases self.expirations.len() - i,
        {
            let ghost before = expiration_rows(conditions@);
            conditions.push(self.expirations[i].clone());
            assert(expiration_rows(conditions@) =~= before.push(self@.expirations[i as int]));
            assert(before.push(self@.expirations[i as int]) =~= self@.expirations.take(i + 1));
            i += 1;
        }
        assert(self@.expirations.take(self.expirations.len() as int) =~= self@.expirations);
        conditions
    }

    /// Moves the rows out and leaves the database empty.
    fn take_rows(&mut self) -> (rows: (Vec<StoredObject>, Vec<ExpirationUnlockCondition>))
        ensures
            object_rows(rows.0@) == old(self)@.objects,
            expiration_rows(rows.1@) == old(self)@.expirations,
            old(self)@.well_formed(),
            final(self)@ == Tables::empty(),
    {
        proof {
            use_type_invariant(&*self);
        }
        let mut taken = ObjectsDatabase::new();
        core::mem::swap(self, &mut taken);
        let ObjectsDatabase { objects, expirations } = taken;
        (objects, expirations)
    }

    /// Empties the database: every row of both relations is dropped.
    pub fn reset(&mut self)
        ensures
            final(self)@ == Tables::empty(),
    {
        *self = ObjectsDatabase::new();
    }

    /// Whether an object with the given id is stored.
    pub fn contains_object(&self, id: &IotaAddress) -> (found: bool)
        ensures
            found == has_key(self@.objects, id@),
            self@.well_formed(),
    {
        proof {
            use_type_invariant(self);
        }
        find_object(&self.objects, id).is_some()
    }

    /// Inserts `object`, or overwrites the variant and the contents of the
    /// stored object with the same id.
    pub fn upsert_object(&mut self, object: StoredObject)
        ensures
            final(self)@ == old(self)@.upsert_object(object@),
            final(self)@.well_formed(),
    {
        let ghost before = self@;
        let ghost row = object@;
        let (mut objects, expirations) = self.take_rows();
        proof {
            lemma_upsert(before.objects, row);
        }
        match find_object(&objects, &object.id) {
            Some(i) => {
                proof {
                    lemma_position_unique(before.objects, i as int);
                }
                objects.set(i, object);
            },
            None => {
                objects.push(object);
            },
        }
        proof {
            assert(object_rows(objects@) =~= upsert(before.objects, row));
            lemma_upsert_object_well_formed(before, row);
        }
        *self = ObjectsDatabase { objects, expirations };
    }

    /// Inserts the expiration row of a stored object, or overwrites the row
    /// that the object already has. Refused when the object is not stored.
    pub fn upsert_expiration(&mut self, condition: ExpirationUnlockCondition) -> (result: Result<
        (),
        StoreError,
    >)
        ensures
            final(self)@.well_formed(),
            has_key(old(self)@.objects, condition@.object_id) ==> result is Ok && final(self)@
                == old(self)@.upsert_expiration(condition@),
            !has_key(old(self)@.objects, condition@.object_id) ==> result == Err::<(), StoreError>(
                StoreError::ForeignKeyViolation,
            ) && final(self)@ == old(self)@,
    {
        proof {
            use_type_invariant(&*self);
        }
        let ghost before = self@;
        let ghost row = condition@;
        if find_object(&self.objects, &condition.object_id).is_none() {
            return Err(StoreError::ForeignKeyViolation);
        }
        let (objects, mut expirations) = self.take_rows();
        proof {
            lemma_upsert(before.expirations, row);
        }
        match find_expiration(&expirations, &condition.object_id) {
            Some(i) => {
                proof {
                    lemma_position_unique(before.expirations, i as int);
                }
                expirations.set(i, condition);
            },
            None => {
                expirations.push(condition);
            },
        }
        proof {
            assert(expiration_rows(expirations@) =~= upsert(before.expirations, row));
            lemma_upsert_expiration_well_formed(before, row);
        }
        *self = ObjectsDatabase { objects, expirations };
        Ok(())
    }

    /// Deletes the objects with an id in `ids`, and with each its expiration row.
    pub fn delete_objects(&mut self, ids: &Vec<IotaAddress>)
        ensures
            final(self)@ == old(self)@.delete_objects(id_set(ids@)),
            final(self)@.well_formed(),
    {
        let ghost before = self@;
        let ghost keys = id_set(ids@);
        let ghost keep_object = |row: ObjectRow| !keys.contains(row.key());
        let ghost keep_expiration = |row: ExpirationRow| !keys.contains(row.key());
        let (objects, expirations) = self.take_rows();
        let mut kept_objects: Vec<StoredObject> = Vec::new();
        let mut i: usize = 0;
        proof {
            reveal(Seq::filter);
            assert(before.objects.take(0) =~= Seq::empty());
            assert(object_rows(kept_objects@) =~= Seq::empty());
        }
        while i < objects.len()
            invariant
                i <= objects.len(),
                object_rows(objects@) == before.objects,
                keep_object == |row: ObjectRow| !keys.contains(row.key()),
                keys == id_set(ids@),
                object_rows(kept_objects@) == before.objects.take(i as int).filter(keep_object),
            decreases objects.len() - i,
        {
            proof {
                assert(before.objects.take(i + 1) =~= before.objects.take(i as int).push(
                    before.objects[i as int],
                ));
                before.objects.take(i as int).lemma_filter_push(
                    before.objects[i as int],
                    keep_object,
                );
            }
            if !contains_id(ids, &objects[i].id) {
                let ghost rows = object_rows(kept_objects@);
                kept_objects.push(objects[i].clone());
                assert(object_rows(kept_objects@) =~= rows.push(before.objects[i as int]));
            }
            i += 1;
        }
        let mut kept_expirations: Vec<ExpirationUnlockCondition> = Vec::new();
        let mut j: usize = 0;
        proof {
            assert(before.expirations.take(0) =~= Seq::empty());
            assert(expiration_rows(kept_expirations@) =~= Seq::empty());
        }
        while j < expirations.len()
            invariant
                j <= expirations.len(),
                expiration_rows(expirations@) == before.expirations,
                keep_expiration == |row: ExpirationRow| !keys.contains(row.key()),
                keys == id_set(ids@),
                expiration_rows(kept_expirations@) == before.expirations.take(j as int).filter(
                    keep_expiration,
                ),
            decreases expirations.len() - j,
        {
            proof {
                assert(before.expirations.take(j + 1) =~= before.expirations.take(j as int).push(
                    before.expirations[j as int],
                ));
                before.expirations.take(j as int).lemma_filter_push(
                    before.expirations[j as int],
                    keep_expiration,
                );
            }
            if !contains_id(ids, &expirations[j].object_id) {
                let ghost rows = expiration_rows(kept_expirations@);
                kept_expirations.push(expirations[j].clone());
                assert(expiration_rows(kept_expirations@) =~= rows.push(
                    before.expirations[j as int],
                ));
            }
            j += 1;
        }
        proof {
            assert(before.objects.take(objects.len() as int) =~= before.objects);
            assert(before.expirations.take(expirations.len() as int) =~= before.expirations);
            let after = before.delete_objects(keys);
            assert(object_rows(kept_objects@) == after.objects);
            assert(expiration_rows(kept_expirations@) == after.expirations);
            lemma_delete_well_formed(before, keys);
        }
        *self = ObjectsDatabase { objects: kept_objects, expirations: kept_expirations };
    }

    /// The number of stored objects.
    pub fn count_objects(&self) -> (count: usize)
        ensures
            count == self@.objects.len(),
    {
        self.objects.len()
    }

    /// The number of stored expiration rows.
    pub fn count_expirations(&self) -> (count: usize)
        ensures
            count == self@.expirations.len(),
    {
        self.expirations.len()
    }

    /// The number of stored objects of the given variant.
    pub fn count_objects_of(&self, object_type: ObjectType) -> (count: usize)
        ensures
            count == self@.count_of(object_type),
    {
        let ghost wanted = |row: ObjectRow| row.object_type == object_type;
        let ghost rows = self@.objects;
        let mut count: usize = 0;
        let mut i: usize = 0;
        proof {
            reveal(Seq::filter);
            assert(rows.take(0) =~= Seq::empty());
        }
        while i < self.objects.len()
            invariant
                i <= self.objects.len(),
                rows == object_rows(self.objects@),
                wanted == |row: ObjectRow| row.object_type == object_type,
                count == rows.take(i as int).filter(wanted).len(),
                count <= i,
            decreases self.objects.len() - i,
        {
            proof {
                assert(rows.take(i + 1) =~= rows.take(i as int).push(rows[i as int]));
                rows.take(i as int).lemma_filter_push(rows[i as int], wanted);
            }
            if self.objects[i].object_type == object_type {
                count += 1;
            }
            i += 1;
        }
        proof {
            assert(rows.take(self.objects.len() as int) =~= rows);
        }
        count
    }

    /// The stored object with the given id.
    pub fn get_object(&self, id: &IotaAddress) -> (found: Option<StoredObject>)
        ensures
            self@.well_formed(),
            match found {
                Some(object) => has_key(self@.objects, id@) && object@ == row_of(
                    self@.objects,
                    id@,
                ),
                None => !has_key(self@.objects, id@),
            },
    {
        proof {
            use_type_invariant(self);
        }
        match find_object(&self.objects, id) {
            Some(i) => {
                proof {
                    lemma_position_unique(self@.objects, i as int);
                }
                Some(self.objects[i].clone())
            },
            None => None,
        }
    }

    /// The expiration row of the object with the given id.
    pub fn get_expiration(&self, id: &IotaAddress) -> (found: Option<ExpirationUnlockCondition>)
        ensures
            self@.well_formed(),
            match found {
                Some(condition) => has_key(self@.expirations, id@) && condition@ == row_of(
                    self@.expirations,
                    id@,
                ),
                None => !has_key(self@.expirations, id@),
            },
    {
        proof {
            use_type_invariant(self);
        }
        match find_expiration(&self.expirations, id) {
            Some(i) => {
                proof {
                    lemma_position_unique(self@.expirations, i as int);
                }
                Some(self.expirations[i].clone())
            },
            None => None,
        }
    }

    /// The objects of the given variant that `address` owns, in insertion
    /// order, without the first `offset` of them and at most `limit` in number.
    pub fn select_owned(
        &self,
        object_type: ObjectType,
        address: &IotaAddress,
        ownership: Ownership,
        offset: u64,
        limit: u64,
    ) -> (page: Vec<StoredObject>)
        ensures
            self@.well_formed(),
            object_rows(page@) == page_of(
                self@.owned_by(object_type, address@, ownership),
                offset as nat,
                limit as nat,
            ),
    {
        proof {
            use_type_invariant(self);
        }
        let ghost tables = self@;
        let ghost rows = self@.objects;
        let ghost wanted = |row: ObjectRow| tables.selects(row, object_type, address@, ownership);
        let mut page: Vec<StoredObject> = Vec::new();
        let mut seen: usize = 0;
        let mut i: usize = 0;
        proof {
            reveal(Seq::filter);
            assert(rows.take(0) =~= Seq::empty());
            assert(object_rows(page@) =~= Seq::empty());
        }
        while i < self.objects.len()
            invariant
                i <= self.objects.len(),
                tables == self@,
                tables.well_formed(),
                rows == object_rows(self.objects@),
                wanted == |row: ObjectRow| tables.selects(row, object_type, address@, ownership),
                seen == rows.take(i as int).filter(wanted).len(),
                seen <= i,
                object_rows(page@) == page_of(
                    rows.take(i as int).filter(wanted),
                    offset as nat,
                    limit as nat,
                ),
            decreases self.objects.len() - i,
        {
            let ghost matched = rows.take(i as int).filter(wanted);
            proof {
                assert(rows.take(i + 1) =~= rows.take(i as int).push(rows[i as int]));
                rows.take(i as int).lemma_filter_push(rows[i as int], wanted);
            }
            let object = &self.objects[i];
            let selected = object.object_type == object_type && match find_expiration(
                &self.expirations,
                &object.id,
            ) {
                Some(at) => {
                    proof {
                        lemma_position_unique(tables.expirations, at as int);
                    }
                    condition_owns(&self.expirations[at], address, ownership)
                },
                None => false,
            };
            assert(selected == wanted(rows[i as int]));
            if selected {
                if seen as u64 >= offset && (seen as u64 - offset) < limit {
                    let ghost before = object_rows(page@);
                    page.push(object.clone());
                    assert(object_rows(page@) =~= before.push(rows[i as int]));
                }
                assert(object_rows(page@) =~= page_of(
                    matched.push(rows[i as int]),
                    offset as nat,
                    limit as nat,
                ));
                seen += 1;
            }
            i += 1;
        }
        proof {
            assert(rows.take(self.objects.len() as int) =~= rows);
        }
        page
    }
}

/// Whether the object of `condition` counts as owned by `address`.
pub fn condition_owns(
    condition: &ExpirationUnlockCondition,
    address: &IotaAddress,
    ownership: Ownership,
) -> (owned: bool)
    ensures
        owned == owns(condition@, address@, ownership),
{
    match ownership {
        Ownership::Either => condition.owner == *address || condition.return_address == *address,
        Ownership::ResolvedAt(now_ms) => {
            let expires_ms: i128 = condition.unix_time as i128 * 1000;
            let now: i128 = now_ms as i128;
            (condition.owner == *address && expires_ms > now) || (condition.return_address
                == *address && expires_ms <= now)
        },
    }
}

/// Upserting an object leaves the database well formed.
pub proof fn lemma_upsert_object_well_formed(tables: Tables, row: ObjectRow)
    requires
        tables.well_formed(),
    ensures
        tables.upsert_object(row).well_formed(),
        has_key(tables.upsert_object(row).objects, row.id),
{
    lemma_upsert(tables.objects, row);
    assert forall|i: int| 0 <= i < tables.expirations.len() implies has_key(
        upsert(tables.objects, row),
        (#[trigger] tables.expirations[i]).object_id,
    ) by {
        assert(has_key(tables.objects, tables.expirations[i].object_id));
    }
}

/// Upserting the expiration row of a stored object leaves the database well formed.
pub proof fn lemma_upsert_expiration_well_formed(tables: Tables, row: ExpirationRow)
    requires
        tables.well_formed(),
        has_key(tables.objects, row.object_id),
    ensures
        tables.upsert_expiration(row).well_formed(),
{
    lemma_upsert(tables.expirations, row);
    let after = upsert(tables.expirations, row);
    assert forall|i: int| 0 <= i < after.len() implies has_key(
        tables.objects,
        (#[trigger] after[i]).object_id,
    ) by {
        let key = after[i].object_id;
        assert(has_key(after, key));
        if key != row.object_id {
            assert(has_key(tables.expirations, key));
            let j = position(tables.expirations, key);
            assert(has_key(tables.objects, tables.expirations[j].object_id));
        }
    }
}

/// Deleting a set of ids leaves the database well formed.
pub proof fn lemma_delete_well_formed(tables: Tables, ids: Set<Seq<u8>>)
    requires
        tables.well_formed(),
    ensures
        tables.delete_objects(ids).well_formed(),
{
    let after = tables.delete_objects(ids);
    lemma_without_keys(tables.objects, ids);
    lemma_without_keys(tables.expirations, ids);
    assert forall|i: int| 0 <= i < after.expirations.len() implies has_key(
        after.objects,
        (#[trigger] after.expirations[i]).object_id,
    ) by {
        let key = after.expirations[i].object_id;
        assert(has_key(after.expirations, key));
        assert(has_key(tables.expirations, key) && !ids.contains(key));
        let j = position(tables.expirations, key);
        assert(has_key(tables.objects, tables.expirations[j].object_id));
    }
}

} // verus!
