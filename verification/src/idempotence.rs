//! Why a batch of upserts followed by a deletion can be applied twice: the
//! second application finds every row it writes already in place.

use vstd::prelude::*;

use crate::store::{
    has_key, lemma_position_unique, lemma_upsert, lemma_without_keys, position, row_of,
    unique_keys, upsert, upsert_all, without_keys, Keyed,
};

verus! {

/// The last row of `batch` with the given key.
pub open spec fn last_row<R: Keyed>(batch: Seq<R>, key: R::Key) -> Option<R>
    decreases batch.len(),
{
    if batch.len() == 0 {
        None
    } else if batch.last().key() == key {
        Some(batch.last())
    } else {
        last_row(batch.drop_last(), key)
    }
}

/// A key is among the rows exactly if it is the key of the last row or
/// among the rows before it.
pub proof fn lemma_has_key_last<R: Keyed>(rows: Seq<R>)
    requires
        rows.len() > 0,
    ensures
        forall|key: R::Key|
            #![trigger has_key(rows, key)]
            has_key(rows, key) <==> has_key(rows.drop_last(), key) || key == rows.last().key(),
{
    let front = rows.drop_last();
    assert forall|key: R::Key| #![trigger has_key(rows, key)] has_key(rows, key) <==> has_key(
        front,
        key,
    ) || key == rows.last().key() by {
        if has_key(rows, key) {
            let i = position(rows, key);
            if i < front.len() {
                assert(front[i].key() == key);
            }
        }
        if has_key(front, key) {
            let i = position(front, key);
            assert(rows[i].key() == key);
        }
        if key == rows.last().key() {
            assert(rows[rows.len() - 1].key() == key);
        }
    }
}

/// All rows but the last of a relation with unique keys have unique keys,
/// and none of them has the key of the last.
pub proof fn lemma_unique_front<R: Keyed>(rows: Seq<R>)
    requires
        rows.len() > 0,
        unique_keys(rows),
    ensures
        unique_keys(rows.drop_last()),
        !has_key(rows.drop_last(), rows.last().key()),
{
    let front = rows.drop_last();
    assert forall|i: int, j: int| 0 <= i < j < front.len() implies front[i].key()
        != front[j].key() by {
        assert(rows[i].key() != rows[j].key());
    }
    if has_key(front, rows.last().key()) {
        let i = position(front, rows.last().key());
        assert(rows[i].key() != rows[rows.len() - 1].key());
    }
}

/// Removing keys after an upsert is the upsert after removing the keys, or
/// the removal alone where the key of the row is one of those removed.
pub proof fn lemma_without_keys_upsert<R: Keyed>(rows: Seq<R>, row: R, keys: Set<R::Key>)
    requires
        unique_keys(rows),
    ensures
        without_keys(upsert(rows, row), keys) == if keys.contains(row.key()) {
            without_keys(rows, keys)
        } else {
            upsert(without_keys(rows, keys), row)
        },
    decreases rows.len(),
{
    let keep = |r: R| !keys.contains(r.key());
    lemma_without_keys(rows, keys);
    if !has_key(rows, row.key()) {
        rows.lemma_filter_push(row, keep);
    } else {
        let p = position(rows, row.key());
        let front = rows.drop_last();
        let last = rows.last();
        let kept_front = without_keys(front, keys);
        assert(rows =~= front.push(last));
        lemma_unique_front(rows);
        lemma_without_keys(front, keys);
        front.lemma_filter_push(last, keep);
        if p == rows.len() - 1 {
            assert(upsert(rows, row) =~= front.push(row));
            front.lemma_filter_push(row, keep);
            if keep(row) {
                let kept = without_keys(rows, keys);
                assert(kept == kept_front.push(last));
                lemma_position_unique(kept, kept_front.len() as int);
                assert(upsert(kept, row) =~= kept_front.push(row));
            }
        } else {
            assert(rows[p].key() != rows[rows.len() - 1].key());
            assert(front[p].key() == row.key());
            lemma_position_unique(front, p);
            assert(upsert(front, row) == front.update(p, row));
            assert(upsert(rows, row) =~= upsert(front, row).push(last));
            lemma_without_keys_upsert(front, row, keys);
            upsert(front, row).lemma_filter_push(last, keep);
            if !keys.contains(row.key()) {
                assert(has_key(kept_front, row.key()));
                let q = position(kept_front, row.key());
                if keep(last) {
                    let kept = without_keys(rows, keys);
                    assert(kept == kept_front.push(last));
                    assert(kept[q].key() == row.key());
                    lemma_position_unique(kept, q);
                    assert(upsert(kept, row) =~= upsert(kept_front, row).push(last));
                }
            }
        }
    }
}

/// What a batch of upserts leaves: keys stay unique; the keys are those
/// that were there and those of the batch; a key of the batch has the last
/// row that the batch holds for it, any other key the row it had.
pub proof fn lemma_upsert_all<R: Keyed>(rows: Seq<R>, batch: Seq<R>)
    requires
        unique_keys(rows),
    ensures
        unique_keys(upsert_all(rows, batch)),
        forall|key: R::Key|
            #![trigger has_key(upsert_all(rows, batch), key)]
            has_key(upsert_all(rows, batch), key) <==> has_key(rows, key) || has_key(batch, key),
        forall|key: R::Key|
            #![trigger last_row(batch, key)]
            last_row(batch, key) is Some <==> has_key(batch, key),
        forall|key: R::Key|
            #![trigger row_of(upsert_all(rows, batch), key)]
            has_key(upsert_all(rows, batch), key) ==> row_of(upsert_all(rows, batch), key)
                == match last_row(batch, key) {
                Some(row) => row,
                None => row_of(rows, key),
            },
    decreases batch.len(),
{
    let out = upsert_all(rows, batch);
    if batch.len() == 0 {
        assert forall|key: R::Key| !has_key(batch, key) by {}
    } else {
        let front = batch.drop_last();
        let last = batch.last();
        let before = upsert_all(rows, front);
        lemma_upsert_all(rows, front);
        lemma_upsert(before, last);
        lemma_has_key_last(batch);
        assert forall|key: R::Key| #![trigger has_key(out, key)] has_key(out, key) <==> has_key(
            rows,
            key,
        ) || has_key(batch, key) by {
            assert(has_key(out, key) <==> has_key(before, key) || key == last.key());
            assert(has_key(before, key) <==> has_key(rows, key) || has_key(front, key));
            assert(has_key(batch, key) <==> has_key(front, key) || key == last.key());
        }
        assert forall|key: R::Key| #![trigger last_row(batch, key)] last_row(batch, key) is Some
            <==> has_key(batch, key) by {
            assert(has_key(batch, key) <==> has_key(front, key) || key == last.key());
            assert(last_row(front, key) is Some <==> has_key(front, key));
        }
        assert forall|key: R::Key| #![trigger row_of(out, key)] has_key(out, key) implies row_of(
            out,
            key,
        ) == match last_row(batch, key) {
            Some(row) => row,
            None => row_of(rows, key),
        } by {
            assert(has_key(out, key) <==> has_key(before, key) || key == last.key());
            if key != last.key() {
                assert(row_of(out, key) == row_of(before, key));
                assert(row_of(before, key) == match last_row(front, key) {
                    Some(row) => row,
                    None => row_of(rows, key),
                });
            }
        }
    }
}

/// A batch whose keys are all there already changes neither the number of
/// the rows nor the key at any place.
pub proof fn lemma_upsert_all_in_place<R: Keyed>(rows: Seq<R>, batch: Seq<R>)
    requires
        unique_keys(rows),
        forall|i: int| 0 <= i < batch.len() ==> has_key(rows, (#[trigger] batch[i]).key()),
    ensures
        upsert_all(rows, batch).len() == rows.len(),
        forall|i: int|
            0 <= i < rows.len() ==> (#[trigger] upsert_all(rows, batch)[i]).key() == rows[i].key(),
    decreases batch.len(),
{
    if batch.len() > 0 {
        let front = batch.drop_last();
        let last = batch.last();
        let before = upsert_all(rows, front);
        assert forall|i: int| 0 <= i < front.len() implies has_key(
            rows,
            (#[trigger] front[i]).key(),
        ) by {
            assert(front[i] == batch[i]);
        }
        lemma_upsert_all_in_place(rows, front);
        assert(has_key(rows, batch[batch.len() - 1].key()));
        let p = position(rows, last.key());
        assert(before[p].key() == last.key());
        assert(has_key(before, last.key()));
        let q = position(before, last.key());
        let out = upsert(before, last);
        assert(out == before.update(q, last));
        assert forall|i: int| 0 <= i < rows.len() implies (#[trigger] out[i]).key()
            == rows[i].key() by {
            assert(before[i].key() == rows[i].key());
        }
    }
}

/// Applying a batch of upserts a second time changes nothing.
pub proof fn lemma_upsert_all_twice<R: Keyed>(rows: Seq<R>, batch: Seq<R>)
    requires
        unique_keys(rows),
    ensures
        upsert_all(upsert_all(rows, batch), batch) == upsert_all(rows, batch),
{
    let once = upsert_all(rows, batch);
    let twice = upsert_all(once, batch);
    lemma_upsert_all(rows, batch);
    lemma_upsert_all(once, batch);
    assert forall|i: int| 0 <= i < batch.len() implies has_key(once, (#[trigger] batch[i]).key()) by {
        assert(has_key(batch, batch[i].key()));
    }
    lemma_upsert_all_in_place(once, batch);
    assert forall|i: int| 0 <= i < once.len() implies twice[i] == once[i] by {
        let key = once[i].key();
        assert(twice[i].key() == key);
        lemma_position_unique(once, i);
        lemma_position_unique(twice, i);
        assert(row_of(twice, key) == match last_row(batch, key) {
            Some(row) => row,
            None => row_of(once, key),
        });
        assert(row_of(once, key) == match last_row(batch, key) {
            Some(row) => row,
            None => row_of(rows, key),
        });
    }
    assert(twice =~= once);
}

/// Removing keys after a batch of upserts is the batch, without the rows
/// of those keys, applied after removing the keys.
pub proof fn lemma_without_keys_upsert_all<R: Keyed>(
    rows: Seq<R>,
    batch: Seq<R>,
    keys: Set<R::Key>,
)
    requires
        unique_keys(rows),
    ensures
        without_keys(upsert_all(rows, batch), keys) == upsert_all(
            without_keys(rows, keys),
            without_keys(batch, keys),
        ),
    decreases batch.len(),
{
    let keep = |r: R| !keys.contains(r.key());
    if batch.len() == 0 {
        batch.lemma_filter_len(keep);
        assert(without_keys(batch, keys).len() == 0);
    } else {
        let front = batch.drop_last();
        let last = batch.last();
        let before = upsert_all(rows, front);
        lemma_upsert_all(rows, front);
        lemma_without_keys_upsert_all(rows, front, keys);
        lemma_without_keys_upsert(before, last, keys);
        assert(batch =~= front.push(last));
        front.lemma_filter_push(last, keep);
        if keep(last) {
            let kept = without_keys(front, keys).push(last);
            assert(kept.drop_last() =~= without_keys(front, keys));
            assert(kept.last() == last);
        }
    }
}

/// Removing keys that no row has changes nothing.
pub proof fn lemma_without_absent_keys<R: Keyed>(rows: Seq<R>, keys: Set<R::Key>)
    requires
        forall|i: int| 0 <= i < rows.len() ==> !keys.contains((#[trigger] rows[i]).key()),
    ensures
        without_keys(rows, keys) == rows,
    decreases rows.len(),
{
    let keep = |r: R| !keys.contains(r.key());
    if rows.len() == 0 {
        rows.lemma_filter_len(keep);
        assert(without_keys(rows, keys) =~= rows);
    } else {
        let front = rows.drop_last();
        let last = rows.last();
        assert forall|i: int| 0 <= i < front.len() implies !keys.contains(
            (#[trigger] front[i]).key(),
        ) by {
            assert(front[i] == rows[i]);
        }
        lemma_without_absent_keys(front, keys);
        assert(rows =~= front.push(last));
        front.lemma_filter_push(last, keep);
        assert(!keys.contains(rows[rows.len() - 1].key()));
    }
}

/// The effect of a batch of upserts followed by the removal of a set of
/// keys is the same whether it is applied once or twice.
pub proof fn lemma_upserts_then_removal_twice<R: Keyed>(
    rows: Seq<R>,
    batch: Seq<R>,
    keys: Set<R::Key>,
)
    requires
        unique_keys(rows),
    ensures
        without_keys(upsert_all(without_keys(upsert_all(rows, batch), keys), batch), keys)
            == without_keys(upsert_all(rows, batch), keys),
{
    broadcast use vstd::seq_lib::group_filter_ensures;

    let keep = |r: R| !keys.contains(r.key());
    let kept_rows = without_keys(rows, keys);
    let kept_batch = without_keys(batch, keys);
    let once = without_keys(upsert_all(rows, batch), keys);
    lemma_without_keys(rows, keys);
    lemma_without_keys_upsert_all(rows, batch, keys);
    assert(once == upsert_all(kept_rows, kept_batch));
    lemma_upsert_all(rows, batch);
    lemma_without_keys(upsert_all(rows, batch), keys);
    lemma_without_keys_upsert_all(once, batch, keys);
    assert forall|i: int| 0 <= i < once.len() implies !keys.contains((#[trigger] once[i]).key()) by {
        upsert_all(rows, batch).lemma_filter_pred(keep, i);
    }
    lemma_without_absent_keys(once, keys);
    lemma_upsert_all_twice(kept_rows, kept_batch);
}

} // verus!
