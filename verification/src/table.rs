//! Rows that are found by an integer key: how a sequence of rows with
//! distinct keys stands for a map from key to row.

use vstd::prelude::*;

verus! {

/// No two rows have the same key.
pub open spec fn distinct_keys<T>(rows: Seq<T>, key: spec_fn(T) -> u64) -> bool {
    forall|i: int, j: int| 0 <= i < j < rows.len() ==> key(rows[i]) != key(rows[j])
}

/// Whether some row has the key `k`.
pub open spec fn holds<T>(rows: Seq<T>, key: spec_fn(T) -> u64, k: u64) -> bool {
    exists|i: int| 0 <= i < rows.len() && key(#[trigger] rows[i]) == k
}

/// The place of a row that has the key `k`.
pub open spec fn row_of<T>(rows: Seq<T>, key: spec_fn(T) -> u64, k: u64) -> int {
    choose|i: int| 0 <= i < rows.len() && key(#[trigger] rows[i]) == k
}

/// The map from each key to its row.
pub open spec fn table_of<T>(rows: Seq<T>, key: spec_fn(T) -> u64) -> Map<u64, T> {
    Map::new(|k: u64| holds(rows, key, k), |k: u64| rows[row_of(rows, key, k)])
}

/// Each row is found under its own key.
pub proof fn lemma_row_recorded<T>(rows: Seq<T>, key: spec_fn(T) -> u64, i: int)
    requires
        distinct_keys(rows, key),
        0 <= i < rows.len(),
    ensures
        holds(rows, key, key(rows[i])),
        row_of(rows, key, key(rows[i])) == i,
        table_of(rows, key).contains_key(key(rows[i])),
        table_of(rows, key)[key(rows[i])] == rows[i],
{
    assert(holds(rows, key, key(rows[i])));
    let k = row_of(rows, key, key(rows[i]));
    assert(k == i) by {
        if k < i {
            assert(key(rows[k]) != key(rows[i]));
        } else if i < k {
            assert(key(rows[i]) != key(rows[k]));
        }
    }
}

/// A key that the table holds belongs to one of the rows.
pub proof fn lemma_key_has_row<T>(rows: Seq<T>, key: spec_fn(T) -> u64, k: u64)
    requires
        table_of(rows, key).contains_key(k),
    ensures
        0 <= row_of(rows, key, k) < rows.len(),
        key(rows[row_of(rows, key, k)]) == k,
        table_of(rows, key)[k] == rows[row_of(rows, key, k)],
{
}

/// Appending a row with a new key adds it to the table.
pub proof fn lemma_push_row<T>(rows: Seq<T>, key: spec_fn(T) -> u64, row: T)
    requires
        distinct_keys(rows, key),
        !holds(rows, key, key(row)),
    ensures
        distinct_keys(rows.push(row), key),
        table_of(rows.push(row), key) == table_of(rows, key).insert(key(row), row),
{
    let after = rows.push(row);
    assert forall|i: int, j: int| 0 <= i < j < after.len() implies key(after[i]) != key(
        after[j],
    ) by {
        if j == rows.len() {
            assert(key(rows[i]) == key(after[i]));
        }
    }
    assert forall|k: u64| holds(after, key, k) <==> (holds(rows, key, k) || k == key(row)) by {
        if holds(after, key, k) {
            let at = row_of(after, key, k);
            if at < rows.len() {
                assert(key(rows[at]) == k);
            }
        }
        if holds(rows, key, k) {
            let at = row_of(rows, key, k);
            assert(key(after[at]) == k);
        }
        if k == key(row) {
            assert(key(after[rows.len() as int]) == k);
        }
    }
    assert forall|k: u64| holds(after, key, k) implies #[trigger] table_of(after, key)[k]
        == table_of(rows, key).insert(key(row), row)[k] by {
        let at = row_of(after, key, k);
        lemma_row_recorded(after, key, at);
        if at < rows.len() {
            lemma_row_recorded(rows, key, at);
        }
    }
    assert(table_of(after, key) =~= table_of(rows, key).insert(key(row), row));
}

/// Replacing a row by one with the same key replaces it in the table.
pub proof fn lemma_update_row<T>(rows: Seq<T>, key: spec_fn(T) -> u64, i: int, row: T)
    requires
        distinct_keys(rows, key),
        0 <= i < rows.len(),
        key(rows[i]) == key(row),
    ensures
        distinct_keys(rows.update(i, row), key),
        table_of(rows.update(i, row), key) == table_of(rows, key).insert(key(row), row),
{
    let after = rows.update(i, row);
    assert forall|a: int, b: int| 0 <= a < b < after.len() implies key(after[a]) != key(
        after[b],
    ) by {
        assert(key(after[a]) == key(rows[a]) && key(after[b]) == key(rows[b]));
    }
    assert forall|k: u64| holds(after, key, k) <==> holds(rows, key, k) by {
        if holds(after, key, k) {
            let at = row_of(after, key, k);
            assert(key(rows[at]) == k);
        }
        if holds(rows, key, k) {
            let at = row_of(rows, key, k);
            assert(key(after[at]) == k);
        }
    }
    lemma_row_recorded(rows, key, i);
    assert forall|k: u64| holds(after, key, k) implies #[trigger] table_of(after, key)[k]
        == table_of(rows, key).insert(key(row), row)[k] by {
        let at = row_of(after, key, k);
        lemma_row_recorded(after, key, at);
        lemma_row_recorded(rows, key, at);
    }
    assert(table_of(after, key) =~= table_of(rows, key).insert(key(row), row));
}

/// Taking a row out takes its key out of the table.
pub proof fn lemma_remove_row<T>(rows: Seq<T>, key: spec_fn(T) -> u64, i: int)
    requires
        distinct_keys(rows, key),
        0 <= i < rows.len(),
    ensures
        distinct_keys(rows.remove(i), key),
        table_of(rows.remove(i), key) == table_of(rows, key).remove(key(rows[i])),
{
    let after = rows.remove(i);
    assert forall|a: int, b: int| 0 <= a < b < after.len() implies key(after[a]) != key(
        after[b],
    ) by {
        let a0 = if a < i { a } else { a + 1 };
        let b0 = if b < i { b } else { b + 1 };
        assert(after[a] == rows[a0] && after[b] == rows[b0]);
    }
    lemma_row_recorded(rows, key, i);
    assert forall|k: u64| holds(after, key, k) <==> (holds(rows, key, k) && k != key(rows[i])) by {
        if holds(after, key, k) {
            let at = row_of(after, key, k);
            let at0 = if at < i { at } else { at + 1 };
            assert(after[at] == rows[at0]);
            assert(key(rows[at0]) == k);
            lemma_row_recorded(rows, key, at0);
        }
        if holds(rows, key, k) && k != key(rows[i]) {
            let at = row_of(rows, key, k);
            let at1 = if at < i { at } else { at - 1 };
            assert(after[at1] == rows[at]);
            assert(key(after[at1]) == k);
        }
    }
    assert forall|k: u64| holds(after, key, k) implies #[trigger] table_of(after, key)[k]
        == table_of(rows, key).remove(key(rows[i]))[k] by {
        let at = row_of(after, key, k);
        let at0 = if at < i { at } else { at + 1 };
        assert(after[at] == rows[at0]);
        lemma_row_recorded(after, key, at);
        lemma_row_recorded(rows, key, at0);
    }
    assert(table_of(after, key) =~= table_of(rows, key).remove(key(rows[i])));
}

} // verus!
