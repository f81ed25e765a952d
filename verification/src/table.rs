//! Rows kept in a vector in the order of their identifiers, seen as a map
//! from identifier to row.

use vstd::prelude::*;

verus! {

/// Every key is smaller than the ones after it.
pub open spec fn increasing(keys: Seq<u128>) -> bool {
    forall|i: int, j: int| 0 <= i < j < keys.len() ==> keys[i] < keys[j]
}

/// A place at which `key` stands.
pub open spec fn index_of(keys: Seq<u128>, key: u128) -> int {
    choose|i: int| 0 <= i < keys.len() && keys[i] == key
}

/// The map that files each row under the key at its place.
pub open spec fn table<V>(keys: Seq<u128>, rows: Seq<V>) -> Map<u128, V> {
    Map::new(|k: u128| keys.contains(k), |k: u128| rows[index_of(keys, k)])
}

/// The row at a place is the row filed under the key at that place.
pub proof fn lemma_table_at<V>(keys: Seq<u128>, rows: Seq<V>, i: int)
    requires
        increasing(keys),
        keys.len() == rows.len(),
        0 <= i < keys.len(),
    ensures
        table(keys, rows).contains_key(keys[i]),
        table(keys, rows)[keys[i]] == rows[i],
        index_of(keys, keys[i]) == i,
{
    assert(keys.contains(keys[i]));
    let j = index_of(keys, keys[i]);
    assert(0 <= j < keys.len() && keys[j] == keys[i]);
    if j < i {
        assert(keys[j] < keys[i]);
    } else if i < j {
        assert(keys[i] < keys[j]);
    }
}

/// A key that is filed stands at its place.
pub proof fn lemma_table_key<V>(keys: Seq<u128>, rows: Seq<V>, key: u128)
    requires
        table(keys, rows).contains_key(key),
    ensures
        0 <= index_of(keys, key) < keys.len(),
        keys[index_of(keys, key)] == key,
{
    assert(keys.contains(key));
}

/// Appending a row under a key above all others files it.
pub proof fn lemma_table_push<V>(keys: Seq<u128>, rows: Seq<V>, key: u128, row: V)
    requires
        increasing(keys),
        keys.len() == rows.len(),
        forall|i: int| 0 <= i < keys.len() ==> keys[i] < key,
    ensures
        increasing(keys.push(key)),
        table(keys.push(key), rows.push(row)) == table(keys, rows).insert(key, row),
{
    let keys2 = keys.push(key);
    let rows2 = rows.push(row);
    assert(increasing(keys2));
    assert forall|k: u128| keys2.contains(k) == (keys.contains(k) || k == key) by {
        if keys.contains(k) {
            let i = index_of(keys, k);
            assert(keys2[i] == k);
        }
        assert(keys2[keys.len() as int] == key);
    }
    assert forall|k: u128| #[trigger] keys2.contains(k) implies table(keys2, rows2)[k] == table(
        keys,
        rows,
    ).insert(key, row)[k] by {
        let i = index_of(keys2, k);
        lemma_table_at(keys2, rows2, i);
        if k != key {
            lemma_table_at(keys, rows, i);
        }
    }
    assert(table(keys2, rows2) =~= table(keys, rows).insert(key, row));
}

/// Writing a row over the one at a place files it under the key there.
pub proof fn lemma_table_update<V>(keys: Seq<u128>, rows: Seq<V>, i: int, row: V)
    requires
        increasing(keys),
        keys.len() == rows.len(),
        0 <= i < keys.len(),
    ensures
        table(keys, rows.update(i, row)) == table(keys, rows).insert(keys[i], row),
{
    let rows2 = rows.update(i, row);
    assert(keys.contains(keys[i]));
    assert forall|k: u128| #[trigger] keys.contains(k) implies table(keys, rows2)[k] == table(
        keys,
        rows,
    ).insert(keys[i], row)[k] by {
        let j = index_of(keys, k);
        lemma_table_at(keys, rows, j);
        lemma_table_at(keys, rows2, j);
        lemma_table_at(keys, rows, i);
    }
    assert(table(keys, rows2) =~= table(keys, rows).insert(keys[i], row));
}

/// Taking out the row at a place takes out what is filed under the key
/// there.
pub proof fn lemma_table_remove<V>(keys: Seq<u128>, rows: Seq<V>, i: int)
    requires
        increasing(keys),
        keys.len() == rows.len(),
        0 <= i < keys.len(),
    ensures
        increasing(keys.remove(i)),
        table(keys.remove(i), rows.remove(i)) == table(keys, rows).remove(keys[i]),
{
    let keys2 = keys.remove(i);
    let rows2 = rows.remove(i);
    assert(increasing(keys2)) by {
        assert forall|a: int, b: int| 0 <= a < b < keys2.len() implies keys2[a] < keys2[b] by {
            let a0 = if a < i {
                a
            } else {
                a + 1
            };
            let b0 = if b < i {
                b
            } else {
                b + 1
            };
            assert(keys2[a] == keys[a0] && keys2[b] == keys[b0]);
        }
    }
    assert forall|k: u128| keys2.contains(k) == (keys.contains(k) && k != keys[i]) by {
        if keys2.contains(k) {
            let j = index_of(keys2, k);
            let j0 = if j < i {
                j
            } else {
                j + 1
            };
            assert(keys[j0] == k);
            if j0 < i {
                assert(keys[j0] < keys[i]);
            } else {
                assert(keys[i] < keys[j0]);
            }
        }
        if keys.contains(k) && k != keys[i] {
            let j = index_of(keys, k);
            let j2 = if j < i {
                j
            } else {
                j - 1
            };
            assert(keys2[j2] == k);
        }
    }
    assert forall|k: u128| #[trigger] keys2.contains(k) implies table(keys2, rows2)[k] == table(
        keys,
        rows,
    ).remove(keys[i])[k] by {
        let j = index_of(keys2, k);
        lemma_table_at(keys2, rows2, j);
        let j0 = if j < i {
            j
        } else {
            j + 1
        };
        lemma_table_at(keys, rows, j0);
    }
    assert(table(keys2, rows2) =~= table(keys, rows).remove(keys[i]));
}

} // verus!
