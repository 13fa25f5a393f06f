//! Sequences of key-value pairs, and the maps that they stand for.

use vstd::prelude::*;

verus! {

/// Whether no key occurs twice.
pub open spec fn distinct_keys<K, V>(entries: Seq<(K, V)>) -> bool {
    forall|i: int, j: int|
        0 <= i < entries.len() && 0 <= j < entries.len() && i != j
            ==> (#[trigger] entries[i]).0 != (#[trigger] entries[j]).0
}

/// Whether some entry has the given key.
pub open spec fn has_key<K, V>(entries: Seq<(K, V)>, key: K) -> bool {
    exists|i: int| 0 <= i < entries.len() && (#[trigger] entries[i]).0 == key
}

/// The position of an entry with the given key.
pub open spec fn key_index<K, V>(entries: Seq<(K, V)>, key: K) -> int {
    choose|i: int| 0 <= i < entries.len() && (#[trigger] entries[i]).0 == key
}

/// The value under the given key.
pub open spec fn value_of<K, V>(entries: Seq<(K, V)>, key: K) -> Option<V> {
    if has_key(entries, key) {
        Some(entries[key_index(entries, key)].1)
    } else {
        None
    }
}

/// The entries after a value is stored under a key: in the place of the former value, or
/// last.
pub open spec fn stored<K, V>(entries: Seq<(K, V)>, key: K, value: V) -> Seq<(K, V)> {
    if has_key(entries, key) {
        entries.update(key_index(entries, key), (key, value))
    } else {
        entries.push((key, value))
    }
}

/// The entries after a key is removed.
pub open spec fn dropped<K, V>(entries: Seq<(K, V)>, key: K) -> Seq<(K, V)> {
    if has_key(entries, key) {
        entries.remove(key_index(entries, key))
    } else {
        entries
    }
}

/// Where no key occurs twice, an entry's position is that of its key.
pub proof fn lemma_key_index<K, V>(entries: Seq<(K, V)>, i: int)
    requires
        distinct_keys(entries),
        0 <= i < entries.len(),
    ensures
        has_key(entries, entries[i].0),
        key_index(entries, entries[i].0) == i,
        value_of(entries, entries[i].0) == Some(entries[i].1),
{
    let j = key_index(entries, entries[i].0);
    assert(entries[i].0 == entries[i].0);
    assert(0 <= j < entries.len() && entries[j].0 == entries[i].0);
}

/// A value stored under a key is what is found there; what is under other keys stays, and
/// no key comes to occur twice.
pub proof fn lemma_stored<K, V>(entries: Seq<(K, V)>, key: K, value: V)
    requires
        distinct_keys(entries),
    ensures
        distinct_keys(stored(entries, key, value)),
        forall|k: K| has_key(stored(entries, key, value), k) <==> k == key || has_key(entries, k),
        value_of(stored(entries, key, value), key) == Some(value),
        forall|k: K|
            k != key ==> #[trigger] value_of(stored(entries, key, value), k) == value_of(
                entries,
                k,
            ),
        forall|k: K|
            k != key && has_key(entries, k) ==> #[trigger] key_index(
                stored(entries, key, value),
                k,
            ) == key_index(entries, k),
{
    let next = stored(entries, key, value);
    let at = if has_key(entries, key) {
        key_index(entries, key)
    } else {
        entries.len() as int
    };
    assert(next[at] == (key, value));
    assert forall|i: int, j: int| 0 <= i < next.len() && 0 <= j < next.len() && i != j implies (
    #[trigger] next[i]).0 != (#[trigger] next[j]).0 by {
        if i < entries.len() && j < entries.len() {
            assert(entries[i].0 != entries[j].0);
        } else if i < entries.len() {
            assert(entries[i].0 != key);
        } else {
            assert(entries[j].0 != key);
        }
    }
    lemma_key_index(next, at);
    assert forall|k: K| has_key(next, k) <==> k == key || has_key(entries, k) by {
        if k != key && has_key(entries, k) {
            let i = key_index(entries, k);
            assert(next[i] == entries[i]);
        }
        if k != key && has_key(next, k) {
            let i = key_index(next, k);
            assert(next[i] == entries[i]);
        }
    }
    assert forall|k: K| k != key && has_key(entries, k) implies #[trigger] key_index(next, k)
        == key_index(entries, k) by {
        let i = key_index(entries, k);
        assert(next[i] == entries[i]);
        lemma_key_index(next, i);
    }
    assert forall|k: K| k != key implies #[trigger] value_of(next, k) == value_of(entries, k) by {
        if has_key(entries, k) {
            let i = key_index(entries, k);
            assert(next[i] == entries[i]);
            lemma_key_index(next, i);
        } else {
            assert(!has_key(next, k));
        }
    }
}

/// A key that is removed is no longer found; what is under other keys stays.
pub proof fn lemma_dropped<K, V>(entries: Seq<(K, V)>, key: K)
    requires
        distinct_keys(entries),
    ensures
        distinct_keys(dropped(entries, key)),
        forall|k: K| has_key(dropped(entries, key), k) <==> k != key && has_key(entries, k),
        forall|k: K|
            k != key ==> #[trigger] value_of(dropped(entries, key), k) == value_of(entries, k),
{
    let next = dropped(entries, key);
    if has_key(entries, key) {
        let at = key_index(entries, key);
        assert forall|i: int| 0 <= i < next.len() implies #[trigger] next[i] == entries[if i < at {
            i
        } else {
            i + 1
        }] by {}
        assert forall|i: int, j: int|
            0 <= i < next.len() && 0 <= j < next.len() && i != j implies (#[trigger] next[i]).0
            != (#[trigger] next[j]).0 by {
            let i2 = if i < at {
                i
            } else {
                i + 1
            };
            let j2 = if j < at {
                j
            } else {
                j + 1
            };
            assert(entries[i2].0 != entries[j2].0);
        }
        assert forall|k: K| has_key(next, k) implies k != key && has_key(entries, k) by {
            let i = key_index(next, k);
            let i2 = if i < at {
                i
            } else {
                i + 1
            };
            assert(next[i] == entries[i2]);
            assert(entries[i2].0 != entries[at].0);
        }
        assert forall|k: K| k != key && has_key(entries, k) implies has_key(next, k) && value_of(
            next,
            k,
        ) == value_of(entries, k) by {
            let i = key_index(entries, k);
            let i2 = if i < at {
                i
            } else {
                i - 1
            };
            assert(next[i2] == entries[i]);
            lemma_key_index(next, i2);
        }
    }
}

/// Mapping the values keeps the keys where they are.
pub proof fn lemma_map_values<K, V, W>(entries: Seq<(K, V)>, f: spec_fn((K, V)) -> (K, W))
    requires
        forall|e: (K, V)| (#[trigger] f(e)).0 == e.0,
    ensures
        distinct_keys(entries) ==> distinct_keys(entries.map_values(f)),
        forall|k: K| #[trigger] has_key(entries.map_values(f), k) == has_key(entries, k),
        forall|k: K|
            distinct_keys(entries) && has_key(entries, k) ==> #[trigger] key_index(
                entries.map_values(f),
                k,
            ) == key_index(entries, k),
{
    let mapped = entries.map_values(f);
    assert forall|i: int| 0 <= i < mapped.len() implies (#[trigger] mapped[i]).0 == entries[i].0 by {
        assert(f(entries[i]).0 == entries[i].0);
    }
    if distinct_keys(entries) {
        assert forall|i: int, j: int|
            0 <= i < mapped.len() && 0 <= j < mapped.len() && i != j implies (#[trigger] mapped[i]).0
            != (#[trigger] mapped[j]).0 by {
            assert(entries[i].0 != entries[j].0);
        }
    }
    assert forall|k: K| #[trigger] has_key(mapped, k) == has_key(entries, k) by {
        if has_key(entries, k) {
            assert(mapped[key_index(entries, k)].0 == k);
        }
        if has_key(mapped, k) {
            assert(entries[key_index(mapped, k)].0 == k);
        }
    }
    assert forall|k: K| distinct_keys(entries) && has_key(entries, k) implies #[trigger] key_index(
        mapped,
        k,
    ) == key_index(entries, k) by {
        let i = key_index(entries, k);
        assert(mapped[i].0 == k);
        lemma_key_index(mapped, i);
    }
}

} // verus!
