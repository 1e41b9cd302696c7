//! Association lists viewed as maps.
//!
//! Both registries of the service store their entries in a vector and are
//! specified as a `Map` from key to value. This module gives that view: a
//! sequence of key/value pairs with pairwise-distinct keys denotes the map
//! that binds each key of the sequence to its value.

use vstd::prelude::*;

verus! {

/// The map denoted by a sequence of key/value pairs: each key of the
/// sequence is bound to its value, later pairs taking precedence (the
/// registries keep keys distinct, so precedence never matters there).
pub open spec fn map_of<K, V>(entries: Seq<(K, V)>) -> Map<K, V>
    decreases entries.len(),
{
    if entries.len() == 0 {
        Map::empty()
    } else {
        map_of(entries.drop_last()).insert(entries.last().0, entries.last().1)
    }
}

/// All keys of the sequence are pairwise distinct.
pub open spec fn unique_keys<K, V>(entries: Seq<(K, V)>) -> bool {
    forall|i: int, j: int|
        0 <= i < j < entries.len() ==> entries[i].0 != entries[j].0
}

/// A key is in the map exactly when some pair of the sequence carries it.
pub proof fn lemma_map_of_contains<K, V>(entries: Seq<(K, V)>, k: K)
    ensures
        map_of(entries).contains_key(k) <==> exists|i: int|
            0 <= i < entries.len() && entries[i].0 == k,
    decreases entries.len(),
{
    if entries.len() > 0 {
        lemma_map_of_contains(entries.drop_last(), k);
        if map_of(entries).contains_key(k) {
            if entries.last().0 != k {
                let i = choose|i: int|
                    0 <= i < entries.drop_last().len() && entries.drop_last()[i].0 == k;
                assert(entries[i].0 == k);
            }
        }
        if exists|i: int| 0 <= i < entries.len() && entries[i].0 == k {
            let i = choose|i: int| 0 <= i < entries.len() && entries[i].0 == k;
            if i < entries.len() - 1 {
                assert(entries.drop_last()[i].0 == k);
            }
        }
    }
}

/// With distinct keys, the map binds the key of each pair to that pair's
/// value.
pub proof fn lemma_map_of_index<K, V>(entries: Seq<(K, V)>, i: int)
    requires
        unique_keys(entries),
        0 <= i < entries.len(),
    ensures
        map_of(entries).contains_key(entries[i].0),
        map_of(entries)[entries[i].0] == entries[i].1,
    decreases entries.len(),
{
    if i < entries.len() - 1 {
        assert(unique_keys(entries.drop_last())) by {
            assert(forall|p: int, q: int|
                0 <= p < q < entries.drop_last().len() ==> entries.drop_last()[p]
                    == entries[p] && entries.drop_last()[q] == entries[q]);
        }
        assert(entries.drop_last()[i] == entries[i]);
        lemma_map_of_index(entries.drop_last(), i);
        assert(entries.last().0 != entries[i].0);
    }
}

/// Appending a pair with a fresh key inserts that binding.
pub proof fn lemma_map_of_push<K, V>(entries: Seq<(K, V)>, k: K, v: V)
    ensures
        map_of(entries.push((k, v))) == map_of(entries).insert(k, v),
{
    assert(entries.push((k, v)).drop_last() =~= entries);
    assert(entries.push((k, v)).last() == (k, v));
}

/// Replacing the pair at one position by a pair with the same key updates
/// that key's binding and no other.
pub proof fn lemma_map_of_update<K, V>(entries: Seq<(K, V)>, i: int, v: V)
    requires
        unique_keys(entries),
        0 <= i < entries.len(),
    ensures
        map_of(entries.update(i, (entries[i].0, v))) == map_of(entries).insert(entries[i].0, v),
    decreases entries.len(),
{
    let k = entries[i].0;
    let upd = entries.update(i, (k, v));
    if i == entries.len() - 1 {
        assert(upd.drop_last() =~= entries.drop_last());
        assert(upd.last() == (k, v));
        assert(map_of(entries.drop_last()).insert(k, v) =~= map_of(entries).insert(k, v));
    } else {
        assert(unique_keys(entries.drop_last())) by {
            assert(forall|p: int, q: int|
                0 <= p < q < entries.drop_last().len() ==> entries.drop_last()[p]
                    == entries[p] && entries.drop_last()[q] == entries[q]);
        }
        assert(entries.drop_last()[i] == entries[i]);
        lemma_map_of_update(entries.drop_last(), i, v);
        assert(upd.drop_last() =~= entries.drop_last().update(i, (k, v)));
        assert(upd.last() == entries.last());
        assert(entries.last().0 != k);
        assert(map_of(entries.drop_last()).insert(k, v).insert(entries.last().0, entries.last().1)
            =~= map_of(entries).insert(k, v));
    }
}

/// Removing the pair at one position removes that key's binding and no
/// other.
pub proof fn lemma_map_of_remove<K, V>(entries: Seq<(K, V)>, i: int)
    requires
        unique_keys(entries),
        0 <= i < entries.len(),
    ensures
        map_of(entries.remove(i)) == map_of(entries).remove(entries[i].0),
    decreases entries.len(),
{
    let k = entries[i].0;
    let rem = entries.remove(i);
    if i == entries.len() - 1 {
        assert(rem =~= entries.drop_last());
        lemma_map_of_contains(entries.drop_last(), k);
        assert(forall|j: int|
            0 <= j < entries.drop_last().len() ==> entries.drop_last()[j] == entries[j]);
        assert(!map_of(entries.drop_last()).contains_key(k));
        assert(map_of(entries.drop_last()) =~= map_of(entries).remove(k));
    } else {
        assert(unique_keys(entries.drop_last())) by {
            assert(forall|p: int, q: int|
                0 <= p < q < entries.drop_last().len() ==> entries.drop_last()[p]
                    == entries[p] && entries.drop_last()[q] == entries[q]);
        }
        assert(entries.drop_last()[i] == entries[i]);
        lemma_map_of_remove(entries.drop_last(), i);
        assert(rem.drop_last() =~= entries.drop_last().remove(i));
        assert(rem.last() == entries.last());
        assert(entries.last().0 != k);
        assert(map_of(entries.drop_last()).remove(k).insert(entries.last().0, entries.last().1)
            =~= map_of(entries).remove(k));
    }
}

} // verus!
