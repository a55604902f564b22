//! Sequences of key-value pairs seen as maps.
use vstd::prelude::*;

verus! {

/// No key occurs twice.
pub open spec fn distinct_keys<K, V>(pairs: Seq<(K, V)>) -> bool {
    forall|i: int, j: int|
        0 <= i < pairs.len() && 0 <= j < pairs.len() && #[trigger] pairs[i].0 == #[trigger] pairs[
            j].0 ==> i == j
}

/// The pair at `i` holds `key`.
pub open spec fn at_key<K, V>(pairs: Seq<(K, V)>, key: K, i: int) -> bool {
    0 <= i < pairs.len() && pairs[i].0 == key
}

/// The map that a sequence of pairs with distinct keys stands for.
pub open spec fn pairs_map<K, V>(pairs: Seq<(K, V)>) -> Map<K, V> {
    Map::new(
        |key: K| exists|i: int| at_key(pairs, key, i),
        |key: K| pairs[choose|i: int| at_key(pairs, key, i)].1,
    )
}

/// Each pair stands in the map.
pub proof fn lemma_pair_in_map<K, V>(pairs: Seq<(K, V)>, i: int)
    requires
        distinct_keys(pairs),
        0 <= i < pairs.len(),
    ensures
        pairs_map(pairs).dom().contains(pairs[i].0),
        pairs_map(pairs)[pairs[i].0] == pairs[i].1,
{
    assert(at_key(pairs, pairs[i].0, i));
}

/// The map has finitely many keys.
pub proof fn lemma_pairs_map_finite<K, V>(pairs: Seq<(K, V)>)
    ensures
        pairs_map(pairs).dom().finite(),
{
    let keys = pairs.map_values(|pair: (K, V)| pair.0);
    vstd::seq_lib::seq_to_set_is_finite(keys);
    assert(pairs_map(pairs).dom() =~= keys.to_set()) by {
        assert forall|key: K| pairs_map(pairs).dom().contains(key) implies keys.contains(key) by {
            let i = choose|i: int| at_key(pairs, key, i);
            assert(keys[i] == key);
        }
        assert forall|key: K| keys.contains(key) implies pairs_map(pairs).dom().contains(key) by {
            let i = choose|i: int| 0 <= i < keys.len() && keys[i] == key;
            assert(at_key(pairs, key, i));
        }
    }
}

/// Appending a pair with a new key inserts it.
pub proof fn lemma_pairs_map_push<K, V>(pairs: Seq<(K, V)>, key: K, value: V)
    requires
        distinct_keys(pairs),
        !pairs_map(pairs).dom().contains(key),
    ensures
        distinct_keys(pairs.push((key, value))),
        pairs_map(pairs.push((key, value))) == pairs_map(pairs).insert(key, value),
{
    let longer = pairs.push((key, value));
    assert forall|i: int| 0 <= i < pairs.len() implies pairs[i].0 != key by {
        if pairs[i].0 == key {
            assert(at_key(pairs, key, i));
        }
    }
    assert(distinct_keys(longer));
    assert forall|k: K| #[trigger]
        pairs_map(longer).dom().contains(k) <==> pairs_map(pairs).insert(
            key,
            value,
        ).dom().contains(k) by {
        if pairs_map(longer).dom().contains(k) {
            let i = choose|i: int| at_key(longer, k, i);
            if i < pairs.len() {
                assert(at_key(pairs, k, i));
            }
        }
        if pairs_map(pairs).dom().contains(k) {
            let i = choose|i: int| at_key(pairs, k, i);
            assert(at_key(longer, k, i));
        }
        if k == key {
            assert(at_key(longer, k, pairs.len() as int));
        }
    }
    assert forall|k: K| #[trigger] pairs_map(longer).dom().contains(k) implies pairs_map(longer)[k]
        == pairs_map(pairs).insert(key, value)[k] by {
        let i = choose|i: int| at_key(longer, k, i);
        lemma_pair_in_map(longer, i);
        if i < pairs.len() {
            lemma_pair_in_map(pairs, i);
        }
    }
    assert(pairs_map(longer) =~= pairs_map(pairs).insert(key, value));
}

/// Replacing the value of a pair replaces the value of its key.
pub proof fn lemma_pairs_map_update<K, V>(pairs: Seq<(K, V)>, i: int, value: V)
    requires
        distinct_keys(pairs),
        0 <= i < pairs.len(),
    ensures
        distinct_keys(pairs.update(i, (pairs[i].0, value))),
        pairs_map(pairs.update(i, (pairs[i].0, value))) == pairs_map(pairs).insert(
            pairs[i].0,
            value,
        ),
{
    let key = pairs[i].0;
    let changed = pairs.update(i, (key, value));
    assert forall|j: int| 0 <= j < pairs.len() implies changed[j].0 == pairs[j].0 by {}
    assert(distinct_keys(changed));
    assert forall|k: K| #[trigger]
        pairs_map(changed).dom().contains(k) <==> pairs_map(pairs).insert(
            key,
            value,
        ).dom().contains(k) by {
        if pairs_map(changed).dom().contains(k) {
            let j = choose|j: int| at_key(changed, k, j);
            assert(at_key(pairs, k, j));
        }
        if pairs_map(pairs).dom().contains(k) {
            let j = choose|j: int| at_key(pairs, k, j);
            assert(at_key(changed, k, j));
        }
        if k == key {
            assert(at_key(changed, k, i));
        }
    }
    assert forall|k: K| #[trigger]
        pairs_map(changed).dom().contains(k) implies pairs_map(changed)[k] == pairs_map(
        pairs,
    ).insert(key, value)[k] by {
        let j = choose|j: int| at_key(changed, k, j);
        lemma_pair_in_map(changed, j);
        lemma_pair_in_map(pairs, j);
    }
    assert(pairs_map(changed) =~= pairs_map(pairs).insert(key, value));
}

/// Removing a pair removes its key.
pub proof fn lemma_pairs_map_remove<K, V>(pairs: Seq<(K, V)>, i: int)
    requires
        distinct_keys(pairs),
        0 <= i < pairs.len(),
    ensures
        distinct_keys(pairs.remove(i)),
        pairs_map(pairs.remove(i)) == pairs_map(pairs).remove(pairs[i].0),
{
    let key = pairs[i].0;
    let fewer = pairs.remove(i);
    assert forall|j: int| 0 <= j < fewer.len() implies fewer[j] == pairs[if j < i {
        j
    } else {
        j + 1
    }] by {}
    assert(distinct_keys(fewer));
    assert forall|k: K| #[trigger]
        pairs_map(fewer).dom().contains(k) <==> pairs_map(pairs).remove(key).dom().contains(
            k,
        ) by {
        if pairs_map(fewer).dom().contains(k) {
            let j = choose|j: int| at_key(fewer, k, j);
            let from = if j < i {
                j
            } else {
                j + 1
            };
            assert(at_key(pairs, k, from));
        }
        if pairs_map(pairs).dom().contains(k) && k != key {
            let j = choose|j: int| at_key(pairs, k, j);
            let to = if j < i {
                j
            } else {
                j - 1
            };
            assert(at_key(fewer, k, to));
        }
    }
    assert forall|k: K| #[trigger] pairs_map(fewer).dom().contains(k) implies pairs_map(fewer)[k]
        == pairs_map(pairs).remove(key)[k] by {
        let j = choose|j: int| at_key(fewer, k, j);
        lemma_pair_in_map(fewer, j);
        lemma_pair_in_map(
            pairs,
            if j < i {
                j
            } else {
                j + 1
            },
        );
    }
    assert(pairs_map(fewer) =~= pairs_map(pairs).remove(key));
}

} // verus!
