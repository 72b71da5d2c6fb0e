//! Association lists: a sequence of key-value pairs with distinct keys, read
//! as a finite map. The registry keeps its maps with string keys in this form.

use vstd::prelude::*;

verus! {

/// No key occurs twice in `pairs`.
pub open spec fn keys_distinct<K, V>(pairs: Seq<(K, V)>) -> bool {
    forall|i: int, j: int|
        0 <= i < j < pairs.len() ==> (#[trigger] pairs[i]).0 != (#[trigger] pairs[j]).0
}

/// Some pair of `pairs` has the key `key`.
pub open spec fn has_key<K, V>(pairs: Seq<(K, V)>, key: K) -> bool {
    exists|i: int| 0 <= i < pairs.len() && (#[trigger] pairs[i]).0 == key
}

/// A position at which `key` stands in `pairs`, where there is one.
pub open spec fn index_of<K, V>(pairs: Seq<(K, V)>, key: K) -> int {
    choose|i: int| 0 <= i < pairs.len() && (#[trigger] pairs[i]).0 == key
}

/// The map that `pairs` stands for.
pub open spec fn as_map<K, V>(pairs: Seq<(K, V)>) -> Map<K, V> {
    Map::new(|key: K| has_key(pairs, key), |key: K| pairs[index_of(pairs, key)].1)
}

/// With distinct keys, the pair at position `i` is what the map holds for
/// its key.
pub proof fn lemma_as_map_at<K, V>(pairs: Seq<(K, V)>, i: int)
    requires
        keys_distinct(pairs),
        0 <= i < pairs.len(),
    ensures
        as_map(pairs).contains_key(pairs[i].0),
        as_map(pairs)[pairs[i].0] == pairs[i].1,
        index_of(pairs, pairs[i].0) == i,
{
    let key = pairs[i].0;
    assert(has_key(pairs, key));
    let j = index_of(pairs, key);
    assert(0 <= j < pairs.len() && pairs[j].0 == key);
    if j < i {
        assert(pairs[j].0 != pairs[i].0);
    } else if i < j {
        assert(pairs[i].0 != pairs[j].0);
    }
}

/// A map made of no pairs is empty.
pub proof fn lemma_as_map_empty<K, V>(pairs: Seq<(K, V)>)
    requires
        pairs.len() == 0,
    ensures
        as_map(pairs) =~= Map::<K, V>::empty(),
        keys_distinct(pairs),
{
}

/// Appending a pair with a new key inserts it into the map.
pub proof fn lemma_as_map_push<K, V>(pairs: Seq<(K, V)>, key: K, value: V)
    requires
        keys_distinct(pairs),
        !has_key(pairs, key),
    ensures
        keys_distinct(pairs.push((key, value))),
        as_map(pairs.push((key, value))) =~= as_map(pairs).insert(key, value),
{
    let after = pairs.push((key, value));
    assert forall|i: int, j: int| 0 <= i < j < after.len() implies (#[trigger] after[i]).0 != (
    #[trigger] after[j]).0 by {
        assert(after[i] == pairs[i]);
        if j < pairs.len() {
            assert(after[j] == pairs[j]);
        }
    }
    assert forall|k: K| #[trigger] as_map(after).contains_key(k) <==> as_map(pairs).insert(
        key,
        value,
    ).contains_key(k) by {
        if has_key(after, k) {
            let i = index_of(after, k);
            if i < pairs.len() {
                assert(pairs[i].0 == k);
            }
        }
        if has_key(pairs, k) {
            let i = index_of(pairs, k);
            assert(after[i].0 == k);
        }
        if k == key {
            assert(after[pairs.len() as int].0 == k);
        }
    }
    assert forall|k: K| #[trigger] as_map(after).contains_key(k) implies as_map(after)[k]
        == as_map(pairs).insert(key, value)[k] by {
        let i = index_of(after, k);
        lemma_as_map_at(after, i);
        if i < pairs.len() {
            assert(after[i] == pairs[i]);
            lemma_as_map_at(pairs, i);
        }
    }
}

/// Replacing the value at position `i` replaces it in the map.
pub proof fn lemma_as_map_update<K, V>(pairs: Seq<(K, V)>, i: int, value: V)
    requires
        keys_distinct(pairs),
        0 <= i < pairs.len(),
    ensures
        keys_distinct(pairs.update(i, (pairs[i].0, value))),
        as_map(pairs.update(i, (pairs[i].0, value))) =~= as_map(pairs).insert(pairs[i].0, value),
{
    let key = pairs[i].0;
    let after = pairs.update(i, (key, value));
    assert forall|a: int, b: int| 0 <= a < b < after.len() implies (#[trigger] after[a]).0 != (
    #[trigger] after[b]).0 by {
        assert(after[a].0 == pairs[a].0);
        assert(after[b].0 == pairs[b].0);
    }
    assert forall|k: K| #[trigger] as_map(after).contains_key(k) <==> as_map(pairs).insert(
        key,
        value,
    ).contains_key(k) by {
        if has_key(after, k) {
            let j = index_of(after, k);
            assert(pairs[j].0 == k);
        }
        if has_key(pairs, k) {
            let j = index_of(pairs, k);
            assert(after[j].0 == k);
        }
        if k == key {
            assert(after[i].0 == k);
        }
    }
    assert forall|k: K| #[trigger] as_map(after).contains_key(k) implies as_map(after)[k]
        == as_map(pairs).insert(key, value)[k] by {
        let j = index_of(after, k);
        lemma_as_map_at(after, j);
        if j != i {
            assert(after[j] == pairs[j]);
            lemma_as_map_at(pairs, j);
        }
    }
}

/// Two lists with the same keys at the same positions stand for maps with the
/// same keys, and each holds at a key what its list holds at that position.
pub proof fn lemma_as_map_same_keys<K, V>(before: Seq<(K, V)>, after: Seq<(K, V)>)
    requires
        keys_distinct(before),
        before.len() == after.len(),
        forall|i: int| 0 <= i < before.len() ==> (#[trigger] after[i]).0 == before[i].0,
    ensures
        keys_distinct(after),
        as_map(after).dom() =~= as_map(before).dom(),
        forall|key: K| #[trigger]
            as_map(before).contains_key(key) ==> {
                let i = index_of(before, key);
                &&& 0 <= i < before.len()
                &&& before[i].0 == key
                &&& as_map(before)[key] == before[i].1
                &&& as_map(after)[key] == after[i].1
            },
{
    assert forall|a: int, b: int| 0 <= a < b < after.len() implies (#[trigger] after[a]).0 != (
    #[trigger] after[b]).0 by {
        assert(before[a].0 != before[b].0);
    }
    assert forall|key: K| as_map(after).contains_key(key) <==> as_map(before).contains_key(
        key,
    ) by {
        if has_key(after, key) {
            let i = index_of(after, key);
            assert(before[i].0 == key);
        }
        if has_key(before, key) {
            let i = index_of(before, key);
            assert(after[i].0 == key);
        }
    }
    assert forall|key: K| #[trigger] as_map(before).contains_key(key) implies {
        let i = index_of(before, key);
        &&& 0 <= i < before.len()
        &&& before[i].0 == key
        &&& as_map(before)[key] == before[i].1
        &&& as_map(after)[key] == after[i].1
    } by {
        let i = index_of(before, key);
        assert(after[i].0 == key);
        lemma_as_map_at(after, i);
    }
}

/// Taking the pair at position `i` out removes its key from the map.
pub proof fn lemma_as_map_remove<K, V>(pairs: Seq<(K, V)>, i: int)
    requires
        keys_distinct(pairs),
        0 <= i < pairs.len(),
    ensures
        keys_distinct(pairs.remove(i)),
        as_map(pairs.remove(i)) =~= as_map(pairs).remove(pairs[i].0),
{
    let key = pairs[i].0;
    let after = pairs.remove(i);
    assert forall|a: int, b: int| 0 <= a < b < after.len() implies (#[trigger] after[a]).0 != (
    #[trigger] after[b]).0 by {
        let a0 = if a < i { a } else { a + 1 };
        let b0 = if b < i { b } else { b + 1 };
        assert(after[a] == pairs[a0]);
        assert(after[b] == pairs[b0]);
    }
    assert forall|k: K| #[trigger] as_map(after).contains_key(k) <==> as_map(pairs).remove(
        key,
    ).contains_key(k) by {
        if has_key(after, k) {
            let j = index_of(after, k);
            let j0 = if j < i { j } else { j + 1 };
            assert(after[j] == pairs[j0]);
            assert(pairs[j0].0 == k);
            if j0 < i {
                assert(pairs[j0].0 != pairs[i].0);
            } else {
                assert(pairs[i].0 != pairs[j0].0);
            }
        }
        if has_key(pairs, k) && k != key {
            let j = index_of(pairs, k);
            let j1 = if j < i { j } else { j - 1 };
            assert(after[j1] == pairs[j]);
            assert(after[j1].0 == k);
        }
    }
    assert forall|k: K| #[trigger] as_map(after).contains_key(k) implies as_map(after)[k]
        == as_map(pairs).remove(key)[k] by {
        let j = index_of(after, k);
        lemma_as_map_at(after, j);
        let j0 = if j < i { j } else { j + 1 };
        assert(after[j] == pairs[j0]);
        lemma_as_map_at(pairs, j0);
    }
}

} // verus!
