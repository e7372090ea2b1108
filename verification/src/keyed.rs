//! Lists of pairs of a key and a value, read as maps.
//!
//! The registry of writes and the tally of errors are both kept as a list in
//! which no key stands twice. What is proved here of such lists serves both.

use vstd::prelude::*;

verus! {

/// `pairs[i]` is the pair of `key`.
pub open spec fn holds_at<K, V>(pairs: Seq<(K, V)>, key: K, i: int) -> bool {
    0 <= i < pairs.len() && pairs[i].0 == key
}

/// No key stands twice.
pub open spec fn keys_distinct<K, V>(pairs: Seq<(K, V)>) -> bool {
    forall|i: int, j: int| 0 <= i < j < pairs.len() ==> pairs[i].0 != pairs[j].0
}

/// The map from each key of the list to the value it stands with.
pub open spec fn as_map<K, V>(pairs: Seq<(K, V)>) -> Map<K, V> {
    Map::new(
        |key: K| exists|i: int| holds_at(pairs, key, i),
        |key: K| pairs[choose|i: int| holds_at(pairs, key, i)].1,
    )
}

/// Each pair of the list is in the map.
pub proof fn lemma_found<K, V>(pairs: Seq<(K, V)>, i: int)
    requires
        keys_distinct(pairs),
        0 <= i < pairs.len(),
    ensures
        as_map(pairs).contains_key(pairs[i].0),
        as_map(pairs)[pairs[i].0] == pairs[i].1,
{
    let key = pairs[i].0;
    assert(holds_at(pairs, key, i));
    let k = choose|k: int| holds_at(pairs, key, k);
    if k < i {
        assert(pairs[k].0 != pairs[i].0);
    } else if i < k {
        assert(pairs[i].0 != pairs[k].0);
    }
}

/// A key that no pair holds is not in the map.
pub proof fn lemma_absent<K, V>(pairs: Seq<(K, V)>, key: K)
    requires
        forall|i: int| 0 <= i < pairs.len() ==> !holds_at(pairs, key, i),
    ensures
        !as_map(pairs).contains_key(key),
{
}

/// A pair with a new key, put last, is an insertion into the map.
pub proof fn lemma_added<K, V>(pairs: Seq<(K, V)>, pair: (K, V))
    requires
        keys_distinct(pairs),
        !as_map(pairs).contains_key(pair.0),
    ensures
        keys_distinct(pairs.push(pair)),
        as_map(pairs.push(pair)) == as_map(pairs).insert(pair.0, pair.1),
{
    let more = pairs.push(pair);
    assert forall|i: int, j: int| 0 <= i < j < more.len() implies more[i].0 != more[j].0 by {
        if j == pairs.len() {
            assert(!holds_at(pairs, pair.0, i));
        }
    }
    assert forall|key: K| #[trigger]
        as_map(more).contains_key(key) <==> as_map(pairs).insert(pair.0, pair.1).contains_key(
            key,
        ) by {
        if as_map(more).contains_key(key) {
            let i = choose|i: int| holds_at(more, key, i);
            if i < pairs.len() {
                assert(holds_at(pairs, key, i));
            }
        }
        if as_map(pairs).contains_key(key) {
            let i = choose|i: int| holds_at(pairs, key, i);
            assert(holds_at(more, key, i));
        }
        if key == pair.0 {
            assert(holds_at(more, key, pairs.len() as int));
        }
    }
    assert forall|key: K| #[trigger] as_map(more).contains_key(key) implies as_map(more)[key]
        == as_map(pairs).insert(pair.0, pair.1)[key] by {
        let i = choose|i: int| holds_at(more, key, i);
        lemma_found(more, i);
        if i < pairs.len() {
            assert(more[i] == pairs[i]);
            lemma_found(pairs, i);
        }
    }
    assert(as_map(more) =~= as_map(pairs).insert(pair.0, pair.1));
}

/// A new value for the key of a pair is an insertion into the map.
pub proof fn lemma_replaced<K, V>(pairs: Seq<(K, V)>, i: int, value: V)
    requires
        keys_distinct(pairs),
        0 <= i < pairs.len(),
    ensures
        keys_distinct(pairs.update(i, (pairs[i].0, value))),
        as_map(pairs.update(i, (pairs[i].0, value))) == as_map(pairs).insert(pairs[i].0, value),
{
    let key = pairs[i].0;
    let changed = pairs.update(i, (key, value));
    assert forall|k: K| #[trigger]
        as_map(changed).contains_key(k) <==> as_map(pairs).insert(key, value).contains_key(
            k,
        ) by {
        if as_map(changed).contains_key(k) {
            let j = choose|j: int| holds_at(changed, k, j);
            assert(holds_at(pairs, k, j));
        }
        if as_map(pairs).contains_key(k) {
            let j = choose|j: int| holds_at(pairs, k, j);
            assert(holds_at(changed, k, j));
        }
        if k == key {
            assert(holds_at(changed, k, i));
        }
    }
    assert forall|k: K| #[trigger] as_map(changed).contains_key(k) implies as_map(changed)[k]
        == as_map(pairs).insert(key, value)[k] by {
        let j = choose|j: int| holds_at(changed, k, j);
        lemma_found(changed, j);
        if j != i {
            assert(changed[j] == pairs[j]);
            lemma_found(pairs, j);
        }
    }
    assert(as_map(changed) =~= as_map(pairs).insert(key, value));
}

/// A pair taken out of the list is a removal from the map.
pub proof fn lemma_removed<K, V>(pairs: Seq<(K, V)>, i: int)
    requires
        keys_distinct(pairs),
        0 <= i < pairs.len(),
    ensures
        keys_distinct(pairs.remove(i)),
        as_map(pairs.remove(i)) == as_map(pairs).remove(pairs[i].0),
{
    let rest = pairs.remove(i);
    let gone = pairs[i].0;
    assert forall|a: int, b: int| 0 <= a < b < rest.len() implies rest[a].0 != rest[b].0 by {
        let a0 = if a < i { a } else { a + 1 };
        let b0 = if b < i { b } else { b + 1 };
        assert(rest[a] == pairs[a0]);
        assert(rest[b] == pairs[b0]);
    }
    assert forall|key: K| #[trigger]
        as_map(rest).contains_key(key) <==> as_map(pairs).remove(gone).contains_key(key) by {
        if as_map(rest).contains_key(key) {
            let a = choose|a: int| holds_at(rest, key, a);
            let a0 = if a < i { a } else { a + 1 };
            assert(rest[a] == pairs[a0]);
            assert(holds_at(pairs, key, a0));
            if key == gone {
                if a0 < i {
                    assert(pairs[a0].0 != pairs[i].0);
                } else {
                    assert(pairs[i].0 != pairs[a0].0);
                }
            }
        }
        if as_map(pairs).remove(gone).contains_key(key) {
            let a0 = choose|a0: int| holds_at(pairs, key, a0);
            assert(a0 != i);
            let a = if a0 < i { a0 } else { a0 - 1 };
            assert(rest[a] == pairs[a0]);
            assert(holds_at(rest, key, a));
        }
    }
    assert forall|key: K| #[trigger] as_map(rest).contains_key(key) implies as_map(rest)[key]
        == as_map(pairs).remove(gone)[key] by {
        let a = choose|a: int| holds_at(rest, key, a);
        let a0 = if a < i { a } else { a + 1 };
        assert(rest[a] == pairs[a0]);
        lemma_found(rest, a);
        lemma_found(pairs, a0);
    }
    assert(as_map(rest) =~= as_map(pairs).remove(gone));
}

} // verus!
