//! Sequences of records viewed as maps from a key to the record that has it.
use vstd::prelude::*;

verus! {

/// The view of each element of a sequence.
pub open spec fn views<T: View>(s: Seq<T>) -> Seq<T::V> {
    Seq::new(s.len(), |i: int| s[i]@)
}

/// The view of an optional value.
pub open spec fn opt_view<T: View>(o: Option<T>) -> Option<T::V> {
    match o {
        Some(t) => Some(t@),
        None => None,
    }
}

/// No two elements of `s` share a key.
pub open spec fn keys_unique<K, V>(s: Seq<V>, key: spec_fn(V) -> K) -> bool {
    forall|i: int, j: int|
        0 <= i < s.len() && 0 <= j < s.len() && i != j ==> key(s[i]) != key(s[j])
}

/// Some element of `s` has key `k`.
pub open spec fn has_key<K, V>(s: Seq<V>, key: spec_fn(V) -> K, k: K) -> bool {
    exists|i: int| 0 <= i < s.len() && key(s[i]) == k
}

/// The map from each key of `s` to the element that has it.
pub open spec fn keyed_map<K, V>(s: Seq<V>, key: spec_fn(V) -> K) -> Map<K, V> {
    Map::new(
        |k: K| has_key(s, key, k),
        |k: K| s[choose|i: int| 0 <= i < s.len() && key(s[i]) == k],
    )
}

/// Each element of the map is found under its own key.
pub proof fn lemma_keyed_map_keys<K, V>(s: Seq<V>, key: spec_fn(V) -> K)
    ensures
        forall|k: K| #[trigger] keyed_map(s, key).contains_key(k) ==> key(keyed_map(s, key)[k]) == k,
{
    assert forall|k: K| #[trigger] keyed_map(s, key).contains_key(k) implies key(keyed_map(s, key)[k])
        == k by {
        assert(has_key(s, key, k));
        let i = choose|i: int| 0 <= i < s.len() && key(s[i]) == k;
        assert(0 <= i < s.len() && key(s[i]) == k);
    }
}

/// Each element is found under its key.
pub proof fn lemma_keyed_index<K, V>(s: Seq<V>, key: spec_fn(V) -> K, i: int)
    requires
        keys_unique(s, key),
        0 <= i < s.len(),
    ensures
        keyed_map(s, key).contains_key(key(s[i])),
        keyed_map(s, key)[key(s[i])] == s[i],
{
    let k = key(s[i]);
    assert(has_key(s, key, k));
    let j = choose|j: int| 0 <= j < s.len() && key(s[j]) == k;
    assert(j == i);
}

/// A map equals the keyed map of `s` when it holds exactly the elements of `s` under their keys.
pub proof fn lemma_keyed_ext<K, V>(s: Seq<V>, key: spec_fn(V) -> K, m: Map<K, V>)
    requires
        keys_unique(s, key),
        forall|i: int| 0 <= i < s.len() ==> m.contains_key(key(s[i])) && m[key(s[i])] == s[i],
        forall|k: K| m.contains_key(k) ==> has_key(s, key, k),
    ensures
        keyed_map(s, key) == m,
{
    assert forall|k: K| keyed_map(s, key).contains_key(k) implies m.contains_key(k) && keyed_map(
        s,
        key,
    )[k] == m[k] by {
        let i = choose|i: int| 0 <= i < s.len() && key(s[i]) == k;
        lemma_keyed_index(s, key, i);
    }
    assert forall|k: K| m.contains_key(k) implies keyed_map(s, key).contains_key(k) by {}
    assert(keyed_map(s, key) =~= m);
}

/// Replacing an element by one with the same key updates the map at that key.
pub proof fn lemma_keyed_update<K, V>(s: Seq<V>, key: spec_fn(V) -> K, i: int, v: V)
    requires
        keys_unique(s, key),
        0 <= i < s.len(),
        key(v) == key(s[i]),
    ensures
        keys_unique(s.update(i, v), key),
        keyed_map(s.update(i, v), key) == keyed_map(s, key).insert(key(v), v),
{
    let t = s.update(i, v);
    let m = keyed_map(s, key).insert(key(v), v);
    assert forall|j: int| 0 <= j < t.len() implies m.contains_key(key(t[j])) && m[key(t[j])]
        == t[j] by {
        if j != i {
            lemma_keyed_index(s, key, j);
        }
    }
    assert forall|k: K| m.contains_key(k) implies has_key(t, key, k) by {
        if k != key(v) {
            let j = choose|j: int| 0 <= j < s.len() && key(s[j]) == k;
            assert(t[j] == s[j]);
        } else {
            assert(t[i] == v);
        }
    }
    lemma_keyed_ext(t, key, m);
}

/// Appending an element with a new key adds it to the map.
pub proof fn lemma_keyed_push<K, V>(s: Seq<V>, key: spec_fn(V) -> K, v: V)
    requires
        keys_unique(s, key),
        !has_key(s, key, key(v)),
    ensures
        keys_unique(s.push(v), key),
        keyed_map(s.push(v), key) == keyed_map(s, key).insert(key(v), v),
{
    let t = s.push(v);
    let m = keyed_map(s, key).insert(key(v), v);
    assert(keys_unique(t, key)) by {
        assert forall|i: int, j: int|
            0 <= i < t.len() && 0 <= j < t.len() && i != j implies key(t[i]) != key(t[j]) by {
            if i == s.len() as int {
                assert(key(t[j]) == key(s[j]));
            } else if j == s.len() as int {
                assert(key(t[i]) == key(s[i]));
            }
        }
    }
    assert forall|j: int| 0 <= j < t.len() implies m.contains_key(key(t[j])) && m[key(t[j])]
        == t[j] by {
        if j < s.len() {
            lemma_keyed_index(s, key, j);
        }
    }
    assert forall|k: K| m.contains_key(k) implies has_key(t, key, k) by {
        if k != key(v) {
            let j = choose|j: int| 0 <= j < s.len() && key(s[j]) == k;
            assert(t[j] == s[j]);
        } else {
            assert(t[s.len() as int] == v);
        }
    }
    lemma_keyed_ext(t, key, m);
}

/// Removing an element removes its key from the map.
pub proof fn lemma_keyed_remove<K, V>(s: Seq<V>, key: spec_fn(V) -> K, i: int)
    requires
        keys_unique(s, key),
        0 <= i < s.len(),
    ensures
        keys_unique(s.remove(i), key),
        keyed_map(s.remove(i), key) == keyed_map(s, key).remove(key(s[i])),
        !has_key(s.remove(i), key, key(s[i])),
{
    let t = s.remove(i);
    let m = keyed_map(s, key).remove(key(s[i]));
    assert(forall|j: int| 0 <= j < t.len() ==> t[j] == if j < i {
        s[j]
    } else {
        s[j + 1]
    });
    assert forall|j: int| 0 <= j < t.len() implies m.contains_key(key(t[j])) && m[key(t[j])]
        == t[j] by {
        if j < i {
            lemma_keyed_index(s, key, j);
        } else {
            lemma_keyed_index(s, key, j + 1);
        }
    }
    assert forall|k: K| m.contains_key(k) implies has_key(t, key, k) by {
        let j = choose|j: int| 0 <= j < s.len() && key(s[j]) == k;
        if j < i {
            assert(t[j] == s[j]);
        } else {
            assert(j != i);
            assert(t[j - 1] == s[j]);
        }
    }
    lemma_keyed_ext(t, key, m);
}

/// Inserting an element with a new key at any position adds it to the map.
pub proof fn lemma_keyed_insert<K, V>(s: Seq<V>, key: spec_fn(V) -> K, p: int, v: V)
    requires
        keys_unique(s, key),
        0 <= p <= s.len(),
        !has_key(s, key, key(v)),
    ensures
        keys_unique(s.insert(p, v), key),
        keyed_map(s.insert(p, v), key) == keyed_map(s, key).insert(key(v), v),
{
    let t = s.insert(p, v);
    let m = keyed_map(s, key).insert(key(v), v);
    assert(forall|j: int| 0 <= j < t.len() ==> t[j] == if j < p {
        s[j]
    } else if j == p {
        v
    } else {
        s[j - 1]
    });
    assert(keys_unique(t, key));
    assert forall|j: int| 0 <= j < t.len() implies m.contains_key(key(t[j])) && m[key(t[j])]
        == t[j] by {
        if j < p {
            lemma_keyed_index(s, key, j);
        } else if j > p {
            lemma_keyed_index(s, key, j - 1);
        }
    }
    assert forall|k: K| m.contains_key(k) implies has_key(t, key, k) by {
        if k != key(v) {
            let j = choose|j: int| 0 <= j < s.len() && key(s[j]) == k;
            if j < p {
                assert(t[j] == s[j]);
            } else {
                assert(t[j + 1] == s[j]);
            }
        } else {
            assert(t[p] == v);
        }
    }
    lemma_keyed_ext(t, key, m);
}

} // verus!
