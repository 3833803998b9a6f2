//! A sequence whose items carry unique keys, viewed as a map from key to item.
use vstd::prelude::*;

verus! {

/// The map from each key that occurs in `s` to the item that carries it.
pub open spec fn keyed_map<T>(s: Seq<T>, key: spec_fn(T) -> Seq<u8>) -> Map<Seq<u8>, T> {
    Map::new(
        |k: Seq<u8>| exists|i: int| 0 <= i < s.len() && key(s[i]) == k,
        |k: Seq<u8>| s[choose|i: int| 0 <= i < s.len() && key(s[i]) == k],
    )
}

/// No two items of `s` carry the same key.
pub open spec fn keys_unique<T>(s: Seq<T>, key: spec_fn(T) -> Seq<u8>) -> bool {
    forall|i: int, j: int|
        0 <= i < s.len() && 0 <= j < s.len() && i != j ==> #[trigger] key(s[i]) != #[trigger] key(s[j])
}

/// With unique keys, the item at an index is what the map holds for its key.
pub proof fn lemma_keyed_index<T>(s: Seq<T>, key: spec_fn(T) -> Seq<u8>, i: int)
    requires
        keys_unique(s, key),
        0 <= i < s.len(),
    ensures
        keyed_map(s, key).contains_key(key(s[i])),
        keyed_map(s, key)[key(s[i])] == s[i],
{
    let k = key(s[i]);
    assert(0 <= i < s.len() && key(s[i]) == k);
    let j = choose|j: int| 0 <= j < s.len() && key(s[j]) == k;
    assert(key(s[j]) == k);
}

/// A key that no item carries is absent from the map.
pub proof fn lemma_keyed_absent<T>(s: Seq<T>, key: spec_fn(T) -> Seq<u8>, k: Seq<u8>)
    requires
        forall|i: int| 0 <= i < s.len() ==> key(s[i]) != k,
    ensures
        !keyed_map(s, key).contains_key(k),
{
}

/// Replacing an item by one with the same key replaces the map entry.
pub proof fn lemma_keyed_update<T>(s: Seq<T>, key: spec_fn(T) -> Seq<u8>, i: int, x: T)
    requires
        keys_unique(s, key),
        0 <= i < s.len(),
        key(x) == key(s[i]),
    ensures
        keys_unique(s.update(i, x), key),
        keyed_map(s.update(i, x), key) == keyed_map(s, key).insert(key(x), x),
{
    let t = s.update(i, x);
    assert forall|a: int, b: int|
        0 <= a < t.len() && 0 <= b < t.len() && a != b implies #[trigger] key(t[a]) != #[trigger] key(t[b]) by {
        assert(key(t[a]) == key(s[a]));
        assert(key(t[b]) == key(s[b]));
    }
    let m = keyed_map(s, key);
    let n = keyed_map(t, key);
    assert forall|k: Seq<u8>| n.contains_key(k) <==> m.insert(key(x), x).contains_key(k) by {
        if n.contains_key(k) {
            let j = choose|j: int| 0 <= j < t.len() && key(t[j]) == k;
            assert(key(s[j]) == k);
        }
        if m.contains_key(k) {
            let j = choose|j: int| 0 <= j < s.len() && key(s[j]) == k;
            assert(key(t[j]) == k);
        }
        if k == key(x) {
            assert(key(t[i]) == k);
        }
    }
    assert forall|k: Seq<u8>| #[trigger] n.contains_key(k) implies n[k] == m.insert(key(x), x)[k] by {
        let j = choose|j: int| 0 <= j < t.len() && key(t[j]) == k;
        lemma_keyed_index(t, key, j);
        if j != i {
            lemma_keyed_index(s, key, j);
        }
    }
    assert(n =~= m.insert(key(x), x));
}

/// Appending an item with a new key adds a map entry.
pub proof fn lemma_keyed_push<T>(s: Seq<T>, key: spec_fn(T) -> Seq<u8>, x: T)
    requires
        keys_unique(s, key),
        !keyed_map(s, key).contains_key(key(x)),
    ensures
        keys_unique(s.push(x), key),
        keyed_map(s.push(x), key) == keyed_map(s, key).insert(key(x), x),
{
    let t = s.push(x);
    assert forall|a: int, b: int|
        0 <= a < t.len() && 0 <= b < t.len() && a != b implies #[trigger] key(t[a]) != #[trigger] key(t[b]) by {
        if a == s.len() {
            assert(key(t[b]) == key(s[b]));
        } else if b == s.len() {
            assert(key(t[a]) == key(s[a]));
        } else {
            assert(key(t[a]) == key(s[a]));
            assert(key(t[b]) == key(s[b]));
        }
    }
    let m = keyed_map(s, key);
    let n = keyed_map(t, key);
    assert forall|k: Seq<u8>| n.contains_key(k) <==> m.insert(key(x), x).contains_key(k) by {
        if n.contains_key(k) {
            let j = choose|j: int| 0 <= j < t.len() && key(t[j]) == k;
            if j < s.len() {
                assert(key(s[j]) == k);
            }
        }
        if m.contains_key(k) {
            let j = choose|j: int| 0 <= j < s.len() && key(s[j]) == k;
            assert(key(t[j]) == k);
        }
        if k == key(x) {
            assert(key(t[s.len() as int]) == k);
        }
    }
    assert forall|k: Seq<u8>| #[trigger] n.contains_key(k) implies n[k] == m.insert(key(x), x)[k] by {
        let j = choose|j: int| 0 <= j < t.len() && key(t[j]) == k;
        lemma_keyed_index(t, key, j);
        if j < s.len() {
            assert(t[j] == s[j]);
            lemma_keyed_index(s, key, j);
        }
    }
    assert(n =~= m.insert(key(x), x));
}

/// Removing the item at an index removes its key from the map.
pub proof fn lemma_keyed_remove<T>(s: Seq<T>, key: spec_fn(T) -> Seq<u8>, i: int)
    requires
        keys_unique(s, key),
        0 <= i < s.len(),
    ensures
        keys_unique(s.remove(i), key),
        keyed_map(s.remove(i), key) == keyed_map(s, key).remove(key(s[i])),
{
    let t = s.remove(i);
    assert forall|j: int| 0 <= j < t.len() implies #[trigger] t[j] == s[if j < i { j } else { j + 1 }] by {}
    assert forall|a: int, b: int|
        0 <= a < t.len() && 0 <= b < t.len() && a != b implies #[trigger] key(t[a]) != #[trigger] key(t[b]) by {
        let sa = if a < i { a } else { a + 1 };
        let sb = if b < i { b } else { b + 1 };
        assert(t[a] == s[sa]);
        assert(t[b] == s[sb]);
    }
    let m = keyed_map(s, key);
    let n = keyed_map(t, key);
    let ki = key(s[i]);
    assert forall|k: Seq<u8>| n.contains_key(k) <==> m.remove(ki).contains_key(k) by {
        if n.contains_key(k) {
            let j = choose|j: int| 0 <= j < t.len() && key(t[j]) == k;
            let sj = if j < i { j } else { j + 1 };
            assert(t[j] == s[sj]);
            assert(key(s[sj]) == k);
            assert(key(s[sj]) != key(s[i]));
        }
        if m.remove(ki).contains_key(k) {
            let j = choose|j: int| 0 <= j < s.len() && key(s[j]) == k;
            assert(j != i);
            let tj = if j < i { j } else { j - 1 };
            assert(t[tj] == s[j]);
            assert(key(t[tj]) == k);
        }
    }
    assert forall|k: Seq<u8>| #[trigger] n.contains_key(k) implies n[k] == m.remove(ki)[k] by {
        let j = choose|j: int| 0 <= j < t.len() && key(t[j]) == k;
        lemma_keyed_index(t, key, j);
        let sj = if j < i { j } else { j + 1 };
        assert(t[j] == s[sj]);
        lemma_keyed_index(s, key, sj);
    }
    assert(n =~= m.remove(ki));
}

} // verus!
