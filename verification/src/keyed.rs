//! Sequences of records with distinct text keys, read as maps from key to
//! value, and how updates of the sequence move the map.

use vstd::prelude::*;

verus! {

/// No two records of `s` share a key.
pub open spec fn keys_distinct<T>(s: Seq<T>, key: spec_fn(T) -> Seq<char>) -> bool {
    forall|i: int, j: int|
        0 <= i < s.len() && 0 <= j < s.len() && i != j ==> #[trigger] key(s[i]) != #[trigger] key(s[j])
}

/// Some record of `s` has key `k`.
pub open spec fn has_key<T>(s: Seq<T>, key: spec_fn(T) -> Seq<char>, k: Seq<char>) -> bool {
    exists|i: int| 0 <= i < s.len() && #[trigger] key(s[i]) == k
}

/// The records of `s` as a map from each key to the value of the record
/// that holds it.
pub open spec fn keyed_map<T, V>(s: Seq<T>, key: spec_fn(T) -> Seq<char>, val: spec_fn(T) -> V) -> Map<Seq<char>, V> {
    Map::new(
        |k: Seq<char>| has_key(s, key, k),
        |k: Seq<char>| val(s[choose|i: int| 0 <= i < s.len() && #[trigger] key(s[i]) == k]),
    )
}

/// Each record of `s` is found in the map under its key.
pub proof fn lemma_keyed_map_index<T, V>(s: Seq<T>, key: spec_fn(T) -> Seq<char>, val: spec_fn(T) -> V, i: int)
    requires
        keys_distinct(s, key),
        0 <= i < s.len(),
    ensures
        keyed_map(s, key, val).contains_key(key(s[i])),
        keyed_map(s, key, val)[key(s[i])] == val(s[i]),
{
    let k = key(s[i]);
    assert(has_key(s, key, k));
    let j = choose|j: int| 0 <= j < s.len() && #[trigger] key(s[j]) == k;
    assert(key(s[j]) == key(s[i]));
}

/// Every record of `s` is found in the map under its key.
pub proof fn lemma_keyed_map_all<T, V>(s: Seq<T>, key: spec_fn(T) -> Seq<char>, val: spec_fn(T) -> V)
    requires
        keys_distinct(s, key),
    ensures
        forall|i: int| 0 <= i < s.len() ==> #[trigger] keyed_map(s, key, val)[key(s[i])] == val(s[i]),
        forall|i: int| 0 <= i < s.len() ==> keyed_map(s, key, val).contains_key(#[trigger] key(s[i])),
{
    assert forall|i: int| 0 <= i < s.len() implies #[trigger] keyed_map(s, key, val)[key(s[i])] == val(s[i])
        && keyed_map(s, key, val).contains_key(key(s[i])) by {
        lemma_keyed_map_index(s, key, val, i);
    }
}

/// Replacing the record at `i` by one with the same key replaces the value
/// under that key.
pub proof fn lemma_keyed_map_update<T, V>(s: Seq<T>, key: spec_fn(T) -> Seq<char>, val: spec_fn(T) -> V, i: int, x: T)
    requires
        keys_distinct(s, key),
        0 <= i < s.len(),
        key(x) == key(s[i]),
    ensures
        keys_distinct(s.update(i, x), key),
        keyed_map(s.update(i, x), key, val) == keyed_map(s, key, val).insert(key(x), val(x)),
{
    let t = s.update(i, x);
    assert forall|a: int, b: int| 0 <= a < t.len() && 0 <= b < t.len() && a != b implies #[trigger] key(t[a]) != #[trigger] key(t[b]) by {
        assert(key(t[a]) == key(s[a]));
        assert(key(t[b]) == key(s[b]));
    }
    lemma_keyed_map_all(s, key, val);
    lemma_keyed_map_all(t, key, val);
    let m1 = keyed_map(t, key, val);
    let m2 = keyed_map(s, key, val).insert(key(x), val(x));
    assert forall|k: Seq<char>| m1.contains_key(k) <==> m2.contains_key(k) by {
        if m1.contains_key(k) {
            let j = choose|j: int| 0 <= j < t.len() && #[trigger] key(t[j]) == k;
            assert(key(t[j]) == key(s[j]));
        }
        if m2.contains_key(k) && k != key(x) {
            let j = choose|j: int| 0 <= j < s.len() && #[trigger] key(s[j]) == k;
            assert(key(t[j]) == key(s[j]));
        }
        if k == key(x) {
            assert(key(t[i]) == key(x));
        }
    }
    assert forall|k: Seq<char>| #[trigger] m1.contains_key(k) implies m1[k] == m2[k] by {
        let j = choose|j: int| 0 <= j < t.len() && #[trigger] key(t[j]) == k;
        assert(m1[key(t[j])] == val(t[j]));
        if j != i {
            assert(key(t[j]) == key(s[j]));
            assert(keyed_map(s, key, val)[key(s[j])] == val(s[j]));
        }
    }
    assert(m1 =~= m2);
}

/// Appending a record with a new key adds that key to the map.
pub proof fn lemma_keyed_map_push<T, V>(s: Seq<T>, key: spec_fn(T) -> Seq<char>, val: spec_fn(T) -> V, x: T)
    requires
        keys_distinct(s, key),
        !has_key(s, key, key(x)),
    ensures
        keys_distinct(s.push(x), key),
        keyed_map(s.push(x), key, val) == keyed_map(s, key, val).insert(key(x), val(x)),
{
    let t = s.push(x);
    assert forall|a: int, b: int| 0 <= a < t.len() && 0 <= b < t.len() && a != b implies #[trigger] key(t[a]) != #[trigger] key(t[b]) by {
        if a < s.len() && b < s.len() {
            assert(key(t[a]) == key(s[a]));
            assert(key(t[b]) == key(s[b]));
        } else if a < s.len() {
            assert(key(t[a]) == key(s[a]));
        } else {
            assert(key(t[b]) == key(s[b]));
        }
    }
    lemma_keyed_map_all(s, key, val);
    lemma_keyed_map_all(t, key, val);
    let m1 = keyed_map(t, key, val);
    let m2 = keyed_map(s, key, val).insert(key(x), val(x));
    assert forall|k: Seq<char>| m1.contains_key(k) <==> m2.contains_key(k) by {
        if m1.contains_key(k) && k != key(x) {
            let j = choose|j: int| 0 <= j < t.len() && #[trigger] key(t[j]) == k;
            assert(j < s.len());
            assert(key(t[j]) == key(s[j]));
        }
        if m2.contains_key(k) && k != key(x) {
            let j = choose|j: int| 0 <= j < s.len() && #[trigger] key(s[j]) == k;
            assert(key(t[j]) == key(s[j]));
        }
        if k == key(x) {
            assert(key(t[s.len() as int]) == key(x));
        }
    }
    assert forall|k: Seq<char>| #[trigger] m1.contains_key(k) implies m1[k] == m2[k] by {
        let j = choose|j: int| 0 <= j < t.len() && #[trigger] key(t[j]) == k;
        assert(m1[key(t[j])] == val(t[j]));
        if j < s.len() {
            assert(key(t[j]) == key(s[j]));
            assert(keyed_map(s, key, val)[key(s[j])] == val(s[j]));
        }
    }
    assert(m1 =~= m2);
}

/// Removing the record at `i` removes its key from the map.
pub proof fn lemma_keyed_map_remove<T, V>(s: Seq<T>, key: spec_fn(T) -> Seq<char>, val: spec_fn(T) -> V, i: int)
    requires
        keys_distinct(s, key),
        0 <= i < s.len(),
    ensures
        keys_distinct(s.remove(i), key),
        keyed_map(s.remove(i), key, val) == keyed_map(s, key, val).remove(key(s[i])),
{
    let t = s.remove(i);
    assert forall|a: int, b: int| 0 <= a < t.len() && 0 <= b < t.len() && a != b implies #[trigger] key(t[a]) != #[trigger] key(t[b]) by {
        let a2 = if a < i { a } else { a + 1 };
        let b2 = if b < i { b } else { b + 1 };
        assert(key(t[a]) == key(s[a2]));
        assert(key(t[b]) == key(s[b2]));
    }
    lemma_keyed_map_all(s, key, val);
    lemma_keyed_map_all(t, key, val);
    let m1 = keyed_map(t, key, val);
    let m2 = keyed_map(s, key, val).remove(key(s[i]));
    assert forall|k: Seq<char>| m1.contains_key(k) <==> m2.contains_key(k) by {
        if m1.contains_key(k) {
            let j = choose|j: int| 0 <= j < t.len() && #[trigger] key(t[j]) == k;
            let j2 = if j < i { j } else { j + 1 };
            assert(key(t[j]) == key(s[j2]));
        }
        if m2.contains_key(k) {
            let j = choose|j: int| 0 <= j < s.len() && #[trigger] key(s[j]) == k;
            assert(j != i);
            let j1 = if j < i { j } else { j - 1 };
            assert(key(t[j1]) == key(s[j]));
        }
    }
    assert forall|k: Seq<char>| #[trigger] m1.contains_key(k) implies m1[k] == m2[k] by {
        let j = choose|j: int| 0 <= j < t.len() && #[trigger] key(t[j]) == k;
        let j2 = if j < i { j } else { j + 1 };
        assert(m1[key(t[j])] == val(t[j]));
        assert(key(t[j]) == key(s[j2]));
        assert(keyed_map(s, key, val)[key(s[j2])] == val(s[j2]));
    }
    assert(m1 =~= m2);
}

/// With distinct keys the map holds as many entries as the sequence holds
/// records.
pub proof fn lemma_keyed_map_len<T, V>(s: Seq<T>, key: spec_fn(T) -> Seq<char>, val: spec_fn(T) -> V)
    requires
        keys_distinct(s, key),
    ensures
        keyed_map(s, key, val).dom().finite(),
        keyed_map(s, key, val).dom().len() == s.len(),
    decreases s.len(),
{
    if s.len() == 0 {
        assert(keyed_map(s, key, val).dom() =~= Set::<Seq<char>>::empty());
    } else {
        let t = s.drop_last();
        assert forall|a: int, b: int| 0 <= a < t.len() && 0 <= b < t.len() && a != b implies #[trigger] key(t[a]) != #[trigger] key(t[b]) by {
            assert(key(t[a]) == key(s[a]));
            assert(key(t[b]) == key(s[b]));
        }
        lemma_keyed_map_len(t, key, val);
        let x = s.last();
        assert(!has_key(t, key, key(x))) by {
            if has_key(t, key, key(x)) {
                let j = choose|j: int| 0 <= j < t.len() && #[trigger] key(t[j]) == key(x);
                assert(key(s[j]) == key(s[s.len() - 1]));
            }
        }
        lemma_keyed_map_push(t, key, val, x);
        assert(t.push(x) =~= s);
        assert(!keyed_map(t, key, val).dom().contains(key(x)));
    }
}

/// Two sequences whose records agree in key and value, position by
/// position, are read as the same map.
pub proof fn lemma_keyed_map_congruent<T, V>(s: Seq<T>, t: Seq<T>, key: spec_fn(T) -> Seq<char>, val: spec_fn(T) -> V)
    requires
        keys_distinct(s, key),
        s.len() == t.len(),
        forall|i: int| 0 <= i < s.len() ==> #[trigger] key(t[i]) == key(s[i]) && val(t[i]) == val(s[i]),
    ensures
        keys_distinct(t, key),
        keyed_map(t, key, val) == keyed_map(s, key, val),
{
    assert forall|a: int, b: int| 0 <= a < t.len() && 0 <= b < t.len() && a != b implies #[trigger] key(t[a]) != #[trigger] key(t[b]) by {
        assert(key(t[a]) == key(s[a]));
        assert(key(t[b]) == key(s[b]));
    }
    lemma_keyed_map_all(s, key, val);
    lemma_keyed_map_all(t, key, val);
    let m1 = keyed_map(t, key, val);
    let m2 = keyed_map(s, key, val);
    assert forall|k: Seq<char>| m1.contains_key(k) <==> m2.contains_key(k) by {
        if m1.contains_key(k) {
            let j = choose|j: int| 0 <= j < t.len() && #[trigger] key(t[j]) == k;
            assert(key(s[j]) == key(t[j]));
        }
        if m2.contains_key(k) {
            let j = choose|j: int| 0 <= j < s.len() && #[trigger] key(s[j]) == k;
            assert(key(t[j]) == key(s[j]));
        }
    }
    assert forall|k: Seq<char>| #[trigger] m1.contains_key(k) implies m1[k] == m2[k] by {
        let j = choose|j: int| 0 <= j < t.len() && #[trigger] key(t[j]) == k;
        assert(m1[key(t[j])] == val(t[j]));
        assert(key(s[j]) == key(t[j]));
        assert(m2[key(s[j])] == val(s[j]));
    }
    assert(m1 =~= m2);
}

} // verus!
