//! Sequences whose entries carry unique keys, seen as maps.
use vstd::prelude::*;

verus! {

/// No two entries of `s` share a key.
pub open spec fn unique_keys<K, V>(s: Seq<V>, key: spec_fn(V) -> K) -> bool {
    forall|i: int, j: int|
        0 <= i < s.len() && 0 <= j < s.len() && i != j ==> #[trigger] key(s[i]) != #[trigger] key(
            s[j],
        )
}

/// Some entry of `s` has key `k`.
pub open spec fn has_key<K, V>(s: Seq<V>, key: spec_fn(V) -> K, k: K) -> bool {
    exists|i: int| 0 <= i < s.len() && #[trigger] key(s[i]) == k
}

/// The map from each key of `s` to the entry that carries it.
pub open spec fn keyed_map<K, V>(s: Seq<V>, key: spec_fn(V) -> K) -> Map<K, V> {
    Map::new(
        |k: K| has_key(s, key, k),
        |k: K| s[choose|i: int| 0 <= i < s.len() && #[trigger] key(s[i]) == k],
    )
}

pub proof fn lemma_keyed_index<K, V>(s: Seq<V>, key: spec_fn(V) -> K, i: int)
    requires
        unique_keys(s, key),
        0 <= i < s.len(),
    ensures
        keyed_map(s, key).contains_key(key(s[i])),
        keyed_map(s, key)[key(s[i])] == s[i],
{
    let k = key(s[i]);
    assert(has_key(s, key, k));
    let j = choose|j: int| 0 <= j < s.len() && #[trigger] key(s[j]) == k;
    assert(j == i);
}

pub proof fn lemma_keyed_absent<K, V>(s: Seq<V>, key: spec_fn(V) -> K, k: K)
    requires
        forall|i: int| 0 <= i < s.len() ==> #[trigger] key(s[i]) != k,
    ensures
        !keyed_map(s, key).contains_key(k),
{
}

pub proof fn lemma_keyed_update<K, V>(s: Seq<V>, key: spec_fn(V) -> K, i: int, v: V)
    requires
        unique_keys(s, key),
        0 <= i < s.len(),
        key(v) == key(s[i]),
    ensures
        unique_keys(s.update(i, v), key),
        keyed_map(s.update(i, v), key) == keyed_map(s, key).insert(key(v), v),
{
    let t = s.update(i, v);
    assert forall|a: int, b: int|
        0 <= a < t.len() && 0 <= b < t.len() && a != b implies #[trigger] key(t[a]) != #[trigger] key(
            t[b],
        ) by {
        assert(key(t[a]) == key(s[a]));
        assert(key(t[b]) == key(s[b]));
    }
    let m = keyed_map(t, key);
    let n = keyed_map(s, key).insert(key(v), v);
    assert forall|k: K| m.contains_key(k) <==> n.contains_key(k) by {
        if m.contains_key(k) {
            let j = choose|j: int| 0 <= j < t.len() && #[trigger] key(t[j]) == k;
            assert(key(t[j]) == key(s[j]));
            assert(has_key(s, key, k));
        }
        if n.contains_key(k) {
            if k == key(v) {
                assert(key(t[i]) == k);
            } else {
                let j = choose|j: int| 0 <= j < s.len() && #[trigger] key(s[j]) == k;
                assert(key(t[j]) == key(s[j]));
            }
        }
    }
    assert forall|k: K| m.contains_key(k) implies m[k] == n[k] by {
        let j = choose|j: int| 0 <= j < t.len() && #[trigger] key(t[j]) == k;
        lemma_keyed_index(t, key, j);
        if j == i {
        } else {
            assert(key(t[j]) == key(s[j]));
            lemma_keyed_index(s, key, j);
        }
    }
    assert(m =~= n);
}

pub proof fn lemma_keyed_push<K, V>(s: Seq<V>, key: spec_fn(V) -> K, v: V)
    requires
        unique_keys(s, key),
        !has_key(s, key, key(v)),
    ensures
        unique_keys(s.push(v), key),
        keyed_map(s.push(v), key) == keyed_map(s, key).insert(key(v), v),
{
    let t = s.push(v);
    assert forall|a: int, b: int|
        0 <= a < t.len() && 0 <= b < t.len() && a != b implies #[trigger] key(t[a]) != #[trigger] key(
            t[b],
        ) by {
        if a < s.len() && b < s.len() {
            assert(key(t[a]) == key(s[a]));
            assert(key(t[b]) == key(s[b]));
        } else if a < s.len() {
            assert(key(t[a]) == key(s[a]));
        } else {
            assert(key(t[b]) == key(s[b]));
        }
    }
    let m = keyed_map(t, key);
    let n = keyed_map(s, key).insert(key(v), v);
    assert forall|k: K| m.contains_key(k) <==> n.contains_key(k) by {
        if m.contains_key(k) {
            let j = choose|j: int| 0 <= j < t.len() && #[trigger] key(t[j]) == k;
            if j < s.len() {
                assert(key(t[j]) == key(s[j]));
                assert(has_key(s, key, k));
            }
        }
        if n.contains_key(k) {
            if k == key(v) {
                assert(key(t[s.len() as int]) == k);
            } else {
                let j = choose|j: int| 0 <= j < s.len() && #[trigger] key(s[j]) == k;
                assert(key(t[j]) == key(s[j]));
            }
        }
    }
    assert forall|k: K| m.contains_key(k) implies m[k] == n[k] by {
        let j = choose|j: int| 0 <= j < t.len() && #[trigger] key(t[j]) == k;
        lemma_keyed_index(t, key, j);
        if j < s.len() {
            assert(key(t[j]) == key(s[j]));
            lemma_keyed_index(s, key, j);
        }
    }
    assert(m =~= n);
}

pub proof fn lemma_keyed_remove<K, V>(s: Seq<V>, key: spec_fn(V) -> K, i: int)
    requires
        unique_keys(s, key),
        0 <= i < s.len(),
    ensures
        unique_keys(s.remove(i), key),
        keyed_map(s.remove(i), key) == keyed_map(s, key).remove(key(s[i])),
{
    let t = s.remove(i);
    assert forall|a: int| 0 <= a < t.len() implies #[trigger] key(t[a]) == key(
        s[if a < i {
            a
        } else {
            a + 1
        }],
    ) by {}
    assert forall|a: int, b: int|
        0 <= a < t.len() && 0 <= b < t.len() && a != b implies #[trigger] key(t[a]) != #[trigger] key(
            t[b],
        ) by {
        let sa = if a < i {
            a
        } else {
            a + 1
        };
        let sb = if b < i {
            b
        } else {
            b + 1
        };
        assert(key(t[a]) == key(s[sa]));
        assert(key(t[b]) == key(s[sb]));
    }
    let m = keyed_map(t, key);
    let n = keyed_map(s, key).remove(key(s[i]));
    assert forall|k: K| m.contains_key(k) <==> n.contains_key(k) by {
        if m.contains_key(k) {
            let j = choose|j: int| 0 <= j < t.len() && #[trigger] key(t[j]) == k;
            let sj = if j < i {
                j
            } else {
                j + 1
            };
            assert(key(t[j]) == key(s[sj]));
            assert(has_key(s, key, k));
        }
        if n.contains_key(k) {
            let j = choose|j: int| 0 <= j < s.len() && #[trigger] key(s[j]) == k;
            assert(j != i);
            let tj = if j < i {
                j
            } else {
                j - 1
            };
            assert(key(t[tj]) == key(s[j]));
        }
    }
    assert forall|k: K| m.contains_key(k) implies m[k] == n[k] by {
        let j = choose|j: int| 0 <= j < t.len() && #[trigger] key(t[j]) == k;
        lemma_keyed_index(t, key, j);
        let sj = if j < i {
            j
        } else {
            j + 1
        };
        assert(key(t[j]) == key(s[sj]));
        assert(t[j] == s[sj]);
        lemma_keyed_index(s, key, sj);
    }
    assert(m =~= n);
}

} // verus!
