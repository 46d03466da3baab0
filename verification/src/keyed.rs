//! Vectors of records with unique keys, viewed as maps from a record's key
//! to a value computed from the record.
use vstd::prelude::*;

verus! {

/// No two records of `s` share a key.
pub open spec fn keys_unique<K, T>(s: Seq<T>, key: spec_fn(T) -> K) -> bool {
    forall|i: int, j: int|
        #![trigger s[i], s[j]]
        0 <= i < s.len() && 0 <= j < s.len() && i != j ==> key(s[i]) != key(s[j])
}

/// The map from key to record that the vector stands for (a later record
/// wins, which only matters when keys repeat).
pub open spec fn keyed_map<K, T, V>(s: Seq<T>, key: spec_fn(T) -> K, val: spec_fn(T) -> V) -> Map<
    K,
    V,
>
    decreases s.len(),
{
    if s.len() == 0 {
        Map::empty()
    } else {
        keyed_map(s.drop_last(), key, val).insert(key(s.last()), val(s.last()))
    }
}

pub proof fn lemma_keyed_dom<K, T, V>(s: Seq<T>, key: spec_fn(T) -> K, val: spec_fn(T) -> V, k: K)
    ensures
        keyed_map(s, key, val).dom().contains(k) <==> exists|i: int|
            0 <= i < s.len() && #[trigger] key(s[i]) == k,
    decreases s.len(),
{
    if s.len() > 0 {
        let d = s.drop_last();
        lemma_keyed_dom(d, key, val, k);
        if keyed_map(s, key, val).dom().contains(k) {
            if k == key(s.last()) {
                assert(key(s[s.len() - 1]) == k);
            } else {
                let i = choose|i: int| 0 <= i < d.len() && #[trigger] key(d[i]) == k;
                assert(key(s[i]) == k);
            }
        }
        if exists|i: int| 0 <= i < s.len() && #[trigger] key(s[i]) == k {
            let i = choose|i: int| 0 <= i < s.len() && #[trigger] key(s[i]) == k;
            if i < s.len() - 1 {
                assert(key(d[i]) == k);
            }
        }
    }
}

pub proof fn lemma_keyed_index<K, T, V>(s: Seq<T>, key: spec_fn(T) -> K, val: spec_fn(T) -> V, i: int)
    requires
        keys_unique(s, key),
        0 <= i < s.len(),
    ensures
        keyed_map(s, key, val).dom().contains(key(s[i])),
        keyed_map(s, key, val)[key(s[i])] == val(s[i]),
    decreases s.len(),
{
    let d = s.drop_last();
    if i < s.len() - 1 {
        assert(keys_unique(d, key)) by {
            assert forall|a: int, b: int|
                0 <= a < d.len() && 0 <= b < d.len() && a != b implies key(d[a]) != key(d[b]) by {
                assert(d[a] == s[a] && d[b] == s[b]);
            }
        }
        lemma_keyed_index(d, key, val, i);
        assert(s[i] == d[i]);
        assert(key(s[i]) != key(s[s.len() - 1]));
    }
}

pub proof fn lemma_keyed_push<K, T, V>(s: Seq<T>, key: spec_fn(T) -> K, val: spec_fn(T) -> V, x: T)
    ensures
        keyed_map(s.push(x), key, val) == keyed_map(s, key, val).insert(key(x), val(x)),
{
    assert(s.push(x).drop_last() =~= s);
}

pub proof fn lemma_keys_unique_push<K, T, V>(s: Seq<T>, key: spec_fn(T) -> K, val: spec_fn(T) -> V, x: T)
    requires
        keys_unique(s, key),
        !keyed_map(s, key, val).dom().contains(key(x)),
    ensures
        keys_unique(s.push(x), key),
{
    let t = s.push(x);
    assert forall|a: int, b: int|
        0 <= a < t.len() && 0 <= b < t.len() && a != b implies key(t[a]) != key(t[b]) by {
        if a < s.len() && b < s.len() {
            assert(t[a] == s[a] && t[b] == s[b]);
        } else if a < s.len() {
            lemma_keyed_dom(s, key, val, key(x));
            assert(t[a] == s[a]);
        } else {
            lemma_keyed_dom(s, key, val, key(x));
            assert(t[b] == s[b]);
        }
    }
}

pub proof fn lemma_keyed_update<K, T, V>(s: Seq<T>, key: spec_fn(T) -> K, val: spec_fn(T) -> V, i: int, x: T)
    requires
        keys_unique(s, key),
        0 <= i < s.len(),
        key(x) == key(s[i]),
    ensures
        keyed_map(s.update(i, x), key, val) == keyed_map(s, key, val).insert(key(x), val(x)),
        keys_unique(s.update(i, x), key),
    decreases s.len(),
{
    let t = s.update(i, x);
    let d = s.drop_last();
    assert forall|a: int, b: int|
        0 <= a < t.len() && 0 <= b < t.len() && a != b implies key(t[a]) != key(t[b]) by {
        assert(key(t[a]) == key(s[a]));
        assert(key(t[b]) == key(s[b]));
    }
    if i == s.len() - 1 {
        assert(t.drop_last() =~= d);
        assert(keyed_map(t, key, val) =~= keyed_map(s, key, val).insert(key(x), val(x)));
    } else {
        assert(keys_unique(d, key)) by {
            assert forall|a: int, b: int|
                0 <= a < d.len() && 0 <= b < d.len() && a != b implies key(d[a]) != key(d[b]) by {
                assert(d[a] == s[a] && d[b] == s[b]);
            }
        }
        assert(d[i] == s[i]);
        lemma_keyed_update(d, key, val, i, x);
        assert(t.drop_last() =~= d.update(i, x));
        assert(t.last() == s.last());
        assert(key(s[i]) != key(s[s.len() - 1]));
        assert(keyed_map(t, key, val) =~= keyed_map(s, key, val).insert(key(x), val(x)));
    }
}

pub proof fn lemma_keyed_remove<K, T, V>(s: Seq<T>, key: spec_fn(T) -> K, val: spec_fn(T) -> V, i: int)
    requires
        keys_unique(s, key),
        0 <= i < s.len(),
    ensures
        keyed_map(s.remove(i), key, val) == keyed_map(s, key, val).remove(key(s[i])),
        keys_unique(s.remove(i), key),
    decreases s.len(),
{
    let t = s.remove(i);
    let d = s.drop_last();
    assert forall|a: int, b: int|
        0 <= a < t.len() && 0 <= b < t.len() && a != b implies key(t[a]) != key(t[b]) by {
        let sa = if a < i { a } else { a + 1 };
        let sb = if b < i { b } else { b + 1 };
        assert(t[a] == s[sa] && t[b] == s[sb]);
    }
    assert(keys_unique(d, key)) by {
        assert forall|a: int, b: int|
            0 <= a < d.len() && 0 <= b < d.len() && a != b implies key(d[a]) != key(d[b]) by {
            assert(d[a] == s[a] && d[b] == s[b]);
        }
    }
    if i == s.len() - 1 {
        assert(t =~= d);
        lemma_keyed_dom(d, key, val, key(s[i]));
        assert forall|j: int| 0 <= j < d.len() implies #[trigger] key(d[j]) != key(s[i]) by {
            assert(d[j] == s[j]);
        }
        assert(keyed_map(t, key, val) =~= keyed_map(s, key, val).remove(key(s[i])));
    } else {
        assert(d[i] == s[i]);
        lemma_keyed_remove(d, key, val, i);
        assert(t.drop_last() =~= d.remove(i));
        assert(t.last() == s.last());
        assert(key(s[i]) != key(s[s.len() - 1]));
        assert(keyed_map(t, key, val) =~= keyed_map(s, key, val).remove(key(s[i])));
    }
}

} // verus!
