//! A deterministic key-value entity state that applies semantic deltas.
//!
//! Entities, fields and collections are kept in vectors sorted by key, so
//! that the canonical encoding lists them in key order.
use crate::delta::{CollectionChangeType, DeltaApplicable, DeltaError, DeltaOp, DeltaOpV, StateDelta};
use crate::keyed::{keyed_map, keys_unique, lemma_keyed_dom, lemma_keyed_push, lemma_keyed_update};
use crate::state::{DeterministicStateDomain, StateSerializationError};
use crate::wire::{
    bytes_eq, enc_bytes, enc_u32, enc_u64, write_bytes, write_raw, write_u32, write_u64,
};
use vstd::prelude::*;

verus! {

/// The key of a field or collection: (entity, component, field or collection).
pub type FieldKey = (u64, u32, u32);

/// Lexicographic order on keys.
pub open spec fn key_lt(a: FieldKey, b: FieldKey) -> bool {
    a.0 < b.0 || (a.0 == b.0 && (a.1 < b.1 || (a.1 == b.1 && a.2 < b.2)))
}

fn key_lt_exec(a: &FieldKey, b: &FieldKey) -> (r: bool)
    ensures
        r == key_lt(*a, *b),
{
    a.0 < b.0 || (a.0 == b.0 && (a.1 < b.1 || (a.1 == b.1 && a.2 < b.2)))
}

fn key_eq_exec(a: &FieldKey, b: &FieldKey) -> (r: bool)
    ensures
        r == (*a == *b),
{
    a.0 == b.0 && a.1 == b.1 && a.2 == b.2
}

/// The value stored in one field.
#[derive(Debug, PartialEq, Eq)]
pub struct FieldEntry {
    pub key: FieldKey,
    pub data: Vec<u8>,
}

/// The items stored in one collection.
#[derive(Debug, PartialEq, Eq)]
pub struct CollectionEntry {
    pub key: FieldKey,
    pub items: Vec<Vec<u8>>,
}

impl Clone for FieldEntry {
    fn clone(&self) -> (r: Self) {
        FieldEntry { key: self.key, data: self.data.clone() }
    }
}

impl Clone for CollectionEntry {
    fn clone(&self) -> (r: Self) {
        CollectionEntry { key: self.key, items: self.items.clone() }
    }
}

pub open spec fn items_view(items: Seq<Vec<u8>>) -> Seq<Seq<u8>> {
    items.map_values(|v: Vec<u8>| v@)
}

pub open spec fn field_key() -> spec_fn(FieldEntry) -> FieldKey {
    |f: FieldEntry| f.key
}

pub open spec fn field_val() -> spec_fn(FieldEntry) -> Seq<u8> {
    |f: FieldEntry| f.data@
}

pub open spec fn coll_key() -> spec_fn(CollectionEntry) -> FieldKey {
    |c: CollectionEntry| c.key
}

pub open spec fn coll_val() -> spec_fn(CollectionEntry) -> Seq<Seq<u8>> {
    |c: CollectionEntry| items_view(c.items@)
}

/// Strictly increasing.
pub open spec fn increasing(s: Seq<u64>) -> bool {
    forall|i: int, j: int| 0 <= i < j < s.len() ==> s[i] < s[j]
}

/// Strictly increasing in key order.
pub open spec fn sorted_by_key<T>(s: Seq<T>, key: spec_fn(T) -> FieldKey) -> bool {
    forall|i: int, j: int| 0 <= i < j < s.len() ==> key_lt(key(s[i]), key(s[j]))
}

/// The map `m` without the keys of entity `e`.
pub open spec fn without_entity<V>(m: Map<FieldKey, V>, e: u64) -> Map<FieldKey, V> {
    Map::new(|k: FieldKey| m.dom().contains(k) && k.0 != e, |k: FieldKey| m[k])
}

// ---------------------------------------------------------------------------
// Lemmas on sorted keyed vectors
// ---------------------------------------------------------------------------

pub proof fn lemma_sorted_unique<T>(s: Seq<T>, key: spec_fn(T) -> FieldKey)
    requires
        sorted_by_key(s, key),
    ensures
        keys_unique(s, key),
{
    assert forall|i: int, j: int|
        #![trigger s[i], s[j]]
        0 <= i < s.len() && 0 <= j < s.len() && i != j implies key(s[i]) != key(s[j]) by {
        if i < j {
            assert(key_lt(key(s[i]), key(s[j])));
        } else {
            assert(key_lt(key(s[j]), key(s[i])));
        }
    }
}

/// Inserting a record whose key is new, anywhere, adds that key to the map.
pub proof fn lemma_keyed_insert<K, T, V>(
    s: Seq<T>,
    key: spec_fn(T) -> K,
    val: spec_fn(T) -> V,
    p: int,
    x: T,
)
    requires
        0 <= p <= s.len(),
        forall|j: int| 0 <= j < s.len() ==> key(#[trigger] s[j]) != key(x),
    ensures
        keyed_map(s.insert(p, x), key, val) == keyed_map(s, key, val).insert(key(x), val(x)),
    decreases s.len(),
{
    let t = s.insert(p, x);
    if p == s.len() {
        assert(t =~= s.push(x));
        lemma_keyed_push(s, key, val, x);
    } else {
        let d = s.drop_last();
        assert forall|j: int| 0 <= j < d.len() implies key(#[trigger] d[j]) != key(x) by {
            assert(d[j] == s[j]);
        }
        lemma_keyed_insert(d, key, val, p, x);
        assert(t.drop_last() =~= d.insert(p, x));
        assert(t.last() == s.last());
        assert(key(s[s.len() - 1]) != key(x));
        assert(keyed_map(t, key, val) =~= keyed_map(s, key, val).insert(key(x), val(x)));
    }
}

// ---------------------------------------------------------------------------
// Byte strings
// ---------------------------------------------------------------------------

fn copy_bytes(src: &[u8]) -> (r: Vec<u8>)
    ensures
        r@ == src@,
{
    let mut out: Vec<u8> = Vec::new();
    write_raw(&mut out, src);
    assert(out@ =~= src@);
    out
}

fn copy_items(items: &Vec<Vec<u8>>) -> (r: Vec<Vec<u8>>)
    ensures
        items_view(r@) == items_view(items@),
{
    let mut out: Vec<Vec<u8>> = Vec::new();
    let mut i: usize = 0;
    while i < items.len()
        invariant
            i <= items@.len(),
            items_view(out@) =~= items_view(items@.take(i as int)),
        decreases items@.len() - i,
    {
        let ghost prev = out@;
        let c = copy_bytes(items[i].as_slice());
        out.push(c);
        assert(items@.take(i + 1) =~= items@.take(i as int).push(items@[i as int]));
        assert(items_view(out@) =~= items_view(prev).push(items@[i as int]@));
        assert(items_view(items@.take(i + 1)) =~= items_view(items@.take(i as int)).push(
            items@[i as int]@,
        ));
        i = i + 1;
    }
    assert(items@.take(items@.len() as int) =~= items@);
    out
}

// ---------------------------------------------------------------------------
// Entity sets
// ---------------------------------------------------------------------------

fn vec_contains_u64(v: &Vec<u64>, x: u64) -> (r: bool)
    ensures
        r == v@.contains(x),
{
    let mut i: usize = 0;
    while i < v.len()
        invariant
            i <= v@.len(),
            forall|j: int| 0 <= j < i ==> v@[j] != x,
        decreases v@.len() - i,
    {
        if v[i] == x {
            assert(v@[i as int] == x);
            return true;
        }
        i = i + 1;
    }
    false
}

fn sorted_insert_u64(v: &mut Vec<u64>, x: u64)
    requires
        increasing(old(v)@),
    ensures
        increasing(final(v)@),
        final(v)@.to_set() == old(v)@.to_set().insert(x),
{
    let mut i: usize = 0;
    while i < v.len() && v[i] < x
        invariant
            v@ == old(v)@,
            increasing(v@),
            i <= v@.len(),
            forall|j: int| 0 <= j < i ==> v@[j] < x,
        decreases v@.len() - i,
    {
        i = i + 1;
    }
    if i < v.len() && v[i] == x {
        assert(v@.to_set() =~= v@.to_set().insert(x));
        return;
    }
    let ghost s = v@;
    v.insert(i, x);
    proof {
        s.insert_ensures(i as int, x);
        assert forall|a: int, b: int| 0 <= a < b < v@.len() implies v@[a] < v@[b] by {
            if b < i {
            } else if b == i {
            } else if a < i {
                assert(s[i as int] > x);
                assert(v@[b] == s[b - 1]);
                assert(s[i as int] <= s[b - 1]);
            } else if a == i {
                assert(s[i as int] > x);
                assert(v@[b] == s[b - 1]);
                assert(s[i as int] <= s[b - 1]);
            } else {
                assert(v@[a] == s[a - 1] && v@[b] == s[b - 1]);
            }
        }
        assert forall|y: u64| #[trigger] v@.to_set().contains(y) == s.to_set().insert(x).contains(
            y,
        ) by {
            if v@.contains(y) {
                let k = choose|k: int| 0 <= k < v@.len() && v@[k] == y;
                if k < i {
                    assert(s[k] == y);
                } else if k > i {
                    assert(s[k - 1] == y);
                }
            }
            if s.contains(y) {
                let k = choose|k: int| 0 <= k < s.len() && s[k] == y;
                if k < i {
                    assert(v@[k] == y);
                } else {
                    assert(v@[k + 1] == y);
                }
            }
            if y == x {
                assert(v@[i as int] == x);
            }
        }
        assert(v@.to_set() =~= s.to_set().insert(x));
    }
}

fn sorted_remove_u64(v: &mut Vec<u64>, x: u64)
    requires
        increasing(old(v)@),
    ensures
        increasing(final(v)@),
        final(v)@.to_set() == old(v)@.to_set().remove(x),
{
    let mut i: usize = 0;
    while i < v.len()
        invariant
            v@ == old(v)@,
            increasing(v@),
            i <= v@.len(),
            forall|j: int| 0 <= j < i ==> v@[j] != x,
        decreases v@.len() - i,
    {
        if v[i] == x {
            let ghost s = v@;
            v.remove(i);
            proof {
                s.remove_ensures(i as int);
                assert forall|a: int, b: int| 0 <= a < b < v@.len() implies v@[a] < v@[b] by {
                    let sa = if a < i { a } else { a + 1 };
                    let sb = if b < i { b } else { b + 1 };
                    assert(v@[a] == s[sa] && v@[b] == s[sb]);
                }
                assert forall|y: u64| #[trigger] v@.to_set().contains(y) == s.to_set().remove(
                    x,
                ).contains(y) by {
                    if v@.contains(y) {
                        let k = choose|k: int| 0 <= k < v@.len() && v@[k] == y;
                        let sk = if k < i { k } else { k + 1 };
                        assert(s[sk] == y);
                        if y == x {
                            assert(s[i as int] == x);
                            assert(sk != i);
                        }
                    }
                    if s.contains(y) && y != x {
                        let k = choose|k: int| 0 <= k < s.len() && s[k] == y;
                        if k < i {
                            assert(v@[k] == y);
                        } else {
                            assert(k != i);
                            assert(v@[k - 1] == y);
                        }
                    }
                }
                assert(v@.to_set() =~= s.to_set().remove(x));
            }
            return;
        }
        i = i + 1;
    }
    assert(v@.to_set() =~= v@.to_set().remove(x));
}

// ---------------------------------------------------------------------------
// Fields
// ---------------------------------------------------------------------------

/// A copy of sorted fields: the same keys in the same order, the same data.
fn copy_fields(v: &Vec<FieldEntry>) -> (r: Vec<FieldEntry>)
    requires
        sorted_by_key(v@, field_key()),
    ensures
        sorted_by_key(r@, field_key()),
        keyed_map(r@, field_key(), field_val()) == keyed_map(v@, field_key(), field_val()),
{
    let mut out: Vec<FieldEntry> = Vec::new();
    let mut i: usize = 0;
    while i < v.len()
        invariant
            i <= v@.len(),
            out@.len() == i,
            forall|j: int| 0 <= j < i ==> (#[trigger] out@[j]).key == v@[j].key,
            keyed_map(out@, field_key(), field_val()) == keyed_map(
                v@.take(i as int),
                field_key(),
                field_val(),
            ),
        decreases v@.len() - i,
    {
        let ghost before = out@;
        assert(v@.take(i + 1).drop_last() =~= v@.take(i as int));
        assert(v@.take(i + 1).last() == v@[i as int]);
        let entry = FieldEntry { key: v[i].key, data: copy_bytes(v[i].data.as_slice()) };
        proof {
            lemma_keyed_push(before, field_key(), field_val(), entry);
        }
        out.push(entry);
        assert(keyed_map(out@, field_key(), field_val()) =~= keyed_map(
            v@.take(i + 1),
            field_key(),
            field_val(),
        ));
        i = i + 1;
    }
    assert(v@.take(v@.len() as int) =~= v@);
    assert forall|a: int, b: int| 0 <= a < b < out@.len() implies key_lt(
        field_key()(out@[a]),
        field_key()(out@[b]),
    ) by {
        assert(field_key()(v@[a]) == out@[a].key);
        assert(field_key()(v@[b]) == out@[b].key);
    }
    out
}

/// A copy of sorted collections: the same keys in the same order, the same
/// items.
fn copy_collections(v: &Vec<CollectionEntry>) -> (r: Vec<CollectionEntry>)
    requires
        sorted_by_key(v@, coll_key()),
    ensures
        sorted_by_key(r@, coll_key()),
        keyed_map(r@, coll_key(), coll_val()) == keyed_map(v@, coll_key(), coll_val()),
{
    let mut out: Vec<CollectionEntry> = Vec::new();
    let mut i: usize = 0;
    while i < v.len()
        invariant
            i <= v@.len(),
            out@.len() == i,
            forall|j: int| 0 <= j < i ==> (#[trigger] out@[j]).key == v@[j].key,
            keyed_map(out@, coll_key(), coll_val()) == keyed_map(
                v@.take(i as int),
                coll_key(),
                coll_val(),
            ),
        decreases v@.len() - i,
    {
        let ghost before = out@;
        assert(v@.take(i + 1).drop_last() =~= v@.take(i as int));
        assert(v@.take(i + 1).last() == v@[i as int]);
        let entry = CollectionEntry { key: v[i].key, items: copy_items(&v[i].items) };
        proof {
            lemma_keyed_push(before, coll_key(), coll_val(), entry);
        }
        out.push(entry);
        assert(keyed_map(out@, coll_key(), coll_val()) =~= keyed_map(
            v@.take(i + 1),
            coll_key(),
            coll_val(),
        ));
        i = i + 1;
    }
    assert(v@.take(v@.len() as int) =~= v@);
    assert forall|a: int, b: int| 0 <= a < b < out@.len() implies key_lt(
        coll_key()(out@[a]),
        coll_key()(out@[b]),
    ) by {
        assert(coll_key()(v@[a]) == out@[a].key);
        assert(coll_key()(v@[b]) == out@[b].key);
    }
    out
}

/// Finds where `key` is, or where it belongs, in a sorted vector of keys.
fn field_position(v: &Vec<FieldEntry>, key: &FieldKey) -> (r: (usize, bool))
    requires
        sorted_by_key(v@, field_key()),
    ensures
        r.0 <= v@.len(),
        forall|j: int| 0 <= j < r.0 ==> key_lt(#[trigger] v@[j].key, *key),
        r.1 ==> r.0 < v@.len() && v@[r.0 as int].key == *key,
        !r.1 ==> forall|j: int| r.0 <= j < v@.len() ==> key_lt(*key, #[trigger] v@[j].key),
{
    let mut i: usize = 0;
    while i < v.len() && key_lt_exec(&v[i].key, key)
        invariant
            i <= v@.len(),
            forall|j: int| 0 <= j < i ==> key_lt(#[trigger] v@[j].key, *key),
        decreases v@.len() - i,
    {
        i = i + 1;
    }
    if i < v.len() && key_eq_exec(&v[i].key, key) {
        (i, true)
    } else {
        proof {
            assert forall|j: int| i <= j < v@.len() implies key_lt(*key, #[trigger] v@[j].key) by {
                assert(key_lt(v@[i as int].key, v@[j].key) || j == i);
            }
        }
        (i, false)
    }
}

fn fields_put(v: &mut Vec<FieldEntry>, key: FieldKey, data: Vec<u8>)
    requires
        sorted_by_key(old(v)@, field_key()),
    ensures
        sorted_by_key(final(v)@, field_key()),
        keyed_map(final(v)@, field_key(), field_val()) == keyed_map(
            old(v)@,
            field_key(),
            field_val(),
        ).insert(key, data@),
{
    let (i, found) = field_position(v, &key);
    let ghost s = v@;
    let entry = FieldEntry { key, data };
    if found {
        proof {
            lemma_sorted_unique(s, field_key());
            lemma_keyed_update(s, field_key(), field_val(), i as int, entry);
        }
        v.set(i, entry);
        assert forall|a: int, b: int| 0 <= a < b < v@.len() implies key_lt(
            field_key()(v@[a]),
            field_key()(v@[b]),
        ) by {
            assert(v@[a].key == s[a].key && v@[b].key == s[b].key);
        }
    } else {
        proof {
            assert forall|j: int| 0 <= j < s.len() implies field_key()(#[trigger] s[j])
                != field_key()(entry) by {
                if j < i {
                    assert(key_lt(s[j].key, key));
                } else {
                    assert(key_lt(key, s[j].key));
                }
            }
            lemma_keyed_insert(s, field_key(), field_val(), i as int, entry);
            s.insert_ensures(i as int, entry);
        }
        v.insert(i, entry);
        assert forall|a: int, b: int| 0 <= a < b < v@.len() implies key_lt(
            field_key()(v@[a]),
            field_key()(v@[b]),
        ) by {
            if b < i {
            } else if b == i {
            } else if a <= i {
                assert(v@[b] == s[b - 1]);
            } else {
                assert(v@[a] == s[a - 1] && v@[b] == s[b - 1]);
            }
        }
    }
}

fn fields_without_entity(v: &Vec<FieldEntry>, e: u64) -> (r: Vec<FieldEntry>)
    requires
        sorted_by_key(v@, field_key()),
    ensures
        sorted_by_key(r@, field_key()),
        keyed_map(r@, field_key(), field_val()) == without_entity(
            keyed_map(v@, field_key(), field_val()),
            e,
        ),
{
    let mut out: Vec<FieldEntry> = Vec::new();
    let mut i: usize = 0;
    while i < v.len()
        invariant
            sorted_by_key(v@, field_key()),
            i <= v@.len(),
            sorted_by_key(out@, field_key()),
            forall|a: int, m: int|
                0 <= a < out@.len() && i <= m < v@.len() ==> key_lt(
                    #[trigger] out@[a].key,
                    #[trigger] v@[m].key,
                ),
            keyed_map(out@, field_key(), field_val()) == without_entity(
                keyed_map(v@.take(i as int), field_key(), field_val()),
                e,
            ),
        decreases v@.len() - i,
    {
        let ghost before = out@;
        let ghost m_before = keyed_map(v@.take(i as int), field_key(), field_val());
        assert(v@.take(i + 1).drop_last() =~= v@.take(i as int));
        assert(v@.take(i + 1).last() == v@[i as int]);
        if v[i].key.0 != e {
            let entry = FieldEntry { key: v[i].key, data: copy_bytes(v[i].data.as_slice()) };
            proof {
                lemma_keyed_push(before, field_key(), field_val(), entry);
            }
            out.push(entry);
            assert(keyed_map(out@, field_key(), field_val()) =~= without_entity(
                keyed_map(v@.take(i + 1), field_key(), field_val()),
                e,
            ));
        } else {
            assert(keyed_map(out@, field_key(), field_val()) =~= without_entity(
                keyed_map(v@.take(i + 1), field_key(), field_val()),
                e,
            ));
        }
        i = i + 1;
    }
    assert(v@.take(v@.len() as int) =~= v@);
    out
}

// ---------------------------------------------------------------------------
// Collections
// ---------------------------------------------------------------------------

/// The items of a collection after a change of type `ct` with `data`.
/// `Update` overwrites the first item equal to `data` with `data`, which
/// leaves the items as they were.
pub open spec fn changed_items(items: Seq<Seq<u8>>, ct: CollectionChangeType, data: Seq<u8>) -> Seq<
    Seq<u8>,
> {
    match ct {
        CollectionChangeType::Insert => items.push(data),
        CollectionChangeType::Remove => match items.index_of_first(data) {
            Some(i) => items.remove(i),
            None => items,
        },
        CollectionChangeType::Update => items,
        CollectionChangeType::Clear => Seq::empty(),
    }
}

fn first_equal(items: &Vec<Vec<u8>>, data: &Vec<u8>) -> (r: Option<usize>)
    ensures
        r matches Some(i) ==> i < items@.len() && items_view(items@).index_of_first(data@) == Some(
            i as int,
        ),
        r is None ==> items_view(items@).index_of_first(data@) is None,
{
    let ghost iv = items_view(items@);
    let mut i: usize = 0;
    while i < items.len()
        invariant
            iv == items_view(items@),
            i <= items@.len(),
            forall|j: int| 0 <= j < i ==> iv[j] != data@,
        decreases items@.len() - i,
    {
        if bytes_eq(items[i].as_slice(), data.as_slice()) {
            proof {
                assert(iv[i as int] == data@);
                assert(iv.contains(data@));
                iv.index_of_first_ensures(data@);
            }
            return Some(i);
        }
        i = i + 1;
    }
    proof {
        iv.index_of_first_ensures(data@);
        if iv.contains(data@) {
            let k = choose|k: int| 0 <= k < iv.len() && iv[k] == data@;
            assert(iv[k] != data@);
        }
    }
    None
}

fn change_items(items: &mut Vec<Vec<u8>>, ct: CollectionChangeType, data: &Vec<u8>)
    ensures
        items_view(final(items)@) == changed_items(items_view(old(items)@), ct, data@),
{
    let ghost iv = items_view(items@);
    match ct {
        CollectionChangeType::Insert => {
            items.push(copy_bytes(data.as_slice()));
            assert(items_view(items@) =~= iv.push(data@));
        },
        CollectionChangeType::Remove => {
            match first_equal(items, data) {
                Some(i) => {
                    items.remove(i);
                    assert(items_view(items@) =~= iv.remove(i as int));
                },
                None => {},
            }
        },
        CollectionChangeType::Update => {
            match first_equal(items, data) {
                Some(i) => {
                    proof {
                        iv.index_of_first_ensures(data@);
                    }
                    items.set(i, copy_bytes(data.as_slice()));
                    assert(items_view(items@) =~= iv);
                },
                None => {},
            }
        },
        CollectionChangeType::Clear => {
            items.clear();
            assert(items_view(items@) =~= Seq::<Seq<u8>>::empty());
        },
    }
}

fn collection_position(v: &Vec<CollectionEntry>, key: &FieldKey) -> (r: (usize, bool))
    requires
        sorted_by_key(v@, coll_key()),
    ensures
        r.0 <= v@.len(),
        forall|j: int| 0 <= j < r.0 ==> key_lt(#[trigger] v@[j].key, *key),
        r.1 ==> r.0 < v@.len() && v@[r.0 as int].key == *key,
        !r.1 ==> forall|j: int| r.0 <= j < v@.len() ==> key_lt(*key, #[trigger] v@[j].key),
{
    let mut i: usize = 0;
    while i < v.len() && key_lt_exec(&v[i].key, key)
        invariant
            i <= v@.len(),
            forall|j: int| 0 <= j < i ==> key_lt(#[trigger] v@[j].key, *key),
        decreases v@.len() - i,
    {
        i = i + 1;
    }
    if i < v.len() && key_eq_exec(&v[i].key, key) {
        (i, true)
    } else {
        proof {
            assert forall|j: int| i <= j < v@.len() implies key_lt(*key, #[trigger] v@[j].key) by {
                assert(key_lt(v@[i as int].key, v@[j].key) || j == i);
            }
        }
        (i, false)
    }
}

/// The items of the collection at `key`, or none.
pub open spec fn items_or_empty(m: Map<FieldKey, Seq<Seq<u8>>>, key: FieldKey) -> Seq<Seq<u8>> {
    if m.dom().contains(key) {
        m[key]
    } else {
        Seq::empty()
    }
}

fn collections_apply(
    v: &mut Vec<CollectionEntry>,
    key: FieldKey,
    ct: CollectionChangeType,
    data: &Vec<u8>,
)
    requires
        sorted_by_key(old(v)@, coll_key()),
    ensures
        sorted_by_key(final(v)@, coll_key()),
        keyed_map(final(v)@, coll_key(), coll_val()) == keyed_map(
            old(v)@,
            coll_key(),
            coll_val(),
        ).insert(
            key,
            changed_items(
                items_or_empty(keyed_map(old(v)@, coll_key(), coll_val()), key),
                ct,
                data@,
            ),
        ),
{
    let (i, found) = collection_position(v, &key);
    let ghost s = v@;
    let ghost m = keyed_map(s, coll_key(), coll_val());
    if found {
        proof {
            lemma_sorted_unique(s, coll_key());
            crate::keyed::lemma_keyed_index(s, coll_key(), coll_val(), i as int);
        }
        let mut items = copy_items(&v[i].items);
        change_items(&mut items, ct, data);
        let entry = CollectionEntry { key, items };
        proof {
            lemma_keyed_update(s, coll_key(), coll_val(), i as int, entry);
        }
        v.set(i, entry);
        assert forall|a: int, b: int| 0 <= a < b < v@.len() implies key_lt(
            coll_key()(v@[a]),
            coll_key()(v@[b]),
        ) by {
            assert(v@[a].key == s[a].key && v@[b].key == s[b].key);
        }
    } else {
        let mut items: Vec<Vec<u8>> = Vec::new();
        change_items(&mut items, ct, data);
        let entry = CollectionEntry { key, items };
        proof {
            assert forall|j: int| 0 <= j < s.len() implies coll_key()(#[trigger] s[j])
                != coll_key()(entry) by {
                if j < i {
                    assert(key_lt(s[j].key, key));
                } else {
                    assert(key_lt(key, s[j].key));
                }
            }
            lemma_keyed_dom(s, coll_key(), coll_val(), key);
            assert(items_view(Seq::<Vec<u8>>::empty()) =~= Seq::<Seq<u8>>::empty());
            lemma_keyed_insert(s, coll_key(), coll_val(), i as int, entry);
            s.insert_ensures(i as int, entry);
        }
        v.insert(i, entry);
        assert forall|a: int, b: int| 0 <= a < b < v@.len() implies key_lt(
            coll_key()(v@[a]),
            coll_key()(v@[b]),
        ) by {
            if b < i {
            } else if b == i {
            } else if a <= i {
                assert(v@[b] == s[b - 1]);
            } else {
                assert(v@[a] == s[a - 1] && v@[b] == s[b - 1]);
            }
        }
    }
}

fn collections_without_entity(v: &Vec<CollectionEntry>, e: u64) -> (r: Vec<CollectionEntry>)
    requires
        sorted_by_key(v@, coll_key()),
    ensures
        sorted_by_key(r@, coll_key()),
        keyed_map(r@, coll_key(), coll_val()) == without_entity(
            keyed_map(v@, coll_key(), coll_val()),
            e,
        ),
{
    let mut out: Vec<CollectionEntry> = Vec::new();
    let mut i: usize = 0;
    while i < v.len()
        invariant
            sorted_by_key(v@, coll_key()),
            i <= v@.len(),
            sorted_by_key(out@, coll_key()),
            forall|a: int, m: int|
                0 <= a < out@.len() && i <= m < v@.len() ==> key_lt(
                    #[trigger] out@[a].key,
                    #[trigger] v@[m].key,
                ),
            keyed_map(out@, coll_key(), coll_val()) == without_entity(
                keyed_map(v@.take(i as int), coll_key(), coll_val()),
                e,
            ),
        decreases v@.len() - i,
    {
        let ghost before = out@;
        assert(v@.take(i + 1).drop_last() =~= v@.take(i as int));
        assert(v@.take(i + 1).last() == v@[i as int]);
        if v[i].key.0 != e {
            let entry = CollectionEntry { key: v[i].key, items: copy_items(&v[i].items) };
            proof {
                lemma_keyed_push(before, coll_key(), coll_val(), entry);
            }
            out.push(entry);
            assert(keyed_map(out@, coll_key(), coll_val()) =~= without_entity(
                keyed_map(v@.take(i + 1), coll_key(), coll_val()),
                e,
            ));
        } else {
            assert(keyed_map(out@, coll_key(), coll_val()) =~= without_entity(
                keyed_map(v@.take(i + 1), coll_key(), coll_val()),
                e,
            ));
        }
        i = i + 1;
    }
    assert(v@.take(v@.len() as int) =~= v@);
    out
}

// ---------------------------------------------------------------------------
// The state
// ---------------------------------------------------------------------------

/// The content of a key-value state: the set of entities, the bytes of each
/// field, and the items of each collection.
#[verifier::ext_equal]
pub struct KvView {
    pub entities: Set<u64>,
    pub fields: Map<FieldKey, Seq<u8>>,
    pub collections: Map<FieldKey, Seq<Seq<u8>>>,
}

/// The state with no entity, field or collection.
pub open spec fn empty_kv() -> KvView {
    KvView { entities: Set::empty(), fields: Map::empty(), collections: Map::empty() }
}

/// Deterministic key-value entity state implementation of `DeltaApplicable`.
/// It tracks entities, components, fields, and collections.
#[derive(Debug, PartialEq, Eq)]
pub struct KeyValueDomainState {
    entities: Vec<u64>,
    fields: Vec<FieldEntry>,
    collections: Vec<CollectionEntry>,
}

impl View for KeyValueDomainState {
    type V = KvView;

    closed spec fn view(&self) -> KvView {
        KvView {
            entities: self.entities@.to_set(),
            fields: keyed_map(self.fields@, field_key(), field_val()),
            collections: keyed_map(self.collections@, coll_key(), coll_val()),
        }
    }
}

// ---------------------------------------------------------------------------
// Semantics of a delta
// ---------------------------------------------------------------------------

/// Whether entity `e` exists, or was added earlier in the same delta.
pub open spec fn known(v: KvView, added: Set<u64>, e: u64) -> bool {
    v.entities.contains(e) || added.contains(e)
}

/// Validation of the operations from index `i` on, given the entities added
/// and removed by the operations before `i`. The first offending operation
/// decides the error.
pub open spec fn check_ops(
    v: KvView,
    ops: Seq<DeltaOpV>,
    i: int,
    added: Set<u64>,
    removed: Set<u64>,
) -> Result<(), DeltaError>
    decreases ops.len() - i,
{
    if i < 0 || i >= ops.len() {
        Ok(())
    } else {
        match ops[i] {
            DeltaOpV::AddEntity { entity_id, .. } => if v.entities.contains(entity_id) {
                Err(DeltaError::EntityAlreadyExists(entity_id))
            } else if removed.contains(entity_id) {
                Err(DeltaError::ConflictingDelta("Adding and removing same entity"))
            } else {
                check_ops(v, ops, i + 1, added.insert(entity_id), removed)
            },
            DeltaOpV::RemoveEntity { entity_id } => if !known(v, added, entity_id) {
                Err(DeltaError::EntityNotFound(entity_id))
            } else {
                check_ops(v, ops, i + 1, added, removed.insert(entity_id))
            },
            DeltaOpV::UpdateField { entity_id, data, .. } => if removed.contains(entity_id) {
                Err(DeltaError::ConflictingDelta("Updating removed entity"))
            } else if !known(v, added, entity_id) {
                Err(DeltaError::EntityNotFound(entity_id))
            } else if data.len() == 0 {
                Err(DeltaError::MalformedData("Field data is empty"))
            } else {
                check_ops(v, ops, i + 1, added, removed)
            },
            DeltaOpV::CollectionChange { entity_id, .. } => if !known(v, added, entity_id) {
                Err(DeltaError::EntityNotFound(entity_id))
            } else {
                check_ops(v, ops, i + 1, added, removed)
            },
        }
    }
}

/// The state after one operation.
pub open spec fn apply_op(v: KvView, op: DeltaOpV) -> KvView {
    match op {
        DeltaOpV::AddEntity { entity_id, .. } => KvView {
            entities: v.entities.insert(entity_id),
            ..v
        },
        DeltaOpV::RemoveEntity { entity_id } => KvView {
            entities: v.entities.remove(entity_id),
            fields: without_entity(v.fields, entity_id),
            collections: without_entity(v.collections, entity_id),
        },
        DeltaOpV::UpdateField { entity_id, component_id, field_id, data } => KvView {
            fields: v.fields.insert((entity_id, component_id, field_id), data),
            ..v
        },
        DeltaOpV::CollectionChange {
            entity_id,
            component_id,
            collection_id,
            change_type,
            data,
        } => {
            let key = (entity_id, component_id, collection_id);
            KvView {
                collections: v.collections.insert(
                    key,
                    changed_items(items_or_empty(v.collections, key), change_type, data),
                ),
                ..v
            }
        },
    }
}

/// The state after the operations from index `i` on, in order.
pub open spec fn apply_ops(v: KvView, ops: Seq<DeltaOpV>, i: int) -> KvView
    decreases ops.len() - i,
{
    if i < 0 || i >= ops.len() {
        v
    } else {
        apply_ops(apply_op(v, ops[i]), ops, i + 1)
    }
}

/// The outcome of applying `ops` to `v`: the verdict of validation, and the
/// resulting state (unchanged when validation fails).
pub open spec fn delta_outcome(v: KvView, ops: Seq<DeltaOpV>) -> (Result<(), DeltaError>, KvView) {
    match check_ops(v, ops, 0, Set::empty(), Set::empty()) {
        Ok(()) => (Ok(()), apply_ops(v, ops, 0)),
        Err(e) => (Err(e), v),
    }
}

impl KeyValueDomainState {
    #[verifier::type_invariant]
    spec fn inv(self) -> bool {
        &&& increasing(self.entities@)
        &&& sorted_by_key(self.fields@, field_key())
        &&& sorted_by_key(self.collections@, coll_key())
    }

    /// An empty state.
    pub fn new() -> (r: Self)
        ensures
            r@ == empty_kv(),
    {
        let r = KeyValueDomainState { entities: Vec::new(), fields: Vec::new(), collections: Vec::new() };
        assert(r@.entities =~= Set::<u64>::empty());
        r
    }

    /// Whether the entity exists.
    pub fn contains_entity(&self, entity_id: u64) -> (r: bool)
        ensures
            r == self@.entities.contains(entity_id),
    {
        vec_contains_u64(&self.entities, entity_id)
    }

    /// Adds an entity directly (no delta validation).
    pub fn insert_entity(&mut self, entity_id: u64)
        ensures
            final(self)@ == (KvView { entities: old(self)@.entities.insert(entity_id), ..old(self)@ }),
    {
        proof {
            use_type_invariant(&*self);
        }
        let mut entities: Vec<u64> = Vec::new();
        std::mem::swap(&mut entities, &mut self.entities);
        sorted_insert_u64(&mut entities, entity_id);
        self.entities = entities;
    }

    /// The bytes of a field, if set.
    pub fn field(&self, entity_id: u64, component_id: u32, field_id: u32) -> (r: Option<Vec<u8>>)
        ensures
            match r {
                Some(d) => self@.fields.dom().contains((entity_id, component_id, field_id)) && d@
                    == self@.fields[(entity_id, component_id, field_id)],
                None => !self@.fields.dom().contains((entity_id, component_id, field_id)),
            },
    {
        proof {
            use_type_invariant(self);
            lemma_sorted_unique(self.fields@, field_key());
        }
        let key = (entity_id, component_id, field_id);
        let (i, found) = field_position(&self.fields, &key);
        if found {
            proof {
                crate::keyed::lemma_keyed_index(self.fields@, field_key(), field_val(), i as int);
            }
            Some(copy_bytes(self.fields[i].data.as_slice()))
        } else {
            proof {
                lemma_keyed_dom(self.fields@, field_key(), field_val(), key);
                assert forall|j: int| 0 <= j < self.fields@.len() implies field_key()(
                    #[trigger] self.fields@[j],
                ) != key by {
                    if j < i {
                        assert(key_lt(self.fields@[j].key, key));
                    } else {
                        assert(key_lt(key, self.fields@[j].key));
                    }
                }
            }
            None
        }
    }

    /// The items of a collection, if it exists.
    pub fn collection(&self, entity_id: u64, component_id: u32, collection_id: u32) -> (r: Option<
        Vec<Vec<u8>>,
    >)
        ensures
            match r {
                Some(d) => self@.collections.dom().contains((entity_id, component_id, collection_id))
                    && items_view(d@) == self@.collections[(entity_id, component_id, collection_id)],
                None => !self@.collections.dom().contains((entity_id, component_id, collection_id)),
            },
    {
        proof {
            use_type_invariant(self);
            lemma_sorted_unique(self.collections@, coll_key());
        }
        let key = (entity_id, component_id, collection_id);
        let (i, found) = collection_position(&self.collections, &key);
        if found {
            proof {
                crate::keyed::lemma_keyed_index(self.collections@, coll_key(), coll_val(), i as int);
            }
            Some(copy_items(&self.collections[i].items))
        } else {
            proof {
                lemma_keyed_dom(self.collections@, coll_key(), coll_val(), key);
                assert forall|j: int| 0 <= j < self.collections@.len() implies coll_key()(
                    #[trigger] self.collections@[j],
                ) != key by {
                    if j < i {
                        assert(key_lt(self.collections@[j].key, key));
                    } else {
                        assert(key_lt(key, self.collections@[j].key));
                    }
                }
            }
            None
        }
    }

    fn apply_one(&mut self, op: &DeltaOp)
        ensures
            final(self)@ == apply_op(old(self)@, op@),
    {
        proof {
            use_type_invariant(&*self);
        }
        match op {
            DeltaOp::AddEntity { entity_id, .. } => {
                let mut entities: Vec<u64> = Vec::new();
                std::mem::swap(&mut entities, &mut self.entities);
                sorted_insert_u64(&mut entities, *entity_id);
                self.entities = entities;
                assert(self@ =~= apply_op(old(self)@, op@));
            },
            DeltaOp::RemoveEntity { entity_id } => {
                let mut entities: Vec<u64> = Vec::new();
                std::mem::swap(&mut entities, &mut self.entities);
                sorted_remove_u64(&mut entities, *entity_id);
                self.entities = entities;
                let f = fields_without_entity(&self.fields, *entity_id);
                self.fields = f;
                let c = collections_without_entity(&self.collections, *entity_id);
                self.collections = c;
                assert(self@ =~= apply_op(old(self)@, op@));
            },
            DeltaOp::UpdateField { entity_id, component_id, field_id, data } => {
                let mut fields: Vec<FieldEntry> = Vec::new();
                std::mem::swap(&mut fields, &mut self.fields);
                fields_put(&mut fields, (*entity_id, *component_id, *field_id), copy_bytes(data.as_slice()));
                self.fields = fields;
                assert(self@ =~= apply_op(old(self)@, op@));
            },
            DeltaOp::CollectionChange {
                entity_id,
                component_id,
                collection_id,
                change_type,
                data,
            } => {
                let mut collections: Vec<CollectionEntry> = Vec::new();
                std::mem::swap(&mut collections, &mut self.collections);
                collections_apply(
                    &mut collections,
                    (*entity_id, *component_id, *collection_id),
                    *change_type,
                    data,
                );
                self.collections = collections;
                assert(self@ =~= apply_op(old(self)@, op@));
            },
        }
    }
}

impl Clone for KeyValueDomainState {
    /// A copy holding the same entities, fields and collections.
    fn clone(&self) -> (r: Self)
        ensures
            r@ == self@,
    {
        proof {
            use_type_invariant(self);
        }
        let mut entities: Vec<u64> = Vec::new();
        let mut i: usize = 0;
        while i < self.entities.len()
            invariant
                i <= self.entities@.len(),
                entities@ == self.entities@.take(i as int),
            decreases self.entities@.len() - i,
        {
            assert(self.entities@.take(i + 1) =~= entities@.push(self.entities@[i as int]));
            entities.push(self.entities[i]);
            i = i + 1;
        }
        assert(self.entities@.take(self.entities@.len() as int) =~= self.entities@);
        let fields = copy_fields(&self.fields);
        let collections = copy_collections(&self.collections);
        KeyValueDomainState { entities, fields, collections }
    }
}

impl Default for KeyValueDomainState {
    fn default() -> (r: Self)
        ensures
            r@ == empty_kv(),
    {
        Self::new()
    }
}

impl DeltaApplicable for KeyValueDomainState {
    /// Validates the whole delta first and applies it only when every
    /// operation is valid, so that a rejected delta leaves the state as it
    /// was.
    fn apply_delta(&mut self, delta: &StateDelta) -> (r: Result<(), DeltaError>)
        ensures
            r == delta_outcome(old(self)@, delta@).0,
            final(self)@ == delta_outcome(old(self)@, delta@).1,
    {
        let ghost v0 = self@;
        let ghost ops = delta@;
        let mut added: Vec<u64> = Vec::new();
        let mut removed: Vec<u64> = Vec::new();
        assert(added@.to_set() =~= Set::<u64>::empty());
        assert(removed@.to_set() =~= Set::<u64>::empty());
        let mut i: usize = 0;
        while i < delta.ops.len()
            invariant
                self@ == v0,
                ops == delta@,
                i <= delta.ops@.len(),
                check_ops(v0, ops, 0, Set::empty(), Set::empty()) == check_ops(
                    v0,
                    ops,
                    i as int,
                    added@.to_set(),
                    removed@.to_set(),
                ),
            decreases delta.ops@.len() - i,
        {
            let op = &delta.ops[i];
            assert(ops[i as int] == op@);
            match op {
                DeltaOp::AddEntity { entity_id, .. } => {
                    if self.contains_entity(*entity_id) {
                        return Err(DeltaError::EntityAlreadyExists(*entity_id));
                    }
                    if vec_contains_u64(&removed, *entity_id) {
                        return Err(DeltaError::ConflictingDelta("Adding and removing same entity"));
                    }
                    proof {
                        added@.lemma_push_to_set_commute(*entity_id);
                    }
                    added.push(*entity_id);
                },
                DeltaOp::RemoveEntity { entity_id } => {
                    if !self.contains_entity(*entity_id) && !vec_contains_u64(&added, *entity_id) {
                        return Err(DeltaError::EntityNotFound(*entity_id));
                    }
                    proof {
                        removed@.lemma_push_to_set_commute(*entity_id);
                    }
                    removed.push(*entity_id);
                },
                DeltaOp::UpdateField { entity_id, data, .. } => {
                    if vec_contains_u64(&removed, *entity_id) {
                        return Err(DeltaError::ConflictingDelta("Updating removed entity"));
                    }
                    if !self.contains_entity(*entity_id) && !vec_contains_u64(&added, *entity_id) {
                        return Err(DeltaError::EntityNotFound(*entity_id));
                    }
                    if data.len() == 0 {
                        return Err(DeltaError::MalformedData("Field data is empty"));
                    }
                },
                DeltaOp::CollectionChange { entity_id, .. } => {
                    if !self.contains_entity(*entity_id) && !vec_contains_u64(&added, *entity_id) {
                        return Err(DeltaError::EntityNotFound(*entity_id));
                    }
                },
            }
            i = i + 1;
        }
        let mut j: usize = 0;
        while j < delta.ops.len()
            invariant
                ops == delta@,
                j <= delta.ops@.len(),
                check_ops(v0, ops, 0, Set::empty(), Set::empty()) == Ok::<(), DeltaError>(()),
                apply_ops(v0, ops, 0) == apply_ops(self@, ops, j as int),
            decreases delta.ops@.len() - j,
        {
            let op = &delta.ops[j];
            assert(ops[j as int] == op@);
            self.apply_one(op);
            j = j + 1;
        }
        Ok(())
    }
}

// ---------------------------------------------------------------------------
// Canonical encoding
// ---------------------------------------------------------------------------

/// The entities, in increasing order.
pub open spec fn sorted_entities(s: Set<u64>) -> Seq<u64> {
    choose|q: Seq<u64>| increasing(q) && q.to_set() == s
}

/// Keys strictly increasing in key order.
pub open spec fn keys_sorted(q: Seq<FieldKey>) -> bool {
    forall|i: int, j: int| 0 <= i < j < q.len() ==> key_lt(q[i], q[j])
}

/// The keys of a set, in key order.
pub open spec fn sorted_keys(d: Set<FieldKey>) -> Seq<FieldKey> {
    choose|q: Seq<FieldKey>| keys_sorted(q) && q.to_set() == d
}

pub open spec fn enc_key(k: FieldKey) -> Seq<u8> {
    enc_u64(k.0) + enc_u32(k.1) + enc_u32(k.2)
}

pub open spec fn enc_u64_list(es: Seq<u64>) -> Seq<u8>
    decreases es.len(),
{
    if es.len() == 0 {
        Seq::empty()
    } else {
        enc_u64_list(es.drop_last()) + enc_u64(es.last())
    }
}

pub open spec fn enc_items(items: Seq<Seq<u8>>) -> Seq<u8>
    decreases items.len(),
{
    if items.len() == 0 {
        Seq::empty()
    } else {
        enc_items(items.drop_last()) + enc_bytes(items.last())
    }
}

pub open spec fn enc_field_list(keys: Seq<FieldKey>, m: Map<FieldKey, Seq<u8>>) -> Seq<u8>
    decreases keys.len(),
{
    if keys.len() == 0 {
        Seq::empty()
    } else {
        enc_field_list(keys.drop_last(), m) + enc_key(keys.last()) + enc_bytes(m[keys.last()])
    }
}

pub open spec fn enc_coll_list(keys: Seq<FieldKey>, m: Map<FieldKey, Seq<Seq<u8>>>) -> Seq<u8>
    decreases keys.len(),
{
    if keys.len() == 0 {
        Seq::empty()
    } else {
        enc_coll_list(keys.drop_last(), m) + enc_key(keys.last()) + enc_u32(
            m[keys.last()].len() as u32,
        ) + enc_items(m[keys.last()])
    }
}

/// The canonical bytes of a state: the entities in increasing order, then
/// each field as (key, bytes) and each collection as (key, items), in key
/// order; every list and byte string carries its length as a `u32`.
pub open spec fn canonical_bytes(v: KvView) -> Seq<u8> {
    let es = sorted_entities(v.entities);
    let fk = sorted_keys(v.fields.dom());
    let ck = sorted_keys(v.collections.dom());
    enc_u32(es.len() as u32) + enc_u64_list(es) + enc_u32(fk.len() as u32) + enc_field_list(
        fk,
        v.fields,
    ) + enc_u32(ck.len() as u32) + enc_coll_list(ck, v.collections)
}

/// Every length in the canonical bytes fits its `u32` prefix.
pub open spec fn canonical_fits(v: KvView) -> bool {
    &&& sorted_entities(v.entities).len() <= u32::MAX
    &&& sorted_keys(v.fields.dom()).len() <= u32::MAX
    &&& sorted_keys(v.collections.dom()).len() <= u32::MAX
    &&& forall|k: FieldKey| #[trigger] v.fields.dom().contains(k) ==> v.fields[k].len() <= u32::MAX
    &&& forall|k: FieldKey| #[trigger]
        v.collections.dom().contains(k) ==> v.collections[k].len() <= u32::MAX && forall|j: int|
            0 <= j < v.collections[k].len() ==> (#[trigger] v.collections[k][j]).len()
                <= u32::MAX
}

pub proof fn lemma_increasing_unique(a: Seq<u64>, b: Seq<u64>)
    requires
        increasing(a),
        increasing(b),
        a.to_set() == b.to_set(),
    ensures
        a == b,
    decreases a.len(),
{
    if a.len() == 0 {
        if b.len() > 0 {
            assert(b.to_set().contains(b[0]));
        }
        assert(a =~= b);
    } else {
        assert(a.to_set().contains(a[0]));
        assert(b.to_set().contains(a[0]));
        let j = choose|j: int| 0 <= j < b.len() && b[j] == a[0];
        assert(b.len() > 0);
        assert(a.to_set().contains(b[0]));
        let i = choose|i: int| 0 <= i < a.len() && a[i] == b[0];
        assert(a[0] <= a[i]);
        assert(b[0] <= b[j]);
        assert(a[0] == b[0]);
        let a1 = a.drop_first();
        let b1 = b.drop_first();
        assert forall|x: u64| #[trigger] a1.to_set().contains(x) == b1.to_set().contains(x) by {
            if a1.contains(x) {
                let k = choose|k: int| 0 <= k < a1.len() && a1[k] == x;
                assert(a[k + 1] == x);
                assert(x != a[0]);
                assert(b.to_set().contains(x));
                let kb = choose|kb: int| 0 <= kb < b.len() && b[kb] == x;
                assert(kb != 0);
                assert(b1[kb - 1] == x);
            }
            if b1.contains(x) {
                let k = choose|k: int| 0 <= k < b1.len() && b1[k] == x;
                assert(b[k + 1] == x);
                assert(x != b[0]);
                assert(a.to_set().contains(x));
                let ka = choose|ka: int| 0 <= ka < a.len() && a[ka] == x;
                assert(ka != 0);
                assert(a1[ka - 1] == x);
            }
        }
        assert(a1.to_set() =~= b1.to_set());
        lemma_increasing_unique(a1, b1);
        assert(a =~= b) by {
            assert forall|k: int| 0 <= k < a.len() implies a[k] == b[k] by {
                if k > 0 {
                    assert(a[k] == a1[k - 1] && b[k] == b1[k - 1]);
                }
            }
        }
    }
}

pub proof fn lemma_keys_sorted_unique(a: Seq<FieldKey>, b: Seq<FieldKey>)
    requires
        keys_sorted(a),
        keys_sorted(b),
        a.to_set() == b.to_set(),
    ensures
        a == b,
    decreases a.len(),
{
    if a.len() == 0 {
        if b.len() > 0 {
            assert(b.to_set().contains(b[0]));
        }
        assert(a =~= b);
    } else {
        assert(a.to_set().contains(a[0]));
        assert(b.to_set().contains(a[0]));
        let j = choose|j: int| 0 <= j < b.len() && b[j] == a[0];
        assert(b.len() > 0);
        assert(a.to_set().contains(b[0]));
        let i = choose|i: int| 0 <= i < a.len() && a[i] == b[0];
        assert(i == 0 || key_lt(a[0], a[i]));
        assert(j == 0 || key_lt(b[0], b[j]));
        assert(a[0] == b[0]);
        let a1 = a.drop_first();
        let b1 = b.drop_first();
        assert forall|x: FieldKey| #[trigger] a1.to_set().contains(x) == b1.to_set().contains(x) by {
            if a1.contains(x) {
                let k = choose|k: int| 0 <= k < a1.len() && a1[k] == x;
                assert(a[k + 1] == x);
                assert(key_lt(a[0], a[k + 1]));
                assert(b.to_set().contains(x));
                let kb = choose|kb: int| 0 <= kb < b.len() && b[kb] == x;
                assert(kb != 0);
                assert(b1[kb - 1] == x);
            }
            if b1.contains(x) {
                let k = choose|k: int| 0 <= k < b1.len() && b1[k] == x;
                assert(b[k + 1] == x);
                assert(key_lt(b[0], b[k + 1]));
                assert(a.to_set().contains(x));
                let ka = choose|ka: int| 0 <= ka < a.len() && a[ka] == x;
                assert(ka != 0);
                assert(a1[ka - 1] == x);
            }
        }
        assert(a1.to_set() =~= b1.to_set());
        lemma_keys_sorted_unique(a1, b1);
        assert(a =~= b) by {
            assert forall|k: int| 0 <= k < a.len() implies a[k] == b[k] by {
                if k > 0 {
                    assert(a[k] == a1[k - 1] && b[k] == b1[k - 1]);
                }
            }
        }
    }
}

/// A sorted entry vector lists, in order, exactly the sorted keys of its map.
pub proof fn lemma_sorted_keys_of<T, V>(s: Seq<T>, key: spec_fn(T) -> FieldKey, val: spec_fn(T) -> V)
    requires
        sorted_by_key(s, key),
    ensures
        sorted_keys(keyed_map(s, key, val).dom()) == s.map_values(key),
        s.map_values(key).to_set() == keyed_map(s, key, val).dom(),
{
    let q = s.map_values(key);
    assert(keys_sorted(q));
    assert forall|k: FieldKey| #[trigger] q.to_set().contains(k) == keyed_map(s, key, val).dom().contains(k) by {
        lemma_keyed_dom(s, key, val, k);
        if q.contains(k) {
            let i = choose|i: int| 0 <= i < q.len() && q[i] == k;
            assert(key(s[i]) == k);
        }
        if keyed_map(s, key, val).dom().contains(k) {
            let i = choose|i: int| 0 <= i < s.len() && key(s[i]) == k;
            assert(q[i] == k);
        }
    }
    assert(q.to_set() =~= keyed_map(s, key, val).dom());
    let c = sorted_keys(keyed_map(s, key, val).dom());
    assert(keys_sorted(c) && c.to_set() == keyed_map(s, key, val).dom());
    lemma_keys_sorted_unique(c, q);
}

pub proof fn lemma_sorted_entities_of(s: Seq<u64>)
    requires
        increasing(s),
    ensures
        sorted_entities(s.to_set()) == s,
{
    let c = sorted_entities(s.to_set());
    assert(increasing(c) && c.to_set() == s.to_set());
    lemma_increasing_unique(c, s);
}

const U32_MAX_LEN: usize = 0xFFFF_FFFF;

fn write_key(out: &mut Vec<u8>, k: &FieldKey)
    ensures
        final(out)@ == old(out)@ + enc_key(*k),
{
    write_u64(out, k.0);
    write_u32(out, k.1);
    write_u32(out, k.2);
    assert(out@ =~= old(out)@ + enc_key(*k));
}

/// Appends the items of one collection, or returns false (having written
/// some of them) when a length does not fit a `u32`.
fn write_items(out: &mut Vec<u8>, items: &Vec<Vec<u8>>) -> (ok: bool)
    ensures
        ok == (items@.len() <= u32::MAX && forall|j: int|
            0 <= j < items@.len() ==> (#[trigger] items@[j])@.len() <= u32::MAX),
        ok ==> final(out)@ == old(out)@ + enc_u32(items@.len() as u32) + enc_items(
            items_view(items@),
        ),
{
    if items.len() > U32_MAX_LEN {
        return false;
    }
    write_u32(out, items.len() as u32);
    let ghost start = out@;
    let mut i: usize = 0;
    while i < items.len()
        invariant
            i <= items@.len(),
            items@.len() <= u32::MAX,
            start == old(out)@ + enc_u32(items@.len() as u32),
            out@ == start + enc_items(items_view(items@.take(i as int))),
            forall|j: int| 0 <= j < i ==> (#[trigger] items@[j])@.len() <= u32::MAX,
        decreases items@.len() - i,
    {
        if items[i].len() > U32_MAX_LEN {
            return false;
        }
        let ghost before = out@;
        write_bytes(out, items[i].as_slice());
        proof {
            let t1 = items_view(items@.take(i + 1));
            assert(items@.take(i + 1).drop_last() =~= items@.take(i as int));
            assert(t1.drop_last() =~= items_view(items@.take(i as int)));
            assert(t1.last() == items@[i as int]@);
        }
        assert(out@ =~= start + enc_items(items_view(items@.take(i + 1))));
        i = i + 1;
    }
    assert(items@.take(items@.len() as int) =~= items@);
    true
}

impl DeterministicStateDomain for KeyValueDomainState {
    /// The canonical bytes: see `canonical_bytes`.
    fn canonicalize(&self) -> (r: Result<Vec<u8>, StateSerializationError>)
        ensures
            r is Ok <==> canonical_fits(self@),
            r matches Ok(b) ==> b@ == canonical_bytes(self@),
            canonically_listed(self@),
            r is Err ==> r == Err::<Vec<u8>, StateSerializationError>(
                StateSerializationError::SerializationFailed("length does not fit in u32"),
            ),
    {
        proof {
            use_type_invariant(self);
            lemma_sorted_entities_of(self.entities@);
            lemma_sorted_keys_of(self.fields@, field_key(), field_val());
            lemma_sorted_keys_of(self.collections@, coll_key(), coll_val());
            lemma_sorted_unique(self.fields@, field_key());
            lemma_sorted_unique(self.collections@, coll_key());
            assert(canonically_listed(self@));
        }
        let ghost v = self@;
        let ghost fk = self.fields@.map_values(field_key());
        let ghost ck = self.collections@.map_values(coll_key());
        let mut out: Vec<u8> = Vec::new();
        // entities
        if self.entities.len() > U32_MAX_LEN {
            return Err(StateSerializationError::SerializationFailed("length does not fit in u32"));
        }
        write_u32(&mut out, self.entities.len() as u32);
        let mut i: usize = 0;
        while i < self.entities.len()
            invariant
                i <= self.entities@.len(),
                self.entities@.len() <= u32::MAX,
                out@ == enc_u32(self.entities@.len() as u32) + enc_u64_list(
                    self.entities@.take(i as int),
                ),
            decreases self.entities@.len() - i,
        {
            write_u64(&mut out, self.entities[i]);
            assert(self.entities@.take(i + 1).drop_last() =~= self.entities@.take(i as int));
            i = i + 1;
        }
        assert(self.entities@.take(self.entities@.len() as int) =~= self.entities@);
        let ghost after_entities = out@;
        // fields
        if self.fields.len() > U32_MAX_LEN {
            return Err(StateSerializationError::SerializationFailed("length does not fit in u32"));
        }
        write_u32(&mut out, self.fields.len() as u32);
        let ghost fstart = out@;
        let mut i: usize = 0;
        while i < self.fields.len()
            invariant
                canonically_listed(self@),
                fk == self.fields@.map_values(field_key()),
                v == self@,
                keys_unique(self.fields@, field_key()),
                i <= self.fields@.len(),
                out@ == fstart + enc_field_list(fk.take(i as int), v.fields),
                forall|j: int| 0 <= j < i ==> (#[trigger] self.fields@[j]).data@.len() <= u32::MAX,
            decreases self.fields@.len() - i,
        {
            if self.fields[i].data.len() > U32_MAX_LEN {
                proof {
                    crate::keyed::lemma_keyed_index(self.fields@, field_key(), field_val(), i as int);
                }
                return Err(StateSerializationError::SerializationFailed("length does not fit in u32"));
            }
            write_key(&mut out, &self.fields[i].key);
            write_bytes(&mut out, self.fields[i].data.as_slice());
            proof {
                crate::keyed::lemma_keyed_index(self.fields@, field_key(), field_val(), i as int);
                assert(fk.take(i + 1).drop_last() =~= fk.take(i as int));
                assert(fk.take(i + 1).last() == self.fields@[i as int].key);
            }
            i = i + 1;
        }
        assert(fk.take(fk.len() as int) =~= fk);
        // collections
        if self.collections.len() > U32_MAX_LEN {
            return Err(StateSerializationError::SerializationFailed("length does not fit in u32"));
        }
        write_u32(&mut out, self.collections.len() as u32);
        let ghost cstart = out@;
        let mut i: usize = 0;
        while i < self.collections.len()
            invariant
                canonically_listed(self@),
                ck == self.collections@.map_values(coll_key()),
                v == self@,
                keys_unique(self.collections@, coll_key()),
                i <= self.collections@.len(),
                out@ == cstart + enc_coll_list(ck.take(i as int), v.collections),
                forall|j: int|
                    0 <= j < i ==> (#[trigger] self.collections@[j]).items@.len() <= u32::MAX
                        && forall|m: int|
                        0 <= m < self.collections@[j].items@.len()
                            ==> (#[trigger] self.collections@[j].items@[m])@.len() <= u32::MAX,
            decreases self.collections@.len() - i,
        {
            proof {
                crate::keyed::lemma_keyed_index(self.collections@, coll_key(), coll_val(), i as int);
            }
            let ghost before = out@;
            write_key(&mut out, &self.collections[i].key);
            let ok = write_items(&mut out, &self.collections[i].items);
            if !ok {
                proof {
                    let k = self.collections@[i as int].key;
                    assert(v.collections.dom().contains(k));
                    if v.collections[k].len() <= u32::MAX {
                        let j = choose|j: int|
                            0 <= j < self.collections@[i as int].items@.len() && !((
                            #[trigger] self.collections@[i as int].items@[j])@.len() <= u32::MAX);
                        assert(v.collections[k][j] == self.collections@[i as int].items@[j]@);
                    }
                }
                return Err(StateSerializationError::SerializationFailed("length does not fit in u32"));
            }
            proof {
                assert(ck.take(i + 1).drop_last() =~= ck.take(i as int));
                assert(ck.take(i + 1).last() == self.collections@[i as int].key);
                assert(items_view(self.collections@[i as int].items@).len()
                    == self.collections@[i as int].items@.len());
            }
            assert(out@ =~= cstart + enc_coll_list(ck.take(i + 1), v.collections));
            i = i + 1;
        }
        assert(ck.take(ck.len() as int) =~= ck);
        proof {
            assert forall|k: FieldKey| #[trigger] v.fields.dom().contains(k) implies v.fields[k].len()
                <= u32::MAX by {
                lemma_keyed_dom(self.fields@, field_key(), field_val(), k);
                let j = choose|j: int| 0 <= j < self.fields@.len() && field_key()(self.fields@[j]) == k;
                crate::keyed::lemma_keyed_index(self.fields@, field_key(), field_val(), j);
            }
            assert forall|k: FieldKey| #[trigger] v.collections.dom().contains(k) implies v.collections[k].len()
                <= u32::MAX && forall|m: int|
                0 <= m < v.collections[k].len() ==> (#[trigger] v.collections[k][m]).len()
                    <= u32::MAX by {
                lemma_keyed_dom(self.collections@, coll_key(), coll_val(), k);
                let j = choose|j: int| 0 <= j < self.collections@.len() && coll_key()(self.collections@[j]) == k;
                crate::keyed::lemma_keyed_index(self.collections@, coll_key(), coll_val(), j);
                assert forall|m: int| 0 <= m < v.collections[k].len() implies (
                #[trigger] v.collections[k][m]).len() <= u32::MAX by {
                    assert(v.collections[k][m] == self.collections@[j].items@[m]@);
                }
            }
        }
        assert(out@ =~= canonical_bytes(v));
        Ok(out)
    }
}

// ---------------------------------------------------------------------------
// Laws
// ---------------------------------------------------------------------------

/// A delta applies atomically: when it is refused, the state is exactly as
/// it was before.
pub proof fn lemma_refused_delta_changes_nothing(v: KvView, ops: Seq<DeltaOpV>)
    requires
        delta_outcome(v, ops).0 is Err,
    ensures
        delta_outcome(v, ops).1 == v,
{
}

/// The empty delta is accepted and changes nothing.
pub proof fn lemma_empty_delta_changes_nothing(v: KvView)
    ensures
        delta_outcome(v, Seq::empty()) == (Ok::<(), DeltaError>(()), v),
{
}

/// Replicas that hold the same state and apply the same delta get the same
/// verdict, the same state and the same canonical bytes.
pub proof fn lemma_replicas_agree(a: KvView, b: KvView, ops: Seq<DeltaOpV>)
    requires
        a == b,
    ensures
        delta_outcome(a, ops) == delta_outcome(b, ops),
        canonical_bytes(delta_outcome(a, ops).1) == canonical_bytes(delta_outcome(b, ops).1),
{
}

/// Removing an entity removes it with all its fields and collections, and
/// leaves every other entity's data as it was.
pub proof fn lemma_remove_entity_clears_its_data(v: KvView, e: u64, k: FieldKey)
    ensures
        !apply_op(v, DeltaOpV::RemoveEntity { entity_id: e }).entities.contains(e),
        k.0 == e ==> !apply_op(v, DeltaOpV::RemoveEntity { entity_id: e }).fields.dom().contains(
            k,
        ),
        k.0 == e ==> !apply_op(
            v,
            DeltaOpV::RemoveEntity { entity_id: e },
        ).collections.dom().contains(k),
        k.0 != e ==> apply_op(v, DeltaOpV::RemoveEntity { entity_id: e }).fields.dom().contains(k)
            == v.fields.dom().contains(k),
        k.0 != e && v.fields.dom().contains(k) ==> apply_op(
            v,
            DeltaOpV::RemoveEntity { entity_id: e },
        ).fields[k] == v.fields[k],
{
}

/// Every field and collection belongs to an existing entity, and every
/// field holds at least one byte.
pub open spec fn kv_consistent(v: KvView) -> bool {
    &&& forall|k: FieldKey| #[trigger]
        v.fields.dom().contains(k) ==> v.entities.contains(k.0) && v.fields[k].len() > 0
    &&& forall|k: FieldKey| #[trigger] v.collections.dom().contains(k) ==> v.entities.contains(k.0)
}

/// The entity an operation removes, if it is a removal.
pub open spec fn removed_entity(op: DeltaOpV) -> Option<u64> {
    match op {
        DeltaOpV::RemoveEntity { entity_id } => Some(entity_id),
        _ => None,
    }
}

/// The entity whose collection an operation changes, if it is a collection
/// change.
pub open spec fn changed_entity(op: DeltaOpV) -> Option<u64> {
    match op {
        DeltaOpV::CollectionChange { entity_id, .. } => Some(entity_id),
        _ => None,
    }
}

/// No operation changes a collection of an entity that an earlier
/// operation of the same delta removed.
pub open spec fn no_change_after_removal(ops: Seq<DeltaOpV>) -> bool {
    forall|k: int, j: int|
        #![trigger ops[k], ops[j]]
        0 <= k < j < ops.len() && removed_entity(ops[k]) is Some ==> changed_entity(ops[j])
            != removed_entity(ops[k])
}

/// Applying the operations from `i` on, once they validated, keeps the
/// state consistent, where `cur` is the state reached before `i` from `v0`,
/// `added` and `removed` the entities the operations before `i` added and
/// removed.
proof fn lemma_apply_ops_consistent(
    v0: KvView,
    ops: Seq<DeltaOpV>,
    i: int,
    added: Set<u64>,
    removed: Set<u64>,
    cur: KvView,
)
    requires
        0 <= i <= ops.len(),
        check_ops(v0, ops, i, added, removed) is Ok,
        kv_consistent(cur),
        cur.entities == v0.entities.union(added).difference(removed),
        forall|e: u64|
            #[trigger] removed.contains(e) ==> exists|k: int|
                0 <= k < i && removed_entity(ops[k]) == Some(e),
        no_change_after_removal(ops),
    ensures
        kv_consistent(apply_ops(cur, ops, i)),
    decreases ops.len() - i,
{
    if i < ops.len() {
        let next = apply_op(cur, ops[i]);
        match ops[i] {
            DeltaOpV::AddEntity { entity_id, .. } => {
                let a2 = added.insert(entity_id);
                assert(next.entities =~= v0.entities.union(a2).difference(removed));
                assert forall|e: u64| #[trigger] removed.contains(e) implies exists|k: int|
                    0 <= k < i + 1 && removed_entity(ops[k]) == Some(e) by {
                    let k = choose|k: int| 0 <= k < i && removed_entity(ops[k]) == Some(e);
                    assert(0 <= k < i + 1 && removed_entity(ops[k]) == Some(e));
                }
                lemma_apply_ops_consistent(v0, ops, i + 1, a2, removed, next);
            },
            DeltaOpV::RemoveEntity { entity_id } => {
                let r2 = removed.insert(entity_id);
                assert(next.entities =~= v0.entities.union(added).difference(r2));
                assert forall|e: u64| #[trigger] r2.contains(e) implies exists|k: int|
                    0 <= k < i + 1 && removed_entity(ops[k]) == Some(e) by {
                    if e == entity_id {
                        assert(removed_entity(ops[i]) == Some(e));
                    } else {
                        let k = choose|k: int| 0 <= k < i && removed_entity(ops[k]) == Some(e);
                        assert(0 <= k < i + 1 && removed_entity(ops[k]) == Some(e));
                    }
                }
                lemma_apply_ops_consistent(v0, ops, i + 1, added, r2, next);
            },
            DeltaOpV::UpdateField { entity_id, .. } => {
                assert(cur.entities.contains(entity_id));
                assert forall|e: u64| #[trigger] removed.contains(e) implies exists|k: int|
                    0 <= k < i + 1 && removed_entity(ops[k]) == Some(e) by {
                    let k = choose|k: int| 0 <= k < i && removed_entity(ops[k]) == Some(e);
                    assert(0 <= k < i + 1 && removed_entity(ops[k]) == Some(e));
                }
                lemma_apply_ops_consistent(v0, ops, i + 1, added, removed, next);
            },
            DeltaOpV::CollectionChange { entity_id, .. } => {
                if removed.contains(entity_id) {
                    let k = choose|k: int| 0 <= k < i && removed_entity(ops[k]) == Some(entity_id);
                    assert(changed_entity(ops[i]) != removed_entity(ops[k]));
                }
                assert(cur.entities.contains(entity_id));
                assert forall|e: u64| #[trigger] removed.contains(e) implies exists|k: int|
                    0 <= k < i + 1 && removed_entity(ops[k]) == Some(e) by {
                    let k = choose|k: int| 0 <= k < i && removed_entity(ops[k]) == Some(e);
                    assert(0 <= k < i + 1 && removed_entity(ops[k]) == Some(e));
                }
                lemma_apply_ops_consistent(v0, ops, i + 1, added, removed, next);
            },
        }
    }
}

/// Applying a delta keeps the state consistent: every field and collection
/// still belongs to an existing entity and every field is non-empty,
/// whether the delta is accepted or refused, provided no operation changes
/// a collection of an entity that an earlier operation removed (validation
/// lets such a change through, and it leaves a collection behind).
pub proof fn lemma_delta_keeps_consistency(v: KvView, ops: Seq<DeltaOpV>)
    requires
        kv_consistent(v),
        no_change_after_removal(ops),
    ensures
        kv_consistent(delta_outcome(v, ops).1),
{
    if check_ops(v, ops, 0, Set::empty(), Set::empty()) is Ok {
        assert(v.entities =~= v.entities.union(Set::<u64>::empty()).difference(Set::<u64>::empty()));
        lemma_apply_ops_consistent(v, ops, 0, Set::empty(), Set::empty(), v);
    }
}

/// A collection insert appends: a delta that inserts `d` into a collection
/// of an existing entity is accepted, and leaves that collection holding its
/// old items (none if it did not exist) followed by `d`, with everything
/// else unchanged.
pub proof fn lemma_collection_insert_appends(
    v: KvView,
    entity_id: u64,
    component_id: u32,
    collection_id: u32,
    d: Seq<u8>,
)
    requires
        v.entities.contains(entity_id),
    ensures
        ({
            let key = (entity_id, component_id, collection_id);
            let before: Seq<Seq<u8>> = if v.collections.dom().contains(key) {
                v.collections[key]
            } else {
                Seq::empty()
            };
            let ops = seq![
                DeltaOpV::CollectionChange {
                    entity_id,
                    component_id,
                    collection_id,
                    change_type: CollectionChangeType::Insert,
                    data: d,
                },
            ];
            &&& delta_outcome(v, ops).0 == Ok::<(), DeltaError>(())
            &&& delta_outcome(v, ops).1.collections[key].len() == before.len() + 1
            &&& delta_outcome(v, ops).1.collections[key].last() == d
            &&& forall|j: int|
                0 <= j < before.len() ==> delta_outcome(v, ops).1.collections[key][j] == before[j]
            &&& delta_outcome(v, ops).1.collections.dom() == v.collections.dom().insert(key)
            &&& forall|k: FieldKey|
                k != key && #[trigger] v.collections.dom().contains(k) ==> delta_outcome(
                    v,
                    ops,
                ).1.collections[k] == v.collections[k]
            &&& delta_outcome(v, ops).1.entities == v.entities
            &&& delta_outcome(v, ops).1.fields == v.fields
        }),
{
    let key = (entity_id, component_id, collection_id);
    let ops = seq![
        DeltaOpV::CollectionChange {
            entity_id,
            component_id,
            collection_id,
            change_type: CollectionChangeType::Insert,
            data: d,
        },
    ];
    assert(check_ops(v, ops, 1, Set::empty(), Set::empty()) is Ok);
    assert(apply_ops(apply_op(v, ops[0]), ops, 1) == apply_op(v, ops[0]));
}

/// Whether an operation writes the field `k` or removes its entity.
pub open spec fn touches_field(op: DeltaOpV, k: FieldKey) -> bool {
    match op {
        DeltaOpV::UpdateField { entity_id, component_id, field_id, .. } => (
        entity_id,
        component_id,
        field_id,
        ) == k,
        DeltaOpV::RemoveEntity { entity_id } => entity_id == k.0,
        _ => false,
    }
}

/// Operations that neither write field `k` nor remove its entity leave that
/// field as it was.
proof fn lemma_untouched_field_kept(cur: KvView, ops: Seq<DeltaOpV>, j: int, k: FieldKey)
    requires
        0 <= j,
        cur.fields.dom().contains(k),
        forall|l: int| j <= l < ops.len() ==> !touches_field(#[trigger] ops[l], k),
    ensures
        apply_ops(cur, ops, j).fields.dom().contains(k),
        apply_ops(cur, ops, j).fields[k] == cur.fields[k],
    decreases ops.len() - j,
{
    if j < ops.len() {
        assert(!touches_field(ops[j], k));
        let next = apply_op(cur, ops[j]);
        assert(next.fields.dom().contains(k) && next.fields[k] == cur.fields[k]);
        lemma_untouched_field_kept(next, ops, j + 1, k);
    }
}

/// From any state before position `i`, applying the operations from `j`
/// on, where operation `i` writes `d` to field `k` and nothing after it
/// touches `k`, leaves `k` holding `d`.
proof fn lemma_last_write_from(cur: KvView, ops: Seq<DeltaOpV>, j: int, i: int, k: FieldKey, d: Seq<u8>)
    requires
        0 <= j <= i < ops.len(),
        ops[i] == (DeltaOpV::UpdateField { entity_id: k.0, component_id: k.1, field_id: k.2, data: d }),
        forall|l: int| i < l < ops.len() ==> !touches_field(#[trigger] ops[l], k),
    ensures
        apply_ops(cur, ops, j).fields.dom().contains(k),
        apply_ops(cur, ops, j).fields[k] == d,
    decreases i - j,
{
    let next = apply_op(cur, ops[j]);
    if j < i {
        lemma_last_write_from(next, ops, j + 1, i, k, d);
    } else {
        assert(next.fields.dom().contains(k) && next.fields[k] == d);
        lemma_untouched_field_kept(next, ops, j + 1, k);
    }
}

/// An accepted delta leaves each field holding what its last write wrote:
/// when operation `i` updates field `k` with `d` and no later operation
/// writes `k` or removes its entity, the field holds `d` afterwards,
/// whatever it held before.
pub proof fn lemma_last_field_write_wins(v: KvView, ops: Seq<DeltaOpV>, i: int, k: FieldKey, d: Seq<u8>)
    requires
        delta_outcome(v, ops).0 is Ok,
        0 <= i < ops.len(),
        ops[i] == (DeltaOpV::UpdateField { entity_id: k.0, component_id: k.1, field_id: k.2, data: d }),
        forall|l: int| i < l < ops.len() ==> !touches_field(#[trigger] ops[l], k),
    ensures
        delta_outcome(v, ops).1.fields.dom().contains(k),
        delta_outcome(v, ops).1.fields[k] == d,
{
    lemma_last_write_from(v, ops, 0, i, k, d);
}

// ---------------------------------------------------------------------------
// The canonical bytes determine the state
// ---------------------------------------------------------------------------

/// The lists the canonical bytes are built from list exactly the state's
/// entities, field keys and collection keys (as they do for every state
/// held by a `KeyValueDomainState`).
pub open spec fn canonically_listed(v: KvView) -> bool {
    &&& sorted_entities(v.entities).to_set() == v.entities
    &&& sorted_keys(v.fields.dom()).to_set() == v.fields.dom()
    &&& sorted_keys(v.collections.dom()).to_set() == v.collections.dom()
}

} // verus!
