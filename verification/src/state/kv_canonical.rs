//! The canonical bytes of a key-value state determine the state: decoding
//! them, list by list, gives back every entity, field and collection.
use super::kv_state::{
    canonical_bytes, canonical_fits, canonically_listed, enc_coll_list, enc_field_list,
    enc_items, enc_key, enc_u64_list, sorted_entities, sorted_keys, FieldKey, KvView,
};
use crate::wire::{
    bytes_fit, enc_bytes, enc_u32, enc_u64, lemma_enc_u32_len, lemma_enc_u64_len, lemma_p_u32,
    lemma_p_u64,
};
use vstd::prelude::*;

verus! {

/// Elements encoded one after another, in order.
pub open spec fn enc_seq<T>(xs: Seq<T>, f: spec_fn(T) -> Seq<u8>) -> Seq<u8>
    decreases xs.len(),
{
    if xs.len() == 0 {
        Seq::empty()
    } else {
        enc_seq(xs.drop_last(), f) + f(xs.last())
    }
}

spec fn u64_enc() -> spec_fn(u64) -> Seq<u8> {
    |x: u64| enc_u64(x)
}

spec fn any_u64() -> spec_fn(u64) -> bool {
    |x: u64| true
}

spec fn bytes_enc() -> spec_fn(Seq<u8>) -> Seq<u8> {
    |b: Seq<u8>| enc_bytes(b)
}

spec fn fitting_bytes() -> spec_fn(Seq<u8>) -> bool {
    |b: Seq<u8>| bytes_fit(b)
}

spec fn field_pairs(keys: Seq<FieldKey>, m: Map<FieldKey, Seq<u8>>) -> Seq<(FieldKey, Seq<u8>)> {
    keys.map_values(|k: FieldKey| (k, m[k]))
}

spec fn field_enc() -> spec_fn((FieldKey, Seq<u8>)) -> Seq<u8> {
    |p: (FieldKey, Seq<u8>)| enc_key(p.0) + enc_bytes(p.1)
}

spec fn fitting_field() -> spec_fn((FieldKey, Seq<u8>)) -> bool {
    |p: (FieldKey, Seq<u8>)| bytes_fit(p.1)
}

spec fn coll_pairs(keys: Seq<FieldKey>, m: Map<FieldKey, Seq<Seq<u8>>>) -> Seq<
    (FieldKey, Seq<Seq<u8>>),
> {
    keys.map_values(|k: FieldKey| (k, m[k]))
}

spec fn coll_enc() -> spec_fn((FieldKey, Seq<Seq<u8>>)) -> Seq<u8> {
    |p: (FieldKey, Seq<Seq<u8>>)| enc_key(p.0) + enc_u32(p.1.len() as u32) + enc_items(p.1)
}

spec fn items_fit(items: Seq<Seq<u8>>) -> bool {
    items.len() <= u32::MAX && forall|j: int| 0 <= j < items.len() ==> bytes_fit(#[trigger] items[j])
}

spec fn fitting_coll() -> spec_fn((FieldKey, Seq<Seq<u8>>)) -> bool {
    |p: (FieldKey, Seq<Seq<u8>>)| items_fit(p.1)
}

proof fn lemma_split_eq(a: Seq<u8>, r1: Seq<u8>, b: Seq<u8>, r2: Seq<u8>)
    requires
        a.len() == b.len(),
        a + r1 == b + r2,
    ensures
        a == b,
        r1 == r2,
{
    assert(a =~= (a + r1).subrange(0, a.len() as int));
    assert(b =~= (b + r2).subrange(0, b.len() as int));
    assert(r1 =~= (a + r1).subrange(a.len() as int, (a + r1).len() as int));
    assert(r2 =~= (b + r2).subrange(b.len() as int, (b + r2).len() as int));
}

proof fn lemma_enc_u32_injective(x: u32, y: u32)
    requires
        enc_u32(x) == enc_u32(y),
    ensures
        x == y,
{
    let s = enc_u32(x);
    lemma_enc_u32_len(x);
    assert(s.subrange(0, 4) =~= s);
    lemma_p_u32(s, 0, x);
    lemma_p_u32(s, 0, y);
}

proof fn lemma_enc_u64_injective(x: u64, y: u64)
    requires
        enc_u64(x) == enc_u64(y),
    ensures
        x == y,
{
    let s = enc_u64(x);
    lemma_enc_u64_len(x);
    assert(s.subrange(0, 8) =~= s);
    lemma_p_u64(s, 0, x);
    lemma_p_u64(s, 0, y);
}

proof fn lemma_u64_prefix(a: u64, r1: Seq<u8>, b: u64, r2: Seq<u8>)
    requires
        enc_u64(a) + r1 == enc_u64(b) + r2,
    ensures
        a == b,
        r1 == r2,
{
    lemma_enc_u64_len(a);
    lemma_enc_u64_len(b);
    lemma_split_eq(enc_u64(a), r1, enc_u64(b), r2);
    lemma_enc_u64_injective(a, b);
}

proof fn lemma_bytes_prefix(a: Seq<u8>, r1: Seq<u8>, b: Seq<u8>, r2: Seq<u8>)
    requires
        bytes_fit(a),
        bytes_fit(b),
        enc_bytes(a) + r1 == enc_bytes(b) + r2,
    ensures
        a == b,
        r1 == r2,
{
    lemma_enc_u32_len(a.len() as u32);
    lemma_enc_u32_len(b.len() as u32);
    assert(enc_bytes(a) + r1 =~= enc_u32(a.len() as u32) + (a + r1));
    assert(enc_bytes(b) + r2 =~= enc_u32(b.len() as u32) + (b + r2));
    lemma_split_eq(enc_u32(a.len() as u32), a + r1, enc_u32(b.len() as u32), b + r2);
    lemma_enc_u32_injective(a.len() as u32, b.len() as u32);
    lemma_split_eq(a, r1, b, r2);
}

proof fn lemma_key_prefix(a: FieldKey, r1: Seq<u8>, b: FieldKey, r2: Seq<u8>)
    requires
        enc_key(a) + r1 == enc_key(b) + r2,
    ensures
        a == b,
        r1 == r2,
{
    lemma_enc_u64_len(a.0);
    lemma_enc_u64_len(b.0);
    lemma_enc_u32_len(a.1);
    lemma_enc_u32_len(b.1);
    lemma_enc_u32_len(a.2);
    lemma_enc_u32_len(b.2);
    assert(enc_key(a) + r1 =~= enc_u64(a.0) + (enc_u32(a.1) + (enc_u32(a.2) + r1)));
    assert(enc_key(b) + r2 =~= enc_u64(b.0) + (enc_u32(b.1) + (enc_u32(b.2) + r2)));
    lemma_split_eq(enc_u64(a.0), enc_u32(a.1) + (enc_u32(a.2) + r1), enc_u64(b.0), enc_u32(b.1) + (
    enc_u32(b.2) + r2));
    lemma_enc_u64_injective(a.0, b.0);
    lemma_split_eq(enc_u32(a.1), enc_u32(a.2) + r1, enc_u32(b.1), enc_u32(b.2) + r2);
    lemma_enc_u32_injective(a.1, b.1);
    lemma_split_eq(enc_u32(a.2), r1, enc_u32(b.2), r2);
    lemma_enc_u32_injective(a.2, b.2);
}

proof fn lemma_enc_seq_first<T>(xs: Seq<T>, f: spec_fn(T) -> Seq<u8>)
    requires
        xs.len() > 0,
    ensures
        enc_seq(xs, f) == f(xs[0]) + enc_seq(xs.drop_first(), f),
    decreases xs.len(),
{
    if xs.len() == 1 {
        assert(xs.drop_last() =~= Seq::<T>::empty());
        assert(xs.drop_first() =~= Seq::<T>::empty());
        assert(enc_seq(xs, f) =~= f(xs[0]) + enc_seq(xs.drop_first(), f));
    } else {
        let d = xs.drop_last();
        lemma_enc_seq_first(d, f);
        assert(d[0] == xs[0]);
        assert(d.drop_first() =~= xs.drop_first().drop_last());
        assert(xs.drop_first().last() == xs.last());
        assert(enc_seq(xs, f) =~= f(xs[0]) + enc_seq(xs.drop_first(), f));
    }
}

/// Lists of equally many elements, each encoded so that no encoding is a
/// proper prefix of another, determine their elements and what follows.
proof fn lemma_enc_seq_injective<T>(
    xs: Seq<T>,
    ys: Seq<T>,
    f: spec_fn(T) -> Seq<u8>,
    ok: spec_fn(T) -> bool,
    r1: Seq<u8>,
    r2: Seq<u8>,
)
    requires
        xs.len() == ys.len(),
        forall|i: int| 0 <= i < xs.len() ==> ok(#[trigger] xs[i]),
        forall|i: int| 0 <= i < ys.len() ==> ok(#[trigger] ys[i]),
        forall|a: T, b: T, s1: Seq<u8>, s2: Seq<u8>|
            #![trigger f(a) + s1, f(b) + s2]
            ok(a) && ok(b) && f(a) + s1 == f(b) + s2 ==> a == b && s1 == s2,
        enc_seq(xs, f) + r1 == enc_seq(ys, f) + r2,
    ensures
        xs == ys,
        r1 == r2,
    decreases xs.len(),
{
    if xs.len() == 0 {
        assert(enc_seq(xs, f) + r1 =~= r1);
        assert(enc_seq(ys, f) + r2 =~= r2);
        assert(xs =~= ys);
    } else {
        lemma_enc_seq_first(xs, f);
        lemma_enc_seq_first(ys, f);
        let xr = xs.drop_first();
        let yr = ys.drop_first();
        assert(enc_seq(xs, f) + r1 =~= f(xs[0]) + (enc_seq(xr, f) + r1));
        assert(enc_seq(ys, f) + r2 =~= f(ys[0]) + (enc_seq(yr, f) + r2));
        assert(ok(xs[0]) && ok(ys[0]));
        assert(xs[0] == ys[0] && enc_seq(xr, f) + r1 == enc_seq(yr, f) + r2);
        assert forall|i: int| 0 <= i < xr.len() implies ok(#[trigger] xr[i]) by {
            assert(xr[i] == xs[i + 1]);
        }
        assert forall|i: int| 0 <= i < yr.len() implies ok(#[trigger] yr[i]) by {
            assert(yr[i] == ys[i + 1]);
        }
        lemma_enc_seq_injective(xr, yr, f, ok, r1, r2);
        assert forall|i: int| 0 <= i < xs.len() implies xs[i] == ys[i] by {
            if i > 0 {
                assert(xs[i] == xr[i - 1]);
                assert(ys[i] == yr[i - 1]);
            }
        }
        assert(xs =~= ys);
    }
}

proof fn lemma_u64_list_as_seq(es: Seq<u64>)
    ensures
        enc_u64_list(es) == enc_seq(es, u64_enc()),
    decreases es.len(),
{
    if es.len() > 0 {
        lemma_u64_list_as_seq(es.drop_last());
    }
}

proof fn lemma_items_as_seq(items: Seq<Seq<u8>>)
    ensures
        enc_items(items) == enc_seq(items, bytes_enc()),
    decreases items.len(),
{
    if items.len() > 0 {
        lemma_items_as_seq(items.drop_last());
    }
}

proof fn lemma_field_list_as_seq(keys: Seq<FieldKey>, m: Map<FieldKey, Seq<u8>>)
    ensures
        enc_field_list(keys, m) == enc_seq(field_pairs(keys, m), field_enc()),
    decreases keys.len(),
{
    if keys.len() > 0 {
        let d = keys.drop_last();
        lemma_field_list_as_seq(d, m);
        let ps = field_pairs(keys, m);
        assert(ps.drop_last() =~= field_pairs(d, m));
        assert(ps.last() == (keys.last(), m[keys.last()]));
        assert(enc_field_list(keys, m) =~= enc_seq(ps, field_enc()));
    }
}

proof fn lemma_coll_list_as_seq(keys: Seq<FieldKey>, m: Map<FieldKey, Seq<Seq<u8>>>)
    ensures
        enc_coll_list(keys, m) == enc_seq(coll_pairs(keys, m), coll_enc()),
    decreases keys.len(),
{
    if keys.len() > 0 {
        let d = keys.drop_last();
        lemma_coll_list_as_seq(d, m);
        let ps = coll_pairs(keys, m);
        assert(ps.drop_last() =~= coll_pairs(d, m));
        assert(ps.last() == (keys.last(), m[keys.last()]));
        assert(enc_coll_list(keys, m) =~= enc_seq(ps, coll_enc()));
    }
}

proof fn lemma_items_prefix(a: Seq<Seq<u8>>, r1: Seq<u8>, b: Seq<Seq<u8>>, r2: Seq<u8>)
    requires
        items_fit(a),
        items_fit(b),
        a.len() == b.len(),
        enc_items(a) + r1 == enc_items(b) + r2,
    ensures
        a == b,
        r1 == r2,
{
    lemma_items_as_seq(a);
    lemma_items_as_seq(b);
    assert forall|x: Seq<u8>, y: Seq<u8>, s1: Seq<u8>, s2: Seq<u8>|
        #![trigger bytes_enc()(x) + s1, bytes_enc()(y) + s2]
        fitting_bytes()(x) && fitting_bytes()(y) && bytes_enc()(x) + s1 == bytes_enc()(y)
            + s2 implies x == y && s1 == s2 by {
        lemma_bytes_prefix(x, s1, y, s2);
    }
    lemma_enc_seq_injective(a, b, bytes_enc(), fitting_bytes(), r1, r2);
}

proof fn lemma_coll_prefix(
    a: (FieldKey, Seq<Seq<u8>>),
    r1: Seq<u8>,
    b: (FieldKey, Seq<Seq<u8>>),
    r2: Seq<u8>,
)
    requires
        items_fit(a.1),
        items_fit(b.1),
        coll_enc()(a) + r1 == coll_enc()(b) + r2,
    ensures
        a == b,
        r1 == r2,
{
    let la = a.1.len() as u32;
    let lb = b.1.len() as u32;
    lemma_enc_u32_len(la);
    lemma_enc_u32_len(lb);
    assert(coll_enc()(a) + r1 =~= enc_key(a.0) + (enc_u32(la) + (enc_items(a.1) + r1)));
    assert(coll_enc()(b) + r2 =~= enc_key(b.0) + (enc_u32(lb) + (enc_items(b.1) + r2)));
    lemma_key_prefix(a.0, enc_u32(la) + (enc_items(a.1) + r1), b.0, enc_u32(lb) + (enc_items(b.1)
        + r2));
    lemma_split_eq(enc_u32(la), enc_items(a.1) + r1, enc_u32(lb), enc_items(b.1) + r2);
    lemma_enc_u32_injective(la, lb);
    lemma_items_prefix(a.1, r1, b.1, r2);
}

/// The canonical bytes determine the state: two states whose canonical
/// bytes are equal (each with all its lengths fitting their prefixes) are
/// the same state, down to every field byte and every collection item.
pub proof fn lemma_canonical_bytes_injective(v1: KvView, v2: KvView)
    requires
        canonically_listed(v1),
        canonically_listed(v2),
        canonical_fits(v1),
        canonical_fits(v2),
        canonical_bytes(v1) == canonical_bytes(v2),
    ensures
        v1 == v2,
{
    let es1 = sorted_entities(v1.entities);
    let es2 = sorted_entities(v2.entities);
    let fk1 = sorted_keys(v1.fields.dom());
    let fk2 = sorted_keys(v2.fields.dom());
    let ck1 = sorted_keys(v1.collections.dom());
    let ck2 = sorted_keys(v2.collections.dom());
    let fp1 = field_pairs(fk1, v1.fields);
    let fp2 = field_pairs(fk2, v2.fields);
    let cp1 = coll_pairs(ck1, v1.collections);
    let cp2 = coll_pairs(ck2, v2.collections);
    lemma_u64_list_as_seq(es1);
    lemma_u64_list_as_seq(es2);
    lemma_field_list_as_seq(fk1, v1.fields);
    lemma_field_list_as_seq(fk2, v2.fields);
    lemma_coll_list_as_seq(ck1, v1.collections);
    lemma_coll_list_as_seq(ck2, v2.collections);
    let e1 = enc_seq(es1, u64_enc());
    let e2 = enc_seq(es2, u64_enc());
    let f1 = enc_seq(fp1, field_enc());
    let f2 = enc_seq(fp2, field_enc());
    let c1 = enc_seq(cp1, coll_enc());
    let c2 = enc_seq(cp2, coll_enc());
    let n1 = enc_u32(es1.len() as u32);
    let n2 = enc_u32(es2.len() as u32);
    let m1 = enc_u32(fk1.len() as u32);
    let m2 = enc_u32(fk2.len() as u32);
    let k1 = enc_u32(ck1.len() as u32);
    let k2 = enc_u32(ck2.len() as u32);
    let empty = Seq::<u8>::empty();
    assert(canonical_bytes(v1) =~= n1 + (e1 + (m1 + (f1 + (k1 + (c1 + empty))))));
    assert(canonical_bytes(v2) =~= n2 + (e2 + (m2 + (f2 + (k2 + (c2 + empty))))));
    lemma_enc_u32_len(es1.len() as u32);
    lemma_enc_u32_len(es2.len() as u32);
    lemma_enc_u32_len(fk1.len() as u32);
    lemma_enc_u32_len(fk2.len() as u32);
    lemma_enc_u32_len(ck1.len() as u32);
    lemma_enc_u32_len(ck2.len() as u32);
    // entities
    lemma_split_eq(n1, e1 + (m1 + (f1 + (k1 + (c1 + empty)))), n2, e2 + (m2 + (f2 + (k2 + (c2
        + empty)))));
    lemma_enc_u32_injective(es1.len() as u32, es2.len() as u32);
    assert forall|x: u64, y: u64, s1: Seq<u8>, s2: Seq<u8>|
        #![trigger u64_enc()(x) + s1, u64_enc()(y) + s2]
        any_u64()(x) && any_u64()(y) && u64_enc()(x) + s1 == u64_enc()(y) + s2 implies x == y
            && s1 == s2 by {
        lemma_u64_prefix(x, s1, y, s2);
    }
    lemma_enc_seq_injective(es1, es2, u64_enc(), any_u64(), m1 + (f1 + (k1 + (c1 + empty))), m2 + (
    f2 + (k2 + (c2 + empty))));
    // fields
    lemma_split_eq(m1, f1 + (k1 + (c1 + empty)), m2, f2 + (k2 + (c2 + empty)));
    lemma_enc_u32_injective(fk1.len() as u32, fk2.len() as u32);
    assert forall|x: (FieldKey, Seq<u8>), y: (FieldKey, Seq<u8>), s1: Seq<u8>, s2: Seq<u8>|
        #![trigger field_enc()(x) + s1, field_enc()(y) + s2]
        fitting_field()(x) && fitting_field()(y) && field_enc()(x) + s1 == field_enc()(y)
            + s2 implies x == y && s1 == s2 by {
        assert(field_enc()(x) + s1 =~= enc_key(x.0) + (enc_bytes(x.1) + s1));
        assert(field_enc()(y) + s2 =~= enc_key(y.0) + (enc_bytes(y.1) + s2));
        lemma_key_prefix(x.0, enc_bytes(x.1) + s1, y.0, enc_bytes(y.1) + s2);
        lemma_bytes_prefix(x.1, s1, y.1, s2);
    }
    assert forall|i: int| 0 <= i < fp1.len() implies fitting_field()(#[trigger] fp1[i]) by {
        assert(fk1.to_set().contains(fk1[i]));
    }
    assert forall|i: int| 0 <= i < fp2.len() implies fitting_field()(#[trigger] fp2[i]) by {
        assert(fk2.to_set().contains(fk2[i]));
    }
    lemma_enc_seq_injective(fp1, fp2, field_enc(), fitting_field(), k1 + (c1 + empty), k2 + (c2
        + empty));
    // collections
    lemma_split_eq(k1, c1 + empty, k2, c2 + empty);
    lemma_enc_u32_injective(ck1.len() as u32, ck2.len() as u32);
    assert forall|x: (FieldKey, Seq<Seq<u8>>), y: (FieldKey, Seq<Seq<u8>>), s1: Seq<u8>, s2: Seq<u8>|
        #![trigger coll_enc()(x) + s1, coll_enc()(y) + s2]
        fitting_coll()(x) && fitting_coll()(y) && coll_enc()(x) + s1 == coll_enc()(y)
            + s2 implies x == y && s1 == s2 by {
        lemma_coll_prefix(x, s1, y, s2);
    }
    assert forall|i: int| 0 <= i < cp1.len() implies fitting_coll()(#[trigger] cp1[i]) by {
        assert(ck1.to_set().contains(ck1[i]));
    }
    assert forall|i: int| 0 <= i < cp2.len() implies fitting_coll()(#[trigger] cp2[i]) by {
        assert(ck2.to_set().contains(ck2[i]));
    }
    lemma_enc_seq_injective(cp1, cp2, coll_enc(), fitting_coll(), empty, empty);
    // the state
    assert(v1.entities =~= v2.entities);
    assert(fk1 =~= fk2) by {
        assert forall|i: int| 0 <= i < fk1.len() implies fk1[i] == fk2[i] by {
            assert(fp1[i] == fp2[i]);
        }
    }
    assert(ck1 =~= ck2) by {
        assert forall|i: int| 0 <= i < ck1.len() implies ck1[i] == ck2[i] by {
            assert(cp1[i] == cp2[i]);
        }
    }
    assert forall|k: FieldKey| #[trigger] v1.fields.dom().contains(k) implies v1.fields[k]
        == v2.fields[k] by {
        assert(fk1.to_set().contains(k));
        let i = choose|i: int| 0 <= i < fk1.len() && fk1[i] == k;
        assert(fp1[i] == fp2[i]);
    }
    assert forall|k: FieldKey| #[trigger] v1.collections.dom().contains(k) implies v1.collections[k]
        == v2.collections[k] by {
        assert(ck1.to_set().contains(k));
        let i = choose|i: int| 0 <= i < ck1.len() && ck1[i] == k;
        assert(cp1[i] == cp2[i]);
    }
    assert(v1.fields =~= v2.fields);
    assert(v1.collections =~= v2.collections);
}

} // verus!
