use vstd::prelude::*;

verus! {

/// The map of a store with no entries.
pub open spec fn no_entries() -> Map<Seq<u8>, Seq<u8>> {
    Map::empty()
}

/// What a map holds for `k`: its value, or nothing.
pub open spec fn lookup(m: Map<Seq<u8>, Seq<u8>>, k: Seq<u8>) -> Option<Seq<u8>> {
    if m.contains_key(k) {
        Some(m[k])
    } else {
        None
    }
}

/// The byte strings of a list of keys.
pub open spec fn keys_of(keys: Seq<Vec<u8>>) -> Seq<Seq<u8>> {
    keys.map_values(|k: Vec<u8>| k@)
}

/// The byte strings of a list of values.
pub open spec fn vals_of(values: Seq<Vec<u8>>) -> Seq<Seq<u8>> {
    values.map_values(|v: Vec<u8>| v@)
}

/// `m` after setting `ks[i]` to `vs[i]` for each `i`, in order.
pub open spec fn set_all(m: Map<Seq<u8>, Seq<u8>>, ks: Seq<Seq<u8>>, vs: Seq<Seq<u8>>) -> Map<
    Seq<u8>,
    Seq<u8>,
>
    decreases ks.len(),
{
    if ks.len() == 0 {
        m
    } else {
        set_all(m, ks.drop_last(), vs.drop_last()).insert(ks.last(), vs.last())
    }
}

/// A single-key mutation of a store.
pub enum MapOp {
    Put(Seq<u8>, Seq<u8>),
    Delete(Seq<u8>),
}

/// `m` after `op`, as `set` and `remove` change a store's map.
pub open spec fn apply_op(m: Map<Seq<u8>, Seq<u8>>, op: MapOp) -> Map<Seq<u8>, Seq<u8>> {
    match op {
        MapOp::Put(k, v) => m.insert(k, v),
        MapOp::Delete(k) => m.remove(k),
    }
}

/// `m` after each of `ops`, in order.
pub open spec fn apply_ops(m: Map<Seq<u8>, Seq<u8>>, ops: Seq<MapOp>) -> Map<Seq<u8>, Seq<u8>>
    decreases ops.len(),
{
    if ops.len() == 0 {
        m
    } else {
        apply_op(apply_ops(m, ops.drop_last()), ops.last())
    }
}

/// Whether `op` sets or removes `k`.
pub open spec fn touches(op: MapOp, k: Seq<u8>) -> bool {
    match op {
        MapOp::Put(k2, _) => k2 == k,
        MapOp::Delete(k2) => k2 == k,
    }
}

/// Mutations of other keys leave what a lookup of `k` finds unchanged.
pub proof fn lemma_untouched_key_kept(m: Map<Seq<u8>, Seq<u8>>, ops: Seq<MapOp>, k: Seq<u8>)
    requires
        forall|i: int| 0 <= i < ops.len() ==> !touches(#[trigger] ops[i], k),
    ensures
        lookup(apply_ops(m, ops), k) == lookup(m, k),
    decreases ops.len(),
{
    if ops.len() > 0 {
        let rest = ops.drop_last();
        assert forall|i: int| 0 <= i < rest.len() implies !touches(#[trigger] rest[i], k) by {
            assert(rest[i] == ops[i]);
        }
        lemma_untouched_key_kept(m, rest, k);
        assert(!touches(ops[ops.len() - 1], k));
    }
}

/// After `set(k, v)`, and then any mutations of other keys, a lookup of `k`
/// still finds `v` and `k` is still contained.
pub proof fn lemma_set_persists(m: Map<Seq<u8>, Seq<u8>>, k: Seq<u8>, v: Seq<u8>, ops: Seq<MapOp>)
    requires
        k.len() > 0,
        forall|i: int| 0 <= i < ops.len() ==> !touches(#[trigger] ops[i], k),
    ensures
        lookup(apply_ops(m.insert(k, v), ops), k) == Some(v),
        apply_ops(m.insert(k, v), ops).contains_key(k),
{
    lemma_untouched_key_kept(m.insert(k, v), ops, k);
}

/// After `remove(k)`, and then any mutations of other keys, a lookup of `k`
/// still finds nothing.
pub proof fn lemma_remove_persists(m: Map<Seq<u8>, Seq<u8>>, k: Seq<u8>, ops: Seq<MapOp>)
    requires
        forall|i: int| 0 <= i < ops.len() ==> !touches(#[trigger] ops[i], k),
    ensures
        lookup(apply_ops(m.remove(k), ops), k) is None,
{
    lemma_untouched_key_kept(m.remove(k), ops, k);
}

/// After `set(k, v)` a lookup of `k` finds `v`, and `k` is contained.
pub proof fn lemma_get_after_set(m: Map<Seq<u8>, Seq<u8>>, k: Seq<u8>, v: Seq<u8>)
    requires
        k.len() > 0,
    ensures
        lookup(m.insert(k, v), k) == Some(v),
        m.insert(k, v).contains_key(k),
{
}

/// A `set` or a `remove` of another key leaves what a lookup of `k` finds
/// unchanged, so a value that was set stays until `k` itself is changed.
pub proof fn lemma_other_key_untouched(
    m: Map<Seq<u8>, Seq<u8>>,
    k: Seq<u8>,
    other: Seq<u8>,
    v: Seq<u8>,
)
    requires
        k != other,
    ensures
        lookup(m.insert(other, v), k) == lookup(m, k),
        lookup(m.remove(other), k) == lookup(m, k),
{
}

/// After `remove(k)` a lookup of `k` finds nothing, whether or not `k` was
/// there before.
pub proof fn lemma_get_after_remove(m: Map<Seq<u8>, Seq<u8>>, k: Seq<u8>)
    ensures
        lookup(m.remove(k), k) is None,
        !m.remove(k).contains_key(k),
{
}

/// Setting the same key to the same value twice leaves the same map as
/// setting it once.
pub proof fn lemma_set_idempotent(m: Map<Seq<u8>, Seq<u8>>, k: Seq<u8>, v: Seq<u8>)
    ensures
        m.insert(k, v).insert(k, v) == m.insert(k, v),
{
    assert(m.insert(k, v).insert(k, v) =~= m.insert(k, v));
}

/// Removing a key that is absent leaves the map as it was.
pub proof fn lemma_remove_absent(m: Map<Seq<u8>, Seq<u8>>, k: Seq<u8>)
    requires
        !m.contains_key(k),
    ensures
        m.remove(k) == m,
{
    assert(m.remove(k) =~= m);
}

/// Sets on pairwise distinct keys, applied in any order one after another,
/// lose none of their entries: each key ends up with its own value, and
/// every key not set keeps what it had.
pub proof fn lemma_distinct_sets_all_kept(
    m: Map<Seq<u8>, Seq<u8>>,
    ks: Seq<Seq<u8>>,
    vs: Seq<Seq<u8>>,
)
    requires
        ks.len() == vs.len(),
        ks.no_duplicates(),
    ensures
        forall|i: int| 0 <= i < ks.len() ==> lookup(set_all(m, ks, vs), #[trigger] ks[i]) == Some(
            vs[i],
        ),
        forall|k: Seq<u8>| !ks.contains(k) ==> lookup(set_all(m, ks, vs), k) == lookup(m, k),
    decreases ks.len(),
{
    if ks.len() > 0 {
        let ks0 = ks.drop_last();
        let vs0 = vs.drop_last();
        assert(ks0.no_duplicates()) by {
            assert forall|i: int, j: int| 0 <= i < ks0.len() && 0 <= j < ks0.len() && i != j implies ks0[i] != ks0[j] by {
                assert(ks0[i] == ks[i] && ks0[j] == ks[j]);
            }
        }
        lemma_distinct_sets_all_kept(m, ks0, vs0);
        let last = ks.last();
        assert forall|i: int| 0 <= i < ks.len() implies lookup(set_all(m, ks, vs), #[trigger] ks[i]) == Some(vs[i]) by {
            if i < ks.len() - 1 {
                assert(ks0[i] == ks[i]);
                assert(ks[i] != last);
            }
        }
        assert forall|k: Seq<u8>| !ks.contains(k) implies lookup(set_all(m, ks, vs), k) == lookup(m, k) by {
            if ks0.contains(k) {
                let j = choose|j: int| 0 <= j < ks0.len() && ks0[j] == k;
                assert(ks[j] == k);
            }
            assert(k != ks[ks.len() - 1]);
        }
    }
}

} // verus!
