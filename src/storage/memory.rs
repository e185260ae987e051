use crate::result::{KvsError, Result};
use crate::storage::model::{keys_of, lookup, no_entries, set_all, vals_of};
use crate::storage::{any_empty, has_empty_key, BatchStore, Store};

use parking_lot::RwLock;
use seahash::SeaHasher;
use std::collections::HashMap;
use std::hash::BuildHasherDefault;
use std::sync::Arc;
use vstd::prelude::*;
use vstd::slice::slice_to_vec;

verus! {

type SeaHashMap = HashMap<Vec<u8>, Vec<u8>, BuildHasherDefault<SeaHasher>>;

/// One hash map, keyed by SeaHash, shared behind a reader-writer lock.
#[verifier::external_body]
pub struct SharedMap {
    inner: Arc<RwLock<SeaHashMap>>,
}

/// The entries that a shared map holds.
pub uninterp spec fn shared_entries(m: SharedMap) -> Map<Seq<u8>, Seq<u8>>;

/// Relies on `HashMap::default`: a new map has no entries.
#[verifier::external_body]
fn shared_new() -> (r: SharedMap)
    ensures
        shared_entries(r) == no_entries(),
{
    SharedMap { inner: Arc::new(RwLock::new(SeaHashMap::default())) }
}

/// Relies on `RwLock::read` and `HashMap::get`: under a shared lock, the value
/// stored for `key`, cloned.
#[verifier::external_body]
fn shared_get(m: &SharedMap, key: &[u8]) -> (r: Option<Vec<u8>>)
    ensures
        r.deep_view() == lookup(shared_entries(*m), key@),
{
    m.inner.read().get(key).cloned()
}

/// Relies on `RwLock::read` and `HashMap::contains_key`: under a shared lock,
/// whether `key` has an entry.
#[verifier::external_body]
fn shared_contains(m: &SharedMap, key: &[u8]) -> (r: bool)
    ensures
        r == shared_entries(*m).contains_key(key@),
{
    m.inner.read().contains_key(key)
}

/// Relies on `RwLock::write` and `HashMap::insert`: under the exclusive lock,
/// `key` maps to `value` afterwards, the other entries unchanged.
#[verifier::external_body]
fn shared_insert(m: &mut SharedMap, key: Vec<u8>, value: Vec<u8>)
    ensures
        shared_entries(*final(m)) == shared_entries(*old(m)).insert(key@, value@),
{
    m.inner.write().insert(key, value);
}

/// Relies on `RwLock::write` and `HashMap::remove`: under the exclusive lock,
/// `key` has no entry afterwards, the other entries unchanged.
#[verifier::external_body]
fn shared_remove(m: &mut SharedMap, key: &[u8])
    ensures
        shared_entries(*final(m)) == shared_entries(*old(m)).remove(key@),
{
    m.inner.write().remove(key);
}

/// Relies on `RwLock::write` and `HashMap::extend`: under one exclusive lock,
/// the pairs are inserted in order, so a later pair for a key wins.
#[verifier::external_body]
fn shared_extend(m: &mut SharedMap, keys: &[Vec<u8>], values: &[Vec<u8>])
    requires
        keys@.len() == values@.len(),
    ensures
        shared_entries(*final(m)) == set_all(shared_entries(*old(m)), keys_of(keys@), vals_of(values@)),
{
    m.inner.write().extend(keys.iter().cloned().zip(values.iter().cloned()));
}

/// Relies on `RwLock::write` and `HashMap::retain`: under one exclusive lock,
/// the entries whose key is listed in `keys` are dropped, the others kept.
#[verifier::external_body]
fn shared_remove_all(m: &mut SharedMap, keys: &[Vec<u8>])
    ensures
        shared_entries(*final(m)) == shared_entries(*old(m)).remove_keys(keys_of(keys@).to_set()),
{
    m.inner.write().retain(|k, _| not_listed(keys, k));
}

/// Whether two byte strings are equal.
pub fn same_bytes(a: &[u8], b: &[u8]) -> (r: bool)
    ensures
        r == (a@ == b@),
{
    if a.len() != b.len() {
        return false;
    }
    let mut i: usize = 0;
    while i < a.len()
        invariant
            a@.len() == b@.len(),
            i <= a@.len(),
            a@.subrange(0, i as int) == b@.subrange(0, i as int),
        decreases a@.len() - i,
    {
        if a[i] != b[i] {
            assert(a@[i as int] != b@[i as int]);
            return false;
        }
        assert(a@.subrange(0, i + 1) =~= a@.subrange(0, i as int).push(a@[i as int]));
        assert(b@.subrange(0, i + 1) =~= b@.subrange(0, i as int).push(b@[i as int]));
        i = i + 1;
    }
    assert(a@ =~= a@.subrange(0, i as int));
    assert(b@ =~= b@.subrange(0, i as int));
    true
}

/// Whether `key` is absent from `keys`.
pub fn not_listed(keys: &[Vec<u8>], key: &Vec<u8>) -> (r: bool)
    ensures
        r == !keys_of(keys@).contains(key@),
{
    let mut i: usize = 0;
    while i < keys.len()
        invariant
            i <= keys@.len(),
            forall|j: int| 0 <= j < i ==> (#[trigger] keys@[j])@ != key@,
        decreases keys@.len() - i,
    {
        if same_bytes(keys[i].as_slice(), key.as_slice()) {
            assert(keys_of(keys@)[i as int] == key@);
            return false;
        }
        i = i + 1;
    }
    assert forall|j: int| 0 <= j < keys_of(keys@).len() implies keys_of(keys@)[j] != key@ by {
        assert(keys@[j]@ != key@);
    }
    true
}

/// The `MemStore` stores key/value pairs.
///
/// In-memory key-value store using a `HashMap` that is not persisted to disk.
/// Readers share the lock around the map, a batch read taking it once per
/// key; each mutation, a whole batch included, holds it exclusively.
pub struct MemStore {
    storage: SharedMap,
}

impl View for MemStore {
    type V = Map<Seq<u8>, Seq<u8>>;

    closed spec fn view(&self) -> Map<Seq<u8>, Seq<u8>> {
        shared_entries(self.storage)
    }
}

impl MemStore {
    /// Creates a new, empty in-memory store.
    pub fn open() -> (r: Self)
        ensures
            r@ == no_entries(),
    {
        MemStore { storage: shared_new() }
    }

    /// The name of this backend.
    pub fn to_string(&self) -> (r: String)
        ensures
            r@ == "memstore"@,
    {
        "memstore".to_string()
    }
}

impl Default for MemStore {
    fn default() -> (r: Self)
        ensures
            r@ == no_entries(),
    {
        Self::open()
    }
}

impl Store for MemStore {
    fn get(&self, key: &[u8]) -> (r: Result<Option<Vec<u8>>>)
        ensures
            key@.len() > 0 ==> r is Ok && r->Ok_0.deep_view() == lookup(self@, key@),
    {
        if key.len() == 0 {
            return Err(KvsError::EmptyKey);
        }
        Ok(shared_get(&self.storage, key))
    }

    fn set(&mut self, key: &[u8], value: &[u8]) -> (r: Result<()>)
        ensures
            key@.len() == 0 ==> final(self)@ == old(self)@,
            key@.len() > 0 ==> r is Ok && final(self)@ == old(self)@.insert(key@, value@),
    {
        if key.len() == 0 {
            return Err(KvsError::EmptyKey);
        }
        shared_insert(&mut self.storage, slice_to_vec(key), slice_to_vec(value));
        Ok(())
    }

    fn remove(&mut self, key: &[u8]) -> (r: Result<()>)
        ensures
            key@.len() == 0 ==> final(self)@ == old(self)@,
            key@.len() > 0 ==> r is Ok && final(self)@ == old(self)@.remove(key@),
    {
        if key.len() == 0 {
            return Err(KvsError::EmptyKey);
        }
        shared_remove(&mut self.storage, key);
        Ok(())
    }

    fn contains(&mut self, key: &[u8]) -> (r: Result<bool>)
        ensures
            final(self)@ == old(self)@,
            key@.len() > 0 ==> r is Ok && r->Ok_0 == old(self)@.contains_key(key@),
    {
        if key.len() == 0 {
            return Err(KvsError::EmptyKey);
        }
        Ok(shared_contains(&self.storage, key))
    }
}

impl BatchStore for MemStore {
    fn get_batch(&self, keys: &[Vec<u8>]) -> (r: Result<Vec<Option<Vec<u8>>>>)
        ensures
            !has_empty_key(keys@) ==> r is Ok && r->Ok_0.deep_view() == keys@.map_values(
                |k: Vec<u8>| lookup(self@, k@),
            ),
    {
        if any_empty(keys) {
            return Err(KvsError::EmptyKey);
        }
        let mut values: Vec<Option<Vec<u8>>> = Vec::new();
        let mut i: usize = 0;
        while i < keys.len()
            invariant
                i <= keys@.len(),
                values@.len() == i,
                forall|j: int|
                    0 <= j < i ==> (#[trigger] values@[j]).deep_view() == lookup(self@, keys@[j]@),
            decreases keys@.len() - i,
        {
            values.push(shared_get(&self.storage, keys[i].as_slice()));
            i = i + 1;
        }
        assert(values.deep_view() =~= keys@.map_values(|k: Vec<u8>| lookup(self@, k@)));
        Ok(values)
    }

    fn set_batch(&mut self, keys: &[Vec<u8>], values: &[Vec<u8>]) -> (r: Result<()>)
        ensures
            r is Err ==> final(self)@ == old(self)@,
            keys@.len() == values@.len() && !has_empty_key(keys@) ==> r is Ok && final(self)@
                == set_all(old(self)@, keys_of(keys@), vals_of(values@)),
    {
        if keys.len() != values.len() {
            return Err(
                KvsError::InvalidData(
                    "The number of keys does not match the number of values".to_string(),
                ),
            );
        }
        if any_empty(keys) {
            return Err(KvsError::EmptyKey);
        }
        shared_extend(&mut self.storage, keys, values);
        Ok(())
    }

    fn remove_batch(&mut self, keys: &[Vec<u8>]) -> (r: Result<()>)
        ensures
            r is Err ==> final(self)@ == old(self)@,
            !has_empty_key(keys@) ==> r is Ok && final(self)@ == old(self)@.remove_keys(
                keys_of(keys@).to_set(),
            ),
    {
        if any_empty(keys) {
            return Err(KvsError::EmptyKey);
        }
        shared_remove_all(&mut self.storage, keys);
        Ok(())
    }
}

} // verus!
