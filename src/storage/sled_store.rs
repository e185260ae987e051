use crate::result::{KvsError, Result};
use crate::storage::model::{keys_of, vals_of};
use crate::storage::{any_empty, has_empty_key, BatchStore, Store};

use vstd::prelude::*;
use vstd::string::to_string_from_display_ensures;

verus! {

#[verifier::external_type_specification]
#[verifier::external_body]
pub struct ExDb(sled::Db);

#[verifier::external_type_specification]
#[verifier::external_body]
pub struct ExSledError(sled::Error);

/// Relies on the `Clone` impl of `sled::Db`: a second handle on the same
/// database.
pub assume_specification[ <sled::Db as Clone>::clone ](db: &sled::Db) -> sled::Db;

/// A write handed to the engine.
pub enum TreeOp {
    Insert(Seq<u8>, Seq<u8>),
    Remove(Seq<u8>),
    Flush,
}

/// A write handed to the engine, with the engine's failure if it failed.
pub struct TreeCall {
    pub op: TreeOp,
    pub failure: Option<sled::Error>,
}

/// The record of `op` once the engine answered `res`.
pub open spec fn call_of<T>(op: TreeOp, res: std::result::Result<T, sled::Error>) -> TreeCall {
    TreeCall {
        op,
        failure: match res {
            Ok(_) => None,
            Err(e) => Some(e),
        },
    }
}

/// Each of `ops`, recorded as done by the engine without failure.
pub open spec fn succeeded(ops: Seq<TreeOp>) -> Seq<TreeCall> {
    ops.map_values(|op: TreeOp| TreeCall { op, failure: None })
}

/// The log `new` is `old` followed by every op of `ops`, in order, each done
/// without failure.
pub open spec fn all_applied(old: Seq<TreeCall>, new: Seq<TreeCall>, ops: Seq<TreeOp>) -> bool {
    new == old + succeeded(ops)
}

/// The log `new` is `old` followed by a prefix of `ops` done without failure
/// and then the next op of `ops`, which failed; `r` reports that failure as
/// `Internal`, with the engine error's message.
pub open spec fn stopped_at<T>(
    old: Seq<TreeCall>,
    new: Seq<TreeCall>,
    ops: Seq<TreeOp>,
    r: Result<T>,
) -> bool {
    let n = new.len() - old.len();
    &&& old.len() < new.len() <= old.len() + ops.len()
    &&& new.take(new.len() - 1) == old + succeeded(ops.take(n - 1))
    &&& new.last().op == ops[n - 1]
    &&& new.last().failure is Some
    &&& r is Err
    &&& r->Err_0 is Internal
    &&& to_string_from_display_ensures::<sled::Error>(
        &new.last().failure->Some_0,
        r->Err_0->Internal_0,
    )
}

/// The writes that setting `ks[i]` to `vs[i]`, for each `i` in order, hands
/// to the engine.
pub open spec fn insert_ops(ks: Seq<Seq<u8>>, vs: Seq<Seq<u8>>) -> Seq<TreeOp> {
    Seq::new(ks.len(), |i: int| TreeOp::Insert(ks[i], vs[i]))
}

/// The writes that removing each of `ks` in order hands to the engine.
pub open spec fn remove_ops(ks: Seq<Seq<u8>>) -> Seq<TreeOp> {
    ks.map_values(|k: Seq<u8>| TreeOp::Remove(k))
}

/// The writes that setting `k` to `v` hands to the engine.
pub open spec fn set_ops(k: Seq<u8>, v: Seq<u8>) -> Seq<TreeOp> {
    seq![TreeOp::Insert(k, v), TreeOp::Flush]
}

/// The writes that removing `k` hands to the engine.
pub open spec fn remove_key_ops(k: Seq<u8>) -> Seq<TreeOp> {
    seq![TreeOp::Remove(k), TreeOp::Flush]
}

/// The log `new` is `old` followed by every op of `ops` done without failure,
/// and `r` is `Ok`; or the engine failed on one of them, as `stopped_at` says.
pub open spec fn ran<T>(old: Seq<TreeCall>, new: Seq<TreeCall>, ops: Seq<TreeOp>, r: Result<T>) -> bool {
    (r is Ok && all_applied(old, new, ops)) || stopped_at(old, new, ops, r)
}

/// An engine failure reported as `Internal`, with the engine error's message.
pub open spec fn reports_engine_failure<T, U>(
    res: std::result::Result<T, sled::Error>,
    r: Result<U>,
) -> bool {
    res is Err ==> (r is Err && r->Err_0 is Internal && to_string_from_display_ensures::<
        sled::Error,
    >(&res->Err_0, r->Err_0->Internal_0))
}

/// Relies on `Tree::get`: the value stored for `key`, copied out of the
/// engine's buffer. What it holds depends on the database on disk.
#[verifier::external_body]
fn tree_get(db: &sled::Db, key: &[u8]) -> (r: std::result::Result<Option<Vec<u8>>, sled::Error>)
{
    db.get(key).map(|found| found.map(|v| v.to_vec()))
}

/// Relies on `Tree::contains_key`: whether `key` has an entry.
#[verifier::external_body]
fn tree_contains_key(db: &sled::Db, key: &[u8]) -> (r: std::result::Result<bool, sled::Error>)
{
    db.contains_key(key)
}

/// Relies on `Tree::insert`: hands `key` and `value` to the engine to store,
/// and records that write with its outcome.
#[verifier::external_body]
fn tree_insert(s: &mut SledStore, key: &[u8], value: &[u8]) -> (r: std::result::Result<(), sled::Error>)
    ensures
        final(s).0 == old(s).0,
        final(s).1@ == old(s).1@.push(call_of(TreeOp::Insert(key@, value@), r)),
{
    s.0.insert(key, value).map(|_| ())
}

/// Relies on `Tree::remove`: hands `key` to the engine to delete, and records
/// that write with its outcome.
#[verifier::external_body]
fn tree_remove(s: &mut SledStore, key: &[u8]) -> (r: std::result::Result<(), sled::Error>)
    ensures
        final(s).0 == old(s).0,
        final(s).1@ == old(s).1@.push(call_of(TreeOp::Remove(key@), r)),
{
    s.0.remove(key).map(|_| ())
}

/// Relies on `Tree::flush`: asks the engine to write its pending changes to
/// disk, and records that request with its outcome.
#[verifier::external_body]
fn tree_flush(s: &mut SledStore) -> (r: std::result::Result<(), sled::Error>)
    ensures
        final(s).0 == old(s).0,
        final(s).1@ == old(s).1@.push(call_of(TreeOp::Flush, r)),
{
    s.0.flush().map(|_| ())
}

/// Turns an engine result into a store result: the value is kept, and an
/// engine failure becomes `Internal`, carrying the engine error's message.
pub fn internal<T>(res: std::result::Result<T, sled::Error>) -> (r: Result<T>)
    ensures
        res is Ok <==> r is Ok,
        res is Ok ==> r->Ok_0 == res->Ok_0,
        reports_engine_failure(res, r),
{
    match res {
        Ok(v) => Ok(v),
        Err(e) => Err(KvsError::Internal(e.to_string())),
    }
}

/// Wrapper of `sled::Db`.
///
/// Every single-key mutation is flushed to disk before it returns. Batches
/// are applied one key at a time, in order; a failure midway leaves the keys
/// before it applied. The ghost log records every write handed to the engine
/// through this handle, with its outcome.
#[derive(Clone)]
pub struct SledStore(pub sled::Db, pub Ghost<Seq<TreeCall>>);

impl SledStore {
    /// Creates a `SledStore` from a `sled::Db`.
    pub fn open(db: sled::Db) -> (r: Self)
        ensures
            r.0 == db,
            r.1@ == Seq::<TreeCall>::empty(),
    {
        SledStore(db, Ghost(Seq::empty()))
    }

    /// The name of this backend.
    pub fn to_string(&self) -> (r: String)
        ensures
            r@ == "sledstore"@,
    {
        "sledstore".to_string()
    }
}

impl Store for SledStore {
    fn get(&self, key: &[u8]) -> (r: Result<Option<Vec<u8>>>) {
        if key.len() == 0 {
            return Err(KvsError::EmptyKey);
        }
        internal(tree_get(&self.0, key))
    }

    fn set(&mut self, key: &[u8], value: &[u8]) -> (r: Result<()>)
        ensures
            final(self).0 == old(self).0,
            key@.len() == 0 ==> final(self).1@ == old(self).1@,
            key@.len() > 0 ==> ran(old(self).1@, final(self).1@, set_ops(key@, value@), r),
    {
        if key.len() == 0 {
            return Err(KvsError::EmptyKey);
        }
        let inserted = tree_insert(self, key, value);
        proof {
            let ops = set_ops(key@, value@);
            assert(ops.take(0) =~= Seq::<TreeOp>::empty());
            assert(succeeded(ops.take(1)) =~= seq![TreeCall { op: TreeOp::Insert(key@, value@), failure: None }]);
            assert(succeeded(ops) =~= succeeded(ops.take(1)).push(TreeCall { op: TreeOp::Flush, failure: None }));
            assert(self.1@.take(self.1@.len() - 1) =~= old(self).1@);
        }
        let first = internal(inserted);
        if first.is_err() {
            assert(old(self).1@ + succeeded(set_ops(key@, value@).take(0)) =~= old(self).1@);
            return first;
        }
        let mid = Ghost(self.1@);
        let flushed = tree_flush(self);
        proof {
            assert(self.1@.take(self.1@.len() - 1) =~= mid@);
            assert(mid@ =~= old(self).1@ + succeeded(set_ops(key@, value@).take(1)));
            assert(old(self).1@ + succeeded(set_ops(key@, value@)) =~= mid@.push(TreeCall { op: TreeOp::Flush, failure: None }));
        }
        internal(flushed)
    }

    fn remove(&mut self, key: &[u8]) -> (r: Result<()>)
        ensures
            final(self).0 == old(self).0,
            key@.len() == 0 ==> final(self).1@ == old(self).1@,
            key@.len() > 0 ==> ran(old(self).1@, final(self).1@, remove_key_ops(key@), r),
    {
        if key.len() == 0 {
            return Err(KvsError::EmptyKey);
        }
        let removed = tree_remove(self, key);
        proof {
            let ops = remove_key_ops(key@);
            assert(ops.take(0) =~= Seq::<TreeOp>::empty());
            assert(succeeded(ops.take(1)) =~= seq![TreeCall { op: TreeOp::Remove(key@), failure: None }]);
            assert(succeeded(ops) =~= succeeded(ops.take(1)).push(TreeCall { op: TreeOp::Flush, failure: None }));
            assert(self.1@.take(self.1@.len() - 1) =~= old(self).1@);
        }
        let first = internal(removed);
        if first.is_err() {
            assert(old(self).1@ + succeeded(remove_key_ops(key@).take(0)) =~= old(self).1@);
            return first;
        }
        let mid = Ghost(self.1@);
        let flushed = tree_flush(self);
        proof {
            assert(self.1@.take(self.1@.len() - 1) =~= mid@);
            assert(mid@ =~= old(self).1@ + succeeded(remove_key_ops(key@).take(1)));
            assert(old(self).1@ + succeeded(remove_key_ops(key@)) =~= mid@.push(TreeCall { op: TreeOp::Flush, failure: None }));
        }
        internal(flushed)
    }

    fn contains(&mut self, key: &[u8]) -> (r: Result<bool>)
        ensures
            *final(self) == *old(self),
    {
        if key.len() == 0 {
            return Err(KvsError::EmptyKey);
        }
        internal(tree_contains_key(&self.0, key))
    }
}

impl BatchStore for SledStore {
    fn get_batch(&self, keys: &[Vec<u8>]) -> (r: Result<Vec<Option<Vec<u8>>>>) {
        if any_empty(keys) {
            return Err(KvsError::EmptyKey);
        }
        let mut values: Vec<Option<Vec<u8>>> = Vec::new();
        let mut i: usize = 0;
        while i < keys.len()
            invariant
                i <= keys@.len(),
                values@.len() == i,
                !has_empty_key(keys@),
            decreases keys@.len() - i,
        {
            let found = internal(tree_get(&self.0, keys[i].as_slice()))?;
            values.push(found);
            i = i + 1;
        }
        Ok(values)
    }

    fn set_batch(&mut self, keys: &[Vec<u8>], values: &[Vec<u8>]) -> (r: Result<()>)
        ensures
            final(self).0 == old(self).0,
            keys@.len() != values@.len() ==> final(self).1@ == old(self).1@,
            has_empty_key(keys@) ==> final(self).1@ == old(self).1@,
            keys@.len() == values@.len() && !has_empty_key(keys@) ==> ran(
                old(self).1@,
                final(self).1@,
                insert_ops(keys_of(keys@), vals_of(values@)),
                r,
            ),
    {
        if keys.len() != values.len() {
            return Err(
                KvsError::InvalidData(
                    "The number of keys does not match the number of values".to_string(),
                ),
            );
        }
        if any_empty(keys) {
            return Err(KvsError::EmptyKey);
        }
        let ghost ops = insert_ops(keys_of(keys@), vals_of(values@));
        let mut i: usize = 0;
        while i < keys.len()
            invariant
                i <= keys@.len(),
                keys@.len() == values@.len(),
                !has_empty_key(keys@),
                ops == insert_ops(keys_of(keys@), vals_of(values@)),
                self.0 == old(self).0,
                self.1@ == old(self).1@ + succeeded(ops.take(i as int)),
            decreases keys@.len() - i,
        {
            let ghost before = self.1@;
            let res = tree_insert(self, keys[i].as_slice(), values[i].as_slice());
            proof {
                assert(ops[i as int] == TreeOp::Insert(keys@[i as int]@, values@[i as int]@));
                assert(self.1@.take(self.1@.len() - 1) =~= before);
                assert(succeeded(ops.take(i + 1)) =~= succeeded(ops.take(i as int)).push(
                    TreeCall { op: ops[i as int], failure: None },
                ));
            }
            let done = internal(res);
            if done.is_err() {
                return done;
            }
            assert(self.1@ =~= old(self).1@ + succeeded(ops.take(i + 1)));
            i = i + 1;
        }
        assert(ops.take(i as int) =~= ops);
        Ok(())
    }

    fn remove_batch(&mut self, keys: &[Vec<u8>]) -> (r: Result<()>)
        ensures
            final(self).0 == old(self).0,
            has_empty_key(keys@) ==> final(self).1@ == old(self).1@,
            !has_empty_key(keys@) ==> ran(old(self).1@, final(self).1@, remove_ops(keys_of(keys@)), r),
    {
        if any_empty(keys) {
            return Err(KvsError::EmptyKey);
        }
        let ghost ops = remove_ops(keys_of(keys@));
        let mut i: usize = 0;
        while i < keys.len()
            invariant
                i <= keys@.len(),
                !has_empty_key(keys@),
                ops == remove_ops(keys_of(keys@)),
                self.0 == old(self).0,
                self.1@ == old(self).1@ + succeeded(ops.take(i as int)),
            decreases keys@.len() - i,
        {
            let ghost before = self.1@;
            let res = tree_remove(self, keys[i].as_slice());
            proof {
                assert(ops[i as int] == TreeOp::Remove(keys@[i as int]@));
                assert(self.1@.take(self.1@.len() - 1) =~= before);
                assert(succeeded(ops.take(i + 1)) =~= succeeded(ops.take(i as int)).push(
                    TreeCall { op: ops[i as int], failure: None },
                ));
            }
            let done = internal(res);
            if done.is_err() {
                return done;
            }
            assert(self.1@ =~= old(self).1@ + succeeded(ops.take(i + 1)));
            i = i + 1;
        }
        assert(ops.take(i as int) =~= ops);
        Ok(())
    }
}

} // verus!
