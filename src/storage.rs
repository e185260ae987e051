mod memory;
mod sled_store;
pub mod model;

pub use memory::MemStore;
pub use sled_store::SledStore;

use crate::result::Result;
use vstd::prelude::*;

verus! {

/// True when `r` is the error for an empty key.
pub open spec fn is_empty_key_err<T>(r: Result<T>) -> bool {
    r is Err && r->Err_0 is EmptyKey
}

/// True when `r` failed with nothing but an empty key or an internal failure.
pub open spec fn only_key_or_internal_err<T>(r: Result<T>) -> bool {
    r is Err ==> (r->Err_0 is EmptyKey || r->Err_0 is Internal)
}

/// True when some key of `keys` is the empty byte string.
pub open spec fn has_empty_key(keys: Seq<Vec<u8>>) -> bool {
    exists|i: int| 0 <= i < keys.len() && (#[trigger] keys[i])@.len() == 0
}

/// Whether some key of `keys` is the empty byte string.
pub fn any_empty(keys: &[Vec<u8>]) -> (r: bool)
    ensures
        r == has_empty_key(keys@),
{
    let mut i: usize = 0;
    while i < keys.len()
        invariant
            i <= keys@.len(),
            forall|j: int| 0 <= j < i ==> (#[trigger] keys@[j])@.len() > 0,
        decreases keys@.len() - i,
    {
        if keys[i].len() == 0 {
            return true;
        }
        i = i + 1;
    }
    false
}

/// A key/value store trait for basic ops.
pub trait Store: Send + Sync {
    /// Gets a value for a key, if it exists.
    fn get(&self, key: &[u8]) -> (r: Result<Option<Vec<u8>>>)
        ensures
            is_empty_key_err(r) <==> key@.len() == 0,
            only_key_or_internal_err(r),
    ;

    /// Sets a value for a key, replacing the existing value if any.
    fn set(&mut self, key: &[u8], value: &[u8]) -> (r: Result<()>)
        ensures
            is_empty_key_err(r) <==> key@.len() == 0,
            only_key_or_internal_err(r),
    ;

    /// Removes a key, or does nothing if it does not exist.
    fn remove(&mut self, key: &[u8]) -> (r: Result<()>)
        ensures
            is_empty_key_err(r) <==> key@.len() == 0,
            only_key_or_internal_err(r),
    ;

    /// Returns `true` if the store contains a value for the specified key.
    fn contains(&mut self, key: &[u8]) -> (r: Result<bool>)
        ensures
            is_empty_key_err(r) <==> key@.len() == 0,
            only_key_or_internal_err(r),
    ;
}

/// A key/value store trait for batch ops.
pub trait BatchStore: Send + Sync {
    /// Gets values for keys, if they exist, one result per key in order.
    fn get_batch(&self, keys: &[Vec<u8>]) -> (r: Result<Vec<Option<Vec<u8>>>>)
        ensures
            is_empty_key_err(r) <==> has_empty_key(keys@),
            only_key_or_internal_err(r),
            r is Ok ==> r->Ok_0.len() == keys@.len(),
    ;

    /// Sets values for keys, replacing the existing values if any.
    fn set_batch(&mut self, keys: &[Vec<u8>], values: &[Vec<u8>]) -> (r: Result<()>)
        ensures
            (r is Err && r->Err_0 is InvalidData) <==> keys@.len() != values@.len(),
            is_empty_key_err(r) <==> (keys@.len() == values@.len() && has_empty_key(keys@)),
            r is Err ==> (r->Err_0 is EmptyKey || r->Err_0 is InvalidData || r->Err_0 is Internal),
    ;

    /// Removes keys, or does nothing for those that do not exist.
    fn remove_batch(&mut self, keys: &[Vec<u8>]) -> (r: Result<()>)
        ensures
            is_empty_key_err(r) <==> has_empty_key(keys@),
            only_key_or_internal_err(r),
    ;
}

} // verus!
