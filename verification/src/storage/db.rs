//! The store shared between connections: one `Store` behind a
//! reader-writer lock.

use vstd::prelude::*;
use std::sync::Arc;
use parking_lot::RwLock;
use parking_lot::RwLockReadGuard;
use parking_lot::RwLockWriteGuard;
use crate::resp::RespType;
use crate::storage::store::{count_reply, is_add_reply, ok_reply, Store};

verus! {

/// `lock_api::RwLock`, the lock behind `parking_lot::RwLock`. What it
/// guards is out of sight.
#[verifier::external_type_specification]
#[verifier::external_body]
#[verifier::reject_recursive_types(R)]
#[verifier::reject_recursive_types(T)]
pub struct ExRwLock<R, T: ?Sized>(parking_lot::lock_api::RwLock<R, T>);

/// `parking_lot::RawRwLock`, the lock's own state.
#[verifier::external_type_specification]
#[verifier::external_body]
pub struct ExRawRwLock(parking_lot::RawRwLock);

/// Shared access to the store, held until this value is dropped. It wraps
/// parking_lot's read guard.
#[verifier::external_body]
struct ReadAccess<'a> {
    guard: RwLockReadGuard<'a, Store>,
}

/// Exclusive access to the store, held until this value is dropped. It wraps
/// parking_lot's write guard.
#[verifier::external_body]
struct WriteAccess<'a> {
    guard: RwLockWriteGuard<'a, Store>,
}

/// `RwLock::new`.
#[verifier::external_body]
fn lock_new(store: Store) -> RwLock<Store> {
    RwLock::new(store)
}

/// `RwLock::read`: waits until no writer holds the lock. Nothing is known of
/// the store that it gives access to: other holders of the lock have written
/// it. It would wait for ever on a thread that holds exclusive access
/// already; this module asks for access only where it holds none.
#[verifier::external_body]
fn lock_read<'a>(lock: &'a RwLock<Store>) -> ReadAccess<'a> {
    ReadAccess { guard: lock.read() }
}

/// `RwLock::write`: waits until nobody else holds the lock. Nothing is known
/// of the store that it gives access to. It would wait for ever on a thread
/// that holds access already; this module asks for access only where it
/// holds none.
#[verifier::external_body]
fn lock_write<'a>(lock: &'a RwLock<Store>) -> WriteAccess<'a> {
    WriteAccess { guard: lock.write() }
}

/// The read guard's `deref`.
#[verifier::external_body]
fn read_store<'a, 'b>(access: &'a ReadAccess<'b>) -> &'a Store {
    &*access.guard
}

/// The write guard's `deref_mut`.
#[verifier::external_body]
fn write_store<'a, 'b>(access: &'a mut WriteAccess<'b>) -> &'a mut Store {
    &mut *access.guard
}

/// A handle on the shared store. Clones of a handle share one store.
#[derive(Clone)]
pub struct Db {
    data: Arc<RwLock<Store>>,
}

impl Default for Db {
    fn default() -> Db {
        Db::new()
    }
}

impl Db {
    /// A handle on a new, empty store.
    pub fn new() -> Db {
        Db { data: Arc::new(lock_new(Store::new())) }
    }

    /// A copy of the value under `key`, if there is one, as the store stands
    /// while this call holds shared access to it.
    pub fn get(&self, key: &str) -> Option<RespType> {
        let access = lock_read(&self.data);
        read_store(&access).get(key)
    }

    /// Stores `value` under `key`, under exclusive access.
    pub fn set(&self, key: String, value: RespType) -> (r: RespType)
        ensures
            r@ == ok_reply(),
    {
        let mut access = lock_write(&self.data);
        write_store(&mut access).set(key, value)
    }

    /// Removes `key`, under exclusive access; the reply counts what was
    /// removed.
    pub fn del(&self, key: &str) -> (r: RespType)
        ensures
            r@ == count_reply(true) || r@ == count_reply(false),
    {
        let mut access = lock_write(&self.data);
        write_store(&mut access).del(key)
    }

    /// The reply counts `key` as the store stands while this call holds
    /// shared access to it.
    pub fn exists_key(&self, key: &str) -> (r: RespType)
        ensures
            r@ == count_reply(true) || r@ == count_reply(false),
    {
        let access = lock_read(&self.data);
        read_store(&access).exists_key(key)
    }

    /// Adds one to the counter under `key`. The value is read, checked and
    /// written under one exclusive access, so the reply is what `Store::incr`
    /// replies on the store as it stood when access was granted.
    pub fn incr(&self, key: &str) -> (r: RespType)
        ensures
            is_add_reply(r@, key@, 1),
    {
        let mut access = lock_write(&self.data);
        write_store(&mut access).incr(key)
    }

    /// Takes one from the counter under `key`, under one exclusive access, as
    /// `incr` adds one.
    pub fn decr(&self, key: &str) -> (r: RespType)
        ensures
            is_add_reply(r@, key@, -1),
    {
        let mut access = lock_write(&self.data);
        write_store(&mut access).decr(key)
    }
}

} // verus!
