//! The store as one owner sees it: a map from keys to values, and what each
//! operation does to it.

use vstd::prelude::*;
use vstd::hash_map::StringHashMap;
use crate::resp::{RespType, Value};

verus! {

/// The value stored under `k`, if there is one.
pub open spec fn lookup(m: Map<Seq<char>, Value>, k: Seq<char>) -> Option<Value> {
    if m.contains_key(k) {
        Some(m[k])
    } else {
        None
    }
}

/// The acknowledgment of a write.
pub open spec fn ok_reply() -> Value {
    Value::SimpleString("OK"@)
}

/// The reply that counts one key: 1 where it is present, 0 where it is not.
pub open spec fn count_reply(present: bool) -> Value {
    Value::Integer(
        if present {
            1
        } else {
            0
        },
    )
}

/// The reply to counting on a value that is no integer.
pub open spec fn not_an_integer() -> Value {
    Value::Error("ERR value is not an integer"@)
}

/// The reply to counting past what a signed 64-bit integer holds.
pub open spec fn out_of_range() -> Value {
    Value::Error("ERR increment or decrement would overflow"@)
}

/// The reply to adding `delta` to the counter under `k`. An absent key counts
/// from zero. Nothing wraps around: a sum out of range is an error.
pub open spec fn add_reply(m: Map<Seq<char>, Value>, k: Seq<char>, delta: int) -> Value {
    match lookup(m, k) {
        None => Value::Integer(delta as i64),
        Some(Value::Integer(v)) => if i64::MIN <= v + delta <= i64::MAX {
            Value::Integer((v + delta) as i64)
        } else {
            out_of_range()
        },
        Some(_) => not_an_integer(),
    }
}

/// The store after adding `delta` to the counter under `k`: the new count is
/// stored where the reply is a count, and nothing changes where it is an
/// error.
pub open spec fn add_state(m: Map<Seq<char>, Value>, k: Seq<char>, delta: int) -> Map<
    Seq<char>,
    Value,
> {
    match add_reply(m, k, delta) {
        Value::Integer(n) => m.insert(k, Value::Integer(n)),
        _ => m,
    }
}

/// `r` is what adding `delta` to the counter under `k` replies on some store.
pub open spec fn is_add_reply(r: Value, k: Seq<char>, delta: int) -> bool {
    exists|m: Map<Seq<char>, Value>| r == #[trigger] add_reply(m, k, delta)
}

/// The store after `n` increments of the counter under `k`.
pub open spec fn incr_times(m: Map<Seq<char>, Value>, k: Seq<char>, n: nat) -> Map<
    Seq<char>,
    Value,
>
    decreases n,
{
    if n == 0 {
        m
    } else {
        add_state(incr_times(m, k, (n - 1) as nat), k, 1)
    }
}

/// After `n` increments, one after another, of a key that was absent, the
/// counter stands at `n`: no increment is lost.
pub proof fn lemma_incr_times(m: Map<Seq<char>, Value>, k: Seq<char>, n: nat)
    requires
        !m.contains_key(k),
        1 <= n <= i64::MAX,
    ensures
        lookup(incr_times(m, k, n), k) == Some(Value::Integer(n as i64)),
    decreases n,
{
    if n > 1 {
        lemma_incr_times(m, k, (n - 1) as nat);
    } else {
        assert(incr_times(m, k, 0) == m);
    }
}

/// The key-value store: each key holds one value.
pub struct Store {
    entries: StringHashMap<RespType>,
}

impl View for Store {
    type V = Map<Seq<char>, Value>;

    closed spec fn view(&self) -> Map<Seq<char>, Value> {
        self.entries@.map_values(|v: RespType| v@)
    }
}

impl Store {
    /// An empty store.
    pub fn new() -> (s: Store)
        ensures
            s@ == Map::<Seq<char>, Value>::empty(),
    {
        let s = Store { entries: StringHashMap::new() };
        s
    }

    /// A copy of the value under `key`, if there is one.
    pub fn get(&self, key: &str) -> (r: Option<RespType>)
        ensures
            match lookup(self@, key@) {
                Some(v) => r matches Some(held) && held@ == v,
                None => r is None,
            },
    {
        match self.entries.get(key) {
            Some(held) => Some(held.duplicate()),
            None => None,
        }
    }

    /// Stores `value` under `key`, in place of what was there.
    pub fn set(&mut self, key: String, value: RespType) -> (r: RespType)
        ensures
            final(self)@ == old(self)@.insert(key@, value@),
            r@ == ok_reply(),
    {
        self.entries.insert(key, value);
        RespType::SimpleString("OK".to_owned())
    }

    /// Removes `key`; the reply counts what was removed.
    pub fn del(&mut self, key: &str) -> (r: RespType)
        ensures
            final(self)@ == old(self)@.remove(key@),
            r@ == count_reply(old(self)@.contains_key(key@)),
    {
        let present = self.entries.contains_key(key);
        self.entries.remove(key);
        RespType::Integer(
            if present {
                1
            } else {
                0
            },
        )
    }

    /// The reply counts `key`: 1 where it is present, 0 where it is not.
    pub fn exists_key(&self, key: &str) -> (r: RespType)
        ensures
            r@ == count_reply(self@.contains_key(key@)),
    {
        let present = self.entries.contains_key(key);
        RespType::Integer(
            if present {
                1
            } else {
                0
            },
        )
    }

    /// Adds `delta` to the counter under `key`.
    fn add(&mut self, key: &str, delta: i64) -> (r: RespType)
        ensures
            r@ == add_reply(old(self)@, key@, delta as int),
            final(self)@ == add_state(old(self)@, key@, delta as int),
    {
        let next: i64 = match self.entries.get(key) {
            None => delta,
            Some(RespType::Integer(v)) => match v.checked_add(delta) {
                Some(n) => n,
                None => {
                    return RespType::Error("ERR increment or decrement would overflow".to_owned());
                },
            },
            Some(_) => {
                return RespType::Error("ERR value is not an integer".to_owned());
            },
        };
        self.entries.insert(key.to_owned(), RespType::Integer(next));
        RespType::Integer(next)
    }

    /// Adds one to the counter under `key`, which counts from zero where the
    /// key is absent. The reply is the new count, or an error that leaves the
    /// store as it was: where the value is no integer, and where the count
    /// would pass `i64::MAX`.
    pub fn incr(&mut self, key: &str) -> (r: RespType)
        ensures
            r@ == add_reply(old(self)@, key@, 1),
            final(self)@ == add_state(old(self)@, key@, 1),
    {
        self.add(key, 1)
    }

    /// Takes one from the counter under `key`, which counts from zero where
    /// the key is absent. The reply is the new count, or an error that leaves
    /// the store as it was: where the value is no integer, and where the count
    /// would pass `i64::MIN`.
    pub fn decr(&mut self, key: &str) -> (r: RespType)
        ensures
            r@ == add_reply(old(self)@, key@, -1),
            final(self)@ == add_state(old(self)@, key@, -1),
    {
        self.add(key, -1)
    }
}

} // verus!
