//! The commands, and what each replies.

pub mod decr;
pub mod del;
pub mod echo;
pub mod exists_key;
pub mod get;
pub mod incr;
pub mod ping;
pub mod set;

pub use decr::DecrCommand;
pub use del::DelCommand;
pub use echo::EchoCommand;
pub use exists_key::ExistsCommand;
pub use get::GetCommand;
pub use incr::IncrCommand;
pub use ping::PingCommand;
pub use set::SetCommand;

use vstd::prelude::*;
use crate::resp::{RespType, Value};
use crate::storage::db::Db;
use crate::storage::store::{
    add_reply, add_state, count_reply, lookup, not_an_integer, ok_reply, Store,
};

verus! {

/// The model of a command: the operation and its operands.
pub enum Operation {
    Ping,
    Echo(Value),
    Get(Seq<char>),
    Put(Seq<char>, Value),
    Del(Seq<char>),
    Exists(Seq<char>),
    Incr(Seq<char>),
    Decr(Seq<char>),
}

/// The reply to `op` on the store `m`.
pub open spec fn reply_of(op: Operation, m: Map<Seq<char>, Value>) -> Value {
    match op {
        Operation::Ping => Value::SimpleString("PONG"@),
        Operation::Echo(v) => v,
        Operation::Get(k) => match lookup(m, k) {
            Some(v) => v,
            None => Value::Null,
        },
        Operation::Put(_, _) => ok_reply(),
        Operation::Del(k) => count_reply(m.contains_key(k)),
        Operation::Exists(k) => count_reply(m.contains_key(k)),
        Operation::Incr(k) => add_reply(m, k, 1),
        Operation::Decr(k) => add_reply(m, k, -1),
    }
}

/// The store after `op` on the store `m`.
pub open spec fn state_after(op: Operation, m: Map<Seq<char>, Value>) -> Map<Seq<char>, Value> {
    match op {
        Operation::Put(k, v) => m.insert(k, v),
        Operation::Del(k) => m.remove(k),
        Operation::Incr(k) => add_state(m, k, 1),
        Operation::Decr(k) => add_state(m, k, -1),
        _ => m,
    }
}

/// `r` is what `op` replies on some store.
pub open spec fn may_reply(op: Operation, r: Value) -> bool {
    exists|m: Map<Seq<char>, Value>| r == #[trigger] reply_of(op, m)
}

/// A command: a validated operation that can be run against the store.
pub trait Command {
    /// The operation that this command stands for.
    spec fn op(&self) -> Operation;

    /// Runs the command on a store that this caller owns: the reply and the
    /// change are those of the operation.
    fn apply(&self, store: &mut Store) -> (reply: RespType)
        ensures
            reply@ == reply_of(self.op(), old(store)@),
            final(store)@ == state_after(self.op(), old(store)@),
    ;

    /// Runs the command on the shared store. Other connections write to it
    /// too, so the reply is what the operation replies on the store as this
    /// call found it.
    fn execute(&self, db: &Db) -> (reply: RespType)
        ensures
            may_reply(self.op(), reply@),
    ;
}

/// Any one of the commands.
pub enum Request {
    Ping(PingCommand),
    Echo(EchoCommand),
    Get(GetCommand),
    Put(SetCommand),
    Del(DelCommand),
    Exists(ExistsCommand),
    Incr(IncrCommand),
    Decr(DecrCommand),
}

impl Command for Request {
    open spec fn op(&self) -> Operation {
        match self {
            Request::Ping(c) => c.op(),
            Request::Echo(c) => c.op(),
            Request::Get(c) => c.op(),
            Request::Put(c) => c.op(),
            Request::Del(c) => c.op(),
            Request::Exists(c) => c.op(),
            Request::Incr(c) => c.op(),
            Request::Decr(c) => c.op(),
        }
    }

    fn apply(&self, store: &mut Store) -> (reply: RespType) {
        match self {
            Request::Ping(c) => c.apply(store),
            Request::Echo(c) => c.apply(store),
            Request::Get(c) => c.apply(store),
            Request::Put(c) => c.apply(store),
            Request::Del(c) => c.apply(store),
            Request::Exists(c) => c.apply(store),
            Request::Incr(c) => c.apply(store),
            Request::Decr(c) => c.apply(store),
        }
    }

    fn execute(&self, db: &Db) -> (reply: RespType) {
        match self {
            Request::Ping(c) => c.execute(db),
            Request::Echo(c) => c.execute(db),
            Request::Get(c) => c.execute(db),
            Request::Put(c) => c.execute(db),
            Request::Del(c) => c.execute(db),
            Request::Exists(c) => c.execute(db),
            Request::Incr(c) => c.execute(db),
            Request::Decr(c) => c.execute(db),
        }
    }
}

/// A value that was set is the value that a read of the key replies.
pub proof fn lemma_set_get(m: Map<Seq<char>, Value>, k: Seq<char>, v: Value)
    ensures
        reply_of(Operation::Put(k, v), m) == ok_reply(),
        reply_of(Operation::Get(k), state_after(Operation::Put(k, v), m)) == v,
{
}

/// Deleting an absent key replies 0. Deleting a present key replies 1, and
/// asking for the key afterwards replies 0.
pub proof fn lemma_del_exists(m: Map<Seq<char>, Value>, k: Seq<char>)
    ensures
        !m.contains_key(k) ==> reply_of(Operation::Del(k), m) == Value::Integer(0),
        m.contains_key(k) ==> reply_of(Operation::Del(k), m) == Value::Integer(1),
        reply_of(Operation::Exists(k), state_after(Operation::Del(k), m)) == Value::Integer(0),
{
}

/// The first increment of an absent key replies 1, the next one 2.
pub proof fn lemma_incr_incr(m: Map<Seq<char>, Value>, k: Seq<char>)
    requires
        !m.contains_key(k),
    ensures
        reply_of(Operation::Incr(k), m) == Value::Integer(1),
        reply_of(Operation::Incr(k), state_after(Operation::Incr(k), m)) == Value::Integer(2),
{
}

/// A decrement of an absent key replies -1.
pub proof fn lemma_decr_first(m: Map<Seq<char>, Value>, k: Seq<char>)
    requires
        !m.contains_key(k),
    ensures
        reply_of(Operation::Decr(k), m) == Value::Integer(-1i64),
{
}

/// Counting on a key that holds something else than an integer, a bulk
/// string for one, replies the type error and leaves the store as it was.
pub proof fn lemma_count_on_text(m: Map<Seq<char>, Value>, k: Seq<char>)
    requires
        m.contains_key(k),
        !(m[k] is Integer),
    ensures
        reply_of(Operation::Incr(k), m) == not_an_integer(),
        reply_of(Operation::Decr(k), m) == not_an_integer(),
        not_an_integer() is Error,
        state_after(Operation::Incr(k), m) == m,
        state_after(Operation::Decr(k), m) == m,
{
}

} // verus!
