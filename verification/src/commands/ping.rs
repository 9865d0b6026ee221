use vstd::prelude::*;
use crate::commands::{reply_of, Command, Operation};
use crate::resp::{RespType, Value};
use crate::storage::db::Db;
use crate::storage::store::Store;

verus! {

/// `PING`: replies `PONG`.
pub struct PingCommand;

impl Command for PingCommand {
    open spec fn op(&self) -> Operation {
        Operation::Ping
    }

    fn apply(&self, store: &mut Store) -> (reply: RespType) {
        RespType::SimpleString("PONG".to_owned())
    }

    fn execute(&self, _db: &Db) -> (reply: RespType) {
        let reply = RespType::SimpleString("PONG".to_owned());
        assert(reply@ == reply_of(self.op(), Map::<Seq<char>, Value>::empty()));
        reply
    }
}

} // verus!
