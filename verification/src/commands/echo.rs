use vstd::prelude::*;
use crate::commands::{reply_of, Command, Operation};
use crate::resp::{RespType, Value};
use crate::storage::db::Db;
use crate::storage::store::Store;

verus! {

/// `ECHO value`: replies the value as it came.
pub struct EchoCommand(pub RespType);

impl Command for EchoCommand {
    open spec fn op(&self) -> Operation {
        Operation::Echo(self.0@)
    }

    fn apply(&self, store: &mut Store) -> (reply: RespType) {
        self.0.clone()
    }

    fn execute(&self, _db: &Db) -> (reply: RespType) {
        let reply = self.0.clone();
        assert(reply@ == reply_of(self.op(), Map::<Seq<char>, Value>::empty()));
        reply
    }
}

} // verus!
