use vstd::prelude::*;
use crate::commands::{reply_of, Command, Operation};
use crate::resp::{RespType, Value};
use crate::storage::db::Db;
use crate::storage::store::{add_reply, Store};

verus! {

/// `INCR key`: adds one to the counter under the key and replies the new
/// count, or an error where the key holds no integer.
pub struct IncrCommand(pub String);

impl Command for IncrCommand {
    open spec fn op(&self) -> Operation {
        Operation::Incr(self.0@)
    }

    fn apply(&self, store: &mut Store) -> (reply: RespType) {
        store.incr(self.0.as_str())
    }

    fn execute(&self, db: &Db) -> (reply: RespType) {
        let reply = db.incr(self.0.as_str());
        proof {
            let m = choose|m: Map<Seq<char>, Value>| reply@ == #[trigger] add_reply(m, self.0@, 1);
            assert(reply@ == reply_of(self.op(), m));
        }
        reply
    }
}

} // verus!
