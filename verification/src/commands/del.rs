use vstd::prelude::*;
use crate::commands::{reply_of, Command, Operation};
use crate::resp::{RespType, Value};
use crate::storage::db::Db;
use crate::storage::store::Store;

verus! {

/// `DEL key`: removes the key and replies how many keys it removed.
pub struct DelCommand(pub String);

impl Command for DelCommand {
    open spec fn op(&self) -> Operation {
        Operation::Del(self.0@)
    }

    fn apply(&self, store: &mut Store) -> (reply: RespType) {
        store.del(self.0.as_str())
    }

    fn execute(&self, db: &Db) -> (reply: RespType) {
        let reply = db.del(self.0.as_str());
        proof {
            let absent = Map::<Seq<char>, Value>::empty();
            let present = absent.insert(self.0@, Value::Null);
            assert(reply@ == reply_of(self.op(), absent) || reply@ == reply_of(self.op(), present));
        }
        reply
    }
}

} // verus!
