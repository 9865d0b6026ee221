use vstd::prelude::*;
use crate::commands::{reply_of, Command, Operation};
use crate::resp::{RespType, Value};
use crate::storage::db::Db;
use crate::storage::store::Store;

verus! {

/// `EXISTS key`: replies 1 where the key is present and 0 where it is not.
pub struct ExistsCommand(pub String);

impl Command for ExistsCommand {
    open spec fn op(&self) -> Operation {
        Operation::Exists(self.0@)
    }

    fn apply(&self, store: &mut Store) -> (reply: RespType) {
        store.exists_key(self.0.as_str())
    }

    fn execute(&self, db: &Db) -> (reply: RespType) {
        let reply = db.exists_key(self.0.as_str());
        proof {
            let absent = Map::<Seq<char>, Value>::empty();
            let present = absent.insert(self.0@, Value::Null);
            assert(reply@ == reply_of(self.op(), absent) || reply@ == reply_of(self.op(), present));
        }
        reply
    }
}

} // verus!
