use vstd::prelude::*;
use crate::commands::{reply_of, Command, Operation};
use crate::resp::{RespType, Value};
use crate::storage::db::Db;
use crate::storage::store::Store;

verus! {

/// `SET key value`: stores the value under the key and replies `OK`.
pub struct SetCommand {
    pub key: String,
    pub value: RespType,
}

impl Command for SetCommand {
    open spec fn op(&self) -> Operation {
        Operation::Put(self.key@, self.value@)
    }

    fn apply(&self, store: &mut Store) -> (reply: RespType) {
        store.set(self.key.clone(), self.value.clone())
    }

    fn execute(&self, db: &Db) -> (reply: RespType) {
        let reply = db.set(self.key.clone(), self.value.clone());
        assert(reply@ == reply_of(self.op(), Map::<Seq<char>, Value>::empty()));
        reply
    }
}

} // verus!
