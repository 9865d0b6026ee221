use vstd::prelude::*;
use crate::commands::{reply_of, Command, Operation};
use crate::resp::{RespType, Value};
use crate::storage::db::Db;
use crate::storage::store::Store;

verus! {

/// `GET key`: replies the value under the key, or null.
pub struct GetCommand(pub String);

impl Command for GetCommand {
    open spec fn op(&self) -> Operation {
        Operation::Get(self.0@)
    }

    fn apply(&self, store: &mut Store) -> (reply: RespType) {
        match store.get(self.0.as_str()) {
            Some(held) => held,
            None => RespType::Null,
        }
    }

    fn execute(&self, db: &Db) -> (reply: RespType) {
        match db.get(self.0.as_str()) {
            Some(held) => {
                assert(held@ == reply_of(
                    self.op(),
                    Map::<Seq<char>, Value>::empty().insert(self.0@, held@),
                ));
                held
            },
            None => {
                assert(Value::Null == reply_of(self.op(), Map::<Seq<char>, Value>::empty()));
                RespType::Null
            },
        }
    }
}

} // verus!
