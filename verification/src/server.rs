//! What the server answers: to a request, and to a frame that did not
//! decode.

use vstd::prelude::*;
use vstd::string::StringExecFns;
use crate::commands::{may_reply, Command};
use crate::error::{reply_text, Failure};
use crate::frame::FrameError;
use crate::parser::{parse_command, parse_request};
use crate::resp::{fault_text, RespType, Value};
use crate::storage::db::Db;

verus! {

/// The reply to a request that was rejected: an error with the rejection's
/// message.
pub open spec fn rejection_reply(f: Failure) -> Value {
    Value::Error(reply_text(f))
}

/// The reply to a frame that did not decode.
pub open spec fn broken_frame_reply(e: FrameError) -> Value {
    Value::Error("Error: "@ + fault_text(e.fault()))
}

/// Answers one request: the reply of the command that it asks for, run on
/// the shared store, or an error reply that says why it asks for none.
pub fn process_request(request: RespType, db: &Db) -> (reply: RespType)
    ensures
        match parse_request(request@) {
            Ok(op) => may_reply(op, reply@),
            Err(f) => reply@ == rejection_reply(f),
        },
{
    match parse_command(request) {
        Ok(command) => command.execute(db),
        Err(err) => err.into_reply(),
    }
}

/// What a connection does with one frame.
pub struct Turn {
    /// The reply to send.
    pub reply: RespType,
    /// Whether the connection goes on after the reply.
    pub keep_open: bool,
}

/// Decides what a connection does with what the codec handed out. A request
/// is answered and the connection goes on. After a frame that did not decode
/// the position in the stream is lost: the client is told, and the connection
/// closes.
pub fn handle_frame(frame: Result<RespType, FrameError>, db: &Db) -> (turn: Turn)
    ensures
        match frame {
            Ok(request) => turn.keep_open && match parse_request(request@) {
                Ok(op) => may_reply(op, turn.reply@),
                Err(f) => turn.reply@ == rejection_reply(f),
            },
            Err(e) => !turn.keep_open && turn.reply@ == broken_frame_reply(e),
        },
{
    match frame {
        Ok(request) => Turn { reply: process_request(request, db), keep_open: true },
        Err(e) => {
            let text = "Error: ".to_owned().concat(e.message().as_str());
            Turn { reply: RespType::Error(text), keep_open: false }
        },
    }
}

} // verus!
