//! From a decoded request to a command.

use vstd::prelude::*;
use vstd::string::StringExecFns;
use crate::commands::{
    Command, DecrCommand, DelCommand, EchoCommand, ExistsCommand, GetCommand, IncrCommand,
    Operation, PingCommand, Request, SetCommand,
};
use crate::error::{BifrostError, Failure};
use crate::resp::{lemma_array_view, values_of, RespType, Value};
use crate::text::{same_text, to_upper, uppercase};

verus! {

/// The commands of the command table.
#[derive(Clone, Copy, Debug)]
pub enum CommandKind {
    Ping,
    Echo,
    Get,
    Put,
    Del,
    Exists,
    Incr,
    Decr,
}

impl CommandKind {
    /// How many operands the command takes after its name.
    pub open spec fn operands(self) -> nat {
        match self {
            CommandKind::Ping => 0,
            CommandKind::Put => 2,
            _ => 1,
        }
    }

    /// Whether the command's first operand is a key.
    pub open spec fn keyed(self) -> bool {
        !(self is Ping || self is Echo)
    }

    /// The command's name as error messages write it.
    pub open spec fn label(self) -> Seq<char> {
        match self {
            CommandKind::Ping => "ping"@,
            CommandKind::Echo => "echo"@,
            CommandKind::Get => "get"@,
            CommandKind::Put => "set"@,
            CommandKind::Del => "del"@,
            CommandKind::Exists => "exists"@,
            CommandKind::Incr => "incr"@,
            CommandKind::Decr => "decr"@,
        }
    }

    /// How many operands the command takes after its name.
    pub fn operand_count(self) -> (n: usize)
        ensures
            n == self.operands(),
    {
        match self {
            CommandKind::Ping => 0,
            CommandKind::Put => 2,
            _ => 1,
        }
    }

    /// The command's name as error messages write it.
    pub fn name(self) -> (s: &'static str)
        ensures
            s@ == self.label(),
    {
        match self {
            CommandKind::Ping => "ping",
            CommandKind::Echo => "echo",
            CommandKind::Get => "get",
            CommandKind::Put => "set",
            CommandKind::Del => "del",
            CommandKind::Exists => "exists",
            CommandKind::Incr => "incr",
            CommandKind::Decr => "decr",
        }
    }
}

/// The command table: the command that an upper-case name stands for.
pub open spec fn command_of(upper: Seq<char>) -> Option<CommandKind> {
    if upper == "PING"@ {
        Some(CommandKind::Ping)
    } else if upper == "ECHO"@ {
        Some(CommandKind::Echo)
    } else if upper == "GET"@ {
        Some(CommandKind::Get)
    } else if upper == "SET"@ {
        Some(CommandKind::Put)
    } else if upper == "DEL"@ {
        Some(CommandKind::Del)
    } else if upper == "EXISTS"@ {
        Some(CommandKind::Exists)
    } else if upper == "INCR"@ {
        Some(CommandKind::Incr)
    } else if upper == "DECR"@ {
        Some(CommandKind::Decr)
    } else {
        None
    }
}

/// The rejection of a request that is no array led by a bulk string.
pub open spec fn invalid_request() -> Failure {
    Failure::Protocol("invalid request"@)
}

/// The rejection of a name that is no command; it carries the name as the
/// client sent it.
pub open spec fn unknown_command(name: Seq<char>) -> Failure {
    Failure::Command("ERR unknown command '"@ + name + "'"@)
}

/// The rejection of a request that carries more or fewer operands than the
/// command `label` takes.
pub open spec fn wrong_count(label: Seq<char>) -> Failure {
    Failure::Command("ERR wrong number of arguments for '"@ + label + "' command"@)
}

/// The rejection of a request whose key is no bulk string.
pub open spec fn invalid_key(label: Seq<char>) -> Failure {
    Failure::Command("ERR invalid key for '"@ + label + "' command"@)
}

/// The operation that a well-formed request for `kind` asks for: the operands
/// are the elements after the first, as they stand.
pub open spec fn operation(kind: CommandKind, items: Seq<Value>) -> Operation {
    match kind {
        CommandKind::Ping => Operation::Ping,
        CommandKind::Echo => Operation::Echo(items[1]),
        CommandKind::Get => Operation::Get(items[1]->BulkString_0),
        CommandKind::Put => Operation::Put(items[1]->BulkString_0, items[2]),
        CommandKind::Del => Operation::Del(items[1]->BulkString_0),
        CommandKind::Exists => Operation::Exists(items[1]->BulkString_0),
        CommandKind::Incr => Operation::Incr(items[1]->BulkString_0),
        CommandKind::Decr => Operation::Decr(items[1]->BulkString_0),
    }
}

/// The command that the elements `items` of a request ask for, `upper` being
/// the request's first element in upper case.
///
/// The first element must be a bulk string. The name must stand in the
/// command table. The request must carry exactly as many operands as the
/// command takes, and the key, where the command takes one, must be a bulk
/// string.
pub open spec fn parse_named(upper: Seq<char>, items: Seq<Value>) -> Result<Operation, Failure> {
    if items.len() == 0 || !(items[0] is BulkString) {
        Err(invalid_request())
    } else {
        match command_of(upper) {
            None => Err(unknown_command(items[0]->BulkString_0)),
            Some(kind) => if items.len() != 1 + kind.operands() {
                Err(wrong_count(kind.label()))
            } else if kind.keyed() && !(items[1] is BulkString) {
                Err(invalid_key(kind.label()))
            } else {
                Ok(operation(kind, items))
            },
        }
    }
}

/// The command that a request asks for. A request is an array led by a bulk
/// string, the command's name, which is matched in upper case.
pub open spec fn parse_request(request: Value) -> Result<Operation, Failure> {
    match request {
        Value::Array(items) => if items.len() > 0 && items[0] is BulkString {
            parse_named(uppercase(items[0]->BulkString_0), items)
        } else {
            Err(invalid_request())
        },
        _ => Err(invalid_request()),
    }
}

/// A request is accepted exactly where it is led by a bulk string, names a
/// command of the table, carries exactly that command's number of operands,
/// and has a bulk string for its key where the command takes one. The
/// command then holds those operands as they stand.
pub proof fn lemma_accepted(upper: Seq<char>, items: Seq<Value>)
    ensures
        parse_named(upper, items) is Ok <==> {
            &&& items.len() > 0
            &&& items[0] is BulkString
            &&& command_of(upper) matches Some(kind)
            &&& items.len() == 1 + kind.operands()
            &&& (kind.keyed() ==> items[1] is BulkString)
        },
        parse_named(upper, items) matches Ok(op) ==> op == operation(
            command_of(upper)->Some_0,
            items,
        ),
{
}

/// A request for a command of the table with an operand too many, or one
/// too few, is rejected with that command's wrong-count error.
pub proof fn lemma_wrong_count(upper: Seq<char>, items: Seq<Value>)
    requires
        items.len() > 0,
        items[0] is BulkString,
        command_of(upper) is Some,
        items.len() != 1 + command_of(upper)->Some_0.operands(),
    ensures
        parse_named(upper, items) == Err::<Operation, Failure>(
            wrong_count(command_of(upper)->Some_0.label()),
        ),
{
}

/// A request whose name is no command of the table is rejected with an
/// error that holds the name as the client sent it.
pub proof fn lemma_unknown(upper: Seq<char>, items: Seq<Value>)
    requires
        items.len() > 0,
        items[0] is BulkString,
        command_of(upper) is None,
    ensures
        parse_named(upper, items) == Err::<Operation, Failure>(
            unknown_command(items[0]->BulkString_0),
        ),
{
}

/// An exec result agrees with the outcome that the rules fix.
pub open spec fn parsed(r: Result<Request, BifrostError>, want: Result<Operation, Failure>) -> bool {
    match want {
        Ok(op) => r matches Ok(c) && c.op() == op,
        Err(f) => r matches Err(e) && e@ == f,
    }
}

/// Looks an upper-case name up in the command table.
pub fn command_named(upper: &str) -> (r: Option<CommandKind>)
    ensures
        r == command_of(upper@),
{
    if same_text(upper, "PING") {
        Some(CommandKind::Ping)
    } else if same_text(upper, "ECHO") {
        Some(CommandKind::Echo)
    } else if same_text(upper, "GET") {
        Some(CommandKind::Get)
    } else if same_text(upper, "SET") {
        Some(CommandKind::Put)
    } else if same_text(upper, "DEL") {
        Some(CommandKind::Del)
    } else if same_text(upper, "EXISTS") {
        Some(CommandKind::Exists)
    } else if same_text(upper, "INCR") {
        Some(CommandKind::Incr)
    } else if same_text(upper, "DECR") {
        Some(CommandKind::Decr)
    } else {
        None
    }
}

/// The error for a name that is no command.
fn unknown_command_error(name: &str) -> (e: BifrostError)
    ensures
        e@ == unknown_command(name@),
{
    BifrostError::CommandError("ERR unknown command '".to_owned().concat(name).concat("'"))
}

/// The error for a request with more or fewer operands than `label` takes.
fn wrong_count_error(label: &str) -> (e: BifrostError)
    ensures
        e@ == wrong_count(label@),
{
    BifrostError::CommandError(
        "ERR wrong number of arguments for '".to_owned().concat(label).concat("' command"),
    )
}

/// The error for a request whose key is no bulk string.
fn invalid_key_error(label: &str) -> (e: BifrostError)
    ensures
        e@ == invalid_key(label@),
{
    BifrostError::CommandError("ERR invalid key for '".to_owned().concat(label).concat("' command"))
}

/// The key of a request, copied out of its second element.
fn take_key(items: &Vec<RespType>) -> (r: Option<String>)
    requires
        items@.len() > 1,
    ensures
        match r {
            Some(s) => values_of(items@)[1] == Value::BulkString(s@),
            None => !(values_of(items@)[1] is BulkString),
        },
{
    match &items[1] {
        RespType::BulkString(key) => Some(key.clone()),
        _ => None,
    }
}

/// Builds the command named `upper`, an upper-case name, from the elements
/// `items` of a request.
///
/// The first element must be a bulk string, else the request is rejected as
/// a protocol error. A name outside the command table is rejected with an
/// error that holds the first element as it came. A request with more or
/// fewer operands than the command takes is rejected with the command's
/// wrong-count error, and a key that is no bulk string with its invalid-key
/// error. Otherwise the command holds copies of the operands.
pub fn parse_named_command(upper: &str, items: &Vec<RespType>) -> (r: Result<
    Request,
    BifrostError,
>)
    ensures
        parsed(r, parse_named(upper@, values_of(items@))),
{
    if items.len() == 0 {
        return Err(BifrostError::ProtocolError("invalid request".to_owned()));
    }
    let name = match &items[0] {
        RespType::BulkString(name) => name,
        _ => {
            return Err(BifrostError::ProtocolError("invalid request".to_owned()));
        },
    };
    let kind = match command_named(upper) {
        Some(kind) => kind,
        None => {
            return Err(unknown_command_error(name.as_str()));
        },
    };
    if items.len() - 1 != kind.operand_count() {
        return Err(wrong_count_error(kind.name()));
    }
    match kind {
        CommandKind::Ping => Ok(Request::Ping(PingCommand)),
        CommandKind::Echo => Ok(Request::Echo(EchoCommand(items[1].clone()))),
        CommandKind::Get => match take_key(items) {
            Some(key) => Ok(Request::Get(GetCommand(key))),
            None => Err(invalid_key_error(kind.name())),
        },
        CommandKind::Put => match take_key(items) {
            Some(key) => Ok(Request::Put(SetCommand { key, value: items[2].clone() })),
            None => Err(invalid_key_error(kind.name())),
        },
        CommandKind::Del => match take_key(items) {
            Some(key) => Ok(Request::Del(DelCommand(key))),
            None => Err(invalid_key_error(kind.name())),
        },
        CommandKind::Exists => match take_key(items) {
            Some(key) => Ok(Request::Exists(ExistsCommand(key))),
            None => Err(invalid_key_error(kind.name())),
        },
        CommandKind::Incr => match take_key(items) {
            Some(key) => Ok(Request::Incr(IncrCommand(key))),
            None => Err(invalid_key_error(kind.name())),
        },
        CommandKind::Decr => match take_key(items) {
            Some(key) => Ok(Request::Decr(DecrCommand(key))),
            None => Err(invalid_key_error(kind.name())),
        },
    }
}

/// Turns a decoded request into a command.
///
/// The request must be an array whose first element is a bulk string: any
/// other value is rejected as a protocol error. The first element, put in
/// upper case, names the command; what follows is as `parse_named_command`
/// states it.
pub fn parse_command(request: RespType) -> (r: Result<Request, BifrostError>)
    ensures
        parsed(r, parse_request(request@)),
{
    match request {
        RespType::Array(array) => {
            proof {
                lemma_array_view(array);
            }
            if array.len() > 0 {
                match &array[0] {
                    RespType::BulkString(command) => {
                        let upper = to_upper(command.as_str());
                        parse_named_command(upper.as_str(), &array)
                    },
                    _ => Err(BifrostError::ProtocolError("invalid request".to_owned())),
                }
            } else {
                Err(BifrostError::ProtocolError("invalid request".to_owned()))
            }
        },
        _ => Err(BifrostError::ProtocolError("invalid request".to_owned())),
    }
}

} // verus!
