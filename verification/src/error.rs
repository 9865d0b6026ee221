//! The errors of command handling.

use vstd::prelude::*;
use vstd::std_specs::convert::FromSpecImpl;
use vstd::string::StringExecFns;
use crate::resp::{RespType, Value};

verus! {

/// `std::io::Error`, carried through as it came.
#[verifier::external_type_specification]
#[verifier::external_body]
pub struct ExIoError(std::io::Error);

/// The model of an error of command handling: its kind and, but for a
/// transport error, its message.
pub enum Failure {
    Command(Seq<char>),
    Storage(Seq<char>),
    Protocol(Seq<char>),
    Io,
}

/// Why a request got no regular reply.
#[derive(Debug)]
pub enum BifrostError {
    CommandError(String),
    StorageError(String),
    ProtocolError(String),
    IoError(std::io::Error),
}

impl View for BifrostError {
    type V = Failure;

    open spec fn view(&self) -> Failure {
        match self {
            BifrostError::CommandError(m) => Failure::Command(m@),
            BifrostError::StorageError(m) => Failure::Storage(m@),
            BifrostError::ProtocolError(m) => Failure::Protocol(m@),
            BifrostError::IoError(_) => Failure::Io,
        }
    }
}

/// The `to_string` of `std::io::Error`. Nothing is stated of the text.
#[verifier::external_body]
fn io_error_text(e: &std::io::Error) -> String {
    e.to_string()
}

/// The text that describes an error of command handling; `io` is what a
/// transport error says of itself.
pub open spec fn failure_text(f: Failure, io: Seq<char>) -> Seq<char> {
    match f {
        Failure::Command(m) => "Command error: "@ + m,
        Failure::Storage(m) => "Storage error: "@ + m,
        Failure::Protocol(m) => "Protocol error: "@ + m,
        Failure::Io => "IO error: "@ + io,
    }
}

/// The message of the error reply that goes back to the client: the
/// message of the error as it stands, and one fixed text for every transport
/// error, so that nothing of the server's inside is told.
pub open spec fn reply_text(f: Failure) -> Seq<char> {
    match f {
        Failure::Command(m) => m,
        Failure::Storage(m) => m,
        Failure::Protocol(m) => m,
        Failure::Io => "ERR internal error"@,
    }
}

impl BifrostError {
    /// The text that describes this error: its kind, then its message.
    pub fn message(&self) -> (r: String)
        ensures
            exists|io: Seq<char>| r@ == #[trigger] failure_text(self@, io),
    {
        match self {
            BifrostError::CommandError(m) => {
                let r = "Command error: ".to_owned().concat(m.as_str());
                assert(r@ == failure_text(self@, Seq::<char>::empty()));
                r
            },
            BifrostError::StorageError(m) => {
                let r = "Storage error: ".to_owned().concat(m.as_str());
                assert(r@ == failure_text(self@, Seq::<char>::empty()));
                r
            },
            BifrostError::ProtocolError(m) => {
                let r = "Protocol error: ".to_owned().concat(m.as_str());
                assert(r@ == failure_text(self@, Seq::<char>::empty()));
                r
            },
            BifrostError::IoError(e) => {
                let text = io_error_text(e);
                let r = "IO error: ".to_owned().concat(text.as_str());
                assert(r@ == failure_text(self@, text@));
                r
            },
        }
    }

    /// The error reply that tells the client of this error.
    pub fn into_reply(self) -> (r: RespType)
        ensures
            r@ == Value::Error(reply_text(self@)),
    {
        match self {
            BifrostError::CommandError(m) => RespType::Error(m),
            BifrostError::StorageError(m) => RespType::Error(m),
            BifrostError::ProtocolError(m) => RespType::Error(m),
            BifrostError::IoError(_) => RespType::Error("ERR internal error".to_owned()),
        }
    }
}

impl From<std::io::Error> for BifrostError {
    fn from(err: std::io::Error) -> (e: BifrostError) {
        BifrostError::IoError(err)
    }
}

impl FromSpecImpl<std::io::Error> for BifrostError {
    open spec fn obeys_from_spec() -> bool {
        true
    }

    open spec fn from_spec(err: std::io::Error) -> BifrostError {
        BifrostError::IoError(err)
    }
}

} // verus!
