//! A small RESP key-value server core: the wire codec, the command parser,
//! the store and the dispatch of commands against it.

pub mod buffer;
pub mod commands;
pub mod decimal;
pub mod decoder;
pub mod encoder;
pub mod error;
pub mod frame;
pub mod parser;
pub mod resp;
pub mod roundtrip;
pub mod server;
pub mod storage;
pub mod text;
pub mod wire;
