//! The wire format: what a value looks like as bytes, and what a buffer of
//! bytes decodes to.

use vstd::prelude::*;
use vstd::utf8::{decode_utf8, encode_utf8, valid_utf8};
use crate::decimal::{int_text, parse_i64};
use crate::resp::{Fault, Value};

verus! {

pub const CR: u8 = 13;

pub const LF: u8 = 10;

/// `+`, the marker of a simple string.
pub const SIMPLE: u8 = 43;

/// `-`, the marker of an error.
pub const ERROR: u8 = 45;

/// `:`, the marker of an integer.
pub const INTEGER: u8 = 58;

/// `$`, the marker of a bulk string.
pub const BULK: u8 = 36;

/// `*`, the marker of an array.
pub const ARRAY: u8 = 42;

/// How many arrays may stand inside one another in a decoded value.
pub const MAX_DEPTH: usize = 64;

pub open spec fn crlf() -> Seq<u8> {
    seq![CR, LF]
}

/// A line terminator starts at `p`.
pub open spec fn crlf_at(buf: Seq<u8>, p: int) -> bool {
    0 <= p && p + 1 < buf.len() && buf[p] == CR && buf[p + 1] == LF
}

/// No line terminator anywhere in `s`.
pub open spec fn no_crlf(s: Seq<u8>) -> bool {
    forall|p: int| !crlf_at(s, p)
}

/// `p` is where the first line terminator at or after `start` begins.
pub open spec fn is_line_end(buf: Seq<u8>, start: int, p: int) -> bool {
    &&& start <= p
    &&& crlf_at(buf, p)
    &&& forall|q: int| start <= q < p ==> !crlf_at(buf, q)
}

/// Where the line that starts at `start` ends, if its terminator is there.
pub open spec fn line_end(buf: Seq<u8>, start: int) -> Option<int> {
    if exists|p: int| is_line_end(buf, start, p) {
        Some(choose|p: int| is_line_end(buf, start, p))
    } else {
        None
    }
}

pub open spec fn bad_line_text() -> Fault {
    Fault::InvalidSimpleString("Invalid UTF-8"@)
}

pub open spec fn bad_integer() -> Fault {
    Fault::InvalidInteger("Invalid integer format"@)
}

pub open spec fn bad_bulk_text() -> Fault {
    Fault::InvalidBulkString("Invalid UTF-8"@)
}

pub open spec fn bad_bulk_length() -> Fault {
    Fault::InvalidBulkString("Invalid length"@)
}

pub open spec fn bad_bulk_end() -> Fault {
    Fault::InvalidBulkString("Missing terminator"@)
}

pub open spec fn bad_marker() -> Fault {
    Fault::Other("Invalid RESP data type!"@)
}

pub open spec fn bad_array_length() -> Fault {
    Fault::Other("Invalid array length"@)
}

pub open spec fn too_deep() -> Fault {
    Fault::Other("Nesting too deep"@)
}

/// The line that starts at `start`, as text, and the position after its
/// terminator.
pub open spec fn read_line(buf: Seq<u8>, start: int) -> Result<(Seq<char>, int), Fault> {
    match line_end(buf, start) {
        None => Err(Fault::Incomplete),
        Some(p) => {
            let line = buf.subrange(start, p);
            if valid_utf8(line) {
                Ok((decode_utf8(line), p + 2))
            } else {
                Err(bad_line_text())
            }
        },
    }
}

/// The line that starts at `start`, read as a signed 64-bit integer.
pub open spec fn read_integer(buf: Seq<u8>, start: int) -> Result<(i64, int), Fault> {
    match read_line(buf, start) {
        Err(f) => Err(f),
        Ok((line, next)) => match parse_i64(encode_utf8(line)) {
            Some(n) => Ok((n, next)),
            None => Err(bad_integer()),
        },
    }
}

/// A bulk string whose marker stands at `pos`.
pub open spec fn decode_bulk(buf: Seq<u8>, pos: int) -> Result<(Value, int), Fault> {
    match read_integer(buf, pos + 1) {
        Err(f) => Err(f),
        Ok((n, body)) => {
            if n == -1 {
                Ok((Value::Null, body))
            } else if n < -1 {
                Err(bad_bulk_length())
            } else if buf.len() < body + n + 2 {
                Err(Fault::Incomplete)
            } else if !crlf_at(buf, body + n) {
                Err(bad_bulk_end())
            } else if !valid_utf8(buf.subrange(body, body + n)) {
                Err(bad_bulk_text())
            } else {
                Ok((Value::BulkString(decode_utf8(buf.subrange(body, body + n))), body + n + 2))
            }
        },
    }
}

/// The value that starts at `pos`, and the position after it. `depth` is how
/// many arrays may still open.
pub open spec fn decode_at(buf: Seq<u8>, pos: int, depth: nat) -> Result<(Value, int), Fault>
    decreases depth, 0nat,
{
    if pos < 0 || pos >= buf.len() {
        Err(Fault::Incomplete)
    } else if buf[pos] == SIMPLE {
        match read_line(buf, pos + 1) {
            Ok((line, next)) => Ok((Value::SimpleString(line), next)),
            Err(f) => Err(f),
        }
    } else if buf[pos] == ERROR {
        match read_line(buf, pos + 1) {
            Ok((line, next)) => Ok((Value::Error(line), next)),
            Err(f) => Err(f),
        }
    } else if buf[pos] == INTEGER {
        match read_integer(buf, pos + 1) {
            Ok((n, next)) => Ok((Value::Integer(n), next)),
            Err(f) => Err(f),
        }
    } else if buf[pos] == BULK {
        decode_bulk(buf, pos)
    } else if buf[pos] == ARRAY {
        match read_integer(buf, pos + 1) {
            Err(f) => Err(f),
            Ok((n, body)) => {
                if n == -1 {
                    Ok((Value::Null, body))
                } else if n < -1 {
                    Err(bad_array_length())
                } else if depth == 0 {
                    Err(too_deep())
                } else {
                    match decode_items(buf, body, n as nat, (depth - 1) as nat) {
                        Ok((items, next)) => Ok((Value::Array(items), next)),
                        Err(f) => Err(f),
                    }
                }
            },
        }
    } else {
        Err(bad_marker())
    }
}

/// `count` values one after another, the first at `pos`.
pub open spec fn decode_items(buf: Seq<u8>, pos: int, count: nat, depth: nat) -> Result<
    (Seq<Value>, int),
    Fault,
>
    decreases depth, count + 1,
{
    if count == 0 {
        Ok((Seq::empty(), pos))
    } else {
        match decode_at(buf, pos, depth) {
            Err(f) => Err(f),
            Ok((first, next)) => match decode_items(buf, next, (count - 1) as nat, depth) {
                Err(f) => Err(f),
                Ok((rest, end)) => Ok((seq![first] + rest, end)),
            },
        }
    }
}

/// What the buffer decodes to: one value and the number of bytes it takes,
/// `Incomplete` while the value is not all there, another fault when what is
/// there cannot begin a value.
pub open spec fn decode(buf: Seq<u8>) -> Result<(Value, int), Fault> {
    decode_at(buf, 0, MAX_DEPTH as nat)
}

/// The bytes of a value.
pub open spec fn encode(v: Value) -> Seq<u8>
    decreases v, 0nat,
{
    match v {
        Value::SimpleString(s) => seq![SIMPLE] + encode_utf8(s) + crlf(),
        Value::Error(s) => seq![ERROR] + encode_utf8(s) + crlf(),
        Value::Integer(i) => seq![INTEGER] + int_text(i as int) + crlf(),
        Value::BulkString(s) => seq![BULK] + int_text(encode_utf8(s).len() as int) + crlf()
            + encode_utf8(s) + crlf(),
        Value::Array(items) => seq![ARRAY] + int_text(items.len() as int) + crlf() + encodings(
            items,
        ).flatten(),
        Value::Null => seq![BULK] + int_text(-1) + crlf(),
    }
}

/// The bytes of each of `items`, in order.
pub open spec fn encodings(items: Seq<Value>) -> Seq<Seq<u8>>
    decreases items, 1nat,
{
    Seq::new(
        items.len(),
        |i: int|
            if 0 <= i < items.len() {
                encode(items[i])
            } else {
                Seq::empty()
            },
    )
}

/// `v` holds at most `depth` arrays inside one another.
pub open spec fn nests_within(v: Value, depth: nat) -> bool
    decreases v,
{
    match v {
        Value::Array(items) => depth > 0 && forall|i: int|
            0 <= i < items.len() ==> nests_within(#[trigger] items[i], (depth - 1) as nat),
        _ => true,
    }
}

/// `v` can stand on the wire and be read back: no line terminator inside a
/// simple string or an error, and every length fits a signed 64-bit integer.
pub open spec fn writable(v: Value) -> bool
    decreases v,
{
    match v {
        Value::SimpleString(s) => no_crlf(encode_utf8(s)),
        Value::Error(s) => no_crlf(encode_utf8(s)),
        Value::Integer(_) => true,
        Value::BulkString(s) => encode_utf8(s).len() <= i64::MAX,
        Value::Array(items) => items.len() <= i64::MAX && forall|i: int|
            0 <= i < items.len() ==> writable(#[trigger] items[i]),
        Value::Null => true,
    }
}

} // verus!
