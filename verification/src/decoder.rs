//! The incremental decoder: from the bytes received so far to one value, or
//! to the news that more bytes are needed, or that none will help.

use vstd::prelude::*;
use vstd::slice::{slice_subrange, slice_to_vec};
use crate::decimal::read_i64;
use crate::resp::{lemma_array_view, values_of, Fault, RespError, RespType, Value};
use crate::text::text_from_utf8;
use crate::wire::{
    crlf_at, decode, decode_at, decode_bulk, decode_items, is_line_end, line_end, read_integer,
    read_line, ARRAY, BULK, CR, ERROR, INTEGER, LF, MAX_DEPTH, SIMPLE,
};

verus! {

/// The first line terminator at or after `start` is the line's end.
pub proof fn lemma_line_end_is(buf: Seq<u8>, start: int, p: int)
    requires
        is_line_end(buf, start, p),
    ensures
        line_end(buf, start) == Some(p),
{
    let q = choose|q: int| is_line_end(buf, start, q);
    assert(q == p);
}

/// Without a line terminator at or after `start`, the line has no end yet.
pub proof fn lemma_no_line_end(buf: Seq<u8>, start: int)
    requires
        forall|q: int| start <= q ==> !crlf_at(buf, q),
    ensures
        line_end(buf, start) is None,
{
}

/// An exec result agrees with the outcome that the wire format fixes.
pub open spec fn agrees(
    r: Result<(RespType, usize), RespError>,
    want: Result<(Value, int), Fault>,
) -> bool {
    match want {
        Ok((v, n)) => r matches Ok((rv, rn)) && rv@ == v && rn == n,
        Err(f) => r matches Err(e) && e@ == f,
    }
}

/// Adds `prefix` in front of the values of a successful outcome.
pub open spec fn after(prefix: Seq<Value>, rest: Result<(Seq<Value>, int), Fault>) -> Result<
    (Seq<Value>, int),
    Fault,
> {
    match rest {
        Ok((more, end)) => Ok((prefix + more, end)),
        Err(f) => Err(f),
    }
}

/// Where the line that starts at `start` ends.
fn find_line_end(buf: &[u8], start: usize) -> (r: Option<usize>)
    ensures
        match r {
            Some(p) => line_end(buf@, start as int) == Some(p as int) && start <= p && p + 2
                <= buf@.len() <= usize::MAX,
            None => line_end(buf@, start as int) is None,
        },
{
    let len = buf.len();
    if len < 2 {
        proof {
            lemma_no_line_end(buf@, start as int);
        }
        return None;
    }
    let last = len - 1;
    let mut i = start;
    while i < last
        invariant
            start <= i,
            last + 1 == buf@.len(),
            forall|q: int| start <= q < i ==> !crlf_at(buf@, q),
        decreases last - i,
    {
        if buf[i] == CR && buf[i + 1] == LF {
            proof {
                lemma_line_end_is(buf@, start as int, i as int);
            }
            return Some(i);
        }
        i += 1;
    }
    proof {
        lemma_no_line_end(buf@, start as int);
    }
    None
}

/// Reads the line that starts at `start`: its text and the position after
/// its terminator.
pub fn read_line_at(buf: &[u8], start: usize) -> (r: Result<(String, usize), RespError>)
    ensures
        match read_line(buf@, start as int) {
            Ok((t, n)) => r matches Ok((s, m)) && s@ == t && m == n && start + 2 <= m
                <= buf@.len(),
            Err(f) => r matches Err(e) && e@ == f,
        },
{
    match find_line_end(buf, start) {
        None => Err(RespError::Incomplete),
        Some(p) => {
            let bytes = slice_to_vec(slice_subrange(buf, start, p));
            match text_from_utf8(bytes) {
                Some(s) => Ok((s, p + 2)),
                None => Err(RespError::InvalidSimpleString("Invalid UTF-8".to_owned())),
            }
        },
    }
}

/// Reads the line that starts at `start` as a signed 64-bit integer.
pub fn parse_integer_value(buf: &[u8], start: usize) -> (r: Result<(i64, usize), RespError>)
    ensures
        match read_integer(buf@, start as int) {
            Ok((v, n)) => r matches Ok((rv, m)) && rv == v && m == n && start + 2 <= m
                <= buf@.len(),
            Err(f) => r matches Err(e) && e@ == f,
        },
{
    match read_line_at(buf, start) {
        Err(e) => Err(e),
        Ok((line, next)) => match read_i64(line.as_str().as_bytes()) {
            Some(v) => Ok((v, next)),
            None => Err(RespError::InvalidInteger("Invalid integer format".to_owned())),
        },
    }
}

/// Decodes the simple string whose marker stands at `pos`.
fn parse_simple_string(buf: &[u8], pos: usize) -> (r: Result<(RespType, usize), RespError>)
    requires
        pos < buf@.len() <= usize::MAX,
        buf@[pos as int] == SIMPLE,
    ensures
        agrees(r, decode_at(buf@, pos as int, 0)),
        r matches Ok((_, n)) ==> pos < n <= buf@.len(),
{
    match read_line_at(buf, pos + 1) {
        Ok((line, next)) => Ok((RespType::SimpleString(line), next)),
        Err(e) => Err(e),
    }
}

/// Decodes the error whose marker stands at `pos`.
fn parse_error(buf: &[u8], pos: usize) -> (r: Result<(RespType, usize), RespError>)
    requires
        pos < buf@.len() <= usize::MAX,
        buf@[pos as int] == ERROR,
    ensures
        agrees(r, decode_at(buf@, pos as int, 0)),
        r matches Ok((_, n)) ==> pos < n <= buf@.len(),
{
    match read_line_at(buf, pos + 1) {
        Ok((line, next)) => Ok((RespType::Error(line), next)),
        Err(e) => Err(e),
    }
}

/// Decodes the integer whose marker stands at `pos`.
fn parse_integer(buf: &[u8], pos: usize) -> (r: Result<(RespType, usize), RespError>)
    requires
        pos < buf@.len() <= usize::MAX,
        buf@[pos as int] == INTEGER,
    ensures
        agrees(r, decode_at(buf@, pos as int, 0)),
        r matches Ok((_, n)) ==> pos < n <= buf@.len(),
{
    match parse_integer_value(buf, pos + 1) {
        Ok((value, next)) => Ok((RespType::Integer(value), next)),
        Err(e) => Err(e),
    }
}

/// Decodes the bulk string whose marker stands at `pos`.
fn parse_bulk_string(buf: &[u8], pos: usize) -> (r: Result<(RespType, usize), RespError>)
    requires
        pos < buf@.len() <= usize::MAX,
        buf@[pos as int] == BULK,
    ensures
        agrees(r, decode_bulk(buf@, pos as int)),
        r matches Ok((_, n)) ==> pos < n <= buf@.len(),
{
    let (length, body) = match parse_integer_value(buf, pos + 1) {
        Ok(header) => header,
        Err(e) => {
            return Err(e);
        },
    };
    if length == -1 {
        return Ok((RespType::Null, body));
    }
    if length < -1 {
        return Err(RespError::InvalidBulkString("Invalid length".to_owned()));
    }
    let available = buf.len() - body;
    if length as u128 + 2 > available as u128 {
        return Err(RespError::Incomplete);
    }
    let end = body + length as usize;
    if buf[end] != CR || buf[end + 1] != LF {
        return Err(RespError::InvalidBulkString("Missing terminator".to_owned()));
    }
    let bytes = slice_to_vec(slice_subrange(buf, body, end));
    match text_from_utf8(bytes) {
        Some(s) => Ok((RespType::BulkString(s), end + 2)),
        None => Err(RespError::InvalidBulkString("Invalid UTF-8".to_owned())),
    }
}

/// Decodes the array whose marker stands at `pos`; `depth` is how many arrays
/// may still open.
fn parse_array(buf: &[u8], pos: usize, depth: usize) -> (r: Result<(RespType, usize), RespError>)
    requires
        pos < buf@.len() <= usize::MAX,
        buf@[pos as int] == ARRAY,
    ensures
        agrees(r, decode_at(buf@, pos as int, depth as nat)),
        r matches Ok((_, n)) ==> pos < n <= buf@.len(),
    decreases depth, 0nat,
{
    let (count, body) = match parse_integer_value(buf, pos + 1) {
        Ok(header) => header,
        Err(e) => {
            return Err(e);
        },
    };
    if count == -1 {
        return Ok((RespType::Null, body));
    }
    if count < -1 {
        return Err(RespError::Other("Invalid array length".to_owned()));
    }
    if depth == 0 {
        return Err(RespError::Other("Nesting too deep".to_owned()));
    }
    let ghost whole = decode_items(buf@, body as int, count as nat, (depth - 1) as nat);
    let mut items: Vec<RespType> = Vec::new();
    let mut at = body;
    let mut done: i64 = 0;
    while done < count
        invariant
            0 <= done <= count,
            depth > 0,
            pos < body <= at <= buf@.len(),
            items@.len() == done,
            whole == decode_items(buf@, body as int, count as nat, (depth - 1) as nat),
            decode_at(buf@, pos as int, depth as nat) == match whole {
                Ok((values, next)) => Ok((Value::Array(values), next)),
                Err(f) => Err(f),
            },
            whole == after(
                values_of(items@),
                decode_items(buf@, at as int, (count - done) as nat, (depth - 1) as nat),
            ),
        decreases count - done,
    {
        let ghost before = values_of(items@);
        match parse(buf, at, depth - 1) {
            Err(e) => {
                assert(decode_items(
                    buf@,
                    at as int,
                    (count - done) as nat,
                    (depth - 1) as nat,
                ) == Err::<(Seq<Value>, int), Fault>(e@));
                return Err(e);
            },
            Ok((item, next)) => {
                items.push(item);
                proof {
                    let rest = decode_items(
                        buf@,
                        next as int,
                        (count - done - 1) as nat,
                        (depth - 1) as nat,
                    );
                    match rest {
                        Ok((more, end)) => {
                            assert(before + (seq![item@] + more) =~= values_of(items@) + more);
                        },
                        Err(_) => {},
                    }
                }
                at = next;
                done += 1;
            },
        }
    }
    proof {
        lemma_array_view(items);
    }
    Ok((RespType::Array(items), at))
}

/// Decodes the value that starts at `pos`; `depth` is how many arrays may
/// still open.
pub fn parse(buf: &[u8], pos: usize, depth: usize) -> (r: Result<(RespType, usize), RespError>)
    ensures
        agrees(r, decode_at(buf@, pos as int, depth as nat)),
        r matches Ok((_, n)) ==> pos < n <= buf@.len(),
    decreases depth, 1nat,
{
    if pos >= buf.len() {
        return Err(RespError::Incomplete);
    }
    let marker = buf[pos];
    if marker == SIMPLE {
        parse_simple_string(buf, pos)
    } else if marker == ERROR {
        parse_error(buf, pos)
    } else if marker == INTEGER {
        parse_integer(buf, pos)
    } else if marker == BULK {
        parse_bulk_string(buf, pos)
    } else if marker == ARRAY {
        parse_array(buf, pos, depth)
    } else {
        Err(RespError::Other("Invalid RESP data type!".to_owned()))
    }
}

/// Decodes one value from the start of `buf`.
///
/// `Ok` carries the value and the number of bytes it took. The error is
/// `Incomplete` while the bytes so far can still grow into a value, and names
/// what is wrong otherwise. The buffer is only read.
pub fn decode_value(buf: &[u8]) -> (r: Result<(RespType, usize), RespError>)
    ensures
        agrees(r, decode(buf@)),
        r matches Ok((_, n)) ==> 0 < n <= buf@.len(),
{
    parse(buf, 0, MAX_DEPTH)
}

} // verus!
