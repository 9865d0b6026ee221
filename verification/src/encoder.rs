//! The encoder: from a value to its bytes on the wire.

use vstd::prelude::*;
use vstd::utf8::encode_utf8;
use crate::decimal::{int_text, push_i64, push_len};
use crate::resp::{lemma_array_view, values_of, RespType};
use crate::wire::{
    crlf, encode, encodings, ARRAY, BULK, CR, ERROR, INTEGER, LF, SIMPLE,
};

verus! {

/// Appends `bytes` to `out`.
pub fn push_bytes(out: &mut Vec<u8>, bytes: &[u8])
    ensures
        final(out)@ == old(out)@ + bytes@,
{
    let mut i: usize = 0;
    while i < bytes.len()
        invariant
            i <= bytes@.len(),
            out@ == old(out)@ + bytes@.take(i as int),
        decreases bytes@.len() - i,
    {
        out.push(bytes[i]);
        i += 1;
    }
}

/// Appends a line terminator to `out`.
pub fn push_crlf(out: &mut Vec<u8>)
    ensures
        final(out)@ == old(out)@ + crlf(),
{
    out.push(CR);
    out.push(LF);
}

/// Appends marker, text and terminator: the form of simple strings and errors.
fn push_line(out: &mut Vec<u8>, marker: u8, text: &str)
    ensures
        final(out)@ == old(out)@ + (seq![marker] + encode_utf8(text@) + crlf()),
{
    out.push(marker);
    push_bytes(out, text.as_bytes());
    push_crlf(out);
}

/// Appends the wire form of `value` to `out`.
pub fn write_value(out: &mut Vec<u8>, value: &RespType)
    ensures
        final(out)@ == old(out)@ + encode(value@),
    decreases value,
{
    match value {
        RespType::SimpleString(s) => push_line(out, SIMPLE, s.as_str()),
        RespType::Error(s) => push_line(out, ERROR, s.as_str()),
        RespType::Integer(i) => {
            out.push(INTEGER);
            push_i64(out, *i);
            push_crlf(out);
        },
        RespType::BulkString(s) => {
            let payload = s.as_str().as_bytes();
            out.push(BULK);
            push_len(out, payload.len());
            push_crlf(out);
            push_bytes(out, payload);
            push_crlf(out);
        },
        RespType::Array(items) => {
            out.push(ARRAY);
            push_len(out, items.len());
            push_crlf(out);
            let ghost head = old(out)@ + (seq![ARRAY] + int_text(items@.len() as int) + crlf());
            let ghost parts = encodings(values_of(items@));
            let mut i: usize = 0;
            while i < items.len()
                invariant
                    *value == RespType::Array(*items),
                    i <= items@.len(),
                    parts == encodings(values_of(items@)),
                    out@ == head + parts.take(i as int).flatten(),
                decreases items@.len() - i,
            {
                proof {
                    assert(value->Array_0 == *items);
                }
                write_value(out, &items[i]);
                proof {
                    let done = parts.take(i as int);
                    assert(parts.take(i + 1) =~= done.push(encode(items@[i as int]@)));
                    done.lemma_flatten_push(encode(items@[i as int]@));
                }
                i += 1;
            }
            proof {
                assert(parts.take(i as int) =~= parts);
                lemma_array_view(*items);
            }
        },
        RespType::Null => {
            out.push(BULK);
            push_i64(out, -1);
            push_crlf(out);
        },
    }
}

/// The wire form of `value`.
pub fn encode_value(value: &RespType) -> (out: Vec<u8>)
    ensures
        out@ == encode(value@),
{
    let mut out: Vec<u8> = Vec::new();
    write_value(&mut out, value);
    out
}

} // verus!
