//! Decoding undoes encoding, and a value that has not arrived in full is
//! reported as incomplete.

use vstd::prelude::*;
use vstd::utf8::{
    decode_utf8, decode_utf8_encode_utf8, encode_utf8, encode_utf8_decode_utf8,
    encode_utf8_valid_utf8, is_ascii_chars_encode_utf8, valid_utf8,
};
use crate::decimal::{int_text, is_digit, lemma_digits_of, lemma_parse_int_text, MINUS};
use crate::decoder::{lemma_line_end_is, lemma_no_line_end};
use crate::resp::{Fault, Value};
use crate::wire::{
    bad_marker, crlf, crlf_at, decode, decode_at, decode_items, encode, encodings, line_end, nests_within,
    no_crlf, read_integer, read_line, writable, ARRAY, BULK, ERROR, INTEGER, MAX_DEPTH, SIMPLE,
};

verus! {

/// The bytes `e` stand in `buf` from `pos` on, all of them.
pub open spec fn holds(buf: Seq<u8>, pos: int, e: Seq<u8>) -> bool {
    0 <= pos && pos + e.len() <= buf.len() && buf.subrange(pos, pos + e.len()) == e
}

/// `buf` ends inside `e`: from `pos` to its end it holds a beginning of `e`,
/// and not all of it.
pub open spec fn cut(buf: Seq<u8>, pos: int, e: Seq<u8>) -> bool {
    0 <= pos <= buf.len() && buf.len() - pos < e.len() && buf.subrange(pos, buf.len() as int)
        == e.take(buf.len() - pos)
}

/// Where `e` stands, each of its bytes is the buffer's byte at that place.
pub proof fn lemma_holds_index(buf: Seq<u8>, pos: int, e: Seq<u8>, j: int)
    requires
        holds(buf, pos, e),
        0 <= j < e.len(),
    ensures
        buf[pos + j] == e[j],
{
}

/// Where the buffer ends inside `e`, each byte that it has from `pos` on is
/// the byte of `e` at that place.
pub proof fn lemma_cut_index(buf: Seq<u8>, pos: int, e: Seq<u8>, j: int)
    requires
        cut(buf, pos, e),
        0 <= j < buf.len() - pos,
    ensures
        buf[pos + j] == e[j],
{
    assert(buf.subrange(pos, buf.len() as int)[j] == buf[pos + j]);
}

/// Where `a + b` stands, `a` stands, and `b` right after it.
pub proof fn lemma_holds_split(buf: Seq<u8>, pos: int, a: Seq<u8>, b: Seq<u8>)
    requires
        holds(buf, pos, a + b),
    ensures
        holds(buf, pos, a),
        holds(buf, pos + a.len(), b),
{
    let first = buf.subrange(pos, pos + a.len());
    assert forall|j: int| 0 <= j < a.len() implies #[trigger] first[j] == a[j] by {
        lemma_holds_index(buf, pos, a + b, j);
    }
    assert(first =~= a);
    let second = buf.subrange(pos + a.len(), pos + a.len() + b.len());
    assert forall|j: int| 0 <= j < b.len() implies #[trigger] second[j] == b[j] by {
        lemma_holds_index(buf, pos, a + b, a.len() + j);
    }
    assert(second =~= b);
}

/// Where `a` stands and `b` right after it, `a + b` stands.
pub proof fn lemma_holds_join(buf: Seq<u8>, pos: int, a: Seq<u8>, b: Seq<u8>)
    requires
        holds(buf, pos, a),
        holds(buf, pos + a.len(), b),
    ensures
        holds(buf, pos, a + b),
{
    let both = buf.subrange(pos, pos + a.len() + b.len());
    assert forall|j: int| 0 <= j < a.len() + b.len() implies #[trigger] both[j] == (a + b)[j] by {
        if j < a.len() {
            lemma_holds_index(buf, pos, a, j);
        } else {
            lemma_holds_index(buf, pos + a.len(), b, j - a.len());
        }
    }
    assert(both =~= a + b);
}

/// Where `buf` ends inside `a + b`, it ends inside `a`, or holds `a` and ends
/// inside `b`.
pub proof fn lemma_cut_split(buf: Seq<u8>, pos: int, a: Seq<u8>, b: Seq<u8>)
    requires
        cut(buf, pos, a + b),
    ensures
        cut(buf, pos, a) || (holds(buf, pos, a) && cut(buf, pos + a.len(), b)),
{
    let have = buf.len() - pos;
    if have < a.len() {
        let got = buf.subrange(pos, buf.len() as int);
        assert forall|j: int| 0 <= j < have implies #[trigger] got[j] == a.take(have)[j] by {
            lemma_cut_index(buf, pos, a + b, j);
        }
        assert(got =~= a.take(have));
    } else {
        let first = buf.subrange(pos, pos + a.len());
        assert forall|j: int| 0 <= j < a.len() implies #[trigger] first[j] == a[j] by {
            lemma_cut_index(buf, pos, a + b, j);
        }
        assert(first =~= a);
        let second = buf.subrange(pos + a.len(), buf.len() as int);
        assert forall|j: int| 0 <= j < have - a.len() implies #[trigger] second[j] == b.take(
            have - a.len(),
        )[j] by {
            lemma_cut_index(buf, pos, a + b, a.len() + j);
        }
        assert(second =~= b.take(have - a.len()));
    }
}

/// A line that stands in full is found, with its text.
pub proof fn lemma_line_holds(buf: Seq<u8>, start: int, text: Seq<u8>)
    requires
        holds(buf, start, text + crlf()),
        no_crlf(text),
    ensures
        line_end(buf, start) == Some(start + text.len()),
        buf.subrange(start, start + text.len()) == text,
        start + text.len() + 2 <= buf.len(),
{
    let p = start + text.len();
    lemma_holds_split(buf, start, text, crlf());
    lemma_holds_index(buf, p, crlf(), 0);
    lemma_holds_index(buf, p, crlf(), 1);
    assert forall|q: int| start <= q < p implies !crlf_at(buf, q) by {
        lemma_holds_index(buf, start, text, q - start);
        if q + 1 < p {
            lemma_holds_index(buf, start, text, q + 1 - start);
            assert(!crlf_at(text, q - start));
        }
    }
    lemma_line_end_is(buf, start, p);
}

/// A line whose end has not arrived is not found.
pub proof fn lemma_line_cut(buf: Seq<u8>, start: int, text: Seq<u8>)
    requires
        cut(buf, start, text + crlf()),
        no_crlf(text),
    ensures
        line_end(buf, start) is None,
{
    let whole = text + crlf();
    assert forall|q: int| start <= q implies !crlf_at(buf, q) by {
        if q + 1 < buf.len() {
            lemma_cut_index(buf, start, whole, q - start);
            lemma_cut_index(buf, start, whole, q + 1 - start);
            if q + 1 - start < text.len() {
                assert(!crlf_at(text, q - start));
            }
        }
    }
    lemma_no_line_end(buf, start);
}

/// Bytes below 128 are well-formed UTF-8, one character each.
pub proof fn lemma_ascii_text(bytes: Seq<u8>)
    requires
        forall|i: int| 0 <= i < bytes.len() ==> bytes[i] < 128,
    ensures
        valid_utf8(bytes),
        encode_utf8(decode_utf8(bytes)) == bytes,
{
    let chars = Seq::new(bytes.len(), |i: int| bytes[i] as char);
    is_ascii_chars_encode_utf8(chars);
    assert(encode_utf8(chars) =~= bytes);
    encode_utf8_valid_utf8(chars);
    decode_utf8_encode_utf8(bytes);
}

/// The decimal text of an integer is plain: digits after an optional minus
/// sign, no line terminator.
pub proof fn lemma_int_text_plain(i: int)
    ensures
        no_crlf(int_text(i)),
        forall|k: int| 0 <= k < int_text(i).len() ==> #[trigger] int_text(i)[k] < 128,
{
    let n = if i < 0 {
        (-i) as nat
    } else {
        i as nat
    };
    lemma_digits_of(n);
    let t = int_text(i);
    assert forall|k: int| 0 <= k < t.len() implies (is_digit(#[trigger] t[k]) || t[k] == MINUS) by {}
}

/// A count or integer line that stands in full reads as the integer.
pub proof fn lemma_integer_holds(buf: Seq<u8>, start: int, i: i64)
    requires
        holds(buf, start, int_text(i as int) + crlf()),
    ensures
        read_integer(buf, start) == Ok::<(i64, int), Fault>(
            (i, start + int_text(i as int).len() + 2),
        ),
        start + int_text(i as int).len() + 2 <= buf.len(),
{
    let t = int_text(i as int);
    lemma_int_text_plain(i as int);
    lemma_line_holds(buf, start, t);
    lemma_ascii_text(t);
    lemma_parse_int_text(i as int);
}

/// A count or integer line whose end has not arrived is incomplete.
pub proof fn lemma_integer_cut(buf: Seq<u8>, start: int, i: i64)
    requires
        cut(buf, start, int_text(i as int) + crlf()),
    ensures
        read_integer(buf, start) == Err::<(i64, int), Fault>(Fault::Incomplete),
{
    lemma_int_text_plain(i as int);
    lemma_line_cut(buf, start, int_text(i as int));
}

/// A text line that stands in full reads as the text.
pub proof fn lemma_text_holds(buf: Seq<u8>, start: int, s: Seq<char>)
    requires
        holds(buf, start, encode_utf8(s) + crlf()),
        no_crlf(encode_utf8(s)),
    ensures
        read_line(buf, start) == Ok::<(Seq<char>, int), Fault>(
            (s, start + encode_utf8(s).len() + 2),
        ),
{
    lemma_line_holds(buf, start, encode_utf8(s));
    encode_utf8_valid_utf8(s);
    encode_utf8_decode_utf8(s);
}

/// The values of `items` are writable and nest within `depth`.
pub open spec fn all_fit(items: Seq<Value>, depth: nat) -> bool {
    forall|i: int|
        0 <= i < items.len() ==> writable(#[trigger] items[i]) && nests_within(items[i], depth)
}

/// Where the bytes of a writable value stand in a buffer, the value is
/// decoded from there, and the position after it is where its bytes end.
pub proof fn lemma_decode_encoded(buf: Seq<u8>, pos: int, v: Value, depth: nat)
    requires
        holds(buf, pos, encode(v)),
        writable(v),
        nests_within(v, depth),
    ensures
        decode_at(buf, pos, depth) == Ok::<(Value, int), Fault>((v, pos + encode(v).len())),
    decreases v, 0nat,
{
    match v {
        Value::SimpleString(s) => {
            let t = encode_utf8(s);
            assert(encode(v) =~= seq![SIMPLE] + (t + crlf()));
            lemma_holds_split(buf, pos, seq![SIMPLE], t + crlf());
            lemma_holds_index(buf, pos, seq![SIMPLE], 0);
            lemma_text_holds(buf, pos + 1, s);
        },
        Value::Error(s) => {
            let t = encode_utf8(s);
            assert(encode(v) =~= seq![ERROR] + (t + crlf()));
            lemma_holds_split(buf, pos, seq![ERROR], t + crlf());
            lemma_holds_index(buf, pos, seq![ERROR], 0);
            lemma_text_holds(buf, pos + 1, s);
        },
        Value::Integer(i) => {
            let t = int_text(i as int);
            assert(encode(v) =~= seq![INTEGER] + (t + crlf()));
            lemma_holds_split(buf, pos, seq![INTEGER], t + crlf());
            lemma_holds_index(buf, pos, seq![INTEGER], 0);
            lemma_integer_holds(buf, pos + 1, i);
        },
        Value::BulkString(s) => {
            let payload = encode_utf8(s);
            let n = payload.len() as i64;
            let t = int_text(n as int);
            let body = pos + 1 + t.len() + 2;
            assert(encode(v) =~= seq![BULK] + ((t + crlf()) + (payload + crlf())));
            lemma_holds_split(buf, pos, seq![BULK], (t + crlf()) + (payload + crlf()));
            lemma_holds_index(buf, pos, seq![BULK], 0);
            lemma_holds_split(buf, pos + 1, t + crlf(), payload + crlf());
            lemma_integer_holds(buf, pos + 1, n);
            lemma_holds_split(buf, body, payload, crlf());
            lemma_holds_index(buf, body + n, crlf(), 0);
            lemma_holds_index(buf, body + n, crlf(), 1);
            encode_utf8_valid_utf8(s);
            encode_utf8_decode_utf8(s);
        },
        Value::Array(items) => {
            let n = items.len() as i64;
            let t = int_text(n as int);
            let flat = encodings(items).flatten();
            let body = pos + 1 + t.len() + 2;
            assert(encode(v) =~= seq![ARRAY] + ((t + crlf()) + flat));
            lemma_holds_split(buf, pos, seq![ARRAY], (t + crlf()) + flat);
            lemma_holds_index(buf, pos, seq![ARRAY], 0);
            lemma_holds_split(buf, pos + 1, t + crlf(), flat);
            lemma_integer_holds(buf, pos + 1, n);
            assert(encodings(items).skip(0) =~= encodings(items));
            lemma_decode_items_encoded(buf, body, items, 0, (depth - 1) as nat);
            assert(items.skip(0) =~= items);
        },
        Value::Null => {
            let t = int_text(-1);
            assert(encode(v) =~= seq![BULK] + (t + crlf()));
            lemma_holds_split(buf, pos, seq![BULK], t + crlf());
            lemma_holds_index(buf, pos, seq![BULK], 0);
            lemma_integer_holds(buf, pos + 1, -1i64);
        },
    }
}

/// Where the bytes of writable values stand one after another, the values are
/// decoded in order.
pub proof fn lemma_decode_items_encoded(
    buf: Seq<u8>,
    pos: int,
    items: Seq<Value>,
    k: int,
    depth: nat,
)
    requires
        0 <= k <= items.len(),
        holds(buf, pos, encodings(items).skip(k).flatten()),
        all_fit(items, depth),
    ensures
        decode_items(buf, pos, (items.len() - k) as nat, depth) == Ok::<(Seq<Value>, int), Fault>(
            (items.skip(k), pos + encodings(items).skip(k).flatten().len()),
        ),
    decreases items, items.len() - k,
{
    let rest = encodings(items).skip(k);
    if k == items.len() {
        assert(items.skip(k) =~= Seq::<Value>::empty());
    } else {
        let first = encode(items[k]);
        let later = encodings(items).skip(k + 1);
        assert(rest.drop_first() =~= later);
        lemma_holds_split(buf, pos, first, later.flatten());
        lemma_decode_encoded(buf, pos, items[k], depth);
        lemma_decode_items_encoded(buf, pos + first.len(), items, k + 1, depth);
        assert(seq![items[k]] + items.skip(k + 1) =~= items.skip(k));
    }
}

/// Where a buffer ends inside the bytes of a writable value, the value is
/// still incomplete.
pub proof fn lemma_decode_cut(buf: Seq<u8>, pos: int, v: Value, depth: nat)
    requires
        cut(buf, pos, encode(v)),
        writable(v),
        nests_within(v, depth),
    ensures
        decode_at(buf, pos, depth) == Err::<(Value, int), Fault>(Fault::Incomplete),
    decreases v, 0nat,
{
    if pos < buf.len() {
        lemma_cut_index(buf, pos, encode(v), 0);
        match v {
            Value::SimpleString(s) => {
                let t = encode_utf8(s);
                assert(encode(v) =~= seq![SIMPLE] + (t + crlf()));
                lemma_cut_split(buf, pos, seq![SIMPLE], t + crlf());
                lemma_line_cut(buf, pos + 1, t);
            },
            Value::Error(s) => {
                let t = encode_utf8(s);
                assert(encode(v) =~= seq![ERROR] + (t + crlf()));
                lemma_cut_split(buf, pos, seq![ERROR], t + crlf());
                lemma_line_cut(buf, pos + 1, t);
            },
            Value::Integer(i) => {
                let t = int_text(i as int);
                assert(encode(v) =~= seq![INTEGER] + (t + crlf()));
                lemma_cut_split(buf, pos, seq![INTEGER], t + crlf());
                lemma_integer_cut(buf, pos + 1, i);
            },
            Value::BulkString(s) => {
                let payload = encode_utf8(s);
                let n = payload.len() as i64;
                let t = int_text(n as int);
                assert(encode(v) =~= seq![BULK] + ((t + crlf()) + (payload + crlf())));
                lemma_cut_split(buf, pos, seq![BULK], (t + crlf()) + (payload + crlf()));
                lemma_cut_split(buf, pos + 1, t + crlf(), payload + crlf());
                if cut(buf, pos + 1, t + crlf()) {
                    lemma_integer_cut(buf, pos + 1, n);
                } else {
                    lemma_integer_holds(buf, pos + 1, n);
                }
            },
            Value::Array(items) => {
                let n = items.len() as i64;
                let t = int_text(n as int);
                let flat = encodings(items).flatten();
                let body = pos + 1 + t.len() + 2;
                assert(encode(v) =~= seq![ARRAY] + ((t + crlf()) + flat));
                lemma_cut_split(buf, pos, seq![ARRAY], (t + crlf()) + flat);
                lemma_cut_split(buf, pos + 1, t + crlf(), flat);
                if cut(buf, pos + 1, t + crlf()) {
                    lemma_integer_cut(buf, pos + 1, n);
                } else {
                    lemma_integer_holds(buf, pos + 1, n);
                    assert(encodings(items).skip(0) =~= encodings(items));
                    lemma_decode_items_cut(buf, body, items, 0, (depth - 1) as nat);
                }
            },
            Value::Null => {
                let t = int_text(-1);
                assert(encode(v) =~= seq![BULK] + (t + crlf()));
                lemma_cut_split(buf, pos, seq![BULK], t + crlf());
                lemma_integer_cut(buf, pos + 1, -1i64);
            },
        }
    }
}

/// Where a buffer ends inside the bytes of a run of writable values, the run
/// is still incomplete.
pub proof fn lemma_decode_items_cut(
    buf: Seq<u8>,
    pos: int,
    items: Seq<Value>,
    k: int,
    depth: nat,
)
    requires
        0 <= k <= items.len(),
        cut(buf, pos, encodings(items).skip(k).flatten()),
        all_fit(items, depth),
    ensures
        decode_items(buf, pos, (items.len() - k) as nat, depth) == Err::<(Seq<Value>, int), Fault>(
            Fault::Incomplete,
        ),
    decreases items, items.len() - k,
{
    let rest = encodings(items).skip(k);
    if k < items.len() {
        let first = encode(items[k]);
        let later = encodings(items).skip(k + 1);
        assert(rest.drop_first() =~= later);
        lemma_cut_split(buf, pos, first, later.flatten());
        if cut(buf, pos, first) {
            lemma_decode_cut(buf, pos, items[k], depth);
        } else {
            lemma_decode_encoded(buf, pos, items[k], depth);
            lemma_decode_items_cut(buf, pos + first.len(), items, k + 1, depth);
        }
    }
}

/// A line that is found ends inside the buffer and holds no line terminator.
pub proof fn lemma_line_found(buf: Seq<u8>, start: int)
    requires
        line_end(buf, start) is Some,
    ensures
        start <= line_end(buf, start)->Some_0,
        line_end(buf, start)->Some_0 + 2 <= buf.len(),
        0 <= start ==> no_crlf(buf.subrange(start, line_end(buf, start)->Some_0)),
{
    let p = line_end(buf, start)->Some_0;
    if 0 <= start {
        let line = buf.subrange(start, p);
        assert forall|q: int| !crlf_at(line, q) by {
            if crlf_at(line, q) {
                assert(crlf_at(buf, start + q));
            }
        }
    }
}

/// Whatever is decoded ends inside the buffer after at least one byte, is
/// writable, and nests within the depth that was allowed.
pub proof fn lemma_decoded_fits(buf: Seq<u8>, pos: int, depth: nat)
    requires
        decode_at(buf, pos, depth) is Ok,
    ensures
        pos < decode_at(buf, pos, depth)->Ok_0.1 <= buf.len(),
        writable(decode_at(buf, pos, depth)->Ok_0.0),
        nests_within(decode_at(buf, pos, depth)->Ok_0.0, depth),
    decreases depth, 0nat,
{
    let marker = buf[pos];
    if marker == SIMPLE || marker == ERROR {
        lemma_line_found(buf, pos + 1);
        decode_utf8_encode_utf8(buf.subrange(pos + 1, line_end(buf, pos + 1)->Some_0));
    } else if marker == INTEGER {
        lemma_line_found(buf, pos + 1);
    } else if marker == BULK {
        lemma_line_found(buf, pos + 1);
        let (n, body) = read_integer(buf, pos + 1)->Ok_0;
        if n != -1 {
            decode_utf8_encode_utf8(buf.subrange(body, body + n));
        }
    } else {
        lemma_line_found(buf, pos + 1);
        let (n, body) = read_integer(buf, pos + 1)->Ok_0;
        if n != -1 {
            lemma_decoded_items_fit(buf, body, n as nat, (depth - 1) as nat);
        }
    }
}

/// Whatever run of values is decoded has the length asked for, ends inside
/// the buffer, and holds writable values that nest within the depth that
/// was allowed.
pub proof fn lemma_decoded_items_fit(buf: Seq<u8>, pos: int, count: nat, depth: nat)
    requires
        0 <= pos <= buf.len(),
        decode_items(buf, pos, count, depth) is Ok,
    ensures
        decode_items(buf, pos, count, depth)->Ok_0.0.len() == count,
        pos <= decode_items(buf, pos, count, depth)->Ok_0.1 <= buf.len(),
        all_fit(decode_items(buf, pos, count, depth)->Ok_0.0, depth),
    decreases depth, count + 1,
{
    if count > 0 {
        lemma_decoded_fits(buf, pos, depth);
        let (first, next) = decode_at(buf, pos, depth)->Ok_0;
        lemma_decoded_items_fit(buf, next, (count - 1) as nat, depth);
    }
}

/// What the decoder hands out, the encoder can write, and the decoder reads
/// those bytes back as the same value.
pub proof fn lemma_decoded_round_trips(buf: Seq<u8>)
    requires
        decode(buf) is Ok,
    ensures
        0 < decode(buf)->Ok_0.1 <= buf.len(),
        writable(decode(buf)->Ok_0.0),
        nests_within(decode(buf)->Ok_0.0, MAX_DEPTH as nat),
        decode(encode(decode(buf)->Ok_0.0)) == Ok::<(Value, int), Fault>(
            (decode(buf)->Ok_0.0, encode(decode(buf)->Ok_0.0).len() as int),
        ),
{
    lemma_decoded_fits(buf, 0, MAX_DEPTH as nat);
    lemma_round_trip(decode(buf)->Ok_0.0);
}

/// A buffer that begins with a byte that is no marker is malformed, whatever
/// follows and however little of it is there: it is never reported as
/// incomplete.
pub proof fn lemma_unknown_marker(buf: Seq<u8>)
    requires
        buf.len() > 0,
        buf[0] != SIMPLE,
        buf[0] != ERROR,
        buf[0] != INTEGER,
        buf[0] != BULK,
        buf[0] != ARRAY,
    ensures
        decode(buf) == Err::<(Value, int), Fault>(bad_marker()),
        bad_marker() != Fault::Incomplete,
{
}

/// Decoding the bytes of a value gives the value back, and takes all of them.
/// This holds of every value that is writable and nests no deeper than the
/// decoder follows.
pub proof fn lemma_round_trip(v: Value)
    requires
        writable(v),
        nests_within(v, MAX_DEPTH as nat),
    ensures
        decode(encode(v)) == Ok::<(Value, int), Fault>((v, encode(v).len() as int)),
{
    let e = encode(v);
    assert(e.subrange(0, e.len() as int) =~= e);
    lemma_decode_encoded(e, 0, v, MAX_DEPTH as nat);
}

/// Decoding a beginning of the bytes of a value, short of all of them, reports
/// the value as incomplete.
pub proof fn lemma_prefix_incomplete(v: Value, k: int)
    requires
        writable(v),
        nests_within(v, MAX_DEPTH as nat),
        0 <= k < encode(v).len(),
    ensures
        decode(encode(v).take(k)) == Err::<(Value, int), Fault>(Fault::Incomplete),
{
    let e = encode(v);
    let p = e.take(k);
    assert(p.subrange(0, p.len() as int) =~= e.take(p.len() - 0));
    lemma_decode_cut(p, 0, v, MAX_DEPTH as nat);
}

} // verus!
