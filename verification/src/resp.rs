//! The RESP value model.

use vstd::prelude::*;
use vstd::std_specs::cmp::PartialEqSpecImpl;
use vstd::string::StringExecFns;
use vstd::utf8::encode_utf8;
use bytes::Bytes;
use bytes::BytesMut;
use crate::buffer::{buf_seq, buf_slice, bytes_from_vec, bytes_seq};
use crate::decoder::{agrees, decode_value};
use crate::encoder::encode_value;
use crate::wire::{decode, encode};

verus! {

/// The mathematical model of a RESP value.
pub enum Value {
    BulkString(Seq<char>),
    SimpleString(Seq<char>),
    Integer(i64),
    Array(Seq<Value>),
    Error(Seq<char>),
    Null,
}

/// The model of a decoding error: its kind and its message.
pub enum Fault {
    InvalidBulkString(Seq<char>),
    InvalidSimpleString(Seq<char>),
    InvalidInteger(Seq<char>),
    Incomplete,
    Other(Seq<char>),
}

/// A RESP value as held in memory.
#[derive(Debug)]
pub enum RespType {
    BulkString(String),
    SimpleString(String),
    Integer(i64),
    Array(Vec<RespType>),
    Error(String),
    Null,
}

/// Why a buffer did not decode to a value.
#[derive(Debug)]
pub enum RespError {
    InvalidBulkString(String),
    InvalidSimpleString(String),
    InvalidInteger(String),
    Incomplete,
    Other(String),
}

impl View for RespError {
    type V = Fault;

    open spec fn view(&self) -> Fault {
        match self {
            RespError::InvalidBulkString(m) => Fault::InvalidBulkString(m@),
            RespError::InvalidSimpleString(m) => Fault::InvalidSimpleString(m@),
            RespError::InvalidInteger(m) => Fault::InvalidInteger(m@),
            RespError::Incomplete => Fault::Incomplete,
            RespError::Other(m) => Fault::Other(m@),
        }
    }
}

/// The text that describes a decoding error.
pub open spec fn fault_text(f: Fault) -> Seq<char> {
    match f {
        Fault::InvalidBulkString(m) => "Invalid bulk string: "@ + m,
        Fault::InvalidSimpleString(m) => "Invalid simple string: "@ + m,
        Fault::InvalidInteger(m) => "Invalid integer: "@ + m,
        Fault::Incomplete => "Incomplete RESP data"@,
        Fault::Other(m) => "Other error: "@ + m,
    }
}

impl RespError {
    /// The text that describes this error.
    pub fn message(&self) -> (r: String)
        ensures
            r@ == fault_text(self@),
    {
        match self {
            RespError::InvalidBulkString(m) => "Invalid bulk string: ".to_owned().concat(
                m.as_str(),
            ),
            RespError::InvalidSimpleString(m) => "Invalid simple string: ".to_owned().concat(
                m.as_str(),
            ),
            RespError::InvalidInteger(m) => "Invalid integer: ".to_owned().concat(m.as_str()),
            RespError::Incomplete => "Incomplete RESP data".to_owned(),
            RespError::Other(m) => "Other error: ".to_owned().concat(m.as_str()),
        }
    }
}

/// The model of a value: texts by their characters, arrays element by element.
pub open spec fn value_of(r: RespType) -> Value
    decreases r,
{
    match r {
        RespType::BulkString(s) => Value::BulkString(s@),
        RespType::SimpleString(s) => Value::SimpleString(s@),
        RespType::Integer(i) => Value::Integer(i),
        RespType::Array(items) => Value::Array(
            Seq::new(
                items@.len(),
                |i: int|
                    if 0 <= i < items@.len() {
                        value_of(items@[i])
                    } else {
                        Value::Null
                    },
            ),
        ),
        RespType::Error(s) => Value::Error(s@),
        RespType::Null => Value::Null,
    }
}

/// The models of a sequence of values, in order.
pub open spec fn values_of(items: Seq<RespType>) -> Seq<Value> {
    Seq::new(items.len(), |i: int| value_of(items[i]))
}

/// The model of an array is the sequence of its elements' models.
pub proof fn lemma_array_view(items: Vec<RespType>)
    ensures
        RespType::Array(items)@ == Value::Array(values_of(items@)),
{
    assert(RespType::Array(items)@->Array_0 =~= values_of(items@));
}

impl View for RespType {
    type V = Value;

    open spec fn view(&self) -> Value {
        value_of(*self)
    }
}

impl Clone for RespType {
    fn clone(&self) -> (r: Self)
        ensures
            r@ == self@,
    {
        self.duplicate()
    }
}

impl RespType {
    /// An owned copy with the same model.
    pub fn duplicate(&self) -> (r: RespType)
        ensures
            r@ == self@,
        decreases self,
    {
        match self {
            RespType::BulkString(s) => RespType::BulkString(s.clone()),
            RespType::SimpleString(s) => RespType::SimpleString(s.clone()),
            RespType::Integer(i) => RespType::Integer(*i),
            RespType::Array(items) => {
                let mut out: Vec<RespType> = Vec::new();
                let mut i: usize = 0;
                while i < items.len()
                    invariant
                        *self == RespType::Array(*items),
                        i <= items.len(),
                        out.len() == i,
                        forall|j: int| 0 <= j < i ==> out@[j]@ == items@[j]@,
                    decreases items.len() - i,
                {
                    proof {
                        assert(self->Array_0 == *items);
                    }
                    let item = items[i].duplicate();
                    out.push(item);
                    i += 1;
                }
                proof {
                    lemma_array_view(out);
                    lemma_array_view(*items);
                    assert(values_of(out@) =~= values_of(items@));
                }
                RespType::Array(out)
            },
            RespType::Error(s) => RespType::Error(s.clone()),
            RespType::Null => RespType::Null,
        }
    }

    /// Structural equality: same variant, same contents.
    pub fn same(&self, other: &RespType) -> (r: bool)
        ensures
            r == (self@ == other@),
        decreases self,
    {
        match self {
            RespType::BulkString(a) => match other {
                RespType::BulkString(b) => *a == *b,
                _ => false,
            },
            RespType::SimpleString(a) => match other {
                RespType::SimpleString(b) => *a == *b,
                _ => false,
            },
            RespType::Integer(a) => match other {
                RespType::Integer(b) => *a == *b,
                _ => false,
            },
            RespType::Array(a) => match other {
                RespType::Array(b) => {
                    proof {
                        lemma_array_view(*a);
                        lemma_array_view(*b);
                    }
                    if a.len() != b.len() {
                        assert(values_of(a@).len() != values_of(b@).len());
                        return false;
                    }
                    let mut i: usize = 0;
                    while i < a.len()
                        invariant
                            *self == RespType::Array(*a),
                            *other == RespType::Array(*b),
                            self@ == Value::Array(values_of(a@)),
                            other@ == Value::Array(values_of(b@)),
                            a.len() == b.len(),
                            i <= a.len(),
                            forall|j: int| 0 <= j < i ==> a@[j]@ == b@[j]@,
                        decreases a.len() - i,
                    {
                        if !a[i].same(&b[i]) {
                            assert(values_of(a@)[i as int] != values_of(b@)[i as int]);
                            return false;
                        }
                        i += 1;
                    }
                    assert(values_of(a@) =~= values_of(b@));
                    true
                },
                _ => false,
            },
            RespType::Error(a) => match other {
                RespType::Error(b) => *a == *b,
                _ => false,
            },
            RespType::Null => match other {
                RespType::Null => true,
                _ => false,
            },
        }
    }
}

impl PartialEq for RespType {
    fn eq(&self, other: &Self) -> (r: bool) {
        self.same(other)
    }
}

impl PartialEqSpecImpl for RespType {
    open spec fn obeys_eq_spec() -> bool {
        true
    }

    open spec fn eq_spec(&self, other: &Self) -> bool {
        self@ == other@
    }
}

impl RespType {
    /// The bytes of this value on the wire.
    pub fn to_bytes(&self) -> (out: Bytes)
        ensures
            bytes_seq(out) == encode(self@),
    {
        bytes_from_vec(encode_value(self))
    }
}

/// Owned copies of `items`, in order.
pub fn duplicate_all(items: &Vec<RespType>) -> (out: Vec<RespType>)
    ensures
        values_of(out@) == values_of(items@),
{
    let mut out: Vec<RespType> = Vec::new();
    let mut i: usize = 0;
    while i < items.len()
        invariant
            i <= items.len(),
            out.len() == i,
            forall|j: int| 0 <= j < i ==> out@[j]@ == items@[j]@,
        decreases items.len() - i,
    {
        out.push(items[i].duplicate());
        i += 1;
    }
    out
}

/// A decoder over the bytes received so far.
pub struct Resp {
    buffer: BytesMut,
}

impl Resp {
    /// The bytes that the decoder reads.
    pub closed spec fn bytes(&self) -> Seq<u8> {
        buf_seq(self.buffer)
    }

    /// A decoder that reads `buffer`.
    pub fn new(buffer: BytesMut) -> (r: Resp)
        ensures
            r.bytes() == buf_seq(buffer),
    {
        Resp { buffer }
    }

    /// Decodes one value from the start of the buffer: the value and the
    /// number of bytes it takes. The buffer is left as it is.
    pub fn parse(&mut self) -> (r: Result<(RespType, usize), RespError>)
        ensures
            final(self).bytes() == old(self).bytes(),
            agrees(r, decode(old(self).bytes())),
            r matches Ok((_, n)) ==> 0 < n <= old(self).bytes().len(),
    {
        decode_value(buf_slice(&self.buffer))
    }
}

/// Decodes the value that `input` begins with.
pub fn parse_resp(input: &str) -> (r: Result<RespType, RespError>)
    ensures
        match decode(encode_utf8(input@)) {
            Ok((v, _)) => r matches Ok(rv) && rv@ == v,
            Err(f) => r matches Err(e) && e@ == f,
        },
{
    match decode_value(input.as_bytes()) {
        Ok((value, _)) => Ok(value),
        Err(e) => Err(e),
    }
}

} // verus!
