//! Framing: from chunks of bytes, cut wherever the transport cut them, to
//! whole values, one at a time.

use vstd::prelude::*;
use bytes::BytesMut;
use crate::buffer::{buf_advance, buf_extend, buf_seq, buf_slice};
use crate::decoder::decode_value;
use crate::encoder::encode_value;
use crate::resp::{duplicate_all, fault_text, values_of, Fault, RespError, RespType, Value};
use crate::roundtrip::{lemma_decode_encoded, lemma_prefix_incomplete, lemma_round_trip};
use crate::wire::{decode, encode, nests_within, writable, MAX_DEPTH};

verus! {

/// Collects the parts of a command that arrives part by part.
pub struct CommandBuilder {
    parts: Vec<RespType>,
    num_parts: usize,
    parsed_parts: usize,
}

impl CommandBuilder {
    /// The count of parts received is the number of parts held.
    pub closed spec fn wf(&self) -> bool {
        self.parsed_parts == self.parts@.len()
    }

    /// The parts received so far, in order.
    pub closed spec fn parts(&self) -> Seq<Value> {
        values_of(self.parts@)
    }

    /// How many parts the command has.
    pub closed spec fn num_parts(&self) -> nat {
        self.num_parts as nat
    }

    pub fn new(num_parts: usize) -> (b: CommandBuilder)
        ensures
            b.wf(),
            b.parts() == Seq::<Value>::empty(),
            b.num_parts() == num_parts,
    {
        let b = CommandBuilder { parts: Vec::new(), num_parts, parsed_parts: 0 };
        b
    }

    pub fn add_part(&mut self, part: RespType)
        requires
            old(self).wf(),
        ensures
            final(self).wf(),
            final(self).parts() == old(self).parts().push(part@),
            final(self).num_parts() == old(self).num_parts(),
    {
        self.parts.push(part);
        let held = self.parts.len();
        self.parsed_parts = held;
    }

    pub fn all_parts_received(&self) -> (r: bool)
        requires
            self.wf(),
        ensures
            r == (self.parts().len() == self.num_parts()),
    {
        self.num_parts == self.parsed_parts
    }

    pub fn build(&self) -> (r: Vec<RespType>)
        ensures
            values_of(r@) == self.parts(),
    {
        duplicate_all(&self.parts)
    }
}

/// A decoding error as the framing layer passes it on.
#[derive(Debug)]
pub struct FrameError {
    err: RespError,
}

impl FrameError {
    /// The decoding error inside.
    pub closed spec fn fault(&self) -> Fault {
        self.err@
    }

    pub fn from(err: RespError) -> (e: FrameError)
        ensures
            e.fault() == err@,
    {
        FrameError { err }
    }

    /// The text that describes this error.
    pub fn message(&self) -> (r: String)
        ensures
            r@ == fault_text(self.fault()),
    {
        self.err.message()
    }
}

/// What one decode attempt on the bytes buffered so far yields.
pub enum Delivery {
    /// No value yet: wait for more bytes.
    Waiting,
    /// One whole value.
    Frame(Value),
    /// The bytes cannot begin a value.
    Failed(Fault),
}

/// The outcome of one decode attempt on `buf`.
pub open spec fn deliver(buf: Seq<u8>) -> Delivery {
    if buf.len() == 0 {
        Delivery::Waiting
    } else {
        match decode(buf) {
            Ok((v, _)) => Delivery::Frame(v),
            Err(Fault::Incomplete) => Delivery::Waiting,
            Err(f) => Delivery::Failed(f),
        }
    }
}

/// What stays buffered after one decode attempt on `buf`: the bytes after
/// the value that was delivered, and all of `buf` where none was.
pub open spec fn remainder(buf: Seq<u8>) -> Seq<u8> {
    if buf.len() == 0 {
        buf
    } else {
        match decode(buf) {
            Ok((_, n)) => buf.skip(n),
            Err(_) => buf,
        }
    }
}

/// The outcome after the chunk `a` and then the chunk `b` have come in, with
/// a decode attempt after each, until a value or a failure is there.
pub open spec fn deliver_in_two(a: Seq<u8>, b: Seq<u8>) -> Delivery {
    match deliver(a) {
        Delivery::Waiting => deliver(remainder(a) + b),
        other => other,
    }
}

/// However the bytes of a value are split into two chunks, the codec
/// delivers, after both, the value that it delivers from the bytes in one
/// piece, and nothing stays buffered.
pub proof fn lemma_fragmentation(v: Value, k: int)
    requires
        writable(v),
        nests_within(v, MAX_DEPTH as nat),
        0 <= k <= encode(v).len(),
    ensures
        deliver(encode(v)) == Delivery::Frame(v),
        remainder(encode(v)) == Seq::<u8>::empty(),
        deliver_in_two(encode(v).take(k), encode(v).skip(k)) == deliver(encode(v)),
        k < encode(v).len() ==> deliver(encode(v).take(k)) == Delivery::Waiting,
{
    let wire = encode(v);
    lemma_round_trip(v);
    if k < wire.len() {
        lemma_prefix_incomplete(v, k);
        assert(wire.take(k) + wire.skip(k) =~= wire);
    } else {
        assert(wire.take(k) =~= wire);
    }
}

/// Where the bytes of a value lead the buffer, the codec delivers the value
/// and keeps what follows it, whatever that is.
pub proof fn lemma_first_of_many(v: Value, rest: Seq<u8>)
    requires
        writable(v),
        nests_within(v, MAX_DEPTH as nat),
    ensures
        deliver(encode(v) + rest) == Delivery::Frame(v),
        remainder(encode(v) + rest) == rest,
{
    let buf = encode(v) + rest;
    assert(buf.subrange(0, encode(v).len() as int) =~= encode(v));
    lemma_decode_encoded(buf, 0, v, MAX_DEPTH as nat);
    lemma_round_trip(v);
}

/// The stream codec: buffers what comes in and hands out whole values.
pub struct RespCodec;

impl RespCodec {
    /// One decode attempt on the bytes buffered in `src`.
    ///
    /// A whole value is taken off the front of `src` and returned. Where the
    /// value is not all there yet, or `src` is empty, `src` stays as it is and
    /// `None` says to wait. Where the bytes cannot begin a value, the error
    /// says why and `src` stays as it is.
    pub fn decode(&mut self, src: &mut BytesMut) -> (r: Result<Option<RespType>, FrameError>)
        ensures
            buf_seq(*final(src)) == remainder(buf_seq(*old(src))),
            match deliver(buf_seq(*old(src))) {
                Delivery::Waiting => r matches Ok(None),
                Delivery::Frame(v) => r matches Ok(Some(value)) && value@ == v,
                Delivery::Failed(f) => r matches Err(e) && e.fault() == f,
            },
    {
        let decoded = decode_value(buf_slice(src));
        match decoded {
            Ok((value, taken)) => {
                buf_advance(src, taken);
                Ok(Some(value))
            },
            Err(RespError::Incomplete) => Ok(None),
            Err(e) => Err(FrameError::from(e)),
        }
    }

    /// Appends the bytes of `item` to `dst`.
    pub fn encode(&mut self, item: RespType, dst: &mut BytesMut) -> (r: Result<(), FrameError>)
        ensures
            r is Ok,
            buf_seq(*final(dst)) == buf_seq(*old(dst)) + encode(item@),
    {
        let bytes = encode_value(&item);
        buf_extend(dst, bytes.as_slice());
        Ok(())
    }
}

} // verus!
