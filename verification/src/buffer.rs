//! Byte buffers of the `bytes` crate, as the codec sees them: each buffer is
//! the sequence of bytes it holds.

use vstd::prelude::*;
use bytes::Buf;
use bytes::Bytes;
use bytes::BytesMut;

verus! {

/// `bytes::Bytes`, an immutable buffer. Nothing of its inside is known here.
#[verifier::external_type_specification]
#[verifier::external_body]
pub struct ExBytes(Bytes);

/// `bytes::BytesMut`, a growable buffer. Nothing of its inside is known here.
#[verifier::external_type_specification]
#[verifier::external_body]
pub struct ExBytesMut(BytesMut);

/// The bytes that a `Bytes` holds, first to last.
pub uninterp spec fn bytes_seq(b: Bytes) -> Seq<u8>;

/// The bytes that a `BytesMut` holds, first to last.
pub uninterp spec fn buf_seq(b: BytesMut) -> Seq<u8>;

/// `Bytes::from(Vec<u8>)`. Trusted: the buffer holds the vector's bytes.
#[verifier::external_body]
pub(crate) fn bytes_from_vec(v: Vec<u8>) -> (b: Bytes)
    ensures
        bytes_seq(b) == v@,
{
    Bytes::from(v)
}

/// `BytesMut::as_ref`. Trusted: the slice is the buffer's contents.
#[verifier::external_body]
pub(crate) fn buf_slice(b: &BytesMut) -> (s: &[u8])
    ensures
        s@ == buf_seq(*b),
{
    b.as_ref()
}

/// `Buf::advance` on a `BytesMut`. Trusted: it drops the first `cnt` bytes
/// and keeps the rest; the crate panics where `cnt` exceeds the length.
#[verifier::external_body]
pub(crate) fn buf_advance(b: &mut BytesMut, cnt: usize)
    requires
        cnt <= buf_seq(*old(b)).len(),
    ensures
        buf_seq(*final(b)) == buf_seq(*old(b)).skip(cnt as int),
{
    b.advance(cnt)
}

/// `BytesMut::extend_from_slice`. Trusted: it appends the slice's bytes.
#[verifier::external_body]
pub(crate) fn buf_extend(b: &mut BytesMut, extra: &[u8])
    ensures
        buf_seq(*final(b)) == buf_seq(*old(b)) + extra@,
{
    b.extend_from_slice(extra)
}

} // verus!
