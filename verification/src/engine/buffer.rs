//! The byte containers of the `bytes` crate, as far as the producer uses them.
//! Nothing in this file is proved: each contract restates what the crate
//! documents, over the bytes that a container holds.

use crate::wire::be::be16_bytes;
use bytes::{BufMut, Bytes, BytesMut};
use vstd::prelude::*;

verus! {

/// `bytes::Bytes`: an immutable, cheaply cloned byte string.
#[verifier::external_type_specification]
#[verifier::external_body]
pub struct ExBytes(bytes::Bytes);

/// `bytes::BytesMut`: a growable byte buffer.
#[verifier::external_type_specification]
#[verifier::external_body]
pub struct ExBytesMut(bytes::BytesMut);

/// The bytes that a `Bytes` holds.
pub uninterp spec fn payload_bytes(b: &Bytes) -> Seq<u8>;

/// The bytes that a `BytesMut` holds.
pub uninterp spec fn buffer_bytes(b: &BytesMut) -> Seq<u8>;

/// `<Bytes as AsRef<[u8]>>::as_ref`: the held bytes as a slice.
#[verifier::external_body]
pub(crate) fn payload_slice(b: &Bytes) -> (s: &[u8])
    ensures
        s@ == payload_bytes(b),
{
    b.as_ref()
}

/// `BytesMut::with_capacity`: a buffer that holds no bytes yet.
#[verifier::external_body]
pub(crate) fn buffer_with_capacity(capacity: usize) -> (b: BytesMut)
    requires
        capacity <= 0x7fff_ffff,
    ensures
        buffer_bytes(&b) == Seq::<u8>::empty(),
{
    BytesMut::with_capacity(capacity)
}

/// `BufMut::put_u16` on a `BytesMut`: appends the two big-endian bytes of `n`.
#[verifier::external_body]
pub(crate) fn buffer_put_u16(b: &mut BytesMut, n: u16)
    requires
        buffer_bytes(old(b)).len() + 2 <= 0x7fff_ffff,
    ensures
        buffer_bytes(final(b)) == buffer_bytes(old(b)) + be16_bytes(n),
{
    b.put_u16(n)
}

/// `BufMut::put_slice` on a `BytesMut`: appends the bytes of `src`.
#[verifier::external_body]
pub(crate) fn buffer_put_slice(b: &mut BytesMut, src: &[u8])
    requires
        buffer_bytes(old(b)).len() + src@.len() <= 0x7fff_ffff,
    ensures
        buffer_bytes(final(b)) == buffer_bytes(old(b)) + src@,
{
    b.put_slice(src)
}

/// `BytesMut::truncate`: keeps the first `len` bytes; a `len` beyond the end
/// changes nothing.
#[verifier::external_body]
pub(crate) fn buffer_truncate(b: &mut BytesMut, len: usize)
    ensures
        len <= buffer_bytes(old(b)).len() ==> buffer_bytes(final(b)) == buffer_bytes(
            old(b),
        ).subrange(0, len as int),
        len > buffer_bytes(old(b)).len() ==> buffer_bytes(final(b)) == buffer_bytes(old(b)),
{
    b.truncate(len)
}

/// `<BytesMut as AsRef<[u8]>>::as_ref`: the held bytes as a slice.
#[verifier::external_body]
pub(crate) fn buffer_slice(b: &BytesMut) -> (s: &[u8])
    ensures
        s@ == buffer_bytes(b),
{
    b.as_ref()
}

} // verus!
