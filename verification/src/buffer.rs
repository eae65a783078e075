//! Byte buffers, of the `bytes` crate.
use bytes::{Bytes, BytesMut};
use vstd::prelude::*;

verus! {

/// `bytes::Bytes`, an immutable sequence of bytes.
#[verifier::external_type_specification]
#[verifier::external_body]
pub struct ExBytes(Bytes);

/// `bytes::BytesMut`, a sequence of bytes that can be appended to.
#[verifier::external_type_specification]
#[verifier::external_body]
pub struct ExBytesMut(BytesMut);

/// The bytes that `bytes` holds.
pub uninterp spec fn content(bytes: Bytes) -> Seq<u8>;

/// The bytes that `buffer` holds.
pub uninterp spec fn buffer_content(buffer: BytesMut) -> Seq<u8>;

/// The number of bytes that `buffer` was made to hold.
pub uninterp spec fn buffer_limit(buffer: BytesMut) -> nat;

/// `Bytes::from` on a slice: a copy of the slice.
#[verifier::external_body]
pub(crate) fn copy_of(slice: &[u8]) -> (r: Bytes)
    ensures
        content(r) == slice@,
{
    Bytes::from(slice)
}

/// `Bytes::from` on a string: the string's UTF-8 encoding.
#[verifier::external_body]
pub(crate) fn of_string(string: String) -> (r: Bytes)
    ensures
        content(r) == vstd::utf8::encode_utf8(string@),
{
    Bytes::from(string)
}

/// `Bytes::len`: the number of bytes held.
#[verifier::external_body]
pub(crate) fn len(bytes: &Bytes) -> (r: usize)
    ensures
        r == content(*bytes).len(),
{
    bytes.len()
}

/// `Bytes::as_ref`: the bytes held, as a slice.
#[verifier::external_body]
pub(crate) fn as_slice(bytes: &Bytes) -> (r: &[u8])
    ensures
        r@ == content(*bytes),
{
    bytes.as_ref()
}

/// `BytesMut::with_capacity`: an empty buffer that holds `capacity` bytes without growing. It
/// panics on more bytes than an allocation can have.
#[verifier::external_body]
pub(crate) fn with_capacity(capacity: usize) -> (r: BytesMut)
    requires
        capacity <= isize::MAX,
    ensures
        buffer_content(r) == Seq::<u8>::empty(),
        buffer_limit(r) == capacity,
{
    BytesMut::with_capacity(capacity)
}

/// `BytesMut::extend_from_slice`: `slice` is appended. Within the number of bytes that the buffer
/// was made for it does not grow, so it cannot run out of room.
#[verifier::external_body]
pub(crate) fn extend_from_slice(buffer: &mut BytesMut, slice: &[u8])
    requires
        buffer_content(*old(buffer)).len() + slice@.len() <= buffer_limit(*old(buffer)),
    ensures
        buffer_content(*final(buffer)) == buffer_content(*old(buffer)) + slice@,
        buffer_limit(*final(buffer)) == buffer_limit(*old(buffer)),
{
    buffer.extend_from_slice(slice)
}

/// `Bytes::from` on a `BytesMut`: the same bytes.
#[verifier::external_body]
pub(crate) fn freeze(buffer: BytesMut) -> (r: Bytes)
    ensures
        content(r) == buffer_content(buffer),
{
    Bytes::from(buffer)
}

} // verus!
