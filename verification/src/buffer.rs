//! The byte buffer that a request is gathered in: `bytes::BytesMut`, with
//! the contracts that its users rely on.

use vstd::prelude::*;

verus! {

#[verifier::external_type_specification]
#[verifier::external_body]
pub struct ExBytesMut(::bytes::BytesMut);

/// The bytes that a buffer holds, in order.
pub uninterp spec fn buffered(b: ::bytes::BytesMut) -> Seq<u8>;

/// `BytesMut::new`: a buffer that holds nothing.
#[verifier::external_body]
pub(crate) fn buffer_new() -> (r: ::bytes::BytesMut)
    ensures
        buffered(r) == Seq::<u8>::empty(),
{
    ::bytes::BytesMut::new()
}

/// `BytesMut::from(&[u8])`: a buffer that holds a copy of `data`.
#[verifier::external_body]
pub(crate) fn buffer_from(data: &[u8]) -> (r: ::bytes::BytesMut)
    ensures
        buffered(r) == data@,
{
    ::bytes::BytesMut::from(data)
}

/// `BytesMut::extend_from_slice`: `data` is appended to what the buffer
/// holds.
#[verifier::external_body]
pub(crate) fn buffer_extend(b: &mut ::bytes::BytesMut, data: &[u8])
    ensures
        buffered(*final(b)) == buffered(*old(b)) + data@,
{
    b.extend_from_slice(data)
}

/// `BytesMut::split_to`: the first `at` bytes leave the buffer and are
/// returned; the rest stays. The method panics where `at` is beyond the end,
/// which the precondition excludes.
#[verifier::external_body]
pub(crate) fn buffer_split_to(b: &mut ::bytes::BytesMut, at: usize) -> (r: ::bytes::BytesMut)
    requires
        at <= buffered(*old(b)).len(),
    ensures
        buffered(r) == buffered(*old(b)).subrange(0, at as int),
        buffered(*final(b)) == buffered(*old(b)).skip(at as int),
{
    b.split_to(at)
}

/// `BytesMut::len`: how many bytes the buffer holds.
#[verifier::external_body]
pub(crate) fn buffer_len(b: &::bytes::BytesMut) -> (r: usize)
    ensures
        r == buffered(*b).len(),
{
    b.len()
}

/// The buffer's `Deref` to a slice: the bytes that it holds.
#[verifier::external_body]
pub(crate) fn buffer_as_slice(b: &::bytes::BytesMut) -> (r: &[u8])
    ensures
        r@ == buffered(*b),
{
    &b[..]
}

} // verus!
