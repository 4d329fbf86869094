//! The growable byte buffer of the `bytes` crate, as the packet code uses it.
//!
//! `BytesMut` is opaque to the verifier; `bytes_of` names the bytes it holds,
//! and every method the packet code calls has a wrapper whose contract says
//! what the method does to them, as the crate's source shows it.
use bytes::Buf;
use bytes::BufMut;
use bytes::BytesMut;
use vstd::prelude::*;

verus! {

#[verifier::external_type_specification]
#[verifier::external_body]
pub struct ExBytesMut(bytes::BytesMut);

/// The bytes held by a `BytesMut`, from the first to the last.
pub uninterp spec fn bytes_of(b: BytesMut) -> Seq<u8>;

/// `BytesMut::with_capacity`: an empty buffer.
#[verifier::external_body]
pub(crate) fn buf_with_capacity(capacity: usize) -> (r: BytesMut)
    ensures
        bytes_of(r) == Seq::<u8>::empty(),
{
    BytesMut::with_capacity(capacity)
}

/// `BytesMut::new`: an empty buffer.
#[verifier::external_body]
pub(crate) fn buf_new() -> (r: BytesMut)
    ensures
        bytes_of(r) == Seq::<u8>::empty(),
{
    BytesMut::new()
}

/// `BytesMut::len`: the number of bytes held.
#[verifier::external_body]
pub(crate) fn buf_len(b: &BytesMut) -> (r: usize)
    ensures
        r == bytes_of(*b).len(),
{
    b.len()
}

/// `BytesMut` dereferenced to a slice: the bytes held, in order.
#[verifier::external_body]
pub(crate) fn buf_as_slice(b: &BytesMut) -> (r: &[u8])
    ensures
        r@ == bytes_of(*b),
{
    &b[..]
}

/// `BufMut::put_u8` on a `BytesMut`: appends one byte.
#[verifier::external_body]
pub(crate) fn buf_put_u8(b: &mut BytesMut, v: u8)
    ensures
        bytes_of(*final(b)) == bytes_of(*old(b)).push(v),
{
    b.put_u8(v)
}

/// `BytesMut::truncate`: keeps the first `len` bytes; no effect when `len` is
/// not below the current length.
#[verifier::external_body]
pub(crate) fn buf_truncate(b: &mut BytesMut, len: usize)
    ensures
        bytes_of(*final(b)) == if len <= bytes_of(*old(b)).len() {
            bytes_of(*old(b)).take(len as int)
        } else {
            bytes_of(*old(b))
        },
{
    b.truncate(len)
}

/// `BytesMut::split_off`: `b` keeps the bytes before `at` and the result holds
/// the bytes from `at` on. It panics when `at` is beyond the capacity, which is
/// at least the length; `at` is asked to be within the length.
#[verifier::external_body]
pub(crate) fn buf_split_off(b: &mut BytesMut, at: usize) -> (r: BytesMut)
    requires
        at <= bytes_of(*old(b)).len(),
    ensures
        bytes_of(*final(b)) == bytes_of(*old(b)).take(at as int),
        bytes_of(r) == bytes_of(*old(b)).skip(at as int),
{
    b.split_off(at)
}

/// `BytesMut::unsplit`: appends the bytes of `other`.
#[verifier::external_body]
pub(crate) fn buf_unsplit(b: &mut BytesMut, other: BytesMut)
    ensures
        bytes_of(*final(b)) == bytes_of(*old(b)) + bytes_of(other),
{
    b.unsplit(other)
}

/// `BytesMut::from(&[u8])`: a buffer holding a copy of the slice.
#[verifier::external_body]
pub(crate) fn buf_from_slice(s: &[u8]) -> (r: BytesMut)
    ensures
        bytes_of(r) == s@,
{
    BytesMut::from(s)
}

/// `BytesMut::clone`: a buffer holding the same bytes.
#[verifier::external_body]
pub(crate) fn buf_clone(b: &BytesMut) -> (r: BytesMut)
    ensures
        bytes_of(r) == bytes_of(*b),
{
    b.clone()
}

/// `Buf::advance` on a `BytesMut`: drops the first `cnt` bytes. It panics
/// when `cnt` is beyond the length, which is ruled out.
#[verifier::external_body]
pub(crate) fn buf_advance(b: &mut BytesMut, cnt: usize)
    requires
        cnt <= bytes_of(*old(b)).len(),
    ensures
        bytes_of(*final(b)) == bytes_of(*old(b)).skip(cnt as int),
{
    b.advance(cnt)
}

} // verus!
