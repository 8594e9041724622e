//! Byte buffers of the `bytes` crate and the operations on them that the
//! packet codec needs.

use bytes::{BufMut, Bytes, BytesMut};
use vstd::prelude::*;

verus! {

#[verifier::external_type_specification]
#[verifier::external_body]
pub struct ExBytes(bytes::Bytes);

#[verifier::external_type_specification]
#[verifier::external_body]
pub struct ExBytesMut(bytes::BytesMut);

/// The bytes that a `Bytes` holds.
pub uninterp spec fn contents(b: bytes::Bytes) -> Seq<u8>;

/// The bytes that a `BytesMut` holds.
pub uninterp spec fn pending(b: bytes::BytesMut) -> Seq<u8>;

/// The four bytes of `n`, the most significant one first.
pub open spec fn be32(n: u32) -> Seq<u8> {
    seq![
        (n / 0x100_0000) as u8,
        (n / 0x1_0000 % 0x100) as u8,
        (n / 0x100 % 0x100) as u8,
        (n % 0x100) as u8,
    ]
}

/// The two bytes of `n`, the most significant one first.
pub open spec fn be16(n: u16) -> Seq<u8> {
    seq![(n / 0x100) as u8, (n % 0x100) as u8]
}

/// `Bytes::from(Vec<u8>)`: the buffer holds the vector's bytes.
#[verifier::external_body]
pub(crate) fn bytes_from_vec(v: Vec<u8>) -> (r: Bytes)
    ensures
        contents(r) == v@,
{
    Bytes::from(v)
}

/// `Bytes::copy_from_slice`: the buffer holds a copy of the slice.
#[verifier::external_body]
pub(crate) fn bytes_from_slice(data: &[u8]) -> (r: Bytes)
    ensures
        contents(r) == data@,
{
    Bytes::copy_from_slice(data)
}

/// `Bytes::clone`: the clone holds the same bytes.
#[verifier::external_body]
pub(crate) fn bytes_clone(b: &Bytes) -> (r: Bytes)
    ensures
        contents(r) == contents(*b),
{
    b.clone()
}

/// `Bytes::deref`: the slice of the bytes held.
#[verifier::external_body]
pub(crate) fn bytes_as_slice(b: &Bytes) -> (r: &[u8])
    ensures
        r@ == contents(*b),
{
    b
}

/// `BytesMut::deref`: the slice of the bytes held.
#[verifier::external_body]
pub(crate) fn buf_as_slice(b: &BytesMut) -> (r: &[u8])
    ensures
        r@ == pending(*b),
{
    b
}

/// `BytesMut::split_to`: the first `at` bytes move to the result, the rest
/// stays. It panics where the buffer holds fewer.
#[verifier::external_body]
pub(crate) fn buf_split_to(b: &mut BytesMut, at: usize) -> (r: BytesMut)
    requires
        at <= pending(*old(b)).len(),
    ensures
        pending(r) == pending(*old(b)).take(at as int),
        pending(*final(b)) == pending(*old(b)).skip(at as int),
{
    b.split_to(at)
}

/// `BytesMut::freeze`: the result holds the same bytes.
#[verifier::external_body]
pub(crate) fn buf_freeze(b: BytesMut) -> (r: Bytes)
    ensures
        contents(r) == pending(b),
{
    b.freeze()
}

/// `BytesMut::reserve`: the bytes held stay as they are. It panics where
/// the capacity asked for cannot be allocated.
#[verifier::external_body]
pub(crate) fn buf_reserve(b: &mut BytesMut, additional: usize)
    requires
        pending(*old(b)).len() + additional <= isize::MAX,
    ensures
        pending(*final(b)) == pending(*old(b)),
{
    b.reserve(additional);
}

/// `BufMut::put_u32` on a `BytesMut`: the number's four bytes are appended
/// in big-endian order.
#[verifier::external_body]
pub(crate) fn buf_put_u32(b: &mut BytesMut, n: u32)
    requires
        pending(*old(b)).len() + 4 <= isize::MAX,
    ensures
        pending(*final(b)) == pending(*old(b)) + be32(n),
{
    b.put_u32(n);
}

/// `BufMut::put_u16` on a `BytesMut`: the number's two bytes are appended
/// in big-endian order.
#[verifier::external_body]
pub(crate) fn buf_put_u16(b: &mut BytesMut, n: u16)
    requires
        pending(*old(b)).len() + 2 <= isize::MAX,
    ensures
        pending(*final(b)) == pending(*old(b)) + be16(n),
{
    b.put_u16(n);
}

/// `BufMut::put_u8` on a `BytesMut`: the byte is appended.
#[verifier::external_body]
pub(crate) fn buf_put_u8(b: &mut BytesMut, n: u8)
    requires
        pending(*old(b)).len() + 1 <= isize::MAX,
    ensures
        pending(*final(b)) == pending(*old(b)).push(n),
{
    b.put_u8(n);
}

/// `BufMut::put_slice` on a `BytesMut`: the slice is appended.
#[verifier::external_body]
pub(crate) fn buf_put_slice(b: &mut BytesMut, data: &[u8])
    requires
        pending(*old(b)).len() + data@.len() <= isize::MAX,
    ensures
        pending(*final(b)) == pending(*old(b)) + data@,
{
    b.put_slice(data);
}

} // verus!
