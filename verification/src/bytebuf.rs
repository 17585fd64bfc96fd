//! Byte buffers of the `bytes` crate, seen as sequences of bytes, and the
//! little-endian layout of the 32-bit integers that the frames carry.

use bytes::{Buf, BufMut, Bytes, BytesMut};
use vstd::prelude::*;

verus! {

/// The four bytes of `v` in two's complement, least significant byte first.
pub open spec fn le32(v: i32) -> Seq<u8> {
    let u: int = if v < 0 {
        v + 0x1_0000_0000
    } else {
        v as int
    };
    seq![
        (u % 256) as u8,
        ((u / 0x100) % 256) as u8,
        ((u / 0x1_0000) % 256) as u8,
        ((u / 0x100_0000) % 256) as u8,
    ]
}

/// The integer whose two's complement bytes, least significant first, are the
/// first four bytes of `b`.
pub open spec fn from_le32(b: Seq<u8>) -> i32
    recommends
        b.len() >= 4,
{
    let u: int = b[0] + 0x100 * b[1] + 0x1_0000 * b[2] + 0x100_0000 * b[3];
    if u >= 0x8000_0000 {
        (u - 0x1_0000_0000) as i32
    } else {
        u as i32
    }
}

/// Reading back what `le32` laid out gives the integer again, whatever bytes
/// follow.
pub proof fn lemma_le32_round_trip(v: i32, rest: Seq<u8>)
    ensures
        le32(v).len() == 4,
        from_le32(le32(v) + rest) == v,
        (le32(v) + rest).skip(4) == rest,
        (le32(v) + rest).take(4) == le32(v),
{
    let b = le32(v) + rest;
    assert(b[0] == le32(v)[0]);
    assert(b[1] == le32(v)[1]);
    assert(b[2] == le32(v)[2]);
    assert(b[3] == le32(v)[3]);
    assert(b.skip(4) =~= rest);
    assert(b.take(4) =~= le32(v));
}

#[verifier::external_type_specification]
#[verifier::external_body]
pub struct ExBytesMut(BytesMut);

#[verifier::external_type_specification]
#[verifier::external_body]
pub struct ExBytes(Bytes);

/// The bytes written to a growable buffer so far, oldest first.
pub uninterp spec fn written(buf: BytesMut) -> Seq<u8>;

/// The bytes of a read buffer that have not been consumed yet, next first.
pub uninterp spec fn unread(buf: Bytes) -> Seq<u8>;

/// `BytesMut::new`: a buffer that holds no bytes.
#[verifier::external_body]
pub(crate) fn out_new() -> (buf: BytesMut)
    ensures
        written(buf) == Seq::<u8>::empty(),
{
    BytesMut::new()
}

/// `BufMut::put_u8` on a `BytesMut`, which grows as needed: appends the byte.
#[verifier::external_body]
pub(crate) fn out_put_u8(buf: &mut BytesMut, v: u8)
    ensures
        written(*final(buf)) == written(*old(buf)).push(v),
{
    buf.put_u8(v)
}

/// `BufMut::put_i32_le` on a `BytesMut`: appends the four little-endian bytes
/// of `v`.
#[verifier::external_body]
pub(crate) fn out_put_i32_le(buf: &mut BytesMut, v: i32)
    ensures
        written(*final(buf)) == written(*old(buf)) + le32(v),
{
    buf.put_i32_le(v)
}

/// `BufMut::put_slice` on a `BytesMut`: appends the bytes of `src` in order.
#[verifier::external_body]
pub(crate) fn out_put_slice(buf: &mut BytesMut, src: &[u8])
    ensures
        written(*final(buf)) == written(*old(buf)) + src@,
{
    buf.put_slice(src)
}

/// `to_vec` on the slice that a `BytesMut` dereferences to: a copy of the
/// bytes written.
#[verifier::external_body]
pub(crate) fn out_to_vec(buf: &BytesMut) -> (v: Vec<u8>)
    ensures
        v@ == written(*buf),
{
    buf.to_vec()
}

/// `Bytes::from` on a vector: a read buffer over the vector's bytes.
#[verifier::external_body]
pub(crate) fn in_from_vec(data: Vec<u8>) -> (buf: Bytes)
    ensures
        unread(buf) == data@,
{
    Bytes::from(data)
}

/// `Buf::remaining` on a `Bytes`: how many bytes are left to read.
#[verifier::external_body]
pub(crate) fn in_remaining(buf: &Bytes) -> (n: usize)
    ensures
        n == unread(*buf).len(),
{
    buf.remaining()
}

/// `Buf::get_u8` on a `Bytes`: hands out the next byte and moves past it. It
/// panics on an empty buffer, which the precondition leaves out.
#[verifier::external_body]
pub(crate) fn in_get_u8(buf: &mut Bytes) -> (v: u8)
    requires
        unread(*old(buf)).len() >= 1,
    ensures
        v == unread(*old(buf))[0],
        unread(*final(buf)) == unread(*old(buf)).skip(1),
{
    buf.get_u8()
}

/// `Buf::get_i32_le` on a `Bytes`: reads the next four bytes as a
/// little-endian integer and moves past them. It panics on fewer than four
/// bytes, which the precondition leaves out.
#[verifier::external_body]
pub(crate) fn in_get_i32_le(buf: &mut Bytes) -> (v: i32)
    requires
        unread(*old(buf)).len() >= 4,
    ensures
        v == from_le32(unread(*old(buf))),
        unread(*final(buf)) == unread(*old(buf)).skip(4),
{
    buf.get_i32_le()
}

/// `Bytes::split_to`: hands out the first `at` bytes and keeps the rest. It
/// panics where `at` is past the end, which the precondition leaves out.
#[verifier::external_body]
pub(crate) fn in_split_to(buf: &mut Bytes, at: usize) -> (head: Bytes)
    requires
        at <= unread(*old(buf)).len(),
    ensures
        unread(head) == unread(*old(buf)).take(at as int),
        unread(*final(buf)) == unread(*old(buf)).skip(at as int),
{
    buf.split_to(at)
}

/// `to_vec` on the slice that a `Bytes` dereferences to: a copy of the bytes
/// left to read.
#[verifier::external_body]
pub(crate) fn in_to_vec(buf: &Bytes) -> (v: Vec<u8>)
    ensures
        v@ == unread(*buf),
{
    buf.to_vec()
}

} // verus!
