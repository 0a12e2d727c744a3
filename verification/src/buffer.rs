//! The byte buffer of the `bytes` crate, as the codec sees it: a sequence of
//! bytes that grows at the back and is consumed from the front.
//!
//! Every function here is believed, not proved: each states of one function
//! of `bytes` (or `byteorder`, or std) what its documentation says. Running
//! out of memory is not modelled.

use vstd::prelude::*;
use vstd::utf8::*;

use crate::wire::{be_bytes, be_signed, be_unsigned};

verus! {

#[verifier::external_type_specification]
#[verifier::external_body]
pub struct ExBytesMut(bytes::BytesMut);

/// The bytes that a buffer holds, front first.
pub uninterp spec fn buffered(b: &bytes::BytesMut) -> Seq<u8>;

/// `BytesMut::new`: a buffer that holds nothing.
#[verifier::external_body]
pub(crate) fn buf_new() -> (r: bytes::BytesMut)
    ensures
        buffered(&r) == Seq::<u8>::empty(),
{
    bytes::BytesMut::new()
}

/// `BytesMut::len`: the number of bytes held.
#[verifier::external_body]
pub(crate) fn buf_len(buf: &bytes::BytesMut) -> (n: usize)
    ensures
        n == buffered(buf).len(),
{
    buf.len()
}

/// `Buf::remaining` on a `BytesMut`: the number of bytes left to read,
/// which is all that it holds.
#[verifier::external_body]
pub(crate) fn buf_remaining(buf: &bytes::BytesMut) -> (n: usize)
    ensures
        n == buffered(buf).len(),
{
    bytes::Buf::remaining(buf)
}

/// `BytesMut::reserve`: makes room; the bytes held stay as they are.
#[verifier::external_body]
pub(crate) fn buf_reserve(buf: &mut bytes::BytesMut, additional: usize)
    ensures
        buffered(final(buf)) == buffered(old(buf)),
{
    buf.reserve(additional)
}

/// `BufMut::put_u8`: appends one byte.
#[verifier::external_body]
pub(crate) fn buf_put_u8(buf: &mut bytes::BytesMut, n: u8)
    ensures
        buffered(final(buf)) == buffered(old(buf)).push(n),
{
    bytes::BufMut::put_u8(buf, n)
}

/// `BufMut::put_i8`: appends the byte of a signed 8-bit integer.
#[verifier::external_body]
pub(crate) fn buf_put_i8(buf: &mut bytes::BytesMut, n: i8)
    ensures
        buffered(final(buf)) == buffered(old(buf)) + be_bytes(n as int, 1),
{
    bytes::BufMut::put_i8(buf, n)
}

/// `BufMut::put_i16`: appends a signed 16-bit integer in big-endian order.
#[verifier::external_body]
pub(crate) fn buf_put_i16(buf: &mut bytes::BytesMut, n: i16)
    ensures
        buffered(final(buf)) == buffered(old(buf)) + be_bytes(n as int, 2),
{
    bytes::BufMut::put_i16(buf, n)
}

/// `BufMut::put_i32`: appends a signed 32-bit integer in big-endian order.
#[verifier::external_body]
pub(crate) fn buf_put_i32(buf: &mut bytes::BytesMut, n: i32)
    ensures
        buffered(final(buf)) == buffered(old(buf)) + be_bytes(n as int, 4),
{
    bytes::BufMut::put_i32(buf, n)
}

/// `BufMut::put_i64`: appends a signed 64-bit integer in big-endian order.
#[verifier::external_body]
pub(crate) fn buf_put_i64(buf: &mut bytes::BytesMut, n: i64)
    ensures
        buffered(final(buf)) == buffered(old(buf)) + be_bytes(n as int, 8),
{
    bytes::BufMut::put_i64(buf, n)
}

/// `BufMut::put_u32`: appends an unsigned 32-bit integer in big-endian
/// order.
#[verifier::external_body]
pub(crate) fn buf_put_u32(buf: &mut bytes::BytesMut, n: u32)
    ensures
        buffered(final(buf)) == buffered(old(buf)) + be_bytes(n as int, 4),
{
    bytes::BufMut::put_u32(buf, n)
}

/// `BufMut::put_u64`: appends an unsigned 64-bit integer in big-endian
/// order.
#[verifier::external_body]
pub(crate) fn buf_put_u64(buf: &mut bytes::BytesMut, n: u64)
    ensures
        buffered(final(buf)) == buffered(old(buf)) + be_bytes(n as int, 8),
{
    bytes::BufMut::put_u64(buf, n)
}

/// `BufMut::put_slice`: appends the bytes of a slice.
#[verifier::external_body]
pub(crate) fn buf_put_slice(buf: &mut bytes::BytesMut, src: &[u8])
    ensures
        buffered(final(buf)) == buffered(old(buf)) + src@,
{
    bytes::BufMut::put_slice(buf, src)
}

/// `Buf::get_u8`: takes one byte from the front. It panics on an empty
/// buffer, which `requires` rules out.
#[verifier::external_body]
pub(crate) fn buf_get_u8(buf: &mut bytes::BytesMut) -> (r: u8)
    requires
        buffered(old(buf)).len() >= 1,
    ensures
        r == buffered(old(buf))[0],
        buffered(final(buf)) == buffered(old(buf)).skip(1),
{
    bytes::Buf::get_u8(buf)
}

/// `Buf::get_i8`: takes a signed 8-bit integer from the front. It panics
/// on an empty buffer, which `requires` rules out.
#[verifier::external_body]
pub(crate) fn buf_get_i8(buf: &mut bytes::BytesMut) -> (r: i8)
    requires
        buffered(old(buf)).len() >= 1,
    ensures
        r == be_signed(buffered(old(buf)).subrange(0, 1)),
        buffered(final(buf)) == buffered(old(buf)).skip(1),
{
    bytes::Buf::get_i8(buf)
}

/// `Buf::get_i16`: takes a big-endian signed 16-bit integer from the
/// front. It panics on fewer than two bytes, which `requires` rules out.
#[verifier::external_body]
pub(crate) fn buf_get_i16(buf: &mut bytes::BytesMut) -> (r: i16)
    requires
        buffered(old(buf)).len() >= 2,
    ensures
        r == be_signed(buffered(old(buf)).subrange(0, 2)),
        buffered(final(buf)) == buffered(old(buf)).skip(2),
{
    bytes::Buf::get_i16(buf)
}

/// `Buf::get_i32`: takes a big-endian signed 32-bit integer from the
/// front. It panics on fewer than four bytes, which `requires` rules out.
#[verifier::external_body]
pub(crate) fn buf_get_i32(buf: &mut bytes::BytesMut) -> (r: i32)
    requires
        buffered(old(buf)).len() >= 4,
    ensures
        r == be_signed(buffered(old(buf)).subrange(0, 4)),
        buffered(final(buf)) == buffered(old(buf)).skip(4),
{
    bytes::Buf::get_i32(buf)
}

/// `Buf::get_i64`: takes a big-endian signed 64-bit integer from the
/// front. It panics on fewer than eight bytes, which `requires` rules out.
#[verifier::external_body]
pub(crate) fn buf_get_i64(buf: &mut bytes::BytesMut) -> (r: i64)
    requires
        buffered(old(buf)).len() >= 8,
    ensures
        r == be_signed(buffered(old(buf)).subrange(0, 8)),
        buffered(final(buf)) == buffered(old(buf)).skip(8),
{
    bytes::Buf::get_i64(buf)
}

/// `Buf::get_u64`: takes a big-endian unsigned 64-bit integer from the
/// front. It panics on fewer than eight bytes, which `requires` rules out.
#[verifier::external_body]
pub(crate) fn buf_get_u64(buf: &mut bytes::BytesMut) -> (r: u64)
    requires
        buffered(old(buf)).len() >= 8,
    ensures
        r == be_unsigned(buffered(old(buf)).subrange(0, 8)),
        buffered(final(buf)) == buffered(old(buf)).skip(8),
{
    bytes::Buf::get_u64(buf)
}

/// `Buf::copy_to_slice`, into a fresh vector of `n` bytes: takes `n`
/// bytes from the front. It panics where fewer are left, which `requires`
/// rules out.
#[verifier::external_body]
pub(crate) fn buf_copy_to_vec(buf: &mut bytes::BytesMut, n: usize) -> (r: Vec<u8>)
    requires
        buffered(old(buf)).len() >= n,
    ensures
        r@ == buffered(old(buf)).subrange(0, n as int),
        buffered(final(buf)) == buffered(old(buf)).skip(n as int),
{
    let mut out = vec![0u8; n];
    bytes::Buf::copy_to_slice(buf, &mut out);
    out
}

/// `BytesMut::split_to`: hands out the first `at` bytes as a buffer of
/// their own and keeps the rest. It panics where `at` exceeds the length,
/// which `requires` rules out.
#[verifier::external_body]
pub(crate) fn buf_split_to(buf: &mut bytes::BytesMut, at: usize) -> (r: bytes::BytesMut)
    requires
        buffered(old(buf)).len() >= at,
    ensures
        buffered(&r) == buffered(old(buf)).subrange(0, at as int),
        buffered(final(buf)) == buffered(old(buf)).skip(at as int),
{
    buf.split_to(at)
}

/// Indexing a `BytesMut` as a slice: the byte at position `i`. It panics
/// past the end, which `requires` rules out.
#[verifier::external_body]
pub(crate) fn buf_byte_at(buf: &bytes::BytesMut, i: usize) -> (r: u8)
    requires
        i < buffered(buf).len(),
    ensures
        r == buffered(buf)[i as int],
{
    buf[i]
}

/// `BufMut::put_u32` on the four bytes `from..to` of a `BytesMut`, taken
/// as a mutable slice: overwrites them with a big-endian unsigned 32-bit
/// integer. Slicing panics past the end, which `requires` rules out.
#[verifier::external_body]
pub(crate) fn buf_set_u32(buf: &mut bytes::BytesMut, from: usize, to: usize, n: u32)
    requires
        to == from + 4,
        to <= buffered(old(buf)).len(),
    ensures
        buffered(final(buf)) == buffered(old(buf)).subrange(0, from as int) + be_bytes(n as int, 4)
            + buffered(old(buf)).skip(to as int),
{
    let mut window = &mut buf[from..to];
    bytes::BufMut::put_u32(&mut window, n)
}

/// `byteorder::BigEndian::read_i32`: the signed 32-bit integer that the
/// first four bytes of a slice spell in big-endian order. It panics on a
/// shorter slice, which `requires` rules out.
#[verifier::external_body]
pub(crate) fn be_read_i32(src: &[u8]) -> (r: i32)
    requires
        src@.len() >= 4,
    ensures
        r == be_signed(src@.subrange(0, 4)),
{
    <byteorder::BigEndian as byteorder::ByteOrder>::read_i32(src)
}

/// `String::from_utf8`: the string that the bytes spell, where they are
/// valid UTF-8, and no string where they are not.
#[verifier::external_body]
pub(crate) fn string_from_utf8(bytes: Vec<u8>) -> (r: Option<String>)
    ensures
        r is Some <==> valid_utf8(bytes@),
        r matches Some(s) ==> s@ == decode_utf8(bytes@),
{
    match String::from_utf8(bytes) {
        Ok(s) => Some(s),
        Err(_) => None,
    }
}

} // verus!
