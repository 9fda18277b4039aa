//! The growable octet buffer of the `bytes` crate, as the codec uses it:
//! the type, a name for the octets it holds, and a contract for each of
//! its operations that the codec calls. Nothing here is proved; each
//! contract restates what the crate documents.
//!
//! The operations that add octets grow the buffer as `Vec::push` grows a
//! vector, and like it they are taken to succeed: a buffer of more than
//! `isize::MAX` octets, where they would panic, does not fit in memory.

use vstd::prelude::*;
use bytes::{Buf, BufMut, BytesMut};
use crate::wire::{be_u128, be_u16, be_u32, be_u64, u128_from_be, u16_from_be, u32_from_be, u64_from_be};

verus! {

/// The growable buffer, `bytes::BytesMut`. What it holds is known through
/// `held` alone.
#[verifier::external_type_specification]
#[verifier::external_body]
pub struct ExBytesMut(bytes::BytesMut);

/// The octets that a buffer holds, from the first that a read would take
/// to the last that was written.
pub uninterp spec fn held(buffer: BytesMut) -> Seq<u8>;

/// `BytesMut::new`: a buffer that holds nothing.
#[verifier::external_body]
pub(crate) fn buffer_new() -> (buffer: BytesMut)
    ensures
        held(buffer) == Seq::<u8>::empty(),
{
    BytesMut::new()
}

/// `BytesMut::with_capacity`: a buffer that holds nothing, with room set
/// aside for `capacity` octets. It panics where that is more than an
/// allocation can have, which `requires` leaves out.
#[verifier::external_body]
pub(crate) fn buffer_with_capacity(capacity: usize) -> (buffer: BytesMut)
    requires
        capacity <= isize::MAX,
    ensures
        held(buffer) == Seq::<u8>::empty(),
{
    BytesMut::with_capacity(capacity)
}

/// `BytesMut::from` a slice: a buffer that holds a copy of the slice.
#[verifier::external_body]
pub(crate) fn buffer_from_slice(data: &[u8]) -> (buffer: BytesMut)
    ensures
        held(buffer) == data@,
{
    BytesMut::from(data)
}

/// `BytesMut::len`, which is also `Buf::remaining`: the number of octets
/// held.
#[verifier::external_body]
pub(crate) fn buffer_len(buffer: &BytesMut) -> (len: usize)
    ensures
        len == held(*buffer).len(),
{
    buffer.len()
}

/// `BytesMut::capacity`: the number of octets the buffer can hold before
/// it allocates again. How many that is lies with the allocator; what
/// holds of every buffer is that it has room for what it holds.
#[verifier::external_body]
pub(crate) fn buffer_capacity(buffer: &BytesMut) -> (capacity: usize)
    ensures
        capacity >= held(*buffer).len(),
{
    buffer.capacity()
}

/// The buffer's octets as a vector, through its `Deref` to a slice: a copy
/// of what is held.
#[verifier::external_body]
pub(crate) fn buffer_to_vec(buffer: &BytesMut) -> (data: Vec<u8>)
    ensures
        data@ == held(*buffer),
{
    buffer.to_vec()
}

/// The octet at `index` of what the buffer holds, through its `Deref` to
/// a slice and the slice's index. Indexing panics beyond the length, which
/// `requires` leaves out.
#[verifier::external_body]
pub(crate) fn octet_at(buffer: &BytesMut, index: usize) -> (octet: u8)
    requires
        index < held(*buffer).len(),
    ensures
        octet == held(*buffer)[index as int],
{
    buffer[index]
}

/// `BufMut::put_u8`: adds one octet at the end.
#[verifier::external_body]
pub(crate) fn put_u8(buffer: &mut BytesMut, n: u8)
    ensures
        held(*final(buffer)) == held(*old(buffer)).push(n),
{
    buffer.put_u8(n)
}

/// `BufMut::put_u16`: adds `n` at the end in big-endian order.
#[verifier::external_body]
pub(crate) fn put_u16(buffer: &mut BytesMut, n: u16)
    ensures
        held(*final(buffer)) == held(*old(buffer)) + be_u16(n),
{
    buffer.put_u16(n)
}

/// `BufMut::put_u32`: adds `n` at the end in big-endian order.
#[verifier::external_body]
pub(crate) fn put_u32(buffer: &mut BytesMut, n: u32)
    ensures
        held(*final(buffer)) == held(*old(buffer)) + be_u32(n),
{
    buffer.put_u32(n)
}

/// `BufMut::put_u64`: adds `n` at the end in big-endian order.
#[verifier::external_body]
pub(crate) fn put_u64(buffer: &mut BytesMut, n: u64)
    ensures
        held(*final(buffer)) == held(*old(buffer)) + be_u64(n),
{
    buffer.put_u64(n)
}

/// `BufMut::put_u128`: adds `n` at the end in big-endian order.
#[verifier::external_body]
pub(crate) fn put_u128(buffer: &mut BytesMut, n: u128)
    ensures
        held(*final(buffer)) == held(*old(buffer)) + be_u128(n),
{
    buffer.put_u128(n)
}

/// `BytesMut::extend_from_slice`: adds the octets of `data` at the end.
#[verifier::external_body]
pub(crate) fn put_slice(buffer: &mut BytesMut, data: &[u8])
    ensures
        held(*final(buffer)) == held(*old(buffer)) + data@,
{
    buffer.extend_from_slice(data)
}

/// `Buf::get_u8`: takes the first octet. It panics on an empty buffer,
/// which `requires` leaves out.
#[verifier::external_body]
pub(crate) fn get_u8(buffer: &mut BytesMut) -> (n: u8)
    requires
        held(*old(buffer)).len() >= 1,
    ensures
        n == held(*old(buffer))[0],
        held(*final(buffer)) == held(*old(buffer)).skip(1),
{
    buffer.get_u8()
}

/// `Buf::get_u16`: takes the first two octets as a big-endian number. It
/// panics where fewer are held, which `requires` leaves out.
#[verifier::external_body]
pub(crate) fn get_u16(buffer: &mut BytesMut) -> (n: u16)
    requires
        held(*old(buffer)).len() >= 2,
    ensures
        n == u16_from_be(held(*old(buffer))),
        held(*final(buffer)) == held(*old(buffer)).skip(2),
{
    buffer.get_u16()
}

/// `Buf::get_u32`: takes the first four octets as a big-endian number. It
/// panics where fewer are held, which `requires` leaves out.
#[verifier::external_body]
pub(crate) fn get_u32(buffer: &mut BytesMut) -> (n: u32)
    requires
        held(*old(buffer)).len() >= 4,
    ensures
        n == u32_from_be(held(*old(buffer))),
        held(*final(buffer)) == held(*old(buffer)).skip(4),
{
    buffer.get_u32()
}

/// `Buf::get_u64`: takes the first eight octets as a big-endian number.
/// It panics where fewer are held, which `requires` leaves out.
#[verifier::external_body]
pub(crate) fn get_u64(buffer: &mut BytesMut) -> (n: u64)
    requires
        held(*old(buffer)).len() >= 8,
    ensures
        n == u64_from_be(held(*old(buffer))),
        held(*final(buffer)) == held(*old(buffer)).skip(8),
{
    buffer.get_u64()
}

/// `Buf::get_u128`: takes the first sixteen octets as a big-endian
/// number. It panics where fewer are held, which `requires` leaves out.
#[verifier::external_body]
pub(crate) fn get_u128(buffer: &mut BytesMut) -> (n: u128)
    requires
        held(*old(buffer)).len() >= 16,
    ensures
        n == u128_from_be(held(*old(buffer))),
        held(*final(buffer)) == held(*old(buffer)).skip(16),
{
    buffer.get_u128()
}

/// `Buf::copy_to_bytes`, its result copied into a vector: takes the first
/// `len` octets. It panics where fewer are held, which `requires` leaves
/// out.
#[verifier::external_body]
pub(crate) fn take_octets(buffer: &mut BytesMut, len: usize) -> (data: Vec<u8>)
    requires
        held(*old(buffer)).len() >= len,
    ensures
        data@ == held(*old(buffer)).subrange(0, len as int),
        held(*final(buffer)) == held(*old(buffer)).skip(len as int),
{
    buffer.copy_to_bytes(len).to_vec()
}

} // verus!
