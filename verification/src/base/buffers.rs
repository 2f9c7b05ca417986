//! Byte buffers of the `bytes` crate and what their methods do to the contents.
use byteorder::ByteOrder;
use bytes::Bytes;
use bytes::BytesMut;
use vstd::bytes::*;
use vstd::prelude::*;

verus! {

/// A growable byte buffer, `bytes::BytesMut`.
#[verifier::external_type_specification]
#[verifier::external_body]
pub struct ExBytesMut(BytesMut);

/// A cheaply shared, immutable run of bytes, `bytes::Bytes`.
#[verifier::external_type_specification]
#[verifier::external_body]
pub struct ExBytes(Bytes);

/// The bytes that a buffer holds.
pub uninterp spec fn buffer_bytes(b: BytesMut) -> Seq<u8>;

/// The bytes that a shared run holds.
pub uninterp spec fn shared_bytes(b: Bytes) -> Seq<u8>;

/// `BytesMut::len`: the number of bytes held.
#[verifier::external_body]
pub(crate) fn buffer_len(b: &BytesMut) -> (r: usize)
    ensures
        r == buffer_bytes(*b).len(),
{
    b.len()
}

/// `BytesMut` as a slice, by its `AsRef<[u8]>`: the bytes held, in order.
#[verifier::external_body]
pub(crate) fn buffer_as_slice(b: &BytesMut) -> (r: &[u8])
    ensures
        r@ == buffer_bytes(*b),
{
    b.as_ref()
}

/// Assignment to one byte through `BytesMut`'s `AsMut<[u8]>`: that byte changes, the
/// others and the length stay.
#[verifier::external_body]
pub(crate) fn buffer_set(b: &mut BytesMut, at: usize, value: u8)
    requires
        at < buffer_bytes(*old(b)).len(),
    ensures
        buffer_bytes(*final(b)) == buffer_bytes(*old(b)).update(at as int, value),
{
    b.as_mut()[at] = value;
}

/// `BytesMut::truncate`: keeps the first `len` bytes, or all where there are fewer.
#[verifier::external_body]
pub(crate) fn buffer_truncate(b: &mut BytesMut, len: usize)
    ensures
        buffer_bytes(*final(b)) == if len <= buffer_bytes(*old(b)).len() {
            buffer_bytes(*old(b)).take(len as int)
        } else {
            buffer_bytes(*old(b))
        },
{
    b.truncate(len)
}

/// `BytesMut::clear`: the buffer is empty afterwards.
#[verifier::external_body]
pub(crate) fn buffer_clear(b: &mut BytesMut)
    ensures
        buffer_bytes(*final(b)) == Seq::<u8>::empty(),
{
    b.clear()
}

/// `BytesMut::extend_from_slice`: appends the bytes of `tail`.  What comes out must
/// stay within what one allocation may hold; a slice does, so an empty buffer takes any.
#[verifier::external_body]
pub(crate) fn buffer_extend(b: &mut BytesMut, tail: &[u8])
    requires
        buffer_bytes(*old(b)).len() == 0 || buffer_bytes(*old(b)).len() + tail@.len() <= isize::MAX,
    ensures
        buffer_bytes(*final(b)) == buffer_bytes(*old(b)) + tail@,
{
    b.extend_from_slice(tail)
}

/// `BytesMut::zeroed`: a buffer of `len` zero bytes.
#[verifier::external_body]
pub(crate) fn buffer_zeroed(len: usize) -> (r: BytesMut)
    requires
        len <= isize::MAX,
    ensures
        buffer_bytes(r) == Seq::new(len as nat, |i: int| 0u8),
{
    BytesMut::zeroed(len)
}

/// `BytesMut::new`: an empty buffer.
#[verifier::external_body]
pub(crate) fn buffer_new() -> (r: BytesMut)
    ensures
        buffer_bytes(r) == Seq::<u8>::empty(),
{
    BytesMut::new()
}

/// `BytesMut::from(&[u8])`: a buffer with a copy of the bytes of `s`.
#[verifier::external_body]
pub(crate) fn buffer_from(s: &[u8]) -> (r: BytesMut)
    ensures
        buffer_bytes(r) == s@,
{
    BytesMut::from(s)
}

/// `BytesMut::freeze`: the same bytes as a shared run.
#[verifier::external_body]
pub(crate) fn buffer_freeze(b: BytesMut) -> (r: Bytes)
    ensures
        shared_bytes(r) == buffer_bytes(b),
{
    b.freeze()
}

/// `Bytes` as a slice, by its `AsRef<[u8]>`: the bytes held, in order.
#[verifier::external_body]
pub(crate) fn shared_as_slice(b: &Bytes) -> (r: &[u8])
    ensures
        r@ == shared_bytes(*b),
{
    b.as_ref()
}

/// `Bytes::copy_from_slice`: a shared run with a copy of the bytes of `s`.
#[verifier::external_body]
pub(crate) fn shared_copy(s: &[u8]) -> (r: Bytes)
    ensures
        shared_bytes(r) == s@,
{
    Bytes::copy_from_slice(s)
}

/// `Bytes::clone`: another handle on the same bytes.
#[verifier::external_body]
pub(crate) fn shared_clone(b: &Bytes) -> (r: Bytes)
    ensures
        shared_bytes(r) == shared_bytes(*b),
{
    b.clone()
}

/// `byteorder::LittleEndian::read_u32` on the four bytes of the buffer that start at
/// `at`: the number whose least significant byte comes first.
#[verifier::external_body]
pub(crate) fn buffer_read_u32_le(b: &BytesMut, at: usize) -> (r: u32)
    requires
        at + 4 <= buffer_bytes(*b).len(),
    ensures
        r == spec_u32_from_le_bytes(buffer_bytes(*b).subrange(at as int, at + 4)),
{
    byteorder::LittleEndian::read_u32(&b[at..at + 4])
}

/// `byteorder::LittleEndian::write_u32` on the four bytes of the buffer that start at
/// `at`: they become the bytes of `value`, least significant first.
#[verifier::external_body]
pub(crate) fn buffer_write_u32_le(b: &mut BytesMut, at: usize, value: u32)
    requires
        at + 4 <= buffer_bytes(*old(b)).len(),
    ensures
        buffer_bytes(*final(b)) == buffer_bytes(*old(b)).take(at as int) + spec_u32_to_le_bytes(
            value,
        ) + buffer_bytes(*old(b)).skip(at + 4),
{
    byteorder::LittleEndian::write_u32(&mut b[at..at + 4], value)
}

} // verus!
