//! The byte buffers of the `bytes` crate that HID reports are written into.
use vstd::prelude::*;

use bytes::{BufMut, Bytes, BytesMut};

verus! {

#[verifier::external_type_specification]
#[verifier::external_body]
pub struct ExBytesMut(BytesMut);

#[verifier::external_type_specification]
#[verifier::external_body]
pub struct ExBytes(Bytes);

/// The bytes a `BytesMut` holds.
pub uninterp spec fn buffer_contents(b: BytesMut) -> Seq<u8>;

/// The bytes a `Bytes` holds.
pub uninterp spec fn bytes_contents(b: Bytes) -> Seq<u8>;

/// Relies on `BytesMut::with_capacity`: the new buffer holds no bytes. It
/// allocates through `Vec::with_capacity`, which panics past `isize::MAX` bytes.
#[verifier::external_body]
pub(crate) fn buffer_with_capacity(capacity: usize) -> (r: BytesMut)
    requires
        capacity <= isize::MAX,
    ensures
        buffer_contents(r) == Seq::<u8>::empty(),
{
    BytesMut::with_capacity(capacity)
}

/// Relies on `<BytesMut as BufMut>::put_u8`: appends the byte. It goes
/// through `BytesMut::extend_from_slice`, whose `reserve` panics only when the
/// new length overflows, and whose allocation only past `isize::MAX` bytes.
#[verifier::external_body]
pub(crate) fn buffer_put_u8(buf: &mut BytesMut, n: u8)
    requires
        buffer_contents(*old(buf)).len() + 1 <= isize::MAX,
    ensures
        buffer_contents(*final(buf)) == buffer_contents(*old(buf)).push(n),
{
    buf.put_u8(n)
}

/// Relies on `<BytesMut as BufMut>::put_slice`: appends the bytes of `src`
/// in order, through `BytesMut::extend_from_slice` as `put_u8` does.
#[verifier::external_body]
pub(crate) fn buffer_put_slice(buf: &mut BytesMut, src: &[u8])
    requires
        buffer_contents(*old(buf)).len() + src@.len() <= isize::MAX,
    ensures
        buffer_contents(*final(buf)) == buffer_contents(*old(buf)) + src@,
{
    buf.put_slice(src)
}

/// Relies on `BytesMut::freeze`: the frozen `Bytes` holds the same bytes.
#[verifier::external_body]
pub(crate) fn buffer_freeze(buf: BytesMut) -> (r: Bytes)
    ensures
        bytes_contents(r) == buffer_contents(buf),
{
    buf.freeze()
}

} // verus!
