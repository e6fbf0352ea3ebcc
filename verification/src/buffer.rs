//! The byte buffer that frames are written to and read from.
//!
//! `bytes::BytesMut` is opaque to the verifier. Its contents are named by
//! [`buf_view`], and the operations the codec needs are stated over that
//! name. Nothing in this file is proved: it is what the codec's proofs rest on.

use bytes::BytesMut;
use vstd::prelude::*;

verus! {

/// Makes `bytes::BytesMut` known to the verifier, as a type it cannot look
/// into.
#[verifier::external_type_specification]
#[verifier::external_body]
pub struct ExBytesMut(bytes::BytesMut);

/// The bytes that a buffer holds, first to last.
pub uninterp spec fn buf_view(b: BytesMut) -> Seq<u8>;

/// The most bytes a buffer may hold after an append.
///
/// To make room, `BytesMut::reserve` asks the allocator for less than four
/// times the length that the buffer is about to have, or for the 64 KiB at
/// most that the buffer was made with, and it panics where the allocator is
/// asked for more than `isize::MAX` bytes.
pub open spec fn buf_limit() -> int {
    isize::MAX / 4
}

/// The number of bytes in the buffer: `BytesMut::len`.
///
/// Trusted: it is the length of what `buf_view` names.
#[verifier::external_body]
pub(crate) fn buf_len(b: &BytesMut) -> (n: usize)
    ensures
        n == buf_view(*b).len(),
{
    b.len()
}

/// The buffer's contents as a slice: `<BytesMut as AsRef<[u8]>>::as_ref`.
///
/// Trusted: the slice holds exactly the bytes that `buf_view` names.
#[verifier::external_body]
pub(crate) fn buf_as_slice(b: &BytesMut) -> (s: &[u8])
    ensures
        s@ == buf_view(*b),
{
    b.as_ref()
}

/// Appends `src` to the buffer: `BytesMut::extend_from_slice`, which grows the
/// buffer where its capacity is short.
///
/// Trusted: afterwards the buffer holds its old bytes followed by `src`. The
/// precondition leaves out the lengths on which growing may panic.
#[verifier::external_body]
pub(crate) fn buf_extend(b: &mut BytesMut, src: &[u8])
    requires
        buf_view(*old(b)).len() + src@.len() <= buf_limit(),
    ensures
        buf_view(*final(b)) == buf_view(*old(b)) + src@,
{
    b.extend_from_slice(src)
}

} // verus!
