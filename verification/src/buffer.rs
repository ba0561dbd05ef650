//! The byte buffer that the codecs read from and write to.
//!
//! The buffer is `bytes::BytesMut`. Nothing inside it is visible to the
//! verifier, so this module states, without proof, what the handful of
//! `BytesMut` operations used by the codecs do to the bytes it holds.

use bytes::BytesMut;
use vstd::prelude::*;

verus! {

/// `bytes::BytesMut`, carried through verified code as an opaque value.
#[verifier::external_type_specification]
#[verifier::external_body]
pub struct ExBytesMut(BytesMut);

/// The bytes held by a buffer, front first.
pub uninterp spec fn buffered(buf: &BytesMut) -> Seq<u8>;

/// `BytesMut::len`: the number of bytes held.
pub assume_specification[ BytesMut::len ](buf: &BytesMut) -> (n: usize)
    ensures
        n == buffered(buf).len(),
;

/// `BytesMut::split_to`: the first `at` bytes leave the buffer and are
/// returned as a buffer of their own; the others stay, in order. The outside
/// function panics when `at` exceeds the length, which `requires` rules out.
pub assume_specification[ BytesMut::split_to ](buf: &mut BytesMut, at: usize) -> (head: BytesMut)
    requires
        at <= buffered(old(buf)).len(),
    ensures
        buffered(&head) == buffered(old(buf)).subrange(0, at as int),
        buffered(final(buf)) == buffered(old(buf)).subrange(at as int, buffered(old(buf)).len() as int),
;

/// `BytesMut::extend_from_slice`: the given bytes are appended, growing the
/// buffer as needed.
pub assume_specification[ BytesMut::extend_from_slice ](buf: &mut BytesMut, extend: &[u8])
    ensures
        buffered(final(buf)) == buffered(old(buf)) + extend@,
;

/// `AsRef<[u8]>::as_ref` on a `BytesMut`: the held bytes as a slice.
#[verifier::external_body]
pub(crate) fn contents(buf: &BytesMut) -> (bytes: &[u8])
    ensures
        bytes@ == buffered(buf),
{
    buf.as_ref()
}

} // verus!
