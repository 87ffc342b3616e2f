//! The byte buffer that the codec reads from and writes to: `bytes::BytesMut`,
//! seen through the sequence of bytes it currently holds.

use vstd::prelude::*;
use bytes::Buf;
use bytes::BytesMut;

verus! {

/// `bytes::BytesMut`, taken as it is: nothing is known of a value but
/// what the functions below say.
#[verifier::external_type_specification]
#[verifier::external_body]
pub struct ExBytesMut(BytesMut);

/// The bytes that `buf` holds, front first.
pub uninterp spec fn buffered(buf: &BytesMut) -> Seq<u8>;

/// `BytesMut::as_ref`: the held bytes as one slice. Trusted: the slice is
/// exactly the content of the buffer.
#[verifier::external_body]
pub(crate) fn buffer_bytes(buf: &BytesMut) -> (r: &[u8])
    ensures
        r@ == buffered(buf),
{
    buf.as_ref()
}

/// `BytesMut::len`: the number of bytes held. Trusted: it is the length of
/// the content.
#[verifier::external_body]
pub(crate) fn buffer_len(buf: &BytesMut) -> (n: usize)
    ensures
        n == buffered(buf).len(),
{
    buf.len()
}

/// `Buf::advance` on a `BytesMut`: drops `cnt` bytes from the front. Trusted:
/// the rest of the content is kept as it is. The call panics when `cnt`
/// exceeds the number of held bytes, which the precondition rules out.
#[verifier::external_body]
pub(crate) fn buffer_advance(buf: &mut BytesMut, cnt: usize)
    requires
        cnt <= buffered(old(buf)).len(),
    ensures
        buffered(final(buf)) == buffered(old(buf)).skip(cnt as int),
{
    buf.advance(cnt)
}

/// `BytesMut::extend_from_slice`: appends `bytes` at the back, growing the
/// buffer as needed. Trusted: the earlier content stays in front of the new
/// bytes. Growing panics when the new length would not fit what can be
/// allocated, which the precondition rules out.
#[verifier::external_body]
pub(crate) fn buffer_extend(buf: &mut BytesMut, bytes: &[u8])
    requires
        buffered(old(buf)).len() + bytes@.len() <= isize::MAX,
    ensures
        buffered(final(buf)) == buffered(old(buf)) + bytes@,
{
    buf.extend_from_slice(bytes)
}

} // verus!
