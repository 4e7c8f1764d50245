//! The receive and send buffers of a connection are `bytes::BytesMut`
//! values owned by the transport layer. The codec reads and consumes them
//! through the small trusted interface below, whose contracts speak of
//! [`buf_bytes`], the readable contents of a buffer.

use vstd::prelude::*;

verus! {

#[verifier::external_type_specification]
#[verifier::external_body]
pub struct ExBytesMut(bytes::BytesMut);

/// The readable contents of a buffer, in order.
pub uninterp spec fn buf_bytes(b: bytes::BytesMut) -> Seq<u8>;

/// Relies on `BytesMut`'s deref to `[u8]`: the readable bytes, copied out
/// in order.
#[verifier::external_body]
pub(crate) fn buf_to_vec(b: &bytes::BytesMut) -> (v: Vec<u8>)
    ensures
        v@ == buf_bytes(*b),
{
    b.as_ref().to_vec()
}

/// Relies on `Buf::advance` for `BytesMut`: discards the first `cnt`
/// readable bytes. It panics past the readable end, hence the bound.
#[verifier::external_body]
pub(crate) fn buf_advance(b: &mut bytes::BytesMut, cnt: usize)
    requires
        cnt <= buf_bytes(*old(b)).len(),
    ensures
        buf_bytes(*final(b)) == buf_bytes(*old(b)).skip(cnt as int),
{
    bytes::Buf::advance(b, cnt);
}

/// Relies on `BytesMut::extend_from_slice`: appends the bytes after the
/// readable end. It panics when the needed capacity overflows `usize`,
/// hence the bound.
#[verifier::external_body]
pub(crate) fn buf_extend(b: &mut bytes::BytesMut, data: &[u8])
    requires
        buf_bytes(*old(b)).len() + data@.len() <= usize::MAX,
    ensures
        buf_bytes(*final(b)) == buf_bytes(*old(b)) + data@,
{
    b.extend_from_slice(data);
}

/// Relies on `BytesMut::reserve`: changes capacity only, never the
/// contents. It panics when the new capacity overflows `usize`, hence the
/// bound.
#[verifier::external_body]
pub(crate) fn buf_reserve(b: &mut bytes::BytesMut, additional: usize)
    requires
        buf_bytes(*old(b)).len() + additional <= usize::MAX,
    ensures
        buf_bytes(*final(b)) == buf_bytes(*old(b)),
{
    b.reserve(additional);
}

} // verus!
