//! The outside calls the codec makes: the growable byte buffer of the `bytes`
//! crate, and UTF-8 validation from the standard library.

use vstd::prelude::*;
use vstd::utf8::*;
use bytes::BufMut;
use bytes::Buf;
use bytes::BytesMut;

verus! {

#[verifier::external_type_specification]
#[verifier::external_body]
pub struct ExBytesMut(bytes::BytesMut);

/// The bytes a `BytesMut` currently holds, first to last.
pub uninterp spec fn buf_bytes(b: BytesMut) -> Seq<u8>;

/// Relies on `BytesMut::deref`: the slice of exactly the bytes the buffer holds.
#[verifier::external_body]
pub(crate) fn buf_slice(b: &BytesMut) -> (r: &[u8])
    ensures
        r@ == buf_bytes(*b),
{
    &b[..]
}

/// Relies on `BufMut::put_u8` for `BytesMut`: appends one byte (it panics only
/// when the new length would overflow).
#[verifier::external_body]
pub(crate) fn buf_put_u8(b: &mut BytesMut, v: u8)
    requires
        buf_bytes(*old(b)).len() + 1 <= isize::MAX,
    ensures
        buf_bytes(*final(b)) == buf_bytes(*old(b)).push(v),
{
    b.put_u8(v)
}

/// Relies on `BytesMut::extend_from_slice`: appends the slice's bytes in order
/// (it panics only when the new length would overflow).
#[verifier::external_body]
pub(crate) fn buf_extend(b: &mut BytesMut, s: &[u8])
    requires
        buf_bytes(*old(b)).len() + s@.len() <= isize::MAX,
    ensures
        buf_bytes(*final(b)) == buf_bytes(*old(b)) + s@,
{
    b.extend_from_slice(s)
}

/// Relies on `Buf::advance` for `BytesMut`: drops the first `n` bytes (it
/// panics when fewer than `n` are held).
#[verifier::external_body]
pub(crate) fn buf_advance(b: &mut BytesMut, n: usize)
    requires
        n <= buf_bytes(*old(b)).len(),
    ensures
        buf_bytes(*final(b)) == buf_bytes(*old(b)).skip(n as int),
{
    b.advance(n)
}

/// Relies on `std::str::from_utf8`: it accepts exactly the well-formed UTF-8
/// byte sequences, and the text it returns is made of those very bytes.
#[verifier::external_body]
pub(crate) fn text_from_utf8(b: &[u8]) -> (r: Option<String>)
    ensures
        r is Some <==> valid_utf8(b@),
        r matches Some(s) ==> encode_utf8(s@) == b@,
{
    match std::str::from_utf8(b) {
        Ok(s) => Some(String::from(s)),
        Err(_) => None,
    }
}

} // verus!
