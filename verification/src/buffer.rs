//! What the library asks of the byte buffers that it reads from:
//! `tokio-core`'s `EasyBuf` and `bytes`' `BytesMut`.

#![allow(deprecated)]

use vstd::prelude::*;
use tokio_core::io::EasyBuf;

verus! {

/// `tokio_core::io::EasyBuf`: a buffer of bytes. Nothing is known of a
/// buffer but what the items below say.
#[verifier::external_type_specification]
#[verifier::external_body]
pub struct ExEasyBuf(EasyBuf);

/// The bytes that a buffer holds, first to last.
pub uninterp spec fn easybuf_bytes(buf: EasyBuf) -> Seq<u8>;

/// `EasyBuf::new`: a buffer without bytes.
pub assume_specification[ EasyBuf::new ]() -> (buf: EasyBuf)
    ensures
        easybuf_bytes(buf) == Seq::<u8>::empty(),
;

/// `EasyBuf::len`: the number of bytes in the buffer.
pub assume_specification[ EasyBuf::len ](buf: &EasyBuf) -> (n: usize)
    ensures
        n == easybuf_bytes(*buf).len(),
;

/// `EasyBuf::as_slice`: the bytes of the buffer.
pub assume_specification<'a>[ EasyBuf::as_slice ](buf: &'a EasyBuf) -> (bytes: &'a [u8])
    ensures
        bytes@ == easybuf_bytes(*buf),
;

/// `EasyBuf::drain_to`: splits the buffer at `at`. The first `at` bytes are
/// handed back, the buffer keeps the rest. It panics where `at` is beyond the
/// end, which `requires` leaves out.
pub assume_specification[ EasyBuf::drain_to ](buf: &mut EasyBuf, at: usize) -> (front: EasyBuf)
    requires
        at <= easybuf_bytes(*old(buf)).len(),
    ensures
        easybuf_bytes(front) == easybuf_bytes(*old(buf)).take(at as int),
        easybuf_bytes(*final(buf)) == easybuf_bytes(*old(buf)).skip(at as int),
;

/// Appends `data` to the buffer through `EasyBuf::get_mut`, which gives the
/// buffer's bytes as a `Vec<u8>` to write to.
#[verifier::external_body]
pub(crate) fn extend(buf: &mut EasyBuf, data: &[u8])
    ensures
        easybuf_bytes(*final(buf)) == easybuf_bytes(*old(buf)) + data@,
{
    buf.get_mut().extend_from_slice(data);
}

/// Takes the first `at` bytes out of the buffer and hands them back.
pub(crate) fn take_front(buf: &mut EasyBuf, at: usize) -> (front: Vec<u8>)
    requires
        at <= easybuf_bytes(*old(buf)).len(),
    ensures
        front@ == easybuf_bytes(*old(buf)).take(at as int),
        easybuf_bytes(*final(buf)) == easybuf_bytes(*old(buf)).skip(at as int),
{
    let front = buf.drain_to(at);
    vstd::slice::slice_to_vec(front.as_slice())
}

/// `bytes::BytesMut`: a buffer of bytes. Nothing is known of a buffer but
/// what the items below say.
#[verifier::external_type_specification]
#[verifier::external_body]
pub struct ExBytesMut(bytes::BytesMut);

/// The bytes that a buffer holds, first to last.
pub uninterp spec fn bytes_mut_bytes(buf: bytes::BytesMut) -> Seq<u8>;

/// `BytesMut::len`: the number of bytes in the buffer.
pub assume_specification[ bytes::BytesMut::len ](buf: &bytes::BytesMut) -> (n: usize)
    ensures
        n == bytes_mut_bytes(*buf).len(),
;

/// `AsRef<[u8]>` for `BytesMut`: the bytes of the buffer.
pub assume_specification<'a>[ <bytes::BytesMut as core::convert::AsRef<[u8]>>::as_ref ](
    buf: &'a bytes::BytesMut,
) -> (bytes: &'a [u8])
    ensures
        bytes@ == bytes_mut_bytes(*buf),
;

/// `BytesMut::split_to`: splits the buffer at `at`. The first `at` bytes
/// are handed back, the buffer keeps the rest. It panics where `at` is
/// beyond the end, which `requires` leaves out.
pub assume_specification[ bytes::BytesMut::split_to ](buf: &mut bytes::BytesMut, at: usize) -> (front:
    bytes::BytesMut)
    requires
        at <= bytes_mut_bytes(*old(buf)).len(),
    ensures
        bytes_mut_bytes(front) == bytes_mut_bytes(*old(buf)).take(at as int),
        bytes_mut_bytes(*final(buf)) == bytes_mut_bytes(*old(buf)).skip(at as int),
;

/// The bytes of the buffer, to read.
pub(crate) fn peek(buf: &bytes::BytesMut) -> (bytes: &[u8])
    ensures
        bytes@ == bytes_mut_bytes(*buf),
{
    <bytes::BytesMut as core::convert::AsRef<[u8]>>::as_ref(buf)
}

/// Takes the first `at` bytes out of the buffer and hands them back.
pub(crate) fn split_front(buf: &mut bytes::BytesMut, at: usize) -> (front: Vec<u8>)
    requires
        at <= bytes_mut_bytes(*old(buf)).len(),
    ensures
        front@ == bytes_mut_bytes(*old(buf)).take(at as int),
        bytes_mut_bytes(*final(buf)) == bytes_mut_bytes(*old(buf)).skip(at as int),
{
    let front = buf.split_to(at);
    vstd::slice::slice_to_vec(front.as_ref())
}

/// `String::from_utf8_lossy` of std, for bytes that are all ASCII: the text
/// has one character for each byte, the one with the byte's code.
#[verifier::external_body]
pub(crate) fn ascii_text(bytes: &[u8]) -> (text: String)
    requires
        forall|i: int| 0 <= i < bytes@.len() ==> bytes@[i] < 128,
    ensures
        text@ == bytes@.map_values(|b: u8| b as char),
{
    String::from_utf8_lossy(bytes).into_owned()
}

} // verus!
