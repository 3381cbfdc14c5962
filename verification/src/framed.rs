//! A framed transport: a byte stream on one side, frames on the other.
//!
//! The transport itself, the reading and the writing, stays with the caller.
//! Kept here are the buffers, the codec, and the rules by which bytes that
//! were read become frames and frames become bytes to write.

#![allow(deprecated)]

use vstd::prelude::*;
use tokio_core::io::EasyBuf;
use crate::buffer::{easybuf_bytes, extend};
use crate::http::Error;

verus! {

/// Encoding and decoding of frames via buffers.
pub trait Codec: Sized {
    /// The type of decoded frames.
    type In;

    /// The type of frames to be encoded.
    type Out;

    /// Whether a call of `decode` on the codec `before`, with `buf` in the
    /// buffer, may leave the codec as `after`, `rest` in the buffer, and hand
    /// back `r`.
    spec fn decodes(
        before: Self,
        after: Self,
        buf: Seq<u8>,
        rest: Seq<u8>,
        r: Result<Option<Self::In>, Error>,
    ) -> bool;

    /// Whether a call of `encode` of `msg` on the codec `before`, with `out`
    /// to be written already, may leave the codec as `after`, `more` to be
    /// written, and hand back `r`.
    spec fn encodes(
        before: Self,
        after: Self,
        msg: Self::Out,
        out: Seq<u8>,
        more: Seq<u8>,
        r: Result<(), Error>,
    ) -> bool;

    /// Attempts to decode a frame from the front of the buffer. `Ok(None)`
    /// says that more bytes are needed.
    fn decode(&mut self, buf: &mut EasyBuf) -> (r: Result<Option<Self::In>, Error>)
        ensures
            Self::decodes(
                *old(self),
                *final(self),
                easybuf_bytes(*old(buf)),
                easybuf_bytes(*final(buf)),
                r,
            ),
    ;

    /// Encodes a frame into the bytes to write.
    fn encode(&mut self, msg: Self::Out, buf: &mut Vec<u8>) -> (r: Result<(), Error>)
        ensures
            Self::encodes(*old(self), *final(self), msg, old(buf)@, final(buf)@, r),
    ;
}

/// From this many bytes on that wait to be written, a frame is only taken
/// on after a flush.
pub const HIGH_WATER: usize = 8192;

/// What a framed transport stands for in contracts.
pub struct FramedView<T, C> {
    /// The transport.
    pub upstream: T,
    /// The codec.
    pub codec: C,
    /// Whether the stream has ended.
    pub eof: bool,
    /// Whether the read buffer may hold a frame.
    pub is_readable: bool,
    /// The bytes that were read and not decoded yet.
    pub rd: Seq<u8>,
    /// The bytes that were encoded and not written yet.
    pub wr: Seq<u8>,
}

/// A unified interface to an underlying transport, using a codec to encode
/// and decode frames.
pub struct Framed<T, C> {
    upstream: T,
    codec: C,
    eof: bool,
    is_readable: bool,
    rd: EasyBuf,
    wr: Vec<u8>,
}

impl<T, C> View for Framed<T, C> {
    type V = FramedView<T, C>;

    closed spec fn view(&self) -> FramedView<T, C> {
        FramedView {
            upstream: self.upstream,
            codec: self.codec,
            eof: self.eof,
            is_readable: self.is_readable,
            rd: easybuf_bytes(self.rd),
            wr: self.wr@,
        }
    }
}

/// A framed transport over `io` with the codec `codec`, with nothing read
/// and nothing to write.
pub fn framed<T, C>(io: T, codec: C) -> (f: Framed<T, C>)
    ensures
        f@ == (FramedView {
            upstream: io,
            codec,
            eof: false,
            is_readable: false,
            rd: Seq::empty(),
            wr: Seq::empty(),
        }),
{
    Framed {
        upstream: io,
        codec: codec,
        eof: false,
        is_readable: false,
        rd: EasyBuf::new(),
        wr: Vec::new(),
    }
}

impl<T, C> Framed<T, C> {
    /// Returns a reference to the underlying transport.
    pub fn get_ref(&self) -> (io: &T)
        ensures
            *io == self@.upstream,
    {
        &self.upstream
    }

    /// Returns a mutable reference to the underlying transport.
    pub fn get_mut(&mut self) -> (io: &mut T)
        ensures
            *io == old(self)@.upstream,
            final(self)@ == (FramedView { upstream: *final(io), ..old(self)@ }),
    {
        &mut self.upstream
    }

    /// Consumes the `Framed`, returning its underlying transport.
    pub fn into_inner(self) -> (io: T)
        ensures
            io == self@.upstream,
    {
        self.upstream
    }

    /// The bytes that wait to be written, first to last.
    pub fn pending(&self) -> (bytes: &[u8])
        ensures
            bytes@ == self@.wr,
    {
        self.wr.as_slice()
    }

    /// Takes in what a read from the transport has brought: `bytes`, and with
    /// `end` the news that the stream has ended. Says whether there is
    /// something to decode now; where there is not, nothing is ready yet.
    pub fn fill(&mut self, bytes: &[u8], end: bool) -> (readable: bool)
        ensures
            final(self)@ == (FramedView {
                rd: old(self)@.rd + bytes@,
                eof: old(self)@.eof || end,
                is_readable: old(self)@.is_readable || end || bytes@.len() > 0,
                ..old(self)@
            }),
            readable == final(self)@.is_readable,
    {
        extend(&mut self.rd, bytes);
        if end {
            self.eof = true;
            self.is_readable = true;
        } else if bytes.len() > 0 {
            self.is_readable = true;
        }
        self.is_readable
    }

    /// Takes note that the transport took the first `n` of the bytes that
    /// wait to be written. A transport that takes none is broken.
    pub fn wrote(&mut self, n: usize) -> (r: Result<(), Error>)
        requires
            n <= old(self)@.wr.len(),
        ensures
            n == 0 ==> r == Err::<(), Error>(Error::WriteZero) && final(self)@ == old(self)@,
            n > 0 ==> r is Ok && final(self)@ == (FramedView {
                wr: old(self)@.wr.skip(n as int),
                ..old(self)@
            }),
    {
        if n == 0 {
            return Err(Error::WriteZero);
        }
        let rest = self.wr.split_off(n);
        self.wr = rest;
        Ok(())
    }
}

/// What a poll of a framed transport for the next frame comes to.
pub enum Polled<I> {
    /// A frame, or with `None` the end of the stream.
    Ready(Option<I>),
    /// Nothing to decode: read from the transport and `fill`.
    Read,
    /// The stream is broken.
    Failed(Error),
}

/// What an attempt to send a frame comes to.
pub enum Sent<O> {
    /// The frame was encoded and waits to be written.
    Ready,
    /// Too much waits to be written: flush, then send the frame again.
    Flush(O),
    /// Too much waits to be written even after a flush: the frame is not
    /// taken on now.
    NotReady(O),
    /// The frame could not be encoded.
    Failed(Error),
}

impl<T, C: Codec> Framed<T, C> {
    /// A stream that has ended is readable: its last bytes are still to be
    /// decoded.
    pub open spec fn wf(&self) -> bool {
        self@.eof ==> self@.is_readable
    }

    /// Whether `r` is what a poll makes of the result `d` of a call of
    /// `decode`, before or after the end of the stream.
    pub open spec fn frames(eof: bool, d: Result<Option<C::In>, Error>, r: Polled<C::In>) -> bool {
        match d {
            Ok(Some(frame)) => r matches Polled::Ready(Some(f)) && f == frame,
            Ok(None) => if eof {
                r matches Polled::Failed(e) && e == Error::BytesRemaining
            } else {
                r is Read
            },
            Err(error) => r matches Polled::Failed(e) && e == error,
        }
    }

    /// Whether a poll that called `decode` and got `d` may lead from
    /// `before` to `after` and hand back `r`.
    pub open spec fn decoded(
        before: FramedView<T, C>,
        after: FramedView<T, C>,
        d: Result<Option<C::In>, Error>,
        r: Polled<C::In>,
    ) -> bool {
        &&& C::decodes(before.codec, after.codec, before.rd, after.rd, d)
        &&& Self::frames(before.eof, d, r)
        &&& after.is_readable == (before.eof || !(d matches Ok(None)))
    }

    /// Whether a send that called `encode` and got `e` may lead from
    /// `before` to `after` and hand back `r`.
    pub open spec fn encoded(
        before: FramedView<T, C>,
        after: FramedView<T, C>,
        item: C::Out,
        e: Result<(), Error>,
        r: Sent<C::Out>,
    ) -> bool {
        &&& C::encodes(before.codec, after.codec, item, before.wr, after.wr, e)
        &&& match e {
            Ok(_) => r is Ready,
            Err(error) => r matches Sent::Failed(f) && f == error,
        }
    }

    /// Polls for the next frame.
    ///
    /// With nothing to decode the answer is to read. At the end of the
    /// stream an empty buffer is the end of the frames, and bytes that are
    /// left must make a frame. Else the codec decodes: a frame is handed on;
    /// without one, the buffer holds nothing to decode until more is read.
    pub fn poll(&mut self) -> (r: Polled<C::In>)
        ensures
            final(self)@.upstream == old(self)@.upstream,
            final(self)@.eof == old(self)@.eof,
            final(self)@.wr == old(self)@.wr,
            !old(self)@.is_readable ==> r is Read && final(self)@ == old(self)@,
            old(self)@.is_readable && old(self)@.eof && old(self)@.rd.len() == 0 ==> (r
                matches Polled::Ready(None)) && final(self)@ == old(self)@,
            old(self)@.is_readable && !(old(self)@.eof && old(self)@.rd.len() == 0) ==> exists|
                d: Result<Option<C::In>, Error>,
            | #[trigger] Self::decoded(old(self)@, final(self)@, d, r),
    {
        let ghost before = self@;
        if !self.is_readable {
            return Polled::Read;
        }
        if self.eof {
            if self.rd.len() == 0 {
                return Polled::Ready(None);
            }
            let d = self.codec.decode(&mut self.rd);
            let ghost d_was = d;
            let r = match d {
                Ok(Some(frame)) => Polled::Ready(Some(frame)),
                Ok(None) => Polled::Failed(Error::BytesRemaining),
                Err(e) => Polled::Failed(e),
            };
            assert(Self::decoded(before, self@, d_was, r));
            return r;
        }
        let d = self.codec.decode(&mut self.rd);
        let ghost d_was = d;
        let r = match d {
            Ok(Some(frame)) => Polled::Ready(Some(frame)),
            Ok(None) => {
                self.is_readable = false;
                Polled::Read
            },
            Err(e) => Polled::Failed(e),
        };
        assert(Self::decoded(before, self@, d_was, r));
        r
    }

    /// Takes a frame on for sending. With more than [`HIGH_WATER`] bytes
    /// waiting to be written the frame is handed back: to flush first, or,
    /// after a flush that did not help, for another time. Else the codec
    /// encodes the frame behind the bytes that wait.
    pub fn start_send(&mut self, item: C::Out, flushed: bool) -> (r: Sent<C::Out>)
        ensures
            final(self)@.upstream == old(self)@.upstream,
            final(self)@.eof == old(self)@.eof,
            final(self)@.is_readable == old(self)@.is_readable,
            final(self)@.rd == old(self)@.rd,
            old(self)@.wr.len() > HIGH_WATER ==> final(self)@ == old(self)@ && (if flushed {
                r matches Sent::NotReady(back) && back == item
            } else {
                r matches Sent::Flush(back) && back == item
            }),
            old(self)@.wr.len() <= HIGH_WATER ==> exists|e: Result<(), Error>| #[trigger]
                Self::encoded(old(self)@, final(self)@, item, e, r),
    {
        let ghost before = self@;
        if self.wr.len() > HIGH_WATER {
            return if flushed {
                Sent::NotReady(item)
            } else {
                Sent::Flush(item)
            };
        }
        let e = self.codec.encode(item, &mut self.wr);
        let ghost e_was = e;
        let r = match e {
            Ok(_) => Sent::Ready,
            Err(e) => Sent::Failed(e),
        };
        assert(Self::encoded(before, self@, item, e_was, r));
        r
    }
}

} // verus!
