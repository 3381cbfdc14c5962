//! The codec of the connection to an upstream server: responses are read,
//! requests are written.

#![allow(deprecated)]

use vstd::prelude::*;
use tokio_core::io::EasyBuf;
use crate::buffer::easybuf_bytes;
use crate::framed::Codec;
use crate::http::body::{BodyCodec, Chunked, ChunkedState, Framing, Length, UntilClose};
use crate::http::request::Request;
use crate::http::response::{
    decode as decode_head, decoded as decoded_head, head_len, Response, ResponseView,
};
use crate::http::{
    body_frame, body_step, chunked_of, content_length_of, decode_body, encode_body, framing_view,
    Error, Frame, LineView,
};

verus! {

/// How the body of a response is framed: by the announced length where
/// there is one, else by the chunked coding where the head names it, else by
/// the close of the connection.
pub open spec fn response_framing(lines: Seq<LineView>) -> Framing {
    match content_length_of(lines) {
        Some(n) => Framing::Length(n as nat, n as nat),
        None => if chunked_of(lines) {
            Framing::Chunked(ChunkedState::Header)
        } else {
            Framing::UntilClose(false)
        },
    }
}

/// What became of a buffer that began with the head of a response: the
/// head, the framing of the body after the first bytes of the body were
/// read, and how many bytes were taken in all.
pub struct Opening<M> {
    /// The message with the body bytes that came with the head.
    pub message: M,
    /// The framing of the body, as far as it was read.
    pub framing: Framing,
    /// The bytes taken from the buffer.
    pub consumed: nat,
    /// The error that the body decoder ran into, if it did.
    pub error: Option<Error>,
}

/// What a call of the codec makes of a buffer that begins with the head
/// `head` of a response.
pub open spec fn opening(head: ResponseView, buf: Seq<u8>) -> Opening<ResponseView> {
    let o = started(head, buf.skip(head.data.len() as int));
    Opening { consumed: head.data.len() + o.consumed, ..o }
}

/// What the codec makes of the bytes `rest` behind the head `head` of a
/// response: the body's decoder, chosen by the head, takes what it can, and
/// what it takes joins the data of the response.
pub open spec fn started(head: ResponseView, rest: Seq<u8>) -> Opening<ResponseView> {
    let p = response_framing(head.headers).run(rest);
    Opening {
        message: ResponseView { data: head.data + rest.take(p.consumed as int), ..head },
        framing: p.state,
        consumed: p.consumed,
        error: p.error,
    }
}

/// Whether a call of [`HttpCodec::begin`] with the response `head` and
/// `before` in the buffer may lead from the state `state` to `next`, leave
/// `after` in the buffer and hand back `r`.
pub open spec fn begins(
    head: ResponseView,
    state: Option<Framing>,
    next: Option<Framing>,
    before: Seq<u8>,
    after: Seq<u8>,
    r: Result<Option<Frame<Response>>, Error>,
) -> bool {
    let o = started(head, before);
    &&& o.consumed <= before.len()
    &&& after == before.skip(o.consumed as int)
    &&& match o.error {
        Some(e) => r == Err::<Option<Frame<Response>>, Error>(e) && next == state,
        None => {
            &&& r matches Ok(Some(Frame::Message { message, body }))
            &&& message@ == o.message
            &&& body == o.framing.unfinished()
            &&& next == if o.framing.unfinished() {
                Some(o.framing)
            } else {
                state
            }
        },
    }
}

/// Whether a call of [`HttpCodec::decode`] in the state `state`, with
/// `before` in the buffer, may come to the state `next`, leave `after` in the
/// buffer and hand back `r`.
pub open spec fn decodes(
    state: Option<Framing>,
    next: Option<Framing>,
    before: Seq<u8>,
    after: Seq<u8>,
    r: Result<Option<Frame<Response>>, Error>,
) -> bool {
    if before.len() == 0 {
        &&& r matches Ok(None)
        &&& next == state
        &&& after == before
    } else if state is Some {
        let step = body_step(state->0, before);
        &&& next == step.state
        &&& step.consumed <= before.len()
        &&& after == before.skip(step.consumed as int)
        &&& body_frame(state->0, before, r)
    } else {
        match decoded_head(before) {
            Err(e) => {
                &&& r == Err::<Option<Frame<Response>>, Error>(e)
                &&& next is None
                &&& after == before
            },
            Ok(None) => {
                &&& r matches Ok(None)
                &&& next is None
                &&& after == before
            },
            Ok(Some(head)) => {
                let o = opening(head, before);
                &&& o.consumed <= before.len()
                &&& after == before.skip(o.consumed as int)
                &&& match o.error {
                    Some(e) => {
                        &&& r == Err::<Option<Frame<Response>>, Error>(e)
                        &&& next is None
                    },
                    None => {
                        &&& r matches Ok(Some(Frame::Message { message, body }))
                        &&& message@ == o.message
                        &&& body == o.framing.unfinished()
                        &&& next == if o.framing.unfinished() {
                            Some(o.framing)
                        } else {
                            None
                        }
                    },
                }
            },
        }
    }
}

/// The codec of an upstream connection.
pub struct HttpCodec {
    body_codec: Option<BodyCodec>,
}

impl View for HttpCodec {
    type V = Option<Framing>;

    /// The framing of the body that is being read, if one is.
    closed spec fn view(&self) -> Option<Framing> {
        framing_view(self.body_codec)
    }
}

impl HttpCodec {
    /// A codec that expects the head of a response.
    pub fn new() -> (c: HttpCodec)
        ensures
            c@ is None,
    {
        HttpCodec { body_codec: None }
    }

    /// Reads the next frame from the front of `buf`.
    ///
    /// An empty buffer gives nothing. While a body is being read, the frame
    /// is the next piece of the body, or the end of the body once it has
    /// been read whole. Else the frame is a response: its head, together
    /// with as much of the body as the buffer holds; where the body goes on,
    /// the codec keeps the body's decoder for the calls to come.
    pub fn decode(&mut self, buf: &mut EasyBuf) -> (r: Result<Option<Frame<Response>>, Error>)
        ensures
            decodes(
                old(self)@,
                final(self)@,
                easybuf_bytes(*old(buf)),
                easybuf_bytes(*final(buf)),
                r,
            ),
    {
        let ghost before = easybuf_bytes(*buf);
        if buf.len() == 0 {
            return Ok(None);
        }
        if self.body_codec.is_some() {
            return decode_body(&mut self.body_codec, buf);
        }
        match decode_head(buf) {
            Err(e) => {
                assert(before.skip(0) =~= before);
                Err(e)
            },
            Ok(None) => {
                assert(before.skip(0) =~= before);
                Ok(None)
            },
            Ok(Some(response)) => {
                let ghost head = response@;
                let ghost rest = easybuf_bytes(*buf);
                assert(head.data.len() == head_len(before));
                let r = self.begin(response, buf);
                proof {
                    let o = started(head, rest);
                    assert(rest.skip(o.consumed as int) =~= before.skip(
                        (head.data.len() + o.consumed) as int,
                    ));
                }
                r
            },
        }
    }

    /// Takes on a response whose head was read, with the bytes behind the
    /// head in `buf`. The head chooses how the body is framed; the body bytes
    /// at hand join the data of the response; and where the body goes on, the
    /// codec keeps the body's decoder for the calls to come.
    pub fn begin(&mut self, response: Response, buf: &mut EasyBuf) -> (r: Result<
        Option<Frame<Response>>,
        Error,
    >)
        ensures
            begins(
                response@,
                old(self)@,
                final(self)@,
                easybuf_bytes(*old(buf)),
                easybuf_bytes(*final(buf)),
                r,
            ),
    {
        let mut response = response;
        let ghost head = response@;
        let ghost rest = easybuf_bytes(*buf);
        let mut codec = match response.content_length() {
            Some(content_length) => BodyCodec::Length(Length::new(content_length)),
            None => if response.transfer_encoding_chunked() {
                BodyCodec::Chunked(Chunked::new())
            } else {
                BodyCodec::UntilClose(UntilClose::new())
            },
        };
        assert(codec@ == response_framing(head.headers));
        match codec.decode(buf) {
            Err(e) => Err(e),
            Ok(chunk) => {
                match chunk {
                    None => {
                        assert(rest.take(0) =~= Seq::<u8>::empty());
                        assert(head.data + Seq::<u8>::empty() =~= head.data);
                    },
                    Some(chunk) => {
                        response.append_data(chunk.0.as_slice());
                    },
                }
                let body = codec.remaining();
                if body {
                    self.body_codec = Some(codec);
                }
                Ok(Some(Frame::Message { message: response, body }))
            },
        }
    }

    /// Writes a frame out: the bytes of a request or of a piece of its body
    /// are appended to `buf`; an error frame is handed back as the error.
    pub fn encode(&mut self, msg: Frame<Request>, buf: &mut Vec<u8>) -> (r: Result<(), Error>)
        ensures
            final(self)@ == old(self)@,
            encodes(msg, old(buf)@, final(buf)@, r),
    {
        match msg {
            Frame::Message { message, body: _ } => {
                crate::http::request::encode(message, buf);
                Ok(())
            },
            Frame::Body { chunk } => {
                encode_body(chunk, buf);
                Ok(())
            },
            Frame::Error { error } => Err(error),
        }
    }
}


/// Whether a call of [`HttpCodec::encode`] of `msg`, with `out` to be
/// written already, may leave `more` to be written and hand back `r`.
pub open spec fn encodes(msg: Frame<Request>, out: Seq<u8>, more: Seq<u8>, r: Result<(), Error>) -> bool {
    match msg {
        Frame::Message { message, body } => r is Ok && more == out + message@.data,
        Frame::Body { chunk: Some(c) } => r is Ok && more == out + c.0@,
        Frame::Body { chunk: None } => r is Ok && more == out,
        Frame::Error { error } => r == Err::<(), Error>(error) && more == out,
    }
}

impl Codec for HttpCodec {
    type In = Frame<Response>;

    type Out = Frame<Request>;

    open spec fn decodes(
        before: Self,
        after: Self,
        buf: Seq<u8>,
        rest: Seq<u8>,
        r: Result<Option<Frame<Response>>, Error>,
    ) -> bool {
        decodes(before@, after@, buf, rest, r)
    }

    open spec fn encodes(
        before: Self,
        after: Self,
        msg: Frame<Request>,
        out: Seq<u8>,
        more: Seq<u8>,
        r: Result<(), Error>,
    ) -> bool {
        after@ == before@ && encodes(msg, out, more, r)
    }

    fn decode(&mut self, buf: &mut EasyBuf) -> (r: Result<Option<Frame<Response>>, Error>) {
        HttpCodec::decode(self, buf)
    }

    fn encode(&mut self, msg: Frame<Request>, buf: &mut Vec<u8>) -> (r: Result<(), Error>) {
        HttpCodec::encode(self, msg, buf)
    }
}

} // verus!
