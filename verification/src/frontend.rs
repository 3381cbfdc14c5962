//! The codec of the connection to a client: requests are read, responses
//! are written.

#![allow(deprecated)]

use vstd::prelude::*;
use vstd::utf8::encode_utf8;
use tokio_core::io::EasyBuf;
use crate::buffer::easybuf_bytes;
use crate::framed::Codec;
use crate::http::body::{BodyCodec, Chunked, ChunkedState, Framing, Length};
use crate::http::request::{
    decode as decode_head, decoded as decoded_head, head_len, Request, RequestView,
};
use crate::http::response::Response;
use crate::http::{
    body_frame, body_step, chunked_of, content_length_of, decode_body, encode_body, framing_view,
    Error, Frame, LineView,
};

verus! {

/// How the body of a request is framed: by the announced length where there
/// is one, else by the chunked coding where the head names it. A request
/// with neither has no body.
pub open spec fn request_framing(lines: Seq<LineView>) -> Option<Framing> {
    match content_length_of(lines) {
        Some(n) => Some(Framing::Length(n as nat, n as nat)),
        None => if chunked_of(lines) {
            Some(Framing::Chunked(ChunkedState::Header))
        } else {
            None
        },
    }
}

/// What became of a buffer that began with the head of a request.
pub struct Opening {
    /// The message with the body bytes that came with the head.
    pub message: RequestView,
    /// The framing of the body, as far as it was read, if the request has a
    /// body.
    pub framing: Option<Framing>,
    /// The bytes taken from the buffer.
    pub consumed: nat,
    /// The error that ended the call, if one did.
    pub error: Option<Error>,
}

/// What a call of the codec makes of a buffer that begins with the head
/// `head` of a request. Bytes behind the head of a request without a body
/// are an error.
pub open spec fn opening(head: RequestView, buf: Seq<u8>) -> Opening {
    let o = started(head, buf.skip(head.data.len() as int));
    Opening { consumed: head.data.len() + o.consumed, ..o }
}

/// What the codec makes of the bytes `rest` behind the head `head` of a
/// request: the body's decoder, chosen by the head, takes what it can, and
/// what it takes joins the data of the request. Bytes behind the head of a
/// request without a body are an error.
pub open spec fn started(head: RequestView, rest: Seq<u8>) -> Opening {
    match request_framing(head.headers) {
        Some(framing) => {
            let p = framing.run(rest);
            Opening {
                message: RequestView { data: head.data + rest.take(p.consumed as int), ..head },
                framing: Some(p.state),
                consumed: p.consumed,
                error: p.error,
            }
        },
        None => Opening {
            message: head,
            framing: None,
            consumed: 0,
            error: if rest.len() != 0 {
                Some(Error::UnframedBody)
            } else {
                None
            },
        },
    }
}

/// Whether a call of [`HttpCodec::begin`] with the request `head` and
/// `before` in the buffer may lead from the state `state` to `next`, leave
/// `after` in the buffer and hand back `r`.
pub open spec fn begins(
    head: RequestView,
    state: Option<Framing>,
    next: Option<Framing>,
    before: Seq<u8>,
    after: Seq<u8>,
    r: Result<Option<Frame<Request>>, Error>,
) -> bool {
    let o = started(head, before);
    &&& o.consumed <= before.len()
    &&& after == before.skip(o.consumed as int)
    &&& match o.error {
        Some(e) => r == Err::<Option<Frame<Request>>, Error>(e) && next == state,
        None => {
            &&& r matches Ok(Some(Frame::Message { message, body }))
            &&& message@ == o.message
            &&& body == body_follows(o)
            &&& next == if body_follows(o) {
                o.framing
            } else {
                state
            }
        },
    }
}

/// Whether body frames follow a request that was opened like this.
pub open spec fn body_follows(o: Opening) -> bool {
    o.framing matches Some(f) && f.unfinished()
}

/// The response that the proxy writes in place of an upstream error.
pub open spec fn bad_gateway() -> Seq<u8> {
    encode_utf8("HTTP/1.1 502 Bad Gateway\r\nContent-Length: 0\r\n\r\n"@)
}

/// Whether a call of [`HttpCodec::decode`] in the state `state`, with
/// `before` in the buffer, may come to the state `next`, leave `after` in the
/// buffer and hand back `r`.
pub open spec fn decodes(
    state: Option<Framing>,
    next: Option<Framing>,
    before: Seq<u8>,
    after: Seq<u8>,
    r: Result<Option<Frame<Request>>, Error>,
) -> bool {
    if before.len() == 0 {
        &&& r matches Ok(None)
        &&& next == state
        &&& after == before
    } else if state is Some {
        let step = body_step(state->0, before);
        &&& next == step.state
        &&& step.consumed <= before.len()
        &&& after == before.skip(step.consumed as int)
        &&& body_frame(state->0, before, r)
    } else {
        match decoded_head(before) {
            Err(e) => {
                &&& r == Err::<Option<Frame<Request>>, Error>(e)
                &&& next is None
                &&& after == before
            },
            Ok(None) => {
                &&& r matches Ok(None)
                &&& next is None
                &&& after == before
            },
            Ok(Some(head)) => {
                let o = opening(head, before);
                &&& o.consumed <= before.len()
                &&& after == before.skip(o.consumed as int)
                &&& match o.error {
                    Some(e) => {
                        &&& r == Err::<Option<Frame<Request>>, Error>(e)
                        &&& next is None
                    },
                    None => {
                        &&& r matches Ok(Some(Frame::Message { message, body }))
                        &&& message@ == o.message
                        &&& body == body_follows(o)
                        &&& next == if body_follows(o) {
                            o.framing
                        } else {
                            None
                        }
                    },
                }
            },
        }
    }
}

/// The codec of a client connection.
pub struct HttpCodec {
    body_codec: Option<BodyCodec>,
}

impl View for HttpCodec {
    type V = Option<Framing>;

    /// The framing of the body that is being read, if one is.
    closed spec fn view(&self) -> Option<Framing> {
        framing_view(self.body_codec)
    }
}

impl HttpCodec {
    /// A codec that expects the head of a request.
    pub fn new() -> (c: HttpCodec)
        ensures
            c@ is None,
    {
        HttpCodec { body_codec: None }
    }

    /// Reads the next frame from the front of `buf`.
    ///
    /// An empty buffer gives nothing. While a body is being read, the frame
    /// is the next piece of the body, or the end of the body once it has
    /// been read whole. Else the frame is a request: its head, together with
    /// as much of the body as the buffer holds; where the body goes on, the
    /// codec keeps the body's decoder for the calls to come.
    pub fn decode(&mut self, buf: &mut EasyBuf) -> (r: Result<Option<Frame<Request>>, Error>)
        ensures
            decodes(
                old(self)@,
                final(self)@,
                easybuf_bytes(*old(buf)),
                easybuf_bytes(*final(buf)),
                r,
            ),
    {
        let ghost before = easybuf_bytes(*buf);
        if buf.len() == 0 {
            return Ok(None);
        }
        if self.body_codec.is_some() {
            return decode_body(&mut self.body_codec, buf);
        }
        match decode_head(buf) {
            Err(e) => {
                assert(before.skip(0) =~= before);
                Err(e)
            },
            Ok(None) => {
                assert(before.skip(0) =~= before);
                Ok(None)
            },
            Ok(Some(request)) => {
                let ghost head = request@;
                let ghost rest = easybuf_bytes(*buf);
                assert(head.data.len() == head_len(before));
                let r = self.begin(request, buf);
                proof {
                    let o = started(head, rest);
                    assert(rest.skip(o.consumed as int) =~= before.skip(
                        (head.data.len() + o.consumed) as int,
                    ));
                }
                r
            },
        }
    }

    /// Takes on a request whose head was read, with the bytes behind the
    /// head in `buf`. The head chooses how the body is framed; the body bytes
    /// at hand join the data of the request; and where the body goes on, the
    /// codec keeps the body's decoder for the calls to come. A request whose
    /// head frames no body must have nothing behind it.
    pub fn begin(&mut self, request: Request, buf: &mut EasyBuf) -> (r: Result<
        Option<Frame<Request>>,
        Error,
    >)
        ensures
            begins(
                request@,
                old(self)@,
                final(self)@,
                easybuf_bytes(*old(buf)),
                easybuf_bytes(*final(buf)),
                r,
            ),
    {
        let mut request = request;
        let ghost head = request@;
        let ghost rest = easybuf_bytes(*buf);
        assert(rest.skip(0) =~= rest);
        let framed = match request.content_length() {
            Some(content_length) => Some(BodyCodec::Length(Length::new(content_length))),
            None => if request.transfer_encoding_chunked() {
                Some(BodyCodec::Chunked(Chunked::new()))
            } else {
                None
            },
        };
        assert(framing_view(framed) == request_framing(head.headers));
        match framed {
            None => {
                if buf.len() != 0 {
                    return Err(Error::UnframedBody);
                }
                Ok(Some(Frame::Message { message: request, body: false }))
            },
            Some(codec) => {
                let mut codec = codec;
                match codec.decode(buf) {
                    Err(e) => Err(e),
                    Ok(chunk) => {
                        match chunk {
                            None => {
                                assert(rest.take(0) =~= Seq::<u8>::empty());
                                assert(head.data + Seq::<u8>::empty() =~= head.data);
                            },
                            Some(chunk) => {
                                request.append_data(chunk.0.as_slice());
                            },
                        }
                        let body = codec.remaining();
                        if body {
                            self.body_codec = Some(codec);
                        }
                        Ok(Some(Frame::Message { message: request, body }))
                    },
                }
            },
        }
    }

    /// Writes a frame out: the bytes of a response or of a piece of its
    /// body are appended to `buf`. In place of an error frame the client
    /// gets `502 Bad Gateway` with an empty body.
    pub fn encode(&mut self, msg: Frame<Response>, buf: &mut Vec<u8>) -> (r: Result<(), Error>)
        ensures
            final(self)@ == old(self)@,
            r is Ok,
            final(buf)@ == old(buf)@ + encoding(msg),
    {
        match msg {
            Frame::Message { message, body: _ } => {
                crate::http::response::encode(message, buf);
            },
            Frame::Body { chunk } => {
                encode_body(chunk, buf);
            },
            Frame::Error { error: _ } => {
                let e = "HTTP/1.1 502 Bad Gateway\r\nContent-Length: 0\r\n\r\n";
                let mut bytes = vstd::slice::slice_to_vec(e.as_bytes());
                buf.append(&mut bytes);
            },
        }
        Ok(())
    }
}


/// What a call of [`HttpCodec::encode`] of `msg` appends to the bytes to
/// write.
pub open spec fn encoding(msg: Frame<Response>) -> Seq<u8> {
    match msg {
        Frame::Message { message, body } => message@.data,
        Frame::Body { chunk: Some(c) } => c.0@,
        Frame::Body { chunk: None } => Seq::<u8>::empty(),
        Frame::Error { error } => bad_gateway(),
    }
}

impl Codec for HttpCodec {
    type In = Frame<Request>;

    type Out = Frame<Response>;

    open spec fn decodes(
        before: Self,
        after: Self,
        buf: Seq<u8>,
        rest: Seq<u8>,
        r: Result<Option<Frame<Request>>, Error>,
    ) -> bool {
        decodes(before@, after@, buf, rest, r)
    }

    open spec fn encodes(
        before: Self,
        after: Self,
        msg: Frame<Response>,
        out: Seq<u8>,
        more: Seq<u8>,
        r: Result<(), Error>,
    ) -> bool {
        after@ == before@ && r is Ok && more == out + encoding(msg)
    }

    fn decode(&mut self, buf: &mut EasyBuf) -> (r: Result<Option<Frame<Request>>, Error>) {
        HttpCodec::decode(self, buf)
    }

    fn encode(&mut self, msg: Frame<Response>, buf: &mut Vec<u8>) -> (r: Result<(), Error>) {
        HttpCodec::encode(self, msg, buf)
    }
}

} // verus!
