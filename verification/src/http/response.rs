//! The head of a response.

#![allow(deprecated)]

use vstd::prelude::*;
use tokio_core::io::EasyBuf;
use crate::buffer::{easybuf_bytes, extend};
use crate::http::{content_length_of, chunked_of, line_views, Error, HeaderLine, Headers, LineView};

verus! {

/// The most headers that a head may have.
pub const MAX_HEADERS: usize = 16;

/// What a buffer holds where a message head is expected.
pub enum Parsed<T> {
    /// A whole head.
    Complete(T),
    /// The start of a head.
    Partial,
    /// No head.
    Invalid,
}

/// The head of a response in plain values.
pub struct ResponseHead {
    /// The status code.
    pub status: u16,
    /// The header lines, in order.
    pub headers: Vec<HeaderLine>,
    /// The length of the head in bytes, the closing empty line included.
    pub len: usize,
}

/// What a [`ResponseHead`] stands for in contracts.
pub struct ResponseHeadView {
    /// The status code.
    pub status: u16,
    /// The header lines, in order.
    pub headers: Seq<LineView>,
    /// The length of the head in bytes.
    pub len: usize,
}

impl View for ResponseHead {
    type V = ResponseHeadView;

    open spec fn view(&self) -> ResponseHeadView {
        ResponseHeadView { status: self.status, headers: line_views(self.headers@), len: self.len }
    }
}

/// What a parsed response head stands for in contracts.
pub open spec fn parsed_response(p: Parsed<ResponseHead>) -> Parsed<ResponseHeadView> {
    match p {
        Parsed::Complete(h) => Parsed::Complete(h@),
        Parsed::Partial => Parsed::Partial,
        Parsed::Invalid => Parsed::Invalid,
    }
}

/// How `httparse::Response::parse` reads a buffer when it has room for
/// `max_headers` headers.
pub uninterp spec fn response_head(buf: Seq<u8>, max_headers: usize) -> Parsed<ResponseHeadView>;

/// Reads the head of a response with `httparse::Response::parse`, with room
/// for `max_headers` headers, and copies out the status code and the
/// headers. A complete head ends inside the buffer: the parser counts the
/// bytes that it has read.
#[verifier::external_body]
pub(crate) fn read_response_head(buf: &[u8], max_headers: usize) -> (p: Parsed<ResponseHead>)
    ensures
        parsed_response(p) == response_head(buf@, max_headers),
        p matches Parsed::Complete(h) ==> h.len <= buf@.len(),
{
    let mut headers = vec![httparse::EMPTY_HEADER; max_headers];
    let mut r = httparse::Response::new(&mut headers);
    let len = match r.parse(buf) {
        Ok(httparse::Status::Complete(len)) => len,
        Ok(httparse::Status::Partial) => return Parsed::Partial,
        Err(_) => return Parsed::Invalid,
    };
    let lines = r.headers.iter().map(
        |h| HeaderLine { name: h.name.as_bytes().to_vec(), value: h.value.to_vec() },
    );
    Parsed::Complete(ResponseHead { status: r.code.unwrap(), headers: lines.collect(), len })
}

/// What a [`Response`] stands for in contracts.
pub struct ResponseView {
    /// The status code.
    pub status_code: u16,
    /// The header lines, in order.
    pub headers: Seq<LineView>,
    /// The bytes of the message as they were read: the head, and behind it
    /// the body bytes that came with it.
    pub data: Seq<u8>,
}

/// A response as it was read from an upstream.
pub struct Response {
    status_code: u16,
    headers: Vec<HeaderLine>,
    data: EasyBuf,
}

impl View for Response {
    type V = ResponseView;

    closed spec fn view(&self) -> ResponseView {
        ResponseView {
            status_code: self.status_code,
            headers: line_views(self.headers@),
            data: easybuf_bytes(self.data),
        }
    }
}

impl Response {
    /// The status code.
    pub fn status_code(&self) -> (code: u16)
        ensures
            code == self@.status_code,
    {
        self.status_code
    }

    /// The announced length of the body.
    pub fn content_length(&self) -> (r: Option<usize>)
        ensures
            r == content_length_of(self@.headers),
    {
        self.headers().content_length()
    }

    /// Whether the head announces the chunked coding.
    pub fn transfer_encoding_chunked(&self) -> (r: bool)
        ensures
            r == chunked_of(self@.headers),
    {
        self.headers().transfer_encoding_chunked()
    }

    /// Appends body bytes to the message.
    pub fn append_data(&mut self, buf: &[u8])
        ensures
            final(self)@ == (ResponseView { data: old(self)@.data + buf@, ..old(self)@ }),
    {
        extend(&mut self.data, buf);
    }

    /// The bytes of the message.
    pub fn data(&self) -> (bytes: &[u8])
        ensures
            bytes@ == self@.data,
    {
        self.data.as_slice()
    }

    fn headers(&self) -> (h: Headers<'_>)
        ensures
            h.lines() == self@.headers,
    {
        Headers::new(&self.headers)
    }
}

/// What [`decode`] makes of a buffer: nothing yet of a head that is not all
/// there, an error for what is no head, else the response, with the bytes of
/// the head as its data.
pub open spec fn decoded(buf: Seq<u8>) -> Result<Option<ResponseView>, Error> {
    match response_head(buf, MAX_HEADERS) {
        Parsed::Complete(head) => Ok(
            Some(
                ResponseView {
                    status_code: head.status,
                    headers: head.headers,
                    data: buf.take(head.len as int),
                },
            ),
        ),
        Parsed::Partial => Ok(None),
        Parsed::Invalid => Err(Error::Invalid),
    }
}

/// How many bytes [`decode`] takes from a buffer: the head, where it is all
/// there.
pub open spec fn head_len(buf: Seq<u8>) -> int {
    match response_head(buf, MAX_HEADERS) {
        Parsed::Complete(head) => head.len as int,
        _ => 0,
    }
}

/// What an optional response stands for in contracts.
pub open spec fn response_view(r: Result<Option<Response>, Error>) -> Result<
    Option<ResponseView>,
    Error,
> {
    match r {
        Ok(Some(res)) => Ok(Some(res@)),
        Ok(None) => Ok(None),
        Err(e) => Err(e),
    }
}

/// Reads the head of a response from the front of `buf`. The bytes of the
/// head leave the buffer and become the data of the response.
pub fn decode(buf: &mut EasyBuf) -> (r: Result<Option<Response>, Error>)
    ensures
        response_view(r) == decoded(easybuf_bytes(*old(buf))),
        0 <= head_len(easybuf_bytes(*old(buf))) <= easybuf_bytes(*old(buf)).len(),
        easybuf_bytes(*final(buf)) == easybuf_bytes(*old(buf)).skip(
            head_len(easybuf_bytes(*old(buf))),
        ),
{
    let ghost before = easybuf_bytes(*buf);
    assert(before.skip(0) =~= before);
    match read_response_head(buf.as_slice(), MAX_HEADERS) {
        Parsed::Complete(head) => {
            let data = buf.drain_to(head.len);
            Ok(Some(Response { status_code: head.status, headers: head.headers, data }))
        },
        Parsed::Partial => Ok(None),
        Parsed::Invalid => Err(Error::Invalid),
    }
}

/// Writes a response out: its bytes are appended to `buf`.
pub fn encode(msg: Response, buf: &mut Vec<u8>)
    ensures
        final(buf)@ == old(buf)@ + msg@.data,
{
    let mut bytes = vstd::slice::slice_to_vec(msg.data.as_slice());
    buf.append(&mut bytes);
}

} // verus!
