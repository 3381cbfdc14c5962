//! The head of a request.

#![allow(deprecated)]

use vstd::prelude::*;
use tokio_core::io::EasyBuf;
use crate::buffer::{easybuf_bytes, extend};
use crate::http::response::{Parsed, MAX_HEADERS};
use crate::http::{content_length_of, chunked_of, line_views, Error, HeaderLine, Headers, LineView};

verus! {

/// The head of a request in plain values.
pub struct RequestHead {
    /// The method.
    pub method: String,
    /// The request target.
    pub path: String,
    /// The minor version of HTTP/1.
    pub version: u8,
    /// The header lines, in order.
    pub headers: Vec<HeaderLine>,
    /// The length of the head in bytes, the closing empty line included.
    pub len: usize,
}

/// What a [`RequestHead`] stands for in contracts.
pub struct RequestHeadView {
    /// The method.
    pub method: Seq<char>,
    /// The request target.
    pub path: Seq<char>,
    /// The minor version of HTTP/1.
    pub version: u8,
    /// The header lines, in order.
    pub headers: Seq<LineView>,
    /// The length of the head in bytes.
    pub len: usize,
}

impl View for RequestHead {
    type V = RequestHeadView;

    open spec fn view(&self) -> RequestHeadView {
        RequestHeadView {
            method: self.method@,
            path: self.path@,
            version: self.version,
            headers: line_views(self.headers@),
            len: self.len,
        }
    }
}

/// What a parsed request head stands for in contracts.
pub open spec fn parsed_request(p: Parsed<RequestHead>) -> Parsed<RequestHeadView> {
    match p {
        Parsed::Complete(h) => Parsed::Complete(h@),
        Parsed::Partial => Parsed::Partial,
        Parsed::Invalid => Parsed::Invalid,
    }
}

/// How `httparse::Request::parse` reads a buffer when it has room for
/// `max_headers` headers.
pub uninterp spec fn request_head(buf: Seq<u8>, max_headers: usize) -> Parsed<RequestHeadView>;

/// Reads the head of a request with `httparse::Request::parse`, with room
/// for `max_headers` headers, and copies out the method, the target, the
/// version and the headers. A complete head ends inside the buffer: the
/// parser counts the bytes that it has read.
#[verifier::external_body]
pub(crate) fn read_request_head(buf: &[u8], max_headers: usize) -> (p: Parsed<RequestHead>)
    ensures
        parsed_request(p) == request_head(buf@, max_headers),
        p matches Parsed::Complete(h) ==> h.len <= buf@.len(),
{
    let mut headers = vec![httparse::EMPTY_HEADER; max_headers];
    let mut r = httparse::Request::new(&mut headers);
    let len = match r.parse(buf) {
        Ok(httparse::Status::Complete(len)) => len,
        Ok(httparse::Status::Partial) => return Parsed::Partial,
        Err(_) => return Parsed::Invalid,
    };
    let (method, path) = (r.method.unwrap().to_string(), r.path.unwrap().to_string());
    let lines = r.headers.iter().map(
        |h| HeaderLine { name: h.name.as_bytes().to_vec(), value: h.value.to_vec() },
    );
    Parsed::Complete(
        RequestHead { method, path, version: r.version.unwrap(), headers: lines.collect(), len },
    )
}

/// What a [`Request`] stands for in contracts.
pub struct RequestView {
    /// The method.
    pub method: Seq<char>,
    /// The request target.
    pub path: Seq<char>,
    /// The minor version of HTTP/1.
    pub version: u8,
    /// The header lines, in order.
    pub headers: Seq<LineView>,
    /// The bytes of the message as they were read: the head, and behind it
    /// the body bytes that came with it.
    pub data: Seq<u8>,
}

/// A request as it was read from a client.
pub struct Request {
    method: String,
    path: String,
    version: u8,
    headers: Vec<HeaderLine>,
    data: EasyBuf,
}

impl View for Request {
    type V = RequestView;

    closed spec fn view(&self) -> RequestView {
        RequestView {
            method: self.method@,
            path: self.path@,
            version: self.version,
            headers: line_views(self.headers@),
            data: easybuf_bytes(self.data),
        }
    }
}

impl Request {
    /// The method.
    pub fn method(&self) -> (m: &str)
        ensures
            m@ == self@.method,
    {
        self.method.as_str()
    }

    /// The request target.
    pub fn path(&self) -> (p: &str)
        ensures
            p@ == self@.path,
    {
        self.path.as_str()
    }

    /// The minor version of HTTP/1.
    pub fn version(&self) -> (v: u8)
        ensures
            v == self@.version,
    {
        self.version
    }

    /// The announced length of the body.
    pub fn content_length(&self) -> (r: Option<usize>)
        ensures
            r == content_length_of(self@.headers),
    {
        self.headers().content_length()
    }

    /// Whether the head announces the chunked coding.
    pub fn transfer_encoding_chunked(&self) -> (r: bool)
        ensures
            r == chunked_of(self@.headers),
    {
        self.headers().transfer_encoding_chunked()
    }

    /// Appends body bytes to the message.
    pub fn append_data(&mut self, buf: &[u8])
        ensures
            final(self)@ == (RequestView { data: old(self)@.data + buf@, ..old(self)@ }),
    {
        extend(&mut self.data, buf);
    }

    /// The bytes of the message.
    pub fn data(&self) -> (bytes: &[u8])
        ensures
            bytes@ == self@.data,
    {
        self.data.as_slice()
    }

    fn headers(&self) -> (h: Headers<'_>)
        ensures
            h.lines() == self@.headers,
    {
        Headers::new(&self.headers)
    }
}

/// What [`decode`] makes of a buffer: nothing yet of a head that is not all
/// there, an error for what is no head, else the request, with the bytes of
/// the head as its data.
pub open spec fn decoded(buf: Seq<u8>) -> Result<Option<RequestView>, Error> {
    match request_head(buf, MAX_HEADERS) {
        Parsed::Complete(head) => Ok(
            Some(
                RequestView {
                    method: head.method,
                    path: head.path,
                    version: head.version,
                    headers: head.headers,
                    data: buf.take(head.len as int),
                },
            ),
        ),
        Parsed::Partial => Ok(None),
        Parsed::Invalid => Err(Error::Invalid),
    }
}

/// How many bytes [`decode`] takes from a buffer: the head, where it is all
/// there.
pub open spec fn head_len(buf: Seq<u8>) -> int {
    match request_head(buf, MAX_HEADERS) {
        Parsed::Complete(head) => head.len as int,
        _ => 0,
    }
}

/// What an optional request stands for in contracts.
pub open spec fn request_view(r: Result<Option<Request>, Error>) -> Result<
    Option<RequestView>,
    Error,
> {
    match r {
        Ok(Some(req)) => Ok(Some(req@)),
        Ok(None) => Ok(None),
        Err(e) => Err(e),
    }
}

/// Reads the head of a request from the front of `buf`. The bytes of the
/// head leave the buffer and become the data of the request.
pub fn decode(buf: &mut EasyBuf) -> (r: Result<Option<Request>, Error>)
    ensures
        request_view(r) == decoded(easybuf_bytes(*old(buf))),
        0 <= head_len(easybuf_bytes(*old(buf))) <= easybuf_bytes(*old(buf)).len(),
        easybuf_bytes(*final(buf)) == easybuf_bytes(*old(buf)).skip(
            head_len(easybuf_bytes(*old(buf))),
        ),
{
    let ghost before = easybuf_bytes(*buf);
    assert(before.skip(0) =~= before);
    match read_request_head(buf.as_slice(), MAX_HEADERS) {
        Parsed::Complete(head) => {
            let data = buf.drain_to(head.len);
            Ok(
                Some(
                    Request {
                        method: head.method,
                        path: head.path,
                        version: head.version,
                        headers: head.headers,
                        data,
                    },
                ),
            )
        },
        Parsed::Partial => Ok(None),
        Parsed::Invalid => Err(Error::Invalid),
    }
}

/// Writes a request out: its bytes are appended to `buf`.
pub fn encode(msg: Request, buf: &mut Vec<u8>)
    ensures
        final(buf)@ == old(buf)@ + msg@.data,
{
    let mut bytes = vstd::slice::slice_to_vec(msg.data.as_slice());
    buf.append(&mut bytes);
}

} // verus!
