//! A response that is read together with the start of its body.

#![allow(deprecated)]

use vstd::prelude::*;
use tokio_core::io::EasyBuf;
use crate::buffer::{easybuf_bytes, extend, take_front};
use crate::http::response::{read_response_head, response_head, Parsed, MAX_HEADERS};
use crate::http::{decimal, line_views, parse_decimal, spells, spells_word, Error, HeaderLine, LineView};

verus! {

/// The length that a head announces, going by the first `Content-Length`
/// header: what it says, if it says a length.
pub open spec fn first_content_length(lines: Seq<LineView>) -> Option<usize>
    decreases lines.len(),
{
    if lines.len() == 0 {
        None
    } else if spells(lines[0].name, "content-length"@) {
        decimal(lines[0].value)
    } else {
        first_content_length(lines.skip(1))
    }
}

/// What a [`Response`] stands for in contracts.
pub struct ResponseView {
    /// The status code.
    pub status_code: u16,
    /// The header lines, in order.
    pub headers: Seq<LineView>,
    /// The bytes of the message as they were read.
    pub data: Seq<u8>,
    /// How much of the announced body is still to come, where a length was
    /// announced.
    pub content_length_remaining: Option<usize>,
}

/// A response as it was read from an upstream, with the part of its body
/// that came with the head.
pub struct Response {
    status_code: u16,
    headers: Vec<HeaderLine>,
    data: EasyBuf,
    /// How much of the announced body is still to come.
    pub content_length_remaining: Option<usize>,
}

impl View for Response {
    type V = ResponseView;

    closed spec fn view(&self) -> ResponseView {
        ResponseView {
            status_code: self.status_code,
            headers: line_views(self.headers@),
            data: easybuf_bytes(self.data),
            content_length_remaining: self.content_length_remaining,
        }
    }
}

impl Response {
    /// The status code.
    pub fn status_code(&self) -> (code: u16)
        ensures
            code == self@.status_code,
    {
        self.status_code
    }

    /// The announced length of the body. Of several `Content-Length`
    /// headers the first one counts.
    pub fn content_length(&self) -> (r: Option<usize>)
        ensures
            r == first_content_length(self@.headers),
    {
        proof {
            reveal_strlit("content-length");
        }
        let ghost all = line_views(self.headers@);
        let mut i: usize = 0;
        assert(all.skip(0) =~= all);
        while i < self.headers.len()
            invariant
                i <= self.headers.len(),
                all == line_views(self.headers@),
                first_content_length(all) == first_content_length(all.skip(i as int)),
                "content-length".is_ascii(),
            decreases self.headers.len() - i,
        {
            let line = &self.headers[i];
            proof {
                assert(all.skip(i as int)[0] == line@);
                assert(all.skip(i as int).skip(1) =~= all.skip(i + 1));
            }
            if spells_word(line.name.as_slice(), "content-length") {
                return parse_decimal(line.value.as_slice());
            }
            i = i + 1;
        }
        None
    }

    /// The bytes of the message.
    pub fn data(&self) -> (bytes: &[u8])
        ensures
            bytes@ == self@.data,
    {
        self.data.as_slice()
    }
}

/// How many bytes of a body of `length` bytes come with the head, when
/// `rest` is behind the head in the buffer.
pub open spec fn body_at_hand(length: usize, rest: Seq<u8>) -> int {
    if length <= rest.len() {
        length as int
    } else {
        rest.len() as int
    }
}

/// The response with the head `head` after the body bytes at hand were
/// taken from `rest`: where the head announces a length, the bytes of `rest`
/// up to that length join the data of the response.
pub open spec fn with_body_of(head: ResponseView, rest: Seq<u8>) -> ResponseView {
    match first_content_length(head.headers) {
        Some(length) => ResponseView {
            data: head.data + rest.take(body_at_hand(length, rest)),
            content_length_remaining: Some((length - body_at_hand(length, rest)) as usize),
            ..head
        },
        None => head,
    }
}

/// What [`decode`] makes of a buffer: nothing yet of a head that is not all
/// there, an error for what is no head, else the response. Where the head
/// announces a length, the body bytes at hand, up to that length, belong to
/// the response.
pub open spec fn decoded(buf: Seq<u8>) -> Result<Option<ResponseView>, Error> {
    match response_head(buf, MAX_HEADERS) {
        Parsed::Complete(head) => Ok(
            Some(
                with_body_of(
                    ResponseView {
                        status_code: head.status,
                        headers: head.headers,
                        data: buf.take(head.len as int),
                        content_length_remaining: None,
                    },
                    buf.skip(head.len as int),
                ),
            ),
        ),
        Parsed::Partial => Ok(None),
        Parsed::Invalid => Err(Error::Invalid),
    }
}

/// Takes the body bytes at hand from the front of `buf` into the response
/// `response`, whose head was read: as many as the head announces, or as many
/// as there are.
pub fn with_body(response: Response, buf: &mut EasyBuf) -> (r: Response)
    ensures
        r@ == with_body_of(response@, easybuf_bytes(*old(buf))),
        r@.data.len() - response@.data.len() <= easybuf_bytes(*old(buf)).len(),
        easybuf_bytes(*final(buf)) == easybuf_bytes(*old(buf)).skip(
            r@.data.len() - response@.data.len(),
        ),
{
    let mut response = response;
    let ghost rest = easybuf_bytes(*buf);
    assert(rest.skip(0) =~= rest);
    match response.content_length() {
        Some(content_length) => {
            let len = if content_length <= buf.len() {
                content_length
            } else {
                buf.len()
            };
            response.content_length_remaining = Some(content_length - len);
            let body = take_front(buf, len);
            extend(&mut response.data, body.as_slice());
        },
        None => {},
    }
    response
}

/// What an optional response stands for in contracts.
pub open spec fn response_view(r: Result<Option<Response>, Error>) -> Result<
    Option<ResponseView>,
    Error,
> {
    match r {
        Ok(Some(res)) => Ok(Some(res@)),
        Ok(None) => Ok(None),
        Err(e) => Err(e),
    }
}

/// Reads a response from the front of `buf`: its head, and of an announced
/// body what the buffer holds. What was read leaves the buffer.
pub fn decode(buf: &mut EasyBuf) -> (r: Result<Option<Response>, Error>)
    ensures
        response_view(r) == decoded(easybuf_bytes(*old(buf))),
        match decoded(easybuf_bytes(*old(buf))) {
            Ok(Some(res)) => res.data.len() <= easybuf_bytes(*old(buf)).len() && easybuf_bytes(
                *final(buf),
            ) == easybuf_bytes(*old(buf)).skip(res.data.len() as int),
            _ => easybuf_bytes(*final(buf)) == easybuf_bytes(*old(buf)),
        },
{
    let ghost before = easybuf_bytes(*buf);
    match read_response_head(buf.as_slice(), MAX_HEADERS) {
        Parsed::Complete(head) => {
            let data = buf.drain_to(head.len);
            let response = Response {
                status_code: head.status,
                headers: head.headers,
                data,
                content_length_remaining: None,
            };
            let ghost rest = easybuf_bytes(*buf);
            let response = with_body(response, buf);
            proof {
                let n = response@.data.len() - head.len;
                assert(rest.skip(n) =~= before.skip(head.len + n));
            }
            Ok(Some(response))
        },
        Parsed::Partial => Ok(None),
        Parsed::Invalid => Err(Error::Invalid),
    }
}

/// Writes a response out: its bytes are appended to `buf`.
pub fn encode(msg: Response, buf: &mut Vec<u8>)
    ensures
        final(buf)@ == old(buf)@ + msg@.data,
{
    let mut bytes = vstd::slice::slice_to_vec(msg.data.as_slice());
    buf.append(&mut bytes);
}

} // verus!
