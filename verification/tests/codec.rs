#![allow(deprecated)]

use tokio_core::io::EasyBuf;
use weldr::http::request;
use weldr::http::response;
use weldr::http::{parse_decimal, spells_word, Chunk, Error, Frame, Headers, HeaderLine};
use weldr::{backend, frontend};

fn mock_buf(data: &[u8]) -> EasyBuf {
    let mut buf = EasyBuf::with_capacity(data.len());
    buf.get_mut().extend_from_slice(data);
    buf
}

fn line(name: &str, value: &str) -> HeaderLine {
    HeaderLine { name: name.as_bytes().to_vec(), value: value.as_bytes().to_vec() }
}

#[test]
fn test_duplicate_content_length_header() {
    let head = b"Content-Length: 10\r\n\
        Content-Length: 16\r\n";

    let lines = vec![
        HeaderLine { name: head[0..14].to_vec(), value: head[16..18].to_vec() },
        HeaderLine { name: head[20..34].to_vec(), value: head[36..38].to_vec() },
    ];

    let headers = Headers::new(&lines);

    assert_eq!(16, headers.content_length().unwrap());
}

#[test]
fn content_length_reads_the_last_header_only() {
    let lines = vec![line("content-length", "10"), line("CONTENT-LENGTH", "ten")];
    assert_eq!(None, Headers::new(&lines).content_length());
    let lines = vec![line("Content-Length", "+7"), line("Content-Lengths", "9")];
    assert_eq!(Some(7), Headers::new(&lines).content_length());
    let lines: Vec<HeaderLine> = vec![];
    assert_eq!(None, Headers::new(&lines).content_length());
}

#[test]
fn chunked_is_read_from_the_first_transfer_encoding() {
    let lines = vec![line("Transfer-Encoding", "Chunked"), line("Transfer-Encoding", "gzip")];
    assert!(Headers::new(&lines).transfer_encoding_chunked());
    let lines = vec![line("Transfer-Encoding", "gzip"), line("Transfer-Encoding", "chunked")];
    assert!(!Headers::new(&lines).transfer_encoding_chunked());
    let lines = vec![line("Transfer-Encoding", "gzip, chunked")];
    assert!(!Headers::new(&lines).transfer_encoding_chunked());
    let lines = vec![line("Content-Length", "chunked")];
    assert!(!Headers::new(&lines).transfer_encoding_chunked());
}

#[test]
fn decimal_reads_what_usize_parses() {
    for text in [
        "0", "7", "007", "+7", "+", "", "-7", "7 ", " 7", "7a", "18446744073709551615",
        "18446744073709551616", "99999999999999999999999", "++7", "1_000",
    ] {
        assert_eq!(text.parse::<usize>().ok(), parse_decimal(text.as_bytes()), "{:?}", text);
    }
}

#[test]
fn words_are_spelled_without_regard_to_case() {
    assert!(spells_word(b"Content-Length", "content-length"));
    assert!(spells_word(b"CONTENT-LENGTH", "Content-Length"));
    assert!(!spells_word(b"Content-Length ", "content-length"));
    assert!(!spells_word(b"Content_Length", "content-length"));
    // '@' and '`' differ by the same bit as the letters do, and are no letters
    assert!(!spells_word(b"@", "`"));
    assert!(spells_word(b"", ""));
}

#[test]
fn response_head_leaves_the_body_in_the_buffer() {
    let mut buf = mock_buf(b"HTTP/1.1 200 OK\r\nContent-Length: 11\r\n\r\nHello World");
    let res = response::decode(&mut buf).unwrap().unwrap();
    assert_eq!(200, res.status_code());
    assert_eq!(Some(11), res.content_length());
    assert!(!res.transfer_encoding_chunked());
    assert_eq!(b"HTTP/1.1 200 OK\r\nContent-Length: 11\r\n\r\n", res.data());
    assert_eq!(b"Hello World", buf.as_slice());

    let mut out = b">".to_vec();
    response::encode(res, &mut out);
    assert_eq!(b">HTTP/1.1 200 OK\r\nContent-Length: 11\r\n\r\n".to_vec(), out);
}

#[test]
fn response_head_that_is_cut_off_waits() {
    let mut buf = mock_buf(b"HTTP/1.1 200 OK\r\nContent-Le");
    assert!(response::decode(&mut buf).unwrap().is_none());
    assert_eq!(27, buf.len());
    let mut buf = mock_buf(b"junk");
    assert_eq!(Some(Error::Invalid), response::decode(&mut buf).err());
    assert_eq!(4, buf.len());
}

#[test]
fn request_head_is_read_in_plain_values() {
    let mut buf = mock_buf(b"POST /echo?x=1 HTTP/1.1\r\nHost: example.net\r\nContent-Length: 5\r\n\r\nhello");
    let mut req = request::decode(&mut buf).unwrap().unwrap();
    assert_eq!("POST", req.method());
    assert_eq!("/echo?x=1", req.path());
    assert_eq!(1, req.version());
    assert_eq!(Some(5), req.content_length());
    assert_eq!(b"hello", buf.as_slice());
    req.append_data(b"hello");
    let mut out = Vec::new();
    request::encode(req, &mut out);
    assert_eq!(
        b"POST /echo?x=1 HTTP/1.1\r\nHost: example.net\r\nContent-Length: 5\r\n\r\nhello".to_vec(),
        out
    );
    let mut buf = mock_buf(b"GET / HTTP/1.1\r\nHost");
    assert!(request::decode(&mut buf).unwrap().is_none());
    let mut buf = mock_buf(b"\x00\x01 / HTTP/1.1\r\n\r\n");
    assert_eq!(Some(Error::Invalid), request::decode(&mut buf).err());
}

fn message<M>(frame: Option<Frame<M>>) -> (M, bool) {
    match frame {
        Some(Frame::Message { message, body }) => (message, body),
        _ => panic!("no message"),
    }
}

fn piece<M>(frame: Option<Frame<M>>) -> Option<Chunk> {
    match frame {
        Some(Frame::Body { chunk }) => chunk,
        _ => panic!("no piece of a body"),
    }
}

#[test]
fn upstream_codec_reads_a_whole_response() {
    let mut codec = backend::HttpCodec::new();
    let mut buf = mock_buf(b"HTTP/1.1 200 OK\r\nContent-Length: 11\r\n\r\nHello World");
    let (res, body) = message(codec.decode(&mut buf).unwrap());
    assert!(!body);
    assert_eq!(200, res.status_code());
    assert_eq!(&b"HTTP/1.1 200 OK\r\nContent-Length: 11\r\n\r\nHello World"[..], res.data());
    assert_eq!(0, buf.len());
    assert!(codec.decode(&mut buf).unwrap().is_none());
}

#[test]
fn upstream_codec_reads_a_body_in_pieces() {
    let mut codec = backend::HttpCodec::new();
    let mut buf = mock_buf(b"HTTP/1.1 200 OK\r\nContent-Length: 11\r\n\r\nHello");
    let (res, body) = message(codec.decode(&mut buf).unwrap());
    assert!(body);
    assert!(res.data().ends_with(b"\r\n\r\nHello"));
    buf.get_mut().extend_from_slice(b" World");
    assert_eq!(Some(Chunk(b" World".to_vec())), piece(codec.decode(&mut buf).unwrap()));
    // the end of the body is told when the next bytes arrive
    buf.get_mut().extend_from_slice(b"HTTP/1.1 204 No Content\r\nContent-Length: 0\r\n\r\n");
    assert_eq!(None, piece(codec.decode(&mut buf).unwrap()));
    let (res, body) = message(codec.decode(&mut buf).unwrap());
    assert_eq!(204, res.status_code());
    assert!(!body);
}

#[test]
fn upstream_codec_forwards_a_chunked_body_as_it_is() {
    let mut codec = backend::HttpCodec::new();
    let wire = b"HTTP/1.1 200 OK\r\nTransfer-Encoding: chunked\r\n\r\n13\r\nHello Chunky World!\r\n0\r\n\r\n";
    let mut buf = mock_buf(wire);
    let (res, body) = message(codec.decode(&mut buf).unwrap());
    assert!(!body);
    assert!(res.transfer_encoding_chunked());
    assert_eq!(&wire[..], res.data());
}

#[test]
fn upstream_codec_reads_until_close_without_framing() {
    let mut codec = backend::HttpCodec::new();
    let mut buf = mock_buf(b"HTTP/1.0 200 OK\r\n\r\nabc");
    let (res, body) = message(codec.decode(&mut buf).unwrap());
    assert!(body);
    assert!(res.data().ends_with(b"abc"));
    buf.get_mut().extend_from_slice(b"def");
    assert_eq!(Some(Chunk(b"def".to_vec())), piece(codec.decode(&mut buf).unwrap()));
}

#[test]
fn upstream_codec_prefers_the_length_to_the_chunked_coding() {
    let mut codec = backend::HttpCodec::new();
    let mut buf = mock_buf(b"HTTP/1.1 200 OK\r\nTransfer-Encoding: chunked\r\nContent-Length: 3\r\n\r\nabcdef");
    let (res, body) = message(codec.decode(&mut buf).unwrap());
    assert!(!body);
    assert!(res.data().ends_with(b"\r\n\r\nabc"));
    assert_eq!(b"def", buf.as_slice());
}

#[test]
fn upstream_codec_reports_what_is_no_response() {
    let mut codec = backend::HttpCodec::new();
    let mut buf = mock_buf(b"junk\r\n\r\n");
    assert_eq!(Some(Error::Invalid), codec.decode(&mut buf).err());
    let mut buf = mock_buf(b"HTTP/1.1 200 OK\r\nTransfer-Encoding: chunked\r\n\r\nzz\r\n");
    assert_eq!(Some(Error::InvalidChunkSize), codec.decode(&mut buf).err());
}

#[test]
fn upstream_codec_writes_requests_and_hands_errors_back() {
    let mut codec = backend::HttpCodec::new();
    let mut buf = mock_buf(b"GET / HTTP/1.1\r\n\r\n");
    let req = request::decode(&mut buf).unwrap().unwrap();
    let mut out = Vec::new();
    assert_eq!(Ok(()), codec.encode(Frame::Message { message: req, body: true }, &mut out));
    assert_eq!(Ok(()), codec.encode(Frame::Body { chunk: Some(Chunk(b"abc".to_vec())) }, &mut out));
    assert_eq!(Ok(()), codec.encode(Frame::Body { chunk: None }, &mut out));
    assert_eq!(b"GET / HTTP/1.1\r\n\r\nabc".to_vec(), out);
    assert_eq!(
        Err(Error::Invalid),
        codec.encode(Frame::Error { error: Error::Invalid }, &mut out)
    );
    assert_eq!(b"GET / HTTP/1.1\r\n\r\nabc".to_vec(), out);
}

#[test]
fn client_codec_reads_a_post_with_its_body() {
    let mut codec = frontend::HttpCodec::new();
    let mut buf = mock_buf(b"POST /echo HTTP/1.1\r\nContent-Length: 5\r\n\r\nhello");
    let (req, body) = message(codec.decode(&mut buf).unwrap());
    assert!(!body);
    assert_eq!("POST", req.method());
    assert!(req.data().ends_with(b"\r\n\r\nhello"));
    assert_eq!(0, buf.len());
}

#[test]
fn client_codec_reads_a_get_without_body() {
    let mut codec = frontend::HttpCodec::new();
    let mut buf = mock_buf(b"GET / HTTP/1.1\r\nHost: example.net\r\n\r\n");
    let (req, body) = message(codec.decode(&mut buf).unwrap());
    assert!(!body);
    assert_eq!("/", req.path());
    assert_eq!(None, req.content_length());
}

#[test]
fn client_codec_refuses_a_body_without_framing() {
    let mut codec = frontend::HttpCodec::new();
    let mut buf = mock_buf(b"POST / HTTP/1.1\r\nHost: example.net\r\n\r\nhello");
    assert_eq!(Some(Error::UnframedBody), codec.decode(&mut buf).err());
}

#[test]
fn client_codec_reads_a_chunked_request_in_pieces() {
    let mut codec = frontend::HttpCodec::new();
    let mut buf = mock_buf(b"POST / HTTP/1.1\r\nTransfer-Encoding: chunked\r\n\r\n5\r\nhel");
    let (req, body) = message(codec.decode(&mut buf).unwrap());
    assert!(body);
    assert!(req.data().ends_with(b"5\r\nhel"));
    buf.get_mut().extend_from_slice(b"lo\r\n0\r\n\r\n");
    assert_eq!(Some(Chunk(b"lo\r\n0\r\n\r\n".to_vec())), piece(codec.decode(&mut buf).unwrap()));
}

#[test]
fn client_codec_writes_bad_gateway_for_an_error() {
    let mut codec = frontend::HttpCodec::new();
    let mut out = b"x".to_vec();
    assert_eq!(Ok(()), codec.encode(Frame::Error { error: Error::Invalid }, &mut out));
    assert_eq!(b"xHTTP/1.1 502 Bad Gateway\r\nContent-Length: 0\r\n\r\n".to_vec(), out);

    let mut buf = mock_buf(b"HTTP/1.1 200 OK\r\n\r\n");
    let res = response::decode(&mut buf).unwrap().unwrap();
    let mut out = Vec::new();
    assert_eq!(Ok(()), codec.encode(Frame::Message { message: res, body: true }, &mut out));
    assert_eq!(Ok(()), codec.encode(Frame::Body { chunk: Some(Chunk(b"hi".to_vec())) }, &mut out));
    assert_eq!(b"HTTP/1.1 200 OK\r\n\r\nhi".to_vec(), out);
}

#[test]
fn codec_begins_a_body_behind_a_head() {
    let mut head = mock_buf(b"HTTP/1.1 200 OK\r\nContent-Length: 4\r\n\r\n");
    let res = response::decode(&mut head).unwrap().unwrap();
    let mut codec = backend::HttpCodec::new();
    let mut buf = mock_buf(b"abcdef");
    let (res, body) = message(codec.begin(res, &mut buf).unwrap());
    assert!(!body);
    assert!(res.data().ends_with(b"\r\n\r\nabcd"));
    assert_eq!(b"ef", buf.as_slice());

    let mut head = mock_buf(b"GET / HTTP/1.1\r\nContent-Length: 4\r\n\r\n");
    let req = request::decode(&mut head).unwrap().unwrap();
    let mut codec = frontend::HttpCodec::new();
    let mut buf = mock_buf(b"ab");
    let (req, body) = message(codec.begin(req, &mut buf).unwrap());
    assert!(body);
    assert!(req.data().ends_with(b"\r\n\r\nab"));
    buf.get_mut().extend_from_slice(b"cdef");
    assert_eq!(Some(Chunk(b"cd".to_vec())), piece(codec.decode(&mut buf).unwrap()));
}
