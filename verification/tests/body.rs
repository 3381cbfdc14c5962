#![allow(deprecated)]

use tokio_core::io::EasyBuf;
use weldr::http::body::{BodyCodec, Chunked, ChunkedState, Length, UntilClose};
use weldr::http::{Chunk, Error};

fn mock_buf(data: &[u8]) -> EasyBuf {
    let mut buf = EasyBuf::with_capacity(data.len());
    buf.get_mut().extend_from_slice(data);
    buf
}

fn extend_mock_buf(buf: &mut EasyBuf, len: usize) {
    let mut data = (0u8..len as u8).map(|_| 0).collect::<Vec<u8>>();
    buf.get_mut().append(&mut data);
}

#[test]
fn test_decode_length_buf_len_zero() {
    let mut buf = mock_buf(&[]);
    assert_eq!(0, buf.len());
    let mut codec = Length::new(1);
    assert!(codec.decode(&mut buf).unwrap().is_none());
}

#[test]
fn test_decode_length_buf_len_equals_content_length() {
    let mut buf = mock_buf(&[0u8; 64]);
    let mut codec = Length::new(64);
    assert_eq!(64, codec.decode(&mut buf).unwrap().unwrap().0.len());
    assert_eq!(0, buf.len());
}

#[test]
fn test_decode_length_buf_len_greater_than_content_length() {
    let mut buf = mock_buf(&[0u8; 65]);
    let mut codec = Length::new(64);
    assert_eq!(64, codec.decode(&mut buf).unwrap().unwrap().0.len());
    assert_eq!(1, buf.len());

    assert!(codec.decode(&mut buf).is_err());
}

#[test]
fn test_decode_length_buf_len_less_than_content_length() {
    let mut buf = mock_buf(&[0u8; 20]);
    let mut codec = Length::new(64);
    assert_eq!(20, codec.decode(&mut buf).unwrap().unwrap().0.len());
    assert_eq!(44, codec.bytes_remaining());
    assert_eq!(0, buf.len());

    extend_mock_buf(&mut buf, 40);
    assert_eq!(40, codec.decode(&mut buf).unwrap().unwrap().0.len());
    assert_eq!(4, codec.bytes_remaining());
    assert_eq!(0, buf.len());

    extend_mock_buf(&mut buf, 4);
    assert_eq!(4, codec.decode(&mut buf).unwrap().unwrap().0.len());
    assert_eq!(0, codec.bytes_remaining());
    assert_eq!(0, buf.len());
}

#[test]
fn test_decode_chunked_buf_len_zero() {
    let mut buf = mock_buf(&[]);
    assert_eq!(0, buf.len());
    let mut codec = Chunked::new();
    assert!(codec.decode(&mut buf).unwrap().is_none());
}

#[test]
fn test_decode_chunked() {
    let body = b"7\r\n\
          Mozilla\r\n\
          9\r\n\
          Developer\r\n\
          7\r\n\
          Network\r\n\
          0\r\n\
          \r\n";

    let mut buf = mock_buf(body.as_ref());

    let mut codec = Chunked::new();
    assert_eq!(body.len(), codec.decode(&mut buf).unwrap().unwrap().0.len());
    assert_eq!(0, buf.len());
    assert_eq!(ChunkedState::End, codec.state());
}

#[test]
fn test_decode_chunked_buf_len_greater_than_chunk() {
    let body = b"7\r\n\
          Mozilla\r\n\
          0\r\n\
          \r\nx";

    let mut buf = mock_buf(body.as_ref());

    let mut codec = Chunked::new();
    assert_eq!(body.len() - 1, codec.decode(&mut buf).unwrap().unwrap().0.len());
    assert_eq!(1, buf.len());
    assert_eq!(ChunkedState::End, codec.state());
}

#[test]
fn test_decode_chunked_buf_len_less_than_chunk() {
    let body = b"7\r\n\
          Mozi";

    let mut buf = mock_buf(body.as_ref());

    let mut codec = Chunked::new();
    assert_eq!(7, codec.decode(&mut buf).unwrap().unwrap().0.len());
    assert_eq!(0, buf.len());
    assert_eq!(ChunkedState::Body(3), codec.state());

    let body = b"lla\r\n";
    buf.get_mut().extend_from_slice(body.as_ref());

    assert_eq!(5, codec.decode(&mut buf).unwrap().unwrap().0.len());
    assert_eq!(0, buf.len());
    assert_eq!(ChunkedState::Header, codec.state());
}

#[test]
fn test_decode_until_close_buf_len_zero() {
    let mut buf = mock_buf(&[]);
    assert_eq!(0, buf.len());
    let mut codec = UntilClose::new();
    assert!(codec.decode(&mut buf).unwrap().is_none());
    assert_eq!(false, codec.remaining());
}

#[test]
fn test_decode_until_close_buf_len_greater_than_zero() {
    let mut buf = mock_buf(&[0u8; 64]);
    assert_eq!(64, buf.len());
    let mut codec = UntilClose::new();
    assert_eq!(buf.len(), codec.decode(&mut buf).unwrap().unwrap().0.len());
    assert_eq!(true, codec.remaining());
    assert!(codec.decode(&mut buf).unwrap().is_none());
    assert_eq!(false, codec.remaining());
}

#[test]
fn length_hands_back_the_front_of_the_buffer() {
    let mut buf = mock_buf(b"hello world");
    let mut codec = Length::new(5);
    assert!(codec.remaining());
    assert_eq!(Ok(Some(Chunk(b"hello".to_vec()))), codec.decode(&mut buf));
    assert_eq!(b" world", buf.as_slice());
    assert!(!codec.remaining());
    assert_eq!(Err(Error::BodyComplete), codec.decode(&mut buf));
    assert_eq!(b" world", buf.as_slice());
}

#[test]
fn length_never_takes_more_than_is_left() {
    let mut buf = mock_buf(b"abc");
    let mut codec = Length::new(5);
    assert_eq!(Ok(Some(Chunk(b"abc".to_vec()))), codec.decode(&mut buf));
    assert_eq!(2, codec.bytes_remaining());
    buf.get_mut().extend_from_slice(b"defgh");
    assert_eq!(Ok(Some(Chunk(b"de".to_vec()))), codec.decode(&mut buf));
    assert_eq!(b"fgh", buf.as_slice());
    assert_eq!(0, codec.bytes_remaining());
}

#[test]
fn chunked_hands_back_the_coded_bytes() {
    let mut buf = mock_buf(b"4\r\nRust\r\n0\r\n\r\n");
    let mut codec = Chunked::new();
    assert!(codec.remaining());
    assert_eq!(Ok(Some(Chunk(b"4\r\nRust\r\n0\r\n\r\n".to_vec()))), codec.decode(&mut buf));
    assert!(!codec.remaining());
    assert_eq!(0, buf.len());
}

#[test]
fn chunked_survives_a_cut_inside_the_line_end() {
    let mut buf = mock_buf(b"3\r\nabc\r");
    let mut codec = Chunked::new();
    assert_eq!(Ok(Some(Chunk(b"3\r\nabc".to_vec()))), codec.decode(&mut buf));
    assert_eq!(ChunkedState::Body(0), codec.state());
    assert_eq!(b"\r", buf.as_slice());
    assert_eq!(Ok(None), codec.decode(&mut buf));
    buf.get_mut().extend_from_slice(b"\n0\r\n\r\n");
    assert_eq!(Ok(Some(Chunk(b"\r\n0\r\n\r\n".to_vec()))), codec.decode(&mut buf));
    assert_eq!(ChunkedState::End, codec.state());
}

#[test]
fn chunked_waits_for_the_rest_of_a_size_line() {
    let mut buf = mock_buf(b"1a");
    let mut codec = Chunked::new();
    assert_eq!(Ok(None), codec.decode(&mut buf));
    assert_eq!(ChunkedState::Header, codec.state());
    assert_eq!(2, buf.len());
}

#[test]
fn chunked_refuses_a_bad_size_line() {
    let mut buf = mock_buf(b"3\r\nabc\r\nxyz\r\n");
    let mut codec = Chunked::new();
    assert_eq!(Err(Error::InvalidChunkSize), codec.decode(&mut buf));
    // what was read before the bad line has left the buffer
    assert_eq!(b"xyz\r\n", buf.as_slice());
    assert_eq!(ChunkedState::Header, codec.state());
}

#[test]
fn chunked_reads_a_trailer() {
    let mut buf = mock_buf(b"0\r\nExpires: never\r\n");
    let mut codec = Chunked::new();
    assert_eq!(Ok(Some(Chunk(b"0\r\n".to_vec()))), codec.decode(&mut buf));
    assert_eq!(ChunkedState::Trailer, codec.state());
    buf.get_mut().extend_from_slice(b"\r\n");
    assert_eq!(Ok(Some(Chunk(b"Expires: never\r\n\r\n".to_vec()))), codec.decode(&mut buf));
    assert_eq!(ChunkedState::End, codec.state());
    assert!(!codec.remaining());
}

#[test]
fn chunked_refuses_a_bad_trailer() {
    let mut buf = mock_buf(b"0\r\n\x01: x\r\n\r\n");
    let mut codec = Chunked::new();
    assert_eq!(Err(Error::InvalidTrailer), codec.decode(&mut buf));
    assert_eq!(ChunkedState::Trailer, codec.state());
}

#[test]
fn body_codec_follows_its_variant() {
    let mut buf = mock_buf(b"abcdef");
    let mut codec = BodyCodec::Length(Length::new(4));
    assert!(codec.remaining());
    assert_eq!(Ok(Some(Chunk(b"abcd".to_vec()))), codec.decode(&mut buf));
    assert!(!codec.remaining());

    let mut codec = BodyCodec::UntilClose(UntilClose::new());
    assert_eq!(Ok(Some(Chunk(b"ef".to_vec()))), codec.decode(&mut buf));
    assert!(codec.remaining());
    assert_eq!(Ok(None), codec.decode(&mut buf));
    assert!(!codec.remaining());

    let mut buf = mock_buf(b"0\r\n\r\n");
    let mut codec = BodyCodec::Chunked(Chunked::new());
    assert_eq!(Ok(Some(Chunk(b"0\r\n\r\n".to_vec()))), codec.decode(&mut buf));
    assert!(!codec.remaining());
}

#[test]
fn size_line_leads_to_body_end_or_trailer() {
    assert_eq!((ChunkedState::Body(7), 0), Chunked::next_after_size(7, b"Mozilla\r\n"));
    assert_eq!((ChunkedState::Body(7), 0), Chunked::next_after_size(7, b"\r\n"));
    assert_eq!((ChunkedState::End, 2), Chunked::next_after_size(0, b"\r\nrest"));
    assert_eq!(
        (ChunkedState::Trailer, 0),
        Chunked::next_after_size(0, b"Expires: never\r\n\r\n")
    );
    assert_eq!((ChunkedState::Trailer, 0), Chunked::next_after_size(0, b"\r"));
    assert_eq!((ChunkedState::Trailer, 0), Chunked::next_after_size(0, b""));
}

#[test]
fn chunk_is_read_whole_or_as_far_as_it_is_there() {
    assert_eq!((9, ChunkedState::Header), Chunked::read_of_body(7, 9));
    assert_eq!((9, ChunkedState::Header), Chunked::read_of_body(7, 20));
    assert_eq!((4, ChunkedState::Body(3)), Chunked::read_of_body(7, 4));
    assert_eq!((7, ChunkedState::Body(0)), Chunked::read_of_body(7, 7));
    assert_eq!((7, ChunkedState::Body(0)), Chunked::read_of_body(7, 8));
    assert_eq!((0, ChunkedState::Body(0)), Chunked::read_of_body(0, 1));
    assert_eq!((2, ChunkedState::Header), Chunked::read_of_body(0, 2));
    assert_eq!((5, ChunkedState::Body(u64::MAX - 5)), Chunked::read_of_body(u64::MAX, 5));
}

#[test]
fn chunked_takes_nothing_behind_the_end_of_the_body() {
    // the empty line of the trailer ends the body; the next head is not touched
    let mut buf = mock_buf(b"0\r\nExpires: never\r\n\r\nHTTP/1.1 200 OK\r\n");
    let mut codec = Chunked::new();
    assert_eq!(
        Ok(Some(Chunk(b"0\r\nExpires: never\r\n\r\n".to_vec()))),
        codec.decode(&mut buf)
    );
    assert_eq!(ChunkedState::End, codec.state());
    assert_eq!(b"HTTP/1.1 200 OK\r\n", buf.as_slice());
    assert_eq!(Ok(None), codec.decode(&mut buf));
    assert_eq!(b"HTTP/1.1 200 OK\r\n", buf.as_slice());

    // a trailer that arrives late: its empty line is the only line end taken
    let mut buf = mock_buf(b"0\r\n");
    let mut codec = Chunked::new();
    assert_eq!(Ok(Some(Chunk(b"0\r\n".to_vec()))), codec.decode(&mut buf));
    assert_eq!(ChunkedState::Trailer, codec.state());
    buf.get_mut().extend_from_slice(b"\r\n\r\n");
    assert_eq!(Ok(Some(Chunk(b"\r\n".to_vec()))), codec.decode(&mut buf));
    assert_eq!(ChunkedState::End, codec.state());
    assert_eq!(b"\r\n", buf.as_slice());
}
