#![allow(deprecated)]

use tokio_core::io::EasyBuf;
use weldr::frontend;
use weldr::http::{Frame, HeaderLine, Version};
use weldr::pool::Pool;
use weldr::proxy::{call, reply, Outbound, Reply, Request, Response, Step};
use weldr::server::Server;
use weldr::stats::Stats;

type Lines = Vec<HeaderLine>;

/// Sets a header as a header map does: the lines of that name go, and the
/// new line stands at the end.
fn set_raw(headers: &mut Lines, name: &str, value: &str) {
    headers.retain(|l| !l.name.eq_ignore_ascii_case(name.as_bytes()));
    headers.push(HeaderLine { name: name.as_bytes().to_vec(), value: value.as_bytes().to_vec() });
}

fn has(headers: &Lines, name: &str) -> bool {
    headers.iter().any(|l| l.name.eq_ignore_ascii_case(name.as_bytes()))
}

/// The value of a header that has one line.
fn line(headers: &Lines, name: &str) -> Option<Vec<u8>> {
    let mut values = headers.iter().filter(|l| l.name.eq_ignore_ascii_case(name.as_bytes()));
    match (values.next(), values.next()) {
        (Some(l), None) => Some(l.value.clone()),
        _ => None,
    }
}

/// An origin that answers as the test servers do.
fn origin(out: &Outbound<Vec<u8>>) -> Response<Vec<u8>> {
    let path = out.uri.splitn(4, '/').nth(3).map(|p| format!("/{}", p)).unwrap_or_default();
    let path = path.trim_end_matches('?').to_string();
    let mut headers = Lines::new();
    let body = if path.ends_with("/echo") {
        set_raw(&mut headers, "Content-Length", &out.body.len().to_string());
        out.body.clone()
    } else if path.ends_with("/method") {
        format!("hello {}", out.method).into_bytes()
    } else if path.ends_with("/chunked") {
        set_raw(&mut headers, "Transfer-Encoding", "chunked");
        b"Hello Chunky World!".to_vec()
    } else {
        b"hello world".to_vec()
    };
    Response { status: 200, headers, body }
}

/// One exchange through the proxy: the request is taken on, the origin
/// answers, and the answer goes back.
fn exchange(pool: &mut Pool, req: Request<Vec<u8>>) -> (u16, Lines, Vec<u8>, Option<Lines>) {
    match call(pool, req) {
        Step::BadGateway => (502, Lines::new(), Vec::new(), None),
        Step::Dispatch(server, out) => {
            let upstream = out.headers.clone();
            match reply(pool, &server, Some(origin(&out))) {
                Reply::Upstream(res) => (res.status, res.headers, res.body, Some(upstream)),
                Reply::BadGateway => (502, Lines::new(), Vec::new(), Some(upstream)),
            }
        }
    }
}

fn request(method: &str, path: &str, body: &[u8]) -> Request<Vec<u8>> {
    Request {
        method: method.to_string(),
        path: path.to_string(),
        query: None,
        version: Version::Http11,
        headers: Lines::new(),
        body: body.to_vec(),
    }
}

fn pool_with_origin() -> Pool {
    let mut pool = Pool::default();
    pool.add(Server::parse("http://127.0.0.1:6000", false).unwrap());
    pool
}

#[test]
fn get_on_http_server() {
    let mut pool = pool_with_origin();
    let (status, _, body, upstream) = exchange(&mut pool, request("GET", "/", b""));
    assert_eq!(status, 200);
    assert_eq!(String::from_utf8(body).unwrap(), "hello world");
    let via = line(&upstream.unwrap(), "Via").unwrap();
    assert!(via.ends_with(b"1.1 weldr"));
}

#[test]
fn test_method_on_http_server() {
    let methods =
        vec!["GET", "DELETE", "PATCH", "OPTIONS", "POST", "PUT", "TRACE", "HEAD", "CONNECT"];
    for method in methods.iter() {
        let mut pool = pool_with_origin();
        let (status, _, body, _) = exchange(&mut pool, request(method, "/method", b""));
        assert_eq!(status, 200);
        let expected = format!("hello {}", method);
        assert_eq!(expected, String::from_utf8(body).unwrap());
    }
}

#[test]
fn test_request_body() {
    let mut pool = pool_with_origin();
    let (status, headers, body, _) = exchange(&mut pool, request("POST", "/echo", b"hello"));
    assert_eq!(status, 200);
    assert_eq!(String::from_utf8(body).unwrap(), "hello");
    assert_eq!(Some(b"5".to_vec()), line(&headers, "Content-Length"));
}

#[test]
fn test_request_and_response_body_chunked() {
    let wire = b"\
        POST /echo HTTP/1.1\r\n\
        Host: www.example.com\r\n\
        Accept: */*\r\n\
        Connection: close\r\n\
        Transfer-Encoding: chunked\r\n\
        \r\n\
        5\r\n\
        hello\r\n\
        0\r\n\r\n\
        ";
    let mut buf = EasyBuf::new();
    buf.get_mut().extend_from_slice(&wire[..]);
    let mut codec = frontend::HttpCodec::new();
    let message = match codec.decode(&mut buf).unwrap() {
        Some(Frame::Message { message, body }) => {
            assert!(!body);
            message
        }
        _ => panic!("no request"),
    };
    let body = String::from_utf8(message.data().to_vec()).unwrap();
    let n = body.find("\r\n\r\n").unwrap() + 4;
    assert_eq!(&body[n..], "5\r\nhello\r\n0\r\n\r\n");
}

#[test]
fn test_response_body_streaming() {
    let mut pool = pool_with_origin();
    let mut req = request("GET", "/chunked", b"");
    set_raw(&mut req.headers, "Transfer-Encoding", "chunked");
    let (status, headers, body, upstream) = exchange(&mut pool, req);
    assert_eq!(status, 200);
    assert_eq!(String::from_utf8(body).unwrap(), "Hello Chunky World!");
    // the coding belongs to each connection: it is taken off both ways, and
    // whoever writes the response to the client frames the body anew
    assert!(!has(&headers, "Transfer-Encoding"));
    assert!(!has(&upstream.unwrap(), "Transfer-Encoding"));
}

#[test]
fn pool_exhaustion_is_bad_gateway() {
    let mut pool = Pool::default();
    let (status, _, _, upstream) = exchange(&mut pool, request("GET", "/", b""));
    assert_eq!(502, status);
    assert!(upstream.is_none());
}

#[test]
fn requests_go_round_the_active_backends() {
    let mut pool = Pool::default();
    for port in 6000..6004 {
        pool.add(Server::parse(&format!("http://127.0.0.1:{}", port), false).unwrap());
    }
    pool.mark_down(&Server::parse("http://127.0.0.1:6002", false).unwrap());
    let mut seen = Vec::new();
    for _ in 0..6 {
        match call(&mut pool, request("GET", "/", b"")) {
            Step::Dispatch(server, _) => seen.push(server.url()),
            Step::BadGateway => panic!("no backend"),
        }
    }
    assert_eq!(
        vec![
            "http://127.0.0.1:6001/",
            "http://127.0.0.1:6003/",
            "http://127.0.0.1:6000/",
            "http://127.0.0.1:6001/",
            "http://127.0.0.1:6003/",
            "http://127.0.0.1:6000/",
        ],
        seen
    );
}

#[test]
fn stats_count_up_by_one() {
    let mut stats = Stats::new();
    assert_eq!(0, stats.success());
    assert_eq!(0, stats.failure());
    stats.inc_success();
    stats.inc_success();
    stats.inc_failure();
    assert_eq!(2, stats.success());
    assert_eq!(1, stats.failure());
    let copy = stats.clone();
    assert_eq!(stats, copy);
}
