use weldr::http::{HeaderLine, Version};
use weldr::pool::Pool;
use weldr::proxy::{
    address, addressed, call, create_via_header, filter_backend_response_headers,
    filter_frontend_request_headers, map_request, map_response, reply, ProxyError, Reply, Request,
    Response, Step, Via,
};
use weldr::server::Server;

type Lines = Vec<HeaderLine>;

/// Sets a header as a header map does: the lines of that name go, and the
/// new line stands at the end.
fn set_raw(headers: &mut Lines, name: &str, value: &str) {
    headers.retain(|l| !l.name.eq_ignore_ascii_case(name.as_bytes()));
    headers.push(HeaderLine { name: name.as_bytes().to_vec(), value: value.as_bytes().to_vec() });
}

fn has(headers: &Lines, name: &str) -> bool {
    headers.iter().any(|l| l.name.eq_ignore_ascii_case(name.as_bytes()))
}

/// The value of a header that has one line.
fn line(headers: &Lines, name: &str) -> Option<Vec<u8>> {
    let mut values = headers.iter().filter(|l| l.name.eq_ignore_ascii_case(name.as_bytes()));
    match (values.next(), values.next()) {
        (Some(l), None) => Some(l.value.clone()),
        _ => None,
    }
}

fn request(headers: Lines, version: Version) -> Request<Vec<u8>> {
    Request {
        method: "POST".to_string(),
        path: "/echo".to_string(),
        query: Some("a=1&b=2".to_string()),
        version,
        headers,
        body: b"hello".to_vec(),
    }
}

#[test]
fn test_create_via_header() {
    let via = Via("1.0 proxy".to_owned());
    let version = Version::Http11;

    let given = create_via_header(None, &version);

    assert_eq!(Via("1.1 weldr".to_owned()), given);

    let given = create_via_header(Some(&via), &version);

    assert_eq!(Via("1.0 proxy, 1.1 weldr".to_owned()), given);
}

#[test]
fn via_names_every_version() {
    assert_eq!(Via("0.9 weldr".to_owned()), create_via_header(None, &Version::Http09));
    assert_eq!(Via("1.0 weldr".to_owned()), create_via_header(None, &Version::Http10));
    assert_eq!(Via("1.1 weldr".to_owned()), create_via_header(None, &Version::Http11));
    assert_eq!(Via("2 weldr".to_owned()), create_via_header(None, &Version::Http2));
}

#[test]
fn via_append_joins_with_comma_and_space() {
    let mut via = Via("1.0 fred".to_owned());
    via.append(Via("1.1 example.com".to_owned()));
    assert_eq!("1.0 fred, 1.1 example.com", via.0);
}

#[test]
fn test_filter_frontend_request_headers() {
    let bad = vec![
        ("TE", "gzip"),
        ("Transfer-Encoding", "chunked"),
        ("Host", "example.net"),
        ("Connection", "Keep-Alive, Foo, Bar"),
        ("Foo", "abc"),
        ("Foo", "def"),
        ("Keep-Alive", "timeout=30"),
        ("Proxy-Authorization", "randombase64value"),
        ("Trailer", "X-Random-Header"),
        ("Upgrade", "HTTP/2.0, SHTTP/1.3, IRC/6.9, RTA/x11"),
    ];

    let mut headers = Lines::new();

    for (name, value) in bad {
        set_raw(&mut headers, name, value);
    }

    let given = filter_frontend_request_headers(&headers);

    assert_eq!(false, has(&given, "TE"));
    assert_eq!(false, has(&given, "Transfer-Encoding"));
    assert_eq!(true, has(&given, "Host"));
    assert_eq!(false, has(&given, "Connection"));
    assert_eq!(false, has(&given, "Foo"));
    assert_eq!(false, has(&given, "Keep-Alive"));
    assert_eq!(false, has(&given, "Proxy-Authorization"));
    assert_eq!(false, has(&given, "Trailer"));
    assert_eq!(false, has(&given, "Upgrade"));
}

#[test]
fn test_filter_backend_response_headers() {
    let bad = vec![
        ("Transfer-Encoding", "chunked"),
        ("Host", "example.net"),
        ("Proxy-Authenticate", "randombase64value"),
        ("Trailer", "X-Random-Header"),
        ("Upgrade", "HTTP/2.0"),
    ];

    let mut headers = Lines::new();

    for (name, value) in bad {
        set_raw(&mut headers, name, value);
    }

    let given = filter_backend_response_headers(&headers);

    assert_eq!(false, has(&given, "Transfer-Encoding"));
    assert_eq!(true, has(&given, "Host"));
    assert_eq!(false, has(&given, "Proxy-Authenticate"));
    assert_eq!(false, has(&given, "Trailer"));
    assert_eq!(false, has(&given, "Upgrade"));
}

#[test]
fn filter_leaves_the_given_headers_alone() {
    let mut headers = Lines::new();
    set_raw(&mut headers, "Connection", "close, X-Secret");
    set_raw(&mut headers, "Close", "1");
    set_raw(&mut headers, "x-secret", "2");
    set_raw(&mut headers, "Accept", "*/*");
    let given = filter_frontend_request_headers(&headers);
    assert_eq!(1, given.len());
    assert_eq!(Some(b"*/*".to_vec()), line(&given, "accept"));
    assert_eq!(4, headers.len());
    assert!(has(&headers, "X-Secret"));
}

#[test]
fn filter_without_connection_header_drops_the_named_ones_only() {
    let mut headers = Lines::new();
    set_raw(&mut headers, "te", "trailers");
    set_raw(&mut headers, "Keep-Alive", "timeout=5");
    set_raw(&mut headers, "Close", "x");
    let given = filter_frontend_request_headers(&headers);
    assert!(!has(&given, "TE"));
    assert!(has(&given, "Keep-Alive"));
    assert!(has(&given, "Close"));
}

#[test]
fn test_must_send_own_http_version() {
    let given = map_request(request(Lines::new(), Version::Http10));
    assert_eq!(Version::Http11, given.version);
    assert_eq!(Some(b"1.0 weldr".to_vec()), line(&given.headers, "Via"));
}

#[test]
fn test_proxy_sets_via_header() {
    let given = map_request(request(Lines::new(), Version::Http11));
    assert_eq!(Some(b"1.1 weldr".to_vec()), line(&given.headers, "Via"));

    let mut headers = Lines::new();
    set_raw(&mut headers, "via", "1.0 fred");
    let given = map_request(request(headers, Version::Http11));
    assert_eq!(Some(b"1.0 fred, 1.1 weldr".to_vec()), line(&given.headers, "Via"));
    assert_eq!(1, given.headers.len());
}

#[test]
fn map_request_keeps_method_target_and_body() {
    let mut headers = Lines::new();
    set_raw(&mut headers, "Host", "example.net");
    set_raw(&mut headers, "Transfer-Encoding", "chunked");
    set_raw(&mut headers, "Content-Type", "text/plain");
    let given = map_request(request(headers, Version::Http11));
    assert_eq!("POST", given.method);
    assert_eq!("/echo", given.path);
    assert_eq!(Some("a=1&b=2".to_string()), given.query);
    assert_eq!(b"hello".to_vec(), given.body);
    assert_eq!(Some(b"example.net".to_vec()), line(&given.headers, "Host"));
    assert_eq!(Some(b"text/plain".to_vec()), line(&given.headers, "Content-Type"));
    assert!(!has(&given.headers, "Transfer-Encoding"));
    assert_eq!(3, given.headers.len());
}

#[test]
fn via_named_by_connection_is_replaced_not_kept() {
    let mut headers = Lines::new();
    set_raw(&mut headers, "Connection", "Via");
    set_raw(&mut headers, "Via", "1.0 fred");
    let given = map_request(request(headers, Version::Http11));
    assert_eq!(Some(b"1.0 fred, 1.1 weldr".to_vec()), line(&given.headers, "Via"));
}

#[test]
fn via_of_several_lines_is_not_read() {
    let mut headers = Lines::new();
    headers.push(HeaderLine { name: b"Via".to_vec(), value: b"1.0 fred".to_vec() });
    headers.push(HeaderLine { name: b"via".to_vec(), value: b"1.1 barney".to_vec() });
    let given = map_request(request(headers, Version::Http11));
    assert_eq!(Some(b"1.1 weldr".to_vec()), line(&given.headers, "Via"));
}

#[test]
fn map_response_keeps_status_and_body() {
    let mut headers = Lines::new();
    set_raw(&mut headers, "Transfer-Encoding", "chunked");
    set_raw(&mut headers, "Content-Type", "text/plain");
    let given = map_response(Response { status: 404, headers, body: b"gone".to_vec() });
    assert_eq!(404, given.status);
    assert_eq!(b"gone".to_vec(), given.body);
    assert!(!has(&given.headers, "Transfer-Encoding"));
    assert_eq!(Some(b"text/plain".to_vec()), line(&given.headers, "content-type"));
}

#[test]
fn address_joins_server_path_and_query() {
    let server = Server::parse("http://127.0.0.1:6000", false).unwrap();
    let mut headers = Lines::new();
    set_raw(&mut headers, "Host", "example.net");
    let out = match address(&server, request(headers, Version::Http11)) {
        Ok(out) => out,
        Err(e) => panic!("refused: {:?}", e),
    };
    assert_eq!("http://127.0.0.1:6000//echo?a=1&b=2", out.uri);
    assert_eq!("POST", out.method);
    assert_eq!(b"hello".to_vec(), out.body);
    assert_eq!(Some(b"example.net".to_vec()), line(&out.headers, "Host"));
}

#[test]
fn address_rewrites_host_where_the_server_asks() {
    let server = Server::parse("http://backend.local:6000", true).unwrap();
    let mut headers = Lines::new();
    set_raw(&mut headers, "host", "example.net");
    let mut req = request(headers, Version::Http11);
    req.query = None;
    let out = match address(&server, req) {
        Ok(out) => out,
        Err(e) => panic!("refused: {:?}", e),
    };
    assert_eq!("http://backend.local:6000//echo?", out.uri);
    assert_eq!(Some(b"backend.local:6000".to_vec()), line(&out.headers, "Host"));
    assert_eq!(1, out.headers.len());
}

#[test]
fn address_refuses_what_is_no_url() {
    // the Host header is only taken from a URL that is ASCII
    let server = Server::new("http://caf\u{e9}.example/".to_string(), true);
    assert_eq!(
        Some(ProxyError::BadUpstreamUrl),
        address(&server, request(Lines::new(), Version::Http11)).err()
    );
    let server = Server::new("http://caf\u{e9}.example/".to_string(), false);
    let out = address(&server, request(Lines::new(), Version::Http11)).ok().unwrap();
    assert_eq!("http://caf\u{e9}.example//echo?a=1&b=2", out.uri);
    // an origin-form URI has no authority to take the Host from
    let server = Server::new("/only/a/path".to_string(), true);
    assert_eq!(
        Some(ProxyError::BadUpstreamUrl),
        address(&server, request(Lines::new(), Version::Http11)).err()
    );
    let server = Server::new("/only/a/path".to_string(), false);
    assert!(address(&server, request(Lines::new(), Version::Http11)).is_ok());
    // what is no URI at all
    let server = Server::new("".to_string(), false);
    let mut req = request(Lines::new(), Version::Http11);
    req.path = "a/b".to_string();
    assert_eq!(Some(ProxyError::BadUpstreamUrl), address(&server, req).err());
}

#[test]
fn empty_pool_answers_bad_gateway() {
    let mut pool = Pool::default();
    match call(&mut pool, request(Lines::new(), Version::Http11)) {
        Step::BadGateway => {}
        Step::Dispatch(..) => panic!("dispatched from an empty pool"),
    }
}

#[test]
fn get_passes_through() {
    let mut pool = Pool::default();
    let origin = Server::parse("http://127.0.0.1:6000", false).unwrap();
    pool.add(origin.clone());
    let req = Request {
        method: "GET".to_string(),
        path: "/".to_string(),
        query: None,
        version: Version::Http11,
        headers: Lines::new(),
        body: Vec::<u8>::new(),
    };
    let (server, out) = match call(&mut pool, req) {
        Step::Dispatch(server, out) => (server, out),
        Step::BadGateway => panic!("no backend"),
    };
    assert_eq!(origin, server);
    assert_eq!("GET", out.method);
    assert_eq!("http://127.0.0.1:6000//?", out.uri);
    assert_eq!(Some(b"1.1 weldr".to_vec()), line(&out.headers, "Via"));

    let mut headers = Lines::new();
    set_raw(&mut headers, "Content-Length", "11");
    let upstream = Response { status: 200, headers, body: b"Hello World".to_vec() };
    match reply(&mut pool, &server, Some(upstream)) {
        Reply::Upstream(res) => {
            assert_eq!(200, res.status);
            assert_eq!(b"Hello World".to_vec(), res.body);
            assert_eq!(Some(b"11".to_vec()), line(&res.headers, "Content-Length"));
        }
        Reply::BadGateway => panic!("bad gateway"),
    }
    let backend = pool.find(&origin).unwrap();
    assert_eq!(1, backend.successes());
    assert_eq!(0, backend.failures());
}

#[test]
fn failed_exchange_answers_bad_gateway_and_counts() {
    let mut pool = Pool::default();
    let origin = Server::parse("http://127.0.0.1:6000", false).unwrap();
    pool.add(origin.clone());
    match reply::<Vec<u8>>(&mut pool, &origin, None) {
        Reply::BadGateway => {}
        Reply::Upstream(_) => panic!("a response out of nothing"),
    }
    let upstream = Response { status: 503, headers: Lines::new(), body: Vec::<u8>::new() };
    match reply(&mut pool, &origin, Some(upstream)) {
        Reply::Upstream(res) => assert_eq!(503, res.status),
        Reply::BadGateway => panic!("a server error is forwarded as it is"),
    }
    let backend = pool.find(&origin).unwrap();
    assert_eq!(0, backend.successes());
    assert_eq!(2, backend.failures());
}

#[test]
fn request_that_cannot_be_addressed_counts_as_failure() {
    let mut pool = Pool::default();
    let origin = Server::new("http://caf\u{e9}.example/".to_string(), true);
    pool.add(origin.clone());
    match call(&mut pool, request(Lines::new(), Version::Http11)) {
        Step::BadGateway => {}
        Step::Dispatch(..) => panic!("dispatched to no URL"),
    }
    assert_eq!(1, pool.find(&origin).unwrap().failures());
}

#[test]
fn addressed_needs_a_uri_and_for_the_host_an_authority() {
    let req = || request(Lines::new(), Version::Http11);
    assert_eq!(Some(ProxyError::BadUpstreamUrl), addressed(req(), None, None, false).err());
    assert_eq!(
        Some(ProxyError::BadUpstreamUrl),
        addressed(req(), Some("http://a/".to_string()), None, true).err()
    );
    let out = addressed(req(), Some("http://a/".to_string()), None, false).ok().unwrap();
    assert_eq!("http://a/", out.uri);
    assert_eq!(0, out.headers.len());
    let out =
        addressed(req(), Some("http://a/".to_string()), Some("a".to_string()), true).ok().unwrap();
    assert_eq!(Some(b"a".to_vec()), line(&out.headers, "Host"));
    assert_eq!("POST", out.method);
    assert_eq!(b"hello".to_vec(), out.body);
}

#[test]
fn filter_keeps_the_other_lines_in_their_order() {
    let names = ["Accept", "TE", "X-One", "Connection", "x-two", "X-One", "Upgrade", "Host"];
    let headers: Lines = names
        .iter()
        .enumerate()
        .map(|(i, n)| HeaderLine { name: n.as_bytes().to_vec(), value: vec![b'0' + i as u8] })
        .collect();
    let given = filter_frontend_request_headers(&headers);
    let kept: Vec<(&[u8], &[u8])> = given.iter().map(|l| (&l.name[..], &l.value[..])).collect();
    assert_eq!(
        vec![
            (&b"Accept"[..], &b"0"[..]),
            (&b"X-One"[..], &b"2"[..]),
            (&b"x-two"[..], &b"4"[..]),
            (&b"X-One"[..], &b"5"[..]),
            (&b"Host"[..], &b"7"[..]),
        ],
        kept
    );
}

#[test]
fn connection_header_of_several_lines_names_all_its_headers() {
    let mut headers = Lines::new();
    headers.push(HeaderLine { name: b"Connection".to_vec(), value: b"X-One".to_vec() });
    headers.push(HeaderLine { name: b"X-One".to_vec(), value: b"1".to_vec() });
    headers.push(HeaderLine { name: b"connection".to_vec(), value: b"x-two, close".to_vec() });
    headers.push(HeaderLine { name: b"X-Two".to_vec(), value: b"2".to_vec() });
    headers.push(HeaderLine { name: b"Close".to_vec(), value: b"3".to_vec() });
    headers.push(HeaderLine { name: b"X-Three".to_vec(), value: b"4".to_vec() });
    let given = filter_frontend_request_headers(&headers);
    assert_eq!(1, given.len());
    assert_eq!(Some(b"4".to_vec()), line(&given, "x-three"));
}

#[test]
fn connection_header_that_cannot_be_read_names_nothing() {
    let mut headers = Lines::new();
    headers.push(HeaderLine { name: b"Connection".to_vec(), value: b"\xff\xfe".to_vec() });
    headers.push(HeaderLine { name: b"Keep-Alive".to_vec(), value: b"1".to_vec() });
    let given = filter_frontend_request_headers(&headers);
    assert!(!has(&given, "Connection"));
    assert!(has(&given, "Keep-Alive"));
}

#[test]
fn via_is_read_with_the_space_round_it_taken_off() {
    let mut headers = Lines::new();
    set_raw(&mut headers, "Via", "  1.0 fred  ");
    let given = map_request(request(headers, Version::Http10));
    assert_eq!(Some(b"1.0 fred, 1.0 weldr".to_vec()), line(&given.headers, "Via"));
    // the proxy's line is the last one
    assert_eq!(b"Via".to_vec(), given.headers.last().unwrap().name);
}
