//! The rewriting rules of the proxy.
//!
//! A request that comes in from a client is rewritten before it goes to an
//! upstream server, and the response before it goes back: headers that are
//! meant for one connection only are dropped, and the proxy signs the
//! request with a `Via` header. The body and the rest of the message pass
//! through as they are.

use vstd::prelude::*;
use vstd::utf8::encode_utf8;
use crate::headers::{
    connection, connection_of, key, keys_of, lemma_without_at, names_key, option_views, set_header,
    text, text_of, value_views, with_header, without, without_names, ConnectionOption,
    ConnectionOptionView,
};
use crate::http::{line_views, HeaderLine, LineView, Version};
use crate::pool::{Dispatch, Pool};
use crate::server::Server;
use crate::uri::{authority, normal_form, uri_authority, uri_normal_form};

verus! {

/// The value of a `Via` header.
#[derive(Debug, PartialEq, Eq)]
pub struct Via(pub String);

impl Clone for Via {
    fn clone(&self) -> (v: Via)
        ensures
            v.0@ == self.0@,
    {
        Via(self.0.clone())
    }
}

impl Via {
    /// Appends another `Via` value to this one, after a comma and a space.
    pub fn append(&mut self, other: Via)
        ensures
            final(self).0@ == old(self).0@ + ", "@ + other.0@,
    {
        self.0.append(", ");
        self.0.append(other.0.as_str());
    }
}

/// The protocol version as a `Via` header names it.
pub open spec fn version_text(version: Version) -> Seq<char> {
    match version {
        Version::Http09 => "0.9"@,
        Version::Http10 => "1.0"@,
        Version::Http11 => "1.1"@,
        Version::Http2 => "2"@,
    }
}

/// The token by which the proxy signs a request that came in with
/// `version`.
pub open spec fn via_token(version: Version) -> Seq<char> {
    version_text(version) + " weldr"@
}

/// The `Via` value that goes upstream: the proxy's own token, behind the
/// value that came in, if one did.
pub open spec fn via_value(inbound: Option<Seq<char>>, version: Version) -> Seq<char> {
    match inbound {
        Some(v) => v + ", "@ + via_token(version),
        None => via_token(version),
    }
}

/// What an optional `Via` value stands for in contracts.
pub open spec fn via_text(via: Option<&Via>) -> Option<Seq<char>> {
    match via {
        Some(v) => Some(v.0@),
        None => None,
    }
}

/// The `Via` header that the proxy sends upstream, given the one that came
/// in, if any, and the version of the inbound request.
pub fn create_via_header(via: Option<&Via>, version: &Version) -> (r: Via)
    ensures
        r.0@ == via_value(via_text(via), *version),
{
    let number = match version {
        Version::Http09 => "0.9",
        Version::Http10 => "1.0",
        Version::Http11 => "1.1",
        Version::Http2 => "2",
    };
    let value = Via(String::from_str(number).concat(" weldr"));
    match via {
        Some(v) => {
            let mut v = v.clone();
            v.append(value);
            assert(v.0@ =~= via_value(via_text(via), *version));
            v
        },
        None => value,
    }
}

/// The name of the header that a connection option takes out.
pub open spec fn option_name(option: ConnectionOptionView) -> Seq<u8> {
    match option {
        ConnectionOptionView::Close => encode_utf8("Close"@),
        ConnectionOptionView::KeepAlive => encode_utf8("Keep-Alive"@),
        ConnectionOptionView::ConnectionHeader(name) => encode_utf8(name),
    }
}

/// The names of the headers that the options of a `Connection` header take
/// out.
pub open spec fn option_names(options: Seq<ConnectionOptionView>) -> Seq<Seq<u8>> {
    options.map_values(|o: ConnectionOptionView| option_name(o))
}

/// The names of the hop-by-hop headers of a request, whatever its
/// `Connection` header says.
pub open spec fn request_hop_names() -> Seq<Seq<u8>> {
    seq![
        encode_utf8("Connection"@),
        encode_utf8("TE"@),
        encode_utf8("Transfer-Encoding"@),
        encode_utf8("Proxy-Authorization"@),
        encode_utf8("Trailer"@),
        encode_utf8("Upgrade"@),
    ]
}

/// The names of the hop-by-hop headers of a response.
pub open spec fn response_hop_names() -> Seq<Seq<u8>> {
    seq![
        encode_utf8("Transfer-Encoding"@),
        encode_utf8("Proxy-Authenticate"@),
        encode_utf8("Trailer"@),
        encode_utf8("Upgrade"@),
    ]
}

/// The names of all headers that do not go upstream with a request whose
/// `Connection` header reads as `connection`.
pub open spec fn request_drop_names(connection: Option<Seq<ConnectionOptionView>>) -> Seq<Seq<u8>> {
    match connection {
        Some(options) => request_hop_names() + option_names(options),
        None => request_hop_names(),
    }
}

/// The keys of all headers that do not go upstream with a request whose
/// `Connection` header reads as `connection`.
pub open spec fn request_drop_keys(connection: Option<Seq<ConnectionOptionView>>) -> Set<Seq<u8>> {
    keys_of(request_drop_names(connection))
}

/// The keys of the hop-by-hop headers of a response.
pub open spec fn response_hop_keys() -> Set<Seq<u8>> {
    keys_of(response_hop_names())
}

/// A name as bytes to hold.
fn name_of(word: &str) -> (name: Vec<u8>)
    ensures
        name@ == encode_utf8(word@),
{
    vstd::slice::slice_to_vec(word.as_bytes())
}

/// The names of the headers that do not go upstream with a request whose
/// `Connection` header has these options.
fn drop_names(options: &Option<Vec<ConnectionOption>>) -> (names: Vec<Vec<u8>>)
    ensures
        value_views(names@) == request_drop_names(
            match *options {
                Some(v) => Some(option_views(v@)),
                None => None,
            },
        ),
{
    let mut names: Vec<Vec<u8>> = Vec::new();
    names.push(name_of("Connection"));
    names.push(name_of("TE"));
    names.push(name_of("Transfer-Encoding"));
    names.push(name_of("Proxy-Authorization"));
    names.push(name_of("Trailer"));
    names.push(name_of("Upgrade"));
    assert(value_views(names@) =~= request_hop_names());
    match options {
        Some(options) => {
            let ghost views = option_views(options@);
            let mut i: usize = 0;
            assert(option_names(views.take(0)) =~= Seq::empty());
            assert(request_hop_names() + Seq::<Seq<u8>>::empty() =~= request_hop_names());
            while i < options.len()
                invariant
                    i <= options.len(),
                    views == option_views(options@),
                    value_views(names@) == request_hop_names() + option_names(
                        views.take(i as int),
                    ),
                decreases options.len() - i,
            {
                let ghost before = value_views(names@);
                let name = match &options[i] {
                    ConnectionOption::Close => name_of("Close"),
                    ConnectionOption::KeepAlive => name_of("Keep-Alive"),
                    ConnectionOption::ConnectionHeader(name) => name_of(name.as_str()),
                };
                assert(name@ == option_name(views[i as int]));
                names.push(name);
                proof {
                    assert(value_views(names@) =~= before.push(option_name(views[i as int])));
                    assert(option_names(views.take(i + 1)) =~= option_names(
                        views.take(i as int),
                    ).push(option_name(views[i as int])));
                    assert(before.push(option_name(views[i as int])) =~= request_hop_names()
                        + option_names(views.take(i + 1)));
                }
                i = i + 1;
            }
            assert(views.take(i as int) =~= views);
        },
        None => {},
    }
    names
}

/// The headers of a client's request without those that must not go
/// upstream: `Connection`, every header that the `Connection` header names
/// (`Close` and `Keep-Alive` for the options of those names), `TE`,
/// `Transfer-Encoding`, `Proxy-Authorization`, `Trailer` and `Upgrade`.
/// Every other line stays as it is, in its place among the others.
pub fn filter_frontend_request_headers(headers: &Vec<HeaderLine>) -> (r: Vec<HeaderLine>)
    ensures
        line_views(r@) == without(
            line_views(headers@),
            request_drop_keys(connection_of(line_views(headers@))),
        ),
{
    let options = connection(headers);
    let names = drop_names(&options);
    without_names(headers, &names)
}

/// The headers of an upstream's response without those that must not go
/// back to the client: `Transfer-Encoding`, `Proxy-Authenticate`, `Trailer`
/// and `Upgrade`. Every other line stays as it is, in its place among the
/// others.
pub fn filter_backend_response_headers(headers: &Vec<HeaderLine>) -> (r: Vec<HeaderLine>)
    ensures
        line_views(r@) == without(line_views(headers@), response_hop_keys()),
{
    let mut names: Vec<Vec<u8>> = Vec::new();
    names.push(name_of("Transfer-Encoding"));
    names.push(name_of("Proxy-Authenticate"));
    names.push(name_of("Trailer"));
    names.push(name_of("Upgrade"));
    assert(value_views(names@) =~= response_hop_names());
    without_names(headers, &names)
}

/// A request as it came in from a client: the head in plain values, the
/// headers line by line, and the body, whatever carries it.
pub struct Request<B> {
    /// The method.
    pub method: String,
    /// The path of the request target.
    pub path: String,
    /// The query of the request target, without the `?`.
    pub query: Option<String>,
    /// The protocol version.
    pub version: Version,
    /// The headers.
    pub headers: Vec<HeaderLine>,
    /// The body.
    pub body: B,
}

/// A response: the status code, the headers line by line, and the body,
/// whatever carries it.
pub struct Response<B> {
    /// The status code.
    pub status: u16,
    /// The headers.
    pub headers: Vec<HeaderLine>,
    /// The body.
    pub body: B,
}

/// A request on its way to an upstream server.
pub struct Outbound<B> {
    /// The method.
    pub method: String,
    /// The absolute URI to fetch.
    pub uri: String,
    /// The headers.
    pub headers: Vec<HeaderLine>,
    /// The body.
    pub body: B,
}

/// The name of the `Via` header.
pub open spec fn via_name() -> Seq<u8> {
    encode_utf8("Via"@)
}

/// The name of the `Host` header.
pub open spec fn host_name() -> Seq<u8> {
    encode_utf8("Host"@)
}

/// The one line of a `Via` header that goes upstream for a request with
/// these headers and this version.
pub open spec fn via_line(lines: Seq<LineView>, version: Version) -> Seq<u8> {
    encode_utf8(via_value(text_of(lines, via_name()), version))
}

/// The headers that go upstream for a request with these headers and this
/// version: the lines that came in, without those that stay on the client's
/// connection, and with the proxy's `Via` as the one line of that header.
pub open spec fn mapped_request_lines(lines: Seq<LineView>, version: Version) -> Seq<LineView> {
    with_header(
        without(lines, request_drop_keys(connection_of(lines))),
        via_name(),
        via_line(lines, version),
    )
}

/// Rewrites a client's request for the way upstream. Method, path, query
/// and body pass through; the headers lose what stays on the client's
/// connection and gain the proxy's `Via`; the version is the proxy's own,
/// HTTP/1.1.
pub fn map_request<B>(req: Request<B>) -> (r: Request<B>)
    ensures
        r.method == req.method,
        r.path == req.path,
        r.query == req.query,
        r.body == req.body,
        r.version == Version::Http11,
        line_views(r.headers@) == mapped_request_lines(line_views(req.headers@), req.version),
{
    let inbound = match text(&req.headers, "Via".as_bytes()) {
        Some(text) => Some(Via(text)),
        None => None,
    };
    let via = create_via_header(inbound.as_ref(), &req.version);
    let filtered = filter_frontend_request_headers(&req.headers);
    let headers = set_header(&filtered, "Via".as_bytes(), via.0.as_str().as_bytes());
    Request {
        method: req.method,
        path: req.path,
        query: req.query,
        version: Version::Http11,
        headers,
        body: req.body,
    }
}

/// Rewrites an upstream's response for the way back to the client. Status
/// and body pass through; the headers lose what stays on the upstream
/// connection.
pub fn map_response<B>(res: Response<B>) -> (r: Response<B>)
    ensures
        r.status == res.status,
        r.body == res.body,
        line_views(r.headers@) == without(line_views(res.headers@), response_hop_keys()),
{
    let headers = filter_backend_response_headers(&res.headers);
    Response { status: res.status, headers, body: res.body }
}

/// What an optional text stands for in contracts, with nothing for `None`.
pub open spec fn text_or_empty(text: Option<String>) -> Seq<char> {
    match text {
        Some(t) => t@,
        None => Seq::empty(),
    }
}

/// The text of the upstream URL: the server's URI, the path, `?` and the
/// query.
pub open spec fn upstream_text(server: Seq<char>, path: Seq<char>, query: Option<String>) -> Seq<
    char,
> {
    server + path + "?"@ + text_or_empty(query)
}

/// Why a request cannot be sent upstream.
#[derive(Clone, Copy, Debug, PartialEq, Eq)]
pub enum ProxyError {
    /// The server's URI, the path and the query form no URL that can be
    /// fetched: the text is no URI, or, where the `Host` header is to be taken
    /// from it, it is not ASCII or has no authority.
    BadUpstreamUrl,
}

/// Whether a request for `url` can be sent to a server with this
/// host-rewrite flag.
pub open spec fn addressable(url: Seq<char>, map_host: bool) -> bool {
    &&& uri_normal_form(url) is Some
    &&& map_host ==> vstd::utf8::is_ascii_chars(url) && uri_authority(url) is Some
}

/// The headers of a request that is addressed to a server: with `map_host`
/// set, the `Host` header is the one line `host`; else the headers are as
/// they were.
pub open spec fn addressed_lines(lines: Seq<LineView>, host: Seq<char>, map_host: bool) -> Seq<
    LineView,
> {
    if map_host {
        with_header(lines, host_name(), encode_utf8(host))
    } else {
        lines
    }
}

/// Addresses a request to the URI `uri`, with `host` as the authority of
/// that URI, where it has one. A request without a URI cannot be sent. With
/// `map_host` set, the `Host` header becomes the authority, and a request
/// without an authority cannot be sent either.
pub fn addressed<B>(req: Request<B>, uri: Option<String>, host: Option<String>, map_host: bool) -> (r:
    Result<Outbound<B>, ProxyError>)
    ensures
        r is Ok <==> uri is Some && (map_host ==> host is Some),
        r matches Ok(out) ==> {
            &&& uri == Some(out.uri)
            &&& out.method == req.method
            &&& out.body == req.body
            &&& line_views(out.headers@) == addressed_lines(
                line_views(req.headers@),
                text_or_empty(host),
                map_host,
            )
        },
{
    let uri = match uri {
        Some(uri) => uri,
        None => {
            return Err(ProxyError::BadUpstreamUrl);
        },
    };
    let headers = if map_host {
        match host {
            Some(host) => set_header(&req.headers, "Host".as_bytes(), host.as_str().as_bytes()),
            None => {
                return Err(ProxyError::BadUpstreamUrl);
            },
        }
    } else {
        req.headers
    };
    Ok(Outbound { method: req.method, uri, headers, body: req.body })
}

/// The authority of `url`, or nothing where it has none.
pub open spec fn authority_or_empty(url: Seq<char>) -> Seq<char> {
    match uri_authority(url) {
        Some(a) => a,
        None => Seq::empty(),
    }
}

/// Addresses a rewritten request to `server`: the URI is the server's URI
/// followed by the path, `?` and the query; where the server asks for it,
/// the `Host` header becomes the authority of that URI.
pub fn address<B>(server: &Server, req: Request<B>) -> (r: Result<Outbound<B>, ProxyError>)
    ensures
        ({
            let url = upstream_text(server@.url, req.path@, req.query);
            &&& r is Ok <==> addressable(url, server@.map_host)
            &&& r matches Ok(out) ==> {
                &&& uri_normal_form(url) == Some(out.uri@)
                &&& out.method == req.method
                &&& out.body == req.body
                &&& line_views(out.headers@) == addressed_lines(
                    line_views(req.headers@),
                    authority_or_empty(url),
                    server@.map_host,
                )
            }
        }),
{
    let mut url = server.url();
    url.append(req.path.as_str());
    url.append("?");
    match &req.query {
        Some(q) => {
            url.append(q.as_str());
        },
        None => {
            assert(url@ + Seq::<char>::empty() =~= url@);
        },
    }
    assert(url@ == upstream_text(server@.url, req.path@, req.query));
    let uri = normal_form(url.as_str());
    let host = if server.map_host() && url.as_str().is_ascii() {
        authority(url.as_str())
    } else {
        None
    };
    addressed(req, uri, host, server.map_host())
}

/// What the proxy does next with a request.
pub enum Step<B> {
    /// Send this request to this server, then report how it went.
    Dispatch(Server, Outbound<B>),
    /// Answer `502 Bad Gateway`: no backend could be asked.
    BadGateway,
}

/// What goes back to the client.
pub enum Reply<B> {
    /// The upstream's response, rewritten.
    Upstream(Response<B>),
    /// `502 Bad Gateway`: the exchange with the upstream failed.
    BadGateway,
}

/// Takes a client's request on: selects a backend in round-robin order,
/// rewrites the request and addresses it to the backend's server. With no
/// active backend the answer is `502`. A request that cannot be addressed to
/// the selected server is answered `502` too and counted as a failure of
/// that backend.
pub fn call<B>(pool: &mut Pool, req: Request<B>) -> (step: Step<B>)
    requires
        old(pool).wf(),
    ensures
        final(pool).wf(),
        !old(pool)@.can_select() ==> step is BadGateway && final(pool)@ == old(pool)@.select(),
        old(pool)@.can_select() ==> ({
            let server = old(pool)@.backends[old(pool)@.selected()].server;
            let url = upstream_text(server.url, req.path@, req.query);
            let lines = mapped_request_lines(line_views(req.headers@), req.version);
            if addressable(url, server.map_host) {
                &&& final(pool)@ == old(pool)@.select()
                &&& step matches Step::Dispatch(to, out)
                &&& to@ == server
                &&& uri_normal_form(url) == Some(out.uri@)
                &&& out.method == req.method
                &&& out.body == req.body
                &&& line_views(out.headers@) == addressed_lines(
                    lines,
                    authority_or_empty(url),
                    server.map_host,
                )
            } else {
                &&& final(pool)@ == old(pool)@.select().count(server.url, false)
                &&& step is BadGateway
            }
        }),
{
    match pool.select() {
        Err(_) => Step::BadGateway,
        Ok(server) => {
            let mapped = map_request(req);
            match address(&server, mapped) {
                Ok(out) => Step::Dispatch(server, out),
                Err(_) => {
                    pool.complete(&server, Dispatch::Failed);
                    Step::BadGateway
                },
            }
        },
    }
}

/// How the upstream's answer, or the lack of one, counts for the backend.
pub open spec fn outcome_of<B>(outcome: Option<Response<B>>) -> Dispatch {
    match outcome {
        Some(res) => Dispatch::Responded(res.status),
        None => Dispatch::Failed,
    }
}

/// Takes the end of a dispatch to `server`: `None` where the exchange
/// failed or timed out. The backend's counters take note, and the client
/// gets the rewritten response, or `502` where there is none.
pub fn reply<B>(pool: &mut Pool, server: &Server, outcome: Option<Response<B>>) -> (r: Reply<B>)
    requires
        old(pool).wf(),
    ensures
        final(pool).wf(),
        final(pool)@ == old(pool)@.count(server@.url, outcome_of(outcome).succeeded()),
        match outcome {
            Some(res) => {
                &&& r matches Reply::Upstream(back)
                &&& back.status == res.status
                &&& back.body == res.body
                &&& line_views(back.headers@) == without(
                    line_views(res.headers@),
                    response_hop_keys(),
                )
            },
            None => r is BadGateway,
        },
{
    match outcome {
        Some(res) => {
            pool.complete(server, Dispatch::Responded(res.status));
            Reply::Upstream(map_response(res))
        },
        None => {
            pool.complete(server, Dispatch::Failed);
            Reply::BadGateway
        },
    }
}

/// The named hop-by-hop headers are among those that the rewriting drops,
/// whatever the `Connection` header says, and so is every header that an
/// option of the `Connection` header names.
pub proof fn lemma_named_hop_headers(connection: Option<Seq<ConnectionOptionView>>)
    ensures
        request_drop_keys(connection).contains(key(encode_utf8("Connection"@))),
        request_drop_keys(connection).contains(key(encode_utf8("TE"@))),
        request_drop_keys(connection).contains(key(encode_utf8("Transfer-Encoding"@))),
        request_drop_keys(connection).contains(key(encode_utf8("Proxy-Authorization"@))),
        request_drop_keys(connection).contains(key(encode_utf8("Trailer"@))),
        request_drop_keys(connection).contains(key(encode_utf8("Upgrade"@))),
        forall|options: Seq<ConnectionOptionView>, i: int|
            connection == Some(options) && 0 <= i < options.len() ==> request_drop_keys(
                connection,
            ).contains(key(#[trigger] option_name(options[i]))),
{
    let names = request_drop_names(connection);
    assert(names_key(names, key(encode_utf8("Connection"@)), 0));
    assert(names_key(names, key(encode_utf8("TE"@)), 1));
    assert(names_key(names, key(encode_utf8("Transfer-Encoding"@)), 2));
    assert(names_key(names, key(encode_utf8("Proxy-Authorization"@)), 3));
    assert(names_key(names, key(encode_utf8("Trailer"@)), 4));
    assert(names_key(names, key(encode_utf8("Upgrade"@)), 5));
    assert forall|options: Seq<ConnectionOptionView>, i: int|
        connection == Some(options) && 0 <= i < options.len() implies request_drop_keys(
        connection,
    ).contains(key(#[trigger] option_name(options[i]))) by {
        assert(names[6 + i] == option_name(options[i]));
        assert(names_key(names, key(option_name(options[i])), 6 + i));
    }
}

/// No header that stays on the client's connection goes upstream: every
/// line that goes upstream, but the proxy's own `Via` at the end, came in
/// with the request, names none of the headers that the rewriting drops, and
/// is no `Via`.
pub proof fn lemma_hop_headers_dropped(lines: Seq<LineView>, version: Version)
    ensures
        ({
            let mapped = mapped_request_lines(lines, version);
            forall|i: int|
                0 <= i < mapped.len() - 1 ==> {
                    &&& lines.contains(#[trigger] mapped[i])
                    &&& !request_drop_keys(connection_of(lines)).contains(key(mapped[i].name))
                    &&& key(mapped[i].name) != key(via_name())
                }
        }),
{
    let drop = request_drop_keys(connection_of(lines));
    let filtered = without(lines, drop);
    let vias = keys_of(seq![via_name()]);
    let rest = without(filtered, vias);
    let mapped = mapped_request_lines(lines, version);
    assert(names_key(seq![via_name()], key(via_name()), 0));
    assert forall|i: int| 0 <= i < mapped.len() - 1 implies {
        &&& lines.contains(#[trigger] mapped[i])
        &&& !drop.contains(key(mapped[i].name))
        &&& key(mapped[i].name) != key(via_name())
    } by {
        assert(mapped[i] == rest[i]);
        lemma_without_at(filtered, vias, i);
        let j = choose|j: int| 0 <= j < filtered.len() && filtered[j] == rest[i];
        lemma_without_at(lines, drop, j);
        let k = choose|k: int| 0 <= k < lines.len() && lines[k] == filtered[j];
        assert(lines[k] == mapped[i]);
    }
}

/// The request that goes upstream carries the proxy's `Via` as its last
/// line. The value ends with the proxy's token for the inbound version, and
/// where a `Via` of one line came in, it starts with that value.
pub proof fn lemma_via_signed(lines: Seq<LineView>, version: Version)
    ensures
        mapped_request_lines(lines, version).len() > 0,
        mapped_request_lines(lines, version).last() == (LineView {
            name: via_name(),
            value: via_line(lines, version),
        }),
        ({
            let value = via_value(text_of(lines, via_name()), version);
            let token = via_token(version);
            &&& value.len() >= token.len()
            &&& value.subrange(value.len() - token.len(), value.len() as int) == token
            &&& text_of(lines, via_name()) matches Some(inbound) ==> value.len() > inbound.len()
                && value.subrange(0, inbound.len() as int) == inbound
        }),
{
    let value = via_value(text_of(lines, via_name()), version);
    let token = via_token(version);
    match text_of(lines, via_name()) {
        Some(inbound) => {
            reveal_strlit(", ");
            assert(value =~= inbound + ", "@ + token);
            assert(value.subrange(value.len() - token.len(), value.len() as int) =~= token);
            assert(value.subrange(0, inbound.len() as int) =~= inbound);
        },
        None => {
            assert(value.subrange(0, value.len() as int) =~= value);
        },
    }
}

} // verus!
