//! The administrative interface: which request does what, and what the
//! answers hold. Reading and writing JSON is left to the caller.

use vstd::prelude::*;
use crate::mgmt::manager::{published, targets, Change, EventView, Manager, Publish};
use crate::pool::{Backend, BackendView, Pool, PoolView};
use crate::server::{Server, ServerView};
use crate::uri::uri_normal_form;

verus! {

/// A link to a related resource.
#[derive(Debug, PartialEq, Eq)]
pub struct Link {
    /// What the link leads to.
    pub rel: String,
    /// Where it leads.
    pub href: String,
    /// The method to use, where it is not `GET`.
    pub method: Option<String>,
}

/// One server of the pool, as the interface shows it.
#[derive(Debug, PartialEq, Eq)]
pub struct PoolServer {
    /// The server's URI.
    pub url: String,
    /// What can be done with the server.
    pub links: Option<Vec<Link>>,
}

/// The servers of the pool, as the interface shows them.
#[derive(Debug, PartialEq, Eq)]
pub struct PoolServers {
    /// The servers, in pool order.
    pub servers: Vec<PoolServer>,
    /// What can be done with the list.
    pub links: Option<Vec<Link>>,
}

/// The entry page of the interface.
#[derive(Debug, PartialEq, Eq)]
pub struct Index {
    /// What this interface is.
    pub about: String,
    /// Where to go from here.
    pub links: Vec<Link>,
}

/// What a [`Link`] stands for in contracts.
pub struct LinkView {
    /// What the link leads to.
    pub rel: Seq<char>,
    /// Where it leads.
    pub href: Seq<char>,
    /// The method to use, or `None` for `GET`.
    pub method: Option<Seq<char>>,
}

impl View for Link {
    type V = LinkView;

    open spec fn view(&self) -> LinkView {
        LinkView {
            rel: self.rel@,
            href: self.href@,
            method: match self.method {
                Some(m) => Some(m@),
                None => None,
            },
        }
    }
}

/// The link by which a server is removed.
pub open spec fn delete_link(url: Seq<char>) -> LinkView {
    LinkView { rel: "delete"@, href: "/servers/"@ + url, method: Some("DELETE"@) }
}

/// The link by which a server is added.
pub open spec fn add_link() -> LinkView {
    LinkView { rel: "add"@, href: "/servers"@, method: Some("POST"@) }
}

/// The link to the list of servers.
pub open spec fn servers_link() -> LinkView {
    LinkView { rel: "servers"@, href: "/servers"@, method: None }
}

/// Whether `shown` shows the server at `url`: its URI and the one link that
/// removes it.
pub open spec fn shows(shown: PoolServer, url: Seq<char>) -> bool {
    &&& shown.url@ == url
    &&& shown.links matches Some(links)
    &&& links@.len() == 1
    &&& links@[0]@ == delete_link(url)
}

/// Whether `list` shows the servers of `pool`: one entry for each backend,
/// in pool order, and the one link that adds a server.
pub open spec fn lists(list: PoolServers, pool: PoolView) -> bool {
    &&& list.servers@.len() == pool.backends.len()
    &&& forall|i: int|
        0 <= i < pool.backends.len() ==> shows(#[trigger] list.servers@[i], pool.backends[i].server.url)
    &&& list.links matches Some(links)
    &&& links@.len() == 1
    &&& links@[0]@ == add_link()
}

/// The entry page: what the interface is, and the link to the servers.
pub fn index() -> (page: Index)
    ensures
        page.about@ == "Weldr Management API"@,
        page.links@.len() == 1,
        page.links@[0]@ == servers_link(),
{
    let mut links: Vec<Link> = Vec::new();
    links.push(
        Link { rel: String::from_str("servers"), href: String::from_str("/servers"), method: None },
    );
    Index { about: String::from_str("Weldr Management API"), links }
}

/// How one backend is shown.
fn show(backend: &Backend) -> (shown: PoolServer)
    ensures
        shows(shown, backend@.server.url),
{
    let url = backend.server().url();
    let href = String::from_str("/servers/").concat(url.as_str());
    let mut links: Vec<Link> = Vec::new();
    links.push(
        Link {
            rel: String::from_str("delete"),
            href,
            method: Some(String::from_str("DELETE")),
        },
    );
    PoolServer { url, links: Some(links) }
}

/// The list of all servers of the pool.
pub fn all_servers_reponse(pool: &Pool) -> (list: PoolServers)
    ensures
        lists(list, pool@),
{
    let backends = pool.all();
    let mut servers: Vec<PoolServer> = Vec::new();
    let mut i: usize = 0;
    while i < backends.len()
        invariant
            i <= backends.len(),
            servers@.len() == i,
            backends@.map_values(|b: Backend| b@) == pool@.backends,
            forall|k: int| 0 <= k < i ==> shows(#[trigger] servers@[k], pool@.backends[k].server.url),
        decreases backends.len() - i,
    {
        assert(backends@.map_values(|b: Backend| b@)[i as int] == backends[i as int]@);
        servers.push(show(&backends[i]));
        i = i + 1;
    }
    let mut links: Vec<Link> = Vec::new();
    links.push(
        Link {
            rel: String::from_str("add"),
            href: String::from_str("/servers"),
            method: Some(String::from_str("POST")),
        },
    );
    PoolServers { servers, links: Some(links) }
}

/// The answer to `GET /servers`: the list of all servers.
pub fn get_servers(pool: &Pool) -> (list: PoolServers)
    ensures
        lists(list, pool@),
{
    all_servers_reponse(pool)
}

/// Why a request to the interface is refused.
#[derive(Clone, Copy, Debug, PartialEq, Eq)]
pub enum AdminError {
    /// The URL in the request names no server.
    BadUrl,
}

/// The answer to a request that adds a server: the list of servers after
/// the request, and the publish to the workers where a server was added.
#[derive(Debug, PartialEq, Eq)]
pub struct Added {
    /// The servers of the pool after the request.
    pub servers: PoolServers,
    /// What is to be delivered to the workers, if a server was added.
    pub publish: Option<Publish>,
}

/// The answer to `POST /servers` for the URL in the request's body. A text
/// that is no URI is refused. Else the server is added to the pool, without
/// host rewriting, unless the pool has it already; where it was added, the
/// addition is published to the workers. The answer lists the servers that
/// the pool then has.
pub fn add_server(pool: &mut Pool, manager: &mut Manager, url: &str) -> (r: Result<
    Added,
    AdminError,
>)
    requires
        old(pool).wf(),
        old(manager).wf(),
    ensures
        final(pool).wf(),
        final(manager).wf(),
        final(manager).workers() == old(manager).workers(),
        final(manager).next_id() == old(manager).next_id(),
        match uri_normal_form(url@) {
            None => {
                &&& r == Err::<Added, AdminError>(AdminError::BadUrl)
                &&& final(pool)@ == old(pool)@
                &&& final(manager).subscribers() == old(manager).subscribers()
            },
            Some(normal) => {
                &&& r matches Ok(added)
                &&& final(pool)@ == old(pool)@.add(
                    BackendView::fresh(ServerView { url: normal, map_host: false }),
                )
                &&& lists(added.servers, final(pool)@)
                &&& if old(pool)@.has_server(normal) {
                    &&& added.publish is None
                    &&& final(manager).subscribers() == old(manager).subscribers()
                } else {
                    &&& added.publish matches Some(p)
                    &&& p.event@ == (EventView { change: Change::AddServer, url: normal })
                    &&& p.subscribers@ == targets(old(manager).subscribers())
                    &&& final(manager).subscribers() == published(old(manager).subscribers())
                }
            },
        },
{
    match Server::parse(url, false) {
        None => Err(AdminError::BadUrl),
        Some(server) => {
            let normal = server.url();
            let publish = if pool.add(server) {
                Some(manager.publish_new_server(normal.as_str()))
            } else {
                None
            };
            Ok(Added { servers: all_servers_reponse(pool), publish })
        },
    }
}

/// The answer to `DELETE /servers/<url>`: the server that the text names
/// leaves the pool, if the pool has it, and the answer lists the servers that
/// the pool then has. A text that names no server removes nothing.
pub fn remove_server(pool: &mut Pool, url: &str) -> (list: PoolServers)
    requires
        old(pool).wf(),
    ensures
        final(pool).wf(),
        final(pool)@ == match uri_normal_form(url@) {
            Some(normal) => old(pool)@.remove(normal),
            None => old(pool)@,
        },
        lists(list, final(pool)@),
{
    match Server::parse(url, false) {
        Some(server) => {
            pool.remove(&server);
        },
        None => {},
    }
    all_servers_reponse(pool)
}

/// The methods that the interface tells apart.
#[derive(Clone, Copy, Debug, PartialEq, Eq)]
pub enum Method {
    /// `GET`
    Get,
    /// `POST`
    Post,
    /// `DELETE`
    Delete,
    /// Any other method.
    Other,
}

/// What a request to the interface asks for.
#[derive(Debug, PartialEq, Eq)]
pub enum Route {
    /// The entry page.
    Index,
    /// The list of servers.
    Servers,
    /// To add the server that the request's body names.
    AddServer,
    /// To remove the server with this URL.
    RemoveServer(String),
    /// Nothing that the interface knows: the answer is `404`.
    NotFound,
}

/// What a [`Route`] stands for in contracts.
pub enum RouteView {
    /// The entry page.
    Index,
    /// The list of servers.
    Servers,
    /// To add a server.
    AddServer,
    /// To remove the server with this URL.
    RemoveServer(Seq<char>),
    /// Nothing that the interface knows.
    NotFound,
}

impl View for Route {
    type V = RouteView;

    open spec fn view(&self) -> RouteView {
        match self {
            Route::Index => RouteView::Index,
            Route::Servers => RouteView::Servers,
            Route::AddServer => RouteView::AddServer,
            Route::RemoveServer(url) => RouteView::RemoveServer(url@),
            Route::NotFound => RouteView::NotFound,
        }
    }
}

/// Whether `path` is `/servers/` followed by at least one character.
pub open spec fn names_server(path: Seq<char>) -> bool {
    path.len() > "/servers/"@.len() && path.subrange(0, "/servers/"@.len() as int) == "/servers/"@
}

/// What a request with this method and path asks for.
pub open spec fn route_of(method: Method, path: Seq<char>) -> RouteView {
    if method == Method::Get && path == "/"@ {
        RouteView::Index
    } else if method == Method::Get && path == "/servers"@ {
        RouteView::Servers
    } else if method == Method::Post && path == "/servers"@ {
        RouteView::AddServer
    } else if method == Method::Delete && names_server(path) {
        RouteView::RemoveServer(path.subrange("/servers/"@.len() as int, path.len() as int))
    } else {
        RouteView::NotFound
    }
}

/// Whether two texts are the same.
fn same_text(a: &str, b: &str) -> (r: bool)
    ensures
        r == (a@ == b@),
{
    String::from_str(a) == String::from_str(b)
}

/// What a request with this method and path asks for.
pub fn route(method: Method, path: &str) -> (r: Route)
    ensures
        r@ == route_of(method, path@),
{
    match method {
        Method::Get => {
            if same_text(path, "/") {
                Route::Index
            } else if same_text(path, "/servers") {
                Route::Servers
            } else {
                Route::NotFound
            }
        },
        Method::Post => {
            if same_text(path, "/servers") {
                Route::AddServer
            } else {
                Route::NotFound
            }
        },
        Method::Delete => {
            proof {
                reveal_strlit("/servers/");
            }
            let len = path.unicode_len();
            if len > 9 && same_text(path.substring_char(0, 9), "/servers/") {
                Route::RemoveServer(String::from_str(path.substring_char(9, len)))
            } else {
                Route::NotFound
            }
        },
        Method::Other => Route::NotFound,
    }
}

/// The status code of the answer to a request: `404` for a request that
/// asks for nothing the interface knows, `400` for one that is refused,
/// `200` for every other.
pub fn status(route: &Route, refused: bool) -> (code: u16)
    ensures
        code == if route@ is NotFound {
            404u16
        } else if refused {
            400u16
        } else {
            200u16
        },
{
    match route {
        Route::NotFound => 404,
        _ => if refused {
            400
        } else {
            200
        },
    }
}

} // verus!
