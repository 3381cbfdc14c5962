//! The identity of an upstream server.

use vstd::prelude::*;
use crate::uri::{normal_form, uri_normal_form};

verus! {

/// What a [`Server`] stands for in contracts.
pub struct ServerView {
    /// The text of the server's URI.
    pub url: Seq<char>,
    /// Whether the outbound `Host` header is rewritten to the upstream authority.
    pub map_host: bool,
}

/// An upstream server: the text of its absolute URI and the host-rewrite flag.
/// A server is never changed after it was made. Two servers are the same
/// server exactly when their URIs are the same text; the flag plays no part.
#[derive(Debug)]
pub struct Server {
    url: String,
    /// Whether the upstream wants its own authority in the `Host` header.
    map_host: bool,
}

impl View for Server {
    type V = ServerView;

    closed spec fn view(&self) -> ServerView {
        ServerView { url: self.url@, map_host: self.map_host }
    }
}

impl Server {
    /// A server at `url`.
    pub fn new(url: String, map_host: bool) -> (s: Server)
        ensures
            s@.url == url@,
            s@.map_host == map_host,
    {
        Server { url, map_host }
    }

    /// The server that `text` names: `None` where `text` is no URI, else the
    /// server at the URI that the text was parsed to.
    pub fn parse(text: &str, map_host: bool) -> (r: Option<Server>)
        ensures
            r is Some <==> uri_normal_form(text@) is Some,
            r matches Some(s) ==> uri_normal_form(text@) == Some(s@.url) && s@.map_host == map_host,
    {
        match normal_form(text) {
            Some(url) => Some(Server { url, map_host }),
            None => None,
        }
    }

    /// The URI text.
    pub fn url(&self) -> (u: String)
        ensures
            u@ == self@.url,
    {
        self.url.clone()
    }

    /// The host-rewrite flag.
    pub fn map_host(&self) -> (b: bool)
        ensures
            b == self@.map_host,
    {
        self.map_host
    }
}

impl Clone for Server {
    fn clone(&self) -> (s: Server)
        ensures
            s@ == self@,
    {
        Server { url: self.url.clone(), map_host: self.map_host }
    }
}

impl PartialEq for Server {
    fn eq(&self, other: &Server) -> (r: bool) {
        self.url == other.url
    }
}

impl Eq for Server {}

impl vstd::std_specs::cmp::PartialEqSpecImpl for Server {
    open spec fn obeys_eq_spec() -> bool {
        true
    }

    open spec fn eq_spec(&self, other: &Server) -> bool {
        self@.url == other@.url
    }
}

} // verus!
