//! The worker's side of the control channel: the changes that the manager
//! publishes are applied to the worker's own pool.

use vstd::prelude::*;
use crate::mgmt::manager::{Change, Event};
use crate::pool::{BackendView, Pool, PoolView};
use crate::server::{Server, ServerView};
use crate::uri::uri_normal_form;

verus! {

/// The pool after the manager said to add the server that `url` names: a
/// fresh backend for it, with the `Host` header rewritten, unless the text
/// names no server or the pool has the server already.
pub open spec fn added(pool: PoolView, url: Seq<char>) -> PoolView {
    match uri_normal_form(url) {
        Some(normal) => pool.add(
            BackendView::fresh(ServerView { url: normal, map_host: true }),
        ),
        None => pool,
    }
}

/// The pool after the manager said that the server that `url` names is down
/// or active. A text that names no server, or a server that the pool does not
/// have, changes nothing.
pub open spec fn marked(pool: PoolView, url: Seq<char>, active: bool) -> PoolView {
    match uri_normal_form(url) {
        Some(normal) => pool.mark(normal, active),
        None => pool,
    }
}

/// Whether the pool has the server that `url` names.
pub open spec fn knows(pool: PoolView, url: Seq<char>) -> bool {
    match uri_normal_form(url) {
        Some(normal) => pool.has_server(normal),
        None => false,
    }
}

/// The pool after a change that the manager published.
pub open spec fn applied(pool: PoolView, change: Change, url: Seq<char>) -> PoolView {
    match change {
        Change::AddServer => added(pool, url),
        Change::MarkServerDown => marked(pool, url, false),
        Change::MarkServerActive => marked(pool, url, true),
    }
}

/// The subscriber that a worker registers with the manager. It holds the
/// worker's pool.
pub struct SubscriberImpl {
    pool: Pool,
}

impl View for SubscriberImpl {
    type V = PoolView;

    closed spec fn view(&self) -> PoolView {
        self.pool@
    }
}

impl SubscriberImpl {
    /// No two backends of the pool are for the same server.
    pub open spec fn wf(&self) -> bool {
        self@.wf()
    }

    /// A subscriber over `pool`.
    pub fn new(pool: Pool) -> (s: SubscriberImpl)
        ensures
            s@ == pool@,
    {
        SubscriberImpl { pool: pool }
    }

    /// Gives the pool back.
    pub fn into_pool(self) -> (pool: Pool)
        ensures
            pool@ == self@,
    {
        self.pool
    }

    /// The pool, to read.
    pub fn pool(&self) -> (pool: &Pool)
        ensures
            pool@ == self@,
    {
        &self.pool
    }

    /// The pool, to select from and to count dispatches in.
    pub fn pool_mut(&mut self) -> (pool: &mut Pool)
        ensures
            pool@ == old(self)@,
            final(self)@ == final(pool)@,
    {
        &mut self.pool
    }

    /// Adds the server that `url` names to the pool, as an active backend.
    /// Says whether a backend was added.
    pub fn add_server(&mut self, url: &str) -> (added_now: bool)
        requires
            old(self).wf(),
        ensures
            final(self).wf(),
            final(self)@ == added(old(self)@, url@),
            added_now == (uri_normal_form(url@) is Some && !knows(old(self)@, url@)),
    {
        match Server::parse(url, true) {
            Some(server) => self.pool.add(server),
            None => false,
        }
    }

    /// Takes the server that `url` names down. Says whether the pool has it.
    pub fn mark_server_down(&mut self, url: &str) -> (known: bool)
        requires
            old(self).wf(),
        ensures
            final(self).wf(),
            final(self)@ == marked(old(self)@, url@, false),
            known == knows(old(self)@, url@),
    {
        match Server::parse(url, true) {
            Some(server) => self.pool.mark_down(&server),
            None => false,
        }
    }

    /// Makes the server that `url` names active. Says whether the pool has
    /// it.
    pub fn mark_server_active(&mut self, url: &str) -> (known: bool)
        requires
            old(self).wf(),
        ensures
            final(self).wf(),
            final(self)@ == marked(old(self)@, url@, true),
            known == knows(old(self)@, url@),
    {
        match Server::parse(url, true) {
            Some(server) => self.pool.mark_active(&server),
            None => false,
        }
    }

    /// Applies a change that the manager published.
    pub fn handle(&mut self, event: &Event)
        requires
            old(self).wf(),
        ensures
            final(self).wf(),
            final(self)@ == applied(old(self)@, event@.change, event@.url),
    {
        match event.change {
            Change::AddServer => {
                self.add_server(event.url.as_str());
            },
            Change::MarkServerDown => {
                self.mark_server_down(event.url.as_str());
            },
            Change::MarkServerActive => {
                self.mark_server_active(event.url.as_str());
            },
        }
    }
}

} // verus!
