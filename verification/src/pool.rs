//! The round-robin pool of backends.
//!
//! A pool is an ordered list of backends, no two for the same server, and a
//! cursor that remembers which backend was handed out last. Selection walks
//! forward from the cursor and hands out the first active backend it meets.

use vstd::prelude::*;
use crate::server::{Server, ServerView};
use crate::stats::Stats;

verus! {

/// Whether a backend currently takes traffic.
#[derive(Clone, Copy, Debug, PartialEq, Eq, Hash)]
pub enum ServerState {
    /// The backend is eligible for selection.
    Active,
    /// The backend is skipped by selection.
    Down,
}

/// What a [`Backend`] stands for in contracts. The counters are unbounded
/// here; the machine's counters stop at `usize::MAX`.
pub struct BackendView {
    /// The server behind the backend.
    pub server: ServerView,
    /// Whether the backend is active.
    pub active: bool,
    /// Dispatches that succeeded.
    pub successes: nat,
    /// Dispatches that failed.
    pub failures: nat,
}

impl BackendView {
    /// A backend as it enters a pool: active, nothing counted.
    pub open spec fn fresh(server: ServerView) -> BackendView {
        BackendView { server, active: true, successes: 0, failures: 0 }
    }

    /// The backend after one more completed dispatch.
    pub open spec fn record(self, success: bool) -> BackendView {
        if success {
            BackendView { successes: self.successes + 1, ..self }
        } else {
            BackendView { failures: self.failures + 1, ..self }
        }
    }

    /// The backend after a run of completed dispatches, oldest first.
    pub open spec fn record_all(self, outcomes: Seq<bool>) -> BackendView
        decreases outcomes.len(),
    {
        if outcomes.len() == 0 {
            self
        } else {
            self.record_all(outcomes.drop_last()).record(outcomes.last())
        }
    }

    /// The backend after one more completed dispatch on the machine, where a
    /// counter that has reached `usize::MAX` stays there.
    pub open spec fn count(self, success: bool) -> BackendView {
        if success && self.successes < usize::MAX {
            self.record(true)
        } else if !success && self.failures < usize::MAX {
            self.record(false)
        } else {
            self
        }
    }

    /// The backend after a run of completed dispatches on the machine,
    /// oldest first.
    pub open spec fn count_all(self, outcomes: Seq<bool>) -> BackendView
        decreases outcomes.len(),
    {
        if outcomes.len() == 0 {
            self
        } else {
            self.count_all(outcomes.drop_last()).count(outcomes.last())
        }
    }

    /// The backend with its state set.
    pub open spec fn with_active(self, active: bool) -> BackendView {
        BackendView { active, ..self }
    }

}

/// A server together with its state and its counters.
#[derive(Debug, PartialEq, Eq)]
pub struct Backend {
    server: Server,
    state: ServerState,
    stats: Stats,
}

impl View for Backend {
    type V = BackendView;

    closed spec fn view(&self) -> BackendView {
        BackendView {
            server: self.server@,
            active: self.state is Active,
            successes: self.stats.successes(),
            failures: self.stats.failures(),
        }
    }
}

impl Clone for Backend {
    fn clone(&self) -> (b: Backend)
        ensures
            b@ == self@,
    {
        let state = match self.state {
            ServerState::Active => ServerState::Active,
            ServerState::Down => ServerState::Down,
        };
        Backend { server: self.server.clone(), state, stats: self.stats.clone() }
    }
}

impl Backend {
    /// A new backend for `server`: active, with both counters at zero.
    pub fn new(server: Server) -> (b: Backend)
        ensures
            b@ == BackendView::fresh(server@),
    {
        Backend { server, state: ServerState::Active, stats: Stats::new() }
    }

    /// Counts one successful dispatch. A counter that has reached
    /// `usize::MAX` stays there.
    pub fn inc_success(&mut self)
        ensures
            final(self)@ == old(self)@.count(true),
    {
        self.stats.inc_success();
    }

    /// Counts one failed dispatch. A counter that has reached `usize::MAX`
    /// stays there.
    pub fn inc_failure(&mut self)
        ensures
            final(self)@ == old(self)@.count(false),
    {
        self.stats.inc_failure();
    }

    /// The server behind this backend.
    pub fn server(&self) -> (s: Server)
        ensures
            s@ == self@.server,
    {
        self.server.clone()
    }

    /// The number of successful dispatches counted.
    pub fn successes(&self) -> (n: usize)
        ensures
            n == self@.successes,
    {
        self.stats.success()
    }

    /// The number of failed dispatches counted.
    pub fn failures(&self) -> (n: usize)
        ensures
            n == self@.failures,
    {
        self.stats.failure()
    }

    /// Whether the backend is active.
    pub fn is_active(&self) -> (b: bool)
        ensures
            b == self@.active,
    {
        match self.state {
            ServerState::Active => true,
            ServerState::Down => false,
        }
    }

    /// Whether the backend is down.
    pub fn is_down(&self) -> (b: bool)
        ensures
            b == !self@.active,
    {
        match self.state {
            ServerState::Active => false,
            ServerState::Down => true,
        }
    }

    /// Makes the backend eligible for selection.
    pub fn mark_active(&mut self)
        ensures
            final(self)@ == old(self)@.with_active(true),
    {
        self.state = ServerState::Active;
    }

    /// Takes the backend out of selection.
    pub fn mark_down(&mut self)
        ensures
            final(self)@ == old(self)@.with_active(false),
    {
        self.state = ServerState::Down;
    }
}


/// What a pool stands for in contracts: its backends in order, and the cursor.
pub struct PoolView {
    /// The backends, in the order in which they were added.
    pub backends: Seq<BackendView>,
    /// The index that selection last stopped at.
    pub cursor: nat,
}

impl PoolView {
    /// A pool without backends.
    pub open spec fn empty() -> PoolView {
        PoolView { backends: Seq::empty(), cursor: 0 }
    }

    /// No two backends are for the same server.
    pub open spec fn wf(self) -> bool {
        forall|i: int, j: int|
            0 <= i < j < self.backends.len() ==> self.backends[i].server.url
                != self.backends[j].server.url
    }

    /// Whether `i` is the place of a backend for the server at `url`.
    pub open spec fn holds_at(self, url: Seq<char>, i: int) -> bool {
        0 <= i < self.backends.len() && self.backends[i].server.url == url
    }

    /// Whether the pool has a backend for the server at `url`.
    pub open spec fn has_server(self, url: Seq<char>) -> bool {
        exists|i: int| self.holds_at(url, i)
    }

    /// The place of the backend for the server at `url`, if there is one.
    pub open spec fn index_of(self, url: Seq<char>) -> int {
        choose|i: int| self.holds_at(url, i)
    }

    /// The pool after an attempt to add `backend`: unchanged if its server is
    /// already there, else with `backend` at the end.
    pub open spec fn add(self, backend: BackendView) -> PoolView {
        if self.has_server(backend.server.url) {
            self
        } else {
            PoolView { backends: self.backends.push(backend), ..self }
        }
    }

    /// The pool without the backend for the server at `url`.
    pub open spec fn remove(self, url: Seq<char>) -> PoolView {
        if self.has_server(url) {
            PoolView { backends: self.backends.remove(self.index_of(url)), ..self }
        } else {
            self
        }
    }

    /// The pool with backend `i` replaced.
    pub open spec fn set(self, i: int, backend: BackendView) -> PoolView {
        PoolView { backends: self.backends.update(i, backend), ..self }
    }

    /// The pool with the backend for the server at `url`, if there is one,
    /// made active or taken down.
    pub open spec fn mark(self, url: Seq<char>, active: bool) -> PoolView {
        if self.has_server(url) {
            let i = self.index_of(url);
            self.set(i, self.backends[i].with_active(active))
        } else {
            self
        }
    }

    /// The pool after one more dispatch to the server at `url` was counted.
    pub open spec fn count(self, url: Seq<char>, success: bool) -> PoolView {
        if self.has_server(url) {
            let i = self.index_of(url);
            self.set(i, self.backends[i].count(success))
        } else {
            self
        }
    }

    /// The pool after an attempt to add each of `backends` in turn.
    pub open spec fn add_all(self, backends: Seq<BackendView>) -> PoolView
        decreases backends.len(),
    {
        if backends.len() == 0 {
            self
        } else {
            self.add_all(backends.drop_last()).add(backends.last())
        }
    }

    /// Whether some backend is active.
    pub open spec fn can_select(self) -> bool {
        exists|i: int| 0 <= i < self.backends.len() && self.backends[i].active
    }

    /// The index reached from the cursor in `d` steps forward, wrapping round.
    pub open spec fn slot(self, d: int) -> int {
        (self.cursor + d) % (self.backends.len() as int)
    }

    /// Whether selection stops `d` steps after the cursor: the backend there
    /// is active and every backend passed on the way is down.
    pub open spec fn stops_after(self, d: int) -> bool {
        &&& 1 <= d <= self.backends.len()
        &&& self.backends[self.slot(d)].active
        &&& forall|k: int| 1 <= k < d ==> !(#[trigger] self.backends[self.slot(k)]).active
    }

    /// The index of the backend that selection hands out.
    pub open spec fn selected(self) -> int {
        self.slot(choose|d: int| self.stops_after(d))
    }

    /// The pool after a selection: the cursor rests on the selected backend,
    /// or, with no active backend, where a full turn started.
    pub open spec fn select(self) -> PoolView {
        if self.can_select() {
            PoolView { cursor: self.selected() as nat, ..self }
        } else if self.backends.len() == 0 {
            self
        } else {
            PoolView { cursor: self.slot(0) as nat, ..self }
        }
    }

    /// How many steps forward lead from index `from` to index `to`, counting
    /// a full turn where they are the same.
    pub open spec fn steps_between(self, from: int, to: int) -> int {
        (to - from - 1) % (self.backends.len() as int) + 1
    }
}

/// At most one distance satisfies [`PoolView::stops_after`].
pub proof fn lemma_stops_after_unique(p: PoolView, d1: int, d2: int)
    requires
        p.stops_after(d1),
        p.stops_after(d2),
    ensures
        d1 == d2,
{
    if d1 < d2 {
        assert(!p.backends[p.slot(d1)].active);
    } else if d2 < d1 {
        assert(!p.backends[p.slot(d2)].active);
    }
}

/// Walking a full turn from the cursor meets every index.
pub proof fn lemma_full_turn(p: PoolView, i: int)
    requires
        0 <= i < p.backends.len(),
    ensures
        1 <= p.steps_between(p.cursor as int, i) <= p.backends.len(),
        p.slot(p.steps_between(p.cursor as int, i)) == i,
{
    let n = p.backends.len() as int;
    let c = p.cursor as int;
    let r = (i - c - 1) % n;
    vstd::arithmetic::div_mod::lemma_mod_bound(i - c - 1, n);
    vstd::arithmetic::div_mod::lemma_fundamental_div_mod(i - c - 1, n);
    let q = (i - c - 1) / n;
    assert(c + r + 1 == i - n * q);
    vstd::arithmetic::div_mod::lemma_mod_multiples_vanish(-q, i, n);
    vstd::arithmetic::div_mod::lemma_small_mod(i as nat, n as nat);
    assert(n * (-q) == -(n * q)) by (nonlinear_arith);
    assert((c + r + 1) % n == i);
}


/// One step forward from `(c + k) % n` is `(c + k + 1) % n`.
proof fn lemma_step(c: int, k: int, n: int)
    requires
        n > 0,
        0 <= c,
        0 <= k,
    ensures
        (c + k + 1) % n == if (c + k) % n + 1 == n {
            0
        } else {
            (c + k) % n + 1
        },
{
    let r = (c + k) % n;
    let q = (c + k) / n;
    vstd::arithmetic::div_mod::lemma_mod_bound(c + k, n);
    vstd::arithmetic::div_mod::lemma_fundamental_div_mod(c + k, n);
    if r + 1 == n {
        assert(c + k + 1 == n * (q + 1)) by (nonlinear_arith)
            requires
                c + k == n * q + r,
                r + 1 == n,
        ;
        vstd::arithmetic::div_mod::lemma_mod_multiples_basic(q + 1, n);
        assert((q + 1) * n == n * (q + 1)) by (nonlinear_arith);
    } else {
        vstd::arithmetic::div_mod::lemma_mod_multiples_vanish(q, r + 1, n);
        vstd::arithmetic::div_mod::lemma_small_mod((r + 1) as nat, n as nat);
    }
}

/// The backends of a pool and its cursor.
#[derive(Debug)]
pub struct InnerPool {
    backends: Vec<Backend>,
    last_used: usize,
}

impl View for InnerPool {
    type V = PoolView;

    closed spec fn view(&self) -> PoolView {
        PoolView {
            backends: self.backends@.map_values(|b: Backend| b@),
            cursor: self.last_used as nat,
        }
    }
}

impl InnerPool {
    /// No two backends are for the same server.
    pub open spec fn wf(&self) -> bool {
        self@.wf()
    }

    /// An empty pool with its cursor at the start.
    pub fn empty() -> (p: InnerPool)
        ensures
            p@ == PoolView::empty(),
            p.wf(),
    {
        let p = InnerPool { backends: Vec::new(), last_used: 0 };
        assert(p@.backends =~= Seq::empty());
        p
    }

    /// The number of backends.
    pub fn len(&self) -> (n: usize)
        ensures
            n == self@.backends.len(),
    {
        self.backends.len()
    }

    /// The index that selection last stopped at.
    pub fn cursor(&self) -> (c: usize)
        ensures
            c == self@.cursor,
    {
        self.last_used
    }

    /// Where the backend for `server` stands, if the pool has one.
    pub fn position(&self, server: &Server) -> (r: Option<usize>)
        ensures
            r is Some <==> self@.has_server(server@.url),
            r matches Some(i) ==> self@.holds_at(server@.url, i as int),
            self.wf() && r is Some ==> r->0 == self@.index_of(server@.url),
    {
        let mut i: usize = 0;
        while i < self.backends.len()
            invariant
                i <= self.backends.len(),
                forall|k: int| 0 <= k < i ==> !self@.holds_at(server@.url, k),
            decreases self.backends.len() - i,
        {
            if self.backends[i].server == *server {
                assert(self@.holds_at(server@.url, i as int));
                proof {
                    if self.wf() {
                        let j = self@.index_of(server@.url);
                        assert(self@.holds_at(server@.url, j));
                        assert(j == i);
                    }
                }
                return Some(i);
            }
            i = i + 1;
        }
        None
    }

    /// Hands out the next active backend in round-robin order and rests the
    /// cursor on it. With no active backend the result is `None`.
    pub fn get(&mut self) -> (r: Option<Backend>)
        ensures
            final(self)@ == old(self)@.select(),
            r is Some <==> old(self)@.can_select(),
            r matches Some(b) ==> b@ == old(self)@.backends[old(self)@.selected()],
            old(self).wf() ==> final(self).wf(),
    {
        let n = self.backends.len();
        if n == 0 {
            return None;
        }
        let ghost before = self@;
        let mut cur: usize = self.last_used % n;
        let mut steps: usize = 0;
        while steps < n
            invariant
                n == self.backends.len(),
                n > 0,
                self@ == before,
                before == old(self)@,
                steps <= n,
                cur == before.slot(steps as int),
                forall|k: int| 1 <= k <= steps ==> !(#[trigger] before.backends[before.slot(k)]).active,
            decreases n - steps,
        {
            proof {
                lemma_step(before.cursor as int, steps as int, n as int);
            }
            cur = if cur + 1 == n {
                0
            } else {
                cur + 1
            };
            steps = steps + 1;
            if self.backends[cur].is_active() {
                let found = self.backends[cur].clone();
                self.last_used = cur;
                proof {
                    assert(before.backends.len() == n);
                    assert(before.backends[cur as int].active);
                    assert(cur == before.slot(steps as int));
                    assert(before.stops_after(steps as int));
                    let d = choose|d: int| before.stops_after(d);
                    lemma_stops_after_unique(before, d, steps as int);
                    assert(before.can_select());
                    assert(self@.backends =~= before.backends);
                }
                return Some(found);
            }
        }
        self.last_used = self.last_used % n;
        proof {
            assert forall|i: int| 0 <= i < before.backends.len() implies !before.backends[i].active by {
                lemma_full_turn(before, i);
                let k = before.steps_between(before.cursor as int, i);
                assert(!before.backends[before.slot(k)].active);
            }
            assert(self@.backends =~= before.backends);
        }
        None
    }

    /// A copy of every backend, in pool order.
    pub fn all(&self) -> (v: Vec<Backend>)
        ensures
            v@.map_values(|b: Backend| b@) == self@.backends,
    {
        let mut v: Vec<Backend> = Vec::new();
        let mut i: usize = 0;
        while i < self.backends.len()
            invariant
                i <= self.backends.len(),
                v.len() == i,
                forall|k: int| 0 <= k < i ==> v[k]@ == self.backends[k]@,
            decreases self.backends.len() - i,
        {
            v.push(self.backends[i].clone());
            i = i + 1;
        }
        assert(v@.map_values(|b: Backend| b@) =~= self@.backends);
        v
    }

    /// Adds `backend` at the end unless the pool already has one for the same
    /// server. Says whether it was added.
    pub fn add(&mut self, backend: Backend) -> (added: bool)
        requires
            old(self).wf(),
        ensures
            final(self).wf(),
            final(self)@ == old(self)@.add(backend@),
            added == !old(self)@.has_server(backend@.server.url),
    {
        if self.position(&backend.server).is_some() {
            return false;
        }
        let ghost before = self@;
        self.backends.push(backend);
        proof {
            assert(self@.backends =~= before.backends.push(backend@));
            assert forall|i: int, j: int| 0 <= i < j < self@.backends.len() implies self@.backends[i].server.url
                != self@.backends[j].server.url by {
                if j == before.backends.len() {
                    assert(!before.holds_at(backend@.server.url, i));
                }
            }
        }
        true
    }

    /// Removes the backend for `server`, if the pool has one. The cursor
    /// stays where it is.
    pub fn remove(&mut self, server: &Server)
        requires
            old(self).wf(),
        ensures
            final(self).wf(),
            final(self)@ == old(self)@.remove(server@.url),
    {
        match self.position(server) {
            Some(i) => {
                let ghost before = self@;
                self.backends.remove(i);
                proof {
                    assert(self@.backends =~= before.backends.remove(i as int));
                    assert forall|a: int, b: int| 0 <= a < b < self@.backends.len() implies self@.backends[a].server.url
                        != self@.backends[b].server.url by {
                        let a0 = if a < i { a } else { a + 1 };
                        let b0 = if b < i { b } else { b + 1 };
                        assert(before.backends[a0].server.url != before.backends[b0].server.url);
                    }
                }
            },
            None => {},
        }
    }

    /// A copy of the backend for `server`, if the pool has one.
    pub fn find(&self, server: &Server) -> (r: Option<Backend>)
        requires
            self.wf(),
        ensures
            r is Some <==> self@.has_server(server@.url),
            r matches Some(b) ==> b@ == self@.backends[self@.index_of(server@.url)],
    {
        match self.position(server) {
            Some(i) => Some(self.backends[i].clone()),
            None => None,
        }
    }

    /// A pool of `backends`, in their order. Of several backends for one
    /// server only the first is kept.
    pub fn new(backends: Vec<Backend>) -> (p: InnerPool)
        ensures
            p.wf(),
            p@ == PoolView::empty().add_all(backends@.map_values(|b: Backend| b@)),
    {
        let mut p = InnerPool::empty();
        let ghost all = backends@.map_values(|b: Backend| b@);
        let mut i: usize = 0;
        while i < backends.len()
            invariant
                i <= backends.len(),
                p.wf(),
                all == backends@.map_values(|b: Backend| b@),
                p@ == PoolView::empty().add_all(all.take(i as int)),
            decreases backends.len() - i,
        {
            p.add(backends[i].clone());
            proof {
                assert(all.take(i + 1).drop_last() =~= all.take(i as int));
            }
            i = i + 1;
        }
        assert(all.take(i as int) =~= all);
        p
    }

    /// Makes the backend for `server` active or takes it down. Says whether
    /// the pool has such a backend.
    pub fn mark(&mut self, server: &Server, active: bool) -> (found: bool)
        requires
            old(self).wf(),
        ensures
            final(self).wf(),
            final(self)@ == old(self)@.mark(server@.url, active),
            found == old(self)@.has_server(server@.url),
    {
        match self.position(server) {
            Some(i) => {
                let ghost before = self@;
                let mut b = self.backends[i].clone();
                if active {
                    b.mark_active();
                } else {
                    b.mark_down();
                }
                self.backends.set(i, b);
                proof {
                    assert(self@.backends =~= before.backends.update(i as int, b@));
                }
                true
            },
            None => false,
        }
    }

    /// Counts one completed dispatch to `server`. Says whether the pool has a
    /// backend for it.
    pub fn count(&mut self, server: &Server, success: bool) -> (found: bool)
        requires
            old(self).wf(),
        ensures
            final(self).wf(),
            final(self)@ == old(self)@.count(server@.url, success),
            found == old(self)@.has_server(server@.url),
    {
        match self.position(server) {
            Some(i) => {
                let ghost before = self@;
                let mut b = self.backends[i].clone();
                if success {
                    b.inc_success();
                } else {
                    b.inc_failure();
                }
                self.backends.set(i, b);
                proof {
                    assert(self@.backends =~= before.backends.update(i as int, b@));
                }
                true
            },
            None => false,
        }
    }
}


/// How a dispatch to an upstream server ended.
#[derive(Clone, Copy, Debug, PartialEq, Eq)]
pub enum Dispatch {
    /// The upstream answered with this status code.
    Responded(u16),
    /// The exchange failed: no connection, a broken transfer or a timeout.
    Failed,
}

impl Dispatch {
    /// Whether the dispatch counts as a success: an answer with a status
    /// below 500.
    pub open spec fn succeeded(self) -> bool {
        self matches Dispatch::Responded(status) && status < 500
    }

    /// Whether the dispatch counts as a success.
    pub fn is_success(&self) -> (b: bool)
        ensures
            b == self.succeeded(),
    {
        match self {
            Dispatch::Responded(status) => *status < 500,
            Dispatch::Failed => false,
        }
    }
}

/// Why a pool could not serve a request.
#[derive(Clone, Copy, Debug, PartialEq, Eq)]
pub enum PoolError {
    /// No backend is active, or the pool is empty.
    Exhausted,
}

/// How the outcome of a caller's dispatch is read: an `Ok` carries the status
/// code beside the response, an `Err` is a failed exchange.
pub open spec fn dispatch_of<R, E>(out: Result<(u16, R), E>) -> Dispatch {
    match out {
        Ok((status, _)) => Dispatch::Responded(status),
        Err(_) => Dispatch::Failed,
    }
}

/// The pool of one process.
#[derive(Debug)]
pub struct Pool {
    inner: InnerPool,
}

impl View for Pool {
    type V = PoolView;

    closed spec fn view(&self) -> PoolView {
        self.inner@
    }
}

impl Default for Pool {
    fn default() -> (p: Pool)
        ensures
            p@ == PoolView::empty(),
            p.wf(),
    {
        Pool { inner: InnerPool::empty() }
    }
}

impl Pool {
    /// No two backends are for the same server.
    pub open spec fn wf(&self) -> bool {
        self@.wf()
    }

    /// Selects the next active backend, hands its server to `f`, and counts
    /// what `f` reports against that backend: a success for an answer with a
    /// status below 500, a failure for anything else. With no active backend
    /// `f` is not called and the request fails.
    pub fn request<R, E, F: FnOnce(&Server) -> Result<(u16, R), E>>(&mut self, f: F) -> (r: Result<
        Result<(u16, R), E>,
        PoolError,
    >)
        requires
            old(self).wf(),
            forall|s: &Server| f.requires((s,)),
        ensures
            final(self).wf(),
            !old(self)@.can_select() ==> r == Err::<Result<(u16, R), E>, PoolError>(
                PoolError::Exhausted,
            ) && final(self)@ == old(self)@.select(),
            old(self)@.can_select() ==> {
                let chosen = old(self)@.backends[old(self)@.selected()];
                &&& r matches Ok(out)
                &&& exists|s: &Server| s@ == chosen.server && f.ensures((s,), out)
                &&& final(self)@ == old(self)@.select().count(
                    chosen.server.url,
                    dispatch_of(out).succeeded(),
                )
            },
    {
        match self.inner.get() {
            Some(backend) => {
                let server = backend.server();
                let out = f(&server);
                let success = match &out {
                    Ok(pair) => pair.0 < 500,
                    Err(_) => false,
                };
                self.inner.count(&server, success);
                Ok(out)
            },
            None => Err(PoolError::Exhausted),
        }
    }

    /// Selects the next active backend in round-robin order and hands out its
    /// server. The caller dispatches to it and reports the end with
    /// [`Pool::complete`].
    pub fn select(&mut self) -> (r: Result<Server, PoolError>)
        requires
            old(self).wf(),
        ensures
            final(self).wf(),
            final(self)@ == old(self)@.select(),
            r is Ok <==> old(self)@.can_select(),
            r matches Ok(s) ==> s@ == old(self)@.backends[old(self)@.selected()].server,
            r matches Err(e) ==> e == PoolError::Exhausted,
    {
        match self.inner.get() {
            Some(backend) => Ok(backend.server()),
            None => Err(PoolError::Exhausted),
        }
    }

    /// Counts a completed dispatch against the backend for `server`: a
    /// success where the upstream answered with a status below 500, else a
    /// failure. A server that has left the pool meanwhile is not counted.
    pub fn complete(&mut self, server: &Server, outcome: Dispatch) -> (counted: bool)
        requires
            old(self).wf(),
        ensures
            final(self).wf(),
            final(self)@ == old(self)@.count(server@.url, outcome.succeeded()),
            counted == old(self)@.has_server(server@.url),
    {
        let success = outcome.is_success();
        self.inner.count(server, success)
    }

    /// A copy of every backend, in pool order.
    pub fn all(&self) -> (v: Vec<Backend>)
        ensures
            v@.map_values(|b: Backend| b@) == self@.backends,
    {
        self.inner.all()
    }

    /// Adds a fresh backend for `server`, unless the pool already has one for
    /// it. Says whether it was added.
    pub fn add(&mut self, server: Server) -> (added: bool)
        requires
            old(self).wf(),
        ensures
            final(self).wf(),
            final(self)@ == old(self)@.add(BackendView::fresh(server@)),
            added == !old(self)@.has_server(server@.url),
    {
        self.inner.add(Backend::new(server))
    }

    /// Removes the backend for `server`, if the pool has one.
    pub fn remove(&mut self, server: &Server)
        requires
            old(self).wf(),
        ensures
            final(self).wf(),
            final(self)@ == old(self)@.remove(server@.url),
    {
        self.inner.remove(server)
    }

    /// A copy of the backend for `server`, if the pool has one.
    pub fn find(&self, server: &Server) -> (r: Option<Backend>)
        requires
            self.wf(),
        ensures
            r is Some <==> self@.has_server(server@.url),
            r matches Some(b) ==> b@ == self@.backends[self@.index_of(server@.url)],
    {
        self.inner.find(server)
    }

    /// Makes the backend for `server` active. Says whether the pool has one.
    pub fn mark_active(&mut self, server: &Server) -> (found: bool)
        requires
            old(self).wf(),
        ensures
            final(self).wf(),
            final(self)@ == old(self)@.mark(server@.url, true),
            found == old(self)@.has_server(server@.url),
    {
        self.inner.mark(server, true)
    }

    /// Takes the backend for `server` down. Says whether the pool has one.
    pub fn mark_down(&mut self, server: &Server) -> (found: bool)
        requires
            old(self).wf(),
        ensures
            final(self).wf(),
            final(self)@ == old(self)@.mark(server@.url, false),
            found == old(self)@.has_server(server@.url),
    {
        self.inner.mark(server, false)
    }
}


/// Adding the same server twice: the first attempt leaves it in the pool,
/// the second changes nothing and is refused, and exactly one backend of the
/// pool is for that server.
pub proof fn lemma_add_twice(p: PoolView, first: BackendView, second: BackendView)
    requires
        p.wf(),
        first.server.url == second.server.url,
    ensures
        p.add(first).wf(),
        p.add(first).has_server(second.server.url),
        p.add(first).add(second) == p.add(first),
        forall|i: int, j: int|
            p.add(first).holds_at(first.server.url, i) && p.add(first).holds_at(first.server.url, j)
                ==> i == j,
{
    let q = p.add(first);
    let url = first.server.url;
    if p.has_server(url) {
        assert(q == p);
    } else {
        assert(q.backends.len() == p.backends.len() + 1);
        assert(q.holds_at(url, p.backends.len() as int));
        assert forall|i: int, j: int| 0 <= i < j < q.backends.len() implies q.backends[i].server.url
            != q.backends[j].server.url by {
            if j == p.backends.len() {
                assert(!p.holds_at(url, i));
            }
        }
    }
    assert(q.wf());
    assert forall|i: int, j: int| q.holds_at(url, i) && q.holds_at(url, j) implies i == j by {
        if i < j {
            assert(q.backends[i].server.url != q.backends[j].server.url);
        } else if j < i {
            assert(q.backends[j].server.url != q.backends[i].server.url);
        }
    }
}

/// Counting steps from the cursor undoes walking them.
pub proof fn lemma_steps_of_slot(p: PoolView, d: int)
    requires
        1 <= d <= p.backends.len(),
    ensures
        0 <= p.slot(d) < p.backends.len(),
        p.steps_between(p.cursor as int, p.slot(d)) == d,
{
    let n = p.backends.len() as int;
    let c = p.cursor as int;
    let i = (c + d) % n;
    let q = (c + d) / n;
    vstd::arithmetic::div_mod::lemma_mod_bound(c + d, n);
    vstd::arithmetic::div_mod::lemma_fundamental_div_mod(c + d, n);
    assert(i - c - 1 == n * (-q) + (d - 1)) by (nonlinear_arith)
        requires
            c + d == n * q + i,
    ;
    vstd::arithmetic::div_mod::lemma_mod_multiples_vanish(-q, d - 1, n);
    vstd::arithmetic::div_mod::lemma_small_mod((d - 1) as nat, n as nat);
}

/// Selection hands out the active backend that is nearest after the cursor:
/// it is active, and no active backend is reached from the cursor in fewer
/// steps.
pub proof fn lemma_select_nearest(p: PoolView)
    requires
        p.can_select(),
    ensures
        p.select().backends == p.backends,
        0 <= p.select().cursor < p.backends.len(),
        p.backends[p.select().cursor as int].active,
        forall|i: int|
            0 <= i < p.backends.len() && p.backends[i].active ==> p.steps_between(
                p.cursor as int,
                p.select().cursor as int,
            ) <= p.steps_between(p.cursor as int, i),
{
    let n = p.backends.len() as int;
    let c = p.cursor as int;
    // some distance stops: the least number of steps to an active backend
    let w = choose|i: int| 0 <= i < p.backends.len() && p.backends[i].active;
    lemma_full_turn(p, w);
    let d = lemma_first_stop(p, p.steps_between(c, w));
    let e = choose|e: int| p.stops_after(e);
    lemma_stops_after_unique(p, d, e);
    lemma_steps_of_slot(p, d);
    assert forall|i: int| 0 <= i < p.backends.len() && p.backends[i].active implies p.steps_between(
        c,
        p.select().cursor as int,
    ) <= p.steps_between(c, i) by {
        lemma_full_turn(p, i);
        let k = p.steps_between(c, i);
        if k < d {
            assert(!p.backends[p.slot(k)].active);
        }
    }
}

/// If the backend `k` steps after the cursor is active, selection stops at
/// some distance of at most `k`.
proof fn lemma_first_stop(p: PoolView, k: int) -> (d: int)
    requires
        1 <= k <= p.backends.len(),
        p.backends[p.slot(k)].active,
    ensures
        p.stops_after(d),
        1 <= d <= k,
    decreases k,
{
    if exists|j: int| 1 <= j < k && (#[trigger] p.backends[p.slot(j)]).active {
        let j = choose|j: int| 1 <= j < k && (#[trigger] p.backends[p.slot(j)]).active;
        lemma_first_stop(p, j)
    } else {
        k
    }
}

/// Round robin: of two selections in a row, each hands out an active
/// backend, the backends stay as they are, and the second is the active
/// backend nearest after the first, so that down backends are passed over
/// and no active backend is.
pub proof fn lemma_round_robin(p: PoolView)
    requires
        p.can_select(),
    ensures
        ({
            let first = p.select();
            let second = first.select();
            &&& first.backends == p.backends
            &&& second.backends == p.backends
            &&& p.backends[first.cursor as int].active
            &&& p.backends[second.cursor as int].active
            &&& forall|i: int|
                0 <= i < p.backends.len() && p.backends[i].active ==> p.steps_between(
                    first.cursor as int,
                    second.cursor as int,
                ) <= p.steps_between(first.cursor as int, i)
        }),
{
    lemma_select_nearest(p);
    let first = p.select();
    assert(first.backends[first.cursor as int].active);
    assert(first.can_select());
    lemma_select_nearest(first);
}

/// The counters add up to the dispatches: after a run of completed
/// dispatches the successes and failures of a backend have together grown by
/// the length of the run, and nothing else about the backend has changed.
pub proof fn lemma_counters_sum(b: BackendView, outcomes: Seq<bool>)
    ensures
        b.record_all(outcomes).successes + b.record_all(outcomes).failures == b.successes
            + b.failures + outcomes.len(),
        b.record_all(outcomes).server == b.server,
        b.record_all(outcomes).active == b.active,
    decreases outcomes.len(),
{
    if outcomes.len() > 0 {
        lemma_counters_sum(b, outcomes.drop_last());
    }
}

/// As long as the counters fit the machine, the machine counts as the
/// unbounded counters do.
pub proof fn lemma_count_all_exact(b: BackendView, outcomes: Seq<bool>)
    requires
        b.successes + b.failures + outcomes.len() <= usize::MAX,
    ensures
        b.count_all(outcomes) == b.record_all(outcomes),
    decreases outcomes.len(),
{
    if outcomes.len() > 0 {
        lemma_count_all_exact(b, outcomes.drop_last());
        lemma_counters_sum(b, outcomes.drop_last());
    }
}

} // verus!
