//! Active health checking with hysteresis.
//!
//! Every backend has a debouncing state: a run of passed or of failed probes
//! and its length. A backend changes state only after enough probes in a row
//! have gone the other way; a single probe of the opposite outcome starts the
//! count again.

use vstd::prelude::*;
use crate::config::HealthCheck;
use crate::mgmt::manager::{Change, Event, EventView};
use crate::pool::{Backend, Pool};
use crate::server::Server;
use crate::uri::{normal_form, uri_normal_form};

verus! {

/// The run of probe outcomes seen last for one backend.
#[derive(Clone, Copy, Debug, PartialEq, Eq)]
pub enum HealthState {
    /// The last probes passed; the number counts passes towards making a
    /// down backend active.
    Passing(u64),
    /// The last probes failed; the number counts failures towards taking an
    /// active backend down.
    Failing(u64),
}

/// The state after a passed probe and whether the backend is to be made
/// active, given whether the backend is active now.
pub open spec fn on_pass(active: bool, state: HealthState, required_passes: u64) -> (
    HealthState,
    bool,
) {
    if active {
        match state {
            HealthState::Passing(c) => (HealthState::Passing(c), false),
            HealthState::Failing(_) => (HealthState::Passing(0), false),
        }
    } else {
        match state {
            HealthState::Passing(c) => if c + 1 >= required_passes {
                (HealthState::Passing(0), true)
            } else {
                (HealthState::Passing((c + 1) as u64), false)
            },
            HealthState::Failing(_) => (HealthState::Passing(1), false),
        }
    }
}

/// The state after a failed probe and whether the backend is to be taken
/// down, given whether the backend is active now.
pub open spec fn on_fail(active: bool, state: HealthState, required_failures: u64) -> (
    HealthState,
    bool,
) {
    if !active {
        match state {
            HealthState::Failing(c) => (HealthState::Failing(c), false),
            HealthState::Passing(_) => (HealthState::Failing(0), false),
        }
    } else {
        match state {
            HealthState::Failing(c) => if c + 1 >= required_failures {
                (HealthState::Failing(0), true)
            } else {
                (HealthState::Failing((c + 1) as u64), false)
            },
            HealthState::Passing(_) => (HealthState::Failing(1), false),
        }
    }
}

/// The state after a passed probe, computed.
pub fn pass_step(active: bool, state: HealthState, required_passes: u64) -> (r: (HealthState, bool))
    ensures
        r == on_pass(active, state, required_passes),
{
    if active {
        match state {
            HealthState::Passing(c) => (HealthState::Passing(c), false),
            HealthState::Failing(_) => (HealthState::Passing(0), false),
        }
    } else {
        match state {
            HealthState::Passing(c) => {
                if required_passes == 0 || c >= required_passes - 1 {
                    (HealthState::Passing(0), true)
                } else {
                    (HealthState::Passing(c + 1), false)
                }
            },
            HealthState::Failing(_) => (HealthState::Passing(1), false),
        }
    }
}

/// The state after a failed probe, computed.
pub fn fail_step(active: bool, state: HealthState, required_failures: u64) -> (r: (
    HealthState,
    bool,
))
    ensures
        r == on_fail(active, state, required_failures),
{
    if !active {
        match state {
            HealthState::Failing(c) => (HealthState::Failing(c), false),
            HealthState::Passing(_) => (HealthState::Failing(0), false),
        }
    } else {
        match state {
            HealthState::Failing(c) => {
                if required_failures == 0 || c >= required_failures - 1 {
                    (HealthState::Failing(0), true)
                } else {
                    (HealthState::Failing(c + 1), false)
                }
            },
            HealthState::Passing(_) => (HealthState::Failing(1), false),
        }
    }
}

/// One backend's entry in the health checker's table.
#[derive(Debug)]
struct Entry {
    server: Server,
    state: HealthState,
}

/// The health checker's table: the debouncing state of every server it has
/// probed. A server that was never probed counts as `Passing(0)`.
#[derive(Debug)]
pub struct BackendHealth {
    entries: Vec<Entry>,
}

impl View for BackendHealth {
    type V = Map<Seq<char>, HealthState>;

    /// The state of every server, by its URI text.
    closed spec fn view(&self) -> Map<Seq<char>, HealthState> {
        Map::total(|url: Seq<char>| self.lookup(url))
    }
}

impl BackendHealth {
    spec fn holds_at(&self, url: Seq<char>, i: int) -> bool {
        0 <= i < self.entries.len() && self.entries[i].server@.url == url
    }

    spec fn lookup(&self, url: Seq<char>) -> HealthState {
        if exists|i: int| self.holds_at(url, i) {
            self.entries[choose|i: int| self.holds_at(url, i)].state
        } else {
            HealthState::Passing(0)
        }
    }

    /// No server has two entries.
    pub closed spec fn wf(&self) -> bool {
        forall|i: int, j: int|
            0 <= i < j < self.entries.len() ==> self.entries[i].server@.url
                != self.entries[j].server@.url
    }

    /// A table in which every server is `Passing(0)`.
    pub fn new() -> (h: BackendHealth)
        ensures
            h.wf(),
            h@ == Map::total(|url: Seq<char>| HealthState::Passing(0)),
    {
        let h = BackendHealth { entries: Vec::new() };
        assert(h@ =~= Map::total(|url: Seq<char>| HealthState::Passing(0)));
        h
    }

    fn position(&self, server: &Server) -> (r: Option<usize>)
        ensures
            r matches Some(i) ==> self.holds_at(server@.url, i as int),
            r is None ==> forall|i: int| !self.holds_at(server@.url, i),
    {
        let mut i: usize = 0;
        while i < self.entries.len()
            invariant
                i <= self.entries.len(),
                forall|k: int| 0 <= k < i ==> !self.holds_at(server@.url, k),
            decreases self.entries.len() - i,
        {
            if self.entries[i].server == *server {
                return Some(i);
            }
            i = i + 1;
        }
        None
    }

    /// The debouncing state of `server`.
    pub fn state(&self, server: &Server) -> (s: HealthState)
        requires
            self.wf(),
        ensures
            s == self@[server@.url],
    {
        match self.position(server) {
            Some(i) => {
                proof {
                    self.lemma_lookup(server@.url, i as int);
                }
                self.entries[i].state
            },
            None => HealthState::Passing(0),
        }
    }

    proof fn lemma_lookup(&self, url: Seq<char>, i: int)
        requires
            self.wf(),
            self.holds_at(url, i),
        ensures
            self.lookup(url) == self.entries[i].state,
    {
        let j = choose|j: int| self.holds_at(url, j);
        assert(self.holds_at(url, j));
        if i < j {
            assert(self.entries[i].server@.url != self.entries[j].server@.url);
        } else if j < i {
            assert(self.entries[j].server@.url != self.entries[i].server@.url);
        }
    }

    fn store(&mut self, server: &Server, state: HealthState)
        requires
            old(self).wf(),
        ensures
            final(self).wf(),
            final(self)@ == old(self)@.insert(server@.url, state),
    {
        let ghost before = *self;
        match self.position(server) {
            Some(i) => {
                self.entries.set(i, Entry { server: server.clone(), state });
                proof {
                    assert forall|url: Seq<char>| #[trigger] self.lookup(url) == (if url == server@.url {
                        state
                    } else {
                        before.lookup(url)
                    }) by {
                        if url == server@.url {
                            self.lemma_lookup(url, i as int);
                        } else if exists|k: int| before.holds_at(url, k) {
                            let k = choose|k: int| before.holds_at(url, k);
                            assert(self.holds_at(url, k));
                            self.lemma_lookup(url, k);
                        } else {
                            assert forall|k: int| !self.holds_at(url, k) by {
                                assert(!before.holds_at(url, k));
                            }
                        }
                    }
                }
            },
            None => {
                self.entries.push(Entry { server: server.clone(), state });
                proof {
                    let n = before.entries.len() as int;
                    assert(self.holds_at(server@.url, n));
                    assert forall|i: int, j: int| 0 <= i < j < self.entries.len() implies self.entries[i].server@.url
                        != self.entries[j].server@.url by {
                        if j == n {
                            assert(!before.holds_at(server@.url, i));
                        }
                    }
                    assert forall|url: Seq<char>| #[trigger] self.lookup(url) == (if url == server@.url {
                        state
                    } else {
                        before.lookup(url)
                    }) by {
                        if url == server@.url {
                            self.lemma_lookup(url, n);
                        } else if exists|k: int| before.holds_at(url, k) {
                            let k = choose|k: int| before.holds_at(url, k);
                            assert(self.holds_at(url, k));
                            self.lemma_lookup(url, k);
                        } else {
                            assert forall|k: int| !self.holds_at(url, k) by {
                                assert(!before.holds_at(url, k));
                            }
                        }
                    }
                }
            },
        }
        assert(self@ =~= before@.insert(server@.url, state));
    }

    /// Takes note of a passed probe of `backend`. Says whether the backend is
    /// to be made active: it is down and this pass completes a run of
    /// `required_passes` passes.
    pub fn should_mark_active(&mut self, backend: &Backend, required_passes: u64) -> (flip: bool)
        requires
            old(self).wf(),
        ensures
            final(self).wf(),
            final(self)@ == old(self)@.insert(
                backend@.server.url,
                on_pass(backend@.active, old(self)@[backend@.server.url], required_passes).0,
            ),
            flip == on_pass(backend@.active, old(self)@[backend@.server.url], required_passes).1,
    {
        let server = backend.server();
        let state = self.state(&server);
        let (next, flip) = pass_step(backend.is_active(), state, required_passes);
        self.store(&server, next);
        flip
    }

    /// Takes note of a failed probe of `backend`. Says whether the backend is
    /// to be taken down: it is active and this failure completes a run of
    /// `required_failures` failures.
    pub fn should_mark_down(&mut self, backend: &Backend, required_failures: u64) -> (flip: bool)
        requires
            old(self).wf(),
        ensures
            final(self).wf(),
            final(self)@ == old(self)@.insert(
                backend@.server.url,
                on_fail(backend@.active, old(self)@[backend@.server.url], required_failures).0,
            ),
            flip == on_fail(backend@.active, old(self)@[backend@.server.url], required_failures).1,
    {
        let server = backend.server();
        let state = self.state(&server);
        let (next, flip) = fail_step(backend.is_active(), state, required_failures);
        self.store(&server, next);
        flip
    }
}


/// How a probe of a backend ended.
#[derive(Clone, Copy, Debug, PartialEq, Eq)]
pub enum Probe {
    /// The server answered with this status code.
    Responded(u16),
    /// No answer: the connection failed, broke or timed out.
    Failed,
    /// The probe URL could not be formed.
    BadUrl,
}

impl Probe {
    /// Whether the probe passed: an answer with a status below 400.
    pub open spec fn passed(self) -> bool {
        self matches Probe::Responded(status) && status < 400
    }

    /// Whether the probe passed.
    pub fn is_pass(&self) -> (b: bool)
        ensures
            b == self.passed(),
    {
        match self {
            Probe::Responded(status) => *status < 400,
            _ => false,
        }
    }
}

/// The debouncing state after a probe, and whether the backend changes state.
pub open spec fn on_probe(active: bool, state: HealthState, probe: Probe, conf: HealthCheck) -> (
    HealthState,
    bool,
) {
    if probe.passed() {
        on_pass(active, state, conf.passes)
    } else {
        on_fail(active, state, conf.failures)
    }
}

/// The change that is published when a probe flips a server's state.
pub open spec fn flip_event(url: Seq<char>, probe: Probe) -> EventView {
    EventView {
        change: if probe.passed() {
            Change::MarkServerActive
        } else {
            Change::MarkServerDown
        },
        url,
    }
}

/// A probe that is to be made: the server, and the URL to fetch, or `None`
/// where the server's URI and the configured path form no URI.
#[derive(Debug)]
pub struct ProbeTarget {
    /// The server to probe.
    pub server: Server,
    /// The URL of the probe.
    pub url: Option<String>,
}

/// What a probe target's URL stands for in contracts.
pub open spec fn target_url(target: ProbeTarget) -> Option<Seq<char>> {
    match target.url {
        Some(url) => Some(url@),
        None => None,
    }
}

/// One pass over the pool: for every backend, in pool order, the probe to
/// make. The URL of a probe is the server's URI followed by the configured
/// path, as the URI parser reads it.
pub fn run(pool: &Pool, conf: &HealthCheck) -> (targets: Vec<ProbeTarget>)
    ensures
        targets.len() == pool@.backends.len(),
        forall|i: int|
            0 <= i < targets.len() ==> (#[trigger] targets[i]).server@ == pool@.backends[i].server
                && target_url(targets[i]) == uri_normal_form(
                pool@.backends[i].server.url + conf.uri_path@,
            ),
{
    let backends = pool.all();
    let mut targets: Vec<ProbeTarget> = Vec::new();
    let mut i: usize = 0;
    while i < backends.len()
        invariant
            i <= backends.len(),
            targets.len() == i,
            backends@.map_values(|b: Backend| b@) == pool@.backends,
            forall|k: int|
                0 <= k < i ==> (#[trigger] targets[k]).server@ == pool@.backends[k].server
                    && target_url(targets[k]) == uri_normal_form(
                    pool@.backends[k].server.url + conf.uri_path@,
                ),
        decreases backends.len() - i,
    {
        let server = backends[i].server();
        assert(backends@.map_values(|b: Backend| b@)[i as int] == backends[i as int]@);
        let text = server.url().concat(conf.uri_path.as_str());
        let url = normal_form(text.as_str());
        targets.push(ProbeTarget { server, url });
        i = i + 1;
    }
    targets
}

/// Takes note of the outcome of a probe of `server` and acts on it: the
/// server's debouncing state moves on by one probe, and where that completes
/// a run, the backend changes state in the pool and the change is handed
/// back to be published. A server that has left the pool is passed over.
pub fn observe(
    pool: &mut Pool,
    health: &mut BackendHealth,
    server: &Server,
    probe: Probe,
    conf: &HealthCheck,
) -> (event: Option<Event>)
    requires
        old(pool).wf(),
        old(health).wf(),
    ensures
        final(pool).wf(),
        final(health).wf(),
        !old(pool)@.has_server(server@.url) ==> {
            &&& final(pool)@ == old(pool)@
            &&& final(health)@ == old(health)@
            &&& event is None
        },
        old(pool)@.has_server(server@.url) ==> {
            let url = server@.url;
            let backend = old(pool)@.backends[old(pool)@.index_of(url)];
            let (next, flip) = on_probe(backend.active, old(health)@[url], probe, *conf);
            &&& final(health)@ == old(health)@.insert(url, next)
            &&& final(pool)@ == if flip {
                old(pool)@.mark(url, probe.passed())
            } else {
                old(pool)@
            }
            &&& flip ==> (event matches Some(e) && e@ == flip_event(url, probe))
            &&& !flip ==> event is None
        },
{
    match pool.find(server) {
        None => None,
        Some(backend) => {
            if probe.is_pass() {
                if health.should_mark_active(&backend, conf.passes) {
                    pool.mark_active(server);
                    Some(Event { change: Change::MarkServerActive, url: server.url() })
                } else {
                    None
                }
            } else {
                if health.should_mark_down(&backend, conf.failures) {
                    pool.mark_down(server);
                    Some(Event { change: Change::MarkServerDown, url: server.url() })
                } else {
                    None
                }
            }
        },
    }
}

/// A run of passes counts up by one per probe: a down backend whose run of
/// passes is still short of the threshold after one more pass has a run that
/// is longer by exactly one, and stays down.
pub proof fn lemma_passes_count_up(c: u64, required_passes: u64)
    requires
        c + 1 < required_passes,
    ensures
        on_pass(false, HealthState::Passing(c), required_passes) == (
            HealthState::Passing((c + 1) as u64),
            false,
        ),
{
}

/// A run of failures counts up by one per probe: an active backend whose run
/// of failures is still short of the threshold after one more failure has a
/// run that is longer by exactly one, and stays active.
pub proof fn lemma_failures_count_up(c: u64, required_failures: u64)
    requires
        c + 1 < required_failures,
    ensures
        on_fail(true, HealthState::Failing(c), required_failures) == (
            HealthState::Failing((c + 1) as u64),
            false,
        ),
{
}

/// The pass or failure that completes a run flips the backend and starts the
/// count again at zero.
pub proof fn lemma_threshold_flips(c: u64, required: u64)
    requires
        c + 1 >= required,
    ensures
        on_pass(false, HealthState::Passing(c), required) == (HealthState::Passing(0), true),
        on_fail(true, HealthState::Failing(c), required) == (HealthState::Failing(0), true),
{
}

/// A probe of the opposite outcome ends a run: the state turns to the
/// opposite variant with a count of zero where the backend already is in
/// the state that the probe speaks for, and of one where this probe is the
/// first of a run against the backend's state. The backend does not change
/// state.
pub proof fn lemma_opposite_outcome_resets(active: bool, c: u64, required: u64)
    ensures
        on_pass(active, HealthState::Failing(c), required) == (
            HealthState::Passing(
                if active {
                    0
                } else {
                    1
                },
            ),
            false,
        ),
        on_fail(active, HealthState::Passing(c), required) == (
            HealthState::Failing(
                if active {
                    1
                } else {
                    0
                },
            ),
            false,
        ),
{
}

/// A probe that agrees with the backend's state changes nothing while the
/// last probes agreed too.
pub proof fn lemma_agreeing_probe_keeps(c: u64, required: u64)
    ensures
        on_pass(true, HealthState::Passing(c), required) == (HealthState::Passing(c), false),
        on_fail(false, HealthState::Failing(c), required) == (HealthState::Failing(c), false),
{
}


/// The debouncing state of a down backend after `n` more passed probes.
pub open spec fn after_passes(state: HealthState, n: nat, required_passes: u64) -> HealthState
    decreases n,
{
    if n == 0 {
        state
    } else {
        on_pass(false, after_passes(state, (n - 1) as nat, required_passes), required_passes).0
    }
}

/// The debouncing state of an active backend after `n` more failed probes.
pub open spec fn after_failures(state: HealthState, n: nat, required_failures: u64) -> HealthState
    decreases n,
{
    if n == 0 {
        state
    } else {
        on_fail(
            true,
            after_failures(state, (n - 1) as nat, required_failures),
            required_failures,
        ).0
    }
}

/// Hysteresis on the way up: a down backend whose count starts at zero is
/// made active by the pass that completes a run of `required_passes` passes,
/// and by none before it. Until then the count is the length of the run.
pub proof fn lemma_run_of_passes(n: nat, required_passes: u64)
    requires
        n < required_passes,
    ensures
        after_passes(HealthState::Passing(0), n, required_passes) == HealthState::Passing(n as u64),
        on_pass(
            false,
            after_passes(HealthState::Passing(0), n, required_passes),
            required_passes,
        ).1 == (n + 1 == required_passes),
    decreases n,
{
    if n > 0 {
        lemma_run_of_passes((n - 1) as nat, required_passes);
    }
}

/// Hysteresis on the way down: an active backend whose count starts at zero
/// is taken down by the failure that completes a run of `required_failures`
/// failures, and by none before it. Until then the count is the length of the
/// run.
pub proof fn lemma_run_of_failures(n: nat, required_failures: u64)
    requires
        n < required_failures,
    ensures
        after_failures(HealthState::Failing(0), n, required_failures) == HealthState::Failing(
            n as u64,
        ),
        on_fail(
            true,
            after_failures(HealthState::Failing(0), n, required_failures),
            required_failures,
        ).1 == (n + 1 == required_failures),
    decreases n,
{
    if n > 0 {
        lemma_run_of_failures((n - 1) as nat, required_failures);
    }
}

} // verus!
