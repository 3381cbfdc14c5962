//! A plain health check: a server that fails a probe leaves the pool.

use vstd::prelude::*;
use std::time::Duration;
use crate::mgmt::health::{target_url, Probe, ProbeTarget};
use crate::pool::{Backend, Pool};
use crate::server::Server;
use crate::uri::{normal_form, uri_normal_form};

verus! {

/// A health check that probes every server at a path, at a fixed interval,
/// and drops the servers that do not answer well.
pub struct HealthCheck {
    interval: Duration,
    uri_path: String,
}

impl HealthCheck {
    /// The time between two passes over the pool.
    pub closed spec fn spec_interval(&self) -> Duration {
        self.interval
    }

    /// The path that is appended to a server's URI.
    pub closed spec fn spec_uri_path(&self) -> Seq<char> {
        self.uri_path@
    }

    /// A health check every `interval` at `uri_path`.
    pub fn new(interval: Duration, uri_path: String) -> (h: HealthCheck)
        ensures
            h.spec_interval() == interval,
            h.spec_uri_path() == uri_path@,
    {
        HealthCheck { interval: interval, uri_path: uri_path }
    }

    /// The time between two passes over the pool.
    pub fn interval(&self) -> (d: Duration)
        ensures
            d == self.spec_interval(),
    {
        self.interval.clone()
    }

    /// One pass over the pool: for every backend, in pool order, the probe
    /// to make. The URL of a probe is the server's URI followed by the path,
    /// as the URI parser reads it.
    pub fn run(&self, pool: &Pool) -> (targets: Vec<ProbeTarget>)
        ensures
            targets.len() == pool@.backends.len(),
            forall|i: int|
                0 <= i < targets.len() ==> (#[trigger] targets[i]).server@
                    == pool@.backends[i].server && target_url(targets[i]) == uri_normal_form(
                    pool@.backends[i].server.url + self.spec_uri_path(),
                ),
    {
        let backends = pool.all();
        let mut targets: Vec<ProbeTarget> = Vec::new();
        let mut i: usize = 0;
        while i < backends.len()
            invariant
                i <= backends.len(),
                targets.len() == i,
                backends@.map_values(|b: Backend| b@) == pool@.backends,
                forall|k: int|
                    0 <= k < i ==> (#[trigger] targets[k]).server@ == pool@.backends[k].server
                        && target_url(targets[k]) == uri_normal_form(
                        pool@.backends[k].server.url + self.spec_uri_path(),
                    ),
            decreases backends.len() - i,
        {
            let server = backends[i].server();
            assert(backends@.map_values(|b: Backend| b@)[i as int] == backends[i as int]@);
            let text = server.url().concat(self.uri_path.as_str());
            let url = normal_form(text.as_str());
            targets.push(ProbeTarget { server, url });
            i = i + 1;
        }
        targets
    }

    /// Whether a probe with this outcome keeps its server in the pool: an
    /// answer with a status from 200 to 299.
    pub open spec fn keeps(probe: Probe) -> bool {
        probe matches Probe::Responded(status) && 200 <= status < 300
    }

    /// Takes note of the outcome of a probe of `server`: unless the server
    /// answered with a status from 200 to 299, it leaves the pool. Says
    /// whether the server was removed.
    pub fn observe(&self, pool: &mut Pool, server: &Server, probe: Probe) -> (removed: bool)
        requires
            old(pool).wf(),
        ensures
            final(pool).wf(),
            final(pool)@ == if HealthCheck::keeps(probe) {
                old(pool)@
            } else {
                old(pool)@.remove(server@.url)
            },
            removed == (!HealthCheck::keeps(probe) && old(pool)@.has_server(server@.url)),
    {
        let keep = match probe {
            Probe::Responded(status) => 200 <= status && status < 300,
            _ => false,
        };
        if keep {
            false
        } else {
            let known = pool.find(server).is_some();
            pool.remove(server);
            known
        }
    }
}

} // verus!
