//! The options that configure health checking and the upstream timeouts.

use vstd::prelude::*;
use std::time::Duration;

verus! {

/// The length of a [`Duration`] in nanoseconds.
pub uninterp spec fn duration_nanos(d: Duration) -> nat;

/// `Duration::from_secs` of std: a duration of that many whole seconds.
pub assume_specification[ Duration::from_secs ](secs: u64) -> (d: Duration)
    ensures
        duration_nanos(d) == secs * 1_000_000_000,
;

/// `Duration::from_millis` of std: a duration of that many milliseconds.
pub assume_specification[ Duration::from_millis ](millis: u64) -> (d: Duration)
    ensures
        duration_nanos(d) == millis * 1_000_000,
;

/// `Clone` of std for `Duration`: a copy of the same length.
pub assume_specification[ <Duration as Clone>::clone ](d: &Duration) -> (r: Duration)
    ensures
        r == *d,
;

/// How backends are probed and when a run of probes flips their state.
#[derive(Debug)]
pub struct HealthCheck {
    /// The time between two passes of probes over the pool.
    pub interval: Duration,
    /// The path appended to a server's URI to form the probe URL.
    pub uri_path: String,
    /// Consecutive failed probes that take an active server down.
    pub failures: u64,
    /// Consecutive passed probes that make a down server active.
    pub passes: u64,
}

impl Default for HealthCheck {
    /// A probe every ten seconds at `/`; three failures take a server down,
    /// two passes bring it back.
    fn default() -> (c: HealthCheck)
        ensures
            duration_nanos(c.interval) == 10_000_000_000,
            c.uri_path@ == seq!['/'],
            c.failures == 3,
            c.passes == 2,
    {
        proof {
            reveal_strlit("/");
        }
        assert("/"@ =~= seq!['/']);
        HealthCheck {
            interval: Duration::from_secs(10),
            uri_path: String::from_str("/"),
            failures: 3,
            passes: 2,
        }
    }
}

impl Clone for HealthCheck {
    fn clone(&self) -> (c: HealthCheck)
        ensures
            c == *self,
    {
        HealthCheck {
            interval: self.interval.clone(),
            uri_path: self.uri_path.clone(),
            failures: self.failures,
            passes: self.passes,
        }
    }
}

/// The three deadlines of one upstream exchange. `None` waits without limit.
#[derive(Debug)]
pub struct Timeout {
    /// The longest wait for the upstream connection.
    pub connect: Option<Duration>,
    /// The longest wait while the request is written.
    pub write: Option<Duration>,
    /// The longest wait while the response is read.
    pub read: Option<Duration>,
}

impl Default for Timeout {
    /// 200 milliseconds to connect, two seconds each to write and to read.
    fn default() -> (t: Timeout)
        ensures
            t.connect matches Some(d) && duration_nanos(d) == 200_000_000,
            t.write matches Some(d) && duration_nanos(d) == 2_000_000_000,
            t.read matches Some(d) && duration_nanos(d) == 2_000_000_000,
    {
        Timeout {
            connect: Some(Duration::from_millis(200)),
            write: Some(Duration::from_secs(2)),
            read: Some(Duration::from_secs(2)),
        }
    }
}

/// A copy of an optional deadline.
fn clone_deadline(d: &Option<Duration>) -> (r: Option<Duration>)
    ensures
        r == *d,
{
    match d {
        Some(d) => Some(d.clone()),
        None => None,
    }
}

impl Clone for Timeout {
    fn clone(&self) -> (t: Timeout)
        ensures
            t == *self,
    {
        Timeout {
            connect: clone_deadline(&self.connect),
            write: clone_deadline(&self.write),
            read: clone_deadline(&self.read),
        }
    }
}

/// The whole configuration.
#[derive(Debug)]
pub struct Config {
    /// Health checking.
    pub health_check: HealthCheck,
    /// Upstream timeouts.
    pub timeout: Timeout,
}

impl Default for Config {
    fn default() -> (c: Config)
        ensures
            duration_nanos(c.health_check.interval) == 10_000_000_000,
            c.health_check.uri_path@ == seq!['/'],
            c.health_check.failures == 3,
            c.health_check.passes == 2,
            c.timeout.connect matches Some(d) && duration_nanos(d) == 200_000_000,
            c.timeout.write matches Some(d) && duration_nanos(d) == 2_000_000_000,
            c.timeout.read matches Some(d) && duration_nanos(d) == 2_000_000_000,
    {
        Config { health_check: HealthCheck::default(), timeout: Timeout::default() }
    }
}

impl Clone for Config {
    fn clone(&self) -> (c: Config)
        ensures
            c == *self,
    {
        Config { health_check: self.health_check.clone(), timeout: self.timeout.clone() }
    }
}

} // verus!
