//! Per-backend counters of completed dispatches.

use vstd::prelude::*;

verus! {

/// Success and failure counters of one backend. Both only ever grow, and they
/// stop at `usize::MAX` instead of wrapping.
#[derive(Debug, Eq, PartialEq, Hash)]
pub struct Stats {
    failure: usize,
    success: usize,
}

impl Stats {
    /// Number of failed dispatches recorded so far.
    pub closed spec fn failures(&self) -> nat {
        self.failure as nat
    }

    /// Number of successful dispatches recorded so far.
    pub closed spec fn successes(&self) -> nat {
        self.success as nat
    }

    /// Both counters at zero.
    pub fn new() -> (s: Stats)
        ensures
            s.successes() == 0,
            s.failures() == 0,
    {
        Stats { failure: 0, success: 0 }
    }

    /// Records one successful dispatch.
    pub fn inc_success(&mut self)
        ensures
            final(self).successes() == if old(self).successes() < usize::MAX {
                old(self).successes() + 1
            } else {
                old(self).successes()
            },
            final(self).failures() == old(self).failures(),
    {
        if self.success < usize::MAX {
            self.success = self.success + 1;
        }
    }

    /// Records one failed dispatch.
    pub fn inc_failure(&mut self)
        ensures
            final(self).failures() == if old(self).failures() < usize::MAX {
                old(self).failures() + 1
            } else {
                old(self).failures()
            },
            final(self).successes() == old(self).successes(),
    {
        if self.failure < usize::MAX {
            self.failure = self.failure + 1;
        }
    }

    /// The number of successes recorded.
    pub fn success(&self) -> (n: usize)
        ensures
            n == self.successes(),
    {
        self.success
    }

    /// The number of failures recorded.
    pub fn failure(&self) -> (n: usize)
        ensures
            n == self.failures(),
    {
        self.failure
    }
}

impl Clone for Stats {
    fn clone(&self) -> (s: Stats)
        ensures
            s == *self,
    {
        Stats { failure: self.failure, success: self.success }
    }
}

} // verus!
