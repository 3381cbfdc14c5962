//! Streams of events that are polled together.

pub mod merge3;

use vstd::prelude::*;
pub use self::merge3::{Merge3, Merged3Item};

verus! {

/// An adapter that merges the output of three streams. It produces items
/// from one or more of the streams as they become available. Errors are not
/// merged: at most one error comes out at a time.
pub fn merge3<E>() -> (m: Merge3<E>)
    ensures
        m.queued() is None,
{
    merge3::new()
}

} // verus!
