//! Management of the pool: health checking, the manager that tells the
//! workers about changes, the worker's side of that channel, and the
//! administrative interface.

pub mod api;
pub mod health;
pub mod manager;
pub mod worker;
