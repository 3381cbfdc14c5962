//! A round-robin HTTP reverse proxy core: the backend pool, the request and
//! response rewriting rules, the health-check hysteresis and the manager's
//! publish/subscribe bookkeeping, each with a machine-checked contract.

pub mod backend;
pub mod buffer;
pub mod config;
pub mod framed;
pub mod frontend;
pub mod headers;
pub mod health;
pub mod http;
pub mod mgmt;
pub mod pipe;
pub mod pool;
pub mod proxy;
pub mod response;
pub mod server;
pub mod stats;
pub mod stream;
pub mod uri;
