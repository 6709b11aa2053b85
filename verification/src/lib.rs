//! A small networked coin-machine service: a shared bounded counter served
//! over TCP by a fixed-capacity worker pool, with a thread joiner that
//! guarantees every spawned session thread is eventually joined, and a
//! controller whose shutdown drains the accept loop.
//!
//! This crate holds the verified core: the wire protocol, the domain
//! resource, the configuration grammar, the error taxonomy, and the state
//! machines that the pool, the joiner, the accept loop and the controller
//! follow. The threads, sockets and channels themselves live with the
//! binary that embeds this library.

pub mod auth_protocol;
pub mod client;
pub mod config;
pub mod joiner;
pub mod machine;
pub mod pool;
pub mod protocol;
pub mod server_core;
pub mod server_error;
pub mod text;
pub mod traits;

