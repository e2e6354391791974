//! Verified core of a port-forwarding tunnel: one-shot value cells, token
//! registries, in-memory duplex buffers, send progress, connector selection,
//! the mux handshake prefix, the forwarding decisions and the lists a spawned
//! terminal is started with.

pub mod callee;
pub mod caller;
pub mod client;
pub mod connector;
pub mod error;
pub mod forward;
pub mod mux;
pub mod poll;
pub mod preprocessor;
pub mod pty;
pub mod rpc;
pub mod service;
pub mod task;
pub mod token;
pub mod transfer;
pub mod virio;
