//! Core logic of a small cluster of peer nodes that cooperatively run
//! user-defined jobs: the gossip wire protocol and its binary codec, the
//! per-peer connection state machine, the node registry, the task balancer,
//! and the plugin host/runtime protocol.
//!
//! All I/O (sockets, TLS, subprocesses) lives outside this crate; the
//! functions here compute over plain values and carry their contracts.

pub mod acceptor;
pub mod balancer;
pub mod certs;
pub mod chatter;
pub mod config;
pub mod connection;
pub mod frame;
pub mod handlers;
pub mod host;
pub mod jsonline;
pub mod plugin_api;
pub mod plugin_init;
pub mod printer;
pub mod registry;
pub mod repo;
pub mod runner_proto;
pub mod scheme;
pub mod sender;
pub mod wire;
pub mod ws;

pub use scheme::rewrite_scheme;
pub use scheme::unrewrite_scheme;
