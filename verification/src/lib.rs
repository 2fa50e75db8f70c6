//! Telemetry for classified UDP traffic: the wire records and their byte
//! format, the server-side engine that turns them into a live graph of
//! nodes and per-class edges, and the client-side scheduler that generates
//! the traffic.
//!
//! Every executable function carries a contract over the mathematical
//! content of its arguments; the `*_laws` and `engine_traces` modules state
//! what follows for whole runs.

pub mod protocol;
pub mod snapshot;
pub mod tracker;
pub mod rate_laws;
pub mod engine_model;
pub mod engine_laws;
pub mod engine_traces;
pub mod engine;
pub mod client_state;
pub mod scheduler;
pub mod input;
pub mod wire;
pub mod wire_snapshot;
pub mod wire_message;
pub mod render;
pub mod identity;
pub mod cli;
