//! A configurable TCP reverse proxy, as a verified decision core.
//!
//! The crate holds the rules of the proxy: the binding document and its set
//! semantics, the configuration lookup, the per-connection metadata, and the
//! forwarding strategies as transition functions whose traces are proved to
//! deliver every byte once and in order. Sockets, threads and log sinks are
//! driven by the program around it.

pub mod configuration;
pub mod servlet;
pub mod text;
pub mod traffic;
pub mod unique;
