//! The workers of a connection.

pub mod delivery;
pub mod thread_handler;
