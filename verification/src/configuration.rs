//! The proxy's settings: a properties file read into a keyed lookup.

pub mod config;
pub mod exceptions;
