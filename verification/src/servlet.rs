//! Serving connections: the metadata of a connection, the workers that move
//! its bytes, and the proxy that accepts it.

pub mod proxy;
pub mod request_metadata;
pub mod threading;
