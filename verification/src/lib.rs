//! A transparent layer-4 reverse proxy core: protocol parsers that extract a
//! service name from the first bytes of a connection, a resolver pipeline that
//! maps `(name, port)` requests to destination addresses, and the
//! per-connection forwarding state machine that ties them together.

pub mod config;
pub mod forward;
pub mod net;
pub mod resolver;
pub mod parser;
pub mod text;
