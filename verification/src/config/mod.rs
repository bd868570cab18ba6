//! Per-server configuration.

pub mod server;
