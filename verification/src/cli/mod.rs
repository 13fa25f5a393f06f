//! Running servers.

pub mod server;
