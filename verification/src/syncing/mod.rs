//! The daemon that keeps the sandbox's own entries and objects.

pub mod client;
pub mod closure;
pub mod closure_laws;
pub mod disk;
pub mod object;
pub mod pool;
pub mod proto;
pub mod request_laws;
pub mod serve;
pub mod server;
pub mod server_laws;
pub mod start;
