//! Coding agent sandbox: the decision logic of a copy-on-write sandbox file system.

pub mod bytes;
pub mod cli;
pub mod config;
pub mod errno;
pub mod error;
pub mod fuse;
pub mod isolate;
pub mod names;
pub mod path;
pub mod path_laws;
pub mod shm;
pub mod spelling;
pub mod syncing;
pub mod tables;
pub mod text;
