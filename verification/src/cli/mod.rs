//! The commands.

pub mod clean;
pub mod init;
pub mod purge;
pub mod relay;
pub mod run;
pub mod run_laws;
pub mod sandbox;
pub mod setup_laws;
