//! The configuration of a sandbox and the policy that it describes.

pub mod config;
pub mod globs;
pub mod policy;
pub mod policy_laws;
pub mod sets;
