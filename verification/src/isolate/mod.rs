//! Namespaces, mounts and capabilities of the process that runs a command.

pub mod stage1;
pub mod stage2;
