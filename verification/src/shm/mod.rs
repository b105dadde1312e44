//! What the processes of a sandbox share in memory.

pub mod name;
pub mod region;
pub mod state;
