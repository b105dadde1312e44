//! The file system: what it decides for every operation.

pub mod attr;
pub mod decision;
pub mod decision_laws;
pub mod executor;
pub mod executor_laws;
pub mod fs;
pub mod inner;
pub mod inode;
pub mod listing_laws;
pub mod lookup_laws;
pub mod open_laws;
pub mod ops;
pub mod plan_laws;
pub mod policy;
pub mod state;
pub mod state_loader;
pub mod walk_laws;
