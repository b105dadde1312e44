//! How the file system treats a path.

use crate::path::{FsPath, PathModel};
use vstd::prelude::*;

verus! {

/// How reads and writes of a path are handled.
#[derive(Debug, Clone, Copy, PartialEq, Eq, Structural)]
pub enum AccessMode {
    /// Always on the host file system.
    Passthrough,
    /// Always in the sandbox, never on the host.
    FuseOnly,
    /// From the sandbox where it has the data, otherwise from the host for reading;
    /// writing copies into the sandbox.
    CopyOnWrite,
}

/// What decides how paths are handled.
pub trait Policy {
    /// How a path is handled.
    spec fn spec_classify(&self, path: PathModel) -> AccessMode;

    /// Whether the first access to a path is logged.
    spec fn spec_should_log(&self, path: PathModel) -> bool;

    /// How an absolute path is handled.
    fn classify(&self, path: &FsPath) -> (r: AccessMode)
        ensures
            r == self.spec_classify(path@),
    ;

    /// Whether the first access to a path is logged.
    fn should_log(&self, path: &FsPath) -> (r: bool)
        ensures
            r == self.spec_should_log(path@),
    ;
}

} // verus!
