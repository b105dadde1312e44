//! Removing a sandbox.

use crate::path::{child_path, FsPath, PathModel};
use crate::syncing::disk::{dot_sandbox, state_dir};
use crate::syncing::request_laws::lemma_name_below;
use vstd::prelude::*;

verus! {

/// Why a sandbox is not removed.
#[derive(Debug, Clone, Copy, PartialEq, Eq, Structural)]
pub enum PurgeRefusal {
    NotInitialized,
}

/// The directory to remove, where there is a sandbox.
pub open spec fn purged(root: PathModel, there: bool) -> Result<PathModel, PurgeRefusal> {
    if there {
        Ok(child_path(root, dot_sandbox()))
    } else {
        Err(PurgeRefusal::NotInitialized)
    }
}

/// Removing a sandbox removes the directory `.sandbox` of the project and nothing else,
/// and only where there is one.
pub proof fn law_purge_removes_the_sandbox(root: PathModel)
    requires
        root.0,
    ensures
        purged(root, true) == Ok::<PathModel, PurgeRefusal>(
            (root.0, root.1.push(seq![46u8, 115, 97, 110, 100, 98, 111, 120])),
        ),
        purged(root, false) is Err,
{
    lemma_name_below(root, dot_sandbox());
}

/// The directory to remove, where there is a sandbox.
pub fn cmd_purge(project_root: &FsPath, exists: bool) -> (r: Result<FsPath, PurgeRefusal>)
    ensures
        match r {
            Ok(dir) => purged(project_root@, exists) == Ok::<PathModel, PurgeRefusal>(dir@),
            Err(e) => purged(project_root@, exists) == Err::<PathModel, PurgeRefusal>(e),
        },
{
    if !exists {
        return Err(PurgeRefusal::NotInitialized);
    }
    Ok(state_dir(project_root))
}

} // verus!
