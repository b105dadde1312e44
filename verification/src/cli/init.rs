//! Making a sandbox is cleaning it.

use crate::cli::clean::{clean_steps, cmd_clean, steps_are, CleanStep, OldSandbox};
use crate::path::FsPath;
use vstd::prelude::*;

verus! {

/// Plans making the sandbox of a project.
pub fn cmd_init(project_root: &FsPath, old: Option<OldSandbox>, shm_name: &str) -> (r: Vec<
    CleanStep,
>)
    ensures
        steps_are(r@, clean_steps(project_root@, old, shm_name@)),
{
    cmd_clean(project_root, old, shm_name)
}

} // verus!
