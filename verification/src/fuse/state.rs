//! What the decisions look at.

use crate::fuse::attr::FileKind;
use crate::fuse::policy::AccessMode;
use crate::names::NameMap;
use crate::path::FsPath;
use crate::syncing::proto::{EntryType, FuseEntry};
use vstd::prelude::*;

verus! {

#[derive(Debug)]
pub struct StatState {
    pub access_mode: AccessMode,
    pub real_exists: bool,
    pub fuse_entry: Option<FuseEntry>,
}

/// An entry of a host directory.
#[derive(Debug)]
pub struct RealChild {
    pub kind: FileKind,
    pub path: FsPath,
}

/// An entry of a sandbox directory.
#[derive(Debug)]
pub struct FuseChild {
    pub entry_type: EntryType,
    pub path: FsPath,
}

/// What a name stands for on the host and in the sandbox.
#[derive(Debug)]
pub struct ReaddirChildState {
    pub real: Option<RealChild>,
    pub fuse: Option<FuseChild>,
}

#[derive(Debug)]
pub struct ReaddirState {
    pub access_mode: AccessMode,
    pub children: NameMap<ReaddirChildState>,
}

#[derive(Debug)]
pub struct OpenState {
    pub access_mode: AccessMode,
    pub path: FsPath,
    pub need_write: bool,
    pub truncate_requested: bool,
    pub real_exists: bool,
    pub fuse_entry: Option<FuseEntry>,
    pub object_path: Option<FsPath>,
}

#[derive(Debug)]
pub struct CreateState {
    pub access_mode: AccessMode,
    pub path: FsPath,
}

#[derive(Debug)]
pub struct UnlinkState {
    pub access_mode: AccessMode,
    pub path: FsPath,
}

#[derive(Debug)]
pub struct RmdirState {
    pub access_mode: AccessMode,
    pub path: FsPath,
}

#[derive(Debug)]
pub struct RenameState {
    pub access_mode: AccessMode,
    pub from: FsPath,
    pub to: FsPath,
    pub from_entry: Option<FuseEntry>,
}

#[derive(Debug)]
pub struct SetattrState {
    pub access_mode: AccessMode,
    pub path: FsPath,
    pub fh_present: bool,
    pub has_open_handle: bool,
    pub mode: Option<u32>,
    pub uid: Option<u32>,
    pub gid: Option<u32>,
    pub size: Option<u64>,
}

#[derive(Debug)]
pub struct ReadlinkState {
    pub access_mode: AccessMode,
    pub path: FsPath,
    pub fuse_entry: Option<FuseEntry>,
}

#[derive(Debug)]
pub struct MkdirState {
    pub access_mode: AccessMode,
    pub path: FsPath,
}

} // verus!
