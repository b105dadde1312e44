//! What the file system keeps between requests, and how it looks paths up.

use crate::errno::{ENOENT, S_IFDIR, S_IFLNK, S_IFMT};
use crate::error::{Error, IoError};
use crate::fuse::attr::{
    attr_from_daemon, attr_from_meta, attr_of_entry, attr_of_stat, FileAttr, FileKind, RealStat,
};
use crate::fuse::decision::{decide_stat, stat_decision, StatDecision};
use crate::fuse::inode::{ino_for, inodes_new, inodes_ok, inodes_with, InodeModel, InodeTable};
use crate::fuse::ops::{failure, gives_error, Op, OpModel, Outcome};
use crate::fuse::policy::{AccessMode, Policy};
use crate::fuse::state_loader::load_stat_state;
use crate::path::{root_path, FsPath, PathModel};
use crate::syncing::client;
use crate::syncing::proto::{EntryType, FileMetadata, FuseEntry, Request, RequestModel, Response};
use vstd::prelude::*;

verus! {

/// A count of seconds that never goes below zero.
pub open spec fn seconds_from(secs: i64) -> u64 {
    if secs < 0 {
        0
    } else {
        secs as u64
    }
}

/// A count of seconds that never goes below zero.
pub fn unix_i64_to_u64_saturating(secs: i64) -> (r: u64)
    ensures
        r == seconds_from(secs),
{
    if secs < 0 {
        0
    } else {
        secs as u64
    }
}

/// The kind of an entry: none for a whiteout; a file entry can hold the mode of a
/// link or a directory.
pub open spec fn entry_kind(entry: FuseEntry) -> Option<FileKind> {
    match entry.entry_type {
        EntryType::Whiteout => None,
        EntryType::Dir => Some(FileKind::Directory),
        EntryType::Symlink => Some(FileKind::Symlink),
        EntryType::File => Some(
            if entry.metadata.mode & S_IFMT == S_IFLNK {
                FileKind::Symlink
            } else if entry.metadata.mode & S_IFMT == S_IFDIR {
                FileKind::Directory
            } else {
                FileKind::RegularFile
            },
        ),
    }
}

/// The kind of an entry.
pub fn kind_from_entry(entry: &FuseEntry) -> (r: Option<FileKind>)
    ensures
        r == entry_kind(*entry),
{
    match entry.entry_type {
        EntryType::Whiteout => None,
        EntryType::Dir => Some(FileKind::Directory),
        EntryType::Symlink => Some(FileKind::Symlink),
        EntryType::File => {
            let ft = entry.metadata.mode & S_IFMT;
            if ft == S_IFLNK {
                Some(FileKind::Symlink)
            } else if ft == S_IFDIR {
                Some(FileKind::Directory)
            } else {
                Some(FileKind::RegularFile)
            }
        },
    }
}

/// The metadata of a host file.
pub open spec fn meta_of_stat(s: RealStat) -> FileMetadata {
    FileMetadata {
        size: s.size,
        mode: s.mode,
        uid: s.uid,
        gid: s.gid,
        mtime: seconds_from(s.mtime),
        atime: seconds_from(s.atime),
        ctime: seconds_from(s.ctime),
    }
}

/// The metadata of a host file; times before the epoch count as the epoch.
pub fn meta_from_stat(s: &RealStat) -> (r: FileMetadata)
    ensures
        r == meta_of_stat(*s),
{
    FileMetadata {
        size: s.size,
        mode: s.mode,
        uid: s.uid,
        gid: s.gid,
        mtime: unix_i64_to_u64_saturating(s.mtime),
        atime: unix_i64_to_u64_saturating(s.atime),
        ctime: unix_i64_to_u64_saturating(s.ctime),
    }
}

/// What looking a path up found.
#[derive(Debug, Clone, Copy, PartialEq, Eq, Structural)]
pub enum StatFound {
    /// A host file.
    Host(RealStat),
    /// A file of the sandbox.
    Entry { kind: FileKind, meta: FileMetadata },
}

/// What an entry is found as, or that there is nothing to find.
pub open spec fn entry_found(entry: Option<FuseEntry>) -> Result<StatFound, Error> {
    match entry {
        Some(e) => match entry_kind(e) {
            Some(kind) => Ok(StatFound::Entry { kind, meta: e.metadata }),
            None => Err(Error::Io(IoError::Os(ENOENT))),
        },
        None => Err(Error::Io(IoError::Os(ENOENT))),
    }
}

/// What the daemon's entry for a path is found as.
pub fn stat_fuse_path(entry: &Option<FuseEntry>) -> (r: Result<StatFound, Error>)
    ensures
        r == entry_found(*entry),
{
    match entry {
        Some(e) => match kind_from_entry(e) {
            Some(kind) => Ok(StatFound::Entry { kind, meta: e.metadata }),
            None => Err(Error::os(ENOENT)),
        },
        None => Err(Error::os(ENOENT)),
    }
}

/// Where looking a path up stands: what it waits for.
#[derive(Debug)]
pub enum StatTask {
    /// Whether the host has the path.
    HostHas { path: FsPath },
    /// The daemon's entry, to decide.
    Entry { path: FsPath, real_exists: bool },
    /// The host file.
    Host,
    /// The daemon's entry, to report.
    Fuse,
}

/// What looking a path up does next.
#[derive(Debug)]
pub enum StatNext {
    Do { op: Op, task: StatTask },
    Finished(Result<StatFound, Error>),
}

/// How looking a path up begins.
pub open spec fn stat_begun(path: PathModel, next: StatNext) -> bool {
    next matches StatNext::Do { op, task } && op@ == OpModel::LinkExists(path) && (
    task matches StatTask::HostHas { path: p } && p@ == path)
}

/// Starts looking a path up.
pub fn stat_path(path: &FsPath) -> (r: StatNext)
    ensures
        stat_begun(path@, r),
{
    StatNext::Do {
        op: Op::LinkExists(path.copy()),
        task: StatTask::HostHas { path: path.copy() },
    }
}

/// What a lookup decision does.
pub open spec fn stat_decided(decision: StatDecision, path: PathModel, next: StatNext) -> bool {
    match decision {
        StatDecision::UseReal => next matches StatNext::Do { op, task } && op@ == OpModel::Stat(path)
            && task is Host,
        StatDecision::UseFuse => next matches StatNext::Do { op, task } && op@ == OpModel::Daemon(
            RequestModel::GetEntry { path },
        ) && task is Fuse,
        StatDecision::NotFound => next == StatNext::Finished(Err(Error::Io(IoError::Os(ENOENT)))),
    }
}

/// What looking a path up does once what it waited for came back, under a mode.
pub open spec fn stat_resumed(task: StatTask, mode: AccessMode, outcome: Outcome, next: StatNext) -> bool {
    match task {
        StatTask::HostHas { path } => next matches StatNext::Do { op, task: t } && op@ == OpModel::Daemon(
            RequestModel::GetEntry { path: path@ },
        ) && (t matches StatTask::Entry { path: p, real_exists } && p@ == path@ && real_exists == (outcome
            == Outcome::Flag(true))),
        StatTask::Entry { path, real_exists } => match outcome {
            Outcome::Reply(Response::GetEntry(entry)) => stat_decided(
                stat_decision(mode, real_exists, entry),
                path@,
                next,
            ),
            Outcome::Reply(response) => next matches StatNext::Finished(Err(Error::SyncingClient(c)))
                && client::is_refusal(c, response),
            _ => next matches StatNext::Finished(Err(e)) && gives_error(outcome, e),
        },
        StatTask::Host => match outcome {
            Outcome::Stat(s) => next == StatNext::Finished(Ok(StatFound::Host(s))),
            _ => next matches StatNext::Finished(Err(e)) && gives_error(outcome, e),
        },
        StatTask::Fuse => match outcome {
            Outcome::Reply(Response::GetEntry(entry)) => next == StatNext::Finished(entry_found(entry)),
            Outcome::Reply(response) => next matches StatNext::Finished(Err(Error::SyncingClient(c)))
                && client::is_refusal(c, response),
            _ => next matches StatNext::Finished(Err(e)) && gives_error(outcome, e),
        },
    }
}

/// The path that a lookup still decides about.
pub open spec fn stat_task_path(task: StatTask) -> PathModel {
    match task {
        StatTask::Entry { path, .. } => path@,
        StatTask::HostHas { path } => path@,
        _ => root_path(),
    }
}

impl StatTask {
    /// Goes on with the outcome of the work that was waited for.
    pub fn resume<P: Policy>(self, policy: &P, outcome: Outcome) -> (r: StatNext)
        ensures
            stat_resumed(self, policy.spec_classify(stat_task_path(self)), outcome, r),
    {
        match self {
            StatTask::HostHas { path } => {
                let real_exists = match outcome {
                    Outcome::Flag(b) => b,
                    _ => false,
                };
                StatNext::Do {
                    op: Op::Daemon(Request::GetEntry { path: path.copy() }),
                    task: StatTask::Entry { path, real_exists },
                }
            },
            StatTask::Entry { path, real_exists } => match outcome {
                Outcome::Reply(response) => match load_stat_state(
                    policy,
                    &path,
                    real_exists,
                    client::get_entry(response),
                ) {
                    Ok(state) => match decide_stat(&state) {
                        StatDecision::UseReal => StatNext::Do {
                            op: Op::Stat(path),
                            task: StatTask::Host,
                        },
                        StatDecision::UseFuse => StatNext::Do {
                            op: Op::Daemon(Request::GetEntry { path }),
                            task: StatTask::Fuse,
                        },
                        StatDecision::NotFound => StatNext::Finished(Err(Error::os(ENOENT))),
                    },
                    Err(e) => StatNext::Finished(Err(e)),
                },
                other => StatNext::Finished(Err(failure(other))),
            },
            StatTask::Host => match outcome {
                Outcome::Stat(s) => StatNext::Finished(Ok(StatFound::Host(s))),
                other => StatNext::Finished(Err(failure(other))),
            },
            StatTask::Fuse => match outcome {
                Outcome::Reply(response) => match client::get_entry(response) {
                    Ok(entry) => StatNext::Finished(stat_fuse_path(&entry)),
                    Err(e) => StatNext::Finished(Err(Error::SyncingClient(e))),
                },
                other => StatNext::Finished(Err(failure(other))),
            },
        }
    }
}

/// Where looking a path up by its mode alone stands: what it waits for.
#[derive(Debug)]
pub enum ModeTask {
    /// The host file.
    Host,
    /// The daemon's entry; where there is none and `falls_back` is set, the host file.
    Entry { path: FsPath, falls_back: bool },
}

/// What looking a path up by its mode alone does next.
#[derive(Debug)]
pub enum ModeNext {
    Do { op: Op, task: ModeTask },
    Finished(Result<StatFound, Error>),
}

/// Whether looking a path up goes to the host: what is waited for is the host file.
pub open spec fn asks_host(next: ModeNext, path: PathModel) -> bool {
    next matches ModeNext::Do { op, task } && op@ == OpModel::Stat(path) && task is Host
}

/// Whether nothing was found.
pub open spec fn nothing_found(result: Result<StatFound, Error>) -> bool {
    result matches Err(e) && e == Error::Io(IoError::Os(ENOENT))
}

/// Whether a result is what an answer to a question for an entry comes to.
pub open spec fn entry_answer(outcome: Outcome, result: Result<StatFound, Error>) -> bool {
    match outcome {
        Outcome::Reply(Response::GetEntry(entry)) => result == entry_found(entry),
        Outcome::Reply(response) => result matches Err(Error::SyncingClient(c)) && client::is_refusal(
            c,
            response,
        ),
        _ => result matches Err(e) && gives_error(outcome, e),
    }
}

/// What looking a path up by its mode alone does once what it waited for came back.
pub open spec fn mode_resumed(task: ModeTask, outcome: Outcome, next: ModeNext) -> bool {
    match task {
        ModeTask::Host => match outcome {
            Outcome::Stat(s) => next == ModeNext::Finished(Ok(StatFound::Host(s))),
            _ => next matches ModeNext::Finished(Err(e)) && gives_error(outcome, e),
        },
        ModeTask::Entry { path, falls_back } => exists|result: Result<StatFound, Error>| #[trigger]
            entry_answer(outcome, result) && if falls_back && nothing_found(result) {
                asks_host(next, path@)
            } else {
                next == ModeNext::Finished(result)
            },
    }
}

impl ModeTask {
    /// Goes on with the outcome of the work that was waited for.
    pub fn resume(self, outcome: Outcome) -> (r: ModeNext)
        ensures
            mode_resumed(self, outcome, r),
    {
        match self {
            ModeTask::Host => match outcome {
                Outcome::Stat(s) => ModeNext::Finished(Ok(StatFound::Host(s))),
                other => ModeNext::Finished(Err(failure(other))),
            },
            ModeTask::Entry { path, falls_back } => {
                let result = match outcome {
                    Outcome::Reply(response) => match client::get_entry(response) {
                        Ok(entry) => stat_fuse_path(&entry),
                        Err(e) => Err(Error::SyncingClient(e)),
                    },
                    other => Err(failure(other)),
                };
                assert(entry_answer(outcome, result));
                let missing = match &result {
                    Err(Error::Io(io)) => match io.raw_os_error() {
                        Some(code) => code == ENOENT,
                        None => false,
                    },
                    _ => false,
                };
                if falls_back && missing {
                    ModeNext::Do { op: Op::Stat(path), task: ModeTask::Host }
                } else {
                    ModeNext::Finished(result)
                }
            },
        }
    }
}

/// How looking a path up by its mode alone begins: what passes through is looked up on
/// the host, all else with the daemon, and only what is copied on write falls back.
pub open spec fn mode_started(mode: AccessMode, path: PathModel, next: ModeNext) -> bool {
    if mode is Passthrough {
        asks_host(next, path)
    } else {
        next matches ModeNext::Do { op, task } && op@ == OpModel::Daemon(RequestModel::GetEntry { path }) && (
        task matches ModeTask::Entry { path: p, falls_back } && p@ == path && falls_back == (
        mode is CopyOnWrite))
    }
}

/// What passes through is found on the host and never asked of the daemon; what is
/// hidden is found with the daemon and never on the host; what is copied on write is
/// looked for on the host only after the daemon had nothing.
pub proof fn law_lookup_by_mode(mode: AccessMode, path: PathModel, first: ModeNext, outcome: Outcome, second: ModeNext)
    requires
        mode_started(mode, path, first),
        first matches ModeNext::Do { task, .. } && mode_resumed(task, outcome, second),
    ensures
        mode is Passthrough ==> asks_host(first, path) && second is Finished,
        mode is FuseOnly ==> !asks_host(first, path) && second is Finished,
        mode is CopyOnWrite ==> !asks_host(first, path) && (second is Do ==> asks_host(second, path)),
        mode is CopyOnWrite ==> match outcome {
            Outcome::Reply(Response::GetEntry(entry)) => second is Do <==> nothing_found(
                entry_found(entry),
            ),
            Outcome::Reply(_) => second is Finished,
            Outcome::Failed(e) => second is Do <==> e == Error::Io(IoError::Os(ENOENT)),
            _ => true,
        },
{
}

/// What the file system keeps: inode numbers, and the number of the next handle.
pub struct Inner {
    inodes: InodeTable,
    next_fh: u64,
}

/// The number of the handle after another; after the last number comes zero.
pub open spec fn handle_after(fh: u64) -> int {
    if fh == u64::MAX {
        0
    } else {
        fh + 1
    }
}

/// How many connections to the daemon are kept.
pub const POOL_SIZE: usize = 12;

/// The attributes of what was found, under an inode number.
pub open spec fn found_attr(ino: u64, found: StatFound) -> FileAttr {
    match found {
        StatFound::Host(s) => attr_of_stat(ino, s),
        StatFound::Entry { kind, meta } => attr_of_entry(ino, meta, kind),
    }
}

/// Whether the size of what was found can be counted in blocks.
pub open spec fn size_countable(found: StatFound) -> bool {
    found matches StatFound::Entry { meta, .. } ==> meta.size + 511 <= u64::MAX
}

impl Inner {
    /// The inode numbers.
    pub closed spec fn spec_inodes(&self) -> InodeModel {
        self.inodes@
    }

    /// The number of the next handle.
    pub closed spec fn spec_next_fh(&self) -> u64 {
        self.next_fh
    }

    /// A file system in which only the root is known.
    pub fn new() -> (r: Inner)
        ensures
            r.spec_inodes() == inodes_new(root_path()),
            inodes_ok(r.spec_inodes()),
            r.spec_next_fh() == 1,
    {
        Inner { inodes: InodeTable::new(&FsPath::root()), next_fh: 1 }
    }

    /// Starts looking a path up by its mode alone.
    pub fn stat_path(mode: AccessMode, path: &FsPath) -> (r: ModeNext)
        ensures
            mode_started(mode, path@, r),
    {
        match mode {
            AccessMode::Passthrough => ModeNext::Do {
                op: Op::Stat(path.copy()),
                task: ModeTask::Host,
            },
            AccessMode::FuseOnly => ModeNext::Do {
                op: Op::Daemon(Request::GetEntry { path: path.copy() }),
                task: ModeTask::Entry { path: path.copy(), falls_back: false },
            },
            AccessMode::CopyOnWrite => ModeNext::Do {
                op: Op::Daemon(Request::GetEntry { path: path.copy() }),
                task: ModeTask::Entry { path: path.copy(), falls_back: true },
            },
        }
    }

    /// The path of an inode.
    pub fn path_of(&self, ino: u64) -> (r: Option<FsPath>)
        ensures
            match r {
                Some(p) => self.spec_inodes().paths.contains_key(ino) && self.spec_inodes().paths[ino]
                    == p@,
                None => !self.spec_inodes().paths.contains_key(ino),
            },
    {
        self.inodes.get_path(ino)
    }

    /// An inode with its path.
    pub fn resolve_ino(&self, ino: u64) -> (r: Option<(u64, FsPath)>)
        ensures
            match r {
                Some(found) => found.0 == ino && self.spec_inodes().paths.contains_key(ino)
                    && self.spec_inodes().paths[ino] == found.1@,
                None => !self.spec_inodes().paths.contains_key(ino),
            },
    {
        match self.inodes.get_path(ino) {
            Some(p) => Some((ino, p)),
            None => None,
        }
    }

    /// The inode of a path, handed out now where it had none.
    pub fn ino_of(&mut self, path: &FsPath) -> (r: u64)
        ensures
            r == ino_for(old(self).spec_inodes(), path@),
            final(self).spec_inodes() == inodes_with(old(self).spec_inodes(), path@),
            final(self).spec_next_fh() == old(self).spec_next_fh(),
    {
        self.inodes.get_or_insert(path)
    }

    /// A new handle; after the last number comes zero.
    pub fn alloc_fh(&mut self) -> (r: u64)
        ensures
            r == old(self).spec_next_fh(),
            final(self).spec_next_fh() == handle_after(r),
            final(self).spec_inodes() == old(self).spec_inodes(),
    {
        let fh: u64 = self.next_fh;
        self.next_fh = if fh == u64::MAX {
            0
        } else {
            fh + 1
        };
        fh
    }

    /// The attributes of what was found at a path.
    pub fn attr_of(&mut self, path: &FsPath, found: &StatFound) -> (r: FileAttr)
        requires
            size_countable(*found),
        ensures
            r == found_attr(ino_for(old(self).spec_inodes(), path@), *found),
            final(self).spec_inodes() == inodes_with(old(self).spec_inodes(), path@),
            final(self).spec_next_fh() == old(self).spec_next_fh(),
    {
        let ino: u64 = self.inodes.get_or_insert(path);
        match found {
            StatFound::Host(s) => attr_from_meta(ino, s),
            StatFound::Entry { kind, meta } => attr_from_daemon(ino, meta, *kind),
        }
    }
}

} // verus!
