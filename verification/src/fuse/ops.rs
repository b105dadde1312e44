//! The work that the file system has done for it, and what comes back.

use crate::errno::{acc_mode, acc_mode_of, AccMode, O_APPEND, O_PATH, O_TRUNC};
use crate::error::{ClientError, Error, IoError};
use crate::fuse::attr::RealStat;
use crate::fuse::state_loader::RealItem;
use crate::path::{FsPath, PathModel};
use crate::syncing::client;
use crate::syncing::proto::{Request, RequestModel, Response};
use vstd::prelude::*;

verus! {

/// How a file is opened.
#[derive(Debug, Clone, Copy, PartialEq, Eq, Structural)]
pub struct OpenHow {
    pub read: bool,
    pub write: bool,
    pub append: bool,
    pub create: bool,
    pub mode: Option<u32>,
}

/// How the flags of an open request ask for a file: always for reading, for writing
/// where they say so, and at the end where they say so.
pub open spec fn how_of(flags: i32) -> OpenHow {
    OpenHow {
        read: true,
        write: !(acc_mode_of(flags) is ReadOnly),
        append: flags & O_APPEND != 0,
        create: false,
        mode: None,
    }
}

/// How the flags of an open request ask for a file.
pub fn open_how(flags: i32) -> (r: OpenHow)
    ensures
        r == how_of(flags),
{
    assert((flags & !0o10000000i32) & 0o10000000i32 == 0 && (flags & !0o10000000i32) & 3i32 == flags & 3i32)
        by (bit_vector);
    let write = match acc_mode(flags & !O_PATH) {
        AccMode::ReadOnly => false,
        AccMode::WriteOnly => true,
        AccMode::ReadWrite => true,
    };
    OpenHow { read: true, write, append: flags & O_APPEND != 0, create: false, mode: None }
}

/// How the flags of a create request ask for a file with a mode.
pub fn create_how(flags: i32, mode: u32) -> (r: OpenHow)
    ensures
        r == (OpenHow { create: true, mode: Some(mode), ..how_of(flags) }),
{
    let how = open_how(flags);
    OpenHow {
        read: how.read,
        write: how.write,
        append: how.append,
        create: true,
        mode: Some(mode),
    }
}

/// Whether the flags of an open request ask to write.
pub fn wants_write(flags: i32) -> (r: bool)
    ensures
        r == how_of(flags).write,
{
    open_how(flags).write
}

/// Whether the flags of an open request ask to empty the file.
pub fn wants_truncate(flags: i32) -> (r: bool)
    ensures
        r == (flags & O_TRUNC != 0),
{
    flags & O_TRUNC != 0
}

/// A piece of work.
#[derive(Debug)]
pub enum Op {
    /// Ask the daemon.
    Daemon(Request),
    /// Look whether the host has a path, links not followed.
    LinkExists(FsPath),
    /// Look whether the host has a path, links followed.
    Exists(FsPath),
    /// Look at a host file, links not followed.
    Stat(FsPath),
    /// List a host directory.
    ListDir(FsPath),
    /// Read a host link.
    ReadLink(FsPath),
    RemoveFile(FsPath),
    RemoveDir(FsPath),
    Rename { from: FsPath, to: FsPath },
    MakeSymlink { target: Vec<u8>, path: FsPath },
    MakeDir(FsPath),
    SetMode { path: FsPath, mode: u32 },
    SetOwner { path: FsPath, uid: Option<u32>, gid: Option<u32> },
    SetLength { path: FsPath, size: u64 },
    /// Open a file of the host or an object.
    Open { path: FsPath, how: OpenHow },
    CopyFile { from: FsPath, to: FsPath },
    HandleSetLength { fh: u64, size: u64 },
    HandleStat { fh: u64 },
    HandleSetMode { fh: u64, mode: u32 },
    HandleSetOwner { fh: u64, uid: Option<u32>, gid: Option<u32> },
}

/// What a piece of work is, its paths by their components.
pub enum OpModel {
    Daemon(RequestModel),
    LinkExists(PathModel),
    Exists(PathModel),
    Stat(PathModel),
    ListDir(PathModel),
    ReadLink(PathModel),
    RemoveFile(PathModel),
    RemoveDir(PathModel),
    Rename { from: PathModel, to: PathModel },
    MakeSymlink { target: Seq<u8>, path: PathModel },
    MakeDir(PathModel),
    SetMode { path: PathModel, mode: u32 },
    SetOwner { path: PathModel, uid: Option<u32>, gid: Option<u32> },
    SetLength { path: PathModel, size: u64 },
    Open { path: PathModel, how: OpenHow },
    CopyFile { from: PathModel, to: PathModel },
    HandleSetLength { fh: u64, size: u64 },
    HandleStat { fh: u64 },
    HandleSetMode { fh: u64, mode: u32 },
    HandleSetOwner { fh: u64, uid: Option<u32>, gid: Option<u32> },
}

impl View for Op {
    type V = OpModel;

    open spec fn view(&self) -> OpModel {
        match *self {
            Op::Daemon(r) => OpModel::Daemon(r@),
            Op::LinkExists(p) => OpModel::LinkExists(p@),
            Op::Exists(p) => OpModel::Exists(p@),
            Op::Stat(p) => OpModel::Stat(p@),
            Op::ListDir(p) => OpModel::ListDir(p@),
            Op::ReadLink(p) => OpModel::ReadLink(p@),
            Op::RemoveFile(p) => OpModel::RemoveFile(p@),
            Op::RemoveDir(p) => OpModel::RemoveDir(p@),
            Op::Rename { from, to } => OpModel::Rename { from: from@, to: to@ },
            Op::MakeSymlink { target, path } => OpModel::MakeSymlink {
                target: target@,
                path: path@,
            },
            Op::MakeDir(p) => OpModel::MakeDir(p@),
            Op::SetMode { path, mode } => OpModel::SetMode { path: path@, mode },
            Op::SetOwner { path, uid, gid } => OpModel::SetOwner { path: path@, uid, gid },
            Op::SetLength { path, size } => OpModel::SetLength { path: path@, size },
            Op::Open { path, how } => OpModel::Open { path: path@, how },
            Op::CopyFile { from, to } => OpModel::CopyFile { from: from@, to: to@ },
            Op::HandleSetLength { fh, size } => OpModel::HandleSetLength { fh, size },
            Op::HandleStat { fh } => OpModel::HandleStat { fh },
            Op::HandleSetMode { fh, mode } => OpModel::HandleSetMode { fh, mode },
            Op::HandleSetOwner { fh, uid, gid } => OpModel::HandleSetOwner { fh, uid, gid },
        }
    }
}

/// Whether a piece of work can change what the host has under `path`: it names the
/// path and removes, renames, makes or changes something, or opens it for more than
/// reading, or copies onto it.
pub open spec fn changes_host(op: OpModel, path: PathModel) -> bool {
    match op {
        OpModel::RemoveFile(p) => p == path,
        OpModel::RemoveDir(p) => p == path,
        OpModel::Rename { from, to } => from == path || to == path,
        OpModel::MakeSymlink { path: p, .. } => p == path,
        OpModel::MakeDir(p) => p == path,
        OpModel::SetMode { path: p, .. } => p == path,
        OpModel::SetOwner { path: p, .. } => p == path,
        OpModel::SetLength { path: p, .. } => p == path,
        OpModel::Open { path: p, how } => p == path && (how.write || how.append || how.create),
        OpModel::CopyFile { to, .. } => to == path,
        _ => false,
    }
}

/// What came back of a piece of work.
#[derive(Debug)]
pub enum Outcome {
    /// It was done.
    Done,
    /// It failed.
    Failed(Error),
    /// The daemon answered.
    Reply(Response),
    /// A yes or no.
    Flag(bool),
    /// What a file is.
    Stat(RealStat),
    /// What a directory holds.
    Listing(Vec<RealItem>),
    /// The target of a link.
    Bytes(Vec<u8>),
}

/// The error of work whose outcome does not fit it.
pub open spec fn is_misfit(e: Error) -> bool {
    e == Error::Io(IoError::Os(crate::errno::EIO))
}

/// Whether a failed outcome, or one that does not fit, gives an error.
pub open spec fn gives_error(outcome: Outcome, e: Error) -> bool {
    match outcome {
        Outcome::Failed(err) => e == err,
        _ => is_misfit(e),
    }
}

/// The error of a failed outcome, or of one that does not fit.
pub fn failure(outcome: Outcome) -> (r: Error)
    ensures
        gives_error(outcome, r),
{
    match outcome {
        Outcome::Failed(e) => e,
        _ => Error::os(crate::errno::EIO),
    }
}

/// Whether the daemon's answer is the one that a request asks for.
pub open spec fn is_ack(request: Request, response: Response) -> bool {
    match request {
        Request::UpsertFileEntry { .. } => response is UpsertFileEntry,
        Request::PutFileMeta { .. } => response is PutFileMeta,
        Request::DeleteFile { .. } => response is DeleteFile,
        Request::RenameFile { .. } => response is RenameFile,
        Request::PutDir { .. } => response is PutDir,
        Request::PutSymlink { .. } => response is PutSymlink,
        Request::PutWhiteout { .. } => response is PutWhiteout,
        Request::DeleteWhiteout { .. } => response is DeleteWhiteout,
        Request::RenameTree { .. } => response is RenameTree,
        Request::LogAccess { .. } => response is LogAccess,
        Request::Flush => response is Flush,
        _ => true,
    }
}

/// Reads the daemon's answer to a request that only asks for something to be done;
/// the answer to any other request counts as done.
pub fn read_ack(request: &Request, response: Response) -> (r: Result<(), ClientError>)
    ensures
        r is Ok <==> is_ack(*request, response),
        r matches Err(e) ==> client::is_refusal(e, response),
{
    match request {
        Request::UpsertFileEntry { .. } => client::upsert_file_entry(response),
        Request::PutFileMeta { .. } => client::put_file_meta(response),
        Request::DeleteFile { .. } => client::delete_file(response),
        Request::RenameFile { .. } => client::rename_file(response),
        Request::PutDir { .. } => client::put_dir(response),
        Request::PutSymlink { .. } => client::put_symlink(response),
        Request::PutWhiteout { .. } => client::put_whiteout(response),
        Request::DeleteWhiteout { .. } => client::delete_whiteout(response),
        Request::RenameTree { .. } => client::rename_tree(response),
        Request::LogAccess { .. } => client::log_access(response),
        Request::Flush => client::flush(response),
        _ => Ok(()),
    }
}

/// Whether a piece of work succeeded.
pub open spec fn succeeded(op: Op, outcome: Outcome) -> bool {
    match outcome {
        Outcome::Failed(_) => false,
        Outcome::Reply(response) => match op {
            Op::Daemon(request) => is_ack(request, response),
            _ => true,
        },
        _ => true,
    }
}

/// Reads the outcome of work that only has to be done: an error where it failed or
/// where the daemon refused.
pub fn read_done(op: &Op, outcome: Outcome) -> (r: Result<(), Error>)
    ensures
        r is Ok <==> succeeded(*op, outcome),
        r matches Err(e) ==> match outcome {
            Outcome::Failed(err) => e == err,
            Outcome::Reply(response) => e matches Error::SyncingClient(c) && client::is_refusal(c, response),
            _ => false,
        },
{
    match outcome {
        Outcome::Failed(e) => Err(e),
        Outcome::Reply(response) => match op {
            Op::Daemon(request) => match read_ack(request, response) {
                Ok(_) => Ok(()),
                Err(e) => Err(Error::SyncingClient(e)),
            },
            _ => Ok(()),
        },
        _ => Ok(()),
    }
}

} // verus!
