//! Carries the decisions out: which work is done, in which order, and what becomes
//! of its outcomes.

use crate::bytes::copy_bytes;
use crate::errno::{EIO, ENOENT, PERM_BITS, S_IFDIR};
use crate::error::{Error, IoError};
use crate::fuse::decision::{
    CreateDecision, MkdirDecision, OpenDecision, ReadlinkDecision, RenameDecision, RmdirDecision,
    UnlinkDecision,
};
use crate::fuse::ops::{
    create_how, failure, gives_error, how_of, open_how, read_done, succeeded, Op, OpModel, OpenHow,
    Outcome,
};
use crate::fuse::policy::AccessMode;
use crate::path::{path_views, FsPath, PathModel};
use crate::syncing::client;
use crate::syncing::proto::{EntryType, FileMetadata, FuseEntry, Request, RequestModel, Response};
use vstd::prelude::*;

verus! {

/// Where opening a file stands: what it waits for.
#[derive(Debug)]
pub enum OpenExec {
    /// For the host file.
    Host,
    /// For the daemon to make or find the object of the file.
    Ensure { path: FsPath, how: OpenHow, copy_up: bool, uncover: bool },
    /// For the daemon to say where a known object lies.
    Locate { oid: u64, path: FsPath, how: OpenHow, copy_up: bool, uncover: bool },
    /// For the host file to be copied to the object.
    Copy { oid: u64, object: FsPath, path: FsPath, how: OpenHow, uncover: bool },
    /// For the whiteout to be removed.
    Uncover { oid: u64, object: FsPath, how: OpenHow },
    /// For the object.
    Object { oid: u64 },
}

/// What opening a file does next.
#[derive(Debug)]
pub enum OpenNext {
    /// Do this and come back with the outcome.
    Do { op: Op, wait: OpenExec },
    /// Opened, on an object or on the host, or failed.
    Finished(Result<Option<u64>, Error>),
}

/// Whether opening has failed with an error number.
pub open spec fn failed_with(next: OpenNext, code: i32) -> bool {
    next matches OpenNext::Finished(Err(e)) && e == Error::Io(IoError::Os(code))
}

/// Whether the next work is to open the object.
pub open spec fn opens_object(next: OpenNext, oid: u64, object: PathModel, how: OpenHow) -> bool {
    next matches OpenNext::Do { op, wait } && op@ == (OpModel::Open { path: object, how }) && wait
        == (OpenExec::Object { oid })
}

/// Whether the next work is to remove the whiteout, where there may be one, or else
/// to open the object.
pub open spec fn uncovers(
    next: OpenNext,
    oid: u64,
    object: PathModel,
    path: PathModel,
    how: OpenHow,
    uncover: bool,
) -> bool {
    if uncover {
        next matches OpenNext::Do { op, wait } && op@ == OpModel::Daemon(
            RequestModel::DeleteWhiteout { path },
        ) && (wait matches OpenExec::Uncover { oid: o, object: b, how: h } && o == oid && b@ == object && h
            == how)
    } else {
        opens_object(next, oid, object, how)
    }
}

/// Whether the next work is to fill the object from the host, where asked, or else
/// what follows that.
pub open spec fn fills(
    next: OpenNext,
    oid: u64,
    object: PathModel,
    path: PathModel,
    how: OpenHow,
    copy_up: bool,
    uncover: bool,
) -> bool {
    if copy_up {
        next matches OpenNext::Do { op, wait } && op@ == (OpModel::CopyFile { from: path, to: object }) && (
        wait matches OpenExec::Copy { oid: o, object: b, path: p, how: h, uncover: u } && o == oid && b@ == object && p@
            == path && h == how && u == uncover)
    } else {
        uncovers(next, oid, object, path, how, uncover)
    }
}

/// What opening a file does first.
pub open spec fn open_started(
    decision: OpenDecision,
    path: PathModel,
    flags: i32,
    meta: FileMetadata,
    next: OpenNext,
) -> bool {
    match decision {
        OpenDecision::NotFound => failed_with(next, ENOENT),
        OpenDecision::Error => failed_with(next, EIO),
        OpenDecision::OpenReal => next matches OpenNext::Do { op, wait } && op@ == (OpModel::Open {
            path,
            how: how_of(flags),
        }) && wait == OpenExec::Host,
        OpenDecision::OpenObject {
            existing_object_id,
            needs_ensure,
            copy_up_from_real,
            delete_whiteout,
        } => if needs_ensure {
            next matches OpenNext::Do { op, wait } && op@ == OpModel::Daemon(
                if copy_up_from_real {
                    RequestModel::EnsureFileObjectFromReal { path, meta }
                } else {
                    RequestModel::EnsureFileObject { path, meta }
                },
            ) && (wait matches OpenExec::Ensure { path: p, how, copy_up, uncover } && p@ == path && how
                == how_of(flags) && copy_up == copy_up_from_real && uncover == delete_whiteout)
        } else {
            match existing_object_id {
                None => failed_with(next, EIO),
                Some(id) => next matches OpenNext::Do { op, wait } && op@ == OpModel::Daemon(
                    RequestModel::GetObjectPath { id },
                ) && (wait matches OpenExec::Locate { oid, path: p, how, copy_up, uncover } && oid == id
                    && p@ == path && how == how_of(flags) && copy_up == copy_up_from_real && uncover
                    == delete_whiteout),
            }
        },
    }
}

/// What opening a file does once the work it waited for came back.
pub open spec fn open_resumed(wait: OpenExec, outcome: Outcome, next: OpenNext) -> bool {
    match wait {
        OpenExec::Host => match outcome {
            Outcome::Done => next == OpenNext::Finished(Ok(None)),
            _ => next matches OpenNext::Finished(Err(e)) && gives_error(outcome, e),
        },
        OpenExec::Ensure { path, how, copy_up, uncover } => match outcome {
            Outcome::Reply(Response::EnsureFileObject { id, path: object }) => fills(
                next,
                id,
                object@,
                path@,
                how,
                copy_up,
                uncover,
            ),
            Outcome::Reply(response) => next matches OpenNext::Finished(Err(Error::SyncingClient(c)))
                && client::is_refusal(c, response),
            _ => next matches OpenNext::Finished(Err(e)) && gives_error(outcome, e),
        },
        OpenExec::Locate { oid, path, how, copy_up, uncover } => match outcome {
            Outcome::Reply(Response::GetObjectPath { path: object }) => fills(
                next,
                oid,
                object@,
                path@,
                how,
                copy_up,
                uncover,
            ),
            Outcome::Reply(Response::NotFound) => next matches OpenNext::Finished(
                Err(Error::SyncingClient(c)),
            ) && c is NotFound,
            Outcome::Reply(response) => next matches OpenNext::Finished(Err(Error::SyncingClient(c)))
                && client::is_refusal(c, response),
            _ => next matches OpenNext::Finished(Err(e)) && gives_error(outcome, e),
        },
        OpenExec::Copy { oid, object, path, how, uncover } => uncovers(
            next,
            oid,
            object@,
            path@,
            how,
            uncover,
        ),
        OpenExec::Uncover { oid, object, how } => opens_object(next, oid, object@, how),
        OpenExec::Object { oid } => match outcome {
            Outcome::Done => next == OpenNext::Finished(Ok(Some(oid))),
            _ => next matches OpenNext::Finished(Err(e)) && gives_error(outcome, e),
        },
    }
}

/// Goes on to open the object.
fn open_object(oid: u64, object: FsPath, how: OpenHow) -> (r: OpenNext)
    ensures
        opens_object(r, oid, object@, how),
{
    OpenNext::Do { op: Op::Open { path: object, how }, wait: OpenExec::Object { oid } }
}

/// Goes on to remove the whiteout where there may be one.
fn uncover_object(oid: u64, object: FsPath, path: FsPath, how: OpenHow, uncover: bool) -> (r: OpenNext)
    ensures
        uncovers(r, oid, object@, path@, how, uncover),
{
    if uncover {
        OpenNext::Do {
            op: Op::Daemon(Request::DeleteWhiteout { path }),
            wait: OpenExec::Uncover { oid, object, how },
        }
    } else {
        open_object(oid, object, how)
    }
}

/// Goes on to fill the object from the host where asked.
fn fill_object(
    oid: u64,
    object: FsPath,
    path: FsPath,
    how: OpenHow,
    copy_up: bool,
    uncover: bool,
) -> (r: OpenNext)
    ensures
        fills(r, oid, object@, path@, how, copy_up, uncover),
{
    if copy_up {
        OpenNext::Do {
            op: Op::CopyFile { from: path.copy(), to: object.copy() },
            wait: OpenExec::Copy { oid, object, path, how, uncover },
        }
    } else {
        uncover_object(oid, object, path, how, uncover)
    }
}

/// Starts opening a file.
pub fn execute_open(
    decision: OpenDecision,
    path: &FsPath,
    flags: i32,
    default_meta: FileMetadata,
) -> (r: OpenNext)
    ensures
        open_started(decision, path@, flags, default_meta, r),
{
    let how = open_how(flags);
    match decision {
        OpenDecision::NotFound => OpenNext::Finished(Err(Error::os(ENOENT))),
        OpenDecision::Error => OpenNext::Finished(Err(Error::os(EIO))),
        OpenDecision::OpenReal => OpenNext::Do {
            op: Op::Open { path: path.copy(), how },
            wait: OpenExec::Host,
        },
        OpenDecision::OpenObject {
            existing_object_id,
            needs_ensure,
            copy_up_from_real,
            delete_whiteout,
        } => {
            if needs_ensure {
                let request = if copy_up_from_real {
                    Request::EnsureFileObjectFromReal { path: path.copy(), meta: default_meta }
                } else {
                    Request::EnsureFileObject { path: path.copy(), meta: default_meta }
                };
                OpenNext::Do {
                    op: Op::Daemon(request),
                    wait: OpenExec::Ensure {
                        path: path.copy(),
                        how,
                        copy_up: copy_up_from_real,
                        uncover: delete_whiteout,
                    },
                }
            } else {
                match existing_object_id {
                    None => OpenNext::Finished(Err(Error::os(EIO))),
                    Some(oid) => OpenNext::Do {
                        op: Op::Daemon(Request::GetObjectPath { id: oid }),
                        wait: OpenExec::Locate {
                            oid,
                            path: path.copy(),
                            how,
                            copy_up: copy_up_from_real,
                            uncover: delete_whiteout,
                        },
                    },
                }
            }
        },
    }
}

impl OpenExec {
    /// Goes on with the outcome of the work that was waited for.
    pub fn resume(self, outcome: Outcome) -> (r: OpenNext)
        ensures
            open_resumed(self, outcome, r),
    {
        match self {
            OpenExec::Host => match outcome {
                Outcome::Done => OpenNext::Finished(Ok(None)),
                other => OpenNext::Finished(Err(failure(other))),
            },
            OpenExec::Ensure { path, how, copy_up, uncover } => match outcome {
                Outcome::Reply(response) => match client::ensure_file_object(response) {
                    Ok(found) => {
                        let (oid, object) = found;
                        fill_object(oid, object, path, how, copy_up, uncover)
                    },
                    Err(e) => OpenNext::Finished(Err(Error::SyncingClient(e))),
                },
                other => OpenNext::Finished(Err(failure(other))),
            },
            OpenExec::Locate { oid, path, how, copy_up, uncover } => match outcome {
                Outcome::Reply(response) => match client::get_object_path(response) {
                    Ok(object) => fill_object(oid, object, path, how, copy_up, uncover),
                    Err(e) => OpenNext::Finished(Err(Error::SyncingClient(e))),
                },
                other => OpenNext::Finished(Err(failure(other))),
            },
            OpenExec::Copy { oid, object, path, how, uncover } => uncover_object(
                oid,
                object,
                path,
                how,
                uncover,
            ),
            OpenExec::Uncover { oid, object, how } => open_object(oid, object, how),
            OpenExec::Object { oid } => match outcome {
                Outcome::Done => OpenNext::Finished(Ok(Some(oid))),
                other => OpenNext::Finished(Err(failure(other))),
            },
        }
    }
}

/// What creating a file does first: it opens it on the host, or has the daemon make
/// its object and then removes any whiteout.
pub open spec fn create_started(
    decision: CreateDecision,
    path: PathModel,
    mode: u32,
    flags: i32,
    meta: FileMetadata,
    next: OpenNext,
) -> bool {
    let how = OpenHow { create: true, mode: Some(mode), ..how_of(flags) };
    match decision {
        CreateDecision::CreateReal => next matches OpenNext::Do { op, wait } && op@ == (OpModel::Open {
            path,
            how,
        }) && wait == OpenExec::Host,
        CreateDecision::CreateObject => next matches OpenNext::Do { op, wait } && op@ == OpModel::Daemon(
            RequestModel::EnsureFileObject { path, meta },
        ) && (wait matches OpenExec::Ensure { path: p, how: h, copy_up, uncover } && p@ == path && h == how
            && !copy_up && uncover),
    }
}

/// Starts creating a file; it goes on as opening one does.
pub fn execute_create(
    decision: CreateDecision,
    path: &FsPath,
    mode: u32,
    flags: i32,
    meta: FileMetadata,
) -> (r: OpenNext)
    ensures
        create_started(decision, path@, mode, flags, meta, r),
{
    let how = create_how(flags, mode);
    match decision {
        CreateDecision::CreateReal => OpenNext::Do {
            op: Op::Open { path: path.copy(), how },
            wait: OpenExec::Host,
        },
        CreateDecision::CreateObject => OpenNext::Do {
            op: Op::Daemon(Request::EnsureFileObject { path: path.copy(), meta }),
            wait: OpenExec::Ensure { path: path.copy(), how, copy_up: false, uncover: true },
        },
    }
}

/// A step of a plan: work, and whether its failure ends the plan.
#[derive(Debug)]
pub struct PlanStep {
    pub op: Op,
    pub must: bool,
}

impl View for PlanStep {
    type V = (OpModel, bool);

    open spec fn view(&self) -> (OpModel, bool) {
        (self.op@, self.must)
    }
}

/// What the steps of a plan are.
pub open spec fn plan_view(v: Seq<PlanStep>) -> Seq<(OpModel, bool)> {
    Seq::new(v.len(), |i: int| v[i]@)
}

/// Adds a step to a plan.
fn plan_push(plan: &mut Vec<PlanStep>, op: Op, must: bool)
    ensures
        plan_view(final(plan)@) == plan_view(old(plan)@).push((op@, must)),
{
    let ghost before = plan@;
    plan.push(PlanStep { op, must });
    assert(plan_view(plan@) =~= plan_view(before).push((op@, must)));
}

/// A plan without steps.
fn plan_new() -> (r: Vec<PlanStep>)
    ensures
        plan_view(r@) == Seq::<(OpModel, bool)>::empty(),
{
    let plan: Vec<PlanStep> = Vec::new();
    assert(plan_view(plan@) =~= Seq::<(OpModel, bool)>::empty());
    plan
}

/// The plan for removing a file.
pub open spec fn unlink_plan(decision: UnlinkDecision, path: PathModel) -> Seq<(OpModel, bool)> {
    match decision {
        UnlinkDecision::RemoveReal => seq![(OpModel::RemoveFile(path), true)],
        UnlinkDecision::Whiteout => seq![
            (OpModel::Daemon(RequestModel::DeleteFile { path }), false),
            (OpModel::Daemon(RequestModel::PutWhiteout { path }), true),
        ],
    }
}

/// Plans the removal of a file.
pub fn execute_unlink(decision: UnlinkDecision, path: &FsPath) -> (r: Vec<PlanStep>)
    ensures
        plan_view(r@) == unlink_plan(decision, path@),
{
    let mut plan = plan_new();
    match decision {
        UnlinkDecision::RemoveReal => {
            plan_push(&mut plan, Op::RemoveFile(path.copy()), true);
        },
        UnlinkDecision::Whiteout => {
            plan_push(&mut plan, Op::Daemon(Request::DeleteFile { path: path.copy() }), false);
            plan_push(&mut plan, Op::Daemon(Request::PutWhiteout { path: path.copy() }), true);
        },
    }
    assert(plan_view(plan@) =~= unlink_plan(decision, path@));
    plan
}

/// The plan for removing a directory, given what the host has below it.
pub open spec fn rmdir_plan(
    decision: RmdirDecision,
    path: PathModel,
    descendants: Seq<PathModel>,
) -> Seq<(OpModel, bool)> {
    match decision {
        RmdirDecision::RemoveReal => seq![(OpModel::RemoveDir(path), true)],
        RmdirDecision::WhiteoutRecursive => seq![
            (OpModel::Daemon(RequestModel::DeleteFile { path }), false),
            (OpModel::Daemon(RequestModel::PutWhiteout { path }), true),
        ] + Seq::new(
            descendants.len(),
            |i: int| (OpModel::Daemon(RequestModel::PutWhiteout { path: descendants[i] }), false),
        ),
    }
}

/// Plans the removal of a directory.
pub fn execute_rmdir(decision: RmdirDecision, path: &FsPath, descendants: &Vec<FsPath>) -> (r: Vec<
    PlanStep,
>)
    ensures
        plan_view(r@) == rmdir_plan(decision, path@, path_views(descendants@)),
{
    let mut plan = plan_new();
    match decision {
        RmdirDecision::RemoveReal => {
            plan_push(&mut plan, Op::RemoveDir(path.copy()), true);
        },
        RmdirDecision::WhiteoutRecursive => {
            plan_push(&mut plan, Op::Daemon(Request::DeleteFile { path: path.copy() }), false);
            plan_push(&mut plan, Op::Daemon(Request::PutWhiteout { path: path.copy() }), true);
            let mut i: usize = 0;
            while i < descendants.len()
                invariant
                    i <= descendants.len(),
                    plan_view(plan@) =~= rmdir_plan(
                        RmdirDecision::WhiteoutRecursive,
                        path@,
                        path_views(descendants@).take(i as int),
                    ),
                decreases descendants.len() - i,
            {
                plan_push(
                    &mut plan,
                    Op::Daemon(Request::PutWhiteout { path: descendants[i].copy() }),
                    false,
                );
                i = i + 1;
            }
            proof {
                assert(path_views(descendants@).take(descendants@.len() as int) =~= path_views(
                    descendants@,
                ));
            }
        },
    }
    assert(plan_view(plan@) =~= rmdir_plan(decision, path@, path_views(descendants@)));
    plan
}

/// The plan for renaming.
pub open spec fn rename_plan(decision: RenameDecision, from: PathModel, to: PathModel) -> Seq<(
    OpModel,
    bool,
)> {
    match decision {
        RenameDecision::RenameReal => seq![(OpModel::Rename { from, to }, true)],
        RenameDecision::RenameFuseFileOrSymlink => seq![
            (OpModel::Daemon(RequestModel::RenameFile { from, to }), true),
            (OpModel::Daemon(RequestModel::DeleteWhiteout { path: to }), false),
        ],
        RenameDecision::RenameFuseTree => seq![
            (OpModel::Daemon(RequestModel::RenameTree { from, to }), true),
            (OpModel::Daemon(RequestModel::DeleteWhiteout { path: to }), false),
        ],
    }
}

/// Plans a rename.
pub fn execute_rename(decision: RenameDecision, from: &FsPath, to: &FsPath) -> (r: Vec<PlanStep>)
    ensures
        plan_view(r@) == rename_plan(decision, from@, to@),
{
    let mut plan = plan_new();
    match decision {
        RenameDecision::RenameReal => {
            plan_push(&mut plan, Op::Rename { from: from.copy(), to: to.copy() }, true);
        },
        RenameDecision::RenameFuseFileOrSymlink => {
            plan_push(
                &mut plan,
                Op::Daemon(Request::RenameFile { from: from.copy(), to: to.copy() }),
                true,
            );
            plan_push(&mut plan, Op::Daemon(Request::DeleteWhiteout { path: to.copy() }), false);
        },
        RenameDecision::RenameFuseTree => {
            plan_push(
                &mut plan,
                Op::Daemon(Request::RenameTree { from: from.copy(), to: to.copy() }),
                true,
            );
            plan_push(&mut plan, Op::Daemon(Request::DeleteWhiteout { path: to.copy() }), false);
        },
    }
    assert(plan_view(plan@) =~= rename_plan(decision, from@, to@));
    plan
}

/// The plan for making a link.
pub open spec fn symlink_plan(mode: AccessMode, path: PathModel, target: Seq<u8>, meta: FileMetadata) -> Seq<
    (OpModel, bool),
> {
    if mode is Passthrough {
        seq![(OpModel::MakeSymlink { target, path }, true)]
    } else {
        seq![
            (OpModel::Daemon(RequestModel::PutSymlink { path, target, meta }), true),
            (OpModel::Daemon(RequestModel::DeleteWhiteout { path }), false),
        ]
    }
}

/// Plans a link.
pub fn execute_symlink(
    access_mode: AccessMode,
    path: &FsPath,
    target: &[u8],
    meta: FileMetadata,
) -> (r: Vec<PlanStep>)
    ensures
        plan_view(r@) == symlink_plan(access_mode, path@, target@, meta),
{
    let mut plan = plan_new();
    match access_mode {
        AccessMode::Passthrough => {
            plan_push(
                &mut plan,
                Op::MakeSymlink { target: copy_bytes(target), path: path.copy() },
                true,
            );
        },
        AccessMode::FuseOnly | AccessMode::CopyOnWrite => {
            plan_push(
                &mut plan,
                Op::Daemon(
                    Request::PutSymlink { path: path.copy(), target: copy_bytes(target), meta },
                ),
                true,
            );
            plan_push(&mut plan, Op::Daemon(Request::DeleteWhiteout { path: path.copy() }), false);
        },
    }
    assert(plan_view(plan@) =~= symlink_plan(access_mode, path@, target@, meta));
    plan
}

/// The metadata of a file or directory made now.
pub open spec fn meta_now(size: u64, mode: u32, uid: u32, gid: u32, now: u64) -> FileMetadata {
    FileMetadata { size, mode, uid, gid, mtime: now, atime: now, ctime: now }
}

/// The metadata of a file or directory made at a time.
pub fn file_meta_with_now(size: u64, mode: u32, uid: u32, gid: u32, now: u64) -> (r: FileMetadata)
    ensures
        r == meta_now(size, mode, uid, gid, now),
{
    FileMetadata { size, mode, uid, gid, mtime: now, atime: now, ctime: now }
}

/// The plan for making a directory.
pub open spec fn mkdir_plan(
    decision: MkdirDecision,
    path: PathModel,
    mode: u32,
    uid: u32,
    gid: u32,
    now: u64,
) -> Seq<(OpModel, bool)> {
    match decision {
        MkdirDecision::CreateReal => seq![
            (OpModel::MakeDir(path), true),
            (OpModel::SetMode { path, mode: mode & PERM_BITS }, true),
        ],
        MkdirDecision::CreateDaemon => seq![
            (
                OpModel::Daemon(
                    RequestModel::PutDir {
                        path,
                        meta: meta_now(0, S_IFDIR | (mode & PERM_BITS), uid, gid, now),
                    },
                ),
                true,
            ),
            (OpModel::Daemon(RequestModel::DeleteWhiteout { path }), false),
        ],
    }
}

/// Plans a directory.
pub fn execute_mkdir(
    decision: MkdirDecision,
    path: &FsPath,
    mode: u32,
    uid: u32,
    gid: u32,
    now: u64,
) -> (r: Vec<PlanStep>)
    ensures
        plan_view(r@) == mkdir_plan(decision, path@, mode, uid, gid, now),
{
    let mut plan = plan_new();
    match decision {
        MkdirDecision::CreateReal => {
            plan_push(&mut plan, Op::MakeDir(path.copy()), true);
            plan_push(
                &mut plan,
                Op::SetMode { path: path.copy(), mode: mode & PERM_BITS },
                true,
            );
        },
        MkdirDecision::CreateDaemon => {
            let meta = file_meta_with_now(0, S_IFDIR | (mode & PERM_BITS), uid, gid, now);
            plan_push(&mut plan, Op::Daemon(Request::PutDir { path: path.copy(), meta }), true);
            plan_push(&mut plan, Op::Daemon(Request::DeleteWhiteout { path: path.copy() }), false);
        },
    }
    assert(plan_view(plan@) =~= mkdir_plan(decision, path@, mode, uid, gid, now));
    plan
}

/// A step where a value is given, and none where it is not.
pub open spec fn plan_if(taken: bool, op: OpModel, must: bool) -> Seq<(OpModel, bool)> {
    if taken {
        seq![(op, must)]
    } else {
        Seq::empty()
    }
}

/// The mode bits of an optional mode.
pub open spec fn mode_bits(mode: Option<u32>) -> u32 {
    match mode {
        Some(m) => m & PERM_BITS,
        None => 0,
    }
}

/// The length of an optional size.
pub open spec fn size_of_opt(size: Option<u64>) -> u64 {
    match size {
        Some(s) => s,
        None => 0,
    }
}

/// The plan for changing attributes through an open handle; `strict` where a mode
/// that cannot be set is an error, and the handle is looked at once more at the end.
pub open spec fn handle_attr_plan(
    fh: u64,
    mode: Option<u32>,
    uid: Option<u32>,
    gid: Option<u32>,
    size: Option<u64>,
    strict: bool,
) -> Seq<(OpModel, bool)> {
    let owner = mode is Some || uid is Some || gid is Some;
    plan_if(size is Some, OpModel::HandleSetLength { fh, size: size_of_opt(size) }, true) + plan_if(
        owner,
        OpModel::HandleStat { fh },
        true,
    ) + plan_if(mode is Some, OpModel::HandleSetMode { fh, mode: mode_bits(mode) }, strict) + plan_if(
        owner,
        OpModel::HandleSetOwner { fh, uid, gid },
        false,
    ) + plan_if(strict, OpModel::HandleStat { fh }, false)
}

/// Plans a change of attributes through an open handle.
pub fn execute_setattr_on_open_handle(
    fh: u64,
    mode: Option<u32>,
    uid: Option<u32>,
    gid: Option<u32>,
    size: Option<u64>,
    strict: bool,
) -> (r: Vec<PlanStep>)
    ensures
        plan_view(r@) == handle_attr_plan(fh, mode, uid, gid, size, strict),
{
    let mut plan = plan_new();
    match size {
        Some(sz) => {
            plan_push(&mut plan, Op::HandleSetLength { fh, size: sz }, true);
        },
        None => {},
    }
    if mode.is_some() || uid.is_some() || gid.is_some() {
        plan_push(&mut plan, Op::HandleStat { fh }, true);
        match mode {
            Some(m) => {
                plan_push(&mut plan, Op::HandleSetMode { fh, mode: m & PERM_BITS }, strict);
            },
            None => {},
        }
        plan_push(&mut plan, Op::HandleSetOwner { fh, uid, gid }, false);
    }
    if strict {
        plan_push(&mut plan, Op::HandleStat { fh }, false);
    }
    assert(plan_view(plan@) =~= handle_attr_plan(fh, mode, uid, gid, size, strict));
    plan
}

/// The plan for changing attributes on the host.
pub open spec fn host_attr_plan(
    path: PathModel,
    mode: Option<u32>,
    uid: Option<u32>,
    gid: Option<u32>,
    size: Option<u64>,
) -> Seq<(OpModel, bool)> {
    let owner = mode is Some || uid is Some || gid is Some;
    plan_if(size is Some, OpModel::SetLength { path, size: size_of_opt(size) }, true) + plan_if(
        mode is Some,
        OpModel::SetMode { path, mode: mode_bits(mode) },
        false,
    ) + plan_if(owner, OpModel::SetOwner { path, uid, gid }, false)
}

/// Plans a change of attributes on the host.
pub fn execute_setattr_on_host(
    path: &FsPath,
    mode: Option<u32>,
    uid: Option<u32>,
    gid: Option<u32>,
    size: Option<u64>,
) -> (r: Vec<PlanStep>)
    ensures
        plan_view(r@) == host_attr_plan(path@, mode, uid, gid, size),
{
    let mut plan = plan_new();
    match size {
        Some(sz) => {
            plan_push(&mut plan, Op::SetLength { path: path.copy(), size: sz }, true);
        },
        None => {},
    }
    if mode.is_some() || uid.is_some() || gid.is_some() {
        match mode {
            Some(m) => {
                plan_push(
                    &mut plan,
                    Op::SetMode { path: path.copy(), mode: m & PERM_BITS },
                    false,
                );
            },
            None => {},
        }
        plan_push(&mut plan, Op::SetOwner { path: path.copy(), uid, gid }, false);
    }
    assert(plan_view(plan@) =~= host_attr_plan(path@, mode, uid, gid, size));
    plan
}

/// Metadata with the given attributes changed: only the permission bits of a mode
/// count, and the change time is now.
pub open spec fn changed_meta(
    m: FileMetadata,
    mode: Option<u32>,
    uid: Option<u32>,
    gid: Option<u32>,
    size: Option<u64>,
    now: u64,
) -> FileMetadata {
    FileMetadata {
        mode: match mode {
            Some(v) => (m.mode & !PERM_BITS) | (v & PERM_BITS),
            None => m.mode,
        },
        uid: match uid {
            Some(v) => v,
            None => m.uid,
        },
        gid: match gid {
            Some(v) => v,
            None => m.gid,
        },
        size: match size {
            Some(v) => v,
            None => m.size,
        },
        ctime: now,
        ..m
    }
}

/// Changes attributes in metadata.
pub fn change_meta(
    m: FileMetadata,
    mode: Option<u32>,
    uid: Option<u32>,
    gid: Option<u32>,
    size: Option<u64>,
    now: u64,
) -> (r: FileMetadata)
    ensures
        r == changed_meta(m, mode, uid, gid, size, now),
{
    let new_mode = match mode {
        Some(v) => (m.mode & !PERM_BITS) | (v & PERM_BITS),
        None => m.mode,
    };
    let new_uid = match uid {
        Some(v) => v,
        None => m.uid,
    };
    let new_gid = match gid {
        Some(v) => v,
        None => m.gid,
    };
    let new_size = match size {
        Some(v) => v,
        None => m.size,
    };
    FileMetadata {
        size: new_size,
        mode: new_mode,
        uid: new_uid,
        gid: new_gid,
        mtime: m.mtime,
        atime: m.atime,
        ctime: now,
    }
}

/// The request that stores changed attributes, given what the daemon answered when
/// asked for the old ones; none where it had none, or an error where it failed.
pub fn execute_setattr_meta_update(
    path: &FsPath,
    answer: Outcome,
    mode: Option<u32>,
    uid: Option<u32>,
    gid: Option<u32>,
    size: Option<u64>,
    now: u64,
) -> (r: Result<Option<Op>, Error>)
    ensures
        match answer {
            Outcome::Reply(Response::GetFileMeta(Some(m))) => r matches Ok(Some(op)) && op@
                == OpModel::Daemon(
                RequestModel::PutFileMeta {
                    path: path@,
                    meta: changed_meta(m, mode, uid, gid, size, now),
                },
            ),
            Outcome::Reply(Response::GetFileMeta(None)) => r matches Ok(None),
            Outcome::Reply(response) => r matches Err(Error::SyncingClient(c)) && client::is_refusal(
                c,
                response,
            ),
            _ => r matches Err(e) && gives_error(answer, e),
        },
{
    match answer {
        Outcome::Reply(response) => match client::get_file_meta(response) {
            Ok(Some(m)) => {
                let meta = change_meta(m, mode, uid, gid, size, now);
                Ok(Some(Op::Daemon(Request::PutFileMeta { path: path.copy(), meta })))
            },
            Ok(None) => Ok(None),
            Err(e) => Err(Error::SyncingClient(e)),
        },
        other => Err(failure(other)),
    }
}

/// Whether a step of a plan is the last look at an open handle.
pub open spec fn is_last_look(step: (OpModel, bool)) -> bool {
    step.0 is HandleStat && !step.1
}

/// What is done after a step of a plan for an open handle, besides the next step: what
/// the last look saw is stored, as of now; where it saw nothing, nothing is.
pub open spec fn handle_stored(
    step: (OpModel, bool),
    path: PathModel,
    outcome: Outcome,
    now: u64,
) -> Option<OpModel> {
    match outcome {
        Outcome::Stat(s) => if is_last_look(step) {
            Some(
                OpModel::Daemon(
                    RequestModel::PutFileMeta {
                        path,
                        meta: meta_now(s.size, s.mode, s.uid, s.gid, now),
                    },
                ),
            )
        } else {
            None
        },
        _ => None,
    }
}

/// The request that follows a step of a plan for an open handle; that it fails is no
/// matter.
pub fn store_handle_meta(step: &PlanStep, path: &FsPath, outcome: &Outcome, now: u64) -> (r: Option<Op>)
    ensures
        match r {
            Some(op) => handle_stored(step@, path@, *outcome, now) == Some(op@),
            None => handle_stored(step@, path@, *outcome, now) is None,
        },
{
    if step.must {
        return None;
    }
    match &step.op {
        Op::HandleStat { fh } => {},
        _ => {
            return None;
        },
    }
    match outcome {
        Outcome::Stat(s) => Some(
            Op::Daemon(
                Request::PutFileMeta {
                    path: path.copy(),
                    meta: file_meta_with_now(s.size, s.mode, s.uid, s.gid, now),
                },
            ),
        ),
        _ => None,
    }
}

/// What reading a link does first.
#[derive(Debug)]
pub enum LinkNext {
    Do(Op),
    Failed(Error),
}

/// Starts reading a link.
pub fn execute_readlink(decision: ReadlinkDecision, path: &FsPath) -> (r: LinkNext)
    ensures
        match decision {
            ReadlinkDecision::UseFuse => r matches LinkNext::Do(op) && op@ == OpModel::Daemon(
                RequestModel::GetEntry { path: path@ },
            ),
            ReadlinkDecision::UseReal => r matches LinkNext::Do(op) && op@ == OpModel::ReadLink(path@),
            ReadlinkDecision::NotFound => r == LinkNext::Failed(Error::Io(IoError::Os(ENOENT))),
        },
{
    match decision {
        ReadlinkDecision::UseFuse => LinkNext::Do(
            Op::Daemon(Request::GetEntry { path: path.copy() }),
        ),
        ReadlinkDecision::UseReal => LinkNext::Do(Op::ReadLink(path.copy())),
        ReadlinkDecision::NotFound => LinkNext::Failed(Error::os(ENOENT)),
    }
}

/// Whether a result is the target of a link that an outcome gives.
pub open spec fn is_link_target(outcome: Outcome, r: Result<Vec<u8>, Error>) -> bool {
    match outcome {
        Outcome::Bytes(b) => r == Ok::<Vec<u8>, Error>(b),
        Outcome::Reply(Response::GetEntry(entry)) => r matches Ok(b) && b@ == match entry {
            Some(e) => match e@.symlink_target {
                Some(t) => t,
                None => Seq::empty(),
            },
            None => Seq::empty(),
        },
        Outcome::Reply(response) => r matches Err(Error::SyncingClient(c)) && client::is_refusal(
            c,
            response,
        ),
        _ => r matches Err(e) && gives_error(outcome, e),
    }
}

/// Reads the target of a link from an outcome: what the host gave, or the target in
/// the daemon's entry, which is empty where there is none.
pub fn link_target(outcome: Outcome) -> (r: Result<Vec<u8>, Error>)
    ensures
        is_link_target(outcome, r),
{
    match outcome {
        Outcome::Bytes(b) => Ok(b),
        Outcome::Reply(response) => match client::get_entry(response) {
            Ok(entry) => {
                let target = match entry {
                    Some(e) => match e.symlink_target {
                        Some(t) => t,
                        None => Vec::new(),
                    },
                    None => Vec::new(),
                };
                Ok(target)
            },
            Err(e) => Err(Error::SyncingClient(e)),
        },
        other => Err(failure(other)),
    }
}

/// Whether an entry is a directory.
pub fn is_dir_entry(entry: &Option<FuseEntry>) -> (r: bool)
    ensures
        r == (entry is Some && entry->0.entry_type is Dir),
{
    match entry {
        Some(e) => e.entry_type == EntryType::Dir,
        None => false,
    }
}

/// What becomes of the steps that are left of a plan once the outcome of the first came
/// back, and the error that ends the plan.
pub open spec fn plan_advanced(
    left: Seq<PlanStep>,
    outcome: Outcome,
    after: Seq<PlanStep>,
    error: Option<Error>,
) -> bool {
    let step = left[0];
    if step.must && !succeeded(step.op, outcome) {
        &&& after.len() == 0
        &&& error matches Some(e) && match outcome {
            Outcome::Failed(err) => e == err,
            Outcome::Reply(response) => e matches Error::SyncingClient(c) && client::is_refusal(
                c,
                response,
            ),
            _ => false,
        }
    } else {
        &&& after == left.skip(1)
        &&& error is None
    }
}

/// A plan being carried out.
#[derive(Debug)]
pub struct PlanRun {
    steps: Vec<PlanStep>,
    at: usize,
}

impl PlanRun {
    /// The steps that are left.
    pub closed spec fn left(&self) -> Seq<PlanStep> {
        self.steps@.skip(self.at as int)
    }

    /// The position lies in the plan.
    pub closed spec fn wf(&self) -> bool {
        self.at <= self.steps@.len()
    }

    /// Starts a plan.
    pub fn new(steps: Vec<PlanStep>) -> (r: PlanRun)
        ensures
            r.wf(),
            r.left() == steps@,
    {
        let run = PlanRun { steps, at: 0 };
        assert(run.left() =~= run.steps@);
        run
    }

    /// The work to do next; none where the plan is done.
    pub fn next_op(&self) -> (r: Option<&Op>)
        requires
            self.wf(),
        ensures
            match r {
                Some(op) => self.left().len() > 0 && *op == self.left()[0].op,
                None => self.left().len() == 0,
            },
    {
        if self.at < self.steps.len() {
            Some(&self.steps[self.at].op)
        } else {
            None
        }
    }

    /// Takes the outcome of the next work: the error ends the plan where the step
    /// must succeed, and is passed over where it need not.
    pub fn advance(&mut self, outcome: Outcome) -> (r: Option<Error>)
        requires
            old(self).wf(),
            old(self).left().len() > 0,
        ensures
            final(self).wf(),
            plan_advanced(old(self).left(), outcome, final(self).left(), r),
    {
        let ghost pre = self.left();
        let total = self.steps.len();
        assert(self.at < total);
        let must = self.steps[self.at].must;
        match read_done(&self.steps[self.at].op, outcome) {
            Ok(_) => {
                self.at = self.at + 1;
                assert(self.left() =~= pre.skip(1));
                None
            },
            Err(e) => {
                if must {
                    self.at = total;
                    Some(e)
                } else {
                    self.at = self.at + 1;
                    assert(self.left() =~= pre.skip(1));
                    None
                }
            },
        }
    }
}

} // verus!
