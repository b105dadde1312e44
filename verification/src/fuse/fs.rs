//! The operations of the file system, from the request to the answer.

use crate::bytes::copy_bytes;
use crate::errno::{EBADF, EIO, ENOENT, PERM_BITS, S_IFLNK, S_IFREG};
use crate::error::{err_to_errno, errno_for, Error, IoError};
use crate::fuse::attr::FileKind;
use crate::fuse::decision::{
    choose_visible_child, create_decision, decide_create, decide_mkdir, decide_open_with_transitions,
    decide_readdir, decide_readlink, decide_rename, decide_rmdir, decide_setattr, decide_unlink,
    decision_for, decides, mkdir_decision, object_of, open_decision, readlink_decision,
    rename_decision, rmdir_decision, unlink_decision, validate_readdir_decision, visible_item,
    rows_sound, ReadlinkDecision, SetattrDecision,
};
use crate::fuse::decision_laws::law_readdir_decision_valid;
use crate::fuse::executor::{
    create_started, execute_create, execute_mkdir, execute_open, execute_readlink, execute_rename,
    execute_rmdir, execute_setattr_meta_update, execute_setattr_on_host,
    execute_setattr_on_open_handle, execute_symlink, execute_unlink, file_meta_with_now,
    changed_meta, handle_attr_plan, host_attr_plan, is_link_target, link_target, meta_now, mkdir_plan,
    open_resumed, open_started, plan_view, rename_plan, rmdir_plan, symlink_plan, unlink_plan,
    LinkNext, OpenExec, OpenNext, PlanStep,
};
use crate::fuse::inner::Inner;
use crate::fuse::inode::{ino_for, inodes_with, InodeModel};
use crate::fuse::ops::{
    failure, gives_error, how_of, wants_truncate, wants_write, Op, OpModel, Outcome,
};
use crate::fuse::policy::{AccessMode, Policy};
use crate::fuse::state::{OpenState, ReaddirChildState, ReaddirState};
use crate::fuse::state_loader::{
    load_create_state, load_mkdir_state, load_open_state, load_readdir_state, load_readlink_state,
    load_rename_state, load_rmdir_state, load_setattr_state, load_unlink_state, merges,
    object_to_find, RealItem,
};
use crate::names::maps_to;
use crate::path::{
    child_path, dot_dot, file_name_of, parent_of, path_views, root_path, FsPath, PathModel,
};
use crate::syncing::client;
use crate::syncing::proto::{FileMetadata, FuseEntry, Request, RequestModel, Response};
use crate::text::is_utf8;
use vstd::prelude::*;

verus! {

/// Whether a name leads to the directory above.
pub fn check_export_component(component: &[u8]) -> (r: bool)
    ensures
        r == (component@ == dot_dot()),
{
    if component.len() == 2 && component[0] == 46 && component[1] == 46 {
        assert(component@ =~= dot_dot());
        return true;
    }
    false
}

/// The path that a name in a directory leads to: the directory above for two dots,
/// which for the root is the root.
pub open spec fn path_in(parent: PathModel, name: Seq<u8>) -> PathModel {
    if name == dot_dot() {
        match parent_of(parent) {
            Some(p) => p,
            None => parent,
        }
    } else {
        child_path(parent, name)
    }
}

/// The path that a name in a directory leads to.
pub fn path_of_child(parent: &FsPath, name: &[u8]) -> (r: FsPath)
    ensures
        r@ == path_in(parent@, name@),
{
    if check_export_component(name) {
        match parent.parent() {
            Some(p) => p,
            None => parent.copy(),
        }
    } else {
        parent.child(name)
    }
}

/// The end of the names of SQLite's write-ahead logs.
pub open spec fn wal_suffix() -> Seq<u8> {
    seq![45u8, 119, 97, 108]
}

/// Whether a path is a write-ahead log of SQLite: its name is text and ends in `-wal`.
pub open spec fn is_wal(path: PathModel) -> bool {
    match file_name_of(path) {
        Some(name) => vstd::utf8::valid_utf8(name) && name.len() >= 4 && name.skip(name.len() - 4)
            == wal_suffix(),
        None => false,
    }
}

/// Whether a path is a write-ahead log of SQLite, which bypasses the page cache.
pub fn is_sqlite_wal_file(path: &FsPath) -> (r: bool)
    ensures
        r == is_wal(path@),
{
    match path.file_name() {
        Some(name) => {
            let n = name.len();
            if n < 4 || !is_utf8(name.as_slice()) {
                return false;
            }
            let r = name[n - 4] == 45 && name[n - 3] == 119 && name[n - 2] == 97 && name[n - 1] == 108;
            proof {
                let tail = name@.skip(n - 4);
                assert(tail.len() == 4);
                assert(tail[0] == name@[n - 4] && tail[1] == name@[n - 3] && tail[2] == name@[n - 2]
                    && tail[3] == name@[n - 1]);
                if r {
                    assert(tail =~= wal_suffix());
                }
            }
            r
        },
        None => false,
    }
}

/// What a request to open a file carries along.
#[derive(Debug)]
pub struct OpenJob {
    pub path: FsPath,
    pub flags: i32,
    pub uid: u32,
    pub gid: u32,
    pub now: u64,
}

/// Whether two requests to open a file are the same.
pub open spec fn same_job(a: OpenJob, b: OpenJob) -> bool {
    a.path@ == b.path@ && a.flags == b.flags && a.uid == b.uid && a.gid == b.gid && a.now == b.now
}

/// Where a request to open a file stands: what it waits for.
#[derive(Debug)]
pub enum OpenTask {
    /// For the access to be logged.
    Logged { job: OpenJob },
    /// For the daemon's entry.
    Entry { job: OpenJob },
    /// For where the object of the entry lies.
    Object { job: OpenJob, entry: Option<FuseEntry> },
    /// For whether the host has the file.
    Exists { job: OpenJob, entry: Option<FuseEntry>, object_path: Option<FsPath> },
    /// For the work of opening.
    Run { job: OpenJob, wait: OpenExec },
}

/// An opened file: its object, where it is on one, and whether it bypasses the page
/// cache.
#[derive(Debug, Clone, Copy, PartialEq, Eq, Structural)]
pub struct OpenDone {
    pub object_id: Option<u64>,
    pub direct_io: bool,
}

/// What a request to open a file does next.
#[derive(Debug)]
pub enum OpenTaskNext {
    Do { op: Op, task: OpenTask },
    /// Opened, or failed with an error number.
    Finished(Result<OpenDone, i32>),
}

/// Whether the daemon is asked for the entry of a file next.
pub open spec fn asks_entry(next: OpenTaskNext, job: OpenJob) -> bool {
    next matches OpenTaskNext::Do { op, task } && op@ == OpModel::Daemon(
        RequestModel::GetEntry { path: job.path@ },
    ) && (task matches OpenTask::Entry { job: j } && same_job(j, job))
}

/// Whether the host is asked for a file next.
pub open spec fn asks_exists(
    next: OpenTaskNext,
    job: OpenJob,
    entry: Option<FuseEntry>,
    object_path: Option<FsPath>,
) -> bool {
    next matches OpenTaskNext::Do { op, task } && op@ == OpModel::Exists(job.path@) && (
    task matches OpenTask::Exists { job: j, entry: e, object_path: o } && same_job(j, job) && e == entry && o
        == object_path)
}

/// Whether the next step of a request is the next step of opening.
pub open spec fn wraps(n: OpenNext, job: OpenJob, next: OpenTaskNext) -> bool {
    match n {
        OpenNext::Do { op, wait } => next matches OpenTaskNext::Do { op: o, task } && o == op && (
        task matches OpenTask::Run { job: j, wait: w } && same_job(j, job) && w == wait),
        OpenNext::Finished(Ok(oid)) => next == OpenTaskNext::Finished(
            Ok(OpenDone { object_id: oid, direct_io: is_wal(job.path@) }),
        ),
        OpenNext::Finished(Err(e)) => next == OpenTaskNext::Finished(Err(errno_for(e))),
    }
}

/// The metadata of a file that opening makes.
pub open spec fn default_meta_of(job: OpenJob) -> FileMetadata {
    meta_now(0, S_IFREG | 0o644, job.uid, job.gid, job.now)
}

/// Whether what came back is a yes.
pub open spec fn said_yes(outcome: Outcome) -> bool {
    outcome == Outcome::Flag(true)
}

/// What is known of a file to open.
pub open spec fn open_state_of(
    state: OpenState,
    mode: AccessMode,
    job: OpenJob,
    entry: Option<FuseEntry>,
    object_path: Option<FsPath>,
    real_exists: bool,
) -> bool {
    &&& state.access_mode == mode
    &&& state.path@ == job.path@
    &&& state.need_write == how_of(job.flags).write
    &&& state.truncate_requested == (job.flags & crate::errno::O_TRUNC != 0)
    &&& state.real_exists == real_exists
    &&& state.fuse_entry == entry
    &&& state.object_path == object_path
}

/// What a request to open a file does once what it waited for came back, under a mode.
pub open spec fn open_task_resumed(task: OpenTask, mode: AccessMode, outcome: Outcome, next: OpenTaskNext) -> bool {
    match task {
        OpenTask::Logged { job } => asks_entry(next, job),
        OpenTask::Entry { job } => match outcome {
            Outcome::Reply(Response::GetEntry(entry)) => match object_of(entry) {
                Some(id) => next matches OpenTaskNext::Do { op, task: t } && op@ == OpModel::Daemon(
                    RequestModel::GetObjectPath { id },
                ) && (t matches OpenTask::Object { job: j, entry: e } && same_job(j, job) && e == entry),
                None => asks_exists(next, job, entry, None),
            },
            Outcome::Reply(_) => next == OpenTaskNext::Finished(Err(EIO)),
            Outcome::Failed(e) => next == OpenTaskNext::Finished(Err(errno_for(e))),
            _ => next == OpenTaskNext::Finished(Err(EIO)),
        },
        OpenTask::Object { job, entry } => asks_exists(
            next,
            job,
            entry,
            match outcome {
                Outcome::Reply(Response::GetObjectPath { path }) => Some(path),
                _ => None,
            },
        ),
        OpenTask::Exists { job, entry, object_path } => exists|state: OpenState, n: OpenNext| #[trigger]
            wraps(n, job, next) && #[trigger] open_state_of(
                state,
                mode,
                job,
                entry,
                object_path,
                said_yes(outcome),
            ) && open_started(open_decision(state), job.path@, job.flags, default_meta_of(job), n),
        OpenTask::Run { job, wait } => exists|n: OpenNext| #[trigger]
            wraps(n, job, next) && open_resumed(wait, outcome, n),
    }
}

/// The path of a request to open a file.
pub open spec fn open_task_path(task: OpenTask) -> PathModel {
    match task {
        OpenTask::Logged { job } => job.path@,
        OpenTask::Entry { job } => job.path@,
        OpenTask::Object { job, .. } => job.path@,
        OpenTask::Exists { job, .. } => job.path@,
        OpenTask::Run { job, .. } => job.path@,
    }
}

/// Takes a step of opening as the step of a request.
fn wrap_open(n: OpenNext, job: OpenJob) -> (r: OpenTaskNext)
    ensures
        wraps(n, job, r),
{
    match n {
        OpenNext::Do { op, wait } => OpenTaskNext::Do { op, task: OpenTask::Run { job, wait } },
        OpenNext::Finished(Ok(object_id)) => OpenTaskNext::Finished(
            Ok(OpenDone { object_id, direct_io: is_sqlite_wal_file(&job.path) }),
        ),
        OpenNext::Finished(Err(e)) => OpenTaskNext::Finished(Err(err_to_errno(&e))),
    }
}

/// How a request to open a file begins, where the first access is logged or not.
pub open spec fn open_begun(logs: bool, job: OpenJob, pid: u32, next: OpenTaskNext) -> bool {
    if logs {
        next matches OpenTaskNext::Do { op, task } && op@ == OpModel::Daemon(
            RequestModel::LogAccess { path: job.path@, operation: "open"@, pid },
        ) && (task matches OpenTask::Logged { job: j } && same_job(j, job))
    } else {
        asks_entry(next, job)
    }
}

/// Starts a request to open a file: the access is logged where the policy says so.
pub fn open<P: Policy>(policy: &P, job: OpenJob, pid: u32) -> (r: OpenTaskNext)
    ensures
        open_begun(policy.spec_should_log(job.path@), job, pid, r),
{
    if policy.should_log(&job.path) {
        let operation = String::from_str("open");
        OpenTaskNext::Do {
            op: Op::Daemon(Request::LogAccess { path: job.path.copy(), operation, pid }),
            task: OpenTask::Logged { job },
        }
    } else {
        OpenTaskNext::Do {
            op: Op::Daemon(Request::GetEntry { path: job.path.copy() }),
            task: OpenTask::Entry { job },
        }
    }
}

impl OpenTask {
    /// Goes on with the outcome of the work that was waited for.
    pub fn resume<P: Policy>(self, policy: &P, outcome: Outcome) -> (r: OpenTaskNext)
        ensures
            open_task_resumed(self, policy.spec_classify(open_task_path(self)), outcome, r),
    {
        match self {
            OpenTask::Logged { job } => OpenTaskNext::Do {
                op: Op::Daemon(Request::GetEntry { path: job.path.copy() }),
                task: OpenTask::Entry { job },
            },
            OpenTask::Entry { job } => match outcome {
                Outcome::Reply(response) => match client::get_entry(response) {
                    Ok(entry) => match object_to_find(&entry) {
                        Some(id) => OpenTaskNext::Do {
                            op: Op::Daemon(Request::GetObjectPath { id }),
                            task: OpenTask::Object { job, entry },
                        },
                        None => OpenTaskNext::Do {
                            op: Op::Exists(job.path.copy()),
                            task: OpenTask::Exists { job, entry, object_path: None },
                        },
                    },
                    Err(e) => OpenTaskNext::Finished(Err(err_to_errno(&Error::SyncingClient(e)))),
                },
                other => OpenTaskNext::Finished(Err(err_to_errno(&failure(other)))),
            },
            OpenTask::Object { job, entry } => {
                let object_path = match outcome {
                    Outcome::Reply(response) => match client::get_object_path(response) {
                        Ok(p) => Some(p),
                        Err(_) => None,
                    },
                    _ => None,
                };
                OpenTaskNext::Do {
                    op: Op::Exists(job.path.copy()),
                    task: OpenTask::Exists { job, entry, object_path },
                }
            },
            OpenTask::Exists { job, entry, object_path } => {
                let real_exists = match outcome {
                    Outcome::Flag(b) => b,
                    _ => false,
                };
                match load_open_state(
                    policy,
                    &job.path,
                    wants_write(job.flags),
                    wants_truncate(job.flags),
                    real_exists,
                    Ok(entry),
                    object_path,
                ) {
                    Ok(state) => {
                        let (decision, _) = decide_open_with_transitions(&state);
                        let meta = file_meta_with_now(0, S_IFREG | 0o644, job.uid, job.gid, job.now);
                        let n = execute_open(decision, &job.path, job.flags, meta);
                        let r = wrap_open(n, job);
                        proof {
                            assert(wraps(n, job, r));
                            assert(said_yes(outcome) == real_exists);
                            assert(open_state_of(
                                state,
                                policy.spec_classify(job.path@),
                                job,
                                entry,
                                object_path,
                                said_yes(outcome),
                            ));
                        }
                        r
                    },
                    Err(e) => OpenTaskNext::Finished(Err(err_to_errno(&e))),
                }
            },
            OpenTask::Run { job, wait } => {
                let n = wait.resume(outcome);
                wrap_open(n, job)
            },
        }
    }
}

/// How a request to create a file begins, under the mode of its path.
pub open spec fn create_begun(access: AccessMode, job: OpenJob, mode: u32, next: OpenTaskNext) -> bool {
    exists|n: OpenNext| #[trigger]
        wraps(n, job, next) && create_started(
            create_decision(access),
            job.path@,
            mode,
            job.flags,
            meta_now(0, S_IFREG | (mode & PERM_BITS), job.uid, job.gid, job.now),
            n,
        )
}

/// Starts a request to create a file; it goes on as opening one does.
pub fn create<P: Policy>(policy: &P, job: OpenJob, mode: u32) -> (r: OpenTaskNext)
    ensures
        create_begun(policy.spec_classify(job.path@), job, mode, r),
{
    let state = load_create_state(policy, &job.path);
    let decision = decide_create(&state);
    let meta = file_meta_with_now(0, S_IFREG | (mode & PERM_BITS), job.uid, job.gid, job.now);
    let n = execute_create(decision, &job.path, mode, job.flags, meta);
    wrap_open(n, job)
}

/// How a file is handed to the kernel: bypassing the page cache, or backed by the
/// host file where that could be arranged.
#[derive(Debug, Clone, Copy, PartialEq, Eq, Structural)]
pub struct HandleFlags {
    pub direct_io: bool,
    pub passthrough: bool,
}

/// Whether a backing file is asked for.
pub fn wants_backing(done: &OpenDone) -> (r: bool)
    ensures
        r == !done.direct_io,
{
    !done.direct_io
}

/// How an opened file is handed to the kernel.
pub open spec fn flags_for(done: OpenDone, has_backing: bool) -> HandleFlags {
    HandleFlags { direct_io: done.direct_io, passthrough: has_backing && !done.direct_io }
}

/// How an opened file is handed to the kernel.
pub fn handle_flags(done: &OpenDone, has_backing: bool) -> (r: HandleFlags)
    ensures
        r == flags_for(*done, has_backing),
{
    HandleFlags { direct_io: done.direct_io, passthrough: has_backing && !done.direct_io }
}

/// What changing attributes does first.
#[derive(Debug)]
pub enum SetattrStart {
    /// Carry out a plan.
    Plan(Vec<PlanStep>),
    /// Ask the daemon for the old attributes.
    AskMeta(Op),
}

/// How a change of attributes begins, under the mode of the path.
pub open spec fn setattr_begun(
    access: AccessMode,
    path: PathModel,
    fh: Option<u64>,
    has_open_handle: bool,
    mode: Option<u32>,
    uid: Option<u32>,
    gid: Option<u32>,
    size: Option<u64>,
    start: SetattrStart,
) -> bool {
    match fh {
        Some(h) if has_open_handle => start matches SetattrStart::Plan(p) && plan_view(p@)
            == handle_attr_plan(h, mode, uid, gid, size, false),
        _ => if access is Passthrough {
            start matches SetattrStart::Plan(p) && plan_view(p@) == host_attr_plan(
                path,
                mode,
                uid,
                gid,
                size,
            )
        } else {
            start matches SetattrStart::AskMeta(op) && op@ == OpModel::Daemon(
                RequestModel::GetFileMeta { path },
            )
        },
    }
}

/// Starts a change of attributes: through the open handle `fh` where it is open, on
/// the host where the path passes through, and otherwise in the daemon's entry.
pub fn setattr<P: Policy>(
    policy: &P,
    path: &FsPath,
    fh: Option<u64>,
    has_open_handle: bool,
    mode: Option<u32>,
    uid: Option<u32>,
    gid: Option<u32>,
    size: Option<u64>,
) -> (r: SetattrStart)
    ensures
        setattr_begun(
            policy.spec_classify(path@),
            path@,
            fh,
            has_open_handle,
            mode,
            uid,
            gid,
            size,
            r,
        ),
{
    let state = load_setattr_state(
        policy,
        path,
        fh.is_some(),
        has_open_handle,
        mode,
        uid,
        gid,
        size,
    );
    match decide_setattr(&state) {
        SetattrDecision::UpdateOpenHandle => match fh {
            Some(h) => SetattrStart::Plan(
                execute_setattr_on_open_handle(h, mode, uid, gid, size, false),
            ),
            None => SetattrStart::Plan(Vec::new()),
        },
        SetattrDecision::UpdateRealFs => SetattrStart::Plan(
            execute_setattr_on_host(path, mode, uid, gid, size),
        ),
        SetattrDecision::UpdateDaemonMeta => SetattrStart::AskMeta(
            Op::Daemon(Request::GetFileMeta { path: path.copy() }),
        ),
    }
}

/// What stores changed attributes, given the daemon's answer about the old ones.
pub open spec fn setattr_stored(
    path: PathModel,
    answer: Outcome,
    mode: Option<u32>,
    uid: Option<u32>,
    gid: Option<u32>,
    size: Option<u64>,
    now: u64,
) -> Option<OpModel> {
    match answer {
        Outcome::Reply(Response::GetFileMeta(Some(m))) => Some(
            OpModel::Daemon(
                RequestModel::PutFileMeta {
                    path,
                    meta: changed_meta(m, mode, uid, gid, size, now),
                },
            ),
        ),
        _ => None,
    }
}

/// The request that stores changed attributes, given the daemon's answer about the
/// old ones; nothing is stored where it had none or failed.
pub fn setattr_store(
    path: &FsPath,
    answer: Outcome,
    mode: Option<u32>,
    uid: Option<u32>,
    gid: Option<u32>,
    size: Option<u64>,
    now: u64,
) -> (r: Option<Op>)
    ensures
        match r {
            Some(op) => setattr_stored(path@, answer, mode, uid, gid, size, now) == Some(op@),
            None => setattr_stored(path@, answer, mode, uid, gid, size, now) is None,
        },
{
    match execute_setattr_meta_update(path, answer, mode, uid, gid, size, now) {
        Ok(op) => op,
        Err(_) => None,
    }
}

/// Plans the removal of a file.
pub fn unlink<P: Policy>(policy: &P, path: &FsPath) -> (r: Vec<PlanStep>)
    ensures
        plan_view(r@) == unlink_plan(
            unlink_decision(policy.spec_classify(path@)),
            path@,
        ),
{
    execute_unlink(decide_unlink(&load_unlink_state(policy, path)), path)
}

/// Plans the removal of a directory, given what the host has below it.
pub fn rmdir<P: Policy>(policy: &P, path: &FsPath, descendants: &Vec<FsPath>) -> (r: Vec<PlanStep>)
    ensures
        plan_view(r@) == rmdir_plan(
            rmdir_decision(policy.spec_classify(path@)),
            path@,
            path_views(descendants@),
        ),
{
    execute_rmdir(decide_rmdir(&load_rmdir_state(policy, path)), path, descendants)
}

/// Plans a directory.
pub fn mkdir<P: Policy>(policy: &P, path: &FsPath, mode: u32, uid: u32, gid: u32, now: u64) -> (r: Vec<
    PlanStep,
>)
    ensures
        plan_view(r@) == mkdir_plan(
            mkdir_decision(policy.spec_classify(path@)),
            path@,
            mode,
            uid,
            gid,
            now,
        ),
{
    execute_mkdir(decide_mkdir(&load_mkdir_state(policy, path)), path, mode, uid, gid, now)
}

/// The plan for a link, under the mode of its path.
pub open spec fn symlink_planned(
    access: AccessMode,
    path: PathModel,
    target: Seq<u8>,
    uid: u32,
    gid: u32,
    now: u64,
) -> Seq<(OpModel, bool)> {
    symlink_plan(
        access,
        path,
        target,
        meta_now(target.len() as u64, S_IFLNK | 0o777, uid, gid, now),
    )
}

/// Plans a link.
pub fn symlink<P: Policy>(policy: &P, path: &FsPath, target: &[u8], uid: u32, gid: u32, now: u64) -> (r: Vec<
    PlanStep,
>)
    ensures
        plan_view(r@) == symlink_planned(
            policy.spec_classify(path@),
            path@,
            target@,
            uid,
            gid,
            now,
        ),
{
    let meta = file_meta_with_now(target.len() as u64, S_IFLNK | 0o777, uid, gid, now);
    execute_symlink(policy.classify(path), path, target, meta)
}

/// Where a rename stands: what it waits for.
#[derive(Debug)]
pub enum RenameTask {
    /// The entry of the old name.
    From { from: FsPath, to: FsPath },
    /// The entry of the new name.
    To { from: FsPath, to: FsPath, from_entry: Option<FuseEntry> },
}

/// What a rename does next.
#[derive(Debug)]
pub enum RenameNext {
    Do { op: Op, task: RenameTask },
    /// Carry out a plan, or fail.
    Finished(Result<Vec<PlanStep>, Error>),
}

/// How a rename begins.
pub open spec fn rename_begun(from: FsPath, to: FsPath, next: RenameNext) -> bool {
    next matches RenameNext::Do { op, task } && op@ == OpModel::Daemon(
        RequestModel::GetEntry { path: from@ },
    ) && task == (RenameTask::From { from, to })
}

/// Starts a rename.
pub fn rename(from: FsPath, to: FsPath) -> (r: RenameNext)
    ensures
        rename_begun(from, to, r),
{
    RenameNext::Do {
        op: Op::Daemon(Request::GetEntry { path: from.copy() }),
        task: RenameTask::From { from, to },
    }
}

/// What a rename does once what it waited for came back, under the mode of the old
/// name.
pub open spec fn rename_resumed(task: RenameTask, mode: AccessMode, outcome: Outcome, next: RenameNext) -> bool {
    match outcome {
        Outcome::Reply(Response::GetEntry(entry)) => match task {
            RenameTask::From { from, to } => next matches RenameNext::Do { op, task: t } && op@
                == OpModel::Daemon(RequestModel::GetEntry { path: to@ }) && t == (RenameTask::To {
                from,
                to,
                from_entry: entry,
            }),
            RenameTask::To { from, to, from_entry } => next matches RenameNext::Finished(Ok(p)) && plan_view(p@)
                == rename_plan(rename_decision(mode, from_entry), from@, to@),
        },
        Outcome::Reply(response) => next matches RenameNext::Finished(Err(Error::SyncingClient(c)))
            && client::is_refusal(c, response),
        _ => next matches RenameNext::Finished(Err(e)) && gives_error(outcome, e),
    }
}

/// The old name of a rename.
pub open spec fn rename_task_from(task: RenameTask) -> PathModel {
    match task {
        RenameTask::From { from, .. } => from@,
        RenameTask::To { from, .. } => from@,
    }
}

impl RenameTask {
    /// Goes on with the outcome of the work that was waited for.
    pub fn resume<P: Policy>(self, policy: &P, outcome: Outcome) -> (r: RenameNext)
        ensures
            rename_resumed(self, policy.spec_classify(rename_task_from(self)), outcome, r),
    {
        match outcome {
            Outcome::Reply(response) => match self {
                RenameTask::From { from, to } => match client::get_entry(response) {
                    Ok(from_entry) => RenameNext::Do {
                        op: Op::Daemon(Request::GetEntry { path: to.copy() }),
                        task: RenameTask::To { from, to, from_entry },
                    },
                    Err(e) => RenameNext::Finished(Err(Error::SyncingClient(e))),
                },
                RenameTask::To { from, to, from_entry } => match load_rename_state(
                    policy,
                    &from,
                    &to,
                    Ok(from_entry),
                    client::get_entry(response),
                ) {
                    Ok(state) => RenameNext::Finished(
                        Ok(execute_rename(decide_rename(&state), &from, &to)),
                    ),
                    Err(e) => RenameNext::Finished(Err(e)),
                },
            },
            other => RenameNext::Finished(Err(failure(other))),
        }
    }
}

/// Where reading a link stands: what it waits for.
#[derive(Debug)]
pub enum ReadlinkTask {
    /// The daemon's entry, to decide.
    Entry { path: FsPath },
    /// The target.
    Target,
}

/// What reading a link does next.
#[derive(Debug)]
pub enum ReadlinkNext {
    Do { op: Op, task: ReadlinkTask },
    Finished(Result<Vec<u8>, Error>),
}

/// How reading a link begins.
pub open spec fn readlink_begun(path: FsPath, next: ReadlinkNext) -> bool {
    next matches ReadlinkNext::Do { op, task } && op@ == OpModel::Daemon(
        RequestModel::GetEntry { path: path@ },
    ) && task == (ReadlinkTask::Entry { path })
}

/// Starts reading a link.
pub fn readlink(path: FsPath) -> (r: ReadlinkNext)
    ensures
        readlink_begun(path, r),
{
    ReadlinkNext::Do {
        op: Op::Daemon(Request::GetEntry { path: path.copy() }),
        task: ReadlinkTask::Entry { path },
    }
}

/// What a decision about a link does.
pub open spec fn readlink_decided(decision: ReadlinkDecision, path: PathModel, next: ReadlinkNext) -> bool {
    match decision {
        ReadlinkDecision::UseFuse => next matches ReadlinkNext::Do { op, task } && op@ == OpModel::Daemon(
            RequestModel::GetEntry { path },
        ) && task is Target,
        ReadlinkDecision::UseReal => next matches ReadlinkNext::Do { op, task } && op@ == OpModel::ReadLink(path)
            && task is Target,
        ReadlinkDecision::NotFound => next == ReadlinkNext::Finished(Err(Error::Io(IoError::Os(ENOENT)))),
    }
}

/// What reading a link does once what it waited for came back, under the mode of the
/// path.
pub open spec fn readlink_resumed(
    task: ReadlinkTask,
    mode: AccessMode,
    outcome: Outcome,
    next: ReadlinkNext,
) -> bool {
    match task {
        ReadlinkTask::Entry { path } => match outcome {
            Outcome::Reply(Response::GetEntry(entry)) => readlink_decided(
                readlink_decision(mode, entry),
                path@,
                next,
            ),
            Outcome::Reply(response) => next matches ReadlinkNext::Finished(Err(Error::SyncingClient(c)))
                && client::is_refusal(c, response),
            _ => next matches ReadlinkNext::Finished(Err(e)) && gives_error(outcome, e),
        },
        ReadlinkTask::Target => next matches ReadlinkNext::Finished(r) && is_link_target(outcome, r),
    }
}

/// The path of a link that is still to be decided about.
pub open spec fn readlink_task_path(task: ReadlinkTask) -> PathModel {
    match task {
        ReadlinkTask::Entry { path } => path@,
        ReadlinkTask::Target => root_path(),
    }
}

impl ReadlinkTask {
    /// Goes on with the outcome of the work that was waited for.
    pub fn resume<P: Policy>(self, policy: &P, outcome: Outcome) -> (r: ReadlinkNext)
        ensures
            readlink_resumed(self, policy.spec_classify(readlink_task_path(self)), outcome, r),
    {
        match self {
            ReadlinkTask::Entry { path } => match outcome {
                Outcome::Reply(response) => match load_readlink_state(
                    policy,
                    &path,
                    client::get_entry(response),
                ) {
                    Ok(state) => match execute_readlink(decide_readlink(&state), &path) {
                        LinkNext::Do(op) => ReadlinkNext::Do { op, task: ReadlinkTask::Target },
                        LinkNext::Failed(e) => ReadlinkNext::Finished(Err(e)),
                    },
                    Err(e) => ReadlinkNext::Finished(Err(e)),
                },
                other => ReadlinkNext::Finished(Err(failure(other))),
            },
            ReadlinkTask::Target => ReadlinkNext::Finished(link_target(outcome)),
        }
    }
}

/// Where listing a directory stands: what it waits for.
#[derive(Debug)]
pub enum ReaddirTask {
    /// What the host lists.
    Host { path: FsPath },
    /// What the daemon lists.
    Daemon { path: FsPath, items: Vec<RealItem> },
}

/// What listing a directory does next.
#[derive(Debug)]
pub enum ReaddirNext {
    Do { op: Op, task: ReaddirTask },
    Finished(Result<ReaddirState, Error>),
}

/// How listing a directory begins.
pub open spec fn readdir_begun(path: FsPath, next: ReaddirNext) -> bool {
    next matches ReaddirNext::Do { op, task } && op@ == OpModel::ListDir(path@) && task == (
    ReaddirTask::Host { path })
}

/// Starts listing a directory.
pub fn readdir(path: FsPath) -> (r: ReaddirNext)
    ensures
        readdir_begun(path, r),
{
    ReaddirNext::Do { op: Op::ListDir(path.copy()), task: ReaddirTask::Host { path } }
}

/// What the host listed; nothing where it failed.
pub open spec fn listed_items(outcome: Outcome) -> Seq<RealItem> {
    match outcome {
        Outcome::Listing(items) => items@,
        _ => Seq::empty(),
    }
}

/// What listing a directory does once what it waited for came back, under the mode of
/// the directory.
pub open spec fn readdir_resumed(
    task: ReaddirTask,
    mode: AccessMode,
    outcome: Outcome,
    next: ReaddirNext,
) -> bool {
    match task {
        ReaddirTask::Host { path } => next matches ReaddirNext::Do { op, task: t } && op@
            == OpModel::Daemon(RequestModel::ReadDirAll { path: path@ }) && (
        t matches ReaddirTask::Daemon { path: p, items } && p@ == path@ && items@ == listed_items(
            outcome,
        )),
        ReaddirTask::Daemon { path, items } => match outcome {
            Outcome::Reply(Response::DirEntries(list)) => next matches ReaddirNext::Finished(Ok(s))
                && s.access_mode == mode && s.children.wf() && merges(s.children@, items@, list@),
            Outcome::Reply(response) => next matches ReaddirNext::Finished(Err(Error::SyncingClient(c)))
                && client::is_refusal(c, response),
            _ => next matches ReaddirNext::Finished(Err(e)) && gives_error(outcome, e),
        },
    }
}

/// The directory that is listed.
pub open spec fn readdir_task_path(task: ReaddirTask) -> PathModel {
    match task {
        ReaddirTask::Host { path } => path@,
        ReaddirTask::Daemon { path, .. } => path@,
    }
}

impl ReaddirTask {
    /// Goes on with the outcome of the work that was waited for.
    pub fn resume<P: Policy>(self, policy: &P, outcome: Outcome) -> (r: ReaddirNext)
        ensures
            readdir_resumed(self, policy.spec_classify(readdir_task_path(self)), outcome, r),
    {
        match self {
            ReaddirTask::Host { path } => {
                let items = match outcome {
                    Outcome::Listing(items) => items,
                    _ => Vec::new(),
                };
                ReaddirNext::Do {
                    op: Op::Daemon(Request::ReadDirAll { path: path.copy() }),
                    task: ReaddirTask::Daemon { path, items },
                }
            },
            ReaddirTask::Daemon { path, items } => match outcome {
                Outcome::Reply(response) => ReaddirNext::Finished(
                    load_readdir_state(policy, &path, &items, client::read_dir_all(response)),
                ),
                other => ReaddirNext::Finished(Err(failure(other))),
            },
        }
    }
}

/// An entry of a listing for the kernel.
#[derive(Debug)]
pub struct DirItem {
    pub ino: u64,
    pub kind: FileKind,
    pub name: Vec<u8>,
}

/// What an entry of a listing is.
pub open spec fn dir_item_view(d: DirItem) -> (u64, FileKind, Seq<u8>) {
    (d.ino, d.kind, d.name@)
}

/// What a listing is.
pub open spec fn dir_items_view(v: Seq<DirItem>) -> Seq<(u64, FileKind, Seq<u8>)> {
    Seq::new(v.len(), |i: int| dir_item_view(v[i]))
}

/// The names of a listing that show, each with its kind and path, in order.
pub open spec fn shown_items(mode: AccessMode, rows: Seq<(Seq<u8>, ReaddirChildState)>) -> Seq<(
    Seq<u8>,
    FileKind,
    PathModel,
)>
    decreases rows.len(),
{
    if rows.len() == 0 {
        Seq::empty()
    } else {
        let before = shown_items(mode, rows.drop_last());
        match visible_item(rows.last().1, decision_for(mode, rows.last().1)) {
            Some(item) => before.push((rows.last().0, item.0, item.1)),
            None => before,
        }
    }
}

/// The inode numbers once the paths of a listing have theirs.
pub open spec fn numbered(t: InodeModel, items: Seq<(Seq<u8>, FileKind, PathModel)>) -> InodeModel
    decreases items.len(),
{
    if items.len() == 0 {
        t
    } else {
        inodes_with(numbered(t, items.drop_last()), items.last().2)
    }
}

/// The entries of a listing with their inode numbers, taken in order.
pub open spec fn with_numbers(t: InodeModel, items: Seq<(Seq<u8>, FileKind, PathModel)>) -> Seq<(
    u64,
    FileKind,
    Seq<u8>,
)>
    decreases items.len(),
{
    if items.len() == 0 {
        Seq::empty()
    } else {
        with_numbers(t, items.drop_last()).push(
            (
                ino_for(numbered(t, items.drop_last()), items.last().2),
                items.last().1,
                items.last().0,
            ),
        )
    }
}

/// The directory above a directory; the root above the root.
pub open spec fn dir_above(path: PathModel) -> PathModel {
    match parent_of(path) {
        Some(p) => p,
        None => root_path(),
    }
}

/// A listing for the kernel: the directory itself, the directory above, and the
/// names that show.
pub open spec fn listing_of(t: InodeModel, ino: u64, path: PathModel, state: ReaddirState) -> Seq<(
    u64,
    FileKind,
    Seq<u8>,
)> {
    let items = shown_items(state.access_mode, state.children@);
    let above = dir_above(path);
    seq![
        (ino, FileKind::Directory, crate::path::dot()),
        (ino_for(t, above), FileKind::Directory, dot_dot()),
    ] + with_numbers(inodes_with(t, above), items)
}

/// The listing of a directory for the kernel.
pub fn readdir_entries(inner: &mut Inner, ino: u64, path: &FsPath, state: &ReaddirState) -> (r: Result<
    Vec<DirItem>,
    i32,
>)
    requires
        state.children.wf(),
    ensures
        r matches Ok(v) && dir_items_view(v@) == listing_of(
            old(inner).spec_inodes(),
            ino,
            path@,
            *state,
        ),
        final(inner).spec_inodes() == numbered(
            inodes_with(old(inner).spec_inodes(), dir_above(path@)),
            shown_items(state.access_mode, state.children@),
        ),
        final(inner).spec_next_fh() == old(inner).spec_next_fh(),
{
    let ghost t = inner.spec_inodes();
    let ghost rows = state.children@;
    let decision = decide_readdir(state);
    proof {
        law_readdir_decision_valid(*state, decision);
    }
    match validate_readdir_decision(state, &decision) {
        Ok(_) => {},
        Err(e) => {
            proof {
                let drows = decision.per_child@;
                let i = choose|i: int|
                    0 <= i < drows.len() && rows_sound(*state, drows, i) && (e matches Error::Io(
                        IoError::Other(text),
                    ) && Some(text@) == crate::fuse::decision::row_fault(
                        *state,
                        (#[trigger] drows[i]).0,
                        drows[i].1,
                    ));
                assert(crate::fuse::decision::row_fault(*state, drows[i].0, drows[i].1) is None);
            }
            return Err(err_to_errno(&e));
        },
    }
    let mut entries: Vec<DirItem> = Vec::new();
    let here: Vec<u8> = vec![46u8];
    let up: Vec<u8> = vec![46u8, 46];
    proof {
        assert(here@ =~= crate::path::dot());
        assert(up@ =~= dot_dot());
    }
    entries.push(DirItem { ino, kind: FileKind::Directory, name: here });
    let above = match path.parent() {
        Some(p) => p,
        None => FsPath::root(),
    };
    let up_ino: u64 = inner.ino_of(&above);
    entries.push(DirItem { ino: up_ino, kind: FileKind::Directory, name: up });
    let ghost head = dir_items_view(entries@);
    let ghost t1 = inner.spec_inodes();
    let mut i: usize = 0;
    proof {
        assert(rows.take(0) =~= Seq::<(Seq<u8>, ReaddirChildState)>::empty());
        assert(head + with_numbers(t1, shown_items(state.access_mode, rows.take(0))) =~= head);
    }
    while i < decision.per_child.len()
        invariant
            i <= rows.len(),
            rows == state.children@,
            state.children.wf(),
            decides(*state, decision),
            decision.per_child@.len() == rows.len(),
            inner.spec_inodes() == numbered(t1, shown_items(state.access_mode, rows.take(i as int))),
            inner.spec_next_fh() == old(inner).spec_next_fh(),
            dir_items_view(entries@) =~= head + with_numbers(
                t1,
                shown_items(state.access_mode, rows.take(i as int)),
            ),
        decreases rows.len() - i,
    {
        let ghost before = dir_items_view(entries@);
        let ghost items = shown_items(state.access_mode, rows.take(i as int));
        let name = decision.per_child.name_at(i);
        let child_decision = *decision.per_child.value_at(i);
        proof {
            assert(rows.take(i + 1).drop_last() =~= rows.take(i as int));
            assert(rows.take(i + 1).last() == rows[i as int]);
            assert(decision.per_child@[i as int] == (
                rows[i as int].0,
                decision_for(state.access_mode, rows[i as int].1),
            ));
            assert(maps_to(rows, name@, rows[i as int].1)) by {
                assert(rows[i as int] == (name@, rows[i as int].1));
            }
        }
        match choose_visible_child(state, name.as_slice(), child_decision) {
            Some(item) => {
                let (kind, full) = item;
                let child_ino: u64 = inner.ino_of(&full);
                proof {
                    let more = items.push((name@, kind, full@));
                    assert(more.drop_last() =~= items);
                    assert(shown_items(state.access_mode, rows.take(i + 1)) == more);
                }
                entries.push(DirItem { ino: child_ino, kind, name: copy_bytes(name.as_slice()) });
                proof {
                    assert(dir_items_view(entries@) =~= before.push((child_ino, kind, name@)));
                }
            },
            None => {},
        }
        i = i + 1;
    }
    proof {
        assert(rows.take(rows.len() as int) =~= rows);
        assert(head =~= seq![
            (ino, FileKind::Directory, crate::path::dot()),
            (ino_for(t, dir_above(path@)), FileKind::Directory, dot_dot()),
        ]);
    }
    Ok(entries)
}

/// What is left of a listing from a position on, each entry with the position behind
/// it.
pub open spec fn page_of(s: Seq<(u64, FileKind, Seq<u8>)>, from: int) -> Seq<(
    int,
    (u64, FileKind, Seq<u8>),
)> {
    Seq::new(
        (if from < s.len() { s.len() - from } else { 0 }) as nat,
        |i: int| (from + i + 1, s[from + i]),
    )
}

/// What entries of a listing with their positions are.
pub open spec fn page_view(v: Seq<(u64, DirItem)>) -> Seq<(int, (u64, FileKind, Seq<u8>))> {
    Seq::new(v.len(), |i: int| (v[i].0 as int, dir_item_view(v[i].1)))
}

/// What is left of a listing from a position on, each entry with the position behind
/// it, from which a reader that took the entry goes on.
pub fn readdir_page(items: &Vec<DirItem>, offset: u64) -> (r: Vec<(u64, DirItem)>)
    ensures
        page_view(r@) == page_of(dir_items_view(items@), offset as int),
{
    let mut page: Vec<(u64, DirItem)> = Vec::new();
    if offset >= items.len() as u64 {
        return page;
    }
    let ghost all = dir_items_view(items@);
    let mut i: usize = offset as usize;
    while i < items.len()
        invariant
            offset <= i <= items.len(),
            all == dir_items_view(items@),
            page_view(page@) =~= page_of(all, offset as int).take(i - offset),
        decreases items.len() - i,
    {
        let ghost before = page_view(page@);
        let item = &items[i];
        let copy = DirItem { ino: item.ino, kind: item.kind, name: copy_bytes(item.name.as_slice()) };
        page.push((i as u64 + 1, copy));
        proof {
            assert(page_view(page@) =~= before.push((i + 1, all[i as int])));
        }
        i = i + 1;
    }
    proof {
        assert(page_of(all, offset as int).take(all.len() - offset) =~= page_of(all, offset as int));
    }
    page
}

/// A listing that was broken off goes on behind the last entry taken: no entry is
/// left out and none comes twice.
pub proof fn law_listing_goes_on(s: Seq<(u64, FileKind, Seq<u8>)>, from: int, taken: int)
    requires
        0 <= from,
        0 <= taken < page_of(s, from).len(),
    ensures
        page_of(s, from).take(taken + 1) + page_of(s, page_of(s, from)[taken].0) == page_of(s, from),
{
    assert(page_of(s, from).take(taken + 1) + page_of(s, from + taken + 1) =~= page_of(s, from));
}

/// Where a seek goes.
#[derive(Debug, Clone, Copy, PartialEq, Eq, Structural)]
pub enum SeekTo {
    Start(u64),
    Current(i64),
    End(i64),
}

/// Where a seek goes, counted from the start, the current position or the end.
pub open spec fn seek_of(whence: i32, offset: i64) -> Option<SeekTo> {
    if whence == 0 {
        Some(SeekTo::Start(if offset < 0 { 0 } else { offset as u64 }))
    } else if whence == 1 {
        Some(SeekTo::Current(offset))
    } else if whence == 2 {
        Some(SeekTo::End(offset))
    } else {
        None
    }
}

/// Where a seek goes, counted from the start, the current position or the end; a
/// negative start counts as zero, and any other way of counting is refused.
pub fn seek_target(whence: i32, offset: i64) -> (r: Option<SeekTo>)
    ensures
        r == seek_of(whence, offset),
{
    if whence == 0 {
        let start: u64 = if offset < 0 {
            0
        } else {
            offset as u64
        };
        Some(SeekTo::Start(start))
    } else if whence == 1 {
        Some(SeekTo::Current(offset))
    } else if whence == 2 {
        Some(SeekTo::End(offset))
    } else {
        None
    }
}

/// The position that a seek reports.
pub open spec fn position_of(pos: u64) -> i64 {
    if pos <= i64::MAX {
        pos as i64
    } else {
        i64::MAX
    }
}

/// The position that a seek reports: at most the largest signed number.
pub fn seek_position(pos: u64) -> (r: i64)
    ensures
        r == position_of(pos),
{
    if pos <= i64::MAX as u64 {
        pos as i64
    } else {
        i64::MAX
    }
}

/// The length of a lock from its first to its last byte.
pub open spec fn lock_length_of(start: u64, end: u64) -> int {
    if end == u64::MAX {
        0
    } else if end >= start {
        end - start + 1
    } else {
        1
    }
}

/// The length of a lock from its first to its last byte; zero, which means to the
/// end of the file, where it has no last byte.  A last byte before the first counts
/// as the first.
pub fn lock_length(start: u64, end: u64) -> (r: u64)
    ensures
        r == lock_length_of(start, end),
{
    if end == u64::MAX {
        0
    } else if end >= start {
        end - start + 1
    } else {
        1
    }
}

/// What reading and writing need: a known inode and an open handle.
pub open spec fn handle_checked(path_known: bool, handle_open: bool) -> Result<(), i32> {
    if !path_known {
        Err(ENOENT)
    } else if !handle_open {
        Err(EBADF)
    } else {
        Ok(())
    }
}

/// What reading and writing need: a known inode and an open handle.
pub fn check_handle(path_known: bool, handle_open: bool) -> (r: Result<(), i32>)
    ensures
        r == handle_checked(path_known, handle_open),
{
    if !path_known {
        return Err(ENOENT);
    }
    if !handle_open {
        return Err(EBADF);
    }
    Ok(())
}

/// A walk over everything that the host has below a directory.
#[derive(Debug)]
pub struct DirWalk {
    found: Vec<FsPath>,
    stack: Vec<FsPath>,
}

/// The paths of listed items.
pub open spec fn item_paths(items: Seq<RealItem>) -> Seq<PathModel> {
    Seq::new(items.len(), |i: int| items[i].path@)
}

/// The paths of the listed items that are directories.
pub open spec fn item_dirs(items: Seq<RealItem>) -> Seq<PathModel>
    decreases items.len(),
{
    if items.len() == 0 {
        Seq::empty()
    } else {
        let before = item_dirs(items.drop_last());
        if items.last().item_type == Some(crate::fuse::state_loader::ItemType::Dir) {
            before.push(items.last().path@)
        } else {
            before
        }
    }
}

impl DirWalk {
    /// What was found so far, in order.
    pub closed spec fn spec_found(&self) -> Seq<PathModel> {
        path_views(self.found@)
    }

    /// The directories still to list; the last is next.
    pub closed spec fn spec_stack(&self) -> Seq<PathModel> {
        path_views(self.stack@)
    }

    /// A walk below a directory.
    pub fn new(path: &FsPath) -> (r: DirWalk)
        ensures
            r.spec_found() == Seq::<PathModel>::empty(),
            r.spec_stack() == seq![path@],
    {
        let found: Vec<FsPath> = Vec::new();
        let mut stack: Vec<FsPath> = Vec::new();
        stack.push(path.copy());
        assert(path_views(found@) =~= Seq::<PathModel>::empty());
        assert(path_views(stack@) =~= seq![path@]);
        DirWalk { found, stack }
    }

    /// Takes the next directory to list; none where the walk is done.
    pub fn next_dir(&mut self) -> (r: Option<FsPath>)
        ensures
            final(self).spec_found() == old(self).spec_found(),
            match r {
                Some(p) => old(self).spec_stack().len() > 0 && p@ == old(self).spec_stack().last()
                    && final(self).spec_stack() == old(self).spec_stack().drop_last(),
                None => old(self).spec_stack().len() == 0 && final(self).spec_stack()
                    == old(self).spec_stack(),
            },
    {
        let ghost pre = self.spec_stack();
        let r = self.stack.pop();
        proof {
            if r is Some {
                assert(self.spec_stack() =~= pre.drop_last());
            } else {
                assert(self.spec_stack() =~= pre);
            }
        }
        r
    }

    /// Takes in what a directory holds: everything is found, and directories are to
    /// be listed in turn.  A directory that could not be listed adds nothing.
    pub fn listed(&mut self, items: &Vec<RealItem>)
        ensures
            final(self).spec_found() == old(self).spec_found() + item_paths(items@),
            final(self).spec_stack() == old(self).spec_stack() + item_dirs(items@),
    {
        let ghost f = self.spec_found();
        let ghost s = self.spec_stack();
        let mut i: usize = 0;
        proof {
            assert(items@.take(0) =~= Seq::<RealItem>::empty());
            assert(s + item_dirs(items@.take(0)) =~= s);
            assert(f + item_paths(items@.take(0)) =~= f);
        }
        while i < items.len()
            invariant
                i <= items.len(),
                self.spec_found() =~= f + item_paths(items@.take(i as int)),
                self.spec_stack() =~= s + item_dirs(items@.take(i as int)),
            decreases items.len() - i,
        {
            let ghost f1 = self.spec_found();
            let ghost s1 = self.spec_stack();
            proof {
                assert(items@.take(i + 1).drop_last() =~= items@.take(i as int));
                assert(items@.take(i + 1).last() == items@[i as int]);
            }
            self.found.push(items[i].path.copy());
            proof {
                assert(self.spec_found() =~= f1.push(items@[i as int].path@));
            }
            let is_dir = match items[i].item_type {
                Some(t) => t == crate::fuse::state_loader::ItemType::Dir,
                None => false,
            };
            if is_dir {
                self.stack.push(items[i].path.copy());
                proof {
                    assert(self.spec_stack() =~= s1.push(items@[i as int].path@));
                }
            }
            i = i + 1;
        }
        proof {
            assert(items@.take(items@.len() as int) =~= items@);
        }
    }

    /// What was found.
    pub fn into_found(self) -> (r: Vec<FsPath>)
        ensures
            path_views(r@) == self.spec_found(),
    {
        self.found
    }
}

} // verus!
