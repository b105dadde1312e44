//! What opening and creating files promises, from the request to the open file.

use crate::errno::{ENOENT, S_IFREG};
use crate::error::{errno_for, ClientError, Error, IoError};
use crate::fuse::decision::{open_decision, OpenDecision};
use crate::fuse::executor::{OpenExec, OpenNext};
use crate::fuse::fs::{
    create_begun, flags_for, handle_checked, lock_length_of, open_begun, open_task_resumed,
    position_of, seek_of, wraps, OpenDone, OpenJob, OpenTask, OpenTaskNext, SeekTo,
};
use crate::fuse::ops::{how_of, OpModel, Outcome};
use crate::fuse::policy::AccessMode;
use crate::fuse::state::OpenState;
use crate::path::{FsPath, PathModel};
use crate::syncing::proto::{FileMetadata, FuseEntry, RequestModel, Response};
use vstd::prelude::*;

verus! {

/// What the sandbox wrote is what is opened, for reading and for writing alike: where a
/// path does not pass through and its entry has contents whose place is known, those
/// contents are opened, and nothing is made or copied for it.
pub proof fn law_written_contents_are_opened(state: OpenState, e: FuseEntry, id: u64)
    requires
        !(state.access_mode is Passthrough),
        state.fuse_entry == Some(e),
        !(e.entry_type is Whiteout),
        e.object_id == Some(id),
        state.object_path is Some,
    ensures
        open_decision(state) matches OpenDecision::OpenObject {
            existing_object_id,
            needs_ensure,
            copy_up_from_real,
            ..
        } && existing_object_id == Some(id) && !needs_ensure && !copy_up_from_real,
{
}

/// Opening never begins with a failure where contents are decided on: contents that are
/// not made first are those of the entry.
pub proof fn law_contents_are_known(state: OpenState)
    ensures
        open_decision(state) matches OpenDecision::OpenObject { existing_object_id, needs_ensure, .. } ==> {
            &&& !needs_ensure ==> existing_object_id is Some
            &&& existing_object_id is Some ==> (state.fuse_entry matches Some(e) && e.object_id
                == existing_object_id)
            &&& needs_ensure <==> existing_object_id is None || state.object_path is None
        },
{
}

/// What is opened, by what is asked for and what is there.  A path that passes through
/// is opened on the host.  A whiteout is not found.  A file of the sandbox's own is always
/// opened on contents of the sandbox, which are made where they are missing and never
/// come from the host.  A file that is copied on write is read on the host until the
/// sandbox has contents for it; it is written on contents of the sandbox, which are
/// filled from the host where there are none yet, the host has the file and it is not
/// emptied anyway.
pub proof fn law_open_by_what_is_there(state: OpenState)
    ensures
        ({
            let hidden = state.fuse_entry matches Some(e) && e.entry_type is Whiteout;
            let has_contents = state.fuse_entry matches Some(e) && e.object_id is Some;
            let decision = open_decision(state);
            &&& hidden <==> decision is NotFound
            &&& !hidden && state.access_mode is Passthrough ==> decision is OpenReal
            &&& !hidden && state.access_mode is FuseOnly ==> (decision matches OpenDecision::OpenObject {
                needs_ensure,
                copy_up_from_real,
                delete_whiteout,
                ..
            } && !copy_up_from_real && !delete_whiteout && (!has_contents ==> needs_ensure))
            &&& !hidden && state.access_mode is CopyOnWrite && !state.need_write ==> {
                &&& decision is OpenReal <==> !has_contents
                &&& decision is OpenObject <==> has_contents && state.object_path is Some
                &&& decision is Error <==> has_contents && state.object_path is None
            }
            &&& !hidden && state.access_mode is CopyOnWrite && state.need_write ==> (
            decision matches OpenDecision::OpenObject {
                needs_ensure,
                copy_up_from_real,
                delete_whiteout,
                ..
            } && delete_whiteout && (!has_contents ==> needs_ensure) && (copy_up_from_real <==> !has_contents
                && state.real_exists && !state.truncate_requested))
        }),
{
}

/// How a file is opened by the flags: always for reading, for writing exactly where the
/// lowest two bits say so, and for appending where that bit is set.  Opening creates
/// nothing.
pub proof fn law_flags_say_how(flags: i32)
    ensures
        how_of(flags).read,
        how_of(flags).write <==> flags & 3 == 1 || flags & 3 == 2,
        how_of(flags).append <==> flags & 0o2000 != 0,
        !how_of(flags).create,
        how_of(flags).mode is None,
{
}

/// Reading back what was written: opening a path that does not pass through and whose
/// entry has contents asks for the entry, for the place of the contents and for the host
/// file, and then opens the place that the daemon named, as the flags say, and nothing
/// else; the opened file knows its contents by their number.
pub proof fn law_opening_reads_back(
    job: OpenJob,
    mode: AccessMode,
    entry: FuseEntry,
    id: u64,
    place: FsPath,
    on_host: bool,
    n1: OpenTaskNext,
    n2: OpenTaskNext,
    n3: OpenTaskNext,
    n4: OpenTaskNext,
    n5: OpenTaskNext,
)
    requires
        !(mode is Passthrough),
        !(entry.entry_type is Whiteout),
        entry.object_id == Some(id),
        mode is CopyOnWrite ==> !how_of(job.flags).write,
        open_task_resumed(
            OpenTask::Entry { job },
            mode,
            Outcome::Reply(Response::GetEntry(Some(entry))),
            n1,
        ),
        n1 matches OpenTaskNext::Do { task, .. } ==> open_task_resumed(
            task,
            mode,
            Outcome::Reply(Response::GetObjectPath { path: place }),
            n2,
        ),
        n2 matches OpenTaskNext::Do { task, .. } ==> open_task_resumed(
            task,
            mode,
            Outcome::Flag(on_host),
            n3,
        ),
        n3 matches OpenTaskNext::Do { task, .. } ==> open_task_resumed(
            task,
            mode,
            Outcome::Reply(Response::GetObjectPath { path: place }),
            n4,
        ),
        n4 matches OpenTaskNext::Do { task, .. } ==> open_task_resumed(task, mode, Outcome::Done, n5),
    ensures
        n1 matches OpenTaskNext::Do { op, .. } && op@ == OpModel::Daemon(RequestModel::GetObjectPath { id }),
        n2 matches OpenTaskNext::Do { op, .. } && op@ == OpModel::Exists(job.path@),
        n3 matches OpenTaskNext::Do { op, .. } && op@ == OpModel::Daemon(RequestModel::GetObjectPath { id }),
        n4 matches OpenTaskNext::Do { op, .. } && op@ == (OpModel::Open {
            path: place@,
            how: how_of(job.flags),
        }),
        n5 matches OpenTaskNext::Finished(Ok(done)) && done.object_id == Some(id),
{
}

/// Writing a file that the sandbox has no contents of, where the path is copied on write
/// and the host has the file: contents are made for it, filled from the host unless the
/// file is emptied anyway, a whiteout is removed, and the contents are opened.  The host
/// file is read at most.
pub proof fn law_writing_copies_first(
    job: OpenJob,
    entry: Option<FuseEntry>,
    id: u64,
    place: FsPath,
    copied: Outcome,
    uncovered: Outcome,
    n1: OpenTaskNext,
    n2: OpenTaskNext,
    n3: OpenTaskNext,
    n4: OpenTaskNext,
    n5: OpenTaskNext,
    n6: OpenTaskNext,
)
    requires
        entry matches Some(e) ==> !(e.entry_type is Whiteout) && e.object_id is None,
        how_of(job.flags).write,
        job.flags & 0o1000 == 0,
        open_task_resumed(
            OpenTask::Entry { job },
            AccessMode::CopyOnWrite,
            Outcome::Reply(Response::GetEntry(entry)),
            n1,
        ),
        n1 matches OpenTaskNext::Do { task, .. } ==> open_task_resumed(
            task,
            AccessMode::CopyOnWrite,
            Outcome::Flag(true),
            n2,
        ),
        n2 matches OpenTaskNext::Do { task, .. } ==> open_task_resumed(
            task,
            AccessMode::CopyOnWrite,
            Outcome::Reply(Response::EnsureFileObject { id, path: place }),
            n3,
        ),
        n3 matches OpenTaskNext::Do { task, .. } ==> open_task_resumed(
            task,
            AccessMode::CopyOnWrite,
            copied,
            n4,
        ),
        n4 matches OpenTaskNext::Do { task, .. } ==> open_task_resumed(
            task,
            AccessMode::CopyOnWrite,
            uncovered,
            n5,
        ),
        n5 matches OpenTaskNext::Do { task, .. } ==> open_task_resumed(
            task,
            AccessMode::CopyOnWrite,
            Outcome::Done,
            n6,
        ),
    ensures
        n1 matches OpenTaskNext::Do { op, .. } && op@ == OpModel::Exists(job.path@),
        n2 matches OpenTaskNext::Do { op, .. } && (op@ matches OpModel::Daemon(
            RequestModel::EnsureFileObjectFromReal { path, meta },
        ) && path == job.path@ && meta.uid == job.uid && meta.gid == job.gid && meta.mtime == job.now),
        n3 matches OpenTaskNext::Do { op, .. } && op@ == (OpModel::CopyFile {
            from: job.path@,
            to: place@,
        }),
        n4 matches OpenTaskNext::Do { op, .. } && op@ == OpModel::Daemon(
            RequestModel::DeleteWhiteout { path: job.path@ },
        ),
        n5 matches OpenTaskNext::Do { op, .. } && op@ == (OpModel::Open {
            path: place@,
            how: how_of(job.flags),
        }),
        n6 matches OpenTaskNext::Finished(Ok(done)) && done.object_id == Some(id),
{
}

/// A file that passes through, and one that is copied on write and only read before the
/// sandbox has contents of it, is opened on the host under its own path, as the flags
/// say.
pub proof fn law_opening_on_the_host(
    job: OpenJob,
    mode: AccessMode,
    entry: Option<FuseEntry>,
    on_host: bool,
    n1: OpenTaskNext,
    n2: OpenTaskNext,
    n3: OpenTaskNext,
)
    requires
        mode is Passthrough || (mode is CopyOnWrite && !how_of(job.flags).write),
        entry matches Some(e) ==> !(e.entry_type is Whiteout) && e.object_id is None,
        open_task_resumed(
            OpenTask::Entry { job },
            mode,
            Outcome::Reply(Response::GetEntry(entry)),
            n1,
        ),
        n1 matches OpenTaskNext::Do { task, .. } ==> open_task_resumed(
            task,
            mode,
            Outcome::Flag(on_host),
            n2,
        ),
        n2 matches OpenTaskNext::Do { task, .. } ==> open_task_resumed(task, mode, Outcome::Done, n3),
    ensures
        n2 matches OpenTaskNext::Do { op, .. } && op@ == (OpModel::Open {
            path: job.path@,
            how: how_of(job.flags),
        }),
        n3 matches OpenTaskNext::Finished(Ok(done)) && done.object_id is None,
{
}

/// A whiteout cannot be opened, whatever the host has.
pub proof fn law_opening_a_whiteout(
    job: OpenJob,
    mode: AccessMode,
    entry: FuseEntry,
    on_host: bool,
    n1: OpenTaskNext,
    n2: OpenTaskNext,
)
    requires
        entry.entry_type is Whiteout,
        entry.object_id is None,
        open_task_resumed(
            OpenTask::Entry { job },
            mode,
            Outcome::Reply(Response::GetEntry(Some(entry))),
            n1,
        ),
        n1 matches OpenTaskNext::Do { task, .. } ==> open_task_resumed(
            task,
            mode,
            Outcome::Flag(on_host),
            n2,
        ),
    ensures
        n2 == OpenTaskNext::Finished(Err(ENOENT)),
{
}

/// Writing what has contents already, where the path is copied on write, opens those
/// contents after a whiteout was removed.
pub proof fn law_opening_writes_on(
    job: OpenJob,
    entry: FuseEntry,
    id: u64,
    place: FsPath,
    on_host: bool,
    uncovered: Outcome,
    n1: OpenTaskNext,
    n2: OpenTaskNext,
    n3: OpenTaskNext,
    n4: OpenTaskNext,
    n5: OpenTaskNext,
    n6: OpenTaskNext,
)
    requires
        !(entry.entry_type is Whiteout),
        entry.object_id == Some(id),
        how_of(job.flags).write,
        open_task_resumed(
            OpenTask::Entry { job },
            AccessMode::CopyOnWrite,
            Outcome::Reply(Response::GetEntry(Some(entry))),
            n1,
        ),
        n1 matches OpenTaskNext::Do { task, .. } ==> open_task_resumed(
            task,
            AccessMode::CopyOnWrite,
            Outcome::Reply(Response::GetObjectPath { path: place }),
            n2,
        ),
        n2 matches OpenTaskNext::Do { task, .. } ==> open_task_resumed(
            task,
            AccessMode::CopyOnWrite,
            Outcome::Flag(on_host),
            n3,
        ),
        n3 matches OpenTaskNext::Do { task, .. } ==> open_task_resumed(
            task,
            AccessMode::CopyOnWrite,
            Outcome::Reply(Response::GetObjectPath { path: place }),
            n4,
        ),
        n4 matches OpenTaskNext::Do { task, .. } ==> open_task_resumed(
            task,
            AccessMode::CopyOnWrite,
            uncovered,
            n5,
        ),
        n5 matches OpenTaskNext::Do { task, .. } ==> open_task_resumed(
            task,
            AccessMode::CopyOnWrite,
            Outcome::Done,
            n6,
        ),
    ensures
        n3 matches OpenTaskNext::Do { op, .. } && op@ == OpModel::Daemon(RequestModel::GetObjectPath { id }),
        n4 matches OpenTaskNext::Do { op, .. } && op@ == OpModel::Daemon(
            RequestModel::DeleteWhiteout { path: job.path@ },
        ),
        n5 matches OpenTaskNext::Do { op, .. } && op@ == (OpModel::Open {
            path: place@,
            how: how_of(job.flags),
        }),
        n6 matches OpenTaskNext::Finished(Ok(done)) && done.object_id == Some(id),
{
}

/// Contents that are not to come from the host are made empty, with the metadata of a
/// plain file of the caller made now: for a file of the sandbox's own that has none, and
/// for one that is copied on write where the host has none or it is emptied anyway.
pub proof fn law_opening_makes_empty_contents(
    job: OpenJob,
    mode: AccessMode,
    entry: Option<FuseEntry>,
    on_host: bool,
    id: u64,
    place: FsPath,
    n1: OpenTaskNext,
    n2: OpenTaskNext,
    n3: OpenTaskNext,
)
    requires
        entry matches Some(e) ==> !(e.entry_type is Whiteout) && e.object_id is None,
        mode is FuseOnly || (mode is CopyOnWrite && how_of(job.flags).write && (!on_host || job.flags
            & 0o1000 != 0)),
        open_task_resumed(
            OpenTask::Entry { job },
            mode,
            Outcome::Reply(Response::GetEntry(entry)),
            n1,
        ),
        n1 matches OpenTaskNext::Do { task, .. } ==> open_task_resumed(
            task,
            mode,
            Outcome::Flag(on_host),
            n2,
        ),
        n2 matches OpenTaskNext::Do { task, .. } ==> open_task_resumed(
            task,
            mode,
            Outcome::Reply(Response::EnsureFileObject { id, path: place }),
            n3,
        ),
    ensures
        n2 matches OpenTaskNext::Do { op, .. } && op@ == OpModel::Daemon(
            RequestModel::EnsureFileObject {
                path: job.path@,
                meta: FileMetadata {
                    size: 0,
                    mode: S_IFREG | 0o644,
                    uid: job.uid,
                    gid: job.gid,
                    mtime: job.now,
                    atime: job.now,
                    ctime: job.now,
                },
            },
        ),
        mode is FuseOnly ==> (n3 matches OpenTaskNext::Do { op, .. } && op@ == (OpModel::Open {
            path: place@,
            how: how_of(job.flags),
        })),
        mode is CopyOnWrite ==> (n3 matches OpenTaskNext::Do { op, .. } && op@ == OpModel::Daemon(
            RequestModel::DeleteWhiteout { path: job.path@ },
        )),
{
}

/// Creating a file: where the path passes through it is created on the host with the
/// mode asked for; elsewhere contents are made for it with the permissions asked for and
/// the caller as the owner, a whiteout is removed, and the contents are opened.
pub proof fn law_creating(
    job: OpenJob,
    access: AccessMode,
    mode: u32,
    id: u64,
    place: FsPath,
    uncovered: Outcome,
    n1: OpenTaskNext,
    n2: OpenTaskNext,
    n3: OpenTaskNext,
    n4: OpenTaskNext,
)
    requires
        create_begun(access, job, mode, n1),
        !(access is Passthrough) ==> (n1 matches OpenTaskNext::Do { task, .. } ==> open_task_resumed(
            task,
            access,
            Outcome::Reply(Response::EnsureFileObject { id, path: place }),
            n2,
        )),
        n2 matches OpenTaskNext::Do { task, .. } ==> open_task_resumed(task, access, uncovered, n3),
        n3 matches OpenTaskNext::Do { task, .. } ==> open_task_resumed(task, access, Outcome::Done, n4),
    ensures
        access is Passthrough ==> (n1 matches OpenTaskNext::Do { op, .. } && (
        op@ matches OpModel::Open { path, how } && path == job.path@ && how.read && how.create
            && how.mode == Some(mode) && how.write == how_of(job.flags).write && how.append == how_of(
            job.flags,
        ).append)),
        !(access is Passthrough) ==> {
            &&& n1 matches OpenTaskNext::Do { op, .. } && op@ == OpModel::Daemon(
                RequestModel::EnsureFileObject {
                    path: job.path@,
                    meta: FileMetadata {
                        size: 0,
                        mode: S_IFREG | (mode & 0o7777),
                        uid: job.uid,
                        gid: job.gid,
                        mtime: job.now,
                        atime: job.now,
                        ctime: job.now,
                    },
                },
            )
            &&& n2 matches OpenTaskNext::Do { op, .. } && op@ == OpModel::Daemon(
                RequestModel::DeleteWhiteout { path: job.path@ },
            )
            &&& n3 matches OpenTaskNext::Do { op, .. } && (op@ matches OpModel::Open { path, how } && path
                == place@ && how.read && how.create && how.write == how_of(job.flags).write && how.append
                == how_of(job.flags).append)
            &&& n4 matches OpenTaskNext::Finished(Ok(done)) && done.object_id == Some(id)
        },
{
}

/// Opening a file on the host, or on contents, succeeds where the work does; where it
/// fails, opening fails with the error number of the failure.  Contents that are gone are
/// not found.
pub proof fn law_open_failures(
    job: OpenJob,
    mode: AccessMode,
    wait: OpenExec,
    code: i32,
    failed: OpenTaskNext,
    done: OpenTaskNext,
    gone: OpenTaskNext,
)
    requires
        code > 0,
        open_task_resumed(
            OpenTask::Run { job, wait },
            mode,
            Outcome::Failed(Error::Io(IoError::Os(code))),
            failed,
        ),
        open_task_resumed(OpenTask::Run { job, wait }, mode, Outcome::Done, done),
        open_task_resumed(OpenTask::Run { job, wait }, mode, Outcome::Reply(Response::NotFound), gone),
    ensures
        wait is Host || wait is Object || wait is Ensure || wait is Locate ==> failed
            == OpenTaskNext::Finished(Err(code)),
        wait is Host ==> (done matches OpenTaskNext::Finished(Ok(d)) && d.object_id is None),
        wait matches OpenExec::Object { oid } ==> (done matches OpenTaskNext::Finished(Ok(d))
            && d.object_id == Some(oid)),
        wait is Locate ==> gone == OpenTaskNext::Finished(Err(ENOENT)),
{
}

/// A file whose name is text and ends in `-wal` bypasses the page cache, and only such a
/// file; what bypasses the cache is never backed by a host file, and all else is where
/// that could be arranged.
pub proof fn law_direct_io(
    job: OpenJob,
    dir: PathModel,
    name: Seq<u8>,
    n: OpenNext,
    next: OpenTaskNext,
    done: OpenDone,
)
    requires
        job.path@ == (dir.0, dir.1.push(name)),
        name != seq![46u8],
        name != seq![46u8, 46u8],
        wraps(n, job, next),
        next == OpenTaskNext::Finished(Ok(done)),
    ensures
        ({
            let n = name.len();
            done.direct_io <==> vstd::utf8::valid_utf8(name) && n >= 4 && name[n - 4] == 45 && name[n - 3]
                == 119 && name[n - 2] == 97 && name[n - 1] == 108
        }),
        flags_for(done, true).direct_io == done.direct_io,
        flags_for(done, true).passthrough == !done.direct_io,
        !flags_for(done, false).passthrough,
{
    assert(job.path@.1.last() == name);
    assert(crate::path::dot() =~= seq![46u8]);
    assert(crate::path::dot_dot() =~= seq![46u8, 46u8]);
    if name.len() >= 4 {
        let tail = name.skip(name.len() - 4);
        assert(tail[0] == name[name.len() - 4] && tail[1] == name[name.len() - 3] && tail[2]
            == name[name.len() - 2] && tail[3] == name[name.len() - 1]);
        let end = crate::fuse::fs::wal_suffix();
        if tail[0] == end[0] && tail[1] == end[1] && tail[2] == end[2] && tail[3] == end[3] {
            assert(tail =~= end);
        }
    }
}

/// The first access is logged before anything else where the policy says so, and once it
/// was, or where it does not say so, the daemon is asked for the entry.
pub proof fn law_opening_begins(
    logs: bool,
    job: OpenJob,
    pid: u32,
    mode: AccessMode,
    logged: Outcome,
    n1: OpenTaskNext,
    n2: OpenTaskNext,
)
    requires
        open_begun(logs, job, pid, n1),
        n1 matches OpenTaskNext::Do { task, .. } ==> open_task_resumed(task, mode, logged, n2),
    ensures
        logs ==> (n1 matches OpenTaskNext::Do { op, .. } && op@ == OpModel::Daemon(
            RequestModel::LogAccess { path: job.path@, operation: "open"@, pid },
        )) && (n2 matches OpenTaskNext::Do { op, .. } && op@ == OpModel::Daemon(
            RequestModel::GetEntry { path: job.path@ },
        )),
        !logs ==> (n1 matches OpenTaskNext::Do { op, .. } && op@ == OpModel::Daemon(
            RequestModel::GetEntry { path: job.path@ },
        )),
{
}

/// The error number for the kernel: a positive number that the system gave stays, from
/// the host and from the daemon alike; what the daemon did not find is not found; any
/// other failure is an input-output error.
pub proof fn law_error_numbers(e: Error)
    ensures
        match e {
            Error::Io(IoError::Os(code)) => errno_for(e) == (if code > 0 { code } else { 5 }),
            Error::SyncingClient(ClientError::Io(IoError::Os(code))) => errno_for(e) == (if code > 0 {
                code
            } else {
                5
            }),
            Error::SyncingClient(ClientError::NotFound) => errno_for(e) == 2,
            _ => errno_for(e) == 5,
        },
{
}

/// Where a seek goes: to the offset from the start, from the current position or from
/// the end, and nowhere for any other way of counting.
pub proof fn law_seeks(whence: i32, offset: i64)
    ensures
        offset >= 0 ==> seek_of(0, offset) == Some(SeekTo::Start(offset as u64)),
        offset < 0 ==> seek_of(0, offset) == Some(SeekTo::Start(0)),
        seek_of(1, offset) == Some(SeekTo::Current(offset)),
        seek_of(2, offset) == Some(SeekTo::End(offset)),
        seek_of(whence, offset) is None <==> whence < 0 || whence > 2,
        offset >= 0 ==> position_of(offset as u64) == offset,
        forall|pos: u64| pos > i64::MAX ==> #[trigger] position_of(pos) == i64::MAX,
{
}

/// A lock covers the bytes from its first to its last; one without a last byte reaches
/// to the end of the file, which the length zero stands for.
pub proof fn law_lock_lengths(start: u64, end: u64)
    ensures
        start <= end < u64::MAX ==> start + lock_length_of(start, end) == end + 1,
        lock_length_of(start, u64::MAX) == 0,
        end < start ==> lock_length_of(start, end) == 1,
{
}

/// Reading and writing are refused exactly where the file is unknown or not open.
pub proof fn law_handles_are_checked(path_known: bool, handle_open: bool)
    ensures
        handle_checked(path_known, handle_open) is Ok <==> path_known && handle_open,
        !path_known ==> handle_checked(path_known, handle_open) == Err::<(), i32>(2),
        path_known && !handle_open ==> handle_checked(path_known, handle_open) == Err::<(), i32>(9),
{
}

/// Where the place of contents cannot be had, a file that is copied on write and only read
/// fails with an input-output error, and contents are made anew for any other that does
/// not pass through.  A question about the host that gets no yes counts as a no.
pub proof fn law_lost_contents(
    job: OpenJob,
    mode: AccessMode,
    entry: FuseEntry,
    id: u64,
    lost: Outcome,
    host: Outcome,
    n2: OpenTaskNext,
    n3: OpenTaskNext,
)
    requires
        !(mode is Passthrough),
        !(entry.entry_type is Whiteout),
        entry.object_id == Some(id),
        !(lost matches Outcome::Reply(Response::GetObjectPath { .. })),
        open_task_resumed(OpenTask::Object { job, entry: Some(entry) }, mode, lost, n2),
        n2 matches OpenTaskNext::Do { task, .. } ==> open_task_resumed(task, mode, host, n3),
    ensures
        n2 matches OpenTaskNext::Do { op, .. } && op@ == OpModel::Exists(job.path@),
        mode is CopyOnWrite && !how_of(job.flags).write ==> n3 == OpenTaskNext::Finished(Err(5)),
        mode is FuseOnly || how_of(job.flags).write ==> (n3 matches OpenTaskNext::Do { op, .. } && (
        op@ matches OpModel::Daemon(RequestModel::EnsureFileObject { path, .. }) && path == job.path@)),
{
}

/// Where the daemon does not say what a file is, opening fails: with the error number of
/// the failure where asking failed, and with an input-output error where the answer is
/// another.
pub proof fn law_unanswered_opening_fails(
    job: OpenJob,
    mode: AccessMode,
    code: i32,
    text: String,
    failed: OpenTaskNext,
    refused: OpenTaskNext,
)
    requires
        code > 0,
        open_task_resumed(
            OpenTask::Entry { job },
            mode,
            Outcome::Failed(Error::Io(IoError::Os(code))),
            failed,
        ),
        open_task_resumed(
            OpenTask::Entry { job },
            mode,
            Outcome::Reply(Response::Error(text)),
            refused,
        ),
    ensures
        failed == OpenTaskNext::Finished(Err(code)),
        refused == OpenTaskNext::Finished(Err(5)),
{
}

} // verus!
