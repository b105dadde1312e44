//! What carrying decisions out promises.

use crate::fuse::decision::{
    open_decision, open_steps, rename_decision, stat_decision, step_if, CreateDecision,
    MkdirDecision, OpenDecision, OpenTransitionStep, RmdirDecision, StatDecision, UnlinkDecision,
};
use crate::fuse::executor::{
    create_started, handle_attr_plan, handle_stored, is_last_look, meta_now, mkdir_plan,
    open_resumed, open_started, rename_plan, rmdir_plan, symlink_plan, unlink_plan, OpenExec,
    OpenNext,
};
use crate::fuse::ops::{changes_host, how_of, OpModel, Outcome};
use crate::fuse::policy::AccessMode;
use crate::fuse::state::OpenState;
use crate::path::PathModel;
use crate::syncing::proto::{
    dir_entry, file_entry, opt_entry, whiteout_entry, FileMetadata, FuseEntry, Request,
    RequestModel, Response,
};
use crate::syncing::server::{dispatched, entry_at, put_entry, ServerModel, Step};
use vstd::prelude::*;

verus! {

/// The step of opening that a piece of work is; asking where an object lies is none.
pub open spec fn step_of(op: OpModel, wait: OpenExec) -> Seq<OpenTransitionStep> {
    match op {
        OpModel::Daemon(RequestModel::EnsureFileObject { .. }) => seq![OpenTransitionStep::EnsureObject],
        OpModel::Daemon(RequestModel::EnsureFileObjectFromReal { .. }) => seq![
            OpenTransitionStep::EnsureObject,
        ],
        OpModel::CopyFile { .. } => seq![OpenTransitionStep::CopyUpFromReal],
        OpModel::Daemon(RequestModel::DeleteWhiteout { .. }) => seq![OpenTransitionStep::DeleteWhiteout],
        OpModel::Open { .. } => if wait is Host {
            seq![OpenTransitionStep::OpenReal]
        } else {
            seq![OpenTransitionStep::OpenObject]
        },
        _ => Seq::empty(),
    }
}

/// The steps of opening that are left once the work waited for is done.
pub open spec fn steps_left(wait: OpenExec) -> Seq<OpenTransitionStep> {
    match wait {
        OpenExec::Host => Seq::empty(),
        OpenExec::Ensure { copy_up, uncover, .. } => step_if(copy_up, OpenTransitionStep::CopyUpFromReal)
            + step_if(uncover, OpenTransitionStep::DeleteWhiteout) + seq![OpenTransitionStep::OpenObject],
        OpenExec::Locate { copy_up, uncover, .. } => step_if(copy_up, OpenTransitionStep::CopyUpFromReal)
            + step_if(uncover, OpenTransitionStep::DeleteWhiteout) + seq![OpenTransitionStep::OpenObject],
        OpenExec::Copy { uncover, .. } => step_if(uncover, OpenTransitionStep::DeleteWhiteout) + seq![
            OpenTransitionStep::OpenObject,
        ],
        OpenExec::Uncover { .. } => seq![OpenTransitionStep::OpenObject],
        OpenExec::Object { .. } => Seq::empty(),
    }
}

/// Opening a file takes the decided steps in the decided order: the first work and
/// what is left after it are the steps of the decision.
pub proof fn law_open_starts_with_steps(
    decision: OpenDecision,
    path: PathModel,
    flags: i32,
    meta: FileMetadata,
    next: OpenNext,
)
    requires
        open_started(decision, path, flags, meta, next),
        next is Do,
    ensures
        step_of(next->op@, next->wait) + steps_left(next->wait) == open_steps(decision),
{
    assert(step_of(next->op@, next->wait) + steps_left(next->wait) =~= open_steps(decision));
}

/// Each further work of opening a file is the next of the steps that were left.
pub proof fn law_open_goes_on_with_steps(wait: OpenExec, outcome: Outcome, next: OpenNext)
    requires
        open_resumed(wait, outcome, next),
        next is Do,
    ensures
        step_of(next->op@, next->wait) + steps_left(next->wait) == steps_left(wait),
{
    assert(step_of(next->op@, next->wait) + steps_left(next->wait) =~= steps_left(wait));
}

/// Opening finishes on an object or the host exactly as decided, once no step is left.
pub proof fn law_open_finishes_as_decided(wait: OpenExec, outcome: Outcome, next: OpenNext)
    requires
        open_resumed(wait, outcome, next),
        next matches OpenNext::Finished(Ok(_)),
    ensures
        steps_left(wait).len() == 0,
        wait is Host || wait is Object,
        next->Finished_0->Ok_0 is Some <==> wait is Object,
{
}

/// Opening a path that does not pass through never touches the host file except to
/// read it: the first work leaves it alone.  Flags that ask to append without
/// writing are left out, since they open the host file for appending.
pub proof fn law_open_leaves_host_alone(
    state: OpenState,
    path: PathModel,
    flags: i32,
    meta: FileMetadata,
    next: OpenNext,
)
    requires
        !(state.access_mode is Passthrough),
        state.need_write == how_of(flags).write,
        how_of(flags).append ==> how_of(flags).write,
        open_started(open_decision(state), path, flags, meta, next),
    ensures
        next matches OpenNext::Do { op, wait } ==> !changes_host(op@, path),
{
}

/// The path of the file being opened, where the work waited for still knows it.
pub open spec fn waiting_path(wait: OpenExec) -> Option<PathModel> {
    match wait {
        OpenExec::Ensure { path, .. } => Some(path@),
        OpenExec::Locate { path, .. } => Some(path@),
        OpenExec::Copy { path, .. } => Some(path@),
        _ => None,
    }
}

/// The object being opened, once it is known.
pub open spec fn known_object(wait: OpenExec, outcome: Outcome) -> Option<PathModel> {
    match wait {
        OpenExec::Ensure { .. } => match outcome {
            Outcome::Reply(Response::EnsureFileObject { path, .. }) => Some(path@),
            _ => None,
        },
        OpenExec::Locate { .. } => match outcome {
            Outcome::Reply(Response::GetObjectPath { path }) => Some(path@),
            _ => None,
        },
        OpenExec::Copy { object, .. } => Some(object@),
        _ => None,
    }
}

/// Once opening works on an object, all further work leaves the host file alone,
/// where it is not the object itself.
pub proof fn law_open_works_on_object(wait: OpenExec, outcome: Outcome, next: OpenNext, path: PathModel)
    requires
        open_resumed(wait, outcome, next),
        waiting_path(wait) == Some(path),
        known_object(wait, outcome) != Some(path),
    ensures
        next matches OpenNext::Do { op, .. } ==> !changes_host(op@, path),
{
}

/// Creating a file where the path does not pass through leaves the host alone.
pub proof fn law_create_leaves_host_alone(
    path: PathModel,
    mode: u32,
    flags: i32,
    meta: FileMetadata,
    next: OpenNext,
    q: PathModel,
)
    requires
        create_started(CreateDecision::CreateObject, path, mode, flags, meta, next),
    ensures
        next matches OpenNext::Do { op, .. } && !changes_host(op@, q),
{
}

/// Whether no step of a plan changes the host anywhere.
pub open spec fn spares_host(plan: Seq<(OpModel, bool)>) -> bool {
    forall|i: int, q: PathModel| 0 <= i < plan.len() ==> !#[trigger] changes_host(plan[i].0, q)
}

/// Removing, renaming, linking and making directories where the path does not pass
/// through changes nothing on the host.
pub proof fn law_plans_spare_host(
    path: PathModel,
    to: PathModel,
    descendants: Seq<PathModel>,
    target: Seq<u8>,
    meta: FileMetadata,
    access: AccessMode,
    entry: Option<FuseEntry>,
    mode: u32,
    uid: u32,
    gid: u32,
    now: u64,
)
    requires
        !(access is Passthrough),
    ensures
        spares_host(unlink_plan(UnlinkDecision::Whiteout, path)),
        spares_host(rmdir_plan(RmdirDecision::WhiteoutRecursive, path, descendants)),
        spares_host(rename_plan(rename_decision(access, entry), path, to)),
        spares_host(symlink_plan(access, path, target, meta)),
        spares_host(mkdir_plan(MkdirDecision::CreateDaemon, path, mode, uid, gid, now)),
{
    let p1 = rmdir_plan(RmdirDecision::WhiteoutRecursive, path, descendants);
    assert forall|i: int, q: PathModel| 0 <= i < p1.len() implies !#[trigger] changes_host(p1[i].0, q) by {
        if i >= 2 {
            assert(p1[i] == (OpModel::Daemon(RequestModel::PutWhiteout { path: descendants[i - 2] }), false));
        }
    }
}

/// A removed file is gone: once the daemon carried out the two requests of the plan,
/// looking the path up and opening it find nothing, whatever the host has.
pub proof fn law_unlinked_is_gone(
    s0: ServerModel,
    r1: Request,
    s1: ServerModel,
    step1: Step,
    r2: Request,
    s2: ServerModel,
    step2: Step,
    path: PathModel,
    mode: AccessMode,
    real_exists: bool,
    entry: Option<FuseEntry>,
    state: OpenState,
)
    requires
        unlink_plan(UnlinkDecision::Whiteout, path)[0].0 == OpModel::Daemon(r1@),
        unlink_plan(UnlinkDecision::Whiteout, path)[1].0 == OpModel::Daemon(r2@),
        dispatched(s0, r1, s1, step1),
        dispatched(s1, r2, s2, step2),
        opt_entry(entry) == entry_at(s2.entries, path),
        !(mode is Passthrough),
        state.fuse_entry == entry,
    ensures
        stat_decision(mode, real_exists, entry) == StatDecision::NotFound,
        open_decision(state) == OpenDecision::NotFound,
{
    assert(r1@ == RequestModel::DeleteFile { path });
    assert(r2@ == RequestModel::PutWhiteout { path });
    match r2 {
        Request::PutWhiteout { path: p } => {
            assert(s2 == put_entry(s1, p@, whiteout_entry()));
        },
        _ => {},
    }
    assert(entry_at(s2.entries, path) == Some(whiteout_entry()));
    assert(entry is Some && entry->0@ == whiteout_entry());
}

/// A directory that was made is found: once the daemon carried out the requests of
/// the plan, looking the path up finds the sandbox's entry.
pub proof fn law_made_directory_is_found(
    s0: ServerModel,
    r1: Request,
    s1: ServerModel,
    step1: Step,
    r2: Request,
    s2: ServerModel,
    step2: Step,
    path: PathModel,
    dir_mode: u32,
    uid: u32,
    gid: u32,
    now: u64,
    mode: AccessMode,
    real_exists: bool,
    entry: Option<FuseEntry>,
)
    requires
        mkdir_plan(MkdirDecision::CreateDaemon, path, dir_mode, uid, gid, now)[0].0 == OpModel::Daemon(r1@),
        mkdir_plan(MkdirDecision::CreateDaemon, path, dir_mode, uid, gid, now)[1].0 == OpModel::Daemon(r2@),
        dispatched(s0, r1, s1, step1),
        dispatched(s1, r2, s2, step2),
        opt_entry(entry) == entry_at(s2.entries, path),
        !(mode is Passthrough),
    ensures
        stat_decision(mode, real_exists, entry) == StatDecision::UseFuse,
        entry matches Some(e) && e.entry_type is Dir,
{
    match r1 {
        Request::PutDir { path: p, meta } => {
            assert(s1 == put_entry(s0, p@, dir_entry(meta)));
            assert(entry_at(s1.entries, path) == Some(dir_entry(meta)));
        },
        _ => {},
    }
    assert(s2.entries == s1.entries);
    assert(entry is Some);
}

/// A file whose object was attached is found, and opening it for writing uses that
/// object: nothing is copied from the host again.
pub proof fn law_attached_file_is_found(
    s: ServerModel,
    path: PathModel,
    id: u64,
    meta: FileMetadata,
    mode: AccessMode,
    real_exists: bool,
    entry: Option<FuseEntry>,
    state: OpenState,
)
    requires
        opt_entry(entry) == entry_at(put_entry(s, path, file_entry(id, meta)).entries, path),
        !(mode is Passthrough),
        state.fuse_entry == entry,
        state.access_mode == mode,
        state.need_write,
    ensures
        stat_decision(mode, real_exists, entry) == StatDecision::UseFuse,
        open_decision(state) matches OpenDecision::OpenObject { existing_object_id, copy_up_from_real, .. }
            && existing_object_id == Some(id) && !copy_up_from_real,
{
    assert(entry is Some && entry->0@ == file_entry(id, meta));
}

/// Changing attributes through an open handle ends, where it is strict, with a look at
/// the handle whose failure is no matter, and what is seen then, and only then, is
/// stored.
pub proof fn law_handle_attributes_stored(
    fh: u64,
    mode: Option<u32>,
    uid: Option<u32>,
    gid: Option<u32>,
    size: Option<u64>,
    strict: bool,
    path: PathModel,
    i: int,
    outcome: Outcome,
    now: u64,
)
    requires
        0 <= i < handle_attr_plan(fh, mode, uid, gid, size, strict).len(),
    ensures
        ({
            let plan = handle_attr_plan(fh, mode, uid, gid, size, strict);
            let last = strict && i == plan.len() - 1;
            &&& strict ==> plan.last() == (OpModel::HandleStat { fh }, false)
            &&& is_last_look(plan[i]) <==> last
            &&& handle_stored(plan[i], path, outcome, now) == (match outcome {
                Outcome::Stat(s) if last => Some(
                    OpModel::Daemon(
                        RequestModel::PutFileMeta {
                            path,
                            meta: meta_now(s.size, s.mode, s.uid, s.gid, now),
                        },
                    ),
                ),
                _ => None,
            })
        }),
{
}

} // verus!
