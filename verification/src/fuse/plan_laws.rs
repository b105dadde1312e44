//! What removing, renaming, making and changing files promises, from the plan to the
//! state of the daemon afterwards.

use crate::errno::{S_IFDIR, S_IFLNK};
use crate::error::{Error, IoError};
use crate::fuse::decision::{
    mkdir_decision, rename_decision, rmdir_decision, setattr_decision, unlink_decision,
};
use crate::fuse::executor::{
    changed_meta, handle_attr_plan, host_attr_plan, mkdir_plan, plan_advanced, plan_view,
    rename_plan, rmdir_plan, unlink_plan, PlanStep,
};
use crate::fuse::fs::{
    readlink_begun, readlink_resumed, rename_begun, rename_resumed, setattr_begun, setattr_stored,
    symlink_planned, ReadlinkNext, RenameNext, SetattrStart,
};
use crate::fuse::ops::{Op, OpModel, Outcome};
use crate::fuse::policy::AccessMode;
use crate::fuse::state::SetattrState;
use crate::path::{is_under, FsPath, PathModel};
use crate::syncing::closure::known;
use crate::syncing::proto::{FileMetadata, FuseEntry, Request, RequestModel, Response};
use crate::syncing::request_laws::{
    law_deleting, law_rename_file, law_rename_tree, law_storing, others_kept,
};
use crate::syncing::server::{dispatched, entry_at, ServerModel, Step};
use crate::syncing::server_laws::{movable, state_ok};
use vstd::prelude::*;

verus! {

/// Whether the daemon carried out the requests of a plan, one after the other, going
/// through these states.
pub open spec fn carried_out(
    plan: Seq<(OpModel, bool)>,
    requests: Seq<Request>,
    states: Seq<ServerModel>,
    steps: Seq<Step>,
) -> bool {
    &&& requests.len() == plan.len()
    &&& steps.len() == plan.len()
    &&& states.len() == plan.len() + 1
    &&& forall|i: int|
        0 <= i < plan.len() ==> (#[trigger] plan[i]).0 == OpModel::Daemon(requests[i]@)
    &&& forall|i: int|
        0 <= i < plan.len() ==> dispatched(
            states[i],
            #[trigger] requests[i],
            states[i + 1],
            steps[i],
        )
}

/// Whether a path is whited out.
pub open spec fn hidden_at(s: ServerModel, p: PathModel) -> bool {
    entry_at(s.entries, p) matches Some(e) && e.entry_type is Whiteout
}

/// A path that passes through is removed, made, renamed and linked on the host, by the
/// one operation that does it under its own name, and a failure of that is reported.
pub proof fn law_passing_through_works_on_the_host(
    path: PathModel,
    to: PathModel,
    below: Seq<PathModel>,
    target: Seq<u8>,
    mode: u32,
    uid: u32,
    gid: u32,
    now: u64,
    entry: Option<FuseEntry>,
)
    ensures
        unlink_plan(unlink_decision(AccessMode::Passthrough), path) == seq![
            (OpModel::RemoveFile(path), true),
        ],
        rmdir_plan(rmdir_decision(AccessMode::Passthrough), path, below) == seq![
            (OpModel::RemoveDir(path), true),
        ],
        rename_plan(rename_decision(AccessMode::Passthrough, entry), path, to) == seq![
            (OpModel::Rename { from: path, to }, true),
        ],
        symlink_planned(AccessMode::Passthrough, path, target, uid, gid, now) == seq![
            (OpModel::MakeSymlink { target, path }, true),
        ],
        mkdir_plan(mkdir_decision(AccessMode::Passthrough), path, mode, uid, gid, now) == seq![
            (OpModel::MakeDir(path), true),
            (OpModel::SetMode { path, mode: mode & 0o7777 }, true),
        ],
{
}

/// A file that was removed is hidden afterwards, whatever it was, and nothing else
/// changed; that hiding it fails is reported.
pub proof fn law_removed_file_is_hidden(
    access: AccessMode,
    path: PathModel,
    requests: Seq<Request>,
    states: Seq<ServerModel>,
    steps: Seq<Step>,
)
    requires
        !(access is Passthrough),
        carried_out(unlink_plan(unlink_decision(access), path), requests, states, steps),
    ensures
        hidden_at(states.last(), path),
        others_kept(states[0], states.last(), path, path),
        unlink_plan(unlink_decision(access), path).last() == (
            OpModel::Daemon(RequestModel::PutWhiteout { path }),
            true,
        ),
{
    let plan = unlink_plan(unlink_decision(access), path);
    assert(plan[0].0 == OpModel::Daemon(requests[0]@));
    assert(plan[1].0 == OpModel::Daemon(requests[1]@));
    law_deleting(states[0], requests[0], states[1], steps[0]);
    law_storing(states[1], requests[1], states[2], steps[1]);
    assert forall|q: PathModel| q != path implies #[trigger] entry_at(states[2].entries, q) == entry_at(
        states[0].entries,
        q,
    ) by {
        assert(entry_at(states[1].entries, q) == entry_at(states[0].entries, q));
    }
}

/// A directory that was removed is hidden afterwards, and so is everything that the host
/// has below it; nothing else changed.
pub proof fn law_removed_directory_is_hidden(
    access: AccessMode,
    path: PathModel,
    below: Seq<PathModel>,
    requests: Seq<Request>,
    states: Seq<ServerModel>,
    steps: Seq<Step>,
    q: PathModel,
)
    requires
        !(access is Passthrough),
        carried_out(rmdir_plan(rmdir_decision(access), path, below), requests, states, steps),
    ensures
        hidden_at(states.last(), path),
        below.contains(q) ==> hidden_at(states.last(), q),
        q != path && !below.contains(q) ==> entry_at(states.last().entries, q) == entry_at(
            states[0].entries,
            q,
        ),
{
    let plan = rmdir_plan(rmdir_decision(access), path, below);
    assert(plan[0].0 == OpModel::Daemon(RequestModel::DeleteFile { path }));
    assert(plan[1].0 == OpModel::Daemon(RequestModel::PutWhiteout { path }));
    assert(plan[0].0 == OpModel::Daemon(requests[0]@));
    assert(plan[1].0 == OpModel::Daemon(requests[1]@));
    law_deleting(states[0], requests[0], states[1], steps[0]);
    law_storing(states[1], requests[1], states[2], steps[1]);
    lemma_hides_one_by_one(path, below, plan, requests, states, steps, q, below.len() as int);
    lemma_hides_one_by_one(path, below, plan, requests, states, steps, path, below.len() as int);
    assert(below.take(below.len() as int) =~= below);
    if q != path {
        assert(entry_at(states[1].entries, q) == entry_at(states[0].entries, q));
        assert(entry_at(states[2].entries, q) == entry_at(states[1].entries, q));
    }
}

proof fn lemma_hides_one_by_one(
    path: PathModel,
    below: Seq<PathModel>,
    plan: Seq<(OpModel, bool)>,
    requests: Seq<Request>,
    states: Seq<ServerModel>,
    steps: Seq<Step>,
    q: PathModel,
    k: int,
)
    requires
        plan == rmdir_plan(rmdir_decision(AccessMode::FuseOnly), path, below),
        carried_out(plan, requests, states, steps),
        0 <= k <= below.len(),
    ensures
        below.take(k).contains(q) ==> hidden_at(states[k + 2], q),
        hidden_at(states[2], q) ==> hidden_at(states[k + 2], q),
        !below.take(k).contains(q) ==> entry_at(states[k + 2].entries, q) == entry_at(
            states[2].entries,
            q,
        ),
    decreases k,
{
    if k > 0 {
        lemma_hides_one_by_one(path, below, plan, requests, states, steps, q, k - 1);
        assert(plan[k + 1].0 == OpModel::Daemon(RequestModel::PutWhiteout { path: below[k - 1] }));
        assert(plan[k + 1].0 == OpModel::Daemon(requests[k + 1]@));
        law_storing(states[k + 1], requests[k + 1], states[k + 2], steps[k + 1]);
        assert(below.take(k) =~= below.take(k - 1).push(below[k - 1]));
        let before = below.take(k - 1);
        let after = below.take(k);
        if after.contains(q) && q != below[k - 1] {
            let i = choose|i: int| 0 <= i < after.len() && after[i] == q;
            assert(before[i] == q);
        }
        if before.contains(q) {
            let i = choose|i: int| 0 <= i < before.len() && before[i] == q;
            assert(after[i] == q);
        }
        if q == below[k - 1] {
            assert(after[k - 1] == q);
        } else {
            assert(entry_at(states[k + 2].entries, q) == entry_at(states[k + 1].entries, q));
        }
    }
}

/// A file or link that was renamed is found under its new name with all that it was,
/// whatever stood there before, and no longer under the old one; nothing else changed.
/// That the daemon refuses is reported.
pub proof fn law_renamed_file_is_moved(
    access: AccessMode,
    from: PathModel,
    to: PathModel,
    entry: FuseEntry,
    requests: Seq<Request>,
    states: Seq<ServerModel>,
    steps: Seq<Step>,
)
    requires
        !(access is Passthrough),
        from != to,
        entry.entry_type is File || entry.entry_type is Symlink,
        entry_at(states[0].entries, from) == Some(entry@),
        carried_out(
            rename_plan(rename_decision(access, Some(entry)), from, to),
            requests,
            states,
            steps,
        ),
    ensures
        entry_at(states.last().entries, to) == Some(entry@),
        entry_at(states.last().entries, from) is None,
        others_kept(states[0], states.last(), from, to),
        rename_plan(rename_decision(access, Some(entry)), from, to)[0].1,
{
    let plan = rename_plan(rename_decision(access, Some(entry)), from, to);
    assert(plan[0].0 == OpModel::Daemon(requests[0]@));
    assert(plan[1].0 == OpModel::Daemon(requests[1]@));
    law_rename_file(states[0], requests[0], states[1], steps[0]);
    law_deleting(states[1], requests[1], states[2], steps[1]);
    assert forall|q: PathModel| q != from && q != to implies #[trigger] entry_at(states[2].entries, q)
        == entry_at(states[0].entries, q) by {
        assert(entry_at(states[1].entries, q) == entry_at(states[0].entries, q));
    }
    assert(entry_at(states[2].entries, from) == entry_at(states[1].entries, from));
}

/// A directory that was renamed is found under its new name with everything below it, and
/// no longer under the old one.
pub proof fn law_renamed_directory_is_moved(
    access: AccessMode,
    from: PathModel,
    to: PathModel,
    entry: FuseEntry,
    requests: Seq<Request>,
    states: Seq<ServerModel>,
    steps: Seq<Step>,
    rest: Seq<Seq<u8>>,
    q: PathModel,
)
    requires
        !(access is Passthrough),
        entry.entry_type is Dir,
        entry_at(states[0].entries, from) == Some(entry@),
        state_ok(states[0]),
        known(states[0].tree, from),
        movable(states[0].tree, from, to),
        !is_under(to, from),
        !is_under(from, to),
        carried_out(
            rename_plan(rename_decision(access, Some(entry)), from, to),
            requests,
            states,
            steps,
        ),
    ensures
        entry_at(states.last().entries, (from.0, from.1 + rest)) is None,
        entry_at(states[0].entries, (from.0, from.1 + rest)) is Some ==> entry_at(
            states.last().entries,
            (to.0, to.1 + rest),
        ) == entry_at(states[0].entries, (from.0, from.1 + rest)),
        !is_under(q, from) && !is_under(q, to) ==> entry_at(states.last().entries, q) == entry_at(
            states[0].entries,
            q,
        ),
{
    let plan = rename_plan(rename_decision(access, Some(entry)), from, to);
    assert(plan[0].0 == OpModel::Daemon(requests[0]@));
    assert(plan[1].0 == OpModel::Daemon(requests[1]@));
    let old_place: PathModel = (from.0, from.1 + rest);
    let new_place: PathModel = (to.0, to.1 + rest);
    law_rename_tree(states[0], requests[0], states[1], steps[0], rest, q);
    law_deleting(states[1], requests[1], states[2], steps[1]);
    assert(is_under(old_place, from)) by {
        assert(from.1 =~= old_place.1.subrange(0, from.1.len() as int));
    }
    assert(is_under(to, to)) by {
        assert(to.1 =~= to.1.subrange(0, to.1.len() as int));
    }
    assert(old_place != to);
    assert(entry_at(states[2].entries, old_place) == entry_at(states[1].entries, old_place));
    if rest.len() > 0 {
        assert(new_place.1.len() > to.1.len());
        assert(new_place != to);
        assert(entry_at(states[2].entries, new_place) == entry_at(states[1].entries, new_place));
    } else {
        assert(new_place.1 =~= to.1);
        assert(old_place.1 =~= from.1);
    }
    if !is_under(q, from) && !is_under(q, to) {
        assert(q != to);
        assert(entry_at(states[2].entries, q) == entry_at(states[1].entries, q));
    }
}

/// A directory that was made is there, with the permissions asked for and the caller as
/// the owner, whatever stood there before; nothing else changed, and a refusal is
/// reported.
pub proof fn law_made_directory_is_there(
    access: AccessMode,
    path: PathModel,
    mode: u32,
    uid: u32,
    gid: u32,
    now: u64,
    requests: Seq<Request>,
    states: Seq<ServerModel>,
    steps: Seq<Step>,
)
    requires
        !(access is Passthrough),
        carried_out(
            mkdir_plan(mkdir_decision(access), path, mode, uid, gid, now),
            requests,
            states,
            steps,
        ),
    ensures
        entry_at(states.last().entries, path) matches Some(e) && e.entry_type is Dir && e.metadata == (
        FileMetadata {
            size: 0,
            mode: S_IFDIR | (mode & 0o7777),
            uid,
            gid,
            mtime: now,
            atime: now,
            ctime: now,
        }),
        others_kept(states[0], states.last(), path, path),
        mkdir_plan(mkdir_decision(access), path, mode, uid, gid, now)[0].1,
{
    let plan = mkdir_plan(mkdir_decision(access), path, mode, uid, gid, now);
    assert(plan[0].0 == OpModel::Daemon(requests[0]@));
    assert(plan[1].0 == OpModel::Daemon(requests[1]@));
    law_storing(states[0], requests[0], states[1], steps[0]);
    law_deleting(states[1], requests[1], states[2], steps[1]);
    assert forall|q: PathModel| q != path implies #[trigger] entry_at(states[2].entries, q) == entry_at(
        states[0].entries,
        q,
    ) by {
        assert(entry_at(states[1].entries, q) == entry_at(states[0].entries, q));
    }
}

/// A link that was made is there with its target, whatever stood there before; nothing
/// else changed, and a refusal is reported.
pub proof fn law_made_link_is_there(
    access: AccessMode,
    path: PathModel,
    target: Seq<u8>,
    uid: u32,
    gid: u32,
    now: u64,
    requests: Seq<Request>,
    states: Seq<ServerModel>,
    steps: Seq<Step>,
)
    requires
        !(access is Passthrough),
        carried_out(symlink_planned(access, path, target, uid, gid, now), requests, states, steps),
    ensures
        entry_at(states.last().entries, path) matches Some(e) && e.entry_type is Symlink
            && e.symlink_target == Some(target) && e.metadata == (FileMetadata {
            size: target.len() as u64,
            mode: S_IFLNK | 0o777,
            uid,
            gid,
            mtime: now,
            atime: now,
            ctime: now,
        }),
        others_kept(states[0], states.last(), path, path),
        symlink_planned(access, path, target, uid, gid, now)[0].1,
{
    let plan = symlink_planned(access, path, target, uid, gid, now);
    assert(plan[0].0 == OpModel::Daemon(requests[0]@));
    assert(plan[1].0 == OpModel::Daemon(requests[1]@));
    law_storing(states[0], requests[0], states[1], steps[0]);
    law_deleting(states[1], requests[1], states[2], steps[1]);
    assert forall|q: PathModel| q != path implies #[trigger] entry_at(states[2].entries, q) == entry_at(
        states[0].entries,
        q,
    ) by {
        assert(entry_at(states[1].entries, q) == entry_at(states[0].entries, q));
    }
}

/// Reading a link: what passes through is read on the host; a link of the sandbox gives
/// its target; a path of the sandbox's own that is no link, and one that is whited out,
/// is not found; any other path that is copied on write is read on the host.
pub proof fn law_reading_a_link(
    path: FsPath,
    mode: AccessMode,
    entry: Option<FuseEntry>,
    bytes: Vec<u8>,
    n0: ReadlinkNext,
    n1: ReadlinkNext,
    n2: ReadlinkNext,
)
    requires
        readlink_begun(path, n0),
        n0 matches ReadlinkNext::Do { task, .. } ==> readlink_resumed(
            task,
            mode,
            Outcome::Reply(Response::GetEntry(entry)),
            n1,
        ),
        n1 matches ReadlinkNext::Do { op, task } ==> readlink_resumed(
            task,
            mode,
            if op@ is ReadLink {
                Outcome::Bytes(bytes)
            } else {
                Outcome::Reply(Response::GetEntry(entry))
            },
            n2,
        ),
    ensures
        ({
            let link = entry matches Some(e) && e.entry_type is Symlink;
            let hidden = entry matches Some(e) && e.entry_type is Whiteout;
            let on_host = mode is Passthrough || (mode is CopyOnWrite && !link && !hidden);
            &&& n0 matches ReadlinkNext::Do { op, .. } && op@ == OpModel::Daemon(
                RequestModel::GetEntry { path: path@ },
            )
            &&& on_host <==> (n1 matches ReadlinkNext::Do { op, .. } && op@ == OpModel::ReadLink(path@))
            &&& on_host ==> n2 == ReadlinkNext::Finished(Ok(bytes))
            &&& !on_host && link ==> (n1 matches ReadlinkNext::Do { op, .. } && op@ == OpModel::Daemon(
                RequestModel::GetEntry { path: path@ },
            )) && (n2 matches ReadlinkNext::Finished(Ok(b)) && match entry->0.symlink_target {
                Some(t) => b@ == t@,
                None => b@.len() == 0,
            })
            &&& !on_host && !link ==> n1 == ReadlinkNext::Finished(Err(Error::Io(IoError::Os(2))))
        }),
{
}

/// A rename asks for the entries of both names before it is planned, and is planned by
/// the entry of the old one.
pub proof fn law_rename_asks_first(
    from: FsPath,
    to: FsPath,
    mode: AccessMode,
    from_entry: Option<FuseEntry>,
    to_entry: Option<FuseEntry>,
    n0: RenameNext,
    n1: RenameNext,
    n2: RenameNext,
)
    requires
        rename_begun(from, to, n0),
        n0 matches RenameNext::Do { task, .. } ==> rename_resumed(
            task,
            mode,
            Outcome::Reply(Response::GetEntry(from_entry)),
            n1,
        ),
        n1 matches RenameNext::Do { task, .. } ==> rename_resumed(
            task,
            mode,
            Outcome::Reply(Response::GetEntry(to_entry)),
            n2,
        ),
    ensures
        n0 matches RenameNext::Do { op, .. } && op@ == OpModel::Daemon(
            RequestModel::GetEntry { path: from@ },
        ),
        n1 matches RenameNext::Do { op, .. } && op@ == OpModel::Daemon(
            RequestModel::GetEntry { path: to@ },
        ),
        n2 matches RenameNext::Finished(Ok(p)) && {
            let plan = plan_view(p@);
            if mode is Passthrough {
                plan == seq![(OpModel::Rename { from: from@, to: to@ }, true)]
            } else {
                plan.len() == 2 && plan[0] == (
                    OpModel::Daemon(
                        if from_entry matches Some(e) && e.entry_type is Dir {
                            RequestModel::RenameTree { from: from@, to: to@ }
                        } else {
                            RequestModel::RenameFile { from: from@, to: to@ }
                        },
                    ),
                    true,
                ) && plan[1] == (
                    OpModel::Daemon(RequestModel::DeleteWhiteout { path: to@ }),
                    false,
                )
            }
        },
{
}

/// Changing metadata changes what is asked for and nothing else: the permission bits and
/// not the type of the file, the owner, the group and the size, each where it is given;
/// the time of change is now.
pub proof fn law_changed_metadata(
    m: FileMetadata,
    mode: Option<u32>,
    uid: Option<u32>,
    gid: Option<u32>,
    size: Option<u64>,
    now: u64,
)
    ensures
        ({
            let c = changed_meta(m, mode, uid, gid, size, now);
            &&& mode matches Some(v) ==> c.mode & 0o7777 == v & 0o7777 && c.mode & !0o7777u32 == m.mode
                & !0o7777u32
            &&& mode is None ==> c.mode == m.mode
            &&& uid matches Some(v) ==> c.uid == v
            &&& uid is None ==> c.uid == m.uid
            &&& gid matches Some(v) ==> c.gid == v
            &&& gid is None ==> c.gid == m.gid
            &&& size matches Some(v) ==> c.size == v
            &&& size is None ==> c.size == m.size
            &&& c.mtime == m.mtime
            &&& c.atime == m.atime
            &&& c.ctime == now
        }),
{
    if let Some(v) = mode {
        let a = m.mode;
        assert(((a & !0o7777u32) | (v & 0o7777u32)) & 0o7777u32 == v & 0o7777u32) by (bit_vector);
        assert(((a & !0o7777u32) | (v & 0o7777u32)) & !0o7777u32 == a & !0o7777u32) by (bit_vector);
    }
}

/// Where attributes are changed: through the handle where the file is open, on the host
/// where the path passes through, and otherwise in the daemon's entry, whose metadata is
/// asked for first and stored changed.
pub proof fn law_changing_attributes(
    access: AccessMode,
    path: PathModel,
    fh: Option<u64>,
    is_open: bool,
    mode: Option<u32>,
    uid: Option<u32>,
    gid: Option<u32>,
    size: Option<u64>,
    now: u64,
    start: SetattrStart,
    m: FileMetadata,
    state: SetattrState,
)
    requires
        setattr_begun(access, path, fh, is_open, mode, uid, gid, size, start),
    ensures
        fh is Some && is_open ==> (start matches SetattrStart::Plan(p) && plan_view(p@)
            == handle_attr_plan(fh->0, mode, uid, gid, size, false)),
        !(fh is Some && is_open) && access is Passthrough ==> (start matches SetattrStart::Plan(p)
            && plan_view(p@) == host_attr_plan(path, mode, uid, gid, size)),
        !(fh is Some && is_open) && !(access is Passthrough) ==> (start matches SetattrStart::AskMeta(op)
            && op@ == OpModel::Daemon(RequestModel::GetFileMeta { path })),
        setattr_stored(
            path,
            Outcome::Reply(Response::GetFileMeta(Some(m))),
            mode,
            uid,
            gid,
            size,
            now,
        ) == Some(
            OpModel::Daemon(
                RequestModel::PutFileMeta {
                    path,
                    meta: changed_meta(m, mode, uid, gid, size, now),
                },
            ),
        ),
        setattr_stored(
            path,
            Outcome::Reply(Response::GetFileMeta(None)),
            mode,
            uid,
            gid,
            size,
            now,
        ) is None,
        setattr_decision(state) is UpdateOpenHandle <==> state.fh_present && state.has_open_handle,
        setattr_decision(state) is UpdateRealFs <==> !(state.fh_present && state.has_open_handle)
            && state.access_mode is Passthrough,
{
}

/// Whether a plan holds a piece of work.
pub open spec fn does(plan: Seq<(OpModel, bool)>, op: OpModel) -> bool {
    exists|i: int| 0 <= i < plan.len() && (#[trigger] plan[i]).0 == op
}

/// Changing attributes on the host sets the size, the permission bits and the owner under
/// the path, each exactly where it is given; only a size that cannot be set is an error.
pub proof fn law_host_attributes_are_set(
    path: PathModel,
    mode: Option<u32>,
    uid: Option<u32>,
    gid: Option<u32>,
    size: Option<u64>,
    i: int,
)
    ensures
        ({
            let plan = host_attr_plan(path, mode, uid, gid, size);
            &&& size matches Some(v) ==> plan.len() > 0 && plan[0] == (
                OpModel::SetLength { path, size: v },
                true,
            )
            &&& mode matches Some(v) ==> does(plan, OpModel::SetMode { path, mode: v & 0o7777 })
            &&& mode is Some || uid is Some || gid is Some ==> does(
                plan,
                OpModel::SetOwner { path, uid, gid },
            )
            &&& mode is None && uid is None && gid is None && size is None ==> plan.len() == 0
            &&& 0 <= i < plan.len() ==> match plan[i].0 {
                OpModel::SetLength { path: p, size: v } => p == path && size == Some(v),
                OpModel::SetMode { path: p, mode: v } => p == path && mode is Some && v == mode->0
                    & 0o7777 && !plan[i].1,
                OpModel::SetOwner { path: p, uid: u, gid: g } => p == path && u == uid && g == gid
                    && !plan[i].1,
                _ => false,
            }
        }),
{
    let plan = host_attr_plan(path, mode, uid, gid, size);
    let a: int = if size is Some {
        1
    } else {
        0
    };
    let b: int = if mode is Some {
        1
    } else {
        0
    };
    if mode is Some {
        assert(plan[a].0 == (OpModel::SetMode { path, mode: mode->0 & 0o7777 }));
    }
    if mode is Some || uid is Some || gid is Some {
        assert(plan[a + b].0 == (OpModel::SetOwner { path, uid, gid }));
    }
}

/// Changing attributes through an open handle sets the size, the permission bits and the
/// owner of the handle, each exactly where it is given, and works on no other file.
pub proof fn law_handle_attributes_are_set(
    fh: u64,
    mode: Option<u32>,
    uid: Option<u32>,
    gid: Option<u32>,
    size: Option<u64>,
    strict: bool,
    i: int,
)
    ensures
        ({
            let plan = handle_attr_plan(fh, mode, uid, gid, size, strict);
            &&& size matches Some(v) ==> plan.len() > 0 && plan[0] == (
                OpModel::HandleSetLength { fh, size: v },
                true,
            )
            &&& mode matches Some(v) ==> does(plan, OpModel::HandleSetMode { fh, mode: v & 0o7777 })
            &&& mode is Some || uid is Some || gid is Some ==> does(
                plan,
                OpModel::HandleSetOwner { fh, uid, gid },
            )
            &&& 0 <= i < plan.len() ==> match plan[i].0 {
                OpModel::HandleSetLength { fh: h, size: v } => h == fh && size == Some(v),
                OpModel::HandleSetMode { fh: h, mode: v } => h == fh && mode is Some && v == mode->0
                    & 0o7777 && plan[i].1 == strict,
                OpModel::HandleSetOwner { fh: h, uid: u, gid: g } => h == fh && u == uid && g == gid
                    && !plan[i].1,
                OpModel::HandleStat { fh: h } => h == fh,
                _ => false,
            }
        }),
{
    let plan = handle_attr_plan(fh, mode, uid, gid, size, strict);
    let a: int = if size is Some {
        1
    } else {
        0
    };
    let b: int = if mode is Some {
        1
    } else {
        0
    };
    if mode is Some || uid is Some || gid is Some {
        if mode is Some {
            assert(plan[a + 1].0 == (OpModel::HandleSetMode { fh, mode: mode->0 & 0o7777 }));
        }
        assert(plan[a + 1 + b].0 == (OpModel::HandleSetOwner { fh, uid, gid }));
    }
}

/// A plan goes on to its next step where a step succeeded or need not succeed, and ends
/// with the failure of a step that must.
pub proof fn law_plans_go_on(
    left: Seq<PlanStep>,
    outcome: Outcome,
    after: Seq<PlanStep>,
    error: Option<Error>,
)
    requires
        left.len() > 0,
        plan_advanced(left, outcome, after, error),
    ensures
        outcome is Done ==> after == left.skip(1) && error is None,
        !left[0].must ==> after == left.skip(1) && error is None,
        outcome matches Outcome::Failed(e) ==> left[0].must ==> after.len() == 0 && error == Some(e),
        left[0].must && left[0].op is Daemon && (outcome matches Outcome::Reply(Response::Error(_))) && (
        left[0].op matches Op::Daemon(r) && (r is PutWhiteout || r is RenameFile || r is RenameTree
            || r is PutDir || r is PutSymlink || r is DeleteFile || r is PutFileMeta)) ==> error is Some,
{
}

} // verus!
