//! The decisions: what an operation does, given what was found.

use crate::bytes::copy_bytes;
use crate::error::{Error, IoError};
use crate::fuse::attr::FileKind;
use crate::fuse::policy::AccessMode;
use crate::fuse::state::{
    CreateState, FuseChild, MkdirState, OpenState, ReaddirChildState, ReaddirState, ReadlinkState,
    RealChild, RenameState, RmdirState, SetattrState, StatState, UnlinkState,
};
use crate::names::{has_name, lemma_one_row, maps_to, NameMap};
use crate::path::{FsPath, PathModel};
use crate::syncing::proto::{EntryType, FuseEntry};
use vstd::prelude::*;

verus! {

#[derive(Debug, Clone, Copy, PartialEq, Eq, Structural)]
pub enum StatDecision {
    UseReal,
    UseFuse,
    NotFound,
}

#[derive(Debug, Clone, Copy, PartialEq, Eq, Structural)]
pub enum OpenDecision {
    NotFound,
    Error,
    OpenReal,
    OpenObject {
        existing_object_id: Option<u64>,
        needs_ensure: bool,
        copy_up_from_real: bool,
        delete_whiteout: bool,
    },
}

/// A step of opening a file.
#[derive(Debug, Clone, Copy, PartialEq, Eq, Structural)]
pub enum OpenTransitionStep {
    RejectWhiteout,
    OpenReal,
    EnsureObject,
    CopyUpFromReal,
    DeleteWhiteout,
    OpenObject,
    ErrorMissingObjectPath,
}

/// Whether a path is whited out.
pub open spec fn is_whited_out(entry: Option<FuseEntry>) -> bool {
    entry is Some && entry->0.entry_type is Whiteout
}

/// The object of an entry.
pub open spec fn object_of(entry: Option<FuseEntry>) -> Option<u64> {
    match entry {
        Some(e) => e.object_id,
        None => None,
    }
}

/// How a file is opened: never behind a whiteout; on the host where the path passes
/// through, or where it is only read and the sandbox has no contents; otherwise on
/// an object of the sandbox, which is made where it is missing and filled from the
/// host where existing contents are about to change.
pub open spec fn open_decision(state: OpenState) -> OpenDecision {
    let object = object_of(state.fuse_entry);
    let missing = object is None || state.object_path is None;
    if is_whited_out(state.fuse_entry) {
        OpenDecision::NotFound
    } else {
        match state.access_mode {
            AccessMode::Passthrough => OpenDecision::OpenReal,
            AccessMode::FuseOnly => OpenDecision::OpenObject {
                existing_object_id: object,
                needs_ensure: missing,
                copy_up_from_real: false,
                delete_whiteout: false,
            },
            AccessMode::CopyOnWrite => if state.need_write {
                OpenDecision::OpenObject {
                    existing_object_id: object,
                    needs_ensure: missing,
                    copy_up_from_real: object is None && !state.truncate_requested
                        && state.real_exists,
                    delete_whiteout: true,
                }
            } else if object is None {
                OpenDecision::OpenReal
            } else if state.object_path is None {
                OpenDecision::Error
            } else {
                OpenDecision::OpenObject {
                    existing_object_id: object,
                    needs_ensure: false,
                    copy_up_from_real: false,
                    delete_whiteout: false,
                }
            },
        }
    }
}

/// The steps of a decision, in order.
pub open spec fn open_steps(decision: OpenDecision) -> Seq<OpenTransitionStep> {
    match decision {
        OpenDecision::NotFound => seq![OpenTransitionStep::RejectWhiteout],
        OpenDecision::Error => seq![OpenTransitionStep::ErrorMissingObjectPath],
        OpenDecision::OpenReal => seq![OpenTransitionStep::OpenReal],
        OpenDecision::OpenObject { needs_ensure, copy_up_from_real, delete_whiteout, .. } => step_if(
            needs_ensure,
            OpenTransitionStep::EnsureObject,
        ) + step_if(copy_up_from_real, OpenTransitionStep::CopyUpFromReal) + step_if(
            delete_whiteout,
            OpenTransitionStep::DeleteWhiteout,
        ) + seq![OpenTransitionStep::OpenObject],
    }
}

/// A step that is taken under a condition.
pub open spec fn step_if(taken: bool, step: OpenTransitionStep) -> Seq<OpenTransitionStep> {
    if taken {
        seq![step]
    } else {
        Seq::empty()
    }
}

/// Whether an entry hides a host file.
pub fn is_whiteout_entry(entry: &Option<FuseEntry>) -> (r: bool)
    ensures
        r == is_whited_out(*entry),
{
    match entry {
        Some(e) => e.entry_type == EntryType::Whiteout,
        None => false,
    }
}

/// Decides how a file is opened, and the steps that this takes.
pub fn compute_open_behavior(state: &OpenState) -> (r: (OpenDecision, Vec<OpenTransitionStep>))
    ensures
        r.0 == open_decision(*state),
        r.1@ == open_steps(r.0),
{
    let mut transitions: Vec<OpenTransitionStep> = Vec::new();
    if is_whiteout_entry(&state.fuse_entry) {
        transitions.push(OpenTransitionStep::RejectWhiteout);
        assert(transitions@ =~= open_steps(OpenDecision::NotFound));
        return (OpenDecision::NotFound, transitions);
    }
    let object_id = match &state.fuse_entry {
        Some(e) => e.object_id,
        None => None,
    };
    let has_object_path = state.object_path.is_some();
    match state.access_mode {
        AccessMode::Passthrough => {
            transitions.push(OpenTransitionStep::OpenReal);
            assert(transitions@ =~= open_steps(OpenDecision::OpenReal));
            (OpenDecision::OpenReal, transitions)
        },
        AccessMode::FuseOnly => {
            let needs_ensure = object_id.is_none() || !has_object_path;
            if needs_ensure {
                transitions.push(OpenTransitionStep::EnsureObject);
            }
            transitions.push(OpenTransitionStep::OpenObject);
            let decision = OpenDecision::OpenObject {
                existing_object_id: object_id,
                needs_ensure,
                copy_up_from_real: false,
                delete_whiteout: false,
            };
            assert(transitions@ =~= open_steps(decision));
            (decision, transitions)
        },
        AccessMode::CopyOnWrite => {
            if !state.need_write {
                match (object_id, has_object_path) {
                    (Some(id), true) => {
                        transitions.push(OpenTransitionStep::OpenObject);
                        let decision = OpenDecision::OpenObject {
                            existing_object_id: Some(id),
                            needs_ensure: false,
                            copy_up_from_real: false,
                            delete_whiteout: false,
                        };
                        assert(transitions@ =~= open_steps(decision));
                        (decision, transitions)
                    },
                    (Some(_), false) => {
                        transitions.push(OpenTransitionStep::ErrorMissingObjectPath);
                        assert(transitions@ =~= open_steps(OpenDecision::Error));
                        (OpenDecision::Error, transitions)
                    },
                    (None, _) => {
                        transitions.push(OpenTransitionStep::OpenReal);
                        assert(transitions@ =~= open_steps(OpenDecision::OpenReal));
                        (OpenDecision::OpenReal, transitions)
                    },
                }
            } else {
                let had_object = object_id.is_some();
                let needs_ensure = object_id.is_none() || !has_object_path;
                if needs_ensure {
                    transitions.push(OpenTransitionStep::EnsureObject);
                }
                let copy_up_from_real = !had_object && !state.truncate_requested && state.real_exists;
                if copy_up_from_real {
                    transitions.push(OpenTransitionStep::CopyUpFromReal);
                }
                transitions.push(OpenTransitionStep::DeleteWhiteout);
                transitions.push(OpenTransitionStep::OpenObject);
                let decision = OpenDecision::OpenObject {
                    existing_object_id: object_id,
                    needs_ensure,
                    copy_up_from_real,
                    delete_whiteout: true,
                };
                assert(transitions@ =~= open_steps(decision));
                (decision, transitions)
            }
        },
    }
}

/// Decides how a file is opened, and the steps that this takes.
pub fn decide_open_with_transitions(state: &OpenState) -> (r: (
    OpenDecision,
    Vec<OpenTransitionStep>,
))
    ensures
        r.0 == open_decision(*state),
        r.1@ == open_steps(open_decision(*state)),
{
    compute_open_behavior(state)
}

/// Decides how a file is opened.
pub fn decide_open(state: &OpenState) -> (r: OpenDecision)
    ensures
        r == open_decision(*state),
{
    decide_open_with_transitions(state).0
}

/// The steps that opening a file takes.
pub fn extract_open_transitions(state: &OpenState) -> (r: Vec<OpenTransitionStep>)
    ensures
        r@ == open_steps(open_decision(*state)),
{
    decide_open_with_transitions(state).1
}

#[derive(Debug, Clone, Copy, PartialEq, Eq, Structural)]
pub enum CreateDecision {
    CreateReal,
    CreateObject,
}

/// Where a file is created, under the mode of its path.
pub open spec fn create_decision(mode: AccessMode) -> CreateDecision {
    if mode is Passthrough {
        CreateDecision::CreateReal
    } else {
        CreateDecision::CreateObject
    }
}

/// Decides where a file is created: on the host only where the path passes through.
pub fn decide_create(state: &CreateState) -> (r: CreateDecision)
    ensures
        r == create_decision(state.access_mode),
{
    match state.access_mode {
        AccessMode::Passthrough => CreateDecision::CreateReal,
        AccessMode::FuseOnly | AccessMode::CopyOnWrite => CreateDecision::CreateObject,
    }
}

#[derive(Debug, Clone, Copy, PartialEq, Eq, Structural)]
pub enum UnlinkDecision {
    RemoveReal,
    Whiteout,
}

/// How a file is removed, under the mode of its path.
pub open spec fn unlink_decision(mode: AccessMode) -> UnlinkDecision {
    if mode is Passthrough {
        UnlinkDecision::RemoveReal
    } else {
        UnlinkDecision::Whiteout
    }
}

/// Decides how a file is removed: from the host only where the path passes through.
pub fn decide_unlink(state: &UnlinkState) -> (r: UnlinkDecision)
    ensures
        r == unlink_decision(state.access_mode),
{
    match state.access_mode {
        AccessMode::Passthrough => UnlinkDecision::RemoveReal,
        AccessMode::FuseOnly | AccessMode::CopyOnWrite => UnlinkDecision::Whiteout,
    }
}

#[derive(Debug, Clone, Copy, PartialEq, Eq, Structural)]
pub enum RmdirDecision {
    RemoveReal,
    WhiteoutRecursive,
}

/// How a directory is removed, under the mode of its path.
pub open spec fn rmdir_decision(mode: AccessMode) -> RmdirDecision {
    if mode is Passthrough {
        RmdirDecision::RemoveReal
    } else {
        RmdirDecision::WhiteoutRecursive
    }
}

/// Decides how a directory is removed: from the host only where the path passes
/// through.
pub fn decide_rmdir(state: &RmdirState) -> (r: RmdirDecision)
    ensures
        r == rmdir_decision(state.access_mode),
{
    match state.access_mode {
        AccessMode::Passthrough => RmdirDecision::RemoveReal,
        AccessMode::FuseOnly | AccessMode::CopyOnWrite => RmdirDecision::WhiteoutRecursive,
    }
}

#[derive(Debug, Clone, Copy, PartialEq, Eq, Structural)]
pub enum RenameDecision {
    RenameReal,
    RenameFuseFileOrSymlink,
    RenameFuseTree,
}

#[derive(Debug, Clone, Copy, PartialEq, Eq, Structural)]
pub enum SetattrDecision {
    UpdateOpenHandle,
    UpdateRealFs,
    UpdateDaemonMeta,
}

/// Where attributes are changed: on the open handle where there is one, otherwise
/// on the host only where the path passes through.
pub open spec fn setattr_decision(state: SetattrState) -> SetattrDecision {
    if state.fh_present && state.has_open_handle {
        SetattrDecision::UpdateOpenHandle
    } else if state.access_mode is Passthrough {
        SetattrDecision::UpdateRealFs
    } else {
        SetattrDecision::UpdateDaemonMeta
    }
}

/// Decides where attributes are changed.
pub fn decide_setattr(state: &SetattrState) -> (r: SetattrDecision)
    ensures
        r == setattr_decision(*state),
{
    if state.fh_present && state.has_open_handle {
        SetattrDecision::UpdateOpenHandle
    } else {
        match state.access_mode {
            AccessMode::Passthrough => SetattrDecision::UpdateRealFs,
            AccessMode::FuseOnly | AccessMode::CopyOnWrite => SetattrDecision::UpdateDaemonMeta,
        }
    }
}

#[derive(Debug, Clone, Copy, PartialEq, Eq, Structural)]
pub enum ReadlinkDecision {
    UseFuse,
    UseReal,
    NotFound,
}

/// Whether an entry is a link.
pub open spec fn is_link(entry: Option<FuseEntry>) -> bool {
    entry is Some && entry->0.entry_type is Symlink
}

/// Where a link is read: from the host where the path passes through; from the
/// sandbox where it holds a link; otherwise from the host, unless the path is the
/// sandbox's own or whited out.
pub open spec fn readlink_decision(mode: AccessMode, entry: Option<FuseEntry>) -> ReadlinkDecision {
    if mode is Passthrough {
        ReadlinkDecision::UseReal
    } else if is_link(entry) {
        ReadlinkDecision::UseFuse
    } else if mode is FuseOnly || is_whited_out(entry) {
        ReadlinkDecision::NotFound
    } else {
        ReadlinkDecision::UseReal
    }
}

/// Decides where a link is read.
pub fn decide_readlink(state: &ReadlinkState) -> (r: ReadlinkDecision)
    ensures
        r == readlink_decision(state.access_mode, state.fuse_entry),
{
    match state.access_mode {
        AccessMode::Passthrough => ReadlinkDecision::UseReal,
        AccessMode::FuseOnly => match &state.fuse_entry {
            Some(entry) => if entry.entry_type == EntryType::Symlink {
                ReadlinkDecision::UseFuse
            } else {
                ReadlinkDecision::NotFound
            },
            None => ReadlinkDecision::NotFound,
        },
        AccessMode::CopyOnWrite => match &state.fuse_entry {
            Some(entry) => if entry.entry_type == EntryType::Whiteout {
                ReadlinkDecision::NotFound
            } else if entry.entry_type == EntryType::Symlink {
                ReadlinkDecision::UseFuse
            } else {
                ReadlinkDecision::UseReal
            },
            None => ReadlinkDecision::UseReal,
        },
    }
}

#[derive(Debug, Clone, Copy, PartialEq, Eq, Structural)]
pub enum MkdirDecision {
    CreateReal,
    CreateDaemon,
}

/// Where a directory is made, under the mode of its path.
pub open spec fn mkdir_decision(mode: AccessMode) -> MkdirDecision {
    if mode is Passthrough {
        MkdirDecision::CreateReal
    } else {
        MkdirDecision::CreateDaemon
    }
}

/// Decides where a directory is made: on the host only where the path passes through.
pub fn decide_mkdir(state: &MkdirState) -> (r: MkdirDecision)
    ensures
        r == mkdir_decision(state.access_mode),
{
    match state.access_mode {
        AccessMode::Passthrough => MkdirDecision::CreateReal,
        AccessMode::FuseOnly | AccessMode::CopyOnWrite => MkdirDecision::CreateDaemon,
    }
}

/// How a path is renamed: on the host only where it passes through, and as a tree
/// where the sandbox holds a directory.
pub open spec fn rename_decision(mode: AccessMode, entry: Option<FuseEntry>) -> RenameDecision {
    if mode is Passthrough {
        RenameDecision::RenameReal
    } else if entry is Some && entry->0.entry_type is Dir {
        RenameDecision::RenameFuseTree
    } else {
        RenameDecision::RenameFuseFileOrSymlink
    }
}

/// Decides how a path is renamed.
pub fn decide_rename(state: &RenameState) -> (r: RenameDecision)
    ensures
        r == rename_decision(state.access_mode, state.from_entry),
{
    match state.access_mode {
        AccessMode::Passthrough => RenameDecision::RenameReal,
        AccessMode::FuseOnly | AccessMode::CopyOnWrite => {
            let is_dir = match &state.from_entry {
                Some(e) => e.entry_type == EntryType::Dir,
                None => false,
            };
            if is_dir {
                RenameDecision::RenameFuseTree
            } else {
                RenameDecision::RenameFuseFileOrSymlink
            }
        },
    }
}

/// Where a path is looked up: on the host where it passes through; in the sandbox
/// where it has an entry that is no whiteout; on the host where a copy-on-write
/// path has no entry.
pub open spec fn stat_decision(mode: AccessMode, real_exists: bool, entry: Option<FuseEntry>) -> StatDecision {
    if is_whited_out(entry) && !(mode is Passthrough) {
        StatDecision::NotFound
    } else if entry is Some && !(mode is Passthrough) {
        StatDecision::UseFuse
    } else if real_exists && !(mode is FuseOnly) {
        StatDecision::UseReal
    } else {
        StatDecision::NotFound
    }
}

/// Decides where a path is looked up.
pub fn decide_stat(state: &StatState) -> (r: StatDecision)
    ensures
        r == stat_decision(state.access_mode, state.real_exists, state.fuse_entry),
{
    match state.access_mode {
        AccessMode::Passthrough => if state.real_exists {
            StatDecision::UseReal
        } else {
            StatDecision::NotFound
        },
        AccessMode::FuseOnly => match &state.fuse_entry {
            Some(entry) => if entry.entry_type != EntryType::Whiteout {
                StatDecision::UseFuse
            } else {
                StatDecision::NotFound
            },
            None => StatDecision::NotFound,
        },
        AccessMode::CopyOnWrite => match &state.fuse_entry {
            Some(entry) => if entry.entry_type == EntryType::Whiteout {
                StatDecision::NotFound
            } else {
                StatDecision::UseFuse
            },
            None => if state.real_exists {
                StatDecision::UseReal
            } else {
                StatDecision::NotFound
            },
        },
    }
}

/// How a name shows in a listing.
#[derive(Debug, Clone, Copy, PartialEq, Eq, Structural)]
pub enum ChildDecision {
    Hide,
    ShowReal,
    ShowFuse,
    DontCareCollision,
}

/// How every name of a listing shows.
#[derive(Debug)]
pub struct ReaddirDecision {
    pub per_child: NameMap<ChildDecision>,
}

/// How a name shows: a whiteout hides it; the sandbox's entry comes first, except
/// that a path which passes through does not choose between two; the host's entry
/// never shows where the path is the sandbox's own.
pub open spec fn child_decision(
    mode: AccessMode,
    has_real: bool,
    has_fuse: bool,
    fuse_is_whiteout: bool,
) -> ChildDecision {
    if fuse_is_whiteout {
        ChildDecision::Hide
    } else if has_fuse {
        if mode is Passthrough && has_real {
            ChildDecision::DontCareCollision
        } else {
            ChildDecision::ShowFuse
        }
    } else if has_real && !(mode is FuseOnly) {
        ChildDecision::ShowReal
    } else {
        ChildDecision::Hide
    }
}

/// Decides how a name shows.
pub fn decide_child(
    mode: AccessMode,
    has_real: bool,
    has_fuse: bool,
    fuse_is_whiteout: bool,
) -> (r: ChildDecision)
    ensures
        r == child_decision(mode, has_real, has_fuse, fuse_is_whiteout),
{
    if fuse_is_whiteout {
        return ChildDecision::Hide;
    }
    match mode {
        AccessMode::Passthrough => match (has_real, has_fuse) {
            (false, false) => ChildDecision::Hide,
            (true, false) => ChildDecision::ShowReal,
            (false, true) => ChildDecision::ShowFuse,
            (true, true) => ChildDecision::DontCareCollision,
        },
        AccessMode::FuseOnly => if has_fuse {
            ChildDecision::ShowFuse
        } else {
            ChildDecision::Hide
        },
        AccessMode::CopyOnWrite => if has_fuse {
            ChildDecision::ShowFuse
        } else if has_real {
            ChildDecision::ShowReal
        } else {
            ChildDecision::Hide
        },
    }
}

/// How a name shows, given what it stands for.
pub open spec fn decision_for(mode: AccessMode, child: ReaddirChildState) -> ChildDecision {
    child_decision(
        mode,
        child.real is Some,
        child.fuse is Some,
        child.fuse is Some && child.fuse->0.entry_type is Whiteout,
    )
}

/// Whether the rows of a decision are what the names of a state show as.
pub open spec fn decides(state: ReaddirState, decision: ReaddirDecision) -> bool {
    &&& decision.per_child@.len() == state.children@.len()
    &&& forall|i: int|
        0 <= i < state.children@.len() ==> #[trigger] decision.per_child@[i] == (
            state.children@[i].0,
            decision_for(state.access_mode, state.children@[i].1),
        )
}

/// Decides how every name of a listing shows.
pub fn decide_readdir(state: &ReaddirState) -> (r: ReaddirDecision)
    requires
        state.children.wf(),
    ensures
        r.per_child.wf(),
        decides(*state, r),
{
    let mut per_child: NameMap<ChildDecision> = NameMap::new();
    let mut i: usize = 0;
    while i < state.children.len()
        invariant
            i <= state.children@.len(),
            state.children.wf(),
            per_child.wf(),
            per_child@.len() == i,
            forall|k: int|
                0 <= k < i ==> #[trigger] per_child@[k] == (
                    state.children@[k].0,
                    decision_for(state.access_mode, state.children@[k].1),
                ),
        decreases state.children@.len() - i,
    {
        let name = state.children.name_at(i);
        let child = state.children.value_at(i);
        let has_real = child.real.is_some();
        let (has_fuse, fuse_is_whiteout) = match &child.fuse {
            Some(f) => (true, f.entry_type == EntryType::Whiteout),
            None => (false, false),
        };
        let decision = decide_child(state.access_mode, has_real, has_fuse, fuse_is_whiteout);
        let ghost before = per_child@;
        proof {
            assert forall|k: int| 0 <= k < before.len() implies crate::names::name_before(
                (#[trigger] before[k]).0,
                name@,
            ) by {
                assert(crate::names::name_before(state.children@[k].0, state.children@[i as int].0));
            }
        }
        per_child.append_last(copy_bytes(name.as_slice()), decision);
        i = i + 1;
    }
    ReaddirDecision { per_child }
}

/// What is wrong with a row of a decision.
pub open spec fn row_fault(state: ReaddirState, name: Seq<u8>, decision: ChildDecision) -> Option<Seq<char>> {
    if !has_name(state.children@, name) {
        Some("decision contains unknown child"@)
    } else if decision is ShowReal && !(exists|c: ReaddirChildState| #[trigger]
        maps_to(state.children@, name, c) && c.real is Some) {
        Some("ShowReal without real child"@)
    } else if decision is ShowFuse && !(exists|c: ReaddirChildState| #[trigger]
        maps_to(state.children@, name, c) && c.fuse is Some) {
        Some("ShowFuse without fuse child"@)
    } else {
        None
    }
}

/// Whether the first `n` rows of a decision are sound.
pub open spec fn rows_sound(state: ReaddirState, rows: Seq<(Seq<u8>, ChildDecision)>, n: int) -> bool {
    forall|i: int| 0 <= i < n ==> row_fault(state, (#[trigger] rows[i]).0, rows[i].1) is None
}

/// Checks that a decision shows only what is there; the first row that does not
/// gives the error.
pub fn validate_readdir_decision(state: &ReaddirState, decision: &ReaddirDecision) -> (r: Result<
    (),
    Error,
>)
    requires
        state.children.wf(),
    ensures
        match r {
            Ok(_) => rows_sound(*state, decision.per_child@, decision.per_child@.len() as int),
            Err(e) => exists|i: int|
                0 <= i < decision.per_child@.len() && rows_sound(*state, decision.per_child@, i) && (e matches Error::Io(
                    IoError::Other(text),
                ) && Some(text@) == row_fault(
                    *state,
                    (#[trigger] decision.per_child@[i]).0,
                    decision.per_child@[i].1,
                )),
        },
{
    let ghost rows = decision.per_child@;
    let mut i: usize = 0;
    while i < decision.per_child.len()
        invariant
            i <= rows.len(),
            rows == decision.per_child@,
            state.children.wf(),
            rows_sound(*state, rows, i as int),
        decreases rows.len() - i,
    {
        let name = decision.per_child.name_at(i);
        let child_decision = *decision.per_child.value_at(i);
        let ghost row = rows[i as int];
        proof {
            assert(row == (name@, child_decision));
        }
        match state.children.get(name.as_slice()) {
            None => {
                let text = String::from_str("decision contains unknown child");
                return Err(Error::Io(IoError::Other(text)));
            },
            Some(child) => {
                proof {
                    assert(has_name(state.children@, name@));
                    assert forall|c: ReaddirChildState| #[trigger] maps_to(state.children@, name@, c) implies c
                        == *child by {
                        let a = choose|a: int|
                            0 <= a < state.children@.len() && #[trigger] state.children@[a] == (name@, c);
                        let b = choose|b: int|
                            0 <= b < state.children@.len() && #[trigger] state.children@[b] == (name@, *child);
                        lemma_one_row(state.children@, a, b);
                    }
                }
                match child_decision {
                    ChildDecision::ShowReal => {
                        if child.real.is_none() {
                            let text = String::from_str("ShowReal without real child");
                            return Err(Error::Io(IoError::Other(text)));
                        }
                    },
                    ChildDecision::ShowFuse => {
                        if child.fuse.is_none() {
                            let text = String::from_str("ShowFuse without fuse child");
                            return Err(Error::Io(IoError::Other(text)));
                        }
                    },
                    _ => {},
                }
            },
        }
        i = i + 1;
    }
    Ok(())
}

/// The kind that an entry shows as; none for a whiteout.
pub open spec fn shown_kind(t: EntryType) -> Option<FileKind> {
    match t {
        EntryType::Dir => Some(FileKind::Directory),
        EntryType::Symlink => Some(FileKind::Symlink),
        EntryType::File => Some(FileKind::RegularFile),
        EntryType::Whiteout => None,
    }
}

/// What a sandbox entry shows as.
pub open spec fn fuse_item(f: Option<FuseChild>) -> Option<(FileKind, PathModel)> {
    match f {
        Some(c) => match shown_kind(c.entry_type) {
            Some(kind) => Some((kind, c.path@)),
            None => None,
        },
        None => None,
    }
}

/// What a host entry shows as.
pub open spec fn real_item(r: Option<RealChild>) -> Option<(FileKind, PathModel)> {
    match r {
        Some(c) => Some((c.kind, c.path@)),
        None => None,
    }
}

/// What a name shows as under a decision; where it does not matter, the host's
/// entry shows.
pub open spec fn visible_item(child: ReaddirChildState, decision: ChildDecision) -> Option<(FileKind, PathModel)> {
    match decision {
        ChildDecision::Hide => None,
        ChildDecision::ShowReal => real_item(child.real),
        ChildDecision::ShowFuse => fuse_item(child.fuse),
        ChildDecision::DontCareCollision => if child.real is Some {
            real_item(child.real)
        } else {
            fuse_item(child.fuse)
        },
    }
}

/// What a listing item is.
pub open spec fn item_view(o: Option<(FileKind, FsPath)>) -> Option<(FileKind, PathModel)> {
    match o {
        Some((kind, path)) => Some((kind, path@)),
        None => None,
    }
}

/// What a host entry shows as.
fn real_shown(child: &Option<RealChild>) -> (r: Option<(FileKind, FsPath)>)
    ensures
        item_view(r) == real_item(*child),
{
    match child {
        Some(c) => Some((c.kind, c.path.copy())),
        None => None,
    }
}

/// What a sandbox entry shows as.
fn fuse_shown(child: &Option<FuseChild>) -> (r: Option<(FileKind, FsPath)>)
    ensures
        item_view(r) == fuse_item(*child),
{
    match child {
        Some(c) => match c.entry_type {
            EntryType::Dir => Some((FileKind::Directory, c.path.copy())),
            EntryType::Symlink => Some((FileKind::Symlink, c.path.copy())),
            EntryType::File => Some((FileKind::RegularFile, c.path.copy())),
            EntryType::Whiteout => None,
        },
        None => None,
    }
}

/// What a name shows as under a decision; nothing where the name is unknown.
pub fn choose_visible_child(
    state: &ReaddirState,
    name: &[u8],
    child_decision: ChildDecision,
) -> (r: Option<(FileKind, FsPath)>)
    requires
        state.children.wf(),
    ensures
        forall|c: ReaddirChildState| #[trigger]
            maps_to(state.children@, name@, c) ==> item_view(r) == visible_item(c, child_decision),
        !has_name(state.children@, name@) ==> r is None,
{
    match state.children.get(name) {
        None => {
            proof {
                assert forall|c: ReaddirChildState| maps_to(state.children@, name@, c) implies has_name(
                    state.children@,
                    name@,
                ) by {
                    let a = choose|a: int|
                        0 <= a < state.children@.len() && #[trigger] state.children@[a] == (name@, c);
                    assert(state.children@[a].0 == name@);
                }
            }
            None
        },
        Some(child) => {
            proof {
                assert forall|c: ReaddirChildState| #[trigger] maps_to(state.children@, name@, c) implies c == *child by {
                    let a = choose|a: int|
                        0 <= a < state.children@.len() && #[trigger] state.children@[a] == (name@, c);
                    let b = choose|b: int|
                        0 <= b < state.children@.len() && #[trigger] state.children@[b] == (name@, *child);
                    lemma_one_row(state.children@, a, b);
                }
            }
            match child_decision {
                ChildDecision::Hide => None,
                ChildDecision::ShowReal => real_shown(&child.real),
                ChildDecision::ShowFuse => fuse_shown(&child.fuse),
                ChildDecision::DontCareCollision => {
                    if child.real.is_some() {
                        real_shown(&child.real)
                    } else {
                        fuse_shown(&child.fuse)
                    }
                },
            }
        },
    }
}

} // verus!
