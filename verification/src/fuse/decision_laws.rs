//! What the decisions promise together.

use crate::fuse::decision::{
    decides, decision_for, is_whited_out, open_decision, open_steps, readlink_decision,
    rename_decision, row_fault, rows_sound, setattr_decision, stat_decision, visible_item,
    ChildDecision, OpenDecision, OpenTransitionStep, ReaddirDecision, ReadlinkDecision,
    RenameDecision, SetattrDecision, StatDecision,
};
use crate::fuse::policy::AccessMode;
use crate::fuse::state::{OpenState, ReaddirChildState, ReaddirState, SetattrState};
use crate::names::{has_name, maps_to};
use crate::syncing::proto::FuseEntry;
use vstd::prelude::*;

verus! {

/// A whiteout hides a path: it cannot be opened and does not show in listings
/// under any mode, and is neither found nor read as a link unless the path passes
/// through to the host.
pub proof fn law_whiteout_hides(
    state: OpenState,
    mode: AccessMode,
    real_exists: bool,
    entry: Option<FuseEntry>,
    child: ReaddirChildState,
)
    requires
        is_whited_out(state.fuse_entry),
        is_whited_out(entry),
        child.fuse is Some,
        child.fuse->0.entry_type is Whiteout,
    ensures
        open_decision(state) == OpenDecision::NotFound,
        decision_for(mode, child) == ChildDecision::Hide,
        !(mode is Passthrough) ==> stat_decision(mode, real_exists, entry) == StatDecision::NotFound,
        !(mode is Passthrough) ==> readlink_decision(mode, entry) == ReadlinkDecision::NotFound,
{
}

/// A path of the sandbox's own is never looked up, opened, listed or read on the
/// host, and is never filled from it.
pub proof fn law_fuse_only_never_host(
    state: OpenState,
    real_exists: bool,
    entry: Option<FuseEntry>,
    child: ReaddirChildState,
)
    requires
        state.access_mode is FuseOnly,
    ensures
        !(open_decision(state) is OpenReal),
        open_decision(state) matches OpenDecision::OpenObject { copy_up_from_real, .. } ==> !copy_up_from_real,
        stat_decision(AccessMode::FuseOnly, real_exists, entry) != StatDecision::UseReal,
        readlink_decision(AccessMode::FuseOnly, entry) != ReadlinkDecision::UseReal,
        decision_for(AccessMode::FuseOnly, child) != ChildDecision::ShowReal,
        decision_for(AccessMode::FuseOnly, child) != ChildDecision::DontCareCollision,
{
}

/// Only a path that passes through is written on the host: any other is opened for
/// writing on an object, renamed in the sandbox and, without an open handle, has
/// its attributes changed in the sandbox.
pub proof fn law_only_passthrough_writes_host(
    state: OpenState,
    entry: Option<FuseEntry>,
    attr: SetattrState,
)
    requires
        !(state.access_mode is Passthrough),
        !(attr.access_mode is Passthrough),
    ensures
        state.need_write ==> open_decision(state) is NotFound || open_decision(state) is OpenObject,
        rename_decision(state.access_mode, entry) != RenameDecision::RenameReal,
        setattr_decision(attr) != SetattrDecision::UpdateRealFs,
{
}

/// Opening always succeeds in choosing where a path passes through or is the
/// sandbox's own; a copy-on-write path errs only where it is read and its contents
/// are known but cannot be found.
pub proof fn law_open_by_mode(state: OpenState)
    requires
        !is_whited_out(state.fuse_entry),
    ensures
        state.access_mode is Passthrough ==> open_decision(state) == OpenDecision::OpenReal,
        state.access_mode is FuseOnly ==> open_decision(state) is OpenObject,
        state.access_mode is CopyOnWrite && state.need_write ==> open_decision(state) is OpenObject,
        open_decision(state) is Error ==> state.access_mode is CopyOnWrite && !state.need_write
            && state.object_path is None,
{
}

/// The order of the steps of opening a file.
pub open spec fn step_rank(step: OpenTransitionStep) -> int {
    match step {
        OpenTransitionStep::RejectWhiteout => 0,
        OpenTransitionStep::OpenReal => 1,
        OpenTransitionStep::ErrorMissingObjectPath => 1,
        OpenTransitionStep::EnsureObject => 2,
        OpenTransitionStep::CopyUpFromReal => 3,
        OpenTransitionStep::DeleteWhiteout => 4,
        OpenTransitionStep::OpenObject => 5,
    }
}

/// The steps of opening a file are never empty, come in order, hold each kind of
/// step exactly where the decision asks for it, and fill an object from the host
/// only right after making it.
pub proof fn law_open_steps(state: OpenState)
    ensures
        ({
            let decision = open_decision(state);
            let steps = open_steps(decision);
            &&& steps.len() > 0
            &&& forall|i: int, j: int|
                0 <= i < j < steps.len() ==> step_rank(#[trigger] steps[i]) < step_rank(#[trigger] steps[j])
            &&& (decision is NotFound <==> steps == seq![OpenTransitionStep::RejectWhiteout])
            &&& (decision is Error <==> steps == seq![OpenTransitionStep::ErrorMissingObjectPath])
            &&& (decision is OpenReal <==> steps == seq![OpenTransitionStep::OpenReal])
            &&& (decision matches OpenDecision::OpenObject {
                needs_ensure,
                copy_up_from_real,
                delete_whiteout,
                ..
            } ==> {
                &&& steps.last() == OpenTransitionStep::OpenObject
                &&& steps.contains(OpenTransitionStep::EnsureObject) == needs_ensure
                &&& steps.contains(OpenTransitionStep::CopyUpFromReal) == copy_up_from_real
                &&& steps.contains(OpenTransitionStep::DeleteWhiteout) == delete_whiteout
                &&& copy_up_from_real ==> needs_ensure
            })
        }),
{
    let decision = open_decision(state);
    let steps = open_steps(decision);
    match decision {
        OpenDecision::NotFound => {
            assert(steps[0] == OpenTransitionStep::RejectWhiteout);
        },
        OpenDecision::Error => {
            assert(steps[0] == OpenTransitionStep::ErrorMissingObjectPath);
        },
        OpenDecision::OpenReal => {
            assert(steps[0] == OpenTransitionStep::OpenReal);
        },
        OpenDecision::OpenObject { existing_object_id, needs_ensure, copy_up_from_real, delete_whiteout } => {
            assert(steps.last() == OpenTransitionStep::OpenObject);
            let a: int = if needs_ensure {
                1
            } else {
                0
            };
            let b: int = if copy_up_from_real {
                1
            } else {
                0
            };
            let c: int = if delete_whiteout {
                1
            } else {
                0
            };
            assert(steps.len() == a + b + c + 1);
            if needs_ensure {
                assert(steps[0] == OpenTransitionStep::EnsureObject);
            }
            if copy_up_from_real {
                assert(steps[a] == OpenTransitionStep::CopyUpFromReal);
            }
            if delete_whiteout {
                assert(steps[a + b] == OpenTransitionStep::DeleteWhiteout);
            }
            assert(steps[a + b + c] == OpenTransitionStep::OpenObject);
            assert(seq![OpenTransitionStep::RejectWhiteout][0] != OpenTransitionStep::OpenObject);
            assert(steps != seq![OpenTransitionStep::RejectWhiteout]) by {
                assert(seq![OpenTransitionStep::RejectWhiteout].last() == OpenTransitionStep::RejectWhiteout);
            }
            assert(steps != seq![OpenTransitionStep::ErrorMissingObjectPath]) by {
                assert(seq![OpenTransitionStep::ErrorMissingObjectPath].last()
                    == OpenTransitionStep::ErrorMissingObjectPath);
            }
            assert(steps != seq![OpenTransitionStep::OpenReal]) by {
                assert(seq![OpenTransitionStep::OpenReal].last() == OpenTransitionStep::OpenReal);
            }
        },
    }
}

/// What is decided for a listing always passes the check of decisions.
pub proof fn law_readdir_decision_valid(state: ReaddirState, decision: ReaddirDecision)
    requires
        decides(state, decision),
    ensures
        rows_sound(state, decision.per_child@, decision.per_child@.len() as int),
{
    let rows = decision.per_child@;
    assert forall|i: int| 0 <= i < rows.len() implies row_fault(state, (#[trigger] rows[i]).0, rows[i].1) is None by {
        let name = state.children@[i].0;
        let child = state.children@[i].1;
        assert(decision.per_child@[i] == (name, decision_for(state.access_mode, child)));
        assert(has_name(state.children@, name));
        assert(maps_to(state.children@, name, child)) by {
            assert(state.children@[i] == (name, child));
        }
    }
}

/// Outside the paths that pass through, a name shows in a listing exactly where
/// looking it up finds something.
pub proof fn law_listing_matches_lookup(
    mode: AccessMode,
    child: ReaddirChildState,
    entry: Option<FuseEntry>,
)
    requires
        !(mode is Passthrough),
        child.fuse is Some <==> entry is Some,
        child.fuse is Some ==> child.fuse->0.entry_type == entry->0.entry_type,
    ensures
        visible_item(child, decision_for(mode, child)) is Some <==> stat_decision(
            mode,
            child.real is Some,
            entry,
        ) != StatDecision::NotFound,
{
}

} // verus!
