//! Setting up the process that runs a command.

use crate::cli::run::RunRefusal;
use crate::shm::region::{contains_nul, has_nul};
use crate::syncing::start::ChildStatus;
use vstd::prelude::*;

verus! {

/// How long the set-up waits for the file system, in seconds.
pub const FUSE_READY_TIMEOUT_SECS: u64 = 10;

/// How long it sleeps between looks, in milliseconds.
pub const FUSE_POLL_MILLIS: u64 = 50;

/// Why the file system did not come up.
#[derive(Debug, Clone, Copy, PartialEq, Eq, Structural)]
pub enum FuseWaitError {
    Exited(i32),
    Killed(i32),
    Terminated,
    WaitFailed(i32),
    Timeout,
}

/// What stands for the device of a directory that cannot be asked.
pub const NO_DEVICE: u64 = u64::MAX;

/// Whether the file system is mounted: its device differs from that of the directory
/// above.
pub fn fuse_is_mounted(parent_device: Option<u64>, device: Option<u64>) -> (r: bool)
    ensures
        r == devices_differ(parent_device, device),
{
    let parent: u64 = match parent_device {
        Some(p) => p,
        None => NO_DEVICE,
    };
    match device {
        Some(d) => d != parent,
        None => false,
    }
}

/// What the set-up does while it waits for the file system.
#[derive(Debug, Clone, Copy, PartialEq, Eq, Structural)]
pub enum FuseWait {
    /// Ask for the devices of the mount point and of the directory above.
    Probe,
    /// Ask what became of the process of the file system.
    Child,
    /// Ask whether the deadline has passed.
    Clock,
    Sleep,
}

/// What it sees.
#[derive(Debug, Clone, Copy, PartialEq, Eq, Structural)]
pub enum FuseEvent {
    Devices { parent: Option<u64>, mount: Option<u64> },
    Child(ChildStatus),
    Clock { past_deadline: bool },
    Slept,
}

/// What it does next.
#[derive(Debug, Clone, Copy, PartialEq, Eq, Structural)]
pub enum FuseNext {
    Do(FuseWait),
    Mounted,
    Failed(FuseWaitError),
}

/// Whether devices show that the file system is mounted: that of the mount point
/// differs from that of the directory above.
pub open spec fn devices_differ(parent: Option<u64>, mount: Option<u64>) -> bool {
    match mount {
        Some(d) => match parent {
            Some(p) => d != p,
            None => d != NO_DEVICE,
        },
        None => false,
    }
}

/// What the set-up does next: it goes on while the file system is not mounted, its
/// process lives and the deadline has not passed.
pub open spec fn fuse_next(wait: FuseWait, event: FuseEvent) -> FuseNext {
    match (wait, event) {
        (FuseWait::Probe, FuseEvent::Devices { parent, mount }) => if devices_differ(parent, mount) {
            FuseNext::Mounted
        } else {
            FuseNext::Do(FuseWait::Child)
        },
        (FuseWait::Child, FuseEvent::Child(child)) => match child {
            ChildStatus::StillAlive => FuseNext::Do(FuseWait::Clock),
            ChildStatus::Exited(code) => FuseNext::Failed(FuseWaitError::Exited(code)),
            ChildStatus::Signaled(sig) => FuseNext::Failed(FuseWaitError::Killed(sig)),
            ChildStatus::Changed => FuseNext::Failed(FuseWaitError::Terminated),
            ChildStatus::Failed(e) => FuseNext::Failed(FuseWaitError::WaitFailed(e)),
        },
        (FuseWait::Clock, FuseEvent::Clock { past_deadline }) => if past_deadline {
            FuseNext::Failed(FuseWaitError::Timeout)
        } else {
            FuseNext::Do(FuseWait::Sleep)
        },
        (FuseWait::Sleep, _) => FuseNext::Do(FuseWait::Probe),
        _ => FuseNext::Failed(FuseWaitError::Terminated),
    }
}

impl FuseWait {
    /// Goes on with what was seen.
    pub fn resume(self, event: FuseEvent) -> (r: FuseNext)
        ensures
            r == fuse_next(self, event),
    {
        match self {
            FuseWait::Probe => match event {
                FuseEvent::Devices { parent, mount } => if fuse_is_mounted(parent, mount) {
                    FuseNext::Mounted
                } else {
                    FuseNext::Do(FuseWait::Child)
                },
                _ => FuseNext::Failed(FuseWaitError::Terminated),
            },
            FuseWait::Child => match event {
                FuseEvent::Child(child) => match child {
                    ChildStatus::StillAlive => FuseNext::Do(FuseWait::Clock),
                    ChildStatus::Exited(code) => FuseNext::Failed(FuseWaitError::Exited(code)),
                    ChildStatus::Signaled(sig) => FuseNext::Failed(FuseWaitError::Killed(sig)),
                    ChildStatus::Changed => FuseNext::Failed(FuseWaitError::Terminated),
                    ChildStatus::Failed(e) => FuseNext::Failed(FuseWaitError::WaitFailed(e)),
                },
                _ => FuseNext::Failed(FuseWaitError::Terminated),
            },
            FuseWait::Clock => match event {
                FuseEvent::Clock { past_deadline } => if past_deadline {
                    FuseNext::Failed(FuseWaitError::Timeout)
                } else {
                    FuseNext::Do(FuseWait::Sleep)
                },
                _ => FuseNext::Failed(FuseWaitError::Terminated),
            },
            FuseWait::Sleep => FuseNext::Do(FuseWait::Probe),
        }
    }
}

/// A step of the process that becomes the command.
#[derive(Debug, Clone, Copy, PartialEq, Eq, Structural)]
pub enum SetupStage {
    /// Enter a user namespace.
    UserNamespace,
    /// Enter a mount namespace.
    MountNamespace,
    /// Start the process of the file system.
    StartFuse,
    /// Wait until the file system is mounted.
    WaitFuse,
    /// Make and enter the root.
    PrepareRoot,
    /// Put the filter of system calls in place.
    FilterCalls,
    /// Drop all capabilities.
    DropCapabilities,
    /// Become the command.
    Execute,
    Exit(i32),
}

/// What the process does once a step succeeded or failed: one step after the other,
/// and an end with a failure where one fails; where it did not become the command, it
/// ends with a failure too.
pub open spec fn setup_next(stage: SetupStage, succeeded: bool) -> SetupStage {
    match stage {
        SetupStage::UserNamespace => if succeeded {
            SetupStage::MountNamespace
        } else {
            SetupStage::Exit(1)
        },
        SetupStage::MountNamespace => if succeeded {
            SetupStage::StartFuse
        } else {
            SetupStage::Exit(1)
        },
        SetupStage::StartFuse => if succeeded {
            SetupStage::WaitFuse
        } else {
            SetupStage::Exit(1)
        },
        SetupStage::WaitFuse => if succeeded {
            SetupStage::PrepareRoot
        } else {
            SetupStage::Exit(1)
        },
        SetupStage::PrepareRoot => if succeeded {
            SetupStage::FilterCalls
        } else {
            SetupStage::Exit(1)
        },
        SetupStage::FilterCalls => if succeeded {
            SetupStage::DropCapabilities
        } else {
            SetupStage::Exit(1)
        },
        SetupStage::DropCapabilities => if succeeded {
            SetupStage::Execute
        } else {
            SetupStage::Exit(1)
        },
        SetupStage::Execute => SetupStage::Exit(1),
        SetupStage::Exit(code) => SetupStage::Exit(code),
    }
}

impl SetupStage {
    /// Goes on with whether the step succeeded.
    pub fn resume(self, succeeded: bool) -> (r: SetupStage)
        ensures
            r == setup_next(self, succeeded),
    {
        let next = match self {
            SetupStage::UserNamespace => SetupStage::MountNamespace,
            SetupStage::MountNamespace => SetupStage::StartFuse,
            SetupStage::StartFuse => SetupStage::WaitFuse,
            SetupStage::WaitFuse => SetupStage::PrepareRoot,
            SetupStage::PrepareRoot => SetupStage::FilterCalls,
            SetupStage::FilterCalls => SetupStage::DropCapabilities,
            SetupStage::DropCapabilities => SetupStage::Execute,
            SetupStage::Execute => SetupStage::Exit(1),
            SetupStage::Exit(code) => {
                return SetupStage::Exit(code);
            },
        };
        if succeeded {
            next
        } else {
            SetupStage::Exit(1)
        }
    }
}

/// The stages that the process goes through, given how its steps go.
pub open spec fn setup_stages(outcomes: Seq<bool>) -> Seq<SetupStage>
    decreases outcomes.len(),
{
    if outcomes.len() == 0 {
        seq![SetupStage::UserNamespace]
    } else {
        let before = setup_stages(outcomes.drop_last());
        before.push(setup_next(before.last(), outcomes.last()))
    }
}

/// The position of a stage on the way to the command.
pub open spec fn setup_order() -> Seq<SetupStage> {
    seq![
        SetupStage::UserNamespace,
        SetupStage::MountNamespace,
        SetupStage::StartFuse,
        SetupStage::WaitFuse,
        SetupStage::PrepareRoot,
        SetupStage::FilterCalls,
        SetupStage::DropCapabilities,
        SetupStage::Execute,
    ]
}

/// A command is executed only after every step before it succeeded: in namespaces of
/// its own, in the prepared root, with system calls filtered and without capabilities.
pub proof fn law_command_runs_isolated(outcomes: Seq<bool>)
    ensures
        ({
            let s = setup_stages(outcomes);
            &&& s.last() is Execute ==> s == setup_order() && outcomes.len() == 7 && forall|i: int|
                0 <= i < outcomes.len() ==> #[trigger] outcomes[i]
            &&& !(s.last() is Exit) ==> s.is_prefix_of(setup_order())
        }),
{
    let s = setup_stages(outcomes);
    lemma_setup_prefix(outcomes);
    if s.last() is Execute {
        assert(outcomes.len() == 7);
        assert(s =~= setup_order());
    }
}

/// A way that has not ended is the beginning of the whole way, step by step.
proof fn lemma_setup_prefix(outcomes: Seq<bool>)
    ensures
        setup_stages(outcomes).len() == outcomes.len() + 1,
        !(setup_stages(outcomes).last() is Exit) ==> {
            &&& outcomes.len() < 8
            &&& setup_stages(outcomes) == setup_order().take(outcomes.len() as int + 1)
            &&& forall|i: int| 0 <= i < outcomes.len() ==> #[trigger] outcomes[i]
        },
    decreases outcomes.len(),
{
    let s = setup_stages(outcomes);
    if outcomes.len() == 0 {
        assert(s =~= setup_order().take(1));
    } else {
        let before = outcomes.drop_last();
        lemma_setup_prefix(before);
        if !(s.last() is Exit) {
            assert(!(setup_stages(before).last() is Exit));
            assert(s =~= setup_order().take(outcomes.len() as int + 1));
            assert forall|i: int| 0 <= i < outcomes.len() implies #[trigger] outcomes[i] by {
                if i < before.len() {
                    assert(before[i] == outcomes[i]);
                }
            }
        }
    }
}

/// Echo of characters.
pub const ECHO: u32 = 0o10;

/// Echo of erased characters.
pub const ECHOE: u32 = 0o20;

/// Echo of a line break after a killed line.
pub const ECHOK: u32 = 0o40;

/// Echo of line breaks.
pub const ECHONL: u32 = 0o100;

/// Echo of a killed line.
pub const ECHOKE: u32 = 0o4000;

/// All kinds of echo together.
pub const ECHO_BITS: u32 = 0o4170;

/// The settings of a terminal without any echo; all others stay.
pub fn without_echo(local_flags: u32) -> (r: u32)
    ensures
        r == local_flags & !ECHO_BITS,
        r & ECHO == 0,
        r & ECHOE == 0,
        r & ECHOK == 0,
        r & ECHONL == 0,
        r & ECHOKE == 0,
        r | (local_flags & ECHO_BITS) == local_flags,
{
    let r: u32 = local_flags & !ECHO_BITS;
    assert((local_flags & !0o4170u32) & 0o10u32 == 0 && (local_flags & !0o4170u32) & 0o20u32 == 0 && (
    local_flags & !0o4170u32) & 0o40u32 == 0 && (local_flags & !0o4170u32) & 0o100u32 == 0 && (
    local_flags & !0o4170u32) & 0o4000u32 == 0 && (local_flags & !0o4170u32) | (local_flags
        & 0o4170u32) == local_flags) by (bit_vector);
    r
}

/// A step on the way to the command.
#[derive(Debug, Clone, Copy, PartialEq, Eq, Structural)]
pub enum ExecStep {
    /// Become the leader of a session.
    NewSession,
    OpenTerminal,
    /// Make the terminal the controlling one.
    ControlTerminal,
    ReadSettings,
    /// Write the settings back without echo.
    WriteSettings,
    /// Put the terminal in place of a standard stream.
    Redirect(i32),
    CloseTerminal,
    /// Refuse an argument that the system cannot take.
    RefuseArgument,
    /// Become the command.
    Execute,
}

/// Whether an argument cannot be handed to the system.
pub open spec fn some_bad_argument(argv: Seq<String>) -> bool {
    exists|i: int| 0 <= i < argv.len() && has_nul(#[trigger] argv[i]@)
}

/// The steps that give a process a terminal of its own.
pub open spec fn terminal_steps() -> Seq<ExecStep> {
    seq![
        ExecStep::NewSession,
        ExecStep::OpenTerminal,
        ExecStep::ControlTerminal,
        ExecStep::ReadSettings,
        ExecStep::WriteSettings,
        ExecStep::Redirect(0),
        ExecStep::Redirect(1),
        ExecStep::Redirect(2),
        ExecStep::CloseTerminal,
    ]
}

/// The steps on the way to a command.
pub open spec fn exec_steps(argv: Seq<String>, use_pty: bool) -> Seq<ExecStep> {
    (if use_pty {
        terminal_steps()
    } else {
        Seq::empty()
    }).push(
        if some_bad_argument(argv) {
            ExecStep::RefuseArgument
        } else {
            ExecStep::Execute
        },
    )
}

fn bad_argument(argv: &Vec<String>) -> (r: bool)
    ensures
        r == some_bad_argument(argv@),
{
    let mut i: usize = 0;
    while i < argv.len()
        invariant
            i <= argv.len(),
            forall|k: int| 0 <= k < i ==> !has_nul(#[trigger] argv@[k]@),
        decreases argv.len() - i,
    {
        if contains_nul(argv[i].as_str()) {
            return true;
        }
        i = i + 1;
    }
    false
}

/// Plans the way to a command: first the terminal, where there is one, then the
/// command with its arguments.  The program is the first argument.
pub fn exec_command(argv: &Vec<String>, use_pty: bool) -> (r: Result<Vec<ExecStep>, RunRefusal>)
    ensures
        match r {
            Ok(steps) => argv@.len() > 0 && steps@ == exec_steps(argv@, use_pty),
            Err(e) => argv@.len() == 0 && e == RunRefusal::NoCommand,
        },
{
    if argv.len() == 0 {
        return Err(RunRefusal::NoCommand);
    }
    let mut steps: Vec<ExecStep> = Vec::new();
    if use_pty {
        steps.push(ExecStep::NewSession);
        steps.push(ExecStep::OpenTerminal);
        steps.push(ExecStep::ControlTerminal);
        steps.push(ExecStep::ReadSettings);
        steps.push(ExecStep::WriteSettings);
        steps.push(ExecStep::Redirect(0));
        steps.push(ExecStep::Redirect(1));
        steps.push(ExecStep::Redirect(2));
        steps.push(ExecStep::CloseTerminal);
        assert(steps@ =~= terminal_steps());
    } else {
        assert(steps@ =~= Seq::empty());
    }
    if bad_argument(argv) {
        steps.push(ExecStep::RefuseArgument);
    } else {
        steps.push(ExecStep::Execute);
    }
    Ok(steps)
}

/// Whether the terminal is open while a step is taken.
pub open spec fn terminal_open(step: ExecStep) -> bool {
    step is ControlTerminal || step is ReadSettings || step is WriteSettings || step is Redirect
}

/// Whether the terminal has to be closed where a step fails: it is open from the
/// step after its opening to its closing.
pub fn closes_terminal(step: ExecStep) -> (r: bool)
    ensures
        r == terminal_open(step),
{
    match step {
        ExecStep::ControlTerminal => true,
        ExecStep::ReadSettings => true,
        ExecStep::WriteSettings => true,
        ExecStep::Redirect(_) => true,
        _ => false,
    }
}

/// Whether the command gets a terminal of its own: where both streams are one.
pub fn wants_pty(stdin_is_tty: bool, stdout_is_tty: bool) -> (r: bool)
    ensures
        r == (stdin_is_tty && stdout_is_tty),
{
    stdin_is_tty && stdout_is_tty
}

/// Every failed step between the opening and the closing of the terminal closes it,
/// and no other does: the plan opens it once, before those steps, and closes it once,
/// after them.
pub proof fn law_terminal_is_closed(argv: Seq<String>, i: int)
    requires
        0 <= i < exec_steps(argv, true).len(),
    ensures
        ({
            let step = exec_steps(argv, true)[i];
            (1 < i < 8) == (step is ControlTerminal || step is ReadSettings || step is WriteSettings
                || step is Redirect)
        }),
        exec_steps(argv, true)[i] is OpenTerminal <==> i == 1,
        exec_steps(argv, true)[i] is CloseTerminal <==> i == 8,
{
}

} // verus!
