//! What setting up a command and passing its bytes on promise.

use crate::cli::relay::{
    exit_code_of, relay_next, relay_start, write_run_after, write_step, write_step_after, Relay,
    RelayDo, RelayEvent, RelayWait, WriteResult, WriteRun, WriteStep,
};
use crate::cli::sandbox::{
    exec_steps, fuse_next, setup_next, setup_stages, terminal_open, ExecStep, FuseEvent, FuseNext,
    FuseWait, FuseWaitError, SetupStage,
};
use crate::syncing::start::ChildStatus;
use vstd::prelude::*;

verus! {

/// Where every step succeeds the command is executed, after seven steps; a step that
/// fails ends the process with a failure, whichever it is, and so does a command that
/// could not be executed.
pub proof fn law_setup_reaches_the_command(outcomes: Seq<bool>, stage: SetupStage)
    ensures
        outcomes.len() == 7 && (forall|i: int| 0 <= i < outcomes.len() ==> #[trigger] outcomes[i])
            ==> setup_stages(outcomes).last() == SetupStage::Execute,
        !(stage is Exit) ==> setup_next(stage, false) == SetupStage::Exit(1),
        setup_next(SetupStage::Execute, true) == SetupStage::Exit(1),
        stage is Exit ==> setup_next(stage, true) == stage && setup_next(stage, false) == stage,
{
    if outcomes.len() == 7 && (forall|i: int| 0 <= i < outcomes.len() ==> #[trigger] outcomes[i]) {
        lemma_setup_goes_on(outcomes, 7);
        assert(outcomes.take(7) =~= outcomes);
    }
}

proof fn lemma_setup_goes_on(outcomes: Seq<bool>, k: int)
    requires
        0 <= k <= 7,
        outcomes.len() == 7,
        forall|i: int| 0 <= i < outcomes.len() ==> #[trigger] outcomes[i],
    ensures
        setup_stages(outcomes.take(k)).last() == seq![
            SetupStage::UserNamespace,
            SetupStage::MountNamespace,
            SetupStage::StartFuse,
            SetupStage::WaitFuse,
            SetupStage::PrepareRoot,
            SetupStage::FilterCalls,
            SetupStage::DropCapabilities,
            SetupStage::Execute,
        ][k],
    decreases k,
{
    if k > 0 {
        lemma_setup_goes_on(outcomes, k - 1);
        assert(outcomes.take(k).drop_last() =~= outcomes.take(k - 1));
        assert(outcomes.take(k).last() == outcomes[k - 1]);
    }
}

/// The wait for the file system ends well exactly where the mount point has a device of
/// its own, and goes round as long as it has none, its process lives and time is left;
/// else it fails and says why.
pub proof fn law_file_system_is_awaited(parent: u64, mount: u64, code: i32, event: FuseEvent)
    ensures
        fuse_next(
            FuseWait::Probe,
            FuseEvent::Devices { parent: Some(parent), mount: Some(mount) },
        ) == (if mount != parent {
            FuseNext::Mounted
        } else {
            FuseNext::Do(FuseWait::Child)
        }),
        fuse_next(FuseWait::Probe, FuseEvent::Devices { parent: Some(parent), mount: None })
            == FuseNext::Do(FuseWait::Child),
        fuse_next(FuseWait::Child, FuseEvent::Child(ChildStatus::StillAlive)) == FuseNext::Do(
            FuseWait::Clock,
        ),
        fuse_next(FuseWait::Clock, FuseEvent::Clock { past_deadline: false }) == FuseNext::Do(
            FuseWait::Sleep,
        ),
        fuse_next(FuseWait::Sleep, event) == FuseNext::Do(FuseWait::Probe),
        fuse_next(FuseWait::Child, FuseEvent::Child(ChildStatus::Exited(code))) == FuseNext::Failed(
            FuseWaitError::Exited(code),
        ),
        fuse_next(FuseWait::Child, FuseEvent::Child(ChildStatus::Signaled(code))) == FuseNext::Failed(
            FuseWaitError::Killed(code),
        ),
        fuse_next(FuseWait::Child, FuseEvent::Child(ChildStatus::Failed(code))) == FuseNext::Failed(
            FuseWaitError::WaitFailed(code),
        ),
        fuse_next(FuseWait::Clock, FuseEvent::Clock { past_deadline: true }) == FuseNext::Failed(
            FuseWaitError::Timeout,
        ),
{
}

/// The way to a command ends with the command, unless an argument cannot be handed to the
/// system; without a terminal nothing comes before that, and with one all three standard
/// streams are put on the terminal first, which is then closed.
pub proof fn law_way_to_the_command(argv: Seq<String>, stream: i32)
    requires
        forall|i: int, k: int|
            0 <= i < argv.len() && 0 <= k < argv[i]@.len() ==> #[trigger] argv[i]@[k] != '\0',
        0 <= stream <= 2,
    ensures
        exec_steps(argv, false) == seq![ExecStep::Execute],
        exec_steps(argv, true).last() == ExecStep::Execute,
        exec_steps(argv, true).contains(ExecStep::Redirect(stream)),
        exec_steps(argv, true)[exec_steps(argv, true).len() - 2] == ExecStep::CloseTerminal,
        exec_steps(argv, true)[0] == ExecStep::NewSession,
        exec_steps(argv, true)[1] == ExecStep::OpenTerminal,
        exec_steps(argv, true)[2] == ExecStep::ControlTerminal,
{
    assert(!crate::cli::sandbox::some_bad_argument(argv)) by {
        if crate::cli::sandbox::some_bad_argument(argv) {
            let i = choose|i: int|
                0 <= i < argv.len() && crate::shm::region::has_nul(#[trigger] argv[i]@);
            let k = choose|k: int| 0 <= k < argv[i]@.len() && #[trigger] argv[i]@[k] == '\0';
            assert(argv[i]@[k] != '\0');
        }
    }
    assert(exec_steps(argv, false) =~= seq![ExecStep::Execute]);
    let s = exec_steps(argv, true);
    assert(s[5] == ExecStep::Redirect(0) && s[6] == ExecStep::Redirect(1) && s[7]
        == ExecStep::Redirect(2));
}

/// An argument that holds the character zero is refused, and nothing is executed.
pub proof fn law_bad_argument_is_refused(argv: Seq<String>, use_pty: bool, i: int, k: int, n: int)
    requires
        0 <= i < argv.len(),
        0 <= k < argv[i]@.len(),
        argv[i]@[k] == '\0',
        0 <= n < exec_steps(argv, use_pty).len(),
    ensures
        exec_steps(argv, use_pty).last() == ExecStep::RefuseArgument,
        exec_steps(argv, use_pty)[n] != ExecStep::Execute,
{
    assert(crate::shm::region::has_nul(argv[i]@));
}

/// A step that fails while the terminal is open closes it: every step between its opening
/// and its closing.
pub proof fn law_open_terminal_is_closed(argv: Seq<String>, n: int)
    requires
        0 <= n < exec_steps(argv, true).len(),
    ensures
        terminal_open(exec_steps(argv, true)[n]) <==> 1 < n < 8,
{
}

/// What the command writes goes to the terminal, as many bytes as were read, and what is
/// typed goes to the command: nothing is left out and nothing comes twice.
pub proof fn law_bytes_are_passed_on(r: Relay, n: usize, stdin: bool)
    requires
        n > 0,
    ensures
        r.wait is ReadMaster ==> relay_next(r, RelayEvent::Read(n)).1 == RelayDo::WriteStdout(n)
            && relay_next(r, RelayEvent::Read(n)).0.wait is WriteStdout,
        r.wait is ReadStdin ==> relay_next(r, RelayEvent::Read(n)).1 == RelayDo::WriteMaster(n)
            && relay_next(r, RelayEvent::Read(n)).0.wait is WriteMaster,
        r.wait is WriteMaster && r.child_exit is None ==> relay_next(r, RelayEvent::Written).1 == (
        RelayDo::Poll { stdin: r.stdin_open }),
        (r.wait == RelayWait::WriteStdout { stdin: true }) && r.stdin_open ==> relay_next(
            r,
            RelayEvent::Written,
        ).1 == RelayDo::ReadStdin,
        (r.wait == RelayWait::WriteStdout { stdin: false }) && r.child_exit is None ==> relay_next(
            r,
            RelayEvent::Written,
        ).1 == (RelayDo::Poll { stdin: r.stdin_open }),
{
}

/// News are taken in turn: the command is asked for first, then what it wrote is read,
/// then what was typed; a side without news is not read.
pub proof fn law_news_are_read(r: Relay, master: bool, stdin: bool)
    requires
        r.stdin_open,
        r.child_exit is None,
    ensures
        r.wait is Poll ==> relay_next(r, RelayEvent::News { master, stdin }).1 == RelayDo::WaitChild
            && relay_next(r, RelayEvent::News { master, stdin }).0.wait == (RelayWait::Child {
            master,
            stdin,
        }),
        r.wait == (RelayWait::Child { master, stdin }) ==> relay_next(
            r,
            RelayEvent::Child(ChildStatus::StillAlive),
        ).1 == (if master {
            RelayDo::ReadMaster
        } else if stdin {
            RelayDo::ReadStdin
        } else {
            RelayDo::Poll { stdin: true }
        }),
        relay_start().1 == (RelayDo::Poll { stdin: true }),
        relay_start().0.stdin_open,
        relay_start().0.child_exit is None,
        relay_start().0.wait is Poll,
{
}

/// The relay ends with the exit code of the command, and with one where it was killed;
/// what the command still wrote is read first.
pub proof fn law_exit_code_is_passed_on(r: Relay, code: i32, master: bool, stdin: bool)
    requires
        r.wait == (RelayWait::Child { master, stdin }),
    ensures
        ({
            let exited = relay_next(r, RelayEvent::Child(ChildStatus::Exited(code)));
            let killed = relay_next(r, RelayEvent::Child(ChildStatus::Signaled(code)));
            &&& exited.0.child_exit == Some(code)
            &&& killed.0.child_exit == Some(1i32)
            &&& master ==> exited.1 == RelayDo::ReadMaster
            &&& !master && !(stdin && r.stdin_open) ==> exited.1 == RelayDo::Done(code) && killed.1
                == RelayDo::Done(1)
        }),
        exit_code_of(ChildStatus::Exited(code)) == code,
        exit_code_of(ChildStatus::Signaled(code)) == 1,
{
}

/// Where the command closed its side, the relay ends with the exit code that it has, and
/// waits for the command where it has none; that wait ends it with the command's code.
pub proof fn law_closed_command_ends_the_relay(r: Relay, code: i32)
    ensures
        r.wait is ReadMaster && r.child_exit is Some ==> relay_next(r, RelayEvent::Read(0)).1
            == RelayDo::Done(r.child_exit->0),
        r.wait is ReadMaster && r.child_exit is None ==> relay_next(r, RelayEvent::Read(0)).1
            == RelayDo::WaitLast && relay_next(r, RelayEvent::Read(0)).0.wait is LastWait,
        r.wait is LastWait ==> relay_next(r, RelayEvent::Child(ChildStatus::Exited(code))).1
            == RelayDo::Done(code),
        r.wait is ReadStdin ==> !relay_next(r, RelayEvent::Read(0)).0.stdin_open,
        r.wait is ReadStdin && r.child_exit is None ==> relay_next(r, RelayEvent::Read(0)).1 == (
        RelayDo::Poll { stdin: false }),
{
}

/// Writing goes on behind what was written until everything is, tries again where it was
/// interrupted, and gives up where it fails.
pub proof fn law_everything_is_written(w: WriteRun, n: usize, e: i32)
    requires
        w.done + n <= w.len,
    ensures
        write_run_after(w, WriteResult::Wrote(n)).done == w.done + n,
        write_run_after(w, WriteResult::Wrote(n)).len == w.len,
        write_step_after(w, WriteResult::Wrote(n)) is Done <==> w.done + n == w.len,
        w.done + n < w.len ==> write_step_after(w, WriteResult::Wrote(n)) == WriteStep::Write(
            (w.done + n) as usize,
        ),
        write_run_after(w, WriteResult::Interrupted) == w,
        write_step_after(w, WriteResult::Interrupted) == write_step(w),
        write_step_after(w, WriteResult::Failed(e)) == WriteStep::GiveUp(e),
        write_step(w) is Done <==> w.done == w.len,
{
}

} // verus!
