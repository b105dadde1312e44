//! The life of a run: the first command of a sandbox starts the daemon, the daemon
//! ends when no command runs any more.

use crate::shm::state::{count_down, count_up, ready_mark, ShmCounters};
use vstd::prelude::*;

verus! {

/// How often the daemon looks whether to end, in milliseconds.
pub const SHUTDOWN_POLL_MILLIS: u64 = 1000;

/// How long a command sleeps between looks at the daemon, in milliseconds.
pub const READY_POLL_MILLIS: u64 = 10;

/// Why a run is refused.
#[derive(Debug, Clone, Copy, PartialEq, Eq, Structural)]
pub enum RunRefusal {
    NoCommand,
}

/// What a command does on entering.
#[derive(Debug, Clone, Copy, PartialEq, Eq, Structural)]
pub enum EnterStep {
    /// Start the daemon while holding the lock.
    StartDaemon,
    /// Let the lock go and wait for the daemon that is there.
    JoinDaemon,
}

/// The counters once a command entered.
pub open spec fn entered(c: ShmCounters) -> ShmCounters {
    ShmCounters {
        running_count: count_up(c.running_count),
        socket_ready: if c.running_count == 0 {
            ready_mark(false)
        } else {
            c.socket_ready
        },
    }
}

/// What a command does on entering: the first starts the daemon.
pub open spec fn enter_step(c: ShmCounters) -> EnterStep {
    if c.running_count == 0 {
        EnterStep::StartDaemon
    } else {
        EnterStep::JoinDaemon
    }
}

/// Enters a run: counts the command, and has it start the daemon where it is the
/// first; the socket is then not ready yet.
pub fn enter_run_lifecycle(counters: &mut ShmCounters) -> (r: EnterStep)
    ensures
        r == enter_step(*old(counters)),
        *final(counters) == entered(*old(counters)),
{
    let previous: u32 = counters.increment();
    if previous == 0 {
        counters.set_socket_ready(false);
        EnterStep::StartDaemon
    } else {
        EnterStep::JoinDaemon
    }
}

/// The counters once a command left.
pub open spec fn left(c: ShmCounters) -> ShmCounters {
    ShmCounters { running_count: count_down(c.running_count), ..c }
}

/// Leaves a run.
pub fn leave_run_lifecycle(counters: &mut ShmCounters)
    ensures
        *final(counters) == left(*old(counters)),
{
    counters.decrement();
}

/// What the daemon makes of a look at the counters.
#[derive(Debug, Clone, Copy, PartialEq, Eq, Structural)]
pub enum PollStep {
    /// Go on serving.
    GoOn,
    /// Write the state out and end.
    Shutdown,
}

/// What a look comes to: the daemon ends where it is time to look and no command runs.
pub open spec fn poll_step(due: bool, running_count: u32) -> PollStep {
    if due && running_count == 0 {
        PollStep::Shutdown
    } else {
        PollStep::GoOn
    }
}

/// Whether it is time for another look at the counters.
pub open spec fn look_due(last: u64, now: u64) -> bool {
    now - last >= SHUTDOWN_POLL_MILLIS
}

/// The counters after a look at them: once the daemon ends, its socket is no longer
/// ready.
pub open spec fn looked_at(step: PollStep, c: ShmCounters) -> ShmCounters {
    match step {
        PollStep::GoOn => c,
        PollStep::Shutdown => ShmCounters { socket_ready: ready_mark(false), ..c },
    }
}

/// When the daemon last looked at the counters, in milliseconds.
#[derive(Debug, Clone, Copy, PartialEq, Eq, Structural)]
pub struct ShmPollLock {
    pub last_check: u64,
}

impl ShmPollLock {
    /// Starts at a time.
    pub fn new(now: u64) -> (r: ShmPollLock)
        ensures
            r.last_check == now,
    {
        ShmPollLock { last_check: now }
    }

    /// Whether it is time to look again.
    pub fn is_due(&self, now: u64) -> (r: bool)
        ensures
            r == look_due(self.last_check, now),
    {
        now >= self.last_check && now - self.last_check >= SHUTDOWN_POLL_MILLIS
    }

    /// Looks at the counters, not more often than once per interval: the daemon ends
    /// where no command runs, and its socket is then no longer ready.
    pub fn poll_shutdown(&mut self, now: u64, counters: &mut ShmCounters) -> (r: PollStep)
        ensures
            ({
                let due = look_due(old(self).last_check, now);
                &&& final(self).last_check == (if due { now } else { old(self).last_check })
                &&& r == poll_step(due, old(counters).running_count)
                &&& *final(counters) == looked_at(r, *old(counters))
            }),
    {
        if !self.is_due(now) {
            return PollStep::GoOn;
        }
        self.last_check = now;
        if counters.get_running_count() != 0 {
            return PollStep::GoOn;
        }
        counters.set_socket_ready(false);
        PollStep::Shutdown
    }
}

/// What a run does to get ready.
#[derive(Debug, Clone, Copy, PartialEq, Eq, Structural)]
pub enum PrepareStage {
    /// Look whether the project has a sandbox.
    Look,
    /// Make one.
    Initialize,
    /// Load what is stored.
    LoadState,
    /// Read the configuration and make the policy of it.
    BuildPolicy,
    /// Open the shared counters.
    OpenCounters,
    /// Make the shared counters.
    CreateCounters,
    /// Go on with the run.
    Ready,
    /// Report what failed.
    Fail,
}

/// What came of it.
#[derive(Debug, Clone, Copy, PartialEq, Eq, Structural)]
pub enum PrepareEvent {
    Found(bool),
    Done,
    Failed,
}

/// What a run does to get ready once something came back: a sandbox that is missing
/// is made, and so are counters that cannot be opened.
pub open spec fn prepare_next(stage: PrepareStage, event: PrepareEvent) -> PrepareStage {
    match (stage, event) {
        (PrepareStage::Look, PrepareEvent::Found(there)) => if there {
            PrepareStage::LoadState
        } else {
            PrepareStage::Initialize
        },
        (PrepareStage::Initialize, PrepareEvent::Done) => PrepareStage::LoadState,
        (PrepareStage::LoadState, PrepareEvent::Done) => PrepareStage::BuildPolicy,
        (PrepareStage::BuildPolicy, PrepareEvent::Done) => PrepareStage::OpenCounters,
        (PrepareStage::OpenCounters, PrepareEvent::Done) => PrepareStage::Ready,
        (PrepareStage::OpenCounters, _) => PrepareStage::CreateCounters,
        (PrepareStage::CreateCounters, PrepareEvent::Done) => PrepareStage::Ready,
        (PrepareStage::Ready, _) => PrepareStage::Ready,
        _ => PrepareStage::Fail,
    }
}

/// Begins to get a run ready.
pub fn prepare_context() -> (r: PrepareStage)
    ensures
        r == PrepareStage::Look,
{
    PrepareStage::Look
}

impl PrepareStage {
    /// Goes on with what came back.
    pub fn resume(self, event: PrepareEvent) -> (r: PrepareStage)
        ensures
            r == prepare_next(self, event),
    {
        match self {
            PrepareStage::Look => match event {
                PrepareEvent::Found(true) => PrepareStage::LoadState,
                PrepareEvent::Found(false) => PrepareStage::Initialize,
                _ => PrepareStage::Fail,
            },
            PrepareStage::Initialize => match event {
                PrepareEvent::Done => PrepareStage::LoadState,
                _ => PrepareStage::Fail,
            },
            PrepareStage::LoadState => match event {
                PrepareEvent::Done => PrepareStage::BuildPolicy,
                _ => PrepareStage::Fail,
            },
            PrepareStage::BuildPolicy => match event {
                PrepareEvent::Done => PrepareStage::OpenCounters,
                _ => PrepareStage::Fail,
            },
            PrepareStage::OpenCounters => match event {
                PrepareEvent::Done => PrepareStage::Ready,
                _ => PrepareStage::CreateCounters,
            },
            PrepareStage::CreateCounters => match event {
                PrepareEvent::Done => PrepareStage::Ready,
                _ => PrepareStage::Fail,
            },
            PrepareStage::Ready => PrepareStage::Ready,
            PrepareStage::Fail => PrepareStage::Fail,
        }
    }
}

/// The stages that getting ready goes through, given what comes back.
pub open spec fn prepare_stages(events: Seq<PrepareEvent>) -> Seq<PrepareStage>
    decreases events.len(),
{
    if events.len() == 0 {
        seq![PrepareStage::Look]
    } else {
        let before = prepare_stages(events.drop_last());
        before.push(prepare_next(before.last(), events.last()))
    }
}

/// A run makes the sandbox where there is none, and only there; it gets ready only
/// with a sandbox that was found or made.
pub proof fn law_run_initializes(events: Seq<PrepareEvent>)
    ensures
        ({
            let stages = prepare_stages(events);
            let found = events.len() > 0 && events[0] == PrepareEvent::Found(true);
            let made = events.len() > 1 && events[0] == PrepareEvent::Found(false) && events[1]
                == PrepareEvent::Done;
            let missing = events.len() > 0 && events[0] == PrepareEvent::Found(false);
            &&& stages.last() is Ready ==> found || made
            &&& stages.contains(PrepareStage::Initialize) <==> missing
        }),
{
    let stages = prepare_stages(events);
    lemma_prepare_stages(events);
    if events.len() == 0 {
        assert(stages[0] is Look);
    }
    if stages.contains(PrepareStage::Initialize) {
        let i = choose|i: int| 0 <= i < stages.len() && stages[i] is Initialize;
        assert(i == 1);
    }
    if events.len() > 0 && events[0] == PrepareEvent::Found(false) {
        assert(stages[1] is Initialize);
    }
}

/// How far getting ready can be after so many answers.
proof fn lemma_prepare_stages(events: Seq<PrepareEvent>)
    ensures
        ({
            let stages = prepare_stages(events);
            let found = events.len() > 0 && events[0] == PrepareEvent::Found(true);
            let made = events.len() > 1 && events[0] == PrepareEvent::Found(false) && events[1]
                == PrepareEvent::Done;
            &&& stages.len() == events.len() + 1
            &&& stages[0] is Look
            &&& events.len() > 0 ==> stages[1] == prepare_next(PrepareStage::Look, events[0])
            &&& forall|i: int| 0 < i < stages.len() ==> !(#[trigger] stages[i] is Look)
            &&& forall|i: int| 0 <= i < stages.len() && i != 1 ==> !(#[trigger] stages[i] is Initialize)
            &&& found || made || stages.last() is Look || stages.last() is Initialize || stages.last() is Fail
        }),
    decreases events.len(),
{
    if events.len() > 0 {
        let init = events.drop_last();
        lemma_prepare_stages(init);
        let before = prepare_stages(init);
        let stages = prepare_stages(events);
        assert forall|i: int| 0 <= i < before.len() implies stages[i] == before[i] by {}
        if events.len() > 1 {
            assert(init[0] == events[0]);
            assert(stages[1] == before[1]);
        } else {
            assert(before.last() == before[0]);
        }
        if events.len() > 2 {
            assert(init[1] == events[1]);
        }
        if events.len() == 2 {
            assert(before.last() == before[1]);
        }
    }
}

/// What a run does next.
#[derive(Debug, Clone, Copy, PartialEq, Eq, Structural)]
pub enum RunStage {
    /// Get ready.
    Prepare,
    /// Enter under the lock.
    Enter,
    /// Start the daemon, still under the lock.
    StartDaemon,
    /// Wait until the daemon's socket is ready.
    WaitReady,
    /// Run the command in the sandbox.
    RunCommand,
    /// Leave, then end with the command's exit code.
    Leave(i32),
    /// Leave, then report what failed.
    GiveBack,
    /// End with an exit code.
    Exit(i32),
    /// Report what failed.
    Fail,
}

/// What came of it.
#[derive(Debug, Clone, Copy, PartialEq, Eq, Structural)]
pub enum RunEvent {
    Done,
    Entered(EnterStep),
    Exited(i32),
    Failed,
}

/// What a run does once something came back: a failure after entering gives the
/// count back before it is reported.
pub open spec fn run_next(stage: RunStage, event: RunEvent) -> RunStage {
    match stage {
        RunStage::Prepare => match event {
            RunEvent::Done => RunStage::Enter,
            _ => RunStage::Fail,
        },
        RunStage::Enter => match event {
            RunEvent::Entered(EnterStep::StartDaemon) => RunStage::StartDaemon,
            RunEvent::Entered(EnterStep::JoinDaemon) => RunStage::WaitReady,
            _ => RunStage::GiveBack,
        },
        RunStage::StartDaemon => match event {
            RunEvent::Done => RunStage::WaitReady,
            _ => RunStage::GiveBack,
        },
        RunStage::WaitReady => match event {
            RunEvent::Done => RunStage::RunCommand,
            _ => RunStage::GiveBack,
        },
        RunStage::RunCommand => match event {
            RunEvent::Exited(code) => RunStage::Leave(code),
            _ => RunStage::GiveBack,
        },
        RunStage::Leave(code) => RunStage::Exit(code),
        RunStage::GiveBack => RunStage::Fail,
        RunStage::Exit(code) => RunStage::Exit(code),
        RunStage::Fail => RunStage::Fail,
    }
}

/// How a run of a command line of so many words begins.
pub open spec fn run_begun(words: nat) -> Result<RunStage, RunRefusal> {
    if words == 0 {
        Err(RunRefusal::NoCommand)
    } else {
        Ok(RunStage::Prepare)
    }
}

/// Begins a run of a command line, which has to name a program.
pub fn cmd_run(cmd_args: &Vec<String>) -> (r: Result<RunStage, RunRefusal>)
    ensures
        r == run_begun(cmd_args@.len()),
{
    if cmd_args.len() == 0 {
        return Err(RunRefusal::NoCommand);
    }
    Ok(RunStage::Prepare)
}

impl RunStage {
    /// Goes on with what came back.
    pub fn resume(self, event: RunEvent) -> (r: RunStage)
        ensures
            r == run_next(self, event),
    {
        match self {
            RunStage::Prepare => match event {
                RunEvent::Done => RunStage::Enter,
                _ => RunStage::Fail,
            },
            RunStage::Enter => match event {
                RunEvent::Entered(EnterStep::StartDaemon) => RunStage::StartDaemon,
                RunEvent::Entered(EnterStep::JoinDaemon) => RunStage::WaitReady,
                _ => RunStage::GiveBack,
            },
            RunStage::StartDaemon => match event {
                RunEvent::Done => RunStage::WaitReady,
                _ => RunStage::GiveBack,
            },
            RunStage::WaitReady => match event {
                RunEvent::Done => RunStage::RunCommand,
                _ => RunStage::GiveBack,
            },
            RunStage::RunCommand => match event {
                RunEvent::Exited(code) => RunStage::Leave(code),
                _ => RunStage::GiveBack,
            },
            RunStage::Leave(code) => RunStage::Exit(code),
            RunStage::GiveBack => RunStage::Fail,
            RunStage::Exit(code) => RunStage::Exit(code),
            RunStage::Fail => RunStage::Fail,
        }
    }
}

/// How a stage changes the count of running commands.
pub open spec fn count_change(stage: RunStage) -> int {
    match stage {
        RunStage::Enter => 1,
        RunStage::Leave(_) => -1,
        RunStage::GiveBack => -1,
        _ => 0,
    }
}

/// The stages that a run goes through, given what comes back.
pub open spec fn run_stages(events: Seq<RunEvent>) -> Seq<RunStage>
    decreases events.len(),
{
    if events.len() == 0 {
        seq![RunStage::Prepare]
    } else {
        let before = run_stages(events.drop_last());
        before.push(run_next(before.last(), events.last()))
    }
}

/// What a sequence of stages adds to the count.
pub open spec fn count_of_stages(stages: Seq<RunStage>) -> int
    decreases stages.len(),
{
    if stages.len() == 0 {
        0
    } else {
        count_of_stages(stages.drop_last()) + count_change(stages.last())
    }
}

/// However a run goes, it counts once while it runs and not at all once it ended:
/// whatever failed on the way, its count is given back exactly once.
pub proof fn law_run_gives_count_back(events: Seq<RunEvent>)
    ensures
        ({
            let stages = run_stages(events);
            let running = stages.last() is Enter || stages.last() is StartDaemon || stages.last() is WaitReady
                || stages.last() is RunCommand;
            count_of_stages(stages) == (if running {
                1int
            } else {
                0int
            })
        }),
    decreases events.len(),
{
    let stages = run_stages(events);
    if events.len() == 0 {
        assert(stages.drop_last() =~= Seq::empty());
        reveal_with_fuel(count_of_stages, 2);
    } else {
        law_run_gives_count_back(events.drop_last());
        assert(stages.drop_last() =~= run_stages(events.drop_last()));
    }
}

/// A run that starts the daemon is the first, and a command runs only once the daemon
/// is ready.
pub proof fn law_command_waits_for_daemon(stage: RunStage, event: RunEvent)
    ensures
        run_next(stage, event) is RunCommand ==> stage is WaitReady && event is Done,
        run_next(stage, event) is StartDaemon ==> stage is Enter && event == RunEvent::Entered(
            EnterStep::StartDaemon,
        ),
{
}

/// The first command of a sandbox, and only the first, starts the daemon, and the
/// socket counts as not ready until it did; whoever comes later leaves the mark alone.
pub proof fn law_first_command_starts_daemon(before: ShmCounters)
    requires
        before.running_count < u32::MAX,
    ensures
        enter_step(before) is StartDaemon <==> before.running_count == 0,
        entered(before).running_count == before.running_count + 1,
        enter_step(before) is StartDaemon ==> entered(before).socket_ready != 1,
        enter_step(before) is JoinDaemon ==> entered(before).socket_ready == before.socket_ready,
{
}

/// Entering and leaving are balanced: a command that entered and left, in its own
/// time or by giving its claim back, leaves the count as it was.
pub proof fn law_enter_leave_balanced(before: ShmCounters)
    ensures
        count_down(entered(before).running_count) == before.running_count,
{
}

/// The counters after commands entered (true) and left (false), one after the other.
pub open spec fn counted(start: u32, events: Seq<bool>) -> u32
    decreases events.len(),
{
    if events.len() == 0 {
        start
    } else {
        let before = counted(start, events.drop_last());
        if events.last() {
            count_up(before)
        } else {
            count_down(before)
        }
    }
}

/// How many of the events are entries.
pub open spec fn entries(events: Seq<bool>) -> int
    decreases events.len(),
{
    if events.len() == 0 {
        0
    } else {
        entries(events.drop_last()) + if events.last() {
            1int
        } else {
            0int
        }
    }
}

/// Whether at every point at least as many commands entered as left, and never more
/// than can be counted at once.
pub open spec fn in_step(events: Seq<bool>) -> bool
    decreases events.len(),
{
    events.len() == 0 || (in_step(events.drop_last()) && 0 <= 2 * entries(events) - events.len() <= u32::MAX)
}

/// However commands come and go, the count is the number of commands that entered
/// and have not left.
pub proof fn law_count_is_running_commands(events: Seq<bool>)
    requires
        in_step(events),
    ensures
        counted(0, events) == 2 * entries(events) - events.len(),
    decreases events.len(),
{
    if events.len() > 0 {
        law_count_is_running_commands(events.drop_last());
    }
}

/// The daemon goes on while any command that entered has not left, and ends at the
/// first look after the last one left.
pub proof fn law_daemon_outlives_commands(events: Seq<bool>)
    requires
        in_step(events),
    ensures
        2 * entries(events) > events.len() ==> forall|due: bool| #[trigger]
            poll_step(due, counted(0, events)) is GoOn,
        2 * entries(events) == events.len() ==> poll_step(true, counted(0, events)) is Shutdown,
{
    law_count_is_running_commands(events);
}

} // verus!
