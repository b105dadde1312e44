//! What a run promises from its command line to its exit code.

use crate::cli::run::{
    enter_step, entered, left, look_due, looked_at, poll_step, prepare_next, prepare_stages,
    run_begun, run_next, run_stages, EnterStep, PollStep, PrepareEvent, PrepareStage, RunEvent,
    RunRefusal, RunStage,
};
use crate::shm::state::ShmCounters;
use vstd::prelude::*;

verus! {

/// The events of a run in which nothing fails, up to the command: it gets ready, enters,
/// starts the daemon where it is the first, and waits for it.
pub open spec fn good_events(step: EnterStep) -> Seq<RunEvent> {
    match step {
        EnterStep::StartDaemon => seq![
            RunEvent::Done,
            RunEvent::Entered(EnterStep::StartDaemon),
            RunEvent::Done,
            RunEvent::Done,
        ],
        EnterStep::JoinDaemon => seq![
            RunEvent::Done,
            RunEvent::Entered(EnterStep::JoinDaemon),
            RunEvent::Done,
        ],
    }
}

/// One event more takes a run one stage further.
proof fn lemma_run_push(events: Seq<RunEvent>, event: RunEvent)
    ensures
        run_stages(events.push(event)) == run_stages(events).push(
            run_next(run_stages(events).last(), event),
        ),
{
    assert(events.push(event).drop_last() =~= events);
}

/// A run in which nothing fails runs its command, whether it starts the daemon or joins
/// the one of another command, and ends with the command's exit code: the stages are
/// getting ready, entering, starting the daemon where it is the first, waiting, the
/// command, leaving and the end.
pub proof fn law_good_run_runs_its_command(step: EnterStep, code: i32, last: RunEvent)
    ensures
        run_stages(good_events(step)).last() == RunStage::RunCommand,
        run_stages(good_events(step).push(RunEvent::Exited(code))).last() == RunStage::Leave(code),
        run_stages(good_events(step).push(RunEvent::Exited(code)).push(last)).last() == RunStage::Exit(
            code,
        ),
        run_stages(good_events(step)).contains(RunStage::StartDaemon) <==> step is StartDaemon,
        run_stages(good_events(step)).contains(RunStage::WaitReady),
        run_stages(good_events(step)).contains(RunStage::Enter),
{
    let none = Seq::<RunEvent>::empty();
    let e1 = none.push(RunEvent::Done);
    let e2 = e1.push(RunEvent::Entered(step));
    let e3 = e2.push(RunEvent::Done);
    let e4 = e3.push(RunEvent::Done);
    lemma_run_push(none, RunEvent::Done);
    lemma_run_push(e1, RunEvent::Entered(step));
    lemma_run_push(e2, RunEvent::Done);
    lemma_run_push(e3, RunEvent::Done);
    let events = good_events(step);
    let s = run_stages(events);
    match step {
        EnterStep::StartDaemon => {
            assert(events =~= e4);
            assert(s =~= seq![
                RunStage::Prepare,
                RunStage::Enter,
                RunStage::StartDaemon,
                RunStage::WaitReady,
                RunStage::RunCommand,
            ]);
            assert(s[1] == RunStage::Enter && s[2] == RunStage::StartDaemon && s[3]
                == RunStage::WaitReady);
        },
        EnterStep::JoinDaemon => {
            assert(events =~= e3);
            assert(s =~= seq![
                RunStage::Prepare,
                RunStage::Enter,
                RunStage::WaitReady,
                RunStage::RunCommand,
            ]);
            assert(s[1] == RunStage::Enter && s[2] == RunStage::WaitReady);
        },
    }
    lemma_run_push(events, RunEvent::Exited(code));
    lemma_run_push(events.push(RunEvent::Exited(code)), last);
}

/// A command line without words is refused, and any other begins a run.
pub proof fn law_run_needs_a_command(words: nat)
    ensures
        run_begun(words) is Ok <==> words > 0,
        words > 0 ==> run_begun(words) == Ok::<RunStage, RunRefusal>(run_stages(Seq::empty()).last()),
{
}

/// What a failure does to a run: before it entered, it ends; after that, it gives its
/// count back and then ends; once the command ran, its exit code is what counts.
pub proof fn law_failed_run_ends(stage: RunStage, event: RunEvent)
    ensures
        run_next(RunStage::Prepare, RunEvent::Failed) == RunStage::Fail,
        stage is Enter || stage is StartDaemon || stage is WaitReady || stage is RunCommand ==> run_next(
            stage,
            RunEvent::Failed,
        ) == RunStage::GiveBack,
        run_next(RunStage::GiveBack, event) == RunStage::Fail,
        stage matches RunStage::Leave(code) ==> run_next(stage, event) == RunStage::Exit(code),
        stage is Exit || stage is Fail ==> run_next(stage, event) == stage,
{
}

/// A run never fails without a failure: it goes on at every stage where the work of the
/// stage was done.
pub proof fn law_done_work_goes_on(stage: RunStage, step: EnterStep, code: i32)
    ensures
        stage is Prepare || stage is StartDaemon || stage is WaitReady ==> !(run_next(
            stage,
            RunEvent::Done,
        ) is Fail) && !(run_next(stage, RunEvent::Done) is GiveBack),
        stage is Enter ==> !(run_next(stage, RunEvent::Entered(step)) is Fail) && !(run_next(
            stage,
            RunEvent::Entered(step),
        ) is GiveBack),
        stage is RunCommand ==> run_next(stage, RunEvent::Exited(code)) == RunStage::Leave(code),
{
}

/// One answer more takes getting ready one stage further.
proof fn lemma_prepare_push(events: Seq<PrepareEvent>, event: PrepareEvent)
    ensures
        prepare_stages(events.push(event)) == prepare_stages(events).push(
            prepare_next(prepare_stages(events).last(), event),
        ),
{
    assert(events.push(event).drop_last() =~= events);
}

/// Getting ready succeeds where nothing fails, with a sandbox that was there or made now,
/// and with counters that could be opened or were made now: the sandbox is looked for,
/// made where it is missing, its state loaded, its policy built and its counters had.
pub proof fn law_good_run_gets_ready(there: bool, opens: bool)
    ensures
        ({
            let found = seq![PrepareEvent::Found(there)];
            let made = if there {
                found
            } else {
                found.push(PrepareEvent::Done)
            };
            let built = made.push(PrepareEvent::Done).push(PrepareEvent::Done);
            let ready = if opens {
                built.push(PrepareEvent::Done)
            } else {
                built.push(PrepareEvent::Failed).push(PrepareEvent::Done)
            };
            &&& prepare_stages(made).last() == PrepareStage::LoadState
            &&& prepare_stages(made.push(PrepareEvent::Done)).last() == PrepareStage::BuildPolicy
            &&& prepare_stages(built).last() == PrepareStage::OpenCounters
            &&& prepare_stages(ready).last() == PrepareStage::Ready
        }),
{
    let none = Seq::<PrepareEvent>::empty();
    let found = seq![PrepareEvent::Found(there)];
    assert(found =~= none.push(PrepareEvent::Found(there)));
    lemma_prepare_push(none, PrepareEvent::Found(there));
    lemma_prepare_push(found, PrepareEvent::Done);
    let made = if there {
        found
    } else {
        found.push(PrepareEvent::Done)
    };
    let loaded = made.push(PrepareEvent::Done);
    let built = loaded.push(PrepareEvent::Done);
    lemma_prepare_push(made, PrepareEvent::Done);
    lemma_prepare_push(loaded, PrepareEvent::Done);
    lemma_prepare_push(built, PrepareEvent::Done);
    lemma_prepare_push(built, PrepareEvent::Failed);
    lemma_prepare_push(built.push(PrepareEvent::Failed), PrepareEvent::Done);
}

/// Getting ready fails where looking, making, loading, building or making counters does.
pub proof fn law_failed_preparation_ends(stage: PrepareStage, event: PrepareEvent)
    ensures
        stage is Look || stage is Initialize || stage is LoadState || stage is BuildPolicy
            || stage is CreateCounters ==> prepare_next(stage, PrepareEvent::Failed)
            == PrepareStage::Fail,
        prepare_next(PrepareStage::OpenCounters, PrepareEvent::Failed) == PrepareStage::CreateCounters,
        stage is Fail || stage is Ready ==> prepare_next(stage, event) == stage,
{
}

/// The counters around a command: entering counts one up, leaving one down, and leaving
/// changes nothing else; a command enters as the first exactly where none runs.
pub proof fn law_commands_are_counted(c: ShmCounters)
    ensures
        c.running_count < u32::MAX ==> entered(c).running_count == c.running_count + 1,
        c.running_count > 0 ==> left(c).running_count == c.running_count - 1,
        left(c).socket_ready == c.socket_ready,
        left(entered(c)).running_count == c.running_count,
        enter_step(c) is StartDaemon <==> c.running_count == 0,
        c.running_count > 0 ==> entered(c).socket_ready == c.socket_ready,
        c.running_count == 0 ==> entered(c).socket_ready == 0,
{
}

/// The daemon looks at the counters once a second: not again before a second went by, and
/// again from then on.  It ends only at a look that finds no command running, and then
/// its socket counts as not ready; at any other time it goes on and leaves the counters
/// alone.
pub proof fn law_daemon_looks(last: u64, now: u64, c: ShmCounters)
    ensures
        look_due(last, now) <==> now >= last + 1000,
        !look_due(now, now),
        poll_step(look_due(last, now), c.running_count) is Shutdown <==> now >= last + 1000
            && c.running_count == 0,
        looked_at(PollStep::GoOn, c) == c,
        looked_at(PollStep::Shutdown, c).running_count == c.running_count,
        looked_at(PollStep::Shutdown, c).socket_ready == 0,
{
}

} // verus!
