//! Passing bytes between the terminal and the command, and noticing its end.

use crate::syncing::start::ChildStatus;
use vstd::prelude::*;

verus! {

/// How long a look for new bytes takes at most, in milliseconds.
pub const RELAY_POLL_MILLIS: u16 = 50;

/// How many bytes are passed on at once.
pub const RELAY_BUFFER: usize = 8192;

/// What the relay waits for.
#[derive(Debug, Clone, Copy, PartialEq, Eq, Structural)]
pub enum RelayWait {
    /// News from the terminal or the command.
    Poll,
    /// What became of the command, and which side had news.
    Child { master: bool, stdin: bool },
    /// Bytes of the command, and whether the terminal had news.
    ReadMaster { stdin: bool },
    /// The terminal to take bytes.
    WriteStdout { stdin: bool },
    /// Bytes of the terminal.
    ReadStdin,
    /// The command to take bytes.
    WriteMaster,
    /// The end of the command, after it closed its side.
    LastWait,
}

/// Where the relay stands.
#[derive(Debug, Clone, Copy, PartialEq, Eq, Structural)]
pub struct Relay {
    pub stdin_open: bool,
    pub child_exit: Option<i32>,
    pub wait: RelayWait,
}

/// What came back.
#[derive(Debug, Clone, Copy, PartialEq, Eq, Structural)]
pub enum RelayEvent {
    /// Which sides have news.
    News { master: bool, stdin: bool },
    Child(ChildStatus),
    /// How many bytes were read.
    Read(usize),
    Written,
    /// The work failed with an error number.
    Failed(i32),
}

/// Why the relay gave up.
#[derive(Debug, Clone, Copy, PartialEq, Eq, Structural)]
pub enum RelayError {
    Poll(i32),
    Wait(i32),
    ReadMaster(i32),
    ReadStdin(i32),
    Write(i32),
    /// What came back does not fit what was asked for.
    Confused,
}

/// What the relay does next.
#[derive(Debug, Clone, Copy, PartialEq, Eq, Structural)]
pub enum RelayDo {
    Poll { stdin: bool },
    WaitChild,
    ReadMaster,
    WriteStdout(usize),
    ReadStdin,
    WriteMaster(usize),
    /// Wait until the command ends.
    WaitLast,
    Done(i32),
    GiveUp(RelayError),
}

/// The exit code that stands for the end of a process: its own, one where it was
/// killed or could not be waited for, and otherwise zero.
pub open spec fn exit_code_of(status: ChildStatus) -> i32 {
    match status {
        ChildStatus::Exited(code) => code,
        ChildStatus::Signaled(_) => 1,
        ChildStatus::Failed(_) => 1,
        _ => 0,
    }
}

/// The exit code that stands for the end of a process.
pub fn wait_setup_exit(status: ChildStatus) -> (r: i32)
    ensures
        r == exit_code_of(status),
{
    match status {
        ChildStatus::Exited(code) => code,
        ChildStatus::Signaled(_) => 1,
        ChildStatus::Failed(_) => 1,
        ChildStatus::StillAlive => 0,
        ChildStatus::Changed => 0,
    }
}

/// The relay at its start.
pub open spec fn relay_start() -> (Relay, RelayDo) {
    (
        Relay { stdin_open: true, child_exit: None, wait: RelayWait::Poll },
        RelayDo::Poll { stdin: true },
    )
}

/// The end of a round: done where the command ended, otherwise another look.
pub open spec fn relay_round_end(r: Relay) -> (Relay, RelayDo) {
    match r.child_exit {
        Some(code) => (r, RelayDo::Done(code)),
        None => (Relay { wait: RelayWait::Poll, ..r }, RelayDo::Poll { stdin: r.stdin_open }),
    }
}

/// The terminal's part of a round, where it had news and is still open.
pub open spec fn relay_stdin_part(r: Relay, stdin: bool) -> (Relay, RelayDo) {
    if r.stdin_open && stdin {
        (Relay { wait: RelayWait::ReadStdin, ..r }, RelayDo::ReadStdin)
    } else {
        relay_round_end(r)
    }
}

/// The command's part of a round, where it had news; then the terminal's.
pub open spec fn relay_master_part(r: Relay, master: bool, stdin: bool) -> (Relay, RelayDo) {
    if master {
        (Relay { wait: RelayWait::ReadMaster { stdin }, ..r }, RelayDo::ReadMaster)
    } else {
        relay_stdin_part(r, stdin)
    }
}

/// What the relay gives up with.
pub open spec fn relay_give_up(r: Relay, e: RelayError) -> (Relay, RelayDo) {
    (r, RelayDo::GiveUp(e))
}

/// What the relay does once something came back.
pub open spec fn relay_next(r: Relay, event: RelayEvent) -> (Relay, RelayDo) {
    match r.wait {
        RelayWait::Poll => match event {
            RelayEvent::News { master, stdin } => if r.child_exit is None {
                (Relay { wait: RelayWait::Child { master, stdin }, ..r }, RelayDo::WaitChild)
            } else {
                relay_master_part(r, master, stdin)
            },
            RelayEvent::Failed(e) => relay_give_up(r, RelayError::Poll(e)),
            _ => relay_give_up(r, RelayError::Confused),
        },
        RelayWait::Child { master, stdin } => match event {
            RelayEvent::Child(ChildStatus::Failed(e)) => relay_give_up(r, RelayError::Wait(e)),
            RelayEvent::Child(ChildStatus::Exited(code)) => relay_master_part(
                Relay { child_exit: Some(code), ..r },
                master,
                stdin,
            ),
            RelayEvent::Child(ChildStatus::Signaled(_)) => relay_master_part(
                Relay { child_exit: Some(1), ..r },
                master,
                stdin,
            ),
            RelayEvent::Child(_) => relay_master_part(r, master, stdin),
            _ => relay_give_up(r, RelayError::Confused),
        },
        RelayWait::ReadMaster { stdin } => match event {
            RelayEvent::Read(n) => if n == 0 {
                match r.child_exit {
                    Some(code) => (r, RelayDo::Done(code)),
                    None => (Relay { wait: RelayWait::LastWait, ..r }, RelayDo::WaitLast),
                }
            } else {
                (Relay { wait: RelayWait::WriteStdout { stdin }, ..r }, RelayDo::WriteStdout(n))
            },
            RelayEvent::Failed(e) => relay_give_up(r, RelayError::ReadMaster(e)),
            _ => relay_give_up(r, RelayError::Confused),
        },
        RelayWait::WriteStdout { stdin } => match event {
            RelayEvent::Written => relay_stdin_part(r, stdin),
            RelayEvent::Failed(e) => relay_give_up(r, RelayError::Write(e)),
            _ => relay_give_up(r, RelayError::Confused),
        },
        RelayWait::ReadStdin => match event {
            RelayEvent::Read(n) => if n == 0 {
                relay_round_end(Relay { stdin_open: false, ..r })
            } else {
                (Relay { wait: RelayWait::WriteMaster, ..r }, RelayDo::WriteMaster(n))
            },
            RelayEvent::Failed(e) => relay_give_up(r, RelayError::ReadStdin(e)),
            _ => relay_give_up(r, RelayError::Confused),
        },
        RelayWait::WriteMaster => match event {
            RelayEvent::Written => relay_round_end(r),
            RelayEvent::Failed(e) => relay_give_up(r, RelayError::Write(e)),
            _ => relay_give_up(r, RelayError::Confused),
        },
        RelayWait::LastWait => match event {
            RelayEvent::Child(status) => (r, RelayDo::Done(exit_code_of(status))),
            _ => relay_give_up(r, RelayError::Confused),
        },
    }
}

impl Relay {
    /// A relay, and what it does first.
    pub fn start() -> (r: (Relay, RelayDo))
        ensures
            r == relay_start(),
    {
        (
            Relay { stdin_open: true, child_exit: None, wait: RelayWait::Poll },
            RelayDo::Poll { stdin: true },
        )
    }

    fn waiting(self, wait: RelayWait) -> (r: Relay)
        ensures
            r == (Relay { wait, ..self }),
    {
        Relay { stdin_open: self.stdin_open, child_exit: self.child_exit, wait }
    }

    fn round_end(self) -> (r: (Relay, RelayDo))
        ensures
            r == relay_round_end(self),
    {
        match self.child_exit {
            Some(code) => (self, RelayDo::Done(code)),
            None => (self.waiting(RelayWait::Poll), RelayDo::Poll { stdin: self.stdin_open }),
        }
    }

    fn stdin_part(self, stdin: bool) -> (r: (Relay, RelayDo))
        ensures
            r == relay_stdin_part(self, stdin),
    {
        if self.stdin_open && stdin {
            (self.waiting(RelayWait::ReadStdin), RelayDo::ReadStdin)
        } else {
            self.round_end()
        }
    }

    fn master_part(self, master: bool, stdin: bool) -> (r: (Relay, RelayDo))
        ensures
            r == relay_master_part(self, master, stdin),
    {
        if master {
            (self.waiting(RelayWait::ReadMaster { stdin }), RelayDo::ReadMaster)
        } else {
            self.stdin_part(stdin)
        }
    }

    /// Goes on with what came back.
    pub fn resume(self, event: RelayEvent) -> (r: (Relay, RelayDo))
        ensures
            r == relay_next(self, event),
    {
        match self.wait {
            RelayWait::Poll => match event {
                RelayEvent::News { master, stdin } => if self.child_exit.is_none() {
                    (self.waiting(RelayWait::Child { master, stdin }), RelayDo::WaitChild)
                } else {
                    self.master_part(master, stdin)
                },
                RelayEvent::Failed(e) => (self, RelayDo::GiveUp(RelayError::Poll(e))),
                _ => (self, RelayDo::GiveUp(RelayError::Confused)),
            },
            RelayWait::Child { master, stdin } => match event {
                RelayEvent::Child(status) => match status {
                    ChildStatus::Failed(e) => (self, RelayDo::GiveUp(RelayError::Wait(e))),
                    ChildStatus::Exited(code) => {
                        let ended = Relay {
                            stdin_open: self.stdin_open,
                            child_exit: Some(code),
                            wait: self.wait,
                        };
                        ended.master_part(master, stdin)
                    },
                    ChildStatus::Signaled(_) => {
                        let ended = Relay {
                            stdin_open: self.stdin_open,
                            child_exit: Some(1),
                            wait: self.wait,
                        };
                        ended.master_part(master, stdin)
                    },
                    ChildStatus::StillAlive => self.master_part(master, stdin),
                    ChildStatus::Changed => self.master_part(master, stdin),
                },
                _ => (self, RelayDo::GiveUp(RelayError::Confused)),
            },
            RelayWait::ReadMaster { stdin } => match event {
                RelayEvent::Read(n) => if n == 0 {
                    match self.child_exit {
                        Some(code) => (self, RelayDo::Done(code)),
                        None => (self.waiting(RelayWait::LastWait), RelayDo::WaitLast),
                    }
                } else {
                    (self.waiting(RelayWait::WriteStdout { stdin }), RelayDo::WriteStdout(n))
                },
                RelayEvent::Failed(e) => (self, RelayDo::GiveUp(RelayError::ReadMaster(e))),
                _ => (self, RelayDo::GiveUp(RelayError::Confused)),
            },
            RelayWait::WriteStdout { stdin } => match event {
                RelayEvent::Written => self.stdin_part(stdin),
                RelayEvent::Failed(e) => (self, RelayDo::GiveUp(RelayError::Write(e))),
                _ => (self, RelayDo::GiveUp(RelayError::Confused)),
            },
            RelayWait::ReadStdin => match event {
                RelayEvent::Read(n) => if n == 0 {
                    let closed = Relay {
                        stdin_open: false,
                        child_exit: self.child_exit,
                        wait: self.wait,
                    };
                    closed.round_end()
                } else {
                    (self.waiting(RelayWait::WriteMaster), RelayDo::WriteMaster(n))
                },
                RelayEvent::Failed(e) => (self, RelayDo::GiveUp(RelayError::ReadStdin(e))),
                _ => (self, RelayDo::GiveUp(RelayError::Confused)),
            },
            RelayWait::WriteMaster => match event {
                RelayEvent::Written => self.round_end(),
                RelayEvent::Failed(e) => (self, RelayDo::GiveUp(RelayError::Write(e))),
                _ => (self, RelayDo::GiveUp(RelayError::Confused)),
            },
            RelayWait::LastWait => match event {
                RelayEvent::Child(status) => (self, RelayDo::Done(wait_setup_exit(status))),
                _ => (self, RelayDo::GiveUp(RelayError::Confused)),
            },
        }
    }
}

/// The terminal is never read again once it closed, and once the command ended its
/// exit code is kept.
pub proof fn law_relay_keeps_news(r: Relay, event: RelayEvent)
    ensures
        !r.stdin_open ==> !relay_next(r, event).0.stdin_open,
        !r.stdin_open && !(r.wait is ReadStdin) ==> relay_next(r, event).1 != RelayDo::ReadStdin,
        r.child_exit is Some && !(r.wait is Child) ==> relay_next(r, event).0.child_exit == r.child_exit,
{
}

/// Once the command ended, every round ends the relay with its exit code: no round
/// goes on to another look.
pub proof fn law_relay_ends_with_exit_code(r: Relay, event: RelayEvent, code: i32)
    requires
        r.child_exit == Some(code),
        !(r.wait is Child),
        !(r.wait is LastWait),
    ensures
        !(relay_next(r, event).1 is Poll),
        relay_next(r, event).1 matches RelayDo::Done(c) ==> c == code,
{
}

/// How far writing bytes has come.
#[derive(Debug, Clone, Copy, PartialEq, Eq, Structural)]
pub struct WriteRun {
    pub done: usize,
    pub len: usize,
}

/// What a write came to.
#[derive(Debug, Clone, Copy, PartialEq, Eq, Structural)]
pub enum WriteResult {
    Wrote(usize),
    Interrupted,
    Failed(i32),
}

/// What writing does next.
#[derive(Debug, Clone, Copy, PartialEq, Eq, Structural)]
pub enum WriteStep {
    /// Write what is left from this position on.
    Write(usize),
    Done,
    GiveUp(i32),
}

/// What is written next: what is left, where something is.
pub open spec fn write_step(w: WriteRun) -> WriteStep {
    if w.done < w.len {
        WriteStep::Write(w.done)
    } else {
        WriteStep::Done
    }
}

/// How far writing has come once a write came back.
pub open spec fn write_run_after(w: WriteRun, result: WriteResult) -> WriteRun {
    match result {
        WriteResult::Wrote(n) => WriteRun { done: (w.done + n) as usize, ..w },
        _ => w,
    }
}

/// What writing does once a write came back.
pub open spec fn write_step_after(w: WriteRun, result: WriteResult) -> WriteStep {
    match result {
        WriteResult::Failed(e) => WriteStep::GiveUp(e),
        _ => write_step(write_run_after(w, result)),
    }
}

impl WriteRun {
    /// The position lies within the bytes.
    pub open spec fn wf(&self) -> bool {
        self.done <= self.len
    }

    /// Starts writing a number of bytes.
    pub fn new(len: usize) -> (r: WriteRun)
        ensures
            r.wf(),
            r == (WriteRun { done: 0, len }),
    {
        WriteRun { done: 0, len }
    }

    /// What is written next.
    pub fn next_step(&self) -> (r: WriteStep)
        ensures
            r == write_step(*self),
    {
        if self.done < self.len {
            WriteStep::Write(self.done)
        } else {
            WriteStep::Done
        }
    }

    /// Takes in what a write came to: it is tried again where it was interrupted, and
    /// goes on behind what was written.
    pub fn wrote(&mut self, result: WriteResult) -> (r: WriteStep)
        requires
            old(self).wf(),
            result matches WriteResult::Wrote(n) ==> n <= old(self).len - old(self).done,
        ensures
            final(self).wf(),
            final(self).len == old(self).len,
            *final(self) == write_run_after(*old(self), result),
            r == write_step_after(*old(self), result),
    {
        match result {
            WriteResult::Failed(e) => {
                return WriteStep::GiveUp(e);
            },
            WriteResult::Interrupted => {},
            WriteResult::Wrote(n) => {
                self.done = self.done + n;
            },
        }
        self.next_step()
    }
}

} // verus!
