//! Starting the daemon: what its parent makes of what it sees while it waits.

use crate::errno::{ECHILD, EIO, EPIPE, ETIMEDOUT};
use vstd::prelude::*;

verus! {

/// How long the parent waits for the daemon, in seconds.
pub const READY_TIMEOUT_SECS: u64 = 15;

/// How long the parent sleeps between looks, in milliseconds.
pub const READY_POLL_MILLIS: u64 = 10;

/// What reading the daemon's signal came to.
#[derive(Debug, Clone, Copy, PartialEq, Eq, Structural)]
pub enum ReadyRead {
    Bytes(usize),
    WouldBlock,
    Interrupted,
    Failed,
}

/// What became of a child process.
#[derive(Debug, Clone, Copy, PartialEq, Eq, Structural)]
pub enum ChildStatus {
    StillAlive,
    Exited(i32),
    Signaled(i32),
    /// Some other change.
    Changed,
    /// Asking failed with an error number.
    Failed(i32),
}

/// What the parent does while it waits.
#[derive(Debug, Clone, Copy, PartialEq, Eq, Structural)]
pub enum ReadyWait {
    /// Read the daemon's signal.
    Read,
    /// Ask what became of the daemon.
    Child,
    /// Ask whether the deadline has passed.
    Clock,
    Sleep,
}

/// What it sees.
#[derive(Debug, Clone, Copy, PartialEq, Eq, Structural)]
pub enum ReadyEvent {
    Read(ReadyRead),
    Child(ChildStatus),
    Clock { past_deadline: bool },
    Slept,
}

/// What it does next.
#[derive(Debug, Clone, Copy, PartialEq, Eq, Structural)]
pub enum ReadyNext {
    Do(ReadyWait),
    Ready,
    /// The daemon did not come up; the error number says why.
    Failed(i32),
}

/// What the parent does next: one byte means that the daemon is ready, an end of the
/// stream that it is gone; otherwise it goes on while the daemon lives and the
/// deadline has not passed.
pub open spec fn ready_next(wait: ReadyWait, event: ReadyEvent) -> ReadyNext {
    match (wait, event) {
        (ReadyWait::Read, ReadyEvent::Read(ReadyRead::Bytes(n))) => if n == 1 {
            ReadyNext::Ready
        } else if n == 0 {
            ReadyNext::Failed(EPIPE)
        } else {
            ReadyNext::Do(ReadyWait::Child)
        },
        (ReadyWait::Read, ReadyEvent::Read(ReadyRead::WouldBlock)) => ReadyNext::Do(ReadyWait::Child),
        (ReadyWait::Read, ReadyEvent::Read(ReadyRead::Interrupted)) => ReadyNext::Do(
            ReadyWait::Child,
        ),
        (ReadyWait::Child, ReadyEvent::Child(ChildStatus::StillAlive)) => ReadyNext::Do(
            ReadyWait::Clock,
        ),
        (ReadyWait::Child, ReadyEvent::Child(ChildStatus::Failed(e))) => ReadyNext::Failed(e),
        (ReadyWait::Child, ReadyEvent::Child(_)) => ReadyNext::Failed(ECHILD),
        (ReadyWait::Clock, ReadyEvent::Clock { past_deadline }) => if past_deadline {
            ReadyNext::Failed(ETIMEDOUT)
        } else {
            ReadyNext::Do(ReadyWait::Sleep)
        },
        (ReadyWait::Sleep, _) => ReadyNext::Do(ReadyWait::Read),
        _ => ReadyNext::Failed(EIO),
    }
}

impl ReadyWait {
    /// Goes on with what was seen.
    pub fn resume(self, event: ReadyEvent) -> (r: ReadyNext)
        ensures
            r == ready_next(self, event),
    {
        match self {
            ReadyWait::Read => match event {
                ReadyEvent::Read(read) => match read {
                    ReadyRead::Bytes(n) => {
                        if n == 1 {
                            ReadyNext::Ready
                        } else if n == 0 {
                            ReadyNext::Failed(EPIPE)
                        } else {
                            ReadyNext::Do(ReadyWait::Child)
                        }
                    },
                    ReadyRead::WouldBlock => ReadyNext::Do(ReadyWait::Child),
                    ReadyRead::Interrupted => ReadyNext::Do(ReadyWait::Child),
                    ReadyRead::Failed => ReadyNext::Failed(EIO),
                },
                _ => ReadyNext::Failed(EIO),
            },
            ReadyWait::Child => match event {
                ReadyEvent::Child(child) => match child {
                    ChildStatus::StillAlive => ReadyNext::Do(ReadyWait::Clock),
                    ChildStatus::Failed(e) => ReadyNext::Failed(e),
                    ChildStatus::Exited(_) => ReadyNext::Failed(ECHILD),
                    ChildStatus::Signaled(_) => ReadyNext::Failed(ECHILD),
                    ChildStatus::Changed => ReadyNext::Failed(ECHILD),
                },
                _ => ReadyNext::Failed(EIO),
            },
            ReadyWait::Clock => match event {
                ReadyEvent::Clock { past_deadline } => if past_deadline {
                    ReadyNext::Failed(ETIMEDOUT)
                } else {
                    ReadyNext::Do(ReadyWait::Sleep)
                },
                _ => ReadyNext::Failed(EIO),
            },
            ReadyWait::Sleep => ReadyNext::Do(ReadyWait::Read),
        }
    }
}

/// The daemon counts as ready only where it said so, and the wait goes on to sleep
/// only where it lives and time is left.
pub proof fn law_ready_is_signalled(wait: ReadyWait, event: ReadyEvent)
    ensures
        ready_next(wait, event) is Ready <==> wait is Read && event == ReadyEvent::Read(
            ReadyRead::Bytes(1),
        ),
        ready_next(wait, event) == ReadyNext::Do(ReadyWait::Clock) ==> event == ReadyEvent::Child(
            ChildStatus::StillAlive,
        ),
        ready_next(wait, event) == ReadyNext::Do(ReadyWait::Sleep) ==> event == (ReadyEvent::Clock {
            past_deadline: false,
        }),
{
}

/// The wait for a daemon that lives goes round until it is ready: where nothing came yet
/// the daemon is looked at, where it lives the clock, and where time is left it is read
/// again.  It fails where the stream ended, where the daemon is gone, and where time is
/// up, each with its error number.
pub proof fn law_wait_goes_round(event: ReadyEvent, code: i32)
    ensures
        ready_next(ReadyWait::Read, ReadyEvent::Read(ReadyRead::Bytes(1))) == ReadyNext::Ready,
        ready_next(ReadyWait::Read, ReadyEvent::Read(ReadyRead::WouldBlock)) == ReadyNext::Do(
            ReadyWait::Child,
        ),
        ready_next(ReadyWait::Read, ReadyEvent::Read(ReadyRead::Interrupted)) == ReadyNext::Do(
            ReadyWait::Child,
        ),
        ready_next(ReadyWait::Child, ReadyEvent::Child(ChildStatus::StillAlive)) == ReadyNext::Do(
            ReadyWait::Clock,
        ),
        ready_next(ReadyWait::Clock, ReadyEvent::Clock { past_deadline: false }) == ReadyNext::Do(
            ReadyWait::Sleep,
        ),
        ready_next(ReadyWait::Sleep, event) == ReadyNext::Do(ReadyWait::Read),
        ready_next(ReadyWait::Read, ReadyEvent::Read(ReadyRead::Bytes(0))) == ReadyNext::Failed(32),
        ready_next(ReadyWait::Read, ReadyEvent::Read(ReadyRead::Failed)) == ReadyNext::Failed(5),
        ready_next(ReadyWait::Child, ReadyEvent::Child(ChildStatus::Exited(code)))
            == ReadyNext::Failed(10),
        ready_next(ReadyWait::Child, ReadyEvent::Child(ChildStatus::Signaled(code)))
            == ReadyNext::Failed(10),
        ready_next(ReadyWait::Child, ReadyEvent::Child(ChildStatus::Failed(code)))
            == ReadyNext::Failed(code),
        ready_next(ReadyWait::Clock, ReadyEvent::Clock { past_deadline: true }) == ReadyNext::Failed(
            110,
        ),
{
}

} // verus!
