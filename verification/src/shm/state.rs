//! The counters that the processes of a sandbox share: how many commands run, and
//! whether the daemon's socket is ready.

use vstd::prelude::*;

verus! {

/// The size of a segment.
pub const SHM_LAYOUT_SIZE: usize = 64;

/// The shared counters, as they are read and written under the lock.
#[derive(Debug, Clone, Copy, PartialEq, Eq, Structural)]
pub struct ShmCounters {
    pub running_count: u32,
    pub socket_ready: u32,
}

/// The count after one more; after the last number comes zero.
pub open spec fn count_up(n: u32) -> u32 {
    if n == u32::MAX {
        0
    } else {
        (n + 1) as u32
    }
}

/// The count after one less; before zero comes the last number.
pub open spec fn count_down(n: u32) -> u32 {
    if n == 0 {
        u32::MAX
    } else {
        (n - 1) as u32
    }
}

/// The mark for a socket that is ready or not.
pub open spec fn ready_mark(ready: bool) -> u32 {
    if ready {
        1
    } else {
        0
    }
}

/// Whether the mark says that the socket is ready.
pub open spec fn marked_ready(c: ShmCounters) -> bool {
    c.socket_ready == 1
}

/// The counters of a new segment.
pub open spec fn counters_new() -> ShmCounters {
    ShmCounters { running_count: 0, socket_ready: 0 }
}

/// A socket counts as ready exactly where it was marked so last; a new segment counts no
/// command and no ready socket; counting up and down by one is undone by the other.
pub proof fn law_counters(c: ShmCounters, ready: bool, n: u32)
    ensures
        marked_ready(ShmCounters { socket_ready: ready_mark(ready), ..c }) <==> ready,
        !marked_ready(counters_new()),
        counters_new().running_count == 0,
        count_down(count_up(n)) == n,
        count_up(count_down(n)) == n,
        n < u32::MAX ==> count_up(n) == n + 1,
{
}

impl ShmCounters {
    /// The counters of a new segment.
    pub fn new() -> (r: ShmCounters)
        ensures
            r == counters_new(),
    {
        ShmCounters { running_count: 0, socket_ready: 0 }
    }

    /// Whether the daemon's socket is ready.
    pub fn is_socket_ready(&self) -> (r: bool)
        ensures
            r == marked_ready(*self),
    {
        self.socket_ready == 1
    }

    /// Marks the daemon's socket as ready or not.
    pub fn set_socket_ready(&mut self, ready: bool)
        ensures
            *final(self) == (ShmCounters { socket_ready: ready_mark(ready), ..*old(self) }),
    {
        self.socket_ready = if ready {
            1
        } else {
            0
        };
    }

    /// How many commands run.
    pub fn get_running_count(&self) -> (r: u32)
        ensures
            r == self.running_count,
    {
        self.running_count
    }

    /// Counts one more running command, and says how many ran before.
    pub fn increment(&mut self) -> (r: u32)
        ensures
            r == old(self).running_count,
            *final(self) == (ShmCounters {
                running_count: count_up(old(self).running_count),
                ..*old(self)
            }),
    {
        let previous: u32 = self.running_count;
        self.running_count = if previous == u32::MAX {
            0
        } else {
            previous + 1
        };
        previous
    }

    /// Counts one running command less.
    pub fn decrement(&mut self)
        ensures
            *final(self) == (ShmCounters {
                running_count: count_down(old(self).running_count),
                ..*old(self)
            }),
    {
        let n: u32 = self.running_count;
        self.running_count = if n == 0 {
            u32::MAX
        } else {
            n - 1
        };
    }
}

} // verus!
