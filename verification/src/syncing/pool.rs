//! The connections to the daemon that are kept: which one is handed out next.

use vstd::prelude::*;

verus! {

/// A pool of connections.
#[derive(Debug)]
pub struct SyncClientPool<C> {
    idle: Vec<C>,
    total: usize,
    max_size: usize,
}

/// What a pool is: the connections that lie idle, the last of which is handed out
/// next, how many there are, idle or in use, and how many there may be.
#[verifier::ext_equal]
pub struct PoolModel<C> {
    pub idle: Seq<C>,
    pub total: nat,
    pub max_size: nat,
}

/// What taking a connection comes to.
#[derive(Debug)]
pub enum Checkout<C> {
    /// Use this one.
    Reuse(C),
    /// Make a new one.
    Connect,
    /// Wait until one comes back.
    Wait,
}

/// There are never more connections than there may be, and at least one may be.
pub open spec fn pool_ok<C>(m: PoolModel<C>) -> bool {
    m.total <= m.max_size && m.max_size >= 1
}

/// Taking a connection: the one that came back last, or a new one where there may be
/// more.  A new one is counted at once.
pub open spec fn checked_out<C>(m: PoolModel<C>) -> (Checkout<C>, PoolModel<C>) {
    if m.idle.len() > 0 {
        (Checkout::Reuse(m.idle.last()), PoolModel { idle: m.idle.drop_last(), ..m })
    } else if m.total < m.max_size {
        (Checkout::Connect, PoolModel { total: m.total + 1, ..m })
    } else {
        (Checkout::Wait, m)
    }
}

/// The pool after a new connection could not be made.
pub open spec fn not_connected<C>(m: PoolModel<C>) -> PoolModel<C> {
    PoolModel {
        total: if m.total == 0 {
            0
        } else {
            (m.total - 1) as nat
        },
        ..m
    }
}

/// The pool after a connection came back.
pub open spec fn released<C>(m: PoolModel<C>, c: C) -> PoolModel<C> {
    PoolModel { idle: m.idle.push(c), ..m }
}

impl<C> View for SyncClientPool<C> {
    type V = PoolModel<C>;

    closed spec fn view(&self) -> PoolModel<C> {
        PoolModel { idle: self.idle@, total: self.total as nat, max_size: self.max_size as nat }
    }
}

impl<C> SyncClientPool<C> {
    /// A pool of at most `max_size` connections, and of one where that is zero.
    pub fn new(max_size: usize) -> (r: SyncClientPool<C>)
        ensures
            r@ == (PoolModel::<C> {
                idle: Seq::empty(),
                total: 0,
                max_size: if max_size == 0 {
                    1
                } else {
                    max_size as nat
                },
            }),
    {
        let max_size = if max_size == 0 {
            1
        } else {
            max_size
        };
        SyncClientPool { idle: Vec::new(), total: 0, max_size }
    }

    /// Takes a connection.
    pub fn checkout(&mut self) -> (r: Checkout<C>)
        ensures
            r == checked_out(old(self)@).0,
            final(self)@ == checked_out(old(self)@).1,
    {
        match self.idle.pop() {
            Some(c) => Checkout::Reuse(c),
            None => if self.total < self.max_size {
                self.total = self.total + 1;
                Checkout::Connect
            } else {
                Checkout::Wait
            },
        }
    }

    /// Takes in that a new connection could not be made.
    pub fn connect_failed(&mut self)
        ensures
            final(self)@ == not_connected(old(self)@),
    {
        if self.total > 0 {
            self.total = self.total - 1;
        }
    }

    /// Takes a connection back.
    pub fn release(&mut self, c: C)
        ensures
            final(self)@ == released(old(self)@, c),
    {
        self.idle.push(c);
    }
}

/// The number of connections never exceeds the size of the pool, whatever happens to
/// it.
pub proof fn law_pool_is_bounded<C>(m: PoolModel<C>, c: C)
    requires
        pool_ok(m),
    ensures
        pool_ok(checked_out(m).1),
        pool_ok(not_connected(m)),
        pool_ok(released(m, c)),
        checked_out(m).0 is Connect ==> m.total < m.max_size,
{
}

/// A connection that came back is the next to be handed out, and no new one is made
/// for it: taking, giving back and taking again uses one connection.
pub proof fn law_pool_reuses<C>(m: PoolModel<C>, c: C)
    ensures
        checked_out(released(m, c)) == (Checkout::Reuse(c), m),
{
    assert(released(m, c).idle.drop_last() =~= m.idle);
}

/// A connection that could not be made leaves the pool as it was.
pub proof fn law_failed_connection_is_not_counted<C>(m: PoolModel<C>)
    requires
        checked_out(m).0 is Connect,
    ensures
        not_connected(checked_out(m).1) == m,
{
}

} // verus!
