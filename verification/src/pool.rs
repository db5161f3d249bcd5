//! Model of the idle connection pool: the number of idle subscriber
//! connections currently held open, bounded by a configured ceiling.
//!
//! The pool never exceeds its ceiling.  Growth is two-phase because opening
//! a connection can fail: `grow_quota` says how many connections a Grow
//! request may attempt, the shell opens up to that many, and `record_grown`
//! accounts for the ones that succeeded.  A failed attempt is not an error:
//! growth for that call simply stops short.  Shrinking cancels connections
//! outright and cannot fail.

use vstd::prelude::*;

verus! {

/// The idle connection pool, reduced to what the scaling logic observes:
/// its current size and its ceiling.
#[derive(Clone, Copy, Debug, PartialEq, Eq, Structural)]
pub struct IdlePool {
    pub size: usize,
    pub ceiling: usize,
}

/// How many connections a Grow(n) request may attempt: up to `n`, but never
/// past the ceiling.
pub open spec fn spec_grow_quota(p: IdlePool, n: int) -> int {
    if n <= p.ceiling - p.size {
        n
    } else {
        p.ceiling - p.size
    }
}

/// How many connections Shrink(n) removes: `n`, or everything if fewer than
/// `n` are held.
pub open spec fn spec_shrink_count(p: IdlePool, n: int) -> int {
    if n <= p.size {
        n
    } else {
        p.size as int
    }
}

impl IdlePool {
    /// The pool never holds more connections than its ceiling.
    pub open spec fn wf(self) -> bool {
        self.size <= self.ceiling
    }

    /// An empty pool with the given ceiling.
    pub fn new(ceiling: usize) -> (r: IdlePool)
        ensures
            r.wf(),
            r.size == 0,
            r.ceiling == ceiling,
    {
        IdlePool { size: 0, ceiling }
    }

    /// How many connections a Grow(`n`) request may attempt.  At the
    /// ceiling the quota is zero: the request is a no-op, not an error.
    pub fn grow_quota(&self, n: usize) -> (r: usize)
        requires
            self.wf(),
        ensures
            r == spec_grow_quota(*self, n as int),
            self.size == self.ceiling ==> r == 0,
            self.size + r <= self.ceiling,
    {
        let room = self.ceiling - self.size;
        if n <= room {
            n
        } else {
            room
        }
    }

    /// Accounts for `k` successfully opened connections; `k` may fall short
    /// of the granted quota when connections failed to open.
    pub fn record_grown(&mut self, k: usize)
        requires
            old(self).wf(),
            k <= old(self).ceiling - old(self).size,
        ensures
            final(self).wf(),
            final(self).size == old(self).size + k,
            final(self).ceiling == old(self).ceiling,
            k == 0 ==> *final(self) == *old(self),
    {
        self.size = self.size + k;
    }

    /// Cancels up to `n` connections immediately and reports how many were
    /// removed.
    pub fn shrink(&mut self, n: usize) -> (removed: usize)
        requires
            old(self).wf(),
        ensures
            final(self).wf(),
            removed == spec_shrink_count(*old(self), n as int),
            final(self).size == old(self).size - removed,
            final(self).ceiling == old(self).ceiling,
    {
        let removed = if n <= self.size {
            n
        } else {
            self.size
        };
        self.size = self.size - removed;
        removed
    }
}

/// Growing a pool that stands at its ceiling changes nothing: the quota is
/// zero, and recording zero added connections leaves the pool as it was.
pub proof fn lemma_grow_at_ceiling(p: IdlePool, n: int)
    requires
        p.wf(),
        p.size == p.ceiling,
        n >= 0,
    ensures
        spec_grow_quota(p, n) == 0,
{
}

} // verus!
