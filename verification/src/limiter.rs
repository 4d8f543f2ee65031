use vstd::prelude::*;

verus! {

/// A counting pool of permits. Every running copy holds one, so the pool
/// bounds how many copies hold open files at once.
#[derive(Debug)]
pub struct PermitPool {
    capacity: usize,
    in_use: usize,
}

impl PermitPool {
    /// Number of permits the pool was made with.
    pub closed spec fn capacity(&self) -> nat {
        self.capacity as nat
    }

    /// Number of permits that are handed out.
    pub closed spec fn in_use(&self) -> nat {
        self.in_use as nat
    }

    /// A pool never hands out more permits than it was made with, and it was
    /// made with at least one.
    pub open spec fn wf(&self) -> bool {
        0 < self.capacity() && self.in_use() <= self.capacity()
    }

    /// A pool of `max_concurrency` permits, none of them handed out.
    pub fn new(max_concurrency: usize) -> (pool: PermitPool)
        requires
            max_concurrency > 0,
        ensures
            pool.wf(),
            pool.capacity() == max_concurrency,
            pool.in_use() == 0,
    {
        PermitPool { capacity: max_concurrency, in_use: 0 }
    }

    /// The number of permits the pool was made with.
    pub fn max_concurrency(&self) -> (n: usize)
        ensures
            n == self.capacity(),
    {
        self.capacity
    }

    /// The number of permits handed out at the moment.
    pub fn held(&self) -> (n: usize)
        ensures
            n == self.in_use(),
    {
        self.in_use
    }

    /// The number of permits that can still be handed out.
    pub fn available(&self) -> (n: usize)
        requires
            self.wf(),
        ensures
            n == self.capacity() - self.in_use(),
    {
        self.capacity - self.in_use
    }

    /// Takes a permit if one is left. It never waits: the caller that gets
    /// none tries again after a release.
    pub fn try_acquire(&mut self) -> (acquired: bool)
        requires
            old(self).wf(),
        ensures
            final(self).wf(),
            final(self).capacity() == old(self).capacity(),
            acquired == (old(self).in_use() < old(self).capacity()),
            final(self).in_use() == old(self).in_use() + if acquired {
                1nat
            } else {
                0nat
            },
    {
        if self.in_use < self.capacity {
            self.in_use = self.in_use + 1;
            true
        } else {
            false
        }
    }

    /// Gives a permit back.
    pub fn release(&mut self)
        requires
            old(self).wf(),
            old(self).in_use() > 0,
        ensures
            final(self).wf(),
            final(self).capacity() == old(self).capacity(),
            final(self).in_use() == old(self).in_use() - 1,
    {
        self.in_use = self.in_use - 1;
    }
}

/// In every state of a pool the permits handed out stay within its capacity,
/// whatever sequence of `try_acquire` and `release` led there.
pub proof fn lemma_permits_bounded(pool: PermitPool)
    requires
        pool.wf(),
    ensures
        pool.in_use() <= pool.capacity(),
{
}

} // verus!
