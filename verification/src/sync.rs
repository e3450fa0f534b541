//! Waiting for a condition and being told of it.
//!
//! A queue counts the waiters that block on it. Blocking and waking is the
//! scheduler's work: a waiter that has been counted gives up the processor,
//! and whoever signals the queue learns how many waiters there are to wake.

use vstd::prelude::*;

verus! {

/// A queue of waiters.
#[derive(Debug)]
pub struct WQueue {
    waiting: usize,
}

impl WQueue {
    /// Number of waiters that block on the queue.
    pub closed spec fn waiters(&self) -> nat {
        self.waiting as nat
    }

    /// A queue without waiters.
    pub fn new() -> (q: WQueue)
        ensures
            q.waiters() == 0,
    {
        WQueue { waiting: 0 }
    }

    /// Number of waiters that block on the queue.
    pub fn len(&self) -> (n: usize)
        ensures
            n == self.waiters(),
    {
        self.waiting
    }

    /// Counts one more waiter. The count stops at the largest number that
    /// it can hold.
    pub fn enqueue(&mut self)
        ensures
            final(self).waiters() == if old(self).waiters() < usize::MAX {
                old(self).waiters() + 1
            } else {
                old(self).waiters()
            },
    {
        if self.waiting < usize::MAX {
            self.waiting = self.waiting + 1;
        }
    }

    /// Wakes every waiter, and says how many there were.
    pub fn signal(&mut self) -> (woken: usize)
        ensures
            woken == old(self).waiters(),
            final(self).waiters() == 0,
    {
        let woken = self.waiting;
        self.waiting = 0;
        woken
    }
}

} // verus!
