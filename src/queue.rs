//! The queue of pending jobs: unbounded, first in first out, and closed once
//! for good.
use std::collections::VecDeque;
use vstd::prelude::*;

use crate::PoolError;

verus! {

/// What a consumer gets when it asks the queue for work.
pub enum Next<J> {
    /// The oldest pending job, now removed from the queue.
    Job(J),
    /// Nothing is pending yet, but more may come: the consumer waits.
    Empty,
    /// Nothing is pending and nothing ever will be: the consumer stops.
    Closed,
}

/// The pending jobs, oldest first, and whether submission is still open.
pub struct WorkQueue<J> {
    jobs: VecDeque<J>,
    open: bool,
}

impl<J> WorkQueue<J> {
    /// The pending jobs, oldest first.
    pub closed spec fn pending(&self) -> Seq<J> {
        self.jobs@
    }

    /// Whether jobs are still accepted.
    pub closed spec fn is_open(&self) -> bool {
        self.open
    }

    /// An empty queue that accepts jobs.
    pub fn new() -> (q: Self)
        ensures
            q.pending() == Seq::<J>::empty(),
            q.is_open(),
    {
        WorkQueue { jobs: VecDeque::new(), open: true }
    }

    /// Whether jobs are still accepted.
    pub fn accepts(&self) -> (r: bool)
        ensures
            r == self.is_open(),
    {
        self.open
    }

    /// The number of pending jobs.
    pub fn len(&self) -> (r: usize)
        ensures
            r == self.pending().len(),
    {
        self.jobs.len()
    }

    /// Puts `job` at the tail, or refuses it once the queue is closed.
    pub fn submit(&mut self, job: J) -> (r: Result<(), PoolError>)
        ensures
            old(self).is_open() ==> r is Ok && final(self).pending() == old(self).pending().push(job),
            !old(self).is_open() ==> r == Err::<(), PoolError>(PoolError::QueueClosed)
                && final(self).pending() == old(self).pending(),
            final(self).is_open() == old(self).is_open(),
    {
        if self.open {
            self.jobs.push_back(job);
            Ok(())
        } else {
            Err(PoolError::QueueClosed)
        }
    }

    /// Removes and hands out the oldest pending job; where there is none,
    /// says whether a consumer should wait for more or stop for good.
    pub fn next(&mut self) -> (r: Next<J>)
        ensures
            final(self).is_open() == old(self).is_open(),
            old(self).pending().len() > 0 ==> r == Next::Job(old(self).pending()[0])
                && final(self).pending() == old(self).pending().drop_first(),
            old(self).pending().len() == 0 ==> final(self).pending() == old(self).pending(),
            old(self).pending().len() == 0 && old(self).is_open() ==> r is Empty,
            old(self).pending().len() == 0 && !old(self).is_open() ==> r is Closed,
    {
        match self.jobs.pop_front() {
            Some(job) => Next::Job(job),
            None => if self.open {
                Next::Empty
            } else {
                Next::Closed
            },
        }
    }

    /// Closes submission for good; pending jobs stay to be handed out.
    pub fn close(&mut self)
        ensures
            !final(self).is_open(),
            final(self).pending() == old(self).pending(),
    {
        self.open = false;
    }
}

} // verus!
