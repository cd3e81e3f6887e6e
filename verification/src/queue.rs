//! The queue between submitters and workers: unbounded, first in first out,
//! with a producer end that can be closed.
//!
//! The queue itself knows nothing of workers. That only one worker at a time
//! takes from it is the pool's business.

use std::collections::VecDeque;
use vstd::prelude::*;

verus! {

/// What a queue holds: the pending jobs, oldest first, and whether more can
/// be sent.
pub struct QueueState<J> {
    pub pending: Seq<J>,
    pub open: bool,
}

/// What the consumer end of the queue yields.
#[derive(Debug)]
pub enum Received<J> {
    /// The oldest pending job, which has left the queue.
    Job(J),
    /// Nothing is pending, but more may come.
    Empty,
    /// Nothing is pending and nothing will come: the queue is closed and
    /// drained.
    Closed,
}

/// An unbounded FIFO queue of jobs.
pub struct JobQueue<J> {
    items: VecDeque<J>,
    open: bool,
}

impl<J> View for JobQueue<J> {
    type V = QueueState<J>;

    closed spec fn view(&self) -> QueueState<J> {
        QueueState { pending: self.items@, open: self.open }
    }
}

impl<J> JobQueue<J> {
    /// An open queue with nothing pending.
    pub fn new() -> (queue: JobQueue<J>)
        ensures
            queue@.pending == Seq::<J>::empty(),
            queue@.open,
    {
        JobQueue { items: VecDeque::new(), open: true }
    }

    /// Puts `job` at the back of an open queue. A closed queue hands the
    /// job back.
    pub fn send(&mut self, job: J) -> (r: Result<(), J>)
        ensures
            final(self)@.open == old(self)@.open,
            old(self)@.open ==> r is Ok && final(self)@.pending == old(self)@.pending.push(job),
            !old(self)@.open ==> r == Err::<(), J>(job) && final(self)@.pending == old(self)@.pending,
    {
        if self.open {
            self.items.push_back(job);
            Ok(())
        } else {
            Err(job)
        }
    }

    /// Takes the oldest pending job, if there is one. On an empty queue,
    /// tells whether more may come.
    pub fn receive(&mut self) -> (r: Received<J>)
        ensures
            final(self)@.open == old(self)@.open,
            match r {
                Received::Job(job) => old(self)@.pending.len() > 0 && job == old(self)@.pending[0] && final(self)@.pending == old(self)@.pending.drop_first(),
                Received::Empty => old(self)@.pending.len() == 0 && old(self)@.open && final(self)@.pending == old(self)@.pending,
                Received::Closed => old(self)@.pending.len() == 0 && !old(self)@.open && final(self)@.pending == old(self)@.pending,
            },
    {
        match self.items.pop_front() {
            Some(job) => {
                assert(self.items@ =~= old(self).items@.drop_first());
                Received::Job(job)
            },
            None => if self.open {
                Received::Empty
            } else {
                Received::Closed
            },
        }
    }

    /// Closes the producer end: nothing more can be sent. What is pending
    /// stays, to be received.
    pub fn close(&mut self)
        ensures
            !final(self)@.open,
            final(self)@.pending == old(self)@.pending,
    {
        self.open = false;
    }

    /// The number of pending jobs.
    pub fn len(&self) -> (n: usize)
        ensures
            n == self@.pending.len(),
    {
        self.items.len()
    }

    /// Whether more can be sent.
    pub fn is_open(&self) -> (open: bool)
        ensures
            open == self@.open,
    {
        self.open
    }
}

/// Jobs leave the queue in the order they entered it: a job that is sent
/// goes behind all that is pending and moves none of it, and when the
/// oldest job is received the others keep their order.
pub proof fn lemma_first_in_first_out<J>(pending: Seq<J>, job: J, i: int)
    requires
        0 <= i < pending.len(),
    ensures
        pending.push(job)[i] == pending[i],
        pending.push(job)[pending.len() as int] == job,
        pending.push(job).drop_first() == pending.drop_first().push(job),
        i > 0 ==> pending.drop_first()[i - 1] == pending[i],
{
    assert(pending.push(job).drop_first() =~= pending.drop_first().push(job));
}

} // verus!
