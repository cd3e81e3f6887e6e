//! The pool: a fixed set of workers, the queue of pending jobs and the
//! shutdown protocol, as one monitor.
//!
//! A [`ThreadPool`] takes every decision and runs no job itself. Its owner
//! submits jobs with [`ThreadPool::execute`]; each worker thread reports its
//! steps with [`ThreadPool::request`], [`ThreadPool::grant`],
//! [`ThreadPool::dequeue`] and [`ThreadPool::finish`] and does what the
//! answer says; teardown is [`ThreadPool::close`] followed by
//! [`ThreadPool::join_next`] until it answers [`JoinStep::Done`]. Each method
//! is one event of [`crate::model`], so what [`crate::laws`] proves of the
//! model holds of every pool.

use crate::model::{apply, enabled, init, inv, Event, Phase, PoolState};
use crate::queue::{JobQueue, Received};
use crate::worker::{Worker, WorkerAction, WorkerEvent, WorkerState};
use vstd::prelude::*;

verus! {

/// Why the pool refused a request of its owner.
#[derive(Clone, Copy, Debug, PartialEq, Eq, Structural)]
pub enum PoolError {
    /// A pool needs at least one worker.
    ZeroSize,
    /// The pool was closed; it accepts no more jobs.
    Closed,
}

/// How a job came back to its worker.
#[derive(Clone, Copy, Debug, PartialEq, Eq, Structural)]
pub enum JobOutcome {
    /// The job returned.
    Completed,
    /// The job failed; the failure was contained by the worker.
    Faulted,
}

/// What a worker that holds the consumer end of the queue finds there.
#[derive(Debug)]
pub enum Dequeued<J> {
    /// The oldest pending job. The worker has released the consumer end and
    /// is to run the job.
    Run(J),
    /// The queue is closed and empty. The worker has released the consumer
    /// end and stopped.
    Stop,
    /// The queue is open and empty. The worker keeps the consumer end and
    /// waits for a job or for closure.
    Wait,
    /// The caller is not the worker that holds the consumer end.
    Refused,
}

/// One step of the owner's wait for the workers to stop.
#[derive(Clone, Copy, Debug, PartialEq, Eq, Structural)]
pub enum JoinStep {
    /// The worker with this id had stopped and is now joined.
    Joined(usize),
    /// The worker with this id, next in id order, has not stopped yet.
    Wait(usize),
    /// Every worker was joined before.
    Done,
}

/// The state of a worker in the given phase.
pub open spec fn state_of(phase: Phase) -> WorkerState {
    match phase {
        Phase::Idle => WorkerState::Idle,
        Phase::Acquiring => WorkerState::Acquiring,
        Phase::Dequeuing => WorkerState::Dequeuing,
        Phase::Executing { .. } => WorkerState::Executing,
        Phase::Stopped => WorkerState::Stopped,
    }
}

/// A fixed-size pool of workers that share one unbounded FIFO queue of jobs
/// of type `J`.
pub struct ThreadPool<J> {
    workers: Vec<Worker>,
    queue: JobQueue<J>,
    holder: Option<usize>,
    joined: usize,
    state: Ghost<PoolState>,
    jobs: Ghost<Seq<J>>,
}

impl<J> View for ThreadPool<J> {
    type V = PoolState;

    closed spec fn view(&self) -> PoolState {
        self.state@
    }
}

impl<J> ThreadPool<J> {
    /// Every job accepted so far, by ticket.
    pub closed spec fn jobs(&self) -> Seq<J> {
        self.jobs@
    }

    /// Whether the pool's records agree with each other.
    pub closed spec fn wf(&self) -> bool {
        &&& inv(self.state@)
        &&& self.workers.len() == self.state@.phases.len()
        &&& forall|i: int|
            0 <= i < self.workers.len() ==> (#[trigger] self.workers[i]).spec_id() == i
                && self.workers[i].spec_state() == state_of(self.state@.phases[i])
        &&& self.jobs@.len() == self.state@.accepted
        &&& self.queue@.pending == self.jobs@.subrange(
            self.state@.started as int,
            self.state@.accepted as int,
        )
        &&& self.queue@.open == self.state@.open
        &&& self.joined == self.state@.joined
        &&& match self.holder {
            Some(w) => w < self.workers.len() && self.state@.phases[w as int] == Phase::Dequeuing,
            None => self.state@.endpoint_free(),
        }
    }

    /// A well-formed pool is in a state that satisfies the invariant of the
    /// model, and has recorded one job for each ticket.
    pub proof fn lemma_wf(&self)
        requires
            self.wf(),
        ensures
            inv(self@),
            self.jobs().len() == self@.accepted,
            self@.size() <= usize::MAX,
    {
    }

    /// A pool of `size` idle workers with ids `0..size`, open and empty.
    /// A pool of no workers could never run a job: `size == 0` is refused.
    pub fn new(size: usize) -> (r: Result<ThreadPool<J>, PoolError>)
        ensures
            size == 0 <==> r is Err,
            r is Err ==> r->Err_0 == PoolError::ZeroSize,
            r is Ok ==> r->Ok_0.wf() && r->Ok_0@ == init(size as nat) && r->Ok_0.jobs()
                == Seq::<J>::empty(),
    {
        if size == 0 {
            return Err(PoolError::ZeroSize);
        }
        let mut workers: Vec<Worker> = Vec::with_capacity(size);
        let mut id: usize = 0;
        while id < size
            invariant
                id <= size,
                workers.len() == id,
                forall|i: int|
                    0 <= i < id ==> (#[trigger] workers[i]).spec_id() == i
                        && workers[i].spec_state() == WorkerState::Idle,
            decreases size - id,
        {
            workers.push(Worker::new(id));
            id += 1;
        }
        let pool = ThreadPool {
            workers,
            queue: JobQueue::new(),
            holder: None,
            joined: 0,
            state: Ghost(init(size as nat)),
            jobs: Ghost(Seq::empty()),
        };
        proof {
            crate::laws::lemma_init_inv(size as nat);
            assert(pool.queue@.pending =~= pool.jobs@.subrange(0, 0));
        }
        Ok(pool)
    }

    /// The number of workers, fixed at construction.
    pub fn size(&self) -> (n: usize)
        requires
            self.wf(),
        ensures
            n == self@.size(),
            n >= 1,
    {
        self.workers.len()
    }

    /// Whether the pool still accepts jobs.
    pub fn is_open(&self) -> (open: bool)
        requires
            self.wf(),
        ensures
            open == self@.open,
    {
        self.queue.is_open()
    }

    /// The number of jobs that wait in the queue.
    pub fn pending(&self) -> (n: usize)
        requires
            self.wf(),
        ensures
            n == self@.pending(),
    {
        self.queue.len()
    }

    /// The state of the worker `id`, or `None` where the pool has no such
    /// worker.
    pub fn worker_state(&self, id: usize) -> (state: Option<WorkerState>)
        requires
            self.wf(),
        ensures
            id < self@.size() ==> state == Some(state_of(self@.phases[id as int])),
            id >= self@.size() ==> state.is_none(),
    {
        if id < self.workers.len() {
            Some(self.workers[id].state())
        } else {
            None
        }
    }

    /// The number of jobs in flight: started and not yet come back.
    pub fn in_flight(&self) -> (n: usize)
        requires
            self.wf(),
        ensures
            n == self@.in_flight(),
            n <= self@.size(),
    {
        let mut n: usize = 0;
        let mut i: usize = 0;
        while i < self.workers.len()
            invariant
                self.wf(),
                i <= self.workers.len(),
                n == crate::model::count_executing(self.state@.phases.take(i as int)),
                n <= i,
            decreases self.workers.len() - i,
        {
            proof {
                let next = self.state@.phases.take(i + 1);
                assert(next.drop_last() =~= self.state@.phases.take(i as int));
                assert(next.last() == self.state@.phases[i as int]);
            }
            if self.workers[i].state() == WorkerState::Executing {
                n += 1;
            }
            i += 1;
        }
        proof {
            assert(self.state@.phases.take(i as int) =~= self.state@.phases);
            crate::laws::lemma_bounded_concurrency(self.state@);
        }
        n
    }

    /// The number of workers joined so far.
    pub fn joined(&self) -> (n: usize)
        requires
            self.wf(),
        ensures
            n == self@.joined,
    {
        self.joined
    }

    /// Whether shutdown is complete: every worker was joined.
    pub fn is_shut_down(&self) -> (done: bool)
        requires
            self.wf(),
        ensures
            done == self@.shut_down(),
    {
        self.joined == self.workers.len()
    }

    /// Submits a job. An open pool accepts it at the back of the queue,
    /// however many jobs wait there and whatever the workers do; a closed
    /// pool refuses it and stays as it is.
    pub fn execute(&mut self, job: J) -> (r: Result<(), PoolError>)
        requires
            old(self).wf(),
        ensures
            final(self).wf(),
            final(self)@ == apply(old(self)@, Event::Submit),
            old(self)@.open ==> r is Ok && final(self).jobs() == old(self).jobs().push(job),
            !old(self)@.open ==> r == Err::<(), PoolError>(PoolError::Closed)
                && final(self).jobs() == old(self).jobs(),
    {
        proof {
            crate::laws::lemma_apply_inv(self.state@, Event::Submit);
        }
        match self.queue.send(job) {
            Ok(()) => {
                proof {
                    let s = self.state@;
                    self.state@ = apply(s, Event::Submit);
                    self.jobs@ = self.jobs@.push(job);
                    assert(self.queue@.pending =~= self.jobs@.subrange(
                        self.state@.started as int,
                        self.state@.accepted as int,
                    ));
                }
                Ok(())
            },
            Err(_) => Err(PoolError::Closed),
        }
    }

    /// Invalidates the producer end of the queue: no job is accepted from
    /// now on. The jobs that wait are kept, and the workers will run them
    /// before they stop. Closing a closed pool changes nothing.
    pub fn close(&mut self)
        requires
            old(self).wf(),
        ensures
            final(self).wf(),
            final(self)@ == apply(old(self)@, Event::Close),
            !final(self)@.open,
            final(self).jobs() == old(self).jobs(),
    {
        proof {
            crate::laws::lemma_apply_inv(self.state@, Event::Close);
        }
        self.queue.close();
        proof {
            self.state@ = apply(self.state@, Event::Close);
        }
    }

    /// Hands `event` to the worker `id` and keeps the other workers.
    fn signal(&mut self, id: usize, event: WorkerEvent) -> (action: Option<WorkerAction>)
        requires
            id < old(self).workers.len(),
        ensures
            final(self).workers.len() == old(self).workers.len(),
            forall|i: int|
                0 <= i < old(self).workers.len() && i != id ==> final(self).workers[i] == old(self).workers[i],
            final(self).workers[id as int].spec_id() == old(self).workers[id as int].spec_id(),
            match crate::worker::next_state(old(self).workers[id as int].spec_state(), event) {
                Some(next) => final(self).workers[id as int].spec_state() == next
                    && action == Some(crate::worker::action_on_entering(next)),
                None => final(self).workers[id as int].spec_state() == old(self).workers[id as int].spec_state() && action.is_none(),
            },
            final(self).queue == old(self).queue,
            final(self).holder == old(self).holder,
            final(self).joined == old(self).joined,
            final(self).state == old(self).state,
            final(self).jobs == old(self).jobs,
    {
        let mut worker = self.workers[id];
        let action = worker.handle(event);
        self.workers.set(id, worker);
        action
    }

    /// The worker `id` asks for the consumer end of the queue. An idle
    /// worker starts to wait for it and is told so; any other caller is
    /// answered `None` and nothing changes.
    pub fn request(&mut self, id: usize) -> (action: Option<WorkerAction>)
        requires
            old(self).wf(),
        ensures
            final(self).wf(),
            final(self)@ == apply(old(self)@, Event::Request { worker: id as nat }),
            final(self).jobs() == old(self).jobs(),
            action == if enabled(old(self)@, Event::Request { worker: id as nat }) {
                Some(WorkerAction::AwaitAccess)
            } else {
                None
            },
    {
        if id >= self.workers.len() {
            return None;
        }
        let ghost event = Event::Request { worker: id as nat };
        proof {
            crate::laws::lemma_apply_inv(self.state@, event);
        }
        let action = self.signal(id, WorkerEvent::Request);
        proof {
            self.state@ = apply(self.state@, event);
        }
        action
    }

    /// The worker `id` is given the consumer end of the queue, if it waits
    /// for it and no other worker holds it. The worker then holds it and is
    /// told to look for a job; otherwise the answer is `None` and nothing
    /// changes.
    pub fn grant(&mut self, id: usize) -> (action: Option<WorkerAction>)
        requires
            old(self).wf(),
        ensures
            final(self).wf(),
            final(self)@ == apply(old(self)@, Event::Grant { worker: id as nat }),
            final(self).jobs() == old(self).jobs(),
            action == if enabled(old(self)@, Event::Grant { worker: id as nat }) {
                Some(WorkerAction::AwaitJob)
            } else {
                None
            },
    {
        if id >= self.workers.len() || self.holder.is_some() {
            return None;
        }
        let ghost event = Event::Grant { worker: id as nat };
        proof {
            crate::laws::lemma_apply_inv(self.state@, event);
        }
        let action = self.signal(id, WorkerEvent::Granted);
        if action.is_some() {
            self.holder = Some(id);
        }
        proof {
            self.state@ = apply(self.state@, event);
        }
        action
    }

    /// The worker `id`, holding the consumer end of the queue, looks for the
    /// next job. It gets the oldest pending job, if there is one, and has
    /// then released the consumer end before it runs the job. On an empty
    /// queue it stops if the pool is closed, and waits if it is open.
    pub fn dequeue(&mut self, id: usize) -> (taken: Dequeued<J>)
        requires
            old(self).wf(),
        ensures
            final(self).wf(),
            final(self)@ == apply(old(self)@, Event::Dequeue { worker: id as nat }),
            final(self).jobs() == old(self).jobs(),
            !old(self)@.in_phase(id as nat, Phase::Dequeuing) <==> taken is Refused,
            old(self)@.in_phase(id as nat, Phase::Dequeuing) ==> match taken {
                Dequeued::Run(job) => old(self)@.pending() > 0 && job == old(self).jobs()[old(self)@.started as int] && final(self)@.runs(id as int, old(self)@.started),
                Dequeued::Stop => old(self)@.pending() == 0 && !old(self)@.open && final(self)@.in_phase(id as nat, Phase::Stopped),
                Dequeued::Wait => old(self)@.pending() == 0 && old(self)@.open,
                Dequeued::Refused => false,
            },
    {
        if id >= self.workers.len() || self.workers[id].state() != WorkerState::Dequeuing {
            return Dequeued::Refused;
        }
        let ghost event = Event::Dequeue { worker: id as nat };
        proof {
            crate::laws::lemma_apply_inv(self.state@, event);
            if self.holder.is_none() {
                assert(self.state@.phases[id as int] != Phase::Dequeuing);
            } else if self.holder != Some(id) {
                let h = self.holder.unwrap() as int;
                assert(!(self.state@.phases[h] == Phase::Dequeuing && self.state@.phases[id as int]
                    == Phase::Dequeuing));
            }
        }
        match self.queue.receive() {
            Received::Job(job) => {
                self.signal(id, WorkerEvent::JobReceived);
                self.holder = None;
                proof {
                    let s = self.state@;
                    self.state@ = apply(s, event);
                    assert(self.queue@.pending =~= self.jobs@.subrange(
                        self.state@.started as int,
                        self.state@.accepted as int,
                    ));
                    assert(job == self.jobs@.subrange(s.started as int, s.accepted as int)[0]);
                    lemma_one_holder(s, id as int);
                }
                Dequeued::Run(job)
            },
            Received::Empty => Dequeued::Wait,
            Received::Closed => {
                self.signal(id, WorkerEvent::QueueClosed);
                self.holder = None;
                proof {
                    let s = self.state@;
                    self.state@ = apply(s, event);
                    lemma_one_holder(s, id as int);
                }
                Dequeued::Stop
            },
        }
    }

    /// The job that the worker `id` ran has come back, with `outcome`. The
    /// worker is idle again, whether the job returned or faulted, and is
    /// told to start over. A caller that runs no job is answered `None` and
    /// nothing changes.
    pub fn finish(&mut self, id: usize, outcome: JobOutcome) -> (action: Option<WorkerAction>)
        requires
            old(self).wf(),
        ensures
            final(self).wf(),
            final(self)@ == apply(
                old(self)@,
                Event::Finish { worker: id as nat, fault: outcome == JobOutcome::Faulted },
            ),
            final(self).jobs() == old(self).jobs(),
            action == if id < old(self)@.size() && old(self)@.phases[id as int] is Executing {
                Some(WorkerAction::Restart)
            } else {
                None
            },
    {
        if id >= self.workers.len() {
            return None;
        }
        let fault = match outcome {
            JobOutcome::Completed => false,
            JobOutcome::Faulted => true,
        };
        let ghost event = Event::Finish { worker: id as nat, fault };
        proof {
            crate::laws::lemma_apply_inv(self.state@, event);
        }
        let action = self.signal(id, WorkerEvent::JobReturned);
        proof {
            self.state@ = apply(self.state@, event);
        }
        action
    }

    /// One step of the owner's wait for the workers, in id order. The next
    /// worker is joined if it has stopped; if it has not, the owner is to
    /// wait for it and ask again. A worker stops only once the pool is
    /// closed and the queue is empty, so the owner closes the pool first.
    pub fn join_next(&mut self) -> (step: JoinStep)
        requires
            old(self).wf(),
        ensures
            final(self).wf(),
            final(self)@ == apply(old(self)@, Event::Join),
            final(self).jobs() == old(self).jobs(),
            step == if old(self)@.shut_down() {
                JoinStep::Done
            } else if old(self)@.in_phase(old(self)@.joined, Phase::Stopped) {
                JoinStep::Joined(old(self)@.joined as usize)
            } else {
                JoinStep::Wait(old(self)@.joined as usize)
            },
    {
        if self.joined == self.workers.len() {
            return JoinStep::Done;
        }
        let id = self.joined;
        if self.workers[id].state() == WorkerState::Stopped {
            proof {
                crate::laws::lemma_apply_inv(self.state@, Event::Join);
            }
            self.joined = id + 1;
            proof {
                self.state@ = apply(self.state@, Event::Join);
            }
            JoinStep::Joined(id)
        } else {
            JoinStep::Wait(id)
        }
    }
}

/// Where the worker `w` holds the consumer end of the queue, no other worker
/// does: once `w` lets go, the consumer end is free.
proof fn lemma_one_holder(s: PoolState, w: int)
    requires
        inv(s),
        0 <= w < s.phases.len(),
        s.phases[w] == Phase::Dequeuing,
    ensures
        forall|p: Phase|
            p != Phase::Dequeuing ==> (PoolState {
                phases: #[trigger] s.phases.update(w, p),
                ..s
            }).endpoint_free(),
{
    assert forall|p: Phase| p != Phase::Dequeuing implies (PoolState {
        phases: #[trigger] s.phases.update(w, p),
        ..s
    }).endpoint_free() by {
        let n = s.phases.update(w, p);
        assert forall|v: int| 0 <= v < n.len() implies n[v] != Phase::Dequeuing by {
            if v < w {
                assert(!(s.phases[v] == Phase::Dequeuing && s.phases[w] == Phase::Dequeuing));
            } else if v > w {
                assert(!(s.phases[w] == Phase::Dequeuing && s.phases[v] == Phase::Dequeuing));
            }
        }
    }
}

} // verus!
