//! The pool as a transition system.
//!
//! Jobs are known here by their ticket: the number of jobs that were accepted
//! before them. A state records which tickets are pending, which worker runs
//! which ticket, and in which order tickets were completed. Every
//! interleaving of submitters and workers is a sequence of [`Event`]s applied
//! to [`init`]; what holds of all of them is proved from the invariant
//! [`inv`].

use vstd::prelude::*;

verus! {

/// Where a worker stands, and on which job.
pub enum Phase {
    Idle,
    Acquiring,
    Dequeuing,
    Executing { ticket: nat },
    Stopped,
}

/// The pool's state, with jobs by ticket.
pub struct PoolState {
    /// The phase of each worker, by worker id.
    pub phases: Seq<Phase>,
    /// Whether the producer end of the queue is still valid.
    pub open: bool,
    /// The number of jobs accepted so far: their tickets are `0..accepted`.
    pub accepted: nat,
    /// The number of jobs handed to a worker so far. The pending jobs are
    /// the tickets `started..accepted`, oldest first.
    pub started: nat,
    /// The tickets of the jobs that came back, in the order they came back.
    pub finished: Seq<nat>,
    /// The tickets of the jobs that came back by a fault.
    pub faulted: Set<nat>,
    /// The number of workers joined so far: the workers `0..joined`.
    pub joined: nat,
}

/// One step of a submitter, a worker or the pool's owner.
pub enum Event {
    /// A job is submitted.
    Submit,
    /// The producer end of the queue is invalidated.
    Close,
    /// A worker asks for the consumer end of the queue.
    Request { worker: nat },
    /// A worker is given the consumer end of the queue.
    Grant { worker: nat },
    /// The worker that holds the consumer end looks for the next job.
    Dequeue { worker: nat },
    /// The job that a worker runs comes back; `fault` tells how.
    Finish { worker: nat, fault: bool },
    /// The owner joins the next worker in id order.
    Join,
}

impl PoolState {
    /// The number of workers.
    pub open spec fn size(self) -> nat {
        self.phases.len()
    }

    /// The number of pending jobs.
    pub open spec fn pending(self) -> nat {
        (self.accepted - self.started) as nat
    }

    /// Whether `worker` is a worker of this pool in the given phase.
    pub open spec fn in_phase(self, worker: nat, phase: Phase) -> bool {
        worker < self.phases.len() && self.phases[worker as int] == phase
    }

    /// Whether no worker holds the consumer end of the queue.
    pub open spec fn endpoint_free(self) -> bool {
        forall|w: int| 0 <= w < self.phases.len() ==> self.phases[w] != Phase::Dequeuing
    }

    /// Whether the job `ticket` waits in the queue.
    pub open spec fn queued(self, ticket: nat) -> bool {
        self.started <= ticket < self.accepted
    }

    /// Whether `worker` runs the job `ticket`.
    pub open spec fn runs(self, worker: int, ticket: nat) -> bool {
        0 <= worker < self.phases.len() && self.phases[worker] == (Phase::Executing { ticket })
    }

    /// Whether some worker runs the job `ticket`.
    pub open spec fn running(self, ticket: nat) -> bool {
        exists|w: int| self.runs(w, ticket)
    }

    /// Whether the job `ticket` has come back.
    pub open spec fn done(self, ticket: nat) -> bool {
        self.finished.contains(ticket)
    }

    /// The number of jobs that were started and have not come back.
    pub open spec fn in_flight(self) -> int {
        self.started - self.finished.len()
    }

    /// Whether every worker has stopped.
    pub open spec fn all_stopped(self) -> bool {
        forall|w: int| 0 <= w < self.phases.len() ==> self.phases[w] == Phase::Stopped
    }

    /// Whether shutdown is complete: every worker was joined.
    pub open spec fn shut_down(self) -> bool {
        self.joined == self.phases.len()
    }
}

/// The number of workers that run a job.
pub open spec fn count_executing(phases: Seq<Phase>) -> nat
    decreases phases.len(),
{
    if phases.len() == 0 {
        0
    } else {
        count_executing(phases.drop_last()) + if phases.last() is Executing {
            1nat
        } else {
            0nat
        }
    }
}

/// A fresh pool of `size` idle workers, open, with nothing submitted.
pub open spec fn init(size: nat) -> PoolState {
    PoolState {
        phases: Seq::new(size, |i: int| Phase::Idle),
        open: true,
        accepted: 0,
        started: 0,
        finished: Seq::empty(),
        faulted: Set::empty(),
        joined: 0,
    }
}

/// Whether `event` changes anything in `s`.
pub open spec fn enabled(s: PoolState, event: Event) -> bool {
    match event {
        Event::Submit => s.open,
        Event::Close => s.open,
        Event::Request { worker } => s.in_phase(worker, Phase::Idle),
        Event::Grant { worker } => s.in_phase(worker, Phase::Acquiring) && s.endpoint_free(),
        Event::Dequeue { worker } => s.in_phase(worker, Phase::Dequeuing) && (s.started
            < s.accepted || !s.open),
        Event::Finish { worker, fault } => worker < s.phases.len() && s.phases[worker as int]
            is Executing,
        Event::Join => s.in_phase(s.joined, Phase::Stopped),
    }
}

/// The state after `event`. An event that is not enabled leaves the state
/// as it is.
pub open spec fn apply(s: PoolState, event: Event) -> PoolState {
    if !enabled(s, event) {
        s
    } else {
        match event {
            Event::Submit => PoolState { accepted: s.accepted + 1, ..s },
            Event::Close => PoolState { open: false, ..s },
            Event::Request { worker } => PoolState {
                phases: s.phases.update(worker as int, Phase::Acquiring),
                ..s
            },
            Event::Grant { worker } => PoolState {
                phases: s.phases.update(worker as int, Phase::Dequeuing),
                ..s
            },
            Event::Dequeue { worker } => if s.started < s.accepted {
                PoolState {
                    phases: s.phases.update(worker as int, Phase::Executing { ticket: s.started }),
                    started: s.started + 1,
                    ..s
                }
            } else {
                PoolState { phases: s.phases.update(worker as int, Phase::Stopped), ..s }
            },
            Event::Finish { worker, fault } => {
                let ticket = s.phases[worker as int]->ticket;
                PoolState {
                    phases: s.phases.update(worker as int, Phase::Idle),
                    finished: s.finished.push(ticket),
                    faulted: if fault {
                        s.faulted.insert(ticket)
                    } else {
                        s.faulted
                    },
                    ..s
                }
            },
            Event::Join => PoolState { joined: s.joined + 1, ..s },
        }
    }
}

/// The state after the events of `trace`, applied in order.
pub open spec fn run(s: PoolState, trace: Seq<Event>) -> PoolState
    decreases trace.len(),
{
    if trace.len() == 0 {
        s
    } else {
        apply(run(s, trace.drop_last()), trace.last())
    }
}

/// Whether the job `ticket` is accounted for among the started jobs: it has
/// come back or some worker runs it.
pub open spec fn accounted_for(s: PoolState, ticket: nat) -> bool {
    s.done(ticket) || s.running(ticket)
}

/// What holds in every state that a pool can reach.
pub open spec fn inv(s: PoolState) -> bool {
    &&& s.phases.len() >= 1
    &&& s.started <= s.accepted
    // At most one worker holds the consumer end of the queue.
    &&& forall|v: int, w: int|
        0 <= v < w < s.phases.len() ==> !(#[trigger] s.phases[v] == Phase::Dequeuing
            && #[trigger] s.phases[w] == Phase::Dequeuing)
    // A running job was started and has not come back.
    &&& forall|w: int|
        0 <= w < s.phases.len() && #[trigger] s.phases[w] is Executing ==> s.phases[w]->ticket
            < s.started && !s.finished.contains(s.phases[w]->ticket)
    // No two workers run the same job.
    &&& forall|v: int, w: int|
        0 <= v < w < s.phases.len() && #[trigger] s.phases[v] is Executing
            && #[trigger] s.phases[w] is Executing ==> s.phases[v]->ticket
            != s.phases[w]->ticket
    // No job came back twice, and only started jobs came back.
    &&& s.finished.no_duplicates()
    &&& forall|i: int| 0 <= i < s.finished.len() ==> #[trigger] s.finished[i] < s.started
    // No started job is lost.
    &&& forall|t: nat| t < s.started ==> #[trigger] accounted_for(s, t)
    // The jobs in flight are those that the workers run.
    &&& s.started == s.finished.len() + count_executing(s.phases)
    // A worker stops only on a closed and drained queue.
    &&& forall|w: int|
        0 <= w < s.phases.len() && #[trigger] s.phases[w] == Phase::Stopped ==> !s.open
            && s.started == s.accepted
    // Workers are joined in id order, and only once they have stopped.
    &&& s.joined <= s.phases.len()
    &&& forall|w: int| 0 <= w < s.joined ==> #[trigger] s.phases[w] == Phase::Stopped
    // Only jobs that came back are recorded as faulted.
    &&& forall|t: nat| s.faulted.contains(t) ==> #[trigger] s.finished.contains(t)
}

} // verus!
