//! The life cycle of a single worker.
//!
//! A worker loops through `Idle -> Acquiring -> Dequeuing -> Executing -> Idle`
//! and leaves the loop for `Stopped` when it finds the job queue closed and
//! drained. This module holds the cycle as a pure transition function; the
//! pool decides when each event may happen.

use vstd::prelude::*;

verus! {

/// Where a worker stands in its dequeue-then-run cycle.
#[derive(Clone, Copy, Debug, PartialEq, Eq, Structural)]
pub enum WorkerState {
    /// Between two jobs, not yet asking for the queue.
    Idle,
    /// Waiting for exclusive access to the consumer end of the queue.
    Acquiring,
    /// Holding the consumer end, waiting for the next job or for closure.
    Dequeuing,
    /// Running a job, with the consumer end released.
    Executing,
    /// Terminal: the queue was closed and empty; the worker can be joined.
    Stopped,
}

/// What can happen to a worker.
#[derive(Clone, Copy, Debug, PartialEq, Eq, Structural)]
pub enum WorkerEvent {
    /// The worker asks for the consumer end of the queue.
    Request,
    /// The worker is given exclusive access to the consumer end.
    Granted,
    /// The worker took a job from the queue.
    JobReceived,
    /// The worker found the queue closed and empty.
    QueueClosed,
    /// The job that the worker was running came back, normally or by a fault.
    JobReturned,
}

/// What a worker is to do after an event.
#[derive(Clone, Copy, Debug, PartialEq, Eq, Structural)]
pub enum WorkerAction {
    /// Block until exclusive access to the consumer end is obtained.
    AwaitAccess,
    /// Take the next job, or learn that there will be none.
    AwaitJob,
    /// Release the consumer end first, then run the job.
    ReleaseAndRun,
    /// Release the consumer end and leave the loop.
    ReleaseAndExit,
    /// Start the cycle again.
    Restart,
}

/// The state a worker moves to on `event`, or `None` where the event cannot
/// happen in `state`.
pub open spec fn next_state(state: WorkerState, event: WorkerEvent) -> Option<WorkerState> {
    match (state, event) {
        (WorkerState::Idle, WorkerEvent::Request) => Some(WorkerState::Acquiring),
        (WorkerState::Acquiring, WorkerEvent::Granted) => Some(WorkerState::Dequeuing),
        (WorkerState::Dequeuing, WorkerEvent::JobReceived) => Some(WorkerState::Executing),
        (WorkerState::Dequeuing, WorkerEvent::QueueClosed) => Some(WorkerState::Stopped),
        (WorkerState::Executing, WorkerEvent::JobReturned) => Some(WorkerState::Idle),
        _ => None,
    }
}

/// What a worker does on entering `state`.
pub open spec fn action_on_entering(state: WorkerState) -> WorkerAction {
    match state {
        WorkerState::Idle => WorkerAction::Restart,
        WorkerState::Acquiring => WorkerAction::AwaitAccess,
        WorkerState::Dequeuing => WorkerAction::AwaitJob,
        WorkerState::Executing => WorkerAction::ReleaseAndRun,
        WorkerState::Stopped => WorkerAction::ReleaseAndExit,
    }
}

/// One worker of a pool: a stable id and the place in its cycle.
#[derive(Clone, Copy, Debug, PartialEq, Eq, Structural)]
pub struct Worker {
    id: usize,
    state: WorkerState,
}

impl Worker {
    /// The id given at construction.
    pub closed spec fn spec_id(&self) -> usize {
        self.id
    }

    /// The current place in the cycle.
    pub closed spec fn spec_state(&self) -> WorkerState {
        self.state
    }

    /// A worker with the given id, idle.
    pub fn new(id: usize) -> (w: Worker)
        ensures
            w.spec_id() == id,
            w.spec_state() == WorkerState::Idle,
    {
        Worker { id, state: WorkerState::Idle }
    }

    #[verifier::when_used_as_spec(spec_id)]
    pub fn id(&self) -> (id: usize)
        ensures
            id == self.spec_id(),
    {
        self.id
    }

    #[verifier::when_used_as_spec(spec_state)]
    pub fn state(&self) -> (state: WorkerState)
        ensures
            state == self.spec_state(),
    {
        self.state
    }

    /// Applies `event`. Where the event can happen in the current state the
    /// worker moves on and the action to take is returned; elsewhere the
    /// worker is left as it was and `None` is returned.
    pub fn handle(&mut self, event: WorkerEvent) -> (action: Option<WorkerAction>)
        ensures
            final(self).spec_id() == old(self).spec_id(),
            match next_state(old(self).spec_state(), event) {
                Some(next) => final(self).spec_state() == next && action == Some(
                    action_on_entering(next),
                ),
                None => final(self).spec_state() == old(self).spec_state() && action.is_none(),
            },
    {
        let next = match (self.state, event) {
            (WorkerState::Idle, WorkerEvent::Request) => Some(WorkerState::Acquiring),
            (WorkerState::Acquiring, WorkerEvent::Granted) => Some(WorkerState::Dequeuing),
            (WorkerState::Dequeuing, WorkerEvent::JobReceived) => Some(WorkerState::Executing),
            (WorkerState::Dequeuing, WorkerEvent::QueueClosed) => Some(WorkerState::Stopped),
            (WorkerState::Executing, WorkerEvent::JobReturned) => Some(WorkerState::Idle),
            _ => None,
        };
        match next {
            Some(state) => {
                self.state = state;
                Some(
                    match state {
                        WorkerState::Idle => WorkerAction::Restart,
                        WorkerState::Acquiring => WorkerAction::AwaitAccess,
                        WorkerState::Dequeuing => WorkerAction::AwaitJob,
                        WorkerState::Executing => WorkerAction::ReleaseAndRun,
                        WorkerState::Stopped => WorkerAction::ReleaseAndExit,
                    },
                )
            },
            None => None,
        }
    }
}

} // verus!
