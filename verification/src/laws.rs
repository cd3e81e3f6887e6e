//! What holds of every pool, whatever the interleaving.
//!
//! The invariant of [`crate::model`] holds initially and after every event,
//! hence after every trace. From it follow: each accepted job is in exactly
//! one place, never more jobs are in flight than there are workers, a single
//! worker completes jobs in the order they were submitted, and a pool that
//! was shut down has run every job it accepted.

use crate::model::{accounted_for, apply, count_executing, enabled, init, inv, run, Event, Phase, PoolState};
use vstd::prelude::*;

verus! {

/// Replacing the phase of one worker changes the number of running workers
/// by what that worker adds to it.
pub proof fn lemma_count_update(phases: Seq<Phase>, w: int, p: Phase)
    requires
        0 <= w < phases.len(),
    ensures
        count_executing(phases.update(w, p)) + (if phases[w] is Executing {
            1nat
        } else {
            0nat
        }) == count_executing(phases) + (if p is Executing {
            1nat
        } else {
            0nat
        }),
    decreases phases.len(),
{
    let updated = phases.update(w, p);
    if w == phases.len() - 1 {
        assert(updated.drop_last() =~= phases.drop_last());
    } else {
        assert(updated.drop_last() =~= phases.drop_last().update(w, p));
        lemma_count_update(phases.drop_last(), w, p);
    }
}

/// No more workers run a job than there are workers.
pub proof fn lemma_count_bound(phases: Seq<Phase>)
    ensures
        count_executing(phases) <= phases.len(),
    decreases phases.len(),
{
    if phases.len() > 0 {
        lemma_count_bound(phases.drop_last());
    }
}

/// Where no worker runs a job, the number of running workers is zero.
pub proof fn lemma_count_none(phases: Seq<Phase>)
    requires
        forall|w: int| 0 <= w < phases.len() ==> !(#[trigger] phases[w] is Executing),
    ensures
        count_executing(phases) == 0,
    decreases phases.len(),
{
    if phases.len() > 0 {
        let rest = phases.drop_last();
        assert forall|w: int| 0 <= w < rest.len() implies !(#[trigger] rest[w] is Executing) by {
            assert(rest[w] == phases[w]);
        }
        lemma_count_none(rest);
    }
}

/// A fresh pool with at least one worker satisfies the invariant.
pub proof fn lemma_init_inv(size: nat)
    requires
        size >= 1,
    ensures
        inv(init(size)),
        init(size).size() == size,
{
    let s = init(size);
    lemma_count_none(s.phases);
    assert forall|t: nat| t < s.started implies #[trigger] accounted_for(s, t) by {}
}

/// Every event preserves the invariant.
pub proof fn lemma_apply_inv(s: PoolState, event: Event)
    requires
        inv(s),
    ensures
        inv(apply(s, event)),
        apply(s, event).size() == s.size(),
{
    let n = apply(s, event);
    if enabled(s, event) {
        lemma_enabled_apply_inv(s, event);
    }
}

/// An enabled event preserves the invariant.
proof fn lemma_enabled_apply_inv(s: PoolState, event: Event)
    requires
        inv(s),
        enabled(s, event),
    ensures
        inv(apply(s, event)),
        apply(s, event).size() == s.size(),
{
    let n = apply(s, event);
    match event {
        Event::Submit => {
            assert forall|t: nat| t < n.started implies #[trigger] accounted_for(n, t) by {
                lemma_accounted_persists(s, n, t);
            }
        },
        Event::Close => {
            assert forall|t: nat| t < n.started implies #[trigger] accounted_for(n, t) by {
                lemma_accounted_persists(s, n, t);
            }
        },
        Event::Request { worker } => {
            lemma_count_update(s.phases, worker as int, Phase::Acquiring);
            assert forall|t: nat| t < n.started implies #[trigger] accounted_for(n, t) by {
                lemma_accounted_persists(s, n, t);
            }
        },
        Event::Grant { worker } => {
            lemma_count_update(s.phases, worker as int, Phase::Dequeuing);
            assert forall|t: nat| t < n.started implies #[trigger] accounted_for(n, t) by {
                lemma_accounted_persists(s, n, t);
            }
        },
        Event::Dequeue { worker } => {
            if s.started < s.accepted {
                let p = Phase::Executing { ticket: s.started };
                lemma_count_update(s.phases, worker as int, p);
                assert forall|t: nat| t < n.started implies #[trigger] accounted_for(n, t) by {
                    if t == s.started {
                        assert(n.runs(worker as int, t));
                    } else {
                        assert(accounted_for(s, t));
                        lemma_accounted_persists(s, n, t);
                    }
                }
                assert forall|w: int|
                    0 <= w < n.phases.len() && #[trigger] n.phases[w] is Executing implies n.phases[w]->ticket
                    < n.started && !n.finished.contains(n.phases[w]->ticket) by {
                    if w != worker {
                        assert(s.phases[w] is Executing);
                    }
                }
                assert forall|v: int, w: int|
                    0 <= v < w < n.phases.len() && #[trigger] n.phases[v] is Executing
                        && #[trigger] n.phases[w] is Executing implies n.phases[v]->ticket
                    != n.phases[w]->ticket by {
                    if v != worker {
                        assert(s.phases[v] is Executing);
                    }
                    if w != worker {
                        assert(s.phases[w] is Executing);
                    }
                }
            } else {
                lemma_count_update(s.phases, worker as int, Phase::Stopped);
                assert forall|t: nat| t < n.started implies #[trigger] accounted_for(n, t) by {
                    lemma_accounted_persists(s, n, t);
                }
            }
        },
        Event::Finish { worker, fault } => {
            let ticket = s.phases[worker as int]->ticket;
            lemma_count_update(s.phases, worker as int, Phase::Idle);
            assert(s.phases[worker as int] is Executing);
            assert(!s.finished.contains(ticket));
            assert forall|t: nat| t < n.started implies #[trigger] accounted_for(n, t) by {
                assert(accounted_for(s, t));
                if s.done(t) {
                    let i = choose|i: int| 0 <= i < s.finished.len() && s.finished[i] == t;
                    assert(n.finished[i] == t);
                } else {
                    let w = choose|w: int| s.runs(w, t);
                    if w == worker {
                        assert(n.finished[s.finished.len() as int] == t);
                    } else {
                        assert(n.runs(w, t));
                    }
                }
            }
            assert forall|w: int|
                0 <= w < n.phases.len() && #[trigger] n.phases[w] is Executing implies n.phases[w]->ticket
                < n.started && !n.finished.contains(n.phases[w]->ticket) by {
                assert(s.phases[w] is Executing);
                assert(w != worker);
                if w < worker {
                    assert(s.phases[w]->ticket != s.phases[worker as int]->ticket);
                } else {
                    assert(s.phases[worker as int]->ticket != s.phases[w]->ticket);
                }
                if n.finished.contains(n.phases[w]->ticket) {
                    let i = choose|i: int|
                        0 <= i < n.finished.len() && n.finished[i] == n.phases[w]->ticket;
                    if i < s.finished.len() {
                        assert(s.finished[i] == n.phases[w]->ticket);
                    }
                }
            }
            assert forall|v: int, w: int|
                0 <= v < w < n.phases.len() && #[trigger] n.phases[v] is Executing
                    && #[trigger] n.phases[w] is Executing implies n.phases[v]->ticket
                != n.phases[w]->ticket by {
                assert(s.phases[v] is Executing);
                assert(s.phases[w] is Executing);
            }
            assert(n.finished.no_duplicates()) by {
                assert forall|i: int, j: int|
                    0 <= i < n.finished.len() && 0 <= j < n.finished.len() && i != j implies n.finished[i]
                    != n.finished[j] by {
                    if i < s.finished.len() {
                        assert(s.finished[i] == n.finished[i]);
                    }
                    if j < s.finished.len() {
                        assert(s.finished[j] == n.finished[j]);
                    }
                }
            }
            assert forall|t: nat| n.faulted.contains(t) implies #[trigger] n.finished.contains(
                t,
            ) by {
                if t == ticket {
                    assert(n.finished[s.finished.len() as int] == t);
                } else {
                    assert(s.finished.contains(t));
                    let i = choose|i: int| 0 <= i < s.finished.len() && s.finished[i] == t;
                    assert(n.finished[i] == t);
                }
            }
        },
        Event::Join => {
            assert forall|t: nat| t < n.started implies #[trigger] accounted_for(n, t) by {
                lemma_accounted_persists(s, n, t);
            }
        },
    }
}

/// A job stays accounted for where the log of finished jobs is kept and
/// every worker that ran a job still runs it.
proof fn lemma_accounted_persists(s: PoolState, n: PoolState, t: nat)
    requires
        accounted_for(s, t),
        n.finished == s.finished,
        n.phases.len() == s.phases.len(),
        forall|w: int|
            0 <= w < s.phases.len() && #[trigger] s.phases[w] is Executing ==> n.phases[w]
                == s.phases[w],
    ensures
        accounted_for(n, t),
{
    if !s.done(t) {
        let w = choose|w: int| s.runs(w, t);
        assert(s.phases[w] is Executing);
        assert(n.runs(w, t));
    }
}

/// The invariant holds after every sequence of events on a fresh pool:
/// whatever the interleaving of submitters, workers and owner.
pub proof fn lemma_run_inv(size: nat, trace: Seq<Event>)
    requires
        size >= 1,
    ensures
        inv(run(init(size), trace)),
        run(init(size), trace).size() == size,
    decreases trace.len(),
{
    if trace.len() == 0 {
        lemma_init_inv(size);
    } else {
        lemma_run_inv(size, trace.drop_last());
        lemma_apply_inv(run(init(size), trace.drop_last()), trace.last());
    }
}

/// Each accepted job is in exactly one place: it waits in the queue, or one
/// worker runs it, or it has come back once. No job is run twice, by two
/// workers at a time or one after the other, and none is dropped.
pub proof fn lemma_exactly_once(s: PoolState, ticket: nat)
    requires
        inv(s),
        ticket < s.accepted,
    ensures
        s.queued(ticket) || s.running(ticket) || s.done(ticket),
        !(s.queued(ticket) && s.running(ticket)),
        !(s.queued(ticket) && s.done(ticket)),
        !(s.running(ticket) && s.done(ticket)),
        forall|v: int, w: int| s.runs(v, ticket) && s.runs(w, ticket) ==> v == w,
        forall|i: int, j: int|
            0 <= i < s.finished.len() && 0 <= j < s.finished.len() && s.finished[i] == ticket
                && s.finished[j] == ticket ==> i == j,
{
    if ticket < s.started {
        assert(accounted_for(s, ticket));
    }
    if s.running(ticket) {
        let w = choose|w: int| s.runs(w, ticket);
        assert(s.phases[w] is Executing);
    }
    if s.done(ticket) {
        let i = choose|i: int| 0 <= i < s.finished.len() && s.finished[i] == ticket;
        assert(s.finished[i] < s.started);
    }
    assert forall|v: int, w: int| s.runs(v, ticket) && s.runs(w, ticket) implies v == w by {
        assert(s.phases[v] is Executing);
        assert(s.phases[w] is Executing);
    }
}

/// In every state that a pool of `size` workers can reach, each accepted
/// job is in exactly one place.
pub proof fn lemma_exactly_once_always(size: nat, trace: Seq<Event>, ticket: nat)
    requires
        size >= 1,
        ticket < run(init(size), trace).accepted,
    ensures
        ({
            let s = run(init(size), trace);
            &&& s.queued(ticket) || s.running(ticket) || s.done(ticket)
            &&& !(s.queued(ticket) && s.running(ticket))
            &&& !(s.queued(ticket) && s.done(ticket))
            &&& !(s.running(ticket) && s.done(ticket))
            &&& forall|v: int, w: int| s.runs(v, ticket) && s.runs(w, ticket) ==> v == w
            &&& forall|i: int, j: int|
                0 <= i < s.finished.len() && 0 <= j < s.finished.len() && s.finished[i]
                    == ticket && s.finished[j] == ticket ==> i == j
        }),
{
    lemma_run_inv(size, trace);
    lemma_exactly_once(run(init(size), trace), ticket);
}

/// The jobs that were started and have not come back are those that the
/// workers run, so they are never more than there are workers.
pub proof fn lemma_bounded_concurrency(s: PoolState)
    requires
        inv(s),
    ensures
        s.in_flight() == count_executing(s.phases),
        0 <= s.in_flight() <= s.size(),
{
    lemma_count_bound(s.phases);
}

/// In every state that a pool of `size` workers can reach, at most `size`
/// jobs are in flight.
pub proof fn lemma_bounded_concurrency_always(size: nat, trace: Seq<Event>)
    requires
        size >= 1,
    ensures
        0 <= run(init(size), trace).in_flight() <= size,
{
    lemma_run_inv(size, trace);
    lemma_bounded_concurrency(run(init(size), trace));
}

/// Jobs are started in the order they were submitted: when a job has been
/// handed to a worker, so has every job submitted before it.
pub proof fn lemma_started_in_submission_order(s: PoolState, earlier: nat, later: nat)
    requires
        inv(s),
        earlier < later < s.accepted,
        !s.queued(later),
    ensures
        !s.queued(earlier),
{
}

/// The job that a worker takes from the queue is the oldest pending one.
pub proof fn lemma_dequeue_takes_oldest(s: PoolState, worker: nat)
    requires
        inv(s),
        s.in_phase(worker, Phase::Dequeuing),
        s.started < s.accepted,
    ensures
        apply(s, Event::Dequeue { worker }).runs(worker as int, s.started),
        forall|t: nat| s.queued(t) ==> s.started <= t,
        forall|t: nat|
            apply(s, Event::Dequeue { worker }).queued(t) <==> s.queued(t) && t != s.started,
{
}

/// Whether the jobs came back in the order of their tickets, and the job
/// that the only worker runs, if any, is the next one.
pub open spec fn in_order(s: PoolState) -> bool {
    &&& forall|i: int| 0 <= i < s.finished.len() ==> #[trigger] s.finished[i] == i
    &&& s.phases.len() == 1 && s.phases[0] is Executing ==> s.phases[0]->ticket
        == s.finished.len()
}

/// With a single worker, an event keeps the jobs coming back in order.
pub proof fn lemma_apply_in_order(s: PoolState, event: Event)
    requires
        inv(s),
        s.size() == 1,
        in_order(s),
    ensures
        in_order(apply(s, event)),
{
    let n = apply(s, event);
    if enabled(s, event) {
        match event {
            Event::Dequeue { worker } => {
                if s.started < s.accepted {
                    assert(s.phases.drop_last() =~= Seq::<Phase>::empty());
                    assert(count_executing(s.phases.drop_last()) == 0);
                    assert(count_executing(s.phases) == 0);
                }
            },
            Event::Finish { worker, fault } => {
                assert forall|i: int| 0 <= i < n.finished.len() implies #[trigger] n.finished[i]
                    == i by {
                    if i < s.finished.len() {
                        assert(s.finished[i] == i);
                    }
                }
            },
            _ => {},
        }
    }
}

/// With a single worker, jobs complete in the order they were submitted:
/// the `i`-th job to come back is the `i`-th job that was accepted.
pub proof fn lemma_single_worker_in_order(trace: Seq<Event>)
    ensures
        in_order(run(init(1), trace)),
        forall|i: int|
            0 <= i < run(init(1), trace).finished.len() ==> run(init(1), trace).finished[i]
                == i,
    decreases trace.len(),
{
    if trace.len() > 0 {
        let before = run(init(1), trace.drop_last());
        lemma_single_worker_in_order(trace.drop_last());
        lemma_run_inv(1, trace.drop_last());
        lemma_apply_in_order(before, trace.last());
    }
}

/// Shutdown is lossless: once every worker has stopped, the queue is closed
/// and empty, no job is in flight, and every accepted job has come back,
/// each exactly once.
pub proof fn lemma_stopped_pool_ran_everything(s: PoolState)
    requires
        inv(s),
        s.all_stopped(),
    ensures
        !s.open,
        s.pending() == 0,
        s.in_flight() == 0,
        s.finished.len() == s.accepted,
        s.finished.no_duplicates(),
        forall|t: nat| t < s.accepted <==> s.done(t),
{
    assert(s.phases[0] == Phase::Stopped);
    lemma_count_none(s.phases);
    assert forall|t: nat| t < s.accepted implies s.done(t) by {
        assert(accounted_for(s, t));
        if s.running(t) {
            let w = choose|w: int| s.runs(w, t);
            assert(s.phases[w] == Phase::Stopped);
        }
    }
    assert forall|t: nat| s.done(t) implies t < s.accepted by {
        let i = choose|i: int| 0 <= i < s.finished.len() && s.finished[i] == t;
        assert(s.finished[i] < s.started);
    }
}

/// Shutdown is blocking: the owner has joined every worker only when every
/// worker has stopped, and then every accepted job has come back.
pub proof fn lemma_shutdown_lossless(s: PoolState)
    requires
        inv(s),
        s.shut_down(),
    ensures
        s.all_stopped(),
        !s.open,
        s.finished.len() == s.accepted,
        forall|t: nat| t < s.accepted <==> s.done(t),
{
    lemma_stopped_pool_ran_everything(s);
}

/// No event undoes work: a job that was accepted stays accepted, a job
/// that has come back stays so, at its place in the order of completion, a
/// closed pool stays closed, a stopped worker stays stopped and a joined
/// worker stays joined.
pub proof fn lemma_progress_is_kept(s: PoolState, event: Event, i: int, w: int)
    requires
        inv(s),
    ensures
        apply(s, event).accepted >= s.accepted,
        apply(s, event).started >= s.started,
        0 <= i < s.finished.len() ==> i < apply(s, event).finished.len() && apply(
            s,
            event,
        ).finished[i] == s.finished[i],
        !s.open ==> !apply(s, event).open,
        0 <= w < s.phases.len() && s.phases[w] == Phase::Stopped ==> apply(s, event).phases[w]
            == Phase::Stopped,
        apply(s, event).joined >= s.joined,
{
}

/// A job that faults costs the pool no worker: the worker that ran it is
/// idle afterwards, as after a job that returned, and no other worker is
/// touched.
pub proof fn lemma_fault_keeps_capacity(s: PoolState, worker: nat, fault: bool)
    requires
        inv(s),
        enabled(s, Event::Finish { worker, fault }),
    ensures
        apply(s, Event::Finish { worker, fault }).size() == s.size(),
        apply(s, Event::Finish { worker, fault }).phases == s.phases.update(
            worker as int,
            Phase::Idle,
        ),
        apply(s, Event::Finish { worker, fault }).in_phase(worker, Phase::Idle),
{
}

/// A closed pool does not deadlock before it has stopped: as long as some
/// worker has not stopped, some event of a worker is enabled.
pub proof fn lemma_closed_pool_can_proceed(s: PoolState) -> (event: Event)
    requires
        inv(s),
        !s.open,
        !s.all_stopped(),
    ensures
        enabled(s, event),
        event is Request || event is Grant || event is Dequeue || event is Finish,
{
    let w = choose|w: int| 0 <= w < s.phases.len() && s.phases[w] != Phase::Stopped;
    if exists|d: int| 0 <= d < s.phases.len() && s.phases[d] == Phase::Dequeuing {
        let d = choose|d: int| 0 <= d < s.phases.len() && s.phases[d] == Phase::Dequeuing;
        Event::Dequeue { worker: d as nat }
    } else {
        match s.phases[w] {
            Phase::Idle => Event::Request { worker: w as nat },
            Phase::Acquiring => Event::Grant { worker: w as nat },
            Phase::Dequeuing => Event::Dequeue { worker: w as nat },
            Phase::Executing { ticket } => Event::Finish { worker: w as nat, fault: false },
            Phase::Stopped => Event::Close,
        }
    }
}

/// How many steps a worker in the given phase is from stopping, if it
/// finds no job on its way.
pub open spec fn distance(phase: Phase) -> nat {
    match phase {
        Phase::Executing { .. } => 4,
        Phase::Idle => 3,
        Phase::Acquiring => 2,
        Phase::Dequeuing => 1,
        Phase::Stopped => 0,
    }
}

/// The steps that the workers are from stopping, all together.
pub open spec fn total_distance(phases: Seq<Phase>) -> nat
    decreases phases.len(),
{
    if phases.len() == 0 {
        0
    } else {
        total_distance(phases.drop_last()) + distance(phases.last())
    }
}

/// The steps that a closed pool is from having stopped: four for each
/// pending job, and those that the workers are from stopping.
pub open spec fn remaining_steps(s: PoolState) -> nat {
    4 * s.pending() + total_distance(s.phases)
}

/// Replacing the phase of one worker changes the total distance by what
/// that worker adds to it.
pub proof fn lemma_distance_update(phases: Seq<Phase>, w: int, p: Phase)
    requires
        0 <= w < phases.len(),
    ensures
        total_distance(phases.update(w, p)) + distance(phases[w]) == total_distance(phases)
            + distance(p),
    decreases phases.len(),
{
    let updated = phases.update(w, p);
    if w == phases.len() - 1 {
        assert(updated.drop_last() =~= phases.drop_last());
    } else {
        assert(updated.drop_last() =~= phases.drop_last().update(w, p));
        lemma_distance_update(phases.drop_last(), w, p);
    }
}

/// Whether `event` is a step of a worker.
pub open spec fn of_worker(event: Event) -> bool {
    event is Request || event is Grant || event is Dequeue || event is Finish
}

/// Each step of a worker brings a closed pool one step nearer to having
/// stopped, and accepts no job.
pub proof fn lemma_worker_step_counts(s: PoolState, event: Event)
    requires
        inv(s),
        !s.open,
        of_worker(event),
        enabled(s, event),
    ensures
        remaining_steps(apply(s, event)) + 1 == remaining_steps(s),
        !apply(s, event).open,
        apply(s, event).accepted == s.accepted,
{
    match event {
        Event::Request { worker } => {
            lemma_distance_update(s.phases, worker as int, Phase::Acquiring);
        },
        Event::Grant { worker } => {
            lemma_distance_update(s.phases, worker as int, Phase::Dequeuing);
        },
        Event::Dequeue { worker } => {
            if s.started < s.accepted {
                lemma_distance_update(
                    s.phases,
                    worker as int,
                    Phase::Executing { ticket: s.started },
                );
            } else {
                lemma_distance_update(s.phases, worker as int, Phase::Stopped);
            }
        },
        Event::Finish { worker, fault } => {
            lemma_distance_update(s.phases, worker as int, Phase::Idle);
        },
        _ => {},
    }
}

/// Running a trace is running its first event, then the rest.
pub proof fn lemma_run_first(s: PoolState, first: Event, rest: Seq<Event>)
    ensures
        run(s, seq![first] + rest) == run(apply(s, first), rest),
    decreases rest.len(),
{
    let trace = seq![first] + rest;
    if rest.len() == 0 {
        assert(trace.drop_last() =~= Seq::<Event>::empty());
        assert(run(s, trace.drop_last()) == s);
        assert(trace.last() == first);
    } else {
        assert(trace.drop_last() =~= seq![first] + rest.drop_last());
        assert(trace.last() == rest.last());
        lemma_run_first(s, first, rest.drop_last());
    }
}

/// Shutdown can always complete, and loses nothing: from whatever state a
/// pool is closed in, its workers can take steps, as many as
/// [`remaining_steps`] counts, after which they have all stopped; and then
/// every job that was ever accepted has come back, each exactly once.
pub proof fn lemma_closed_pool_drains(s: PoolState) -> (trace: Seq<Event>)
    requires
        inv(s),
        !s.open,
    ensures
        trace.len() == remaining_steps(s),
        forall|i: int| 0 <= i < trace.len() ==> of_worker(#[trigger] trace[i]),
        inv(run(s, trace)),
        run(s, trace).all_stopped(),
        run(s, trace).accepted == s.accepted,
        run(s, trace).finished.len() == s.accepted,
        run(s, trace).finished.no_duplicates(),
        forall|t: nat| t < s.accepted ==> run(s, trace).done(t),
    decreases remaining_steps(s),
{
    if s.all_stopped() {
        lemma_stopped_pool_ran_everything(s);
        lemma_all_stopped_distance(s.phases);
        Seq::empty()
    } else {
        let first = lemma_closed_pool_can_proceed(s);
        lemma_worker_step_counts(s, first);
        lemma_apply_inv(s, first);
        let rest = lemma_closed_pool_drains(apply(s, first));
        lemma_run_first(s, first, rest);
        let trace = seq![first] + rest;
        assert forall|i: int| 0 <= i < trace.len() implies of_worker(#[trigger] trace[i]) by {
            if i > 0 {
                assert(trace[i] == rest[i - 1]);
            }
        }
        trace
    }
}

/// Workers that have all stopped are no step from stopping.
pub proof fn lemma_all_stopped_distance(phases: Seq<Phase>)
    requires
        forall|w: int| 0 <= w < phases.len() ==> phases[w] == Phase::Stopped,
    ensures
        total_distance(phases) == 0,
    decreases phases.len(),
{
    if phases.len() > 0 {
        let rest = phases.drop_last();
        assert forall|w: int| 0 <= w < rest.len() implies rest[w] == Phase::Stopped by {
            assert(rest[w] == phases[w]);
        }
        lemma_all_stopped_distance(rest);
    }
}

/// Jobs run side by side: while one worker runs a job, an idle worker can
/// reach the queue and start the next job without waiting for the first to
/// come back. Running a job holds nothing that another worker needs.
pub proof fn lemma_jobs_run_side_by_side(s: PoolState, busy: nat, idle: nat)
    requires
        inv(s),
        busy < s.size() && s.phases[busy as int] is Executing,
        s.in_phase(idle, Phase::Idle),
        s.endpoint_free(),
        s.pending() > 0,
    ensures
        ({
            let trace = seq![
                Event::Request { worker: idle },
                Event::Grant { worker: idle },
                Event::Dequeue { worker: idle },
            ];
            let n = run(s, trace);
            &&& n.phases[busy as int] == s.phases[busy as int]
            &&& n.runs(idle as int, s.started)
            &&& n.in_flight() == s.in_flight() + 1
            &&& n.endpoint_free()
        }),
{
    let e1 = Event::Request { worker: idle };
    let e2 = Event::Grant { worker: idle };
    let e3 = Event::Dequeue { worker: idle };
    let s1 = apply(s, e1);
    assert(s1.endpoint_free());
    let s2 = apply(s1, e2);
    let s3 = apply(s2, e3);
    lemma_run_first(s2, e3, Seq::empty());
    assert(seq![e3] + Seq::<Event>::empty() =~= seq![e3]);
    lemma_run_first(s1, e2, seq![e3]);
    assert(seq![e2] + seq![e3] =~= seq![e2, e3]);
    lemma_run_first(s, e1, seq![e2, e3]);
    assert(seq![e1] + seq![e2, e3] =~= seq![e1, e2, e3]);
    assert(run(s, seq![e1, e2, e3]) == s3);
    assert forall|w: int| 0 <= w < s3.phases.len() implies s3.phases[w] != Phase::Dequeuing by {
        if w != idle {
            assert(s.phases[w] != Phase::Dequeuing);
        }
    }
}

} // verus!
