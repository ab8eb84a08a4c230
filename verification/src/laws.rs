//! What holds of every pool, proved from the invariant of its model.

use vstd::prelude::*;
use crate::message::{jobs, terminations, Action, Message};
use crate::state::{
    lemma_initial_wf, lemma_receive_wf, lemma_shutdown_wf, lemma_step_wf,
    lemma_terminated_bounds, lemma_terminated_update, terminated, Event, PoolState,
};
use crate::worker::WorkerState;

verus! {

/// A queue that holds the jobs `waiting`, in order, and behind them
/// termination messages only, holds exactly those jobs and as many
/// termination messages as it has further places.
proof fn lemma_jobs_then_terminations<J>(queue: Seq<Message<J>>, waiting: Seq<J>)
    requires
        waiting.len() <= queue.len(),
        forall|i: int|
            0 <= i < waiting.len() ==> #[trigger] queue[i] == Message::NewJob(waiting[i]),
        forall|i: int| waiting.len() <= i < queue.len() ==> #[trigger] queue[i] is Terminate,
    ensures
        jobs(queue) == waiting,
        terminations(queue) == queue.len() - waiting.len(),
    decreases queue.len(),
{
    if queue.len() == 0 {
        assert(waiting =~= Seq::empty());
    } else {
        let last = queue.len() - 1;
        let front = queue.drop_last();
        assert(queue.last() == queue[last]);
        if waiting.len() <= last {
            assert(queue[last] is Terminate);
            lemma_jobs_then_terminations(front, waiting);
        } else {
            assert(queue[last] == Message::NewJob(waiting[last]));
            lemma_jobs_then_terminations(front, waiting.drop_last());
            assert(waiting.drop_last().push(waiting[last]) =~= waiting);
        }
    }
}

/// No job is lost and none is handed out twice: at every moment the jobs
/// accepted so far are, in the order of acceptance, those already handed to
/// a worker followed by those still waiting in the queue.
pub proof fn lemma_jobs_are_conserved<J>(s: PoolState<J>)
    requires
        s.wf(),
    ensures
        s.submitted == s.dispatched + jobs(s.queue),
{
    let waiting = s.submitted.subrange(s.dispatched.len() as int, s.submitted.len() as int);
    lemma_jobs_then_terminations(s.queue, waiting);
    assert(s.submitted =~= s.dispatched + waiting);
}

/// Each job goes to one worker: a request that is answered with a job hands
/// out the oldest waiting job, takes it off the queue, and marks the asking
/// worker, and no other, as busy.
pub proof fn lemma_job_goes_to_one_worker<J>(s: PoolState<J>, id: int, job: J)
    requires
        s.wf(),
        s.action_for(id) == Action::Run(job),
    ensures
        jobs(s.queue).len() > 0,
        job == jobs(s.queue)[0],
        s.after_receive(id).dispatched == s.dispatched.push(job),
        jobs(s.after_receive(id).queue) == jobs(s.queue).drop_first(),
        s.after_receive(id).workers[id].state == WorkerState::Busy,
        forall|k: int|
            0 <= k < s.workers.len() && k != id ==> #[trigger] s.after_receive(id).workers[k]
                == s.workers[k],
{
    let t = s.after_receive(id);
    lemma_receive_wf(s, id);
    lemma_jobs_are_conserved(s);
    lemma_jobs_are_conserved(t);
    assert(s.queue[0] == Message::NewJob(job));
    assert(s.pending() > 0);
    let rest = jobs(t.queue);
    assert(s.dispatched + jobs(s.queue) == s.dispatched.push(job) + rest);
    assert(jobs(s.queue) =~= seq![job] + rest) by {
        let whole = s.dispatched + jobs(s.queue);
        let other = s.dispatched.push(job) + rest;
        assert(whole.len() == other.len());
        assert forall|i: int| 0 <= i < jobs(s.queue).len() implies jobs(s.queue)[i] == (seq![job]
            + rest)[i] by {
            assert(whole[s.dispatched.len() + i] == other[s.dispatched.len() + i]);
        }
    }
    assert(rest =~= jobs(s.queue).drop_first());
}

/// Each termination message goes to one worker: a running worker that is
/// told to exit has taken one termination message off the queue, it alone
/// has terminated, and the waiting jobs are untouched.
pub proof fn lemma_termination_goes_to_one_worker<J>(s: PoolState<J>, id: int)
    requires
        s.wf(),
        s.can_receive(id),
        s.action_for(id) == Action::<J>::Exit,
    ensures
        terminations(s.queue) > 0,
        terminations(s.after_receive(id).queue) == terminations(s.queue) - 1,
        jobs(s.after_receive(id).queue) == jobs(s.queue),
        s.after_receive(id).dispatched == s.dispatched,
        s.after_receive(id).workers[id].state == WorkerState::Terminated,
        terminated(s.after_receive(id).workers) == terminated(s.workers) + 1,
        forall|k: int|
            0 <= k < s.workers.len() && k != id ==> #[trigger] s.after_receive(id).workers[k]
                == s.workers[k],
{
    let t = s.after_receive(id);
    lemma_receive_wf(s, id);
    lemma_terminated_update(s.workers, id, t.workers[id]);
    lemma_jobs_are_conserved(s);
    lemma_jobs_are_conserved(t);
    lemma_one_termination_per_worker(s);
    lemma_one_termination_per_worker(t);
    assert(s.queue[0] is Terminate);
    assert(jobs(t.queue) =~= jobs(s.queue)) by {
        let whole = s.dispatched + jobs(s.queue);
        let other = t.dispatched + jobs(t.queue);
        assert(whole == other);
        assert(jobs(s.queue).len() == jobs(t.queue).len());
        assert forall|i: int| 0 <= i < jobs(s.queue).len() implies jobs(s.queue)[i] == jobs(
            t.queue,
        )[i] by {
            assert(whole[s.dispatched.len() + i] == other[s.dispatched.len() + i]);
        }
    }
}

/// Shutdown completes the work: once every worker has terminated, every job
/// that was accepted has been handed to a worker, no worker is still running
/// one, and the queue is empty.
pub proof fn lemma_finished_pool_did_all_jobs<J>(s: PoolState<J>)
    requires
        s.wf(),
        s.finished(),
    ensures
        s.closing,
        s.dispatched == s.submitted,
        s.queue.len() == 0,
        !s.busy(),
{
    lemma_terminated_bounds(s.workers);
    assert(s.dispatched =~= s.submitted);
}

/// Shutdown sends exactly one termination message per worker, and each
/// worker takes exactly one: before shutdown no such message exists and no
/// worker has terminated; afterwards the messages still queued and the
/// workers already terminated add up to the size of the pool.
pub proof fn lemma_one_termination_per_worker<J>(s: PoolState<J>)
    requires
        s.wf(),
    ensures
        !s.closing ==> terminations(s.queue) == 0 && terminated(s.workers) == 0,
        s.closing ==> terminations(s.queue) + terminated(s.workers) == s.workers.len(),
        terminations(s.after_shutdown().queue) + terminated(s.after_shutdown().workers)
            == s.workers.len(),
{
    let waiting = s.submitted.subrange(s.dispatched.len() as int, s.submitted.len() as int);
    lemma_jobs_then_terminations(s.queue, waiting);
    let t = s.after_shutdown();
    lemma_shutdown_wf(s);
    let still = t.submitted.subrange(t.dispatched.len() as int, t.submitted.len() as int);
    lemma_jobs_then_terminations(t.queue, still);
}

/// Shutdown cannot stall: once it has begun, a worker that is still running
/// is never told to wait. Each of its requests takes one message off the
/// queue, and when no job is waiting that message tells it to exit.
pub proof fn lemma_shutdown_reaches_every_worker<J>(s: PoolState<J>, id: int)
    requires
        s.wf(),
        s.closing,
        s.can_receive(id),
    ensures
        s.queue.len() > 0,
        s.action_for(id) != Action::<J>::Wait,
        s.after_receive(id).queue.len() == s.queue.len() - 1,
        s.pending() == 0 ==> s.action_for(id) == Action::<J>::Exit && !s.after_receive(
            id,
        ).workers[id].running(),
{
    lemma_terminated_bounds(s.workers);
    if s.pending() == 0 {
        assert(s.queue[0] is Terminate);
    } else {
        assert(s.queue[0] is NewJob);
    }
}

/// The set of workers is fixed when the pool is built: no operation adds,
/// removes or renumbers a worker.
pub proof fn lemma_workers_are_fixed<J>(s: PoolState<J>, job: J, id: int)
    requires
        s.wf(),
    ensures
        s.workers.len() >= 1,
        s.after_execute(job).workers == s.workers,
        s.after_shutdown().workers == s.workers,
        s.after_receive(id).workers.len() == s.workers.len(),
        s.after_join(id).workers.len() == s.workers.len(),
        forall|k: int|
            0 <= k < s.workers.len() ==> (#[trigger] s.after_receive(id).workers[k]).id == k,
        forall|k: int|
            0 <= k < s.workers.len() ==> (#[trigger] s.after_join(id).workers[k]).id == k,
{
}

/// Termination is final: a worker that has terminated takes no further
/// message, and no operation brings it back.
pub proof fn lemma_terminated_is_final<J>(s: PoolState<J>, job: J, id: int, k: int)
    requires
        s.wf(),
        0 <= k < s.workers.len(),
        !s.workers[k].running(),
    ensures
        s.action_for(k) == Action::<J>::Exit,
        s.after_receive(k) == s,
        !s.after_receive(id).workers[k].running(),
        !s.after_execute(job).workers[k].running(),
        !s.after_shutdown().workers[k].running(),
        !s.after_join(id).workers[k].running(),
{
}

/// Whether shutdown is asked for somewhere in `events`.
pub open spec fn asks_shutdown<J>(events: Seq<Event<J>>) -> bool {
    exists|i: int| 0 <= i < events.len() && #[trigger] events[i] is Shutdown
}

/// The jobs that `events` offer before shutdown is first asked for, in the
/// order of the offers.
pub open spec fn offered_in_time<J>(events: Seq<Event<J>>) -> Seq<J>
    decreases events.len(),
{
    if events.len() == 0 {
        Seq::empty()
    } else {
        let earlier = events.drop_last();
        match events.last() {
            Event::Execute(job) => if asks_shutdown(earlier) {
                offered_in_time(earlier)
            } else {
                offered_in_time(earlier).push(job)
            },
            _ => offered_in_time(earlier),
        }
    }
}

/// Whatever the owner and the workers do, and in whatever order, a pool
/// built with `size` workers stays well formed and keeps its size; it has
/// accepted exactly the jobs offered before shutdown was first asked for; and
/// once every worker has terminated, each of those jobs has been handed to a
/// worker, in the order of the offers, and none is still running or waiting.
///
/// Joining a worker's thread returns only after that worker has left its
/// loop, which it does only when the pool has recorded it as terminated. So
/// a shutdown that has joined every thread has seen every job through.
pub proof fn lemma_every_history<J>(size: nat, events: Seq<Event<J>>)
    requires
        1 <= size <= usize::MAX,
    ensures
        ({
            let s = PoolState::<J>::initial(size).run(events);
            &&& s.wf()
            &&& s.workers.len() == size
            &&& s.closing == asks_shutdown(events)
            &&& s.submitted == offered_in_time(events)
            &&& s.finished() ==> s.dispatched == offered_in_time(events) && s.queue.len() == 0
                && !s.busy()
        }),
    decreases events.len(),
{
    let start = PoolState::<J>::initial(size);
    let s = start.run(events);
    if events.len() == 0 {
        lemma_initial_wf::<J>(size);
        assert(s.submitted =~= offered_in_time(events));
    } else {
        let earlier = events.drop_last();
        let before = start.run(earlier);
        lemma_every_history(size, earlier);
        lemma_step_wf(before, events.last());
        assert(asks_shutdown(events) == (asks_shutdown(earlier) || events.last() is Shutdown))
            by {
            if asks_shutdown(earlier) {
                let i = choose|i: int|
                    0 <= i < earlier.len() && #[trigger] earlier[i] is Shutdown;
                assert(events[i] is Shutdown);
            }
            if events.last() is Shutdown {
                assert(events[events.len() - 1] is Shutdown);
            }
            if asks_shutdown(events) {
                let i = choose|i: int| 0 <= i < events.len() && #[trigger] events[i] is Shutdown;
                if i < earlier.len() {
                    assert(earlier[i] is Shutdown);
                }
            }
        }
    }
    if s.finished() {
        lemma_finished_pool_did_all_jobs(s);
    }
}

} // verus!
