//! The mathematical model of a pool: what it holds, which states are
//! well formed, and how each operation changes it.

use vstd::prelude::*;
use crate::message::{Action, Message};
use crate::worker::{Worker, WorkerState};

verus! {

/// How many of `workers` have terminated.
pub open spec fn terminated(workers: Seq<Worker>) -> nat
    decreases workers.len(),
{
    if workers.len() == 0 {
        0
    } else {
        terminated(workers.drop_last()) + if workers.last().running() {
            0nat
        } else {
            1nat
        }
    }
}

/// One call on a pool, by its owner or by a worker.
pub enum Event<J> {
    /// The owner offers a job.
    Execute(J),
    /// The worker of this id asks for its next message.
    Receive(int),
    /// The owner asks for shutdown.
    Shutdown,
    /// The owner takes the thread of the worker of this id to join it.
    Join(int),
}

/// A pool at one instant.
pub struct PoolState<J> {
    /// The workers, by id.
    pub workers: Seq<Worker>,
    /// The messages sent and not yet received, oldest first.
    pub queue: Seq<Message<J>>,
    /// Whether shutdown has begun.
    pub closing: bool,
    /// Every job ever accepted, in the order of acceptance.
    pub submitted: Seq<J>,
    /// Every job ever handed to a worker, in the order of the hand-over.
    pub dispatched: Seq<J>,
}

impl<J> PoolState<J> {
    /// The number of jobs accepted and not yet handed to a worker.
    pub open spec fn pending(self) -> int {
        self.submitted.len() - self.dispatched.len()
    }

    /// The states that a pool can be in.
    ///
    /// The workers are numbered by position and there is at least one. The
    /// jobs handed out are the first of those accepted, and the rest wait at
    /// the front of the queue in the order of acceptance. Behind them the
    /// queue holds termination messages only: none before shutdown, and
    /// afterwards one for each worker that has not yet terminated. No worker
    /// terminates while a job is waiting. Thread slots are emptied only
    /// during shutdown, lowest id first.
    pub open spec fn wf(self) -> bool {
        &&& self.workers.len() >= 1
        &&& forall|i: int| 0 <= i < self.workers.len() ==> (#[trigger] self.workers[i]).id == i
        &&& self.dispatched.len() <= self.submitted.len()
        &&& self.dispatched =~= self.submitted.subrange(0, self.dispatched.len() as int)
        &&& self.pending() <= self.queue.len()
        &&& forall|i: int|
            0 <= i < self.pending() ==> #[trigger] self.queue[i] == Message::NewJob(
                self.submitted[self.dispatched.len() + i],
            )
        &&& forall|i: int|
            self.pending() <= i < self.queue.len() ==> #[trigger] self.queue[i] is Terminate
        &&& !self.closing ==> self.queue.len() == self.pending() && terminated(self.workers) == 0
        &&& self.closing ==> self.queue.len() - self.pending() + terminated(self.workers)
            == self.workers.len()
        &&& terminated(self.workers) > 0 ==> self.pending() == 0
        &&& forall|i: int|
            0 <= i < self.workers.len() && !(#[trigger] self.workers[i]).joinable
                ==> self.closing
        &&& forall|i: int, j: int|
            0 <= i < j < self.workers.len() && !(#[trigger] self.workers[j]).joinable ==> !(
            #[trigger] self.workers[i]).joinable
    }

    /// A pool of `size` workers right after construction.
    pub open spec fn initial(size: nat) -> Self {
        PoolState {
            workers: Seq::new(
                size,
                |i: int| Worker { id: i as usize, state: WorkerState::Idle, joinable: true },
            ),
            queue: Seq::empty(),
            closing: false,
            submitted: Seq::empty(),
            dispatched: Seq::empty(),
        }
    }

    /// The pool after `job` was offered to it. Once shutdown has begun the
    /// pool takes no more jobs.
    pub open spec fn after_execute(self, job: J) -> Self {
        if self.closing {
            self
        } else {
            PoolState {
                queue: self.queue.push(Message::NewJob(job)),
                submitted: self.submitted.push(job),
                ..self
            }
        }
    }

    /// Whether `id` names a worker that may still receive.
    pub open spec fn can_receive(self, id: int) -> bool {
        0 <= id < self.workers.len() && self.workers[id].running()
    }

    /// What worker `id` is told when it asks for its next message.
    pub open spec fn action_for(self, id: int) -> Action<J> {
        if !self.can_receive(id) {
            Action::Exit
        } else if self.queue.len() == 0 {
            Action::Wait
        } else {
            self.queue[0].action()
        }
    }

    /// The pool after worker `id` asked for its next message. A worker that
    /// asks has finished whatever it was running. It takes the oldest
    /// message, if there is one.
    pub open spec fn after_receive(self, id: int) -> Self {
        if !self.can_receive(id) {
            self
        } else if self.queue.len() == 0 {
            PoolState { workers: self.workers.update(id, self.workers[id].waiting()), ..self }
        } else {
            PoolState {
                workers: self.workers.update(id, self.workers[id].after(self.queue[0])),
                queue: self.queue.drop_first(),
                dispatched: match self.queue[0] {
                    Message::NewJob(job) => self.dispatched.push(job),
                    Message::Terminate => self.dispatched,
                },
                ..self
            }
        }
    }

    /// The pool after shutdown was asked for: the first time, one
    /// termination message per worker joins the queue.
    pub open spec fn after_shutdown(self) -> Self {
        if self.closing {
            self
        } else {
            PoolState {
                queue: self.queue + Seq::new(self.workers.len(), |i: int| Message::Terminate),
                closing: true,
                ..self
            }
        }
    }

    /// Whether worker `id` is the next one to join: shutdown has begun, its
    /// thread slot is full, and those of all workers before it are empty.
    pub open spec fn joins_next(self, id: int) -> bool {
        &&& self.closing
        &&& 0 <= id < self.workers.len()
        &&& self.workers[id].joinable
        &&& forall|i: int| 0 <= i < id ==> !(#[trigger] self.workers[i]).joinable
    }

    /// Whether there is nothing to join: shutdown has not begun, or every
    /// thread slot is empty.
    pub open spec fn nothing_to_join(self) -> bool {
        !self.closing || forall|i: int|
            0 <= i < self.workers.len() ==> !(#[trigger] self.workers[i]).joinable
    }

    /// The pool after the thread of worker `id` was taken to be joined.
    pub open spec fn after_join(self, id: int) -> Self {
        if 0 <= id < self.workers.len() {
            PoolState { workers: self.workers.update(id, self.workers[id].joined()), ..self }
        } else {
            self
        }
    }

    /// The pool after `event`. A thread is taken only from the worker whose
    /// turn it is to be joined.
    pub open spec fn step(self, event: Event<J>) -> Self {
        match event {
            Event::Execute(job) => self.after_execute(job),
            Event::Receive(id) => self.after_receive(id),
            Event::Shutdown => self.after_shutdown(),
            Event::Join(id) => if self.joins_next(id) {
                self.after_join(id)
            } else {
                self
            },
        }
    }

    /// The pool after `events`, in their order.
    pub open spec fn run(self, events: Seq<Event<J>>) -> Self
        decreases events.len(),
    {
        if events.len() == 0 {
            self
        } else {
            self.run(events.drop_last()).step(events.last())
        }
    }

    /// Whether every worker has terminated.
    pub open spec fn finished(self) -> bool {
        forall|i: int| 0 <= i < self.workers.len() ==> !(#[trigger] self.workers[i]).running()
    }

    /// Whether some worker is running a job.
    pub open spec fn busy(self) -> bool {
        exists|i: int|
            0 <= i < self.workers.len() && (#[trigger] self.workers[i]).state
                == WorkerState::Busy
    }
}

/// Replacing one worker changes the count of terminated workers by that
/// worker alone.
pub proof fn lemma_terminated_update(workers: Seq<Worker>, id: int, worker: Worker)
    requires
        0 <= id < workers.len(),
    ensures
        terminated(workers.update(id, worker)) + (if workers[id].running() {
            0nat
        } else {
            1nat
        }) == terminated(workers) + (if worker.running() {
            0nat
        } else {
            1nat
        }),
    decreases workers.len(),
{
    let updated = workers.update(id, worker);
    if id == workers.len() - 1 {
        assert(updated.drop_last() =~= workers.drop_last());
    } else {
        lemma_terminated_update(workers.drop_last(), id, worker);
        assert(updated.drop_last() =~= workers.drop_last().update(id, worker));
    }
}

/// The count of terminated workers lies between nothing and all, and meets
/// either end exactly when no worker, or every worker, has terminated.
pub proof fn lemma_terminated_bounds(workers: Seq<Worker>)
    ensures
        terminated(workers) <= workers.len(),
        terminated(workers) == 0 <==> forall|i: int|
            0 <= i < workers.len() ==> (#[trigger] workers[i]).running(),
        terminated(workers) == workers.len() <==> forall|i: int|
            0 <= i < workers.len() ==> !(#[trigger] workers[i]).running(),
    decreases workers.len(),
{
    if workers.len() > 0 {
        let front = workers.drop_last();
        lemma_terminated_bounds(front);
        assert forall|i: int| 0 <= i < front.len() implies front[i] == workers[i] by {}
        if terminated(workers) == 0 {
            assert forall|i: int| 0 <= i < workers.len() implies (#[trigger] workers[i]).running()
                by {
                if i < front.len() {
                    assert(front[i].running());
                }
            }
        }
        if terminated(workers) == workers.len() {
            assert forall|i: int| 0 <= i < workers.len() implies !(#[trigger] workers[i]).running()
                by {
                if i < front.len() {
                    assert(!front[i].running());
                }
            }
        }
        if forall|i: int| 0 <= i < workers.len() ==> (#[trigger] workers[i]).running() {
            assert forall|i: int| 0 <= i < front.len() implies (#[trigger] front[i]).running() by {
                assert(workers[i].running());
            }
            assert(workers[workers.len() - 1].running());
        }
        if forall|i: int| 0 <= i < workers.len() ==> !(#[trigger] workers[i]).running() {
            assert forall|i: int| 0 <= i < front.len() implies !(#[trigger] front[i]).running() by {
                assert(!workers[i].running());
            }
            assert(!workers[workers.len() - 1].running());
        }
    }
}

/// A freshly built pool is well formed.
pub proof fn lemma_initial_wf<J>(size: nat)
    requires
        1 <= size <= usize::MAX,
    ensures
        PoolState::<J>::initial(size).wf(),
{
    let s = PoolState::<J>::initial(size);
    lemma_terminated_bounds(s.workers);
}

/// Offering a job keeps the pool well formed.
pub proof fn lemma_execute_wf<J>(s: PoolState<J>, job: J)
    requires
        s.wf(),
    ensures
        s.after_execute(job).wf(),
{
    let t = s.after_execute(job);
    if !s.closing {
        assert(t.dispatched =~= t.submitted.subrange(0, t.dispatched.len() as int));
        assert forall|i: int| 0 <= i < t.pending() implies #[trigger] t.queue[i]
            == Message::NewJob(t.submitted[t.dispatched.len() + i]) by {
            if i < s.pending() {
                assert(t.queue[i] == s.queue[i]);
            }
        }
    }
}

/// A worker's request for its next message keeps the pool well formed.
pub proof fn lemma_receive_wf<J>(s: PoolState<J>, id: int)
    requires
        s.wf(),
    ensures
        s.after_receive(id).wf(),
{
    let t = s.after_receive(id);
    if s.can_receive(id) {
        lemma_terminated_update(s.workers, id, t.workers[id]);
        lemma_terminated_bounds(s.workers);
        if s.queue.len() > 0 {
            assert forall|i: int| 0 <= i < t.queue.len() implies t.queue[i] == s.queue[i + 1] by {}
            match s.queue[0] {
                Message::NewJob(job) => {
                    assert(s.pending() > 0);
                    assert(job == s.submitted[s.dispatched.len() as int]);
                    assert(t.dispatched =~= t.submitted.subrange(0, t.dispatched.len() as int));
                    assert forall|i: int| 0 <= i < t.pending() implies #[trigger] t.queue[i]
                        == Message::NewJob(t.submitted[t.dispatched.len() + i]) by {
                        assert(t.queue[i] == s.queue[i + 1]);
                    }
                    assert forall|i: int|
                        t.pending() <= i < t.queue.len() implies #[trigger] t.queue[i]
                        is Terminate by {
                        assert(t.queue[i] == s.queue[i + 1]);
                    }
                },
                Message::Terminate => {
                    assert(s.pending() == 0);
                    assert forall|i: int|
                        t.pending() <= i < t.queue.len() implies #[trigger] t.queue[i]
                        is Terminate by {
                        assert(t.queue[i] == s.queue[i + 1]);
                    }
                },
            }
        }
    }
}

/// Asking for shutdown keeps the pool well formed.
pub proof fn lemma_shutdown_wf<J>(s: PoolState<J>)
    requires
        s.wf(),
    ensures
        s.after_shutdown().wf(),
{
    let t = s.after_shutdown();
    if !s.closing {
        assert forall|i: int| 0 <= i < t.pending() implies #[trigger] t.queue[i]
            == Message::NewJob(t.submitted[t.dispatched.len() + i]) by {
            assert(t.queue[i] == s.queue[i]);
        }
    }
}

/// Taking the next thread to join keeps the pool well formed.
pub proof fn lemma_join_wf<J>(s: PoolState<J>, id: int)
    requires
        s.wf(),
        s.joins_next(id),
    ensures
        s.after_join(id).wf(),
{
    let t = s.after_join(id);
    lemma_terminated_update(s.workers, id, t.workers[id]);
    assert forall|i: int, j: int|
        0 <= i < j < t.workers.len() && !(#[trigger] t.workers[j]).joinable implies !(
    #[trigger] t.workers[i]).joinable by {
        if j != id {
            assert(!s.workers[j].joinable);
            if i != id {
                assert(!s.workers[i].joinable);
            }
        }
    }
}

/// Every call keeps the pool well formed.
pub proof fn lemma_step_wf<J>(s: PoolState<J>, event: Event<J>)
    requires
        s.wf(),
    ensures
        s.step(event).wf(),
{
    match event {
        Event::Execute(job) => lemma_execute_wf(s, job),
        Event::Receive(id) => lemma_receive_wf(s, id),
        Event::Shutdown => lemma_shutdown_wf(s),
        Event::Join(id) => {
            if s.joins_next(id) {
                lemma_join_wf(s, id);
            }
        },
    }
}

} // verus!
