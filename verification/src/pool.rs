//! The worker pool: a fixed set of workers behind one queue.

use vstd::prelude::*;
use crate::message::{Action, Message};
use crate::queue::TaskQueue;
use crate::state::{
    lemma_execute_wf, lemma_initial_wf, lemma_join_wf, lemma_receive_wf, lemma_shutdown_wf,
    PoolState,
};
use crate::worker::Worker;

verus! {

/// Why a pool could not be built.
#[derive(Clone, Copy, Debug, PartialEq, Eq, Structural)]
pub enum PoolCreationError {
    /// A pool needs at least one worker.
    ZeroSize,
}

/// A pool of workers that share one queue of jobs of type `J`.
///
/// The pool is the single shared record of the protocol. Whoever drives it
/// (the owner that submits and shuts down, the threads that work) takes
/// exclusive access, calls one operation, and releases it before acting on
/// the answer.
pub struct ThreadPool<J> {
    workers: Vec<Worker>,
    queue: TaskQueue<J>,
    closing: bool,
    submitted: Ghost<Seq<J>>,
    dispatched: Ghost<Seq<J>>,
}

impl<J> View for ThreadPool<J> {
    type V = PoolState<J>;

    closed spec fn view(&self) -> PoolState<J> {
        PoolState {
            workers: self.workers@,
            queue: self.queue@,
            closing: self.closing,
            submitted: self.submitted@,
            dispatched: self.dispatched@,
        }
    }
}

impl<J> ThreadPool<J> {
    /// The invariant of every pool: its model is well formed.
    pub open spec fn inv(&self) -> bool {
        self@.wf()
    }

    /// Builds a pool of `size` idle workers, numbered from zero, with an
    /// empty queue. A pool of no workers is refused.
    pub fn new(size: usize) -> (result: Result<ThreadPool<J>, PoolCreationError>)
        ensures
            size == 0 ==> result == Err::<ThreadPool<J>, PoolCreationError>(
                PoolCreationError::ZeroSize,
            ),
            size > 0 ==> result is Ok && result->Ok_0.inv() && result->Ok_0@
                == PoolState::<J>::initial(size as nat),
    {
        if size == 0 {
            return Err(PoolCreationError::ZeroSize);
        }
        let mut workers: Vec<Worker> = Vec::new();
        let mut id: usize = 0;
        while id < size
            invariant
                id <= size,
                workers@.len() == id,
                forall|i: int|
                    0 <= i < id ==> #[trigger] workers@[i] == PoolState::<J>::initial(
                        size as nat,
                    ).workers[i],
            decreases size - id,
        {
            workers.push(Worker::new(id));
            id += 1;
        }
        let pool = ThreadPool {
            workers,
            queue: TaskQueue::new(),
            closing: false,
            submitted: Ghost(Seq::empty()),
            dispatched: Ghost(Seq::empty()),
        };
        proof {
            lemma_initial_wf::<J>(size as nat);
            assert(pool@.workers =~= PoolState::<J>::initial(size as nat).workers);
        }
        Ok(pool)
    }

    /// The number of workers, fixed when the pool was built.
    pub fn size(&self) -> (n: usize)
        ensures
            n == self@.workers.len(),
    {
        self.workers.len()
    }

    /// Whether shutdown has begun.
    pub fn is_closing(&self) -> (b: bool)
        ensures
            b == self@.closing,
    {
        self.closing
    }

    /// The number of messages sent and not yet received.
    pub fn queued(&self) -> (n: usize)
        ensures
            n == self@.queue.len(),
    {
        self.queue.len()
    }

    /// The record of worker `id`, if there is such a worker.
    pub fn worker(&self, id: usize) -> (worker: Option<Worker>)
        ensures
            id < self@.workers.len() ==> worker == Some(self@.workers[id as int]),
            id >= self@.workers.len() ==> worker is None,
    {
        if id < self.workers.len() {
            Some(self.workers[id])
        } else {
            None
        }
    }

    /// Whether every worker has terminated.
    pub fn is_finished(&self) -> (b: bool)
        ensures
            b == self@.finished(),
    {
        let mut id: usize = 0;
        while id < self.workers.len()
            invariant
                id <= self.workers.len(),
                forall|i: int| 0 <= i < id ==> !(#[trigger] self.workers@[i]).running(),
            decreases self.workers.len() - id,
        {
            if self.workers[id].is_running() {
                assert(self@.workers[id as int].running());
                return false;
            }
            id += 1;
        }
        true
    }

    /// Submits `job`: it joins the back of the queue and this call returns
    /// at once, with no word on when the job will run. Once shutdown has
    /// begun the pool takes no more jobs and hands `job` back.
    pub fn execute(&mut self, job: J) -> (result: Result<(), J>)
        requires
            old(self).inv(),
        ensures
            final(self).inv(),
            final(self)@ == old(self)@.after_execute(job),
            old(self)@.closing ==> result == Err::<(), J>(job),
            !old(self)@.closing ==> result is Ok,
    {
        if self.closing {
            return Err(job);
        }
        proof {
            lemma_execute_wf(self@, job);
            self.submitted@ = self.submitted@.push(job);
        }
        self.queue.send(Message::NewJob(job));
        Ok(())
    }

    /// Worker `id` asks for its next message. By asking, it reports that it
    /// has finished whatever it was running.
    ///
    /// On an empty queue the worker is told to wait. Otherwise it takes the
    /// oldest message: a job, which it is to run, or a termination message,
    /// which ends it. A worker that has terminated, or an id that names no
    /// worker, takes nothing and is told to exit.
    pub fn receive(&mut self, id: usize) -> (action: Action<J>)
        requires
            old(self).inv(),
        ensures
            final(self).inv(),
            final(self)@ == old(self)@.after_receive(id as int),
            action == old(self)@.action_for(id as int),
    {
        if id >= self.workers.len() {
            return Action::Exit;
        }
        let mut worker = self.workers[id];
        if !worker.is_running() {
            return Action::Exit;
        }
        proof {
            lemma_receive_wf(self@, id as int);
        }
        match self.queue.receive() {
            None => {
                worker.wait();
                self.workers.set(id, worker);
                Action::Wait
            },
            Some(message) => {
                proof {
                    self.dispatched@ = old(self)@.after_receive(id as int).dispatched;
                }
                let action = worker.deliver(message);
                self.workers.set(id, worker);
                action
            },
        }
    }

    /// Begins shutdown: one termination message per worker joins the queue,
    /// behind every job already submitted. Returns whether this call began
    /// it; a later call changes nothing.
    pub fn shutdown(&mut self) -> (begun: bool)
        requires
            old(self).inv(),
        ensures
            final(self).inv(),
            final(self)@ == old(self)@.after_shutdown(),
            begun == !old(self)@.closing,
    {
        if self.closing {
            return false;
        }
        proof {
            lemma_shutdown_wf(self@);
        }
        let size = self.workers.len();
        let mut sent: usize = 0;
        while sent < size
            invariant
                sent <= size,
                size == self.workers@.len(),
                self.workers == old(self).workers,
                self.closing == old(self).closing,
                self.submitted == old(self).submitted,
                self.dispatched == old(self).dispatched,
                self.queue@ == old(self).queue@ + Seq::new(
                    sent as nat,
                    |i: int| Message::<J>::Terminate,
                ),
            decreases size - sent,
        {
            self.queue.send(Message::Terminate);
            sent += 1;
        }
        self.closing = true;
        true
    }

    /// Takes the thread of the next worker to join, lowest id first, and
    /// returns that worker's id. Returns `None` before shutdown has begun
    /// and after every thread was taken.
    pub fn next_join(&mut self) -> (next: Option<usize>)
        requires
            old(self).inv(),
        ensures
            final(self).inv(),
            match next {
                Some(id) => old(self)@.joins_next(id as int) && final(self)@ == old(
                    self,
                )@.after_join(id as int),
                None => old(self)@.nothing_to_join() && final(self)@ == old(self)@,
            },
    {
        if !self.closing {
            return None;
        }
        let mut id: usize = 0;
        while id < self.workers.len()
            invariant
                id <= self.workers.len(),
                *self == *old(self),
                self.inv(),
                self.closing,
                forall|i: int| 0 <= i < id ==> !(#[trigger] self.workers@[i]).joinable,
            decreases self.workers.len() - id,
        {
            let mut worker = self.workers[id];
            if worker.take_thread() {
                proof {
                    lemma_join_wf(self@, id as int);
                }
                self.workers.set(id, worker);
                assert(self@.workers =~= old(self)@.after_join(id as int).workers);
                return Some(id);
            }
            id += 1;
        }
        None
    }
}

} // verus!
