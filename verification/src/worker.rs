//! One worker of the pool: its place in the life cycle and its thread slot.

use vstd::prelude::*;
use crate::message::{Action, Message};

verus! {

/// Where a worker stands. `Idle` and `Busy` are the two faces of a running
/// worker; `Terminated` is final.
#[derive(Clone, Copy, Debug, PartialEq, Eq, Structural)]
pub enum WorkerState {
    /// Waiting for a message.
    Idle,
    /// Running a job.
    Busy,
    /// Has taken its termination message and left the loop.
    Terminated,
}

/// A worker as the pool records it.
#[derive(Clone, Copy, Debug, PartialEq, Eq, Structural)]
pub struct Worker {
    /// The worker's position in the pool.
    pub id: usize,
    pub state: WorkerState,
    /// Whether the worker's thread is still to be joined. The slot starts
    /// full and is emptied once, when shutdown takes the thread to join it.
    pub joinable: bool,
}

impl Worker {
    /// Whether the worker has not been terminated.
    pub open spec fn running(self) -> bool {
        self.state != WorkerState::Terminated
    }

    /// The worker after it has received `message`.
    pub open spec fn after<J>(self, message: Message<J>) -> Worker {
        Worker {
            state: match message {
                Message::NewJob(_) => WorkerState::Busy,
                Message::Terminate => WorkerState::Terminated,
            },
            ..self
        }
    }

    /// The worker after it found the queue empty.
    pub open spec fn waiting(self) -> Worker {
        Worker { state: WorkerState::Idle, ..self }
    }

    /// The worker after its thread was taken to be joined.
    pub open spec fn joined(self) -> Worker {
        Worker { joinable: false, ..self }
    }

    /// A fresh worker: idle, with its thread still to be joined.
    pub fn new(id: usize) -> (worker: Worker)
        ensures
            worker == (Worker { id, state: WorkerState::Idle, joinable: true }),
    {
        Worker { id, state: WorkerState::Idle, joinable: true }
    }

    pub fn is_running(&self) -> (b: bool)
        ensures
            b == self.running(),
    {
        match self.state {
            WorkerState::Terminated => false,
            _ => true,
        }
    }

    /// Hands `message` to a running worker. A job makes it busy and is to be
    /// run; a termination message ends it for good.
    pub fn deliver<J>(&mut self, message: Message<J>) -> (action: Action<J>)
        requires
            old(self).running(),
        ensures
            *final(self) == old(self).after(message),
            action == message.action(),
    {
        match message {
            Message::NewJob(job) => {
                self.state = WorkerState::Busy;
                Action::Run(job)
            },
            Message::Terminate => {
                self.state = WorkerState::Terminated;
                Action::Exit
            },
        }
    }

    /// Records that a running worker found nothing to receive.
    pub fn wait(&mut self)
        requires
            old(self).running(),
        ensures
            *final(self) == old(self).waiting(),
    {
        self.state = WorkerState::Idle;
    }

    /// Empties the thread slot. Returns whether the thread was still there
    /// to take: `true` the first time, `false` ever after.
    pub fn take_thread(&mut self) -> (taken: bool)
        ensures
            taken == old(self).joinable,
            *final(self) == old(self).joined(),
    {
        let taken = self.joinable;
        self.joinable = false;
        taken
    }
}

} // verus!
