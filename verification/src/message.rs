//! What travels on the queue, and what a worker is told to do next.

use vstd::prelude::*;

verus! {

/// One item on the queue: a job to run, or the order to stop.
pub enum Message<J> {
    NewJob(J),
    Terminate,
}

/// What a worker does after asking the pool for its next message.
pub enum Action<J> {
    /// The queue is empty: block until something is sent, then ask again.
    Wait,
    /// Run this job to completion on the worker's own thread, then ask again.
    Run(J),
    /// Leave the receive loop and end the thread.
    Exit,
}

impl<J> Message<J> {
    /// The action that a running worker takes on this message.
    pub open spec fn action(self) -> Action<J> {
        match self {
            Message::NewJob(job) => Action::Run(job),
            Message::Terminate => Action::Exit,
        }
    }
}

/// The jobs that wait in `queue`, oldest first.
pub open spec fn jobs<J>(queue: Seq<Message<J>>) -> Seq<J>
    decreases queue.len(),
{
    if queue.len() == 0 {
        Seq::empty()
    } else {
        match queue.last() {
            Message::NewJob(job) => jobs(queue.drop_last()).push(job),
            Message::Terminate => jobs(queue.drop_last()),
        }
    }
}

/// The number of termination messages that wait in `queue`.
pub open spec fn terminations<J>(queue: Seq<Message<J>>) -> nat
    decreases queue.len(),
{
    if queue.len() == 0 {
        0
    } else {
        terminations(queue.drop_last()) + match queue.last() {
            Message::NewJob(_) => 0nat,
            Message::Terminate => 1nat,
        }
    }
}

} // verus!
