//! The task queue: an unbounded first-in, first-out channel of messages.

use vstd::prelude::*;
use std::collections::VecDeque;
use crate::message::Message;

verus! {

/// The queue that carries messages from the pool's owner to its workers.
/// Its model is the sequence of messages not yet received, oldest first.
pub struct TaskQueue<J> {
    items: VecDeque<Message<J>>,
}

impl<J> View for TaskQueue<J> {
    type V = Seq<Message<J>>;

    closed spec fn view(&self) -> Seq<Message<J>> {
        self.items@
    }
}

impl<J> TaskQueue<J> {
    pub fn new() -> (queue: Self)
        ensures
            queue@ == Seq::<Message<J>>::empty(),
    {
        TaskQueue { items: VecDeque::new() }
    }

    pub fn len(&self) -> (n: usize)
        ensures
            n == self@.len(),
    {
        self.items.len()
    }

    pub fn is_empty(&self) -> (b: bool)
        ensures
            b == (self@.len() == 0),
    {
        self.items.len() == 0
    }

    /// Puts `message` at the back of the queue.
    pub fn send(&mut self, message: Message<J>)
        ensures
            final(self)@ == old(self)@.push(message),
    {
        self.items.push_back(message);
    }

    /// Takes the oldest message off the queue, if there is one. The message
    /// is handed to this caller alone: it is no longer in the queue.
    pub fn receive(&mut self) -> (message: Option<Message<J>>)
        ensures
            old(self)@.len() == 0 ==> message is None && final(self)@ == old(self)@,
            old(self)@.len() > 0 ==> message == Some(old(self)@[0]) && final(self)@ == old(
                self,
            )@.drop_first(),
    {
        let message = self.items.pop_front();
        assert(old(self)@.len() > 0 ==> self.items@ =~= old(self)@.drop_first());
        message
    }
}

} // verus!
