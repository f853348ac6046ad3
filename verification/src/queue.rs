//! The outbound queue of one peer: what others have sent it and it has not
//! yet written to its connection.

use crate::message::{Message, MessageView};
use std::collections::VecDeque;
use vstd::prelude::*;

verus! {

/// What an [`OutboundQueue`] holds: the messages that wait, oldest first, and
/// whether its consumer is still there to write them.
pub struct QueueView {
    pub pending: Seq<MessageView>,
    pub open: bool,
}

impl QueueView {
    /// The queue with `message` behind all that wait, where it is open; the
    /// queue itself where its consumer has gone.
    pub open spec fn offered(self, message: MessageView) -> QueueView {
        if self.open {
            QueueView { pending: self.pending.push(message), open: true }
        } else {
            self
        }
    }

    /// The queue without its oldest message.
    pub open spec fn advanced(self) -> QueueView {
        if self.pending.len() > 0 {
            QueueView { pending: self.pending.drop_first(), open: self.open }
        } else {
            self
        }
    }

    /// The queue after its consumer has gone.
    pub open spec fn shut(self) -> QueueView {
        QueueView { pending: self.pending, open: false }
    }
}

/// An unbounded first-in, first-out queue of messages with one consumer.
#[derive(Debug)]
pub struct OutboundQueue {
    items: VecDeque<Message>,
    open: bool,
}

impl View for OutboundQueue {
    type V = QueueView;

    closed spec fn view(&self) -> QueueView {
        QueueView { pending: self.items@.map_values(|m: Message| m@), open: self.open }
    }
}

impl OutboundQueue {
    /// An empty queue whose consumer is there.
    pub fn new() -> (queue: OutboundQueue)
        ensures
            queue@ == (QueueView { pending: Seq::<MessageView>::empty(), open: true }),
    {
        let queue = OutboundQueue { items: VecDeque::new(), open: true };
        assert(queue@.pending =~= Seq::<MessageView>::empty());
        queue
    }

    /// How many messages wait.
    pub fn len(&self) -> (n: usize)
        ensures
            n == self@.pending.len(),
    {
        self.items.len()
    }

    /// Whether nothing waits.
    pub fn is_empty(&self) -> (empty: bool)
        ensures
            empty == (self@.pending.len() == 0),
    {
        self.items.len() == 0
    }

    /// Whether the consumer is still there.
    pub fn is_open(&self) -> (open: bool)
        ensures
            open == self@.open,
    {
        self.open
    }

    /// Puts `message` behind all that wait. A queue whose consumer has gone
    /// drops it and says so.
    pub fn push(&mut self, message: Message) -> (taken: bool)
        ensures
            taken == old(self)@.open,
            final(self)@ == old(self)@.offered(message@),
    {
        if self.open {
            self.items.push_back(message);
            assert(self@.pending =~= old(self)@.pending.push(message@));
            true
        } else {
            false
        }
    }

    /// Takes the oldest message out.
    pub fn pop(&mut self) -> (message: Option<Message>)
        ensures
            final(self)@ == old(self)@.advanced(),
            match message {
                Some(m) => old(self)@.pending.len() > 0 && m@ == old(self)@.pending[0],
                None => old(self)@.pending.len() == 0,
            },
    {
        let message = self.items.pop_front();
        assert(self@.pending =~= old(self)@.advanced().pending);
        message
    }

    /// Records that the consumer has gone. What waits stays, and nothing more
    /// is taken.
    pub fn close(&mut self)
        ensures
            final(self)@ == old(self)@.shut(),
    {
        self.open = false;
    }
}

/// A queue gives out what it took in the order in which it took it: what is
/// offered goes behind all that waits, and what is taken comes from the
/// front. So of two messages offered one after the other to an empty queue
/// the first comes out first, the second next, and then the queue is empty.
pub proof fn lemma_first_in_first_out(queue: QueueView, first: MessageView, second: MessageView)
    requires
        queue.open,
    ensures
        queue.offered(first).offered(second).pending == queue.pending + seq![first, second],
        queue.pending.len() > 0 ==> queue.offered(first).advanced().pending
            == queue.advanced().pending.push(first),
        queue.pending.len() == 0 ==> {
            &&& queue.offered(first).offered(second).pending[0] == first
            &&& queue.offered(first).offered(second).advanced().pending[0] == second
            &&& queue.offered(first).offered(second).advanced().advanced().pending.len() == 0
        },
{
}

} // verus!
