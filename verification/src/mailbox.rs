//! The bounded, ordered delivery queue that every player owns.

use crate::enums::ServerToPlayerMessage;
use vstd::prelude::*;

verus! {

/// The number of messages that a mailbox holds unless another capacity is asked for.
pub const MAILBOX_CAPACITY: usize = 250;

/// What became of one attempt to deliver a message.
#[derive(Clone, Copy, Debug, PartialEq, Eq, Structural)]
pub enum Delivery {
    /// The message is now the last one in the queue.
    Delivered,
    /// The queue was at its capacity; the message was dropped.
    Full,
    /// The mailbox was closed; the message was dropped.
    Closed,
}

/// What a mailbox hands to the task that drains it.
#[derive(Clone, Copy, Debug, PartialEq, Eq, Structural)]
pub enum Outbound {
    /// The oldest queued message, now removed from the queue.
    Message(ServerToPlayerMessage),
    /// Nothing is queued, but more may come.
    Empty,
    /// Nothing is queued and nothing will come.
    Closed,
}

/// The mathematical model of a mailbox.
pub struct MailboxView {
    /// The queued messages, oldest first.
    pub queue: Seq<ServerToPlayerMessage>,
    /// The most messages that the queue may hold.
    pub capacity: nat,
    /// Whether the mailbox refuses new messages.
    pub closed: bool,
}

impl MailboxView {
    /// Whether a message offered now would be queued.
    pub open spec fn accepts(self) -> bool {
        !self.closed && self.queue.len() < self.capacity
    }

    /// What an attempt to deliver a message now would report.
    pub open spec fn outcome(self) -> Delivery {
        if self.closed {
            Delivery::Closed
        } else if self.queue.len() >= self.capacity {
            Delivery::Full
        } else {
            Delivery::Delivered
        }
    }

    /// The mailbox after an attempt to deliver `message`: queued last if accepted, else
    /// dropped.
    pub open spec fn deliver(self, message: ServerToPlayerMessage) -> MailboxView {
        if self.accepts() {
            MailboxView { queue: self.queue.push(message), ..self }
        } else {
            self
        }
    }

    /// What draining one message reports.
    pub open spec fn next(self) -> Outbound {
        if self.queue.len() > 0 {
            Outbound::Message(self.queue[0])
        } else if self.closed {
            Outbound::Closed
        } else {
            Outbound::Empty
        }
    }

    /// The mailbox after draining one message.
    pub open spec fn drained(self) -> MailboxView {
        if self.queue.len() > 0 {
            MailboxView { queue: self.queue.drop_first(), ..self }
        } else {
            self
        }
    }

    /// The mailbox after closing it.
    pub open spec fn close(self) -> MailboxView {
        MailboxView { closed: true, ..self }
    }
}

/// A bounded first-in-first-out queue of messages for one player.
///
/// A delivery never waits: a message that does not fit, or that arrives after the mailbox
/// was closed, is dropped and reported as such.
#[derive(Debug, PartialEq, Eq)]
pub struct Mailbox {
    queue: Vec<ServerToPlayerMessage>,
    capacity: usize,
    closed: bool,
}

impl View for Mailbox {
    type V = MailboxView;

    closed spec fn view(&self) -> MailboxView {
        MailboxView { queue: self.queue@, capacity: self.capacity as nat, closed: self.closed }
    }
}

impl Mailbox {
    #[verifier::type_invariant]
    spec fn bounded(self) -> bool {
        self.queue@.len() <= self.capacity
    }

    /// An open, empty mailbox of the standard capacity.
    pub fn new() -> (mailbox: Mailbox)
        ensures
            mailbox@ == (MailboxView {
                queue: Seq::empty(),
                capacity: MAILBOX_CAPACITY as nat,
                closed: false,
            }),
    {
        Mailbox { queue: Vec::new(), capacity: MAILBOX_CAPACITY, closed: false }
    }

    /// An open, empty mailbox that holds at most `capacity` messages.
    pub fn with_capacity(capacity: usize) -> (mailbox: Mailbox)
        ensures
            mailbox@ == (MailboxView {
                queue: Seq::empty(),
                capacity: capacity as nat,
                closed: false,
            }),
    {
        Mailbox { queue: Vec::new(), capacity, closed: false }
    }

    /// Offers `message` without waiting: it is queued last if the mailbox is open and has
    /// room, and dropped otherwise.
    pub fn try_deliver(&mut self, message: ServerToPlayerMessage) -> (delivery: Delivery)
        ensures
            delivery == old(self)@.outcome(),
            final(self)@ == old(self)@.deliver(message),
            final(self)@.queue.len() <= final(self)@.capacity,
    {
        proof {
            use_type_invariant(&*self);
        }
        if self.closed {
            Delivery::Closed
        } else if self.queue.len() >= self.capacity {
            Delivery::Full
        } else {
            // The queue is moved out while it grows, so that the bound holds at every step.
            let mut queue: Vec<ServerToPlayerMessage> = Vec::new();
            core::mem::swap(&mut self.queue, &mut queue);
            queue.push(message);
            self.queue = queue;
            Delivery::Delivered
        }
    }

    /// Removes and returns the oldest message; reports an empty or a closed mailbox when
    /// there is none.
    pub fn take_next(&mut self) -> (outbound: Outbound)
        ensures
            outbound == old(self)@.next(),
            final(self)@ == old(self)@.drained(),
    {
        proof {
            use_type_invariant(&*self);
        }
        if self.queue.len() > 0 {
            let mut queue: Vec<ServerToPlayerMessage> = Vec::new();
            core::mem::swap(&mut self.queue, &mut queue);
            let message = queue.remove(0);
            self.queue = queue;
            assert(self.queue@ =~= old(self).queue@.drop_first());
            Outbound::Message(message)
        } else if self.closed {
            Outbound::Closed
        } else {
            Outbound::Empty
        }
    }

    /// Closes the mailbox: every later delivery is dropped, and once the queue is drained
    /// the mailbox reports that nothing will come.
    pub fn close(&mut self)
        ensures
            final(self)@ == old(self)@.close(),
    {
        proof {
            use_type_invariant(&*self);
        }
        self.closed = true;
    }

    /// The number of queued messages.
    pub fn len(&self) -> (len: usize)
        ensures
            len == self@.queue.len(),
            len <= self@.capacity,
    {
        proof {
            use_type_invariant(self);
        }
        self.queue.len()
    }

    /// Whether nothing is queued.
    pub fn is_empty(&self) -> (empty: bool)
        ensures
            empty == (self@.queue.len() == 0),
    {
        self.queue.len() == 0
    }

    /// Whether the queue is at its capacity.
    pub fn is_full(&self) -> (full: bool)
        ensures
            full == (self@.queue.len() >= self@.capacity),
    {
        self.queue.len() >= self.capacity
    }

    /// Whether the mailbox was closed.
    pub fn is_closed(&self) -> (closed: bool)
        ensures
            closed == self@.closed,
    {
        self.closed
    }

    /// The most messages that the queue may hold.
    pub fn capacity(&self) -> (capacity: usize)
        ensures
            capacity == self@.capacity,
    {
        self.capacity
    }
}

} // verus!
