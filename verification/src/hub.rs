//! The hub: the one place that producers publish to and that readers read
//! from, each reader through a cursor of its own.

use crate::backlog::{first_kept, Backlog};
use crate::message::{Message, MessageView};
use vstd::prelude::*;

verus! {

/// What one read gives, mathematically.
pub enum Outcome {
    /// The next message in publish order.
    Message(MessageView),
    /// The reader fell out of the backlog; this many messages were skipped.
    Lagged(nat),
    /// The hub is shut down and nothing is left to read.
    Closed,
    /// Nothing to read yet: the reader has to wait.
    Pending,
}

/// What a hub is, mathematically.
pub struct HubState {
    /// The size of the backlog.
    pub capacity: nat,
    /// Every message the hub accepted, in publish order.
    pub log: Seq<MessageView>,
    /// The number of cursors handed out and not yet released.
    pub subscribers: nat,
    /// Whether the hub has been shut down.
    pub closed: bool,
}

impl HubState {
    /// A hub as it is made: empty, open, without subscribers.
    pub open spec fn fresh(capacity: nat) -> HubState {
        HubState { capacity, log: Seq::empty(), subscribers: 0, closed: false }
    }

    /// The write head: the number of messages accepted so far.
    pub open spec fn head(self) -> nat {
        self.log.len()
    }

    /// The index of the oldest message still in the backlog.
    pub open spec fn oldest(self) -> nat {
        first_kept(self.log.len(), self.capacity)
    }

    /// The messages in the backlog, oldest first.
    pub open spec fn backlog(self) -> Seq<MessageView> {
        self.log.subrange(self.oldest() as int, self.head() as int)
    }

    /// The hub after a publish: the message is appended, whether or not
    /// anyone is subscribed, and nothing else changes.
    pub open spec fn publish(self, message: MessageView) -> HubState {
        HubState { log: self.log.push(message), ..self }
    }

    /// The hub after each of `messages` was published in turn.
    pub open spec fn publish_all(self, messages: Seq<MessageView>) -> HubState
        decreases messages.len(),
    {
        if messages.len() == 0 {
            self
        } else {
            self.publish_all(messages.drop_last()).publish(messages.last())
        }
    }

    /// The hub after one more cursor was handed out.
    pub open spec fn subscribe(self) -> HubState {
        HubState { subscribers: self.subscribers + 1, ..self }
    }

    /// The hub after a cursor was given back.
    pub open spec fn release(self) -> HubState {
        HubState {
            subscribers: if self.subscribers > 0 {
                (self.subscribers - 1) as nat
            } else {
                0
            },
            ..self
        }
    }

    /// The hub after shutdown.
    pub open spec fn shutdown(self) -> HubState {
        HubState { closed: true, ..self }
    }

    /// What a reader at `position` gets from its next read.
    pub open spec fn receive(self, position: nat) -> Outcome {
        if position < self.oldest() {
            Outcome::Lagged((self.oldest() - position) as nat)
        } else if position < self.head() {
            Outcome::Message(self.log[position as int])
        } else if self.closed {
            Outcome::Closed
        } else {
            Outcome::Pending
        }
    }

    /// Where a reader at `position` stands after its next read.
    pub open spec fn advance(self, position: nat) -> nat {
        if position < self.oldest() {
            self.oldest()
        } else if position < self.head() {
            position + 1
        } else {
            position
        }
    }
}

/// What one read of the hub gave.
#[derive(Debug, PartialEq, Eq)]
pub enum Received {
    /// The next message in publish order.
    Message(Message),
    /// The reader fell out of the backlog; this many messages were skipped.
    Lagged(u64),
    /// The hub is shut down and nothing is left to read.
    Closed,
    /// Nothing to read yet: the reader has to wait.
    Pending,
}

impl View for Received {
    type V = Outcome;

    open spec fn view(&self) -> Outcome {
        match *self {
            Received::Message(message) => Outcome::Message(message@),
            Received::Lagged(skipped) => Outcome::Lagged(skipped as nat),
            Received::Closed => Outcome::Closed,
            Received::Pending => Outcome::Pending,
        }
    }
}

/// How far one reader has read: the index of the message it reads next.
#[derive(Debug, PartialEq, Eq)]
pub struct Cursor {
    next: u64,
}

impl View for Cursor {
    type V = nat;

    closed spec fn view(&self) -> nat {
        self.next as nat
    }
}

impl Cursor {
    /// The index of the message that this cursor reads next.
    pub fn position(&self) -> (r: u64)
        ensures
            r == self@,
    {
        self.next
    }
}

/// The hub. It keeps the backlog and counts the cursors it handed out; it
/// does not know the readers themselves.
pub struct Hub {
    backlog: Backlog,
    subscribers: u64,
    closed: bool,
}

impl View for Hub {
    type V = HubState;

    closed spec fn view(&self) -> HubState {
        HubState {
            capacity: self.backlog@.capacity,
            log: self.backlog@.log,
            subscribers: self.subscribers as nat,
            closed: self.closed,
        }
    }
}

impl Hub {
    #[verifier::type_invariant]
    spec fn inv(self) -> bool {
        self.backlog.wf()
    }

    /// An empty, open hub with a backlog of `capacity` messages.
    pub fn new(capacity: usize) -> (hub: Hub)
        requires
            capacity >= 1,
        ensures
            hub@ == HubState::fresh(capacity as nat),
    {
        Hub { backlog: Backlog::new(capacity), subscribers: 0, closed: false }
    }

    /// The size of the backlog.
    pub fn capacity(&self) -> (r: usize)
        ensures
            r == self@.capacity,
            r >= 1,
    {
        proof {
            use_type_invariant(self);
            self.backlog.has_room();
        }
        self.backlog.capacity()
    }

    /// The number of messages accepted so far.
    pub fn published(&self) -> (r: u64)
        ensures
            r == self@.head(),
    {
        proof {
            use_type_invariant(self);
        }
        self.backlog.head()
    }

    /// The number of cursors handed out and not yet released.
    pub fn subscribers(&self) -> (r: u64)
        ensures
            r == self@.subscribers,
    {
        self.subscribers
    }

    /// Whether the hub has been shut down.
    pub fn is_closed(&self) -> (r: bool)
        ensures
            r == self@.closed,
    {
        self.closed
    }

    /// Accepts a message and says how many subscribers there are to read it.
    /// The message goes into the backlog, over the oldest one if the backlog
    /// is full, whether or not anyone is subscribed. No reader is waited for.
    pub fn publish(&mut self, message: Message) -> (reached: u64)
        requires
            old(self)@.head() < u64::MAX,
        ensures
            final(self)@ == old(self)@.publish(message@),
            reached == old(self)@.subscribers,
    {
        proof {
            use_type_invariant(&*self);
        }
        // The backlog is taken out while it changes; an empty one stands in.
        let mut backlog = Backlog::new(1);
        std::mem::swap(&mut backlog, &mut self.backlog);
        backlog.push(message);
        self.backlog = backlog;
        self.subscribers
    }

    /// Hands out a cursor that stands at the write head: it will read what is
    /// published from now on, and nothing that was published before.
    pub fn subscribe(&mut self) -> (cursor: Cursor)
        requires
            old(self)@.subscribers < u64::MAX,
        ensures
            final(self)@ == old(self)@.subscribe(),
            cursor@ == old(self)@.head(),
    {
        proof {
            use_type_invariant(&*self);
        }
        self.subscribers = self.subscribers + 1;
        Cursor { next: self.backlog.head() }
    }

    /// Reads through a cursor. A cursor that fell out of the backlog is moved
    /// to the oldest message still kept and told how many it skipped; one
    /// inside the backlog gets a copy of its next message and moves one on;
    /// one at the write head is told to wait, or that the hub is closed.
    pub fn receive(&self, cursor: &mut Cursor) -> (r: Received)
        ensures
            r@ == self@.receive(old(cursor)@),
            final(cursor)@ == self@.advance(old(cursor)@),
    {
        proof {
            use_type_invariant(self);
        }
        let oldest: u64 = self.backlog.oldest();
        let head: u64 = self.backlog.head();
        if cursor.next < oldest {
            let skipped: u64 = oldest - cursor.next;
            cursor.next = oldest;
            return Received::Lagged(skipped);
        }
        if cursor.next < head {
            match self.backlog.fetch(cursor.next) {
                Some(message) => {
                    cursor.next = cursor.next + 1;
                    return Received::Message(message);
                },
                None => {},
            }
        }
        if self.closed {
            Received::Closed
        } else {
            Received::Pending
        }
    }

    /// Takes a cursor back: one subscriber fewer.
    pub fn release(&mut self, cursor: Cursor)
        ensures
            final(self)@ == old(self)@.release(),
    {
        proof {
            use_type_invariant(&*self);
        }
        if self.subscribers > 0 {
            self.subscribers = self.subscribers - 1;
        }
    }

    /// Shuts the hub down. Every reader that has read all there is gets
    /// `Closed` from then on.
    pub fn shutdown(&mut self)
        ensures
            final(self)@ == old(self)@.shutdown(),
    {
        proof {
            use_type_invariant(&*self);
        }
        self.closed = true;
    }
}

} // verus!
