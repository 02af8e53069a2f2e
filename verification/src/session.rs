//! The session: one reader's life, from subscribing to the end of its stream.
//!
//! A session never waits by itself. Each poll says what to do next; where the
//! answer is to wait, the caller waits for a publish, a shutdown or a
//! cancellation, whichever comes first, and polls again.

use crate::hub::{Cursor, Hub, HubState, Outcome, Received};
use crate::message::MessageView;
use crate::wire::Event;
use vstd::prelude::*;

verus! {

/// What a session is, mathematically.
pub enum SessionState {
    /// Reading; `position` is the index of the message it reads next.
    Live { position: nat },
    /// Over, for good.
    Ended,
}

/// What a poll tells the caller to do, mathematically.
pub enum StepView {
    /// Push an event for this message, then poll again.
    Emit(MessageView),
    /// This many messages were lost; push nothing, poll again.
    Skip(nat),
    /// Nothing to read: wait, then poll again.
    Wait,
    /// The stream is over.
    End,
}

impl SessionState {
    /// Whether this poll is the one that ends the session: it is live, and
    /// it is cancelled or finds the hub closed with nothing left to read.
    pub open spec fn ends(self, hub: HubState, cancelled: bool) -> bool {
        self matches SessionState::Live { position } && (cancelled || hub.receive(position)
            is Closed)
    }

    /// What a poll answers. Cancellation is looked at first, so it wins over
    /// anything the hub has to offer.
    pub open spec fn step(self, hub: HubState, cancelled: bool) -> StepView {
        match self {
            SessionState::Ended => StepView::End,
            SessionState::Live { position } => if cancelled {
                StepView::End
            } else {
                match hub.receive(position) {
                    Outcome::Message(message) => StepView::Emit(message),
                    Outcome::Lagged(skipped) => StepView::Skip(skipped),
                    Outcome::Closed => StepView::End,
                    Outcome::Pending => StepView::Wait,
                }
            },
        }
    }

    /// The session after a poll.
    pub open spec fn after(self, hub: HubState, cancelled: bool) -> SessionState {
        match self {
            SessionState::Ended => SessionState::Ended,
            SessionState::Live { position } => if self.ends(hub, cancelled) {
                SessionState::Ended
            } else {
                SessionState::Live { position: hub.advance(position) }
            },
        }
    }

    /// The hub after a poll: the poll that ends the session gives the cursor
    /// back, any other leaves the hub as it is.
    pub open spec fn hub_after(self, hub: HubState, cancelled: bool) -> HubState {
        if self.ends(hub, cancelled) {
            hub.release()
        } else {
            hub
        }
    }
}

/// What a poll tells the caller to do.
#[derive(Debug, PartialEq, Eq)]
pub enum Step {
    /// Push this event to the client, then poll again.
    Emit(Event),
    /// This many messages were lost to the backlog; push nothing, poll again.
    Skip(u64),
    /// Nothing to read: wait for a publish, a shutdown or a cancellation,
    /// then poll again.
    Wait,
    /// The stream is over.
    End,
}

impl View for Step {
    type V = StepView;

    open spec fn view(&self) -> StepView {
        match *self {
            Step::Emit(event) => StepView::Emit(event@.message),
            Step::Skip(skipped) => StepView::Skip(skipped as nat),
            Step::Wait => StepView::Wait,
            Step::End => StepView::End,
        }
    }
}

/// One reader's session. It owns its cursor while it is live.
#[derive(Debug)]
pub struct Session {
    cursor: Option<Cursor>,
}

impl View for Session {
    type V = SessionState;

    closed spec fn view(&self) -> SessionState {
        match self.cursor {
            Some(cursor) => SessionState::Live { position: cursor@ },
            None => SessionState::Ended,
        }
    }
}

impl Session {
    /// Starts a session: subscribes to the hub, at the write head.
    pub fn open(hub: &mut Hub) -> (session: Session)
        requires
            old(hub)@.subscribers < u64::MAX,
        ensures
            session@ == (SessionState::Live { position: old(hub)@.head() }),
            final(hub)@ == old(hub)@.subscribe(),
    {
        Session { cursor: Some(hub.subscribe()) }
    }

    /// Whether the session is over.
    pub fn is_ended(&self) -> (r: bool)
        ensures
            r == (self@ is Ended),
    {
        self.cursor.is_none()
    }

    /// One turn of the session. `cancelled` says whether the cancellation
    /// signal has fired; if it has, the session ends at once, whatever the hub
    /// holds. Otherwise the hub is read once: a message becomes an event, a
    /// lag is passed over, an empty backlog means waiting, a closed hub ends
    /// the session. The poll that ends the session gives its cursor back to
    /// the hub; every later poll answers `End` and changes nothing.
    pub fn poll(&mut self, hub: &mut Hub, cancelled: bool) -> (step: Step)
        ensures
            step@ == old(self)@.step(old(hub)@, cancelled),
            final(self)@ == old(self)@.after(old(hub)@, cancelled),
            final(hub)@ == old(self)@.hub_after(old(hub)@, cancelled),
            step matches Step::Emit(event) ==> event@.sound(),
    {
        match self.cursor.take() {
            None => Step::End,
            Some(cursor) => {
                let mut cursor = cursor;
                if cancelled {
                    hub.release(cursor);
                    return Step::End;
                }
                match hub.receive(&mut cursor) {
                    Received::Message(message) => {
                        self.cursor = Some(cursor);
                        Step::Emit(Event::json(message))
                    },
                    Received::Lagged(skipped) => {
                        self.cursor = Some(cursor);
                        Step::Skip(skipped)
                    },
                    Received::Pending => {
                        self.cursor = Some(cursor);
                        Step::Wait
                    },
                    Received::Closed => {
                        hub.release(cursor);
                        Step::End
                    },
                }
            },
        }
    }
}

} // verus!
