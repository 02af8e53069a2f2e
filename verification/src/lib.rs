//! A fan-out message relay: producers publish chat messages to one hub, and
//! every reader gets them in publish order through a session of its own.

use crate::hub::{Hub, HubState};
use crate::message::Message;
use crate::session::{Session, SessionState};
use vstd::prelude::*;

pub mod backlog;
pub mod hub;
pub mod laws;
pub mod message;
pub mod session;
pub mod wire;

verus! {

/// The size of the relay's backlog.
pub const BACKLOG: usize = 1024;

/// Launches the relay: makes its one hub, empty and open, with a backlog of
/// `BACKLOG` messages.
pub fn rocket() -> (hub: Hub)
    ensures
        hub@ == HubState::fresh(BACKLOG as nat),
{
    Hub::new(BACKLOG)
}

/// Posts a message: publishes it to the hub and reports nothing back. That
/// nobody is subscribed is no failure.
pub fn post(form: Message, queue: &mut Hub)
    requires
        old(queue)@.head() < u64::MAX,
    ensures
        final(queue)@ == old(queue)@.publish(form@),
{
    let _reached: u64 = queue.publish(form);
}

/// Opens the event stream of one client: a session that will see what is
/// published from now on.
pub fn events(queue: &mut Hub) -> (session: Session)
    requires
        old(queue)@.subscribers < u64::MAX,
    ensures
        session@ == (SessionState::Live { position: old(queue)@.head() }),
        final(queue)@ == old(queue)@.subscribe(),
{
    Session::open(queue)
}

} // verus!
