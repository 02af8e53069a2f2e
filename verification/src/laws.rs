//! What holds of the relay as a whole. Each law is stated over the models of
//! the hub and the session, the same that the contracts of the executable
//! functions are stated over, and proved here.

use crate::hub::{HubState, Outcome};
use crate::message::MessageView;
use crate::session::{SessionState, StepView};
use vstd::prelude::*;

verus! {

/// The outcomes of `count` reads in a row through a cursor that starts at
/// `position`, with nothing published in between.
pub open spec fn reads(hub: HubState, position: nat, count: nat) -> Seq<Outcome>
    decreases count,
{
    if count == 0 {
        Seq::empty()
    } else {
        seq![hub.receive(position)] + reads(hub, hub.advance(position), (count - 1) as nat)
    }
}

/// Where the cursor stands after those reads.
pub open spec fn position_after(hub: HubState, position: nat, count: nat) -> nat
    decreases count,
{
    if count == 0 {
        position
    } else {
        position_after(hub, hub.advance(position), (count - 1) as nat)
    }
}

/// A run of messages as the outcomes of reading them one by one.
pub open spec fn delivered(messages: Seq<MessageView>) -> Seq<Outcome> {
    messages.map_values(|message: MessageView| Outcome::Message(message))
}

/// Publishing a run of messages appends the run to the log and changes
/// nothing else: not the capacity, not the subscribers, not whether the hub
/// is closed.
pub proof fn publishes_append(hub: HubState, messages: Seq<MessageView>)
    ensures
        hub.publish_all(messages) == (HubState { log: hub.log + messages, ..hub }),
    decreases messages.len(),
{
    if messages.len() == 0 {
        assert(hub.log + messages =~= hub.log);
    } else {
        publishes_append(hub, messages.drop_last());
        assert(hub.log + messages =~= (hub.log + messages.drop_last()).push(messages.last()));
    }
}

/// With nobody subscribed, any run of publishes is accepted, and all it does
/// to the hub is to put the messages into the log: each publish in the run
/// finds nobody subscribed and leaves nobody subscribed, and the hub is as
/// open or closed, and as large, as before.
pub proof fn unheard_publishes_only_fill_the_log(hub: HubState, messages: Seq<MessageView>)
    requires
        hub.subscribers == 0,
    ensures
        hub.publish_all(messages) == (HubState { log: hub.log + messages, ..hub }),
        forall|done: int|
            0 <= done <= messages.len() ==> {
                let then = #[trigger] hub.publish_all(messages.take(done));
                &&& then.subscribers == 0
                &&& then.closed == hub.closed
                &&& then.capacity == hub.capacity
                &&& then.log == hub.log + messages.take(done)
            },
{
    publishes_append(hub, messages);
    assert forall|done: int| 0 <= done <= messages.len() implies {
        let then = #[trigger] hub.publish_all(messages.take(done));
        &&& then.subscribers == 0
        &&& then.closed == hub.closed
        &&& then.capacity == hub.capacity
        &&& then.log == hub.log + messages.take(done)
    } by {
        publishes_append(hub, messages.take(done));
    }
}

/// Reads that stay inside the backlog give the logged messages one by one,
/// in log order, and move the cursor one on each time.
pub proof fn reads_inside_the_backlog(hub: HubState, position: nat, count: nat)
    requires
        hub.oldest() <= position,
        position + count <= hub.head(),
    ensures
        reads(hub, position, count) == delivered(
            hub.log.subrange(position as int, (position + count) as int),
        ),
        position_after(hub, position, count) == position + count,
    decreases count,
{
    let wanted = delivered(hub.log.subrange(position as int, (position + count) as int));
    if count == 0 {
        assert(reads(hub, position, count) =~= wanted);
    } else {
        reads_inside_the_backlog(hub, (position + 1) as nat, (count - 1) as nat);
        let rest = delivered(hub.log.subrange((position + 1) as int, (position + count) as int));
        assert(seq![hub.receive(position)] + rest =~= wanted);
    }
}

/// A cursor that subscribed before a run of messages was published, a run no
/// longer than the backlog, reads exactly that run, in publish order, and is
/// then at the write head with nothing more to read.
pub proof fn prompt_reader_gets_every_message(hub: HubState, messages: Seq<MessageView>)
    requires
        messages.len() <= hub.capacity,
    ensures
        ({
            let start = hub.subscribe().head();
            let after = hub.subscribe().publish_all(messages);
            &&& reads(after, start, messages.len()) == delivered(messages)
            &&& position_after(after, start, messages.len()) == after.head()
            &&& after.receive(after.head()) == if hub.closed {
                Outcome::Closed
            } else {
                Outcome::Pending
            }
        }),
{
    let start = hub.subscribe().head();
    let after = hub.subscribe().publish_all(messages);
    publishes_append(hub.subscribe(), messages);
    reads_inside_the_backlog(after, start, messages.len());
    assert(after.log.subrange(start as int, (start + messages.len()) as int) =~= messages);
}

/// A cursor that more than a backlog's worth of messages has run away from
/// is told so exactly once: its next read is the lag signal, with the number
/// of messages it lost, and the reads after that give the whole backlog, from
/// the oldest message still kept to the newest, each once and in order.
pub proof fn stalled_reader_lags_once(hub: HubState, position: nat, messages: Seq<MessageView>)
    requires
        hub.head() + messages.len() > position + hub.capacity,
    ensures
        ({
            let after = hub.publish_all(messages);
            let lost = (after.head() - hub.capacity - position) as nat;
            &&& lost > 0
            &&& after.receive(position) == Outcome::Lagged(lost)
            &&& after.advance(position) == position + lost
            &&& after.advance(position) == after.oldest()
            &&& reads(after, position, hub.capacity + 1) == seq![Outcome::Lagged(lost)]
                + delivered(after.backlog())
            &&& position_after(after, position, hub.capacity + 1) == after.head()
        }),
{
    let after = hub.publish_all(messages);
    publishes_append(hub, messages);
    reads_inside_the_backlog(after, after.oldest(), hub.capacity);
}

/// A cursor handed out now reads nothing that was published before: its
/// first read finds nothing, however long the log is.
pub proof fn new_cursor_sees_no_history(hub: HubState)
    ensures
        hub.subscribe().receive(hub.head()) == if hub.closed {
            Outcome::Closed
        } else {
            Outcome::Pending
        },
        hub.subscribe().advance(hub.head()) == hub.head(),
{
}

/// A cancelled poll ends a live session at once, whatever the hub holds: a
/// message ready to be read does not delay it, and an empty backlog does not
/// make it wait for a publish.
pub proof fn cancellation_ends_at_once(session: SessionState, hub: HubState)
    ensures
        session.step(hub, true) == StepView::End,
        session.after(hub, true) == SessionState::Ended,
        session is Live ==> session.hub_after(hub, true) == hub.release(),
{
}

/// What polling each of `sessions` once gives, one after the other in their
/// order and none of them cancelled: the hub afterwards, the sessions
/// afterwards, and the answer that each of them got.
pub struct Round {
    pub hub: HubState,
    pub sessions: Seq<SessionState>,
    pub steps: Seq<StepView>,
}

/// One round of polls over `sessions`, starting from `hub`.
pub open spec fn round(hub: HubState, sessions: Seq<SessionState>) -> Round
    decreases sessions.len(),
{
    if sessions.len() == 0 {
        Round { hub, sessions: Seq::empty(), steps: Seq::empty() }
    } else {
        let before = round(hub, sessions.drop_last());
        let last = sessions.last();
        Round {
            hub: last.hub_after(before.hub, false),
            sessions: before.sessions.push(last.after(before.hub, false)),
            steps: before.steps.push(last.step(before.hub, false)),
        }
    }
}

/// Whether the session is blocked on this hub: it is live, and a poll would
/// tell it to wait.
pub open spec fn waits(session: SessionState, hub: HubState) -> bool {
    session.step(hub, false) == StepView::Wait
}

/// The subscribers left when `leaving` of them give their cursors back.
pub open spec fn remaining(subscribers: nat, leaving: nat) -> nat {
    if subscribers > leaving {
        (subscribers - leaving) as nat
    } else {
        0
    }
}

/// When the hub is shut down while any number of sessions wait on it, the
/// next poll of each of them finds the hub closed and ends the session: none
/// is left waiting, and each has given its cursor back.
pub proof fn shutdown_ends_waiting_sessions(hub: HubState, sessions: Seq<SessionState>)
    requires
        forall|i: int| 0 <= i < sessions.len() ==> waits(#[trigger] sessions[i], hub),
    ensures
        ({
            let end = round(hub.shutdown(), sessions);
            &&& end.steps.len() == sessions.len()
            &&& end.sessions.len() == sessions.len()
            &&& forall|i: int|
                0 <= i < sessions.len() ==> {
                    &&& #[trigger] sessions[i] matches SessionState::Live { position }
                    &&& hub.shutdown().receive(position) == Outcome::Closed
                }
            &&& forall|i: int| 0 <= i < sessions.len() ==> #[trigger] end.steps[i] == StepView::End
            &&& forall|i: int|
                0 <= i < sessions.len() ==> #[trigger] end.sessions[i] == SessionState::Ended
            &&& end.hub == (HubState {
                subscribers: remaining(hub.subscribers, sessions.len()),
                ..hub.shutdown()
            })
        }),
    decreases sessions.len(),
{
    if sessions.len() > 0 {
        let front = sessions.drop_last();
        assert forall|i: int| 0 <= i < front.len() implies waits(#[trigger] front[i], hub) by {
            assert(front[i] == sessions[i]);
        }
        shutdown_ends_waiting_sessions(hub, front);
        let before = round(hub.shutdown(), front);
        let last = sessions.last();
        assert(waits(last, hub));
        assert(last.ends(before.hub, false));
        let end = round(hub.shutdown(), sessions);
        assert forall|i: int| 0 <= i < sessions.len() implies {
            &&& #[trigger] sessions[i] matches SessionState::Live { position }
            &&& hub.shutdown().receive(position) == Outcome::Closed
        } by {
            assert(waits(sessions[i], hub));
        }
        assert forall|i: int| 0 <= i < sessions.len() implies #[trigger] end.steps[i]
            == StepView::End by {
            if i < front.len() {
                assert(end.steps[i] == before.steps[i]);
            }
        }
        assert forall|i: int| 0 <= i < sessions.len() implies #[trigger] end.sessions[i]
            == SessionState::Ended by {
            if i < front.len() {
                assert(end.sessions[i] == before.sessions[i]);
            }
        }
    }
}

/// The session after `count` polls in a row, none of them cancelled, on a hub
/// that nothing else touches meanwhile.
pub open spec fn after_polls(session: SessionState, hub: HubState, count: nat) -> SessionState
    decreases count,
{
    if count == 0 {
        session
    } else {
        after_polls(session.after(hub, false), session.hub_after(hub, false), (count - 1) as nat)
    }
}

/// A session that is over stays over.
pub proof fn ended_is_final(hub: HubState, count: nat)
    ensures
        after_polls(SessionState::Ended, hub, count) == SessionState::Ended,
    decreases count,
{
    if count > 0 {
        ended_is_final(hub, (count - 1) as nat);
    }
}

/// On a closed hub, a session inside the backlog reads what is left for it
/// and then ends.
proof fn closed_hub_ends_reader(position: nat, hub: HubState, count: nat)
    requires
        hub.closed,
        hub.oldest() <= position,
        position + count > hub.head(),
        count >= 1,
    ensures
        after_polls(SessionState::Live { position }, hub, count) == SessionState::Ended,
    decreases count,
{
    let session = SessionState::Live { position };
    if position < hub.head() {
        assert(!session.ends(hub, false));
        assert(session.after(hub, false) == SessionState::Live { position: (position + 1) as nat });
        closed_hub_ends_reader((position + 1) as nat, hub, (count - 1) as nat);
    } else {
        assert(session.ends(hub, false));
        ended_is_final(hub.release(), (count - 1) as nat);
    }
}

/// Once the hub is shut down, no session goes on for ever: wherever it
/// stands, it is over after at most a lag signal, the messages left in the
/// backlog, and the closed signal.
pub proof fn closed_hub_ends_every_session(session: SessionState, hub: HubState)
    requires
        hub.closed,
    ensures
        after_polls(session, hub, hub.capacity + 2) == SessionState::Ended,
{
    match session {
        SessionState::Ended => {
            ended_is_final(hub, hub.capacity + 2);
        },
        SessionState::Live { position } => {
            if position < hub.oldest() {
                closed_hub_ends_reader(hub.oldest(), hub, hub.capacity + 1);
            } else {
                closed_hub_ends_reader(position, hub, hub.capacity + 2);
            }
        },
    }
}

/// The backlog never holds more than its capacity, however much is
/// published: it is the log's last `capacity` messages, or the whole log
/// while that is shorter.
pub proof fn backlog_is_bounded(hub: HubState)
    ensures
        hub.backlog().len() <= hub.capacity,
        hub.backlog().len() == if hub.head() < hub.capacity {
            hub.head()
        } else {
            hub.capacity
        },
        forall|i: int|
            0 <= i < hub.backlog().len() ==> hub.backlog()[i] == hub.log[hub.oldest() + i],
{
}

/// What one of many clients has: its session, where the log stood when the
/// session was opened, the messages it was sent so far, first to last, and
/// the number of messages that it was told it lost.
pub struct Client {
    pub session: SessionState,
    pub joined: nat,
    pub seen: Seq<MessageView>,
    pub lost: nat,
}

impl Client {
    /// The client after a poll of its session.
    pub open spec fn poll(self, hub: HubState, cancelled: bool) -> Client {
        Client {
            session: self.session.after(hub, cancelled),
            joined: self.joined,
            seen: match self.session.step(hub, cancelled) {
                StepView::Emit(message) => self.seen.push(message),
                _ => self.seen,
            },
            lost: match self.session.step(hub, cancelled) {
                StepView::Skip(skipped) => self.lost + skipped,
                _ => self.lost,
            },
        }
    }
}

/// The relay with its clients.
pub struct World {
    pub hub: HubState,
    pub clients: Seq<Client>,
}

/// One thing that happens to the relay. Whoever does it holds the hub for
/// that one step alone, so any interleaving of producers, clients and the
/// shutdown is a sequence of these.
pub enum Action {
    /// A producer publishes a message.
    Publish(MessageView),
    /// A new client opens a session.
    Open,
    /// The client with this number polls its session once.
    Poll { client: int, cancelled: bool },
    /// The hub is shut down.
    Shutdown,
}

impl World {
    /// A hub without clients.
    pub open spec fn start(hub: HubState) -> World {
        World { hub, clients: Seq::empty() }
    }

    /// The world after one action. A poll by a client that does not exist
    /// changes nothing.
    pub open spec fn act(self, action: Action) -> World {
        match action {
            Action::Publish(message) => World { hub: self.hub.publish(message), ..self },
            Action::Open => World {
                hub: self.hub.subscribe(),
                clients: self.clients.push(
                    Client {
                        session: SessionState::Live { position: self.hub.head() },
                        joined: self.hub.head(),
                        seen: Seq::empty(),
                        lost: 0,
                    },
                ),
            },
            Action::Poll { client, cancelled } => if 0 <= client < self.clients.len() {
                World {
                    hub: self.clients[client].session.hub_after(self.hub, cancelled),
                    clients: self.clients.update(
                        client,
                        self.clients[client].poll(self.hub, cancelled),
                    ),
                }
            } else {
                self
            },
            Action::Shutdown => World { hub: self.hub.shutdown(), ..self },
        }
    }

    /// The world after a sequence of actions.
    pub open spec fn run(self, actions: Seq<Action>) -> World
        decreases actions.len(),
    {
        if actions.len() == 0 {
            self
        } else {
            self.run(actions.drop_last()).act(actions.last())
        }
    }
}

/// `picks` shows where `part` sits in `whole`: one index of `whole` for each
/// item of `part`, the indices rising.
pub open spec fn embeds(part: Seq<MessageView>, whole: Seq<MessageView>, picks: Seq<int>) -> bool {
    &&& picks.len() == part.len()
    &&& forall|i: int|
        0 <= i < picks.len() ==> 0 <= #[trigger] picks[i] < whole.len() && part[i]
            == whole[picks[i]]
    &&& forall|i: int, j: int|
        0 <= i < j < picks.len() ==> #[trigger] picks[i] < #[trigger] picks[j]
}

/// `part` is `whole` with some items left out: what is left is in the order
/// of `whole`.
pub open spec fn is_subsequence(part: Seq<MessageView>, whole: Seq<MessageView>) -> bool {
    exists|picks: Seq<int>| embeds(part, whole, picks)
}

/// What a client saw sits in the log, all of it before the place where a live
/// session reads next.
spec fn traced_by(client: Client, log: Seq<MessageView>, picks: Seq<int>) -> bool {
    &&& embeds(client.seen, log, picks)
    &&& client.session matches SessionState::Live { position } ==> forall|i: int|
        0 <= i < picks.len() ==> #[trigger] picks[i] < position
}

spec fn traced(client: Client, log: Seq<MessageView>) -> bool {
    exists|picks: Seq<int>| traced_by(client, log, picks)
}

spec fn all_traced(world: World) -> bool {
    forall|c: int| 0 <= c < world.clients.len() ==> traced(#[trigger] world.clients[c], world.hub.log)
}

/// A longer log holds whatever the shorter one held.
proof fn trace_outlives_publish(client: Client, log: Seq<MessageView>, message: MessageView)
    requires
        traced(client, log),
    ensures
        traced(client, log.push(message)),
{
    let picks = choose|picks: Seq<int>| traced_by(client, log, picks);
    assert(traced_by(client, log.push(message), picks));
}

/// A poll keeps the trace of the client that polls.
proof fn trace_outlives_poll(client: Client, hub: HubState, cancelled: bool)
    requires
        traced(client, hub.log),
    ensures
        traced(client.poll(hub, cancelled), hub.log),
{
    let picks = choose|picks: Seq<int>| traced_by(client, hub.log, picks);
    let after = client.poll(hub, cancelled);
    match client.session.step(hub, cancelled) {
        StepView::Emit(message) => {
            let position = client.session->position;
            assert(traced_by(after, hub.log, picks.push(position as int)));
        },
        _ => {
            assert(traced_by(after, hub.log, picks));
        },
    }
}

proof fn act_keeps_traces(world: World, action: Action)
    requires
        all_traced(world),
    ensures
        all_traced(world.act(action)),
{
    let next = world.act(action);
    assert forall|c: int| 0 <= c < next.clients.len() implies traced(
        #[trigger] next.clients[c],
        next.hub.log,
    ) by {
        match action {
            Action::Publish(message) => {
                assert(traced(world.clients[c], world.hub.log));
                trace_outlives_publish(world.clients[c], world.hub.log, message);
            },
            Action::Open => {
                if c < world.clients.len() {
                    assert(traced(world.clients[c], world.hub.log));
                } else {
                    assert(traced_by(next.clients[c], next.hub.log, Seq::empty()));
                }
            },
            Action::Poll { client, cancelled } => {
                assert(traced(world.clients[c], world.hub.log));
                if 0 <= client < world.clients.len() && c == client {
                    trace_outlives_poll(world.clients[c], world.hub, cancelled);
                }
            },
            Action::Shutdown => {
                assert(traced(world.clients[c], world.hub.log));
            },
        }
    }
}

proof fn run_keeps_traces(world: World, actions: Seq<Action>)
    requires
        all_traced(world),
    ensures
        all_traced(world.run(actions)),
    decreases actions.len(),
{
    if actions.len() > 0 {
        run_keeps_traces(world, actions.drop_last());
        act_keeps_traces(world.run(actions.drop_last()), actions.last());
    }
}

/// However publishes, new sessions, polls, cancellations and the shutdown
/// are interleaved, what each client was sent is a subsequence of the log:
/// only messages that were published, each at most once, in publish order.
pub proof fn every_client_sees_a_subsequence(hub: HubState, actions: Seq<Action>)
    ensures
        ({
            let world = World::start(hub).run(actions);
            forall|c: int|
                0 <= c < world.clients.len() ==> is_subsequence(
                    (#[trigger] world.clients[c]).seen,
                    world.hub.log,
                )
        }),
{
    run_keeps_traces(World::start(hub), actions);
    let world = World::start(hub).run(actions);
    assert forall|c: int| 0 <= c < world.clients.len() implies is_subsequence(
        (#[trigger] world.clients[c]).seen,
        world.hub.log,
    ) by {
        assert(traced(world.clients[c], world.hub.log));
        let picks = choose|picks: Seq<int>| traced_by(world.clients[c], world.hub.log, picks);
        assert(embeds(world.clients[c].seen, world.hub.log, picks));
    }
}

/// The account of a client adds up: a live session stands where it joined
/// plus what it was sent plus what it lost, and a client that lost nothing
/// was sent the log from where it joined, without a gap.
spec fn accounted(client: Client, log: Seq<MessageView>) -> bool {
    &&& client.session matches SessionState::Live { position } ==> {
        &&& position == client.joined + client.seen.len() + client.lost
        &&& position <= log.len()
    }
    &&& client.lost == 0 ==> {
        &&& client.joined + client.seen.len() <= log.len()
        &&& client.seen == log.subrange(
            client.joined as int,
            (client.joined + client.seen.len()) as int,
        )
    }
}

spec fn all_accounted(world: World) -> bool {
    forall|c: int|
        0 <= c < world.clients.len() ==> accounted(#[trigger] world.clients[c], world.hub.log)
}

proof fn act_keeps_accounts(world: World, action: Action)
    requires
        all_accounted(world),
    ensures
        all_accounted(world.act(action)),
{
    let next = world.act(action);
    assert forall|c: int| 0 <= c < next.clients.len() implies accounted(
        #[trigger] next.clients[c],
        next.hub.log,
    ) by {
        if c < world.clients.len() {
            let before = world.clients[c];
            let after = next.clients[c];
            assert(accounted(before, world.hub.log));
            if after.lost == 0 {
                assert(after.seen =~= next.hub.log.subrange(
                    after.joined as int,
                    (after.joined + after.seen.len()) as int,
                ));
            }
        } else {
            let after = next.clients[c];
            assert(after.seen =~= next.hub.log.subrange(after.joined as int, after.joined as int));
        }
    }
}

proof fn run_keeps_accounts(world: World, actions: Seq<Action>)
    requires
        all_accounted(world),
    ensures
        all_accounted(world.run(actions)),
    decreases actions.len(),
{
    if actions.len() > 0 {
        run_keeps_accounts(world, actions.drop_last());
        act_keeps_accounts(world.run(actions.drop_last()), actions.last());
    }
}

/// However publishes, new sessions, polls, cancellations and the shutdown
/// are interleaved, a client that was never told of a lag was sent every
/// message published since it joined, up to where it has read: none left
/// out, none twice, in publish order. And each live session stands where it
/// joined plus what it was sent plus what it lost.
pub proof fn unlagged_client_saw_everything(hub: HubState, actions: Seq<Action>)
    ensures
        ({
            let world = World::start(hub).run(actions);
            forall|c: int|
                0 <= c < world.clients.len() ==> {
                    let client = #[trigger] world.clients[c];
                    &&& client.session matches SessionState::Live { position } ==> position
                        == client.joined + client.seen.len() + client.lost
                    &&& client.lost == 0 ==> {
                        &&& client.joined + client.seen.len() <= world.hub.log.len()
                        &&& client.seen == world.hub.log.subrange(
                            client.joined as int,
                            (client.joined + client.seen.len()) as int,
                        )
                    }
                }
        }),
{
    run_keeps_accounts(World::start(hub), actions);
    let world = World::start(hub).run(actions);
    assert forall|c: int| 0 <= c < world.clients.len() implies {
        let client = #[trigger] world.clients[c];
        &&& client.session matches SessionState::Live { position } ==> position == client.joined
            + client.seen.len() + client.lost
        &&& client.lost == 0 ==> {
            &&& client.joined + client.seen.len() <= world.hub.log.len()
            &&& client.seen == world.hub.log.subrange(
                client.joined as int,
                (client.joined + client.seen.len()) as int,
            )
        }
    } by {
        assert(accounted(world.clients[c], world.hub.log));
    }
}

} // verus!
