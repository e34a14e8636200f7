//! The life of one connection to an exchange, as a state machine.
//!
//! The machine decides; the transport does the work. After every piece of
//! outside work (opening the transport, sending, receiving, waiting) the
//! caller reports what happened as an [`Event`] and is told what to do next
//! as an [`Action`].

use vstd::prelude::*;
use crate::message::MiscMessage;

verus! {

/// Where a connection stands.
#[derive(Clone, Copy, Debug, PartialEq, Eq, Structural)]
pub enum State {
    /// Not started yet.
    Disconnected,
    /// The transport is being opened.
    Connecting,
    /// The transport is open and the subscriptions are being sent.
    Subscribing,
    /// Inbound messages are received one at a time.
    Streaming,
    /// The transport has been torn down and a short wait precedes the next attempt.
    Reconnecting,
    /// The connection has ended for good.
    Closed,
}

/// What the outside world reports to the machine.
#[derive(Clone, Copy, Debug, PartialEq, Eq, Structural)]
pub enum Event {
    /// The connection is asked to start.
    Start,
    /// The transport has been opened.
    Opened,
    /// The transport could not be opened.
    OpenFailed,
    /// The subscriptions have been sent without an immediate error.
    Sent,
    /// An inbound message has been received and classified.
    Received(MiscMessage),
    /// The heartbeat interval has elapsed.
    HeartbeatDue,
    /// No heartbeat has come back within the timeout.
    HeartbeatMissed,
    /// The transport has failed or the peer has gone.
    Dropped,
    /// The wait before the next attempt is over.
    BackoffElapsed,
    /// The session has been cancelled or its time is up.
    Cancelled,
    /// A message taken for data did not have the shape that the exchange
    /// documents: the connection must not go on.
    Aborted,
}

/// What the machine asks of the outside world.
#[derive(Clone, Copy, Debug, PartialEq, Eq, Structural)]
pub enum Action {
    /// Nothing: the event does not concern the machine in its state.
    Idle,
    /// Open the transport to the exchange.
    Open,
    /// Send the subscriptions of the connection's batch.
    Subscribe,
    /// Wait for the next inbound message.
    Receive,
    /// Hand the message just received to the consumer, then go on receiving.
    Deliver,
    /// Log and drop the message just received, then go on receiving.
    Discard,
    /// Send a heartbeat, then go on receiving.
    Ping,
    /// Tear the transport down and wait before the next attempt.
    Backoff,
    /// Close the transport and stop.
    Close,
}

/// The state that follows `state` on `event`, and what is to be done.
///
/// Nothing leads out of `Closed`. A cancellation closes from every other
/// state, and so does a message of data that cannot be attributed. Failures
/// of the transport, a missed heartbeat and the server's request to reconnect
/// all lead through `Reconnecting` back to `Connecting`, after which the
/// subscriptions are sent again. Any other event leaves the state as it is.
pub open spec fn transition(state: State, event: Event) -> (State, Action) {
    match (state, event) {
        (State::Closed, _) => (State::Closed, Action::Idle),
        (_, Event::Cancelled) => (State::Closed, Action::Close),
        (_, Event::Aborted) => (State::Closed, Action::Close),
        (State::Disconnected, Event::Start) => (State::Connecting, Action::Open),
        (State::Connecting, Event::Opened) => (State::Subscribing, Action::Subscribe),
        (State::Connecting, Event::OpenFailed) => (State::Reconnecting, Action::Backoff),
        (State::Connecting, Event::Dropped) => (State::Reconnecting, Action::Backoff),
        (State::Subscribing, Event::Sent) => (State::Streaming, Action::Receive),
        (State::Subscribing, Event::Dropped) => (State::Reconnecting, Action::Backoff),
        (State::Streaming, Event::Received(MiscMessage::Normal)) => (
            State::Streaming,
            Action::Deliver,
        ),
        (State::Streaming, Event::Received(MiscMessage::Misc)) => (
            State::Streaming,
            Action::Discard,
        ),
        (State::Streaming, Event::Received(MiscMessage::Reconnect)) => (
            State::Reconnecting,
            Action::Backoff,
        ),
        (State::Streaming, Event::HeartbeatDue) => (State::Streaming, Action::Ping),
        (State::Streaming, Event::HeartbeatMissed) => (State::Reconnecting, Action::Backoff),
        (State::Streaming, Event::Dropped) => (State::Reconnecting, Action::Backoff),
        (State::Reconnecting, Event::BackoffElapsed) => (State::Connecting, Action::Open),
        _ => (state, Action::Idle),
    }
}

/// The state reached from `state` after `events`, in order.
pub open spec fn run(state: State, events: Seq<Event>) -> State
    decreases events.len(),
{
    if events.len() == 0 {
        state
    } else {
        transition(run(state, events.drop_last()), events.last()).0
    }
}

/// What a connection does once it is streaming and a message of the given
/// kind has come in.
fn on_received(kind: MiscMessage) -> (next: (State, Action))
    ensures
        next == transition(State::Streaming, Event::Received(kind)),
{
    match kind {
        MiscMessage::Normal => (State::Streaming, Action::Deliver),
        MiscMessage::Misc => (State::Streaming, Action::Discard),
        MiscMessage::Reconnect => (State::Reconnecting, Action::Backoff),
    }
}

/// Takes one step of the machine.
pub fn step(state: State, event: Event) -> (next: (State, Action))
    ensures
        next == transition(state, event),
{
    match state {
        State::Closed => (State::Closed, Action::Idle),
        State::Disconnected => match event {
            Event::Cancelled | Event::Aborted => (State::Closed, Action::Close),
            Event::Start => (State::Connecting, Action::Open),
            _ => (state, Action::Idle),
        },
        State::Connecting => match event {
            Event::Cancelled | Event::Aborted => (State::Closed, Action::Close),
            Event::Opened => (State::Subscribing, Action::Subscribe),
            Event::OpenFailed | Event::Dropped => (State::Reconnecting, Action::Backoff),
            _ => (state, Action::Idle),
        },
        State::Subscribing => match event {
            Event::Cancelled | Event::Aborted => (State::Closed, Action::Close),
            Event::Sent => (State::Streaming, Action::Receive),
            Event::Dropped => (State::Reconnecting, Action::Backoff),
            _ => (state, Action::Idle),
        },
        State::Streaming => match event {
            Event::Cancelled | Event::Aborted => (State::Closed, Action::Close),
            Event::Received(kind) => on_received(kind),
            Event::HeartbeatDue => (State::Streaming, Action::Ping),
            Event::HeartbeatMissed | Event::Dropped => (State::Reconnecting, Action::Backoff),
            _ => (state, Action::Idle),
        },
        State::Reconnecting => match event {
            Event::Cancelled | Event::Aborted => (State::Closed, Action::Close),
            Event::BackoffElapsed => (State::Connecting, Action::Open),
            _ => (state, Action::Idle),
        },
    }
}

/// When heartbeats are due and how long the peer may stay silent, both in
/// milliseconds.
#[derive(Clone, Copy, Debug, PartialEq, Eq, Structural)]
pub struct Heartbeat {
    /// The time from one heartbeat to the next; `None` where the exchange
    /// asks for none.
    pub interval: Option<u64>,
    /// The silence after which the peer is taken to be gone.
    pub timeout: u64,
}

/// What the clock reports to a streaming connection, if anything: a missed
/// heartbeat once the peer has been silent for the timeout, and otherwise a
/// heartbeat that is due once the interval has passed since the last one.
pub open spec fn clock_event(heartbeat: Heartbeat, since_sent: u64, since_heard: u64) -> Option<
    Event,
> {
    if since_heard >= heartbeat.timeout {
        Some(Event::HeartbeatMissed)
    } else if heartbeat.interval matches Some(interval) && since_sent >= interval {
        Some(Event::HeartbeatDue)
    } else {
        None
    }
}

/// Reads the clock of a streaming connection: `since_sent` is the time since
/// the last heartbeat was sent, `since_heard` the time since anything came
/// from the peer.
pub fn on_clock(heartbeat: Heartbeat, since_sent: u64, since_heard: u64) -> (event: Option<Event>)
    ensures
        event == clock_event(heartbeat, since_sent, since_heard),
{
    if since_heard >= heartbeat.timeout {
        return Some(Event::HeartbeatMissed);
    }
    match heartbeat.interval {
        Some(interval) => if since_sent >= interval {
            Some(Event::HeartbeatDue)
        } else {
            None
        },
        None => None,
    }
}

/// `Closed` is final: no sequence of events leads out of it.
pub proof fn lemma_closed_is_final(events: Seq<Event>)
    ensures
        run(State::Closed, events) == State::Closed,
    decreases events.len(),
{
    if events.len() > 0 {
        lemma_closed_is_final(events.drop_last());
    }
}

/// Running two sequences of events one after the other is running their
/// concatenation.
pub proof fn lemma_run_split(state: State, first: Seq<Event>, second: Seq<Event>)
    ensures
        run(state, first + second) == run(run(state, first), second),
    decreases second.len(),
{
    if second.len() == 0 {
        assert(first + second =~= first);
    } else {
        assert((first + second).drop_last() =~= first + second.drop_last());
        lemma_run_split(state, first, second.drop_last());
    }
}

/// A cancellation closes the connection at the step that observes it,
/// whatever came before, and nothing that comes after opens it again.
pub proof fn lemma_cancellation_closes(state: State, before: Seq<Event>, after: Seq<Event>)
    ensures
        transition(run(state, before), Event::Cancelled).0 == State::Closed,
        run(state, before.push(Event::Cancelled) + after) == State::Closed,
{
    let observed = before.push(Event::Cancelled);
    assert(observed.drop_last() =~= before);
    assert(run(state, observed) == State::Closed);
    lemma_run_split(state, observed, after);
    lemma_closed_is_final(after);
}

/// Only data received while streaming is handed to the consumer.
pub proof fn lemma_only_data_is_delivered(state: State, event: Event)
    ensures
        transition(state, event).1 == Action::Deliver <==> state == State::Streaming && event
            == Event::Received(MiscMessage::Normal),
{
}

/// A missed heartbeat and a dropped transport are treated as the server's
/// request to reconnect is.
pub proof fn lemma_failures_reconnect()
    ensures
        transition(State::Streaming, Event::HeartbeatMissed) == transition(
            State::Streaming,
            Event::Received(MiscMessage::Reconnect),
        ),
        transition(State::Streaming, Event::Dropped) == transition(
            State::Streaming,
            Event::Received(MiscMessage::Reconnect),
        ),
        transition(State::Streaming, Event::Received(MiscMessage::Reconnect)) == (
            State::Reconnecting,
            Action::Backoff,
        ),
{
}

/// After a reconnect the subscriptions are sent again: once the wait is over
/// and the transport is open, the machine asks for them.
pub proof fn lemma_subscriptions_replayed()
    ensures
        transition(State::Reconnecting, Event::BackoffElapsed) == (
            State::Connecting,
            Action::Open,
        ),
        transition(State::Connecting, Event::Opened) == (State::Subscribing, Action::Subscribe),
        run(State::Reconnecting, seq![Event::BackoffElapsed, Event::Opened, Event::Sent])
            == State::Streaming,
{
    reveal_with_fuel(run, 4);
    let events = seq![Event::BackoffElapsed, Event::Opened, Event::Sent];
    assert(events.drop_last() =~= seq![Event::BackoffElapsed, Event::Opened]);
    assert(events.drop_last().drop_last() =~= seq![Event::BackoffElapsed]);
    assert(events.drop_last().drop_last().drop_last() =~= Seq::<Event>::empty());
}

/// The machine never gives up on the transport: whatever fails, it closes on
/// nothing but a cancellation or data that cannot be attributed.
pub proof fn lemma_failures_never_close(state: State, event: Event)
    requires
        state != State::Closed,
        event != Event::Cancelled,
        event != Event::Aborted,
    ensures
        transition(state, event).0 != State::Closed,
{
}

/// One connection: its state and the batch of channels it serves.
pub struct Connection {
    state: State,
    channels: Vec<String>,
}

impl Connection {
    /// The state of the connection.
    pub closed spec fn state(&self) -> State {
        self.state
    }

    /// The batch of channels that the connection serves.
    pub closed spec fn channels(&self) -> Seq<String> {
        self.channels@
    }

    /// A connection for a batch of channels, not started yet.
    pub fn new(channels: Vec<String>) -> (connection: Connection)
        ensures
            connection.state() == State::Disconnected,
            connection.channels() == channels@,
    {
        Connection { state: State::Disconnected, channels }
    }

    /// Where the connection stands.
    pub fn current_state(&self) -> (state: State)
        ensures
            state == self.state(),
    {
        self.state
    }

    /// The batch of channels that the connection serves.
    pub fn batch(&self) -> (channels: &Vec<String>)
        ensures
            channels@ == self.channels(),
    {
        &self.channels
    }

    /// Whether the connection has ended for good.
    pub fn is_closed(&self) -> (closed: bool)
        ensures
            closed == (self.state() == State::Closed),
    {
        match self.state {
            State::Closed => true,
            _ => false,
        }
    }

    /// Reports an event to the connection and says what to do next. The batch
    /// stays as it is.
    pub fn handle(&mut self, event: Event) -> (action: Action)
        ensures
            final(self).state() == transition(old(self).state(), event).0,
            action == transition(old(self).state(), event).1,
            final(self).channels() == old(self).channels(),
    {
        let (state, action) = step(self.state, event);
        self.state = state;
        action
    }
}

} // verus!
