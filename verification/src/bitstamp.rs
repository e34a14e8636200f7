//! Bitstamp spot market: one command per channel.

use vstd::prelude::*;
use vstd::string::*;
use crate::adapter::{receive, subscriptions, withdrawals, Adapter};
use crate::engine::{transition, Action, Connection, Event, State};
use crate::json::{object_members, object_view, parse_object, JsonObject, Members};
use crate::message::{named_channels, same_text, texts, MiscMessage, Request};

verus! {

/// The exchange's name.
pub const EXCHANGE_NAME: &'static str = "Bitstamp";

/// The endpoint that every connection is opened to.
pub const WEBSOCKET_URL: &'static str = "wss://ws.bitstamp.net";

/// The WebSocket client for the Bitstamp spot market: one connection, which
/// serves one batch of channels for as long as the session lasts.
pub struct BitstampSpotWSClient {
    connection: Connection,
}

/// The event name of a subscription or of its withdrawal.
pub open spec fn event_name(subscribe: bool) -> Seq<char> {
    if subscribe {
        "subscribe"@
    } else {
        "unsubscribe"@
    }
}

/// The wire text that subscribes to, or unsubscribes from, one channel.
pub open spec fn command_text(channel: Seq<char>, subscribe: bool) -> Seq<char> {
    "{\"event\":\"bts:"@ + event_name(subscribe) + "\",\"data\":{\"channel\":\""@ + channel
        + "\"}}"@
}

/// The requests that cover `channels`: one for each, in order.
pub open spec fn requests(channels: Seq<Seq<char>>, subscribe: bool) -> Seq<Request> {
    Seq::new(channels.len(), |i: int| (Request { subscribe, channels: seq![channels[i]] }))
}

/// The wire text of a request for one channel.
pub open spec fn wire_text(request: Request) -> Seq<char> {
    command_text(request.channels[0], request.subscribe)
}

/// The texts that go over the wire for a list of channels: the wire text of
/// each request that covers them, in order.
pub open spec fn command_texts(channels: Seq<Seq<char>>, subscribe: bool) -> Seq<Seq<char>> {
    requests(channels, subscribe).map_values(|r: Request| wire_text(r))
}

/// Frames the command for one channel.
pub fn channel_to_command(channel: &str, subscribe: bool) -> (command: String)
    ensures
        command@ == command_text(channel@, subscribe),
{
    let mut command = String::from_str("{\"event\":\"bts:");
    if subscribe {
        command.append("subscribe");
    } else {
        command.append("unsubscribe");
    }
    command.append("\",\"data\":{\"channel\":\"");
    command.append(channel);
    command.append("\"}}");
    command
}

/// Frames one command per channel, in the order of the channels.
pub fn serialize_command(channels: &[String], subscribe: bool) -> (commands: Vec<String>)
    ensures
        texts(commands@) == command_texts(texts(channels@), subscribe),
{
    let mut commands: Vec<String> = Vec::new();
    let mut i: usize = 0;
    while i < channels.len()
        invariant
            i <= channels@.len(),
            commands@.len() == i,
            forall|j: int|
                0 <= j < i ==> (#[trigger] commands@[j])@ == command_text(channels@[j]@, subscribe),
        decreases channels@.len() - i,
    {
        let command = channel_to_command(channels[i].as_str(), subscribe);
        commands.push(command);
        i = i + 1;
    }
    assert(texts(commands@) =~= command_texts(texts(channels@), subscribe));
    commands
}

/// Every channel is named exactly once by the requests that cover a list of
/// channels, in the order of the list, whether they subscribe or unsubscribe;
/// the two differ in their intent alone.
pub proof fn lemma_each_channel_once(channels: Seq<Seq<char>>, subscribe: bool)
    ensures
        named_channels(requests(channels, subscribe)) == channels,
        requests(channels, subscribe).len() == requests(channels, !subscribe).len(),
        forall|i: int|
            0 <= i < requests(channels, subscribe).len() ==> {
                &&& (#[trigger] requests(channels, subscribe)[i]).subscribe == subscribe
                &&& requests(channels, subscribe)[i].channels == requests(
                    channels,
                    !subscribe,
                )[i].channels
            },
    decreases channels.len(),
{
    if channels.len() > 0 {
        let front = channels.drop_last();
        lemma_each_channel_once(front, subscribe);
        assert(requests(channels, subscribe).drop_last() =~= requests(front, subscribe));
        assert(front + seq![channels.last()] =~= channels);
    } else {
        assert(named_channels(requests(channels, subscribe)) =~= channels);
    }
}

/// The text of a command tells its channel and its intent.
pub proof fn lemma_command_tells_channel(
    a: Seq<char>,
    subscribe_a: bool,
    b: Seq<char>,
    subscribe_b: bool,
)
    requires
        command_text(a, subscribe_a) == command_text(b, subscribe_b),
    ensures
        a == b,
        subscribe_a == subscribe_b,
{
    reveal_strlit("{\"event\":\"bts:");
    reveal_strlit("subscribe");
    reveal_strlit("unsubscribe");
    reveal_strlit("\",\"data\":{\"channel\":\"");
    reveal_strlit("\"}}");
    let opening = "{\"event\":\"bts:"@;
    let middle = "\",\"data\":{\"channel\":\""@;
    let closing = "\"}}"@;
    let first = command_text(a, subscribe_a);
    let second = command_text(b, subscribe_b);
    let head_a = opening + event_name(subscribe_a) + middle;
    let head_b = opening + event_name(subscribe_b) + middle;
    assert(first =~= head_a + a + closing);
    assert(second =~= head_b + b + closing);
    assert(first[14] == event_name(subscribe_a)[0]);
    assert(second[14] == event_name(subscribe_b)[0]);
    assert(subscribe_a == subscribe_b);
    let k = head_a.len() as int;
    assert(a.len() == b.len());
    assert forall|i: int| 0 <= i < a.len() implies a[i] == b[i] by {
        assert(first[k + i] == a[i]);
        assert(second[k + i] == b[i]);
    }
    assert(a =~= b);
}

/// What the `event` of a message says of it: acknowledgements and error
/// notices are notices, the request to reconnect is one to reconnect, and
/// every other event is data.
pub open spec fn event_class(event: Seq<char>) -> MiscMessage {
    if event == "bts:subscription_succeeded"@ || event == "bts:unsubscription_succeeded"@ || event
        == "bts:error"@ {
        MiscMessage::Misc
    } else if event == "bts:request_reconnect"@ {
        MiscMessage::Reconnect
    } else {
        MiscMessage::Normal
    }
}

/// What a parsed message is: what its `event` says where it is an object
/// whose `event` is a string, and a notice otherwise, also where it could not
/// be read.
pub open spec fn classification(parsed: Option<Members>) -> MiscMessage {
    match parsed {
        Some(members) => if members.contains_key("event"@) {
            match members["event"@] {
                Some(event) => event_class(event),
                None => MiscMessage::Misc,
            }
        } else {
            MiscMessage::Misc
        },
        None => MiscMessage::Misc,
    }
}

/// Classifies a message by the text of its `event`.
pub fn classify_event(event: &str) -> (kind: MiscMessage)
    ensures
        kind == event_class(event@),
{
    if same_text(event, "bts:subscription_succeeded") || same_text(
        event,
        "bts:unsubscription_succeeded",
    ) || same_text(event, "bts:error") {
        MiscMessage::Misc
    } else if same_text(event, "bts:request_reconnect") {
        MiscMessage::Reconnect
    } else {
        MiscMessage::Normal
    }
}

/// Classifies a message that has been read as a JSON object, or could not be.
pub fn classify(parsed: &Option<JsonObject>) -> (kind: MiscMessage)
    ensures
        kind == classification(object_view(*parsed)),
{
    match parsed {
        Some(object) => match object.text_of("event") {
            Some(event) => classify_event(event.as_str()),
            None => MiscMessage::Misc,
        },
        None => MiscMessage::Misc,
    }
}

/// Classifies an inbound raw message.
pub fn on_misc_msg(msg: &str) -> (kind: MiscMessage)
    ensures
        kind == classification(object_members(msg@)),
{
    let parsed = parse_object(msg);
    classify(&parsed)
}

impl Adapter for BitstampSpotWSClient {
    open spec fn requests(channels: Seq<Seq<char>>, subscribe: bool) -> Seq<Request> {
        requests(channels, subscribe)
    }

    open spec fn wire_text(request: Request) -> Seq<char> {
        wire_text(request)
    }

    open spec fn classification(raw: Seq<char>) -> MiscMessage {
        classification(object_members(raw))
    }

    proof fn lemma_each_channel_once(channels: Seq<Seq<char>>, subscribe: bool) {
        lemma_each_channel_once(channels, subscribe);
    }

    proof fn lemma_commands_tell_channels(
        a: Seq<Seq<char>>,
        subscribe_a: bool,
        b: Seq<Seq<char>>,
        subscribe_b: bool,
    ) {
        let first = Self::requests(a, subscribe_a).map_values(
            |r: Request| Self::wire_text(r),
        );
        let second = Self::requests(b, subscribe_b).map_values(
            |r: Request| Self::wire_text(r),
        );
        assert(a.len() == first.len() && b.len() == second.len());
        assert(first.len() == second.len());
        assert forall|i: int| 0 <= i < a.len() implies a[i] == b[i] by {
            assert(first[i] == command_text(a[i], subscribe_a));
            assert(second[i] == command_text(b[i], subscribe_b));
            lemma_command_tells_channel(a[i], subscribe_a, b[i], subscribe_b);
        }
        assert(a =~= b);
        if a.len() > 0 {
            assert(first[0] == command_text(a[0], subscribe_a));
            assert(second[0] == command_text(b[0], subscribe_b));
            lemma_command_tells_channel(a[0], subscribe_a, b[0], subscribe_b);
        }
    }

    fn serialize(channels: &[String], subscribe: bool) -> (commands: Vec<String>) {
        let commands = serialize_command(channels, subscribe);
        assert(command_texts(texts(channels@), subscribe) =~= Self::requests(
            texts(channels@),
            subscribe,
        ).map_values(|r: Request| Self::wire_text(r)));
        commands
    }

    fn classify(raw: &str) -> (kind: MiscMessage) {
        on_misc_msg(raw)
    }
}

impl BitstampSpotWSClient {
    /// The connection that the client drives.
    pub closed spec fn connection(&self) -> Connection {
        self.connection
    }

    /// A client for a batch of channels, not started yet.
    pub fn new(channels: Vec<String>) -> (client: Self)
        ensures
            client.connection().state() == State::Disconnected,
            client.connection().channels() == channels@,
    {
        BitstampSpotWSClient { connection: Connection::new(channels) }
    }

    /// Where the connection stands.
    pub fn state(&self) -> (state: State)
        ensures
            state == self.connection().state(),
    {
        self.connection.current_state()
    }

    /// The commands that subscribe to the client's batch. They are the same
    /// whenever they are asked for, so a reconnect replays them.
    pub fn subscribe_commands(&self) -> (commands: Vec<String>)
        ensures
            texts(commands@) == command_texts(texts(self.connection().channels()), true),
    {
        let commands = subscriptions::<BitstampSpotWSClient>(&self.connection);
        assert(command_texts(texts(self.connection().channels()), true) =~= Self::requests(
            texts(self.connection().channels()),
            true,
        ).map_values(|r: Request| Self::wire_text(r)));
        commands
    }

    /// The commands that unsubscribe from the client's batch.
    pub fn unsubscribe_commands(&self) -> (commands: Vec<String>)
        ensures
            texts(commands@) == command_texts(texts(self.connection().channels()), false),
    {
        let commands = withdrawals::<BitstampSpotWSClient>(&self.connection);
        assert(command_texts(texts(self.connection().channels()), false) =~= Self::requests(
            texts(self.connection().channels()),
            false,
        ).map_values(|r: Request| Self::wire_text(r)));
        commands
    }

    /// Reports an event of the transport and says what to do next.
    pub fn on_event(&mut self, event: Event) -> (action: Action)
        ensures
            final(self).connection().state() == transition(
                old(self).connection().state(),
                event,
            ).0,
            action == transition(old(self).connection().state(), event).1,
            final(self).connection().channels() == old(self).connection().channels(),
    {
        self.connection.handle(event)
    }

    /// Classifies an inbound raw message, reports it and says what to do with
    /// it: only data that arrives while streaming is to be delivered.
    pub fn on_message(&mut self, msg: &str) -> (action: Action)
        ensures
            final(self).connection().state() == transition(
                old(self).connection().state(),
                Event::Received(classification(object_members(msg@))),
            ).0,
            action == transition(
                old(self).connection().state(),
                Event::Received(classification(object_members(msg@))),
            ).1,
            final(self).connection().channels() == old(self).connection().channels(),
    {
        receive::<BitstampSpotWSClient>(&mut self.connection, msg)
    }
}

} // verus!
