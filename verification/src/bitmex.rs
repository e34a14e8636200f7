//! BitMEX swap and futures markets: one command names all channels.

use vstd::prelude::*;
use vstd::string::*;
use crate::adapter::{receive, subscriptions, withdrawals, Adapter};
use crate::engine::{transition, Action, Connection, Event, State};
use crate::json::{
    array_text, lemma_array_text_tells_items, object_members, object_view, parse_object,
    string_array_text, JsonObject, Members,
};
use crate::message::{named_channels, texts, MiscMessage, Request};

verus! {

/// The exchange's name.
pub const EXCHANGE_NAME: &'static str = "BitMEX";

/// The endpoint that every connection is opened to.
pub const WEBSOCKET_URL: &'static str = "wss://www.bitmex.com/realtime";

/// The WebSocket client for BitMEX, swaps and futures alike: one connection,
/// which serves one batch of channels for as long as the session lasts.
pub struct BitMEXWSClient {
    connection: Connection,
}

/// The name of the operation that starts or stops a subscription.
pub open spec fn operation(subscribe: bool) -> Seq<char> {
    if subscribe {
        "subscribe"@
    } else {
        "unsubscribe"@
    }
}

/// The requests that cover `channels`: a single one, for all of them.
pub open spec fn requests(channels: Seq<Seq<char>>, subscribe: bool) -> Seq<Request> {
    seq![(Request { subscribe, channels })]
}

/// The wire text of a request: an envelope with the operation's name and the
/// channels as a JSON array of strings.
pub open spec fn wire_text(request: Request) -> Seq<char> {
    "{\"op\":\""@ + operation(request.subscribe) + "\",\"args\":"@ + array_text(request.channels)
        + "}"@
}

/// The texts that go over the wire for a list of channels: the wire text of
/// each request that covers them, in order.
pub open spec fn command_texts(channels: Seq<Seq<char>>, subscribe: bool) -> Seq<Seq<char>> {
    requests(channels, subscribe).map_values(|r: Request| wire_text(r))
}

/// Frames the single command that subscribes to, or unsubscribes from, all of
/// `channels`.
pub fn serialize_command(channels: &[String], subscribe: bool) -> (commands: Vec<String>)
    ensures
        texts(commands@) == command_texts(texts(channels@), subscribe),
{
    let mut command = String::from_str("{\"op\":\"");
    if subscribe {
        command.append("subscribe");
    } else {
        command.append("unsubscribe");
    }
    command.append("\",\"args\":");
    let args = string_array_text(channels);
    command.append(args.as_str());
    command.append("}");
    let mut commands: Vec<String> = Vec::new();
    commands.push(command);
    assert(texts(commands@) =~= command_texts(texts(channels@), subscribe));
    commands
}

/// Every channel is named exactly once by the requests that cover a list of
/// channels, in the order of the list, whether they subscribe or unsubscribe;
/// the two differ in their intent alone.
pub proof fn lemma_each_channel_once(channels: Seq<Seq<char>>, subscribe: bool)
    ensures
        named_channels(requests(channels, subscribe)) == channels,
        requests(channels, subscribe).len() == requests(channels, !subscribe).len(),
        forall|i: int|
            0 <= i < requests(channels, subscribe).len() ==> {
                &&& (#[trigger] requests(channels, subscribe)[i]).subscribe == subscribe
                &&& requests(channels, subscribe)[i].channels == requests(
                    channels,
                    !subscribe,
                )[i].channels
            },
{
    let one = requests(channels, subscribe);
    assert(one.drop_last() =~= Seq::<Request>::empty());
    assert(named_channels(one.drop_last()) =~= Seq::<Seq<char>>::empty());
    assert(named_channels(one) =~= channels);
}

/// The text of a command tells what it asks for: two requests with the same
/// wire text are the same request.
pub proof fn lemma_wire_text_tells_request(first: Request, second: Request)
    requires
        wire_text(first) == wire_text(second),
    ensures
        first == second,
{
    reveal_strlit("{\"op\":\"");
    reveal_strlit("subscribe");
    reveal_strlit("unsubscribe");
    reveal_strlit("\",\"args\":");
    reveal_strlit("}");
    let opening = "{\"op\":\""@;
    let middle = "\",\"args\":"@;
    let closing = "}"@;
    let head_first = opening + operation(first.subscribe) + middle;
    let head_second = opening + operation(second.subscribe) + middle;
    let tail_first = array_text(first.channels) + closing;
    let tail_second = array_text(second.channels) + closing;
    assert(wire_text(first) =~= head_first + tail_first);
    assert(wire_text(second) =~= head_second + tail_second);
    assert(wire_text(first)[7] == operation(first.subscribe)[0]);
    assert(wire_text(second)[7] == operation(second.subscribe)[0]);
    assert(first.subscribe == second.subscribe);
    let k = head_first.len() as int;
    assert(tail_first =~= wire_text(first).subrange(k, wire_text(first).len() as int));
    assert(tail_second =~= wire_text(second).subrange(k, wire_text(second).len() as int));
    lemma_array_text_tells_items(first.channels, second.channels, closing, closing);
}

/// What a parsed message is: data where it is an object with a `table`
/// member, and a notice otherwise, also where it could not be read.
pub open spec fn classification(parsed: Option<Members>) -> MiscMessage {
    match parsed {
        Some(members) => if members.contains_key("table"@) {
            MiscMessage::Normal
        } else {
            MiscMessage::Misc
        },
        None => MiscMessage::Misc,
    }
}

/// Classifies a message that has been read as a JSON object, or could not be.
pub fn classify(parsed: &Option<JsonObject>) -> (kind: MiscMessage)
    ensures
        kind == classification(object_view(*parsed)),
{
    match parsed {
        Some(object) => if object.contains_key("table") {
            MiscMessage::Normal
        } else {
            MiscMessage::Misc
        },
        None => MiscMessage::Misc,
    }
}

/// Classifies an inbound raw message.
pub fn on_misc_msg(msg: &str) -> (kind: MiscMessage)
    ensures
        kind == classification(object_members(msg@)),
{
    let parsed = parse_object(msg);
    classify(&parsed)
}

impl Adapter for BitMEXWSClient {
    open spec fn requests(channels: Seq<Seq<char>>, subscribe: bool) -> Seq<Request> {
        requests(channels, subscribe)
    }

    open spec fn wire_text(request: Request) -> Seq<char> {
        wire_text(request)
    }

    open spec fn classification(raw: Seq<char>) -> MiscMessage {
        classification(object_members(raw))
    }

    proof fn lemma_each_channel_once(channels: Seq<Seq<char>>, subscribe: bool) {
        lemma_each_channel_once(channels, subscribe);
    }

    proof fn lemma_commands_tell_channels(
        a: Seq<Seq<char>>,
        subscribe_a: bool,
        b: Seq<Seq<char>>,
        subscribe_b: bool,
    ) {
        let first = Self::requests(a, subscribe_a).map_values(
            |r: Request| Self::wire_text(r),
        );
        let second = Self::requests(b, subscribe_b).map_values(
            |r: Request| Self::wire_text(r),
        );
        assert(first[0] == wire_text(requests(a, subscribe_a)[0]));
        assert(second[0] == wire_text(requests(b, subscribe_b)[0]));
        lemma_wire_text_tells_request(requests(a, subscribe_a)[0], requests(b, subscribe_b)[0]);
    }

    fn serialize(channels: &[String], subscribe: bool) -> (commands: Vec<String>) {
        let commands = serialize_command(channels, subscribe);
        assert(command_texts(texts(channels@), subscribe) =~= Self::requests(
            texts(channels@),
            subscribe,
        ).map_values(|r: Request| Self::wire_text(r)));
        commands
    }

    fn classify(raw: &str) -> (kind: MiscMessage) {
        on_misc_msg(raw)
    }
}

impl BitMEXWSClient {
    /// The connection that the client drives.
    pub closed spec fn connection(&self) -> Connection {
        self.connection
    }

    /// A client for a batch of channels, not started yet.
    pub fn new(channels: Vec<String>) -> (client: Self)
        ensures
            client.connection().state() == State::Disconnected,
            client.connection().channels() == channels@,
    {
        BitMEXWSClient { connection: Connection::new(channels) }
    }

    /// Where the connection stands.
    pub fn state(&self) -> (state: State)
        ensures
            state == self.connection().state(),
    {
        self.connection.current_state()
    }

    /// The commands that subscribe to the client's batch. They are the same
    /// whenever they are asked for, so a reconnect replays them.
    pub fn subscribe_commands(&self) -> (commands: Vec<String>)
        ensures
            texts(commands@) == command_texts(texts(self.connection().channels()), true),
    {
        let commands = subscriptions::<BitMEXWSClient>(&self.connection);
        assert(command_texts(texts(self.connection().channels()), true) =~= Self::requests(
            texts(self.connection().channels()),
            true,
        ).map_values(|r: Request| Self::wire_text(r)));
        commands
    }

    /// The commands that unsubscribe from the client's batch.
    pub fn unsubscribe_commands(&self) -> (commands: Vec<String>)
        ensures
            texts(commands@) == command_texts(texts(self.connection().channels()), false),
    {
        let commands = withdrawals::<BitMEXWSClient>(&self.connection);
        assert(command_texts(texts(self.connection().channels()), false) =~= Self::requests(
            texts(self.connection().channels()),
            false,
        ).map_values(|r: Request| Self::wire_text(r)));
        commands
    }

    /// Reports an event of the transport and says what to do next.
    pub fn on_event(&mut self, event: Event) -> (action: Action)
        ensures
            final(self).connection().state() == transition(
                old(self).connection().state(),
                event,
            ).0,
            action == transition(old(self).connection().state(), event).1,
            final(self).connection().channels() == old(self).connection().channels(),
    {
        self.connection.handle(event)
    }

    /// Classifies an inbound raw message, reports it and says what to do with
    /// it: only data that arrives while streaming is to be delivered.
    pub fn on_message(&mut self, msg: &str) -> (action: Action)
        ensures
            final(self).connection().state() == transition(
                old(self).connection().state(),
                Event::Received(classification(object_members(msg@))),
            ).0,
            action == transition(
                old(self).connection().state(),
                Event::Received(classification(object_members(msg@))),
            ).1,
            final(self).connection().channels() == old(self).connection().channels(),
    {
        receive::<BitMEXWSClient>(&mut self.connection, msg)
    }
}

} // verus!
