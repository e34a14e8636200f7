//! What every exchange supplies to the connection that serves it: the framing
//! of subscriptions and the classification of inbound messages.

use vstd::prelude::*;
use crate::engine::{transition, Action, Connection, Event};
use crate::message::{named_channels, texts, MiscMessage, Request};

verus! {

/// The rules of one exchange. A connection depends on nothing else of it.
pub trait Adapter {
    /// The requests that cover a list of channels: one for all of them, one
    /// for each, or any split in between.
    spec fn requests(channels: Seq<Seq<char>>, subscribe: bool) -> Seq<Request>;

    /// The text that goes over the wire for a request.
    spec fn wire_text(request: Request) -> Seq<char>;

    /// What an inbound raw message is.
    spec fn classification(raw: Seq<char>) -> MiscMessage;

    /// Every channel is named exactly once by the requests that cover a list
    /// of channels, in the order of the list, whether they subscribe or
    /// unsubscribe; the two differ in their intent alone.
    proof fn lemma_each_channel_once(channels: Seq<Seq<char>>, subscribe: bool)
        ensures
            named_channels(Self::requests(channels, subscribe)) == channels,
            Self::requests(channels, subscribe).len() == Self::requests(channels, !subscribe).len(),
            forall|i: int|
                0 <= i < Self::requests(channels, subscribe).len() ==> {
                    &&& (#[trigger] Self::requests(channels, subscribe)[i]).subscribe == subscribe
                    &&& Self::requests(channels, subscribe)[i].channels == Self::requests(
                        channels,
                        !subscribe,
                    )[i].channels
                },
    ;

    /// The commands tell the channels: two lists of channels that are framed
    /// as the same commands are the same list, and where there is any channel
    /// at all the intent is the same too. So framing neither drops a channel
    /// nor merges two.
    proof fn lemma_commands_tell_channels(
        a: Seq<Seq<char>>,
        subscribe_a: bool,
        b: Seq<Seq<char>>,
        subscribe_b: bool,
    )
        requires
            Self::requests(a, subscribe_a).map_values(|r: Request| Self::wire_text(r))
                == Self::requests(b, subscribe_b).map_values(|r: Request| Self::wire_text(r)),
        ensures
            a == b,
            a.len() > 0 ==> subscribe_a == subscribe_b,
    ;

    /// Frames the commands that subscribe to, or unsubscribe from, `channels`.
    fn serialize(channels: &[String], subscribe: bool) -> (commands: Vec<String>)
        ensures
            texts(commands@) == Self::requests(texts(channels@), subscribe).map_values(
                |r: Request| Self::wire_text(r),
            ),
    ;

    /// Classifies an inbound raw message. Whatever the message holds, this
    /// returns: what cannot be read is a notice.
    fn classify(raw: &str) -> (kind: MiscMessage)
        ensures
            kind == Self::classification(raw@),
    ;
}

/// The commands that subscribe a connection to its batch. They depend on the
/// batch alone, so they are the same after every reconnect.
pub fn subscriptions<A: Adapter>(connection: &Connection) -> (commands: Vec<String>)
    ensures
        texts(commands@) == A::requests(texts(connection.channels()), true).map_values(
            |r: Request| A::wire_text(r),
        ),
{
    A::serialize(connection.batch().as_slice(), true)
}

/// The commands that withdraw a connection's subscriptions.
pub fn withdrawals<A: Adapter>(connection: &Connection) -> (commands: Vec<String>)
    ensures
        texts(commands@) == A::requests(texts(connection.channels()), false).map_values(
            |r: Request| A::wire_text(r),
        ),
{
    A::serialize(connection.batch().as_slice(), false)
}

/// Classifies an inbound raw message by the exchange's rules, reports it to
/// the connection and says what to do with it.
pub fn receive<A: Adapter>(connection: &mut Connection, raw: &str) -> (action: Action)
    ensures
        final(connection).state() == transition(
            old(connection).state(),
            Event::Received(A::classification(raw@)),
        ).0,
        action == transition(old(connection).state(), Event::Received(A::classification(raw@))).1,
        final(connection).channels() == old(connection).channels(),
{
    let kind = A::classify(raw);
    connection.handle(Event::Received(kind))
}

} // verus!
