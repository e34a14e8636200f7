//! The values that flow between an exchange connection and its consumers.

use vstd::prelude::*;

verus! {

/// What an inbound raw message turned out to be.
#[derive(Clone, Copy, Debug, PartialEq, Eq, Structural)]
pub enum MiscMessage {
    /// Market data, to be handed to the consumer.
    Normal,
    /// An acknowledgement, an error notice or anything unreadable: logged and dropped.
    Misc,
    /// The server asks the client to connect again.
    Reconnect,
}

/// The kind of event a crawl collects.
#[derive(Clone, Copy, Debug, PartialEq, Eq, Structural)]
pub enum MessageType {
    Trade,
    L2Event,
    L3Event,
}

/// The kind of market that is traded. The variants are those of the
/// `crypto-markets` crate, one for one.
#[derive(Clone, Copy, Debug, PartialEq, Eq, Structural)]
pub enum MarketType {
    Unknown,
    Spot,
    LinearFuture,
    InverseFuture,
    LinearSwap,
    InverseSwap,
    AmericanOption,
    EuropeanOption,
    QuantoFuture,
    QuantoSwap,
    Move,
    BVOL,
}

/// Why no symbol could be read from a message that was taken for data.
#[derive(Clone, Copy, Debug, PartialEq, Eq, Structural)]
pub enum ExtractError {
    /// The payload is not JSON of the shape that the exchange sends.
    Unreadable,
    /// The member that names the symbol is missing or is not a string.
    MissingField,
    /// The member is there, but it names no symbol.
    NoSymbol,
}

/// A market-data record as consumers see it, whatever the exchange.
#[derive(Debug)]
pub struct Message {
    /// The exchange's name.
    pub exchange: String,
    pub market_type: MarketType,
    pub msg_type: MessageType,
    /// The symbol that the record is about.
    pub symbol: String,
    /// When the record was received, in milliseconds of Unix time.
    pub received_at: u64,
    /// The payload as the exchange sent it.
    pub json: String,
}

/// A text where there is one, and the error otherwise.
pub open spec fn text_result(result: Result<String, ExtractError>) -> Result<
    Seq<char>,
    ExtractError,
> {
    match result {
        Ok(text) => Ok(text@),
        Err(error) => Err(error),
    }
}

/// What one wire message asks of an exchange: to start or to stop sending
/// the named channels.
pub struct Request {
    pub subscribe: bool,
    pub channels: Seq<Seq<char>>,
}

/// The channels that a sequence of requests names: in order, and each as
/// often as it is named.
pub open spec fn named_channels(requests: Seq<Request>) -> Seq<Seq<char>>
    decreases requests.len(),
{
    if requests.len() == 0 {
        Seq::empty()
    } else {
        named_channels(requests.drop_last()) + requests.last().channels
    }
}

/// The views of a list of strings, in order.
pub open spec fn texts(items: Seq<String>) -> Seq<Seq<char>> {
    Seq::new(items.len(), |i: int| items[i]@)
}

/// Whether two texts hold the same characters.
pub fn same_text(a: &str, b: &str) -> (same: bool)
    ensures
        same == (a@ == b@),
{
    a.to_owned() == b.to_owned()
}

} // verus!
