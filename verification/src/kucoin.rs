//! KuCoin: which client serves a market, how many subscriptions a connection
//! may hold, and which symbol a message is about.

use vstd::prelude::*;
use vstd::string::*;
use crate::json::{object_members, object_view, parse_object, text_view, JsonObject, Members};
use crate::message::{text_result, ExtractError, MarketType, Message, MessageType};
use crate::session::{given_texts, plan, planned, Client, Crawl, CrawlError};

verus! {

/// The exchange's name.
pub const EXCHANGE_NAME: &'static str = "kucoin";

/// How many subscriptions one connection may hold.
pub const MAX_SUBSCRIPTIONS_PER_CONNECTION: usize = 300;

/// The position of the last colon in `topic`, and -1 where it has none.
pub open spec fn last_colon(topic: Seq<char>) -> int
    decreases topic.len(),
{
    if topic.len() == 0 {
        -1
    } else if topic.last() == ':' {
        topic.len() - 1
    } else {
        last_colon(topic.drop_last())
    }
}

/// The symbol that a topic names: what follows its last colon.
pub open spec fn symbol_of(topic: Seq<char>) -> Option<Seq<char>> {
    if last_colon(topic) < 0 {
        None
    } else {
        Some(topic.subrange(last_colon(topic) + 1, topic.len() as int))
    }
}

/// A colon with none behind it is the last one; a topic without a colon has
/// no last one.
pub proof fn lemma_last_colon(topic: Seq<char>, from: int)
    requires
        0 <= from <= topic.len(),
        forall|j: int| from <= j < topic.len() ==> topic[j] != ':',
        from > 0 ==> topic[from - 1] == ':',
    ensures
        last_colon(topic) == from - 1,
    decreases topic.len(),
{
    if from < topic.len() {
        lemma_last_colon(topic.drop_last(), from);
    }
}

/// The symbol of a topic is free of colons and stands behind one: the topic
/// is some prefix, a colon, and the symbol.
pub proof fn lemma_symbol_follows_last_colon(topic: Seq<char>)
    ensures
        match symbol_of(topic) {
            Some(symbol) => {
                &&& !symbol.contains(':')
                &&& 0 <= last_colon(topic) < topic.len()
                &&& topic == topic.subrange(0, last_colon(topic)) + seq![':'] + symbol
            },
            None => !topic.contains(':'),
        },
    decreases topic.len(),
{
    if topic.len() > 0 {
        let front = topic.drop_last();
        lemma_symbol_follows_last_colon(front);
        if topic.last() == ':' {
            let symbol = topic.subrange(last_colon(topic) + 1, topic.len() as int);
            assert(symbol =~= Seq::<char>::empty());
            assert(topic =~= topic.subrange(0, last_colon(topic)) + seq![':'] + symbol);
        } else {
            match symbol_of(front) {
                Some(before) => {
                    let at = last_colon(front);
                    let symbol = topic.subrange(at + 1, topic.len() as int);
                    assert(symbol =~= before.push(topic.last()));
                    assert forall|i: int| 0 <= i < symbol.len() implies symbol[i] != ':' by {
                        if i < before.len() {
                            assert(before.contains(before[i]));
                        }
                    }
                    let rebuilt = front.subrange(0, at) + seq![':'] + before;
                    assert(rebuilt[at] == ':');
                    assert(topic[at] == front[at]);
                    assert(topic =~= topic.subrange(0, at) + seq![':'] + symbol);
                },
                None => {
                    assert forall|i: int| 0 <= i < topic.len() implies topic[i] != ':' by {
                        if i < front.len() {
                            assert(front.contains(front[i]));
                        }
                    }
                },
            }
        }
    }
}

/// Reads the symbol that a topic names.
pub fn symbol_of_topic(topic: &str) -> (symbol: Option<String>)
    ensures
        text_view(symbol) == symbol_of(topic@),
{
    let length = topic.unicode_len();
    let mut i: usize = length;
    while i > 0
        invariant
            i <= length,
            length == topic@.len(),
            forall|j: int| i <= j < topic@.len() ==> topic@[j] != ':',
        decreases i,
    {
        if topic.get_char(i - 1) == ':' {
            proof {
                lemma_last_colon(topic@, i as int);
            }
            return Some(topic.substring_char(i, length).to_owned());
        }
        i = i - 1;
    }
    proof {
        lemma_last_colon(topic@, 0);
    }
    None
}

/// The symbol that a parsed message is about: the one that its `topic` names.
pub open spec fn extraction(parsed: Option<Members>) -> Result<Seq<char>, ExtractError> {
    match parsed {
        None => Err(ExtractError::Unreadable),
        Some(members) => if members.contains_key("topic"@) && members["topic"@] is Some {
            match symbol_of(members["topic"@]->0) {
                Some(symbol) => Ok(symbol),
                None => Err(ExtractError::NoSymbol),
            }
        } else {
            Err(ExtractError::MissingField)
        },
    }
}

/// Reads the symbol from a message that has been read as a JSON object, or
/// could not be.
pub fn symbol_in(parsed: &Option<JsonObject>) -> (symbol: Result<String, ExtractError>)
    ensures
        text_result(symbol) == extraction(object_view(*parsed)),
{
    match parsed {
        None => Err(ExtractError::Unreadable),
        Some(object) => match object.text_of("topic") {
            None => Err(ExtractError::MissingField),
            Some(topic) => match symbol_of_topic(topic.as_str()) {
                Some(symbol) => Ok(symbol),
                None => Err(ExtractError::NoSymbol),
            },
        },
    }
}

/// Reads the symbol that a data message is about.
pub fn extract_symbol(json: &str) -> (symbol: Result<String, ExtractError>)
    ensures
        text_result(symbol) == extraction(object_members(json@)),
{
    let parsed = parse_object(json);
    symbol_in(&parsed)
}

/// Wraps a data message into the record that consumers see.
pub fn canonical_event(
    market_type: MarketType,
    msg_type: MessageType,
    json: String,
    received_at: u64,
) -> (event: Result<Message, ExtractError>)
    ensures
        match event {
            Ok(message) => {
                &&& extraction(object_members(json@)) == Ok::<Seq<char>, ExtractError>(
                    message.symbol@,
                )
                &&& message.exchange@ == EXCHANGE_NAME@
                &&& message.market_type == market_type
                &&& message.msg_type == msg_type
                &&& message.received_at == received_at
                &&& message.json == json
            },
            Err(error) => extraction(object_members(json@)) == Err::<Seq<char>, ExtractError>(
                error,
            ),
        },
{
    match extract_symbol(json.as_str()) {
        Ok(symbol) => Ok(
            Message {
                exchange: String::from_str(EXCHANGE_NAME),
                market_type,
                msg_type,
                symbol,
                received_at,
                json,
            },
        ),
        Err(error) => Err(error),
    }
}

/// The client that serves a market type: the spot client for spot, the swap
/// client for swaps and for inverse futures, and none for any other.
pub open spec fn served_by(market_type: MarketType) -> Option<Client> {
    match market_type {
        MarketType::Spot => Some(Client::Spot),
        MarketType::InverseSwap | MarketType::LinearSwap | MarketType::InverseFuture => Some(
            Client::Swap,
        ),
        _ => None,
    }
}

/// Picks the client for a market type.
pub fn client_for(market_type: MarketType) -> (client: Option<Client>)
    ensures
        client == served_by(market_type),
{
    match market_type {
        MarketType::Spot => Some(Client::Spot),
        MarketType::InverseSwap | MarketType::LinearSwap | MarketType::InverseFuture => Some(
            Client::Swap,
        ),
        _ => None,
    }
}

/// Plans a crawl of trades.
pub fn crawl_trade(
    market_type: MarketType,
    symbols: Option<&[String]>,
    duration: Option<u64>,
) -> (outcome: Result<Crawl, CrawlError>)
    ensures
        planned(
            market_type,
            served_by(market_type),
            MessageType::Trade,
            given_texts(symbols),
            MAX_SUBSCRIPTIONS_PER_CONNECTION,
            duration,
            outcome,
        ),
{
    plan(
        market_type,
        client_for(market_type),
        MessageType::Trade,
        symbols,
        MAX_SUBSCRIPTIONS_PER_CONNECTION,
        duration,
    )
}

/// Plans a crawl of level-2 order book updates.
pub fn crawl_l2_event(
    market_type: MarketType,
    symbols: Option<&[String]>,
    duration: Option<u64>,
) -> (outcome: Result<Crawl, CrawlError>)
    ensures
        planned(
            market_type,
            served_by(market_type),
            MessageType::L2Event,
            given_texts(symbols),
            MAX_SUBSCRIPTIONS_PER_CONNECTION,
            duration,
            outcome,
        ),
{
    plan(
        market_type,
        client_for(market_type),
        MessageType::L2Event,
        symbols,
        MAX_SUBSCRIPTIONS_PER_CONNECTION,
        duration,
    )
}

/// Plans a crawl of level-3 order book updates.
pub fn crawl_l3_event(
    market_type: MarketType,
    symbols: Option<&[String]>,
    duration: Option<u64>,
) -> (outcome: Result<Crawl, CrawlError>)
    ensures
        planned(
            market_type,
            served_by(market_type),
            MessageType::L3Event,
            given_texts(symbols),
            MAX_SUBSCRIPTIONS_PER_CONNECTION,
            duration,
            outcome,
        ),
{
    plan(
        market_type,
        client_for(market_type),
        MessageType::L3Event,
        symbols,
        MAX_SUBSCRIPTIONS_PER_CONNECTION,
        duration,
    )
}

} // verus!
