//! MXC: which client serves a market, how many subscriptions a connection
//! may hold, and which symbol a message is about.

use vstd::prelude::*;
use vstd::string::*;
use crate::json::{
    array_elements, array_view, object_members, object_view, parse_array, parse_object,
    JsonObject, Members,
};
use crate::message::{text_result, ExtractError, MarketType, Message, MessageType};
use crate::partition::UNBOUNDED;
use crate::session::{given_texts, plan, planned, Client, Crawl, CrawlError};

verus! {

/// The exchange's name.
pub const EXCHANGE_NAME: &'static str = "mxc";

/// How many subscriptions one connection may hold: any number.
pub const MAX_SUBSCRIPTIONS_PER_CONNECTION: usize = UNBOUNDED;

/// The symbol that an object names in its `symbol` member.
pub open spec fn symbol_member(members: Members) -> Result<Seq<char>, ExtractError> {
    if members.contains_key("symbol"@) && members["symbol"@] is Some {
        Ok(members["symbol"@]->0)
    } else {
        Err(ExtractError::MissingField)
    }
}

/// The symbol of a message that is an object: the one it names itself.
pub open spec fn object_symbol(parsed: Option<Members>) -> Result<Seq<char>, ExtractError> {
    match parsed {
        Some(members) => symbol_member(members),
        None => Err(ExtractError::Unreadable),
    }
}

/// The symbol of a message that is an array: the one that its second element
/// names, which has to be an object.
pub open spec fn array_symbol(parsed: Option<Seq<Option<Members>>>) -> Result<
    Seq<char>,
    ExtractError,
> {
    match parsed {
        Some(elements) => if elements.len() > 1 && elements[1] is Some {
            symbol_member(elements[1]->0)
        } else {
            Err(ExtractError::MissingField)
        },
        None => Err(ExtractError::Unreadable),
    }
}

/// Whether a message sets out as a JSON array.
pub open spec fn starts_as_array(json: Seq<char>) -> bool {
    json.len() > 0 && json[0] == '['
}

/// The symbol that a data message is about.
pub open spec fn extraction(json: Seq<char>) -> Result<Seq<char>, ExtractError> {
    if starts_as_array(json) {
        array_symbol(array_elements(json))
    } else {
        object_symbol(object_members(json))
    }
}

/// Reads the symbol that an object names.
fn symbol_of_object(object: &JsonObject) -> (symbol: Result<String, ExtractError>)
    ensures
        text_result(symbol) == symbol_member(object@),
{
    match object.text_of("symbol") {
        Some(symbol) => Ok(symbol.clone()),
        None => Err(ExtractError::MissingField),
    }
}

/// Reads the symbol from a message that has been read as a JSON object, or
/// could not be.
pub fn symbol_in_object(parsed: &Option<JsonObject>) -> (symbol: Result<String, ExtractError>)
    ensures
        text_result(symbol) == object_symbol(object_view(*parsed)),
{
    match parsed {
        Some(object) => symbol_of_object(object),
        None => Err(ExtractError::Unreadable),
    }
}

/// Reads the symbol from a message that has been read as a JSON array, or
/// could not be.
pub fn symbol_in_array(parsed: &Option<Vec<Option<JsonObject>>>) -> (symbol: Result<
    String,
    ExtractError,
>)
    ensures
        text_result(symbol) == array_symbol(array_view(*parsed)),
{
    match parsed {
        Some(elements) => {
            if elements.len() > 1 {
                match &elements[1] {
                    Some(object) => symbol_of_object(object),
                    None => Err(ExtractError::MissingField),
                }
            } else {
                Err(ExtractError::MissingField)
            }
        },
        None => Err(ExtractError::Unreadable),
    }
}

/// Reads the symbol that a data message is about.
pub fn extract_symbol(json: &str) -> (symbol: Result<String, ExtractError>)
    ensures
        text_result(symbol) == extraction(json@),
{
    if !json.is_empty() && json.get_char(0) == '[' {
        let parsed = parse_array(json);
        symbol_in_array(&parsed)
    } else {
        let parsed = parse_object(json);
        symbol_in_object(&parsed)
    }
}

/// Wraps a data message into the record that consumers see.
pub fn canonical_event(
    market_type: MarketType,
    msg_type: MessageType,
    json: String,
    received_at: u64,
) -> (event: Result<Message, ExtractError>)
    ensures
        match event {
            Ok(message) => {
                &&& extraction(json@) == Ok::<Seq<char>, ExtractError>(message.symbol@)
                &&& message.exchange@ == EXCHANGE_NAME@
                &&& message.market_type == market_type
                &&& message.msg_type == msg_type
                &&& message.received_at == received_at
                &&& message.json == json
            },
            Err(error) => extraction(json@) == Err::<Seq<char>, ExtractError>(error),
        },
{
    match extract_symbol(json.as_str()) {
        Ok(symbol) => Ok(
            Message {
                exchange: String::from_str(EXCHANGE_NAME),
                market_type,
                msg_type,
                symbol,
                received_at,
                json,
            },
        ),
        Err(error) => Err(error),
    }
}

/// The client that serves a market type: the spot client for spot, the swap
/// client for swaps, and none for any other.
pub open spec fn served_by(market_type: MarketType) -> Option<Client> {
    match market_type {
        MarketType::Spot => Some(Client::Spot),
        MarketType::LinearSwap | MarketType::InverseSwap => Some(Client::Swap),
        _ => None,
    }
}

/// Picks the client for a market type.
pub fn client_for(market_type: MarketType) -> (client: Option<Client>)
    ensures
        client == served_by(market_type),
{
    match market_type {
        MarketType::Spot => Some(Client::Spot),
        MarketType::LinearSwap | MarketType::InverseSwap => Some(Client::Swap),
        _ => None,
    }
}

/// Plans a crawl of trades.
pub fn crawl_trade(
    market_type: MarketType,
    symbols: Option<&[String]>,
    duration: Option<u64>,
) -> (outcome: Result<Crawl, CrawlError>)
    ensures
        planned(
            market_type,
            served_by(market_type),
            MessageType::Trade,
            given_texts(symbols),
            MAX_SUBSCRIPTIONS_PER_CONNECTION,
            duration,
            outcome,
        ),
{
    plan(
        market_type,
        client_for(market_type),
        MessageType::Trade,
        symbols,
        MAX_SUBSCRIPTIONS_PER_CONNECTION,
        duration,
    )
}

/// Plans a crawl of level-2 order book updates.
pub fn crawl_l2_event(
    market_type: MarketType,
    symbols: Option<&[String]>,
    duration: Option<u64>,
) -> (outcome: Result<Crawl, CrawlError>)
    ensures
        planned(
            market_type,
            served_by(market_type),
            MessageType::L2Event,
            given_texts(symbols),
            MAX_SUBSCRIPTIONS_PER_CONNECTION,
            duration,
            outcome,
        ),
{
    plan(
        market_type,
        client_for(market_type),
        MessageType::L2Event,
        symbols,
        MAX_SUBSCRIPTIONS_PER_CONNECTION,
        duration,
    )
}

} // verus!
