//! The entry point of a crawl: from an exchange, a market and a kind of event
//! to the session that collects it.

use vstd::prelude::*;
use crate::kucoin;
use crate::message::{MarketType, MessageType};
use crate::mxc;
use crate::session::{given_texts, planned, Crawl, CrawlError};

verus! {

/// The exchanges that can be crawled.
#[derive(Clone, Copy, Debug, PartialEq, Eq, Structural)]
pub enum Exchange {
    KuCoin,
    Mxc,
}

/// Whether `outcome` is what a crawl of `msg_type` on `exchange` comes to.
/// MXC publishes no level-3 order book, whatever the market; everything else
/// goes by the exchange's clients and its ceiling.
pub open spec fn crawled(
    exchange: Exchange,
    market_type: MarketType,
    msg_type: MessageType,
    symbols: Option<Seq<Seq<char>>>,
    duration: Option<u64>,
    outcome: Result<Crawl, CrawlError>,
) -> bool {
    match exchange {
        Exchange::KuCoin => planned(
            market_type,
            kucoin::served_by(market_type),
            msg_type,
            symbols,
            kucoin::MAX_SUBSCRIPTIONS_PER_CONNECTION,
            duration,
            outcome,
        ),
        Exchange::Mxc => if msg_type == MessageType::L3Event {
            outcome == Err::<Crawl, CrawlError>(CrawlError::UnsupportedEvent)
        } else {
            planned(
                market_type,
                mxc::served_by(market_type),
                msg_type,
                symbols,
                mxc::MAX_SUBSCRIPTIONS_PER_CONNECTION,
                duration,
                outcome,
            )
        },
    }
}

/// Plans the crawl of one kind of event on one market of an exchange.
pub fn crawl(
    exchange: Exchange,
    market_type: MarketType,
    msg_type: MessageType,
    symbols: Option<&[String]>,
    duration: Option<u64>,
) -> (outcome: Result<Crawl, CrawlError>)
    ensures
        crawled(exchange, market_type, msg_type, given_texts(symbols), duration, outcome),
{
    match exchange {
        Exchange::KuCoin => match msg_type {
            MessageType::Trade => kucoin::crawl_trade(market_type, symbols, duration),
            MessageType::L2Event => kucoin::crawl_l2_event(market_type, symbols, duration),
            MessageType::L3Event => kucoin::crawl_l3_event(market_type, symbols, duration),
        },
        Exchange::Mxc => match msg_type {
            MessageType::Trade => mxc::crawl_trade(market_type, symbols, duration),
            MessageType::L2Event => mxc::crawl_l2_event(market_type, symbols, duration),
            MessageType::L3Event => Err(CrawlError::UnsupportedEvent),
        },
    }
}

/// A crawl that the exchange cannot serve is refused whatever the symbols
/// are, and before they are looked at: no session comes of it.
pub proof fn lemma_unsupported_is_refused(
    exchange: Exchange,
    market_type: MarketType,
    msg_type: MessageType,
    symbols: Option<Seq<Seq<char>>>,
    duration: Option<u64>,
    outcome: Result<Crawl, CrawlError>,
)
    requires
        crawled(exchange, market_type, msg_type, symbols, duration, outcome),
    ensures
        exchange == Exchange::Mxc && msg_type == MessageType::L3Event ==> outcome == Err::<
            Crawl,
            CrawlError,
        >(CrawlError::UnsupportedEvent),
        exchange == Exchange::KuCoin && kucoin::served_by(market_type) is None ==> outcome == Err::<
            Crawl,
            CrawlError,
        >(CrawlError::UnsupportedMarket),
        exchange == Exchange::Mxc && msg_type != MessageType::L3Event && mxc::served_by(
            market_type,
        ) is None ==> outcome == Err::<Crawl, CrawlError>(CrawlError::UnsupportedMarket),
        outcome is Ok ==> (exchange == Exchange::KuCoin ==> kucoin::served_by(market_type) is Some),
        outcome is Ok ==> (exchange == Exchange::Mxc ==> mxc::served_by(market_type) is Some
            && msg_type != MessageType::L3Event),
{
}

} // verus!
