//! The planning of a crawl: which client serves a market, how the symbols
//! are spread over connections, and when a session's time is up.

use vstd::prelude::*;
use crate::message::{texts, MarketType, MessageType};
use crate::partition::{batch_count, batch_texts, is_split, partition, UNBOUNDED};

verus! {

/// The client of an exchange that serves a market.
#[derive(Clone, Copy, Debug, PartialEq, Eq, Structural)]
pub enum Client {
    /// The client of the spot market.
    Spot,
    /// The client of the swap and futures markets.
    Swap,
}

/// Why a crawl cannot be run.
#[derive(Clone, Copy, Debug, PartialEq, Eq, Structural)]
pub enum CrawlError {
    /// The exchange has no client for the market type.
    UnsupportedMarket,
    /// The exchange does not publish the kind of event.
    UnsupportedEvent,
    /// The exchange's clients admit no subscription at all.
    NoCapacity,
    /// No list of symbols could be had from the exchange.
    Discovery,
}

/// One session, ready to run: a connection for each batch, all of them
/// collecting one kind of event from one client.
#[derive(Debug)]
pub struct CrawlPlan {
    pub market_type: MarketType,
    pub client: Client,
    pub msg_type: MessageType,
    /// The symbols of each connection.
    pub batches: Vec<Vec<String>>,
    /// How long the session may run, in seconds; `None` for no limit.
    pub duration: Option<u64>,
}

/// What is to be done for a crawl that can be run.
#[derive(Debug)]
pub enum Crawl {
    /// No symbols were given: ask the exchange for its symbols, then plan
    /// again with them.
    Discover { market_type: MarketType, client: Client, msg_type: MessageType },
    /// Run the session.
    Run(CrawlPlan),
}

/// Whether `outcome` is what a crawl comes to. A market that no client serves
/// and a ceiling of zero are refused, in this order, before anything else is
/// looked at. Without symbols the exchange is to be asked first. With symbols
/// the session has one connection for each batch of their split.
pub open spec fn planned(
    market_type: MarketType,
    client: Option<Client>,
    msg_type: MessageType,
    symbols: Option<Seq<Seq<char>>>,
    ceiling: usize,
    duration: Option<u64>,
    outcome: Result<Crawl, CrawlError>,
) -> bool {
    match client {
        None => outcome == Err::<Crawl, CrawlError>(CrawlError::UnsupportedMarket),
        Some(served) => if ceiling == 0 {
            outcome == Err::<Crawl, CrawlError>(CrawlError::NoCapacity)
        } else {
            match symbols {
                None => outcome == Ok::<Crawl, CrawlError>(
                    Crawl::Discover { market_type, client: served, msg_type },
                ),
                Some(given) => {
                    &&& outcome matches Ok(Crawl::Run(plan))
                    &&& plan.market_type == market_type
                    &&& plan.client == served
                    &&& plan.msg_type == msg_type
                    &&& plan.duration == duration
                    &&& is_split(batch_texts(plan.batches@), given, ceiling)
                },
            }
        },
    }
}

/// The texts of a list of symbols, where one is given.
pub open spec fn given_texts(symbols: Option<&[String]>) -> Option<Seq<Seq<char>>> {
    match symbols {
        Some(list) => Some(texts(list@)),
        None => None,
    }
}

/// Plans a crawl of `msg_type` through the client that the exchange has for
/// the market, if it has one.
pub fn plan(
    market_type: MarketType,
    client: Option<Client>,
    msg_type: MessageType,
    symbols: Option<&[String]>,
    ceiling: usize,
    duration: Option<u64>,
) -> (outcome: Result<Crawl, CrawlError>)
    ensures
        planned(market_type, client, msg_type, given_texts(symbols), ceiling, duration, outcome),
{
    let served = match client {
        Some(served) => served,
        None => {
            return Err(CrawlError::UnsupportedMarket);
        },
    };
    match symbols {
        None => if ceiling == 0 {
            Err(CrawlError::NoCapacity)
        } else {
            Ok(Crawl::Discover { market_type, client: served, msg_type })
        },
        Some(list) => match partition(list, ceiling) {
            Some(batches) => Ok(
                Crawl::Run(CrawlPlan { market_type, client: served, msg_type, batches, duration }),
            ),
            None => Err(CrawlError::NoCapacity),
        },
    }
}

/// A crawl with symbols is refused exactly where no client serves the market
/// or the ceiling is zero; it then has no session, and so starts no
/// connection. Every other one is run, with as many connections as the split
/// of the symbols has batches, and so with exactly one under the unbounded
/// ceiling; between them the connections hold every symbol that was given, in
/// the order given.
pub proof fn lemma_refused_or_split(
    market_type: MarketType,
    client: Option<Client>,
    msg_type: MessageType,
    symbols: Seq<Seq<char>>,
    ceiling: usize,
    duration: Option<u64>,
    outcome: Result<Crawl, CrawlError>,
)
    requires
        planned(market_type, client, msg_type, Some(symbols), ceiling, duration, outcome),
    ensures
        client is None || ceiling == 0 <==> outcome is Err,
        outcome is Ok ==> outcome->Ok_0 is Run,
        outcome matches Ok(Crawl::Run(plan)) ==> {
            &&& plan.batches@.len() == batch_count(symbols.len(), ceiling)
            &&& ceiling == UNBOUNDED ==> plan.batches@.len() == 1
            &&& batch_texts(plan.batches@).flatten() == symbols
        },
{
}

/// Whether the time of a session is up: never without a limit, and with one
/// as soon as the limit has elapsed and not before.
pub open spec fn is_up(duration: Option<u64>, elapsed: u64) -> bool {
    duration matches Some(limit) && elapsed >= limit
}

/// Says whether the time of a session is up after `elapsed`.
pub fn expired(duration: Option<u64>, elapsed: u64) -> (up: bool)
    ensures
        up == is_up(duration, elapsed),
{
    match duration {
        Some(limit) => elapsed >= limit,
        None => false,
    }
}

/// Whether `looks` are the times at which a session looks at its clock: the
/// first as it starts, and each following one no more than `latency` after
/// the one before.
pub open spec fn regular_looks(looks: Seq<u64>, latency: u64) -> bool {
    &&& looks.len() > 0
    &&& looks[0] == 0
    &&& forall|i: int, j: int|
        0 <= i && j == i + 1 && j < looks.len() ==> #[trigger] looks[i] <= #[trigger] looks[j]
            <= looks[i] + latency
}

/// A session that looks at its clock regularly finds its time up no earlier
/// than its limit and no later than one latency after it.
pub proof fn lemma_stops_in_time(limit: u64, looks: Seq<u64>, latency: u64, first: int)
    requires
        regular_looks(looks, latency),
        0 <= first < looks.len(),
        is_up(Some(limit), looks[first]),
        forall|i: int| 0 <= i < first ==> !is_up(Some(limit), #[trigger] looks[i]),
    ensures
        limit <= looks[first] <= limit + latency,
{
    if first > 0 {
        assert(!is_up(Some(limit), looks[first - 1]));
        assert(looks[first - 1] <= looks[first] <= looks[first - 1] + latency);
    }
}

} // verus!
