use crypto_crawler::json::{JsonObject, Member};
use crypto_crawler::kucoin::{
    canonical_event, client_for, crawl_l2_event, crawl_l3_event, crawl_trade, extract_symbol,
    symbol_in, symbol_of_topic, MAX_SUBSCRIPTIONS_PER_CONNECTION,
};
use crypto_crawler::message::{ExtractError, MarketType, MessageType};
use crypto_crawler::session::{Client, Crawl, CrawlError};

#[test]
fn kucoin_symbol_follows_the_last_colon() {
    let json = r#"{"data":{"price":"60000.1","size":"0.01","symbol":"BTC-USDT"},"subject":"trade.l3match","topic":"/market/match:BTC-USDT","type":"message"}"#;
    assert_eq!(Ok("BTC-USDT".to_string()), extract_symbol(json));
    let json = r#"{"topic":"/contractMarket/execution:XBTUSDM","subject":"match"}"#;
    assert_eq!(Ok("XBTUSDM".to_string()), extract_symbol(json));
}

#[test]
fn kucoin_topic_shapes() {
    assert_eq!(Some("BTC-USDT".to_string()), symbol_of_topic("/market/match:BTC-USDT"));
    assert_eq!(Some("c".to_string()), symbol_of_topic("a:b:c"));
    assert_eq!(Some("".to_string()), symbol_of_topic("a:"));
    assert_eq!(Some("é€".to_string()), symbol_of_topic("ü:é€"));
    assert_eq!(Some("x".to_string()), symbol_of_topic(":x"));
    assert_eq!(None, symbol_of_topic("no separator"));
    assert_eq!(None, symbol_of_topic(""));
}

#[test]
fn kucoin_extraction_errors() {
    assert_eq!(Err(ExtractError::Unreadable), extract_symbol("not json"));
    assert_eq!(Err(ExtractError::Unreadable), extract_symbol(r#"["topic"]"#));
    assert_eq!(Err(ExtractError::MissingField), extract_symbol(r#"{"subject":"match"}"#));
    assert_eq!(Err(ExtractError::MissingField), extract_symbol(r#"{"topic":12}"#));
    assert_eq!(Err(ExtractError::NoSymbol), extract_symbol(r#"{"topic":"BTC-USDT"}"#));
}

#[test]
fn kucoin_symbol_of_a_parsed_object() {
    let object = JsonObject {
        members: vec![
            Member { key: "type".to_string(), text: Some("message".to_string()) },
            Member { key: "topic".to_string(), text: Some("/market/level2:ETH-USDT".to_string()) },
            Member { key: "data".to_string(), text: None },
        ],
    };
    assert_eq!(Ok("ETH-USDT".to_string()), symbol_in(&Some(object)));
    assert_eq!(Err(ExtractError::Unreadable), symbol_in(&None));
    let object = JsonObject { members: vec![Member { key: "topic".to_string(), text: None }] };
    assert_eq!(Err(ExtractError::MissingField), symbol_in(&Some(object)));
}

#[test]
fn kucoin_canonical_event_carries_the_payload() {
    let json = r#"{"topic":"/market/match:BTC-USDT","data":{}}"#.to_string();
    let message =
        canonical_event(MarketType::Spot, MessageType::Trade, json.clone(), 1_600_000_000_000).unwrap();
    assert_eq!("kucoin", message.exchange);
    assert_eq!(MarketType::Spot, message.market_type);
    assert_eq!(MessageType::Trade, message.msg_type);
    assert_eq!("BTC-USDT", message.symbol);
    assert_eq!(1_600_000_000_000, message.received_at);
    assert_eq!(json, message.json);
    let failed = canonical_event(MarketType::Spot, MessageType::Trade, "{}".to_string(), 0);
    assert_eq!(Some(ExtractError::MissingField), failed.err());
}

#[test]
fn kucoin_clients_by_market() {
    assert_eq!(Some(Client::Spot), client_for(MarketType::Spot));
    assert_eq!(Some(Client::Swap), client_for(MarketType::InverseSwap));
    assert_eq!(Some(Client::Swap), client_for(MarketType::LinearSwap));
    assert_eq!(Some(Client::Swap), client_for(MarketType::InverseFuture));
    for market_type in [
        MarketType::Unknown,
        MarketType::LinearFuture,
        MarketType::AmericanOption,
        MarketType::EuropeanOption,
        MarketType::QuantoFuture,
        MarketType::QuantoSwap,
        MarketType::Move,
        MarketType::BVOL,
    ] {
        assert_eq!(None, client_for(market_type));
    }
}

#[test]
fn kucoin_unsupported_market_is_a_configuration_error() {
    let symbols = vec!["BTC-USDT".to_string()];
    let outcome = crawl_trade(MarketType::LinearFuture, Some(&symbols), Some(60));
    assert_eq!(Some(CrawlError::UnsupportedMarket), outcome.err());
    let outcome = crawl_l2_event(MarketType::EuropeanOption, None, None);
    assert_eq!(Some(CrawlError::UnsupportedMarket), outcome.err());
    let outcome = crawl_l3_event(MarketType::Unknown, Some(&symbols), None);
    assert_eq!(Some(CrawlError::UnsupportedMarket), outcome.err());
}

#[test]
fn kucoin_splits_symbols_over_connections() {
    assert_eq!(300, MAX_SUBSCRIPTIONS_PER_CONNECTION);
    let symbols: Vec<String> = (0..301).map(|i| format!("S{}-USDT", i)).collect();
    match crawl_trade(MarketType::Spot, Some(&symbols), Some(10)) {
        Ok(Crawl::Run(plan)) => {
            assert_eq!(MarketType::Spot, plan.market_type);
            assert_eq!(Client::Spot, plan.client);
            assert_eq!(MessageType::Trade, plan.msg_type);
            assert_eq!(Some(10), plan.duration);
            assert_eq!(2, plan.batches.len());
            assert_eq!(300, plan.batches[0].len());
            assert_eq!(1, plan.batches[1].len());
            assert_eq!(symbols, plan.batches.concat());
        }
        other => panic!("unexpected outcome: {:?}", other),
    }
    match crawl_l3_event(MarketType::InverseFuture, Some(&symbols[..5]), None) {
        Ok(Crawl::Run(plan)) => {
            assert_eq!(Client::Swap, plan.client);
            assert_eq!(MessageType::L3Event, plan.msg_type);
            assert_eq!(None, plan.duration);
            assert_eq!(vec![symbols[..5].to_vec()], plan.batches);
        }
        other => panic!("unexpected outcome: {:?}", other),
    }
}

#[test]
fn kucoin_without_symbols_asks_for_them_first() {
    match crawl_l2_event(MarketType::LinearSwap, None, Some(5)) {
        Ok(Crawl::Discover { market_type, client, msg_type }) => {
            assert_eq!(MarketType::LinearSwap, market_type);
            assert_eq!(Client::Swap, client);
            assert_eq!(MessageType::L2Event, msg_type);
        }
        other => panic!("unexpected outcome: {:?}", other),
    }
}
