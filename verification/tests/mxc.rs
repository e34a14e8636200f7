use crypto_crawler::json::{JsonObject, Member};
use crypto_crawler::message::{ExtractError, MarketType, MessageType};
use crypto_crawler::mxc::{
    canonical_event, client_for, crawl_l2_event, crawl_trade, extract_symbol, symbol_in_array,
    symbol_in_object, MAX_SUBSCRIPTIONS_PER_CONNECTION,
};
use crypto_crawler::session::{Client, Crawl, CrawlError};

#[test]
fn mxc_symbol_of_an_object() {
    let json = r#"{"channel":"push.deal","data":{"M":1,"O":1,"T":1,"p":60000.5,"t":1,"v":10},"symbol":"BTC_USDT","ts":1}"#;
    assert_eq!(Ok("BTC_USDT".to_string()), extract_symbol(json));
}

#[test]
fn mxc_symbol_of_an_array() {
    let json = r#"["push.symbol",{"symbol":"ETH_USDT","data":{"deals":[{"t":1,"p":"1000.1","q":"0.5","T":1}]}}]"#;
    assert_eq!(Ok("ETH_USDT".to_string()), extract_symbol(json));
}

#[test]
fn mxc_extraction_errors() {
    assert_eq!(Err(ExtractError::Unreadable), extract_symbol("[unfinished"));
    assert_eq!(Err(ExtractError::Unreadable), extract_symbol("pong"));
    assert_eq!(Err(ExtractError::Unreadable), extract_symbol(""));
    assert_eq!(Err(ExtractError::Unreadable), extract_symbol(" [1,{\"symbol\":\"A\"}]"));
    assert_eq!(Err(ExtractError::MissingField), extract_symbol(r#"["push.symbol"]"#));
    assert_eq!(Err(ExtractError::MissingField), extract_symbol(r#"["push.symbol","BTC_USDT"]"#));
    assert_eq!(Err(ExtractError::MissingField), extract_symbol(r#"["push.symbol",{"data":1}]"#));
    assert_eq!(Err(ExtractError::MissingField), extract_symbol(r#"["push.symbol",{"symbol":1}]"#));
    assert_eq!(Err(ExtractError::MissingField), extract_symbol(r#"{"channel":"push.deal"}"#));
    assert_eq!(Err(ExtractError::MissingField), extract_symbol(r#"{"symbol":null}"#));
}

#[test]
fn mxc_symbol_of_parsed_documents() {
    let named = || JsonObject {
        members: vec![Member { key: "symbol".to_string(), text: Some("BTC_USDT".to_string()) }],
    };
    assert_eq!(Ok("BTC_USDT".to_string()), symbol_in_object(&Some(named())));
    assert_eq!(Err(ExtractError::Unreadable), symbol_in_object(&None));
    assert_eq!(Ok("BTC_USDT".to_string()), symbol_in_array(&Some(vec![None, Some(named())])));
    assert_eq!(Err(ExtractError::MissingField), symbol_in_array(&Some(vec![Some(named())])));
    assert_eq!(Err(ExtractError::MissingField), symbol_in_array(&Some(vec![Some(named()), None])));
    assert_eq!(Err(ExtractError::Unreadable), symbol_in_array(&None));
}

#[test]
fn mxc_canonical_event_carries_the_payload() {
    let json = r#"["push.symbol",{"symbol":"ETH_USDT"}]"#.to_string();
    let message = canonical_event(MarketType::Spot, MessageType::L2Event, json.clone(), 42).unwrap();
    assert_eq!("mxc", message.exchange);
    assert_eq!(MarketType::Spot, message.market_type);
    assert_eq!(MessageType::L2Event, message.msg_type);
    assert_eq!("ETH_USDT", message.symbol);
    assert_eq!(42, message.received_at);
    assert_eq!(json, message.json);
    let failed = canonical_event(MarketType::Spot, MessageType::Trade, "[]".to_string(), 0);
    assert_eq!(Some(ExtractError::MissingField), failed.err());
}

#[test]
fn mxc_clients_by_market() {
    assert_eq!(Some(Client::Spot), client_for(MarketType::Spot));
    assert_eq!(Some(Client::Swap), client_for(MarketType::LinearSwap));
    assert_eq!(Some(Client::Swap), client_for(MarketType::InverseSwap));
    assert_eq!(None, client_for(MarketType::InverseFuture));
    assert_eq!(None, client_for(MarketType::LinearFuture));
    assert_eq!(None, client_for(MarketType::Unknown));
}

#[test]
fn mxc_holds_any_number_of_symbols_on_one_connection() {
    assert_eq!(usize::MAX, MAX_SUBSCRIPTIONS_PER_CONNECTION);
    let symbols: Vec<String> = (0..1000).map(|i| format!("S{}_USDT", i)).collect();
    match crawl_trade(MarketType::Spot, Some(&symbols), None) {
        Ok(Crawl::Run(plan)) => {
            assert_eq!(Client::Spot, plan.client);
            assert_eq!(MessageType::Trade, plan.msg_type);
            assert_eq!(vec![symbols.clone()], plan.batches);
        }
        other => panic!("unexpected outcome: {:?}", other),
    }
    match crawl_l2_event(MarketType::InverseSwap, Some(&symbols), Some(3)) {
        Ok(Crawl::Run(plan)) => {
            assert_eq!(Client::Swap, plan.client);
            assert_eq!(MessageType::L2Event, plan.msg_type);
            assert_eq!(Some(3), plan.duration);
            assert_eq!(1, plan.batches.len());
        }
        other => panic!("unexpected outcome: {:?}", other),
    }
}

#[test]
fn mxc_unknown_market_is_a_configuration_error() {
    let symbols = vec!["BTC_USDT".to_string()];
    let outcome = crawl_trade(MarketType::InverseFuture, Some(&symbols), None);
    assert_eq!(Some(CrawlError::UnsupportedMarket), outcome.err());
    let outcome = crawl_l2_event(MarketType::Move, None, None);
    assert_eq!(Some(CrawlError::UnsupportedMarket), outcome.err());
}
