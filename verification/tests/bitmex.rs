use crypto_crawler::bitmex::{BitMEXWSClient, EXCHANGE_NAME, WEBSOCKET_URL};
use crypto_crawler::engine::{Action, Event, State};
use crypto_crawler::bitmex::{classify, on_misc_msg, serialize_command};
use crypto_crawler::json::{JsonObject, Member};
use crypto_crawler::message::MiscMessage;

fn concat_all(parts: &[&str]) -> String {
    parts.concat()
}

#[test]
fn test_one_channel() {
    let commands = serialize_command(&vec!["trade:XBTUSD".to_string()], true);
    assert_eq!(1, commands.len());
    assert_eq!(r#"{"op":"subscribe","args":["trade:XBTUSD"]}"#, commands[0]);
}

#[test]
fn test_multiple_channels() {
    let commands = serialize_command(
        &vec![
            "trade:XBTUSD".to_string(),
            "quote:XBTUSD".to_string(),
            "orderBookL2_25:XBTUSD".to_string(),
            "tradeBin1m:XBTUSD".to_string(),
        ],
        true,
    );
    assert_eq!(1, commands.len());
    assert_eq!(
        r#"{"op":"subscribe","args":["trade:XBTUSD","quote:XBTUSD","orderBookL2_25:XBTUSD","tradeBin1m:XBTUSD"]}"#,
        commands[0]
    );
}

#[test]
fn two_channels_in_one_envelope() {
    let commands = serialize_command(
        &vec!["trade:XBTUSD".to_string(), "quote:XBTUSD".to_string()],
        true,
    );
    assert_eq!(
        vec![r#"{"op":"subscribe","args":["trade:XBTUSD","quote:XBTUSD"]}"#.to_string()],
        commands
    );
}

#[test]
fn unsubscribe_names_the_same_channels() {
    let channels = vec!["trade:XBTUSD".to_string(), "quote:XBTUSD".to_string()];
    let commands = serialize_command(&channels, false);
    assert_eq!(
        vec![r#"{"op":"unsubscribe","args":["trade:XBTUSD","quote:XBTUSD"]}"#.to_string()],
        commands
    );
}

#[test]
fn no_channels_give_an_empty_list_of_arguments() {
    let commands = serialize_command(&Vec::new(), true);
    assert_eq!(vec![r#"{"op":"subscribe","args":[]}"#.to_string()], commands);
}

#[test]
fn channels_are_escaped_as_json_strings() {
    let channels = vec![
        "a\"b\\c".to_string(),
        "tab\there\n".to_string(),
        "\u{1}\u{1f}é".to_string(),
        "\u{8}\u{c}\r\u{7f}/ €".to_string(),
    ];
    let commands = serialize_command(&channels, true);
    let expected = concat_all(&[
        "{\"op\":\"subscribe\",\"args\":[",
        "\"a\\\"b\\\\c\",",
        "\"tab\\there\\n\",",
        "\"\\u0001\\u001fé\",",
        "\"\\b\\f\\r\u{7f}/ €\"",
        "]}",
    ]);
    assert_eq!(vec![expected], commands);
}

#[test]
fn bitmex_table_message_is_data() {
    let msg = r#"{"table":"trade","action":"insert","data":[{"symbol":"XBTUSD","side":"Buy","size":100,"price":60000.5}]}"#;
    assert_eq!(MiscMessage::Normal, on_misc_msg(msg));
}

#[test]
fn bitmex_subscription_acknowledgement_is_a_notice() {
    let msg = r#"{"success":true,"subscribe":"trade:XBTUSD","request":{"op":"subscribe","args":["trade:XBTUSD"]}}"#;
    assert_eq!(MiscMessage::Misc, on_misc_msg(msg));
}

#[test]
fn bitmex_unreadable_message_is_a_notice() {
    assert_eq!(MiscMessage::Misc, on_misc_msg("pong"));
    assert_eq!(MiscMessage::Misc, on_misc_msg(""));
    assert_eq!(MiscMessage::Misc, on_misc_msg(r#"["table"]"#));
    assert_eq!(MiscMessage::Misc, on_misc_msg(r#"{"table":"trade"} trailing"#));
}

#[test]
fn bitmex_classify_reads_the_parsed_object() {
    let with_table = JsonObject {
        members: vec![Member { key: "table".to_string(), text: Some("trade".to_string()) }],
    };
    let without = JsonObject {
        members: vec![Member { key: "info".to_string(), text: None }],
    };
    assert_eq!(MiscMessage::Normal, classify(&Some(with_table)));
    assert_eq!(MiscMessage::Misc, classify(&Some(without)));
    assert_eq!(MiscMessage::Misc, classify(&None));
}

#[test]
fn bitmex_client_replays_its_subscriptions() {
    assert_eq!("BitMEX", EXCHANGE_NAME);
    assert_eq!("wss://www.bitmex.com/realtime", WEBSOCKET_URL);
    let mut client = BitMEXWSClient::new(vec!["trade:XBTUSD".to_string(), "quote:XBTUSD".to_string()]);
    assert_eq!(State::Disconnected, client.state());
    assert_eq!(Action::Open, client.on_event(Event::Start));
    assert_eq!(Action::Subscribe, client.on_event(Event::Opened));
    let first = client.subscribe_commands();
    assert_eq!(vec![r#"{"op":"subscribe","args":["trade:XBTUSD","quote:XBTUSD"]}"#.to_string()], first);
    assert_eq!(Action::Receive, client.on_event(Event::Sent));
    assert_eq!(Action::Deliver, client.on_message(r#"{"table":"trade","data":[]}"#));
    assert_eq!(Action::Discard, client.on_message(r#"{"info":"Welcome to the BitMEX Realtime API."}"#));
    assert_eq!(Action::Discard, client.on_message("garbage"));
    assert_eq!(State::Streaming, client.state());
    assert_eq!(Action::Backoff, client.on_event(Event::HeartbeatMissed));
    assert_eq!(Action::Idle, client.on_message(r#"{"table":"trade","data":[]}"#));
    assert_eq!(Action::Open, client.on_event(Event::BackoffElapsed));
    assert_eq!(Action::Subscribe, client.on_event(Event::Opened));
    assert_eq!(first, client.subscribe_commands());
    assert_eq!(
        vec![r#"{"op":"unsubscribe","args":["trade:XBTUSD","quote:XBTUSD"]}"#.to_string()],
        client.unsubscribe_commands()
    );
    assert_eq!(Action::Close, client.on_event(Event::Cancelled));
    assert_eq!(State::Closed, client.state());
}
