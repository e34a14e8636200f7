use crypto_crawler::engine::{on_clock, step, Action, Connection, Event, Heartbeat, State};
use crypto_crawler::message::MiscMessage;

const ALL_STATES: [State; 6] = [
    State::Disconnected,
    State::Connecting,
    State::Subscribing,
    State::Streaming,
    State::Reconnecting,
    State::Closed,
];

const ALL_EVENTS: [Event; 13] = [
    Event::Start,
    Event::Opened,
    Event::OpenFailed,
    Event::Sent,
    Event::Received(MiscMessage::Normal),
    Event::Received(MiscMessage::Misc),
    Event::Received(MiscMessage::Reconnect),
    Event::HeartbeatDue,
    Event::HeartbeatMissed,
    Event::Dropped,
    Event::BackoffElapsed,
    Event::Cancelled,
    Event::Aborted,
];

#[test]
fn a_connection_comes_up_in_order() {
    assert_eq!((State::Connecting, Action::Open), step(State::Disconnected, Event::Start));
    assert_eq!((State::Subscribing, Action::Subscribe), step(State::Connecting, Event::Opened));
    assert_eq!((State::Streaming, Action::Receive), step(State::Subscribing, Event::Sent));
}

#[test]
fn streaming_sorts_inbound_messages() {
    assert_eq!(
        (State::Streaming, Action::Deliver),
        step(State::Streaming, Event::Received(MiscMessage::Normal))
    );
    assert_eq!(
        (State::Streaming, Action::Discard),
        step(State::Streaming, Event::Received(MiscMessage::Misc))
    );
    assert_eq!(
        (State::Reconnecting, Action::Backoff),
        step(State::Streaming, Event::Received(MiscMessage::Reconnect))
    );
    assert_eq!((State::Streaming, Action::Ping), step(State::Streaming, Event::HeartbeatDue));
}

#[test]
fn failures_lead_to_a_reconnect() {
    assert_eq!((State::Reconnecting, Action::Backoff), step(State::Streaming, Event::HeartbeatMissed));
    assert_eq!((State::Reconnecting, Action::Backoff), step(State::Streaming, Event::Dropped));
    assert_eq!((State::Reconnecting, Action::Backoff), step(State::Subscribing, Event::Dropped));
    assert_eq!((State::Reconnecting, Action::Backoff), step(State::Connecting, Event::OpenFailed));
    assert_eq!((State::Reconnecting, Action::Backoff), step(State::Connecting, Event::Dropped));
    assert_eq!((State::Connecting, Action::Open), step(State::Reconnecting, Event::BackoffElapsed));
}

#[test]
fn cancellation_closes_from_every_state() {
    for state in ALL_STATES {
        let (next, action) = step(state, Event::Cancelled);
        assert_eq!(State::Closed, next);
        if state == State::Closed {
            assert_eq!(Action::Idle, action);
        } else {
            assert_eq!(Action::Close, action);
        }
    }
}

#[test]
fn data_that_cannot_be_attributed_ends_the_connection() {
    for state in ALL_STATES {
        let (next, action) = step(state, Event::Aborted);
        assert_eq!(State::Closed, next);
        assert_eq!(state != State::Closed, action == Action::Close);
    }
}

#[test]
fn closed_is_final() {
    for event in ALL_EVENTS {
        assert_eq!((State::Closed, Action::Idle), step(State::Closed, event));
    }
}

#[test]
fn only_a_cancellation_closes() {
    for state in ALL_STATES {
        for event in ALL_EVENTS {
            let (next, _) = step(state, event);
            if state != State::Closed && event != Event::Cancelled && event != Event::Aborted {
                assert_ne!(State::Closed, next);
            }
        }
    }
}

#[test]
fn only_data_while_streaming_is_delivered() {
    for state in ALL_STATES {
        for event in ALL_EVENTS {
            let (_, action) = step(state, event);
            let data = state == State::Streaming && event == Event::Received(MiscMessage::Normal);
            assert_eq!(data, action == Action::Deliver);
        }
    }
}

#[test]
fn events_out_of_place_change_nothing() {
    assert_eq!((State::Disconnected, Action::Idle), step(State::Disconnected, Event::Opened));
    assert_eq!((State::Connecting, Action::Idle), step(State::Connecting, Event::Start));
    assert_eq!(
        (State::Subscribing, Action::Idle),
        step(State::Subscribing, Event::Received(MiscMessage::Normal))
    );
    assert_eq!((State::Reconnecting, Action::Idle), step(State::Reconnecting, Event::Dropped));
    assert_eq!((State::Streaming, Action::Idle), step(State::Streaming, Event::BackoffElapsed));
}

#[test]
fn a_connection_keeps_its_batch_through_a_reconnect() {
    let channels = vec!["trade:XBTUSD".to_string(), "quote:XBTUSD".to_string()];
    let mut connection = Connection::new(channels.clone());
    assert_eq!(State::Disconnected, connection.current_state());
    assert!(!connection.is_closed());
    let script = [
        (Event::Start, Action::Open, State::Connecting),
        (Event::Opened, Action::Subscribe, State::Subscribing),
        (Event::Sent, Action::Receive, State::Streaming),
        (Event::Received(MiscMessage::Normal), Action::Deliver, State::Streaming),
        (Event::Received(MiscMessage::Reconnect), Action::Backoff, State::Reconnecting),
        (Event::BackoffElapsed, Action::Open, State::Connecting),
        (Event::OpenFailed, Action::Backoff, State::Reconnecting),
        (Event::BackoffElapsed, Action::Open, State::Connecting),
        (Event::Opened, Action::Subscribe, State::Subscribing),
        (Event::Sent, Action::Receive, State::Streaming),
        (Event::Cancelled, Action::Close, State::Closed),
        (Event::Start, Action::Idle, State::Closed),
    ];
    for (event, action, state) in script {
        assert_eq!(action, connection.handle(event));
        assert_eq!(state, connection.current_state());
        assert_eq!(&channels, connection.batch());
    }
    assert!(connection.is_closed());
}

#[test]
fn the_clock_reports_heartbeats() {
    let pinged = Heartbeat { interval: Some(10_000), timeout: 30_000 };
    assert_eq!(None, on_clock(pinged, 0, 0));
    assert_eq!(None, on_clock(pinged, 9_999, 29_999));
    assert_eq!(Some(Event::HeartbeatDue), on_clock(pinged, 10_000, 0));
    assert_eq!(Some(Event::HeartbeatDue), on_clock(pinged, 20_000, 29_999));
    assert_eq!(Some(Event::HeartbeatMissed), on_clock(pinged, 0, 30_000));
    assert_eq!(Some(Event::HeartbeatMissed), on_clock(pinged, 10_000, 30_001));
    let silent = Heartbeat { interval: None, timeout: 30_000 };
    assert_eq!(None, on_clock(silent, u64::MAX, 29_999));
    assert_eq!(Some(Event::HeartbeatMissed), on_clock(silent, 0, 30_000));
}
