use wazuh_slack::backoff::Backoff;
use wazuh_slack::clock::Timestamp;
use wazuh_slack::events_socket::{
    socket_url, EventsSocketSource, OpenError, SocketAction, SocketInput, SocketSession,
};
use wazuh_slack::json::parse;

fn now() -> Timestamp {
    Timestamp::from_epoch(1_700_000_000).unwrap()
}

fn begin() -> SocketSession {
    let source = EventsSocketSource::new("xapp-1".to_string(), "xoxb-1".to_string());
    assert_eq!(source.app_token, "xapp-1");
    assert_eq!(source.dedup_capacity, 10_000);
    let (session, action) = source.begin();
    assert!(matches!(action, SocketAction::Open));
    session
}

fn connected() -> SocketSession {
    let mut s = begin();
    let body = r#"{"ok":true,"url":"wss://example.com/1"}"#.to_string();
    match s.step(SocketInput::Opened { body }, now()) {
        SocketAction::Connect(url) => assert_eq!(url, "wss://example.com/1"),
        other => panic!("{other:?}"),
    }
    assert!(matches!(s.step(SocketInput::Connected, now()), SocketAction::Read));
    s
}

fn text(s: &mut SocketSession, frame: &str) -> SocketAction {
    s.step(SocketInput::Text(frame.to_string()), now())
}

#[test]
fn the_address_is_read_from_the_reply() {
    let url = |body: &str| socket_url(&parse(body).unwrap());
    assert_eq!(url(r#"{"ok":true,"url":"wss://x"}"#).unwrap(), "wss://x");
    assert!(matches!(url(r#"{"ok":true}"#), Err(OpenError::MissingUrl)));
    match url(r#"{"ok":false,"error":"invalid_auth","url":"wss://x"}"#) {
        Err(OpenError::Api(error)) => assert_eq!(error, "invalid_auth"),
        other => panic!("{other:?}"),
    }
    match url(r#"{"url":"wss://x"}"#) {
        Err(OpenError::Api(error)) => assert_eq!(error, "?"),
        other => panic!("{other:?}"),
    }
}

#[test]
fn failed_attempts_pause_longer_each_time() {
    let mut s = begin();
    for expected in [1, 2, 4, 8, 16, 30, 30] {
        match s.step(SocketInput::OpenFailed, now()) {
            SocketAction::Pause(secs) => assert_eq!(secs, expected),
            other => panic!("{other:?}"),
        }
        assert!(matches!(s.step(SocketInput::Waited, now()), SocketAction::Open));
    }
    let body = r#"{"ok":true,"url":"wss://x"}"#.to_string();
    s.step(SocketInput::Opened { body }, now());
    assert!(matches!(s.step(SocketInput::ConnectFailed, now()), SocketAction::Pause(30)));
    s.step(SocketInput::Waited, now());
    let body = r#"{"ok":true,"url":"wss://x"}"#.to_string();
    s.step(SocketInput::Opened { body }, now());
    assert!(matches!(s.step(SocketInput::Connected, now()), SocketAction::Read));
    assert!(matches!(s.step(SocketInput::Dropped, now()), SocketAction::Pause(1)));
    s.step(SocketInput::Waited, now());
    assert!(matches!(s.step(SocketInput::Opened { body: "?".to_string() }, now()), SocketAction::Pause(1)));
}

#[test]
fn pauses_double_up_to_half_a_minute() {
    let mut backoff = Backoff::new();
    let pauses: Vec<u64> = (0..7).map(|_| backoff.take()).collect();
    assert_eq!(pauses, [1, 2, 4, 8, 16, 30, 30]);
}

#[test]
fn an_envelope_is_acknowledged_before_its_event_is_handed_on() {
    let mut s = connected();
    let frame = r#"{"envelope_id":"e\"1","type":"events_api","payload":{"event_id":"Ev1","event":{"type":"message"}}}"#;
    match text(&mut s, frame) {
        SocketAction::Ack(ack) => assert_eq!(ack, "{\"envelope_id\":\"e\\\"1\"}"),
        other => panic!("{other:?}"),
    }
    match s.step(SocketInput::Sent, now()) {
        SocketAction::Emit(event) => {
            assert_eq!(event.slack.event_id, "Ev1");
            assert_eq!(event.slack.action, "message");
        }
        other => panic!("{other:?}"),
    }
    assert!(matches!(s.step(SocketInput::Emitted, now()), SocketAction::Read));
}

#[test]
fn a_redelivery_is_acknowledged_and_dropped() {
    let mut s = connected();
    let frame = r#"{"envelope_id":"e1","type":"events_api","payload":{"event_id":"Ev1"}}"#;
    text(&mut s, frame);
    assert!(matches!(s.step(SocketInput::Sent, now()), SocketAction::Emit(_)));
    s.step(SocketInput::Emitted, now());
    assert!(matches!(text(&mut s, frame), SocketAction::Ack(_)));
    assert!(matches!(s.step(SocketInput::Sent, now()), SocketAction::Read));
}

#[test]
fn a_payload_without_an_id_is_known_by_its_time() {
    let mut s = connected();
    let frame = r#"{"type":"events_api","payload":{"event":{"type":"message"}}}"#;
    match text(&mut s, frame) {
        SocketAction::Emit(event) => assert_eq!(event.slack.event_id, "unknown"),
        other => panic!("{other:?}"),
    }
    s.step(SocketInput::Emitted, now());
    // The same nanosecond gives the same id.
    assert!(matches!(text(&mut s, frame), SocketAction::Read));
    let taken = r#"{"type":"events_api","payload":{"event_id":"auto-1700000000000000000"}}"#;
    assert!(matches!(text(&mut s, taken), SocketAction::Read));
    let later = Timestamp::from_epoch(1_700_000_001).unwrap();
    assert!(matches!(
        s.step(SocketInput::Text(frame.to_string()), later),
        SocketAction::Emit(_)
    ));
}

#[test]
fn frames_are_told_apart_by_type() {
    let mut s = connected();
    assert!(matches!(text(&mut s, r#"{"type":"hello"}"#), SocketAction::Read));
    assert!(matches!(text(&mut s, "not json"), SocketAction::Read));
    assert!(matches!(text(&mut s, r#"{"type":"events_api"}"#), SocketAction::Read));
    assert!(matches!(text(&mut s, r#"{"type":null}"#), SocketAction::Read));
    assert!(matches!(s.step(SocketInput::Other, now()), SocketAction::Read));
    match s.step(SocketInput::Ping(vec![1, 2]), now()) {
        SocketAction::Pong(data) => assert_eq!(data, [1, 2]),
        other => panic!("{other:?}"),
    }
    assert!(matches!(s.step(SocketInput::Sent, now()), SocketAction::Read));
    assert!(matches!(text(&mut s, r#"{"type":"disconnect","reason":"refresh"}"#), SocketAction::Pause(1)));
}

#[test]
fn a_connection_that_cannot_be_written_to_is_replaced() {
    let mut s = connected();
    text(&mut s, r#"{"envelope_id":"e1","type":"events_api","payload":{"event_id":"Ev1"}}"#);
    assert!(matches!(s.step(SocketInput::SendFailed, now()), SocketAction::Pause(1)));
    let mut s = connected();
    s.step(SocketInput::Ping(vec![]), now());
    assert!(matches!(s.step(SocketInput::SendFailed, now()), SocketAction::Pause(1)));
}

#[test]
fn a_null_team_does_no_harm() {
    let mut s = connected();
    let frame = r#"{"type":"events_api","payload":{"event_id":"Ev1","authorizations":[{"team_id":null}],"event":{"type":"message"}}}"#;
    assert!(matches!(text(&mut s, frame), SocketAction::Emit(_)));
}

#[test]
fn a_shutdown_closes_the_connection_and_ends() {
    let mut s = connected();
    assert!(matches!(s.step(SocketInput::Shutdown, now()), SocketAction::Close));
    assert!(matches!(s.step(SocketInput::Sent, now()), SocketAction::Return));
    let mut s = begin();
    s.step(SocketInput::OpenFailed, now());
    assert!(matches!(s.step(SocketInput::Shutdown, now()), SocketAction::Return));
    assert!(matches!(s.step(SocketInput::Waited, now()), SocketAction::Return));
}
