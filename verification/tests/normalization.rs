use wazuh_slack::event::{Severity, SourceTag};
use wazuh_slack::json::{parse, Json};
use wazuh_slack::normalize::{normalize_audit_payload, normalize_events_payload, NormalizeError};

const AUDIT_USER_LOGIN: &str = r#"{
  "id": "0123a45b-6c7d-8900-e12f-3456789gh0i1",
  "date_create": 1521214343,
  "action": "user_login",
  "actor": {
    "type": "user",
    "user": {"id": "U1234567890", "name": "Alice Example", "email": "alice@example.com"}
  },
  "entity": {
    "type": "user",
    "user": {"id": "U1234567890", "name": "Alice Example", "email": "alice@example.com"}
  },
  "context": {
    "ua": "Mozilla/5.0",
    "ip_address": "203.0.113.10",
    "location": {"type": "workspace", "id": "T123"}
  }
}"#;

const AUDIT_FILE_DOWNLOADED: &str = r#"{
  "id": "a-2",
  "date_create": 1521214400,
  "action": "file_downloaded",
  "actor": {"type": "user", "user": {"id": "U1234567890"}},
  "entity": {"type": "file", "file": {"id": "F0987654321", "name": "plans.pdf"}},
  "context": {"ip_address": "203.0.113.10"}
}"#;

const EVENTS_MEMBER_JOINED: &str = r#"{
  "type": "event_callback",
  "event_id": "Ev0001",
  "event_time": 1521214343,
  "event": {"type": "member_joined_channel", "user": "U1234567890", "channel": "C0CCCCCCC"}
}"#;

const EVENTS_FILE_SHARED: &str = r#"{
  "type": "event_callback",
  "event_id": "Ev0002",
  "event_time": 1521214344,
  "event": {"type": "file_shared", "user_id": "U1", "channel_id": "C0CCCCCCC", "file_id": "F1"}
}"#;

fn fixture(text: &str) -> Json {
    parse(text).unwrap()
}

#[test]
fn audit_user_login_normalizes() {
    let ev = normalize_audit_payload(fixture(AUDIT_USER_LOGIN)).unwrap();
    assert_eq!(ev.slack.action, "user_login");
    assert_eq!(ev.slack.actor.as_ref().unwrap().id.as_deref(), Some("U1234567890"));
    assert_eq!(ev.slack.context.as_ref().unwrap().ip.as_deref(), Some("203.0.113.10"));
}

#[test]
fn audit_file_downloaded_normalizes() {
    let ev = normalize_audit_payload(fixture(AUDIT_FILE_DOWNLOADED)).unwrap();
    assert_eq!(ev.slack.action, "file_downloaded");
    let entity = ev.slack.entity.unwrap();
    assert_eq!(entity.entity_type, "file");
    assert_eq!(entity.id.as_deref(), Some("F0987654321"));
}

#[test]
fn events_member_joined_normalizes() {
    let ev = normalize_events_payload(fixture(EVENTS_MEMBER_JOINED)).unwrap();
    assert_eq!(ev.slack.action, "member_joined_channel");
    assert_eq!(ev.slack.actor.unwrap().id.as_deref(), Some("U1234567890"));
    assert_eq!(ev.slack.entity.unwrap().id.as_deref(), Some("C0CCCCCCC"));
}

#[test]
fn events_file_shared_normalizes() {
    let ev = normalize_events_payload(fixture(EVENTS_FILE_SHARED)).unwrap();
    assert_eq!(ev.slack.action, "file_shared");
    assert_eq!(ev.slack.entity.unwrap().id.as_deref(), Some("C0CCCCCCC"));
}

#[test]
fn an_audit_entry_fills_every_field() {
    let raw = fixture(AUDIT_USER_LOGIN);
    let ev = normalize_audit_payload(raw.clone()).unwrap();
    assert_eq!(ev.timestamp.secs(), 1_521_214_343);
    assert_eq!(ev.slack.source, SourceTag::Audit);
    assert_eq!(ev.slack.event_id, "0123a45b-6c7d-8900-e12f-3456789gh0i1");
    let actor = ev.slack.actor.as_ref().unwrap();
    assert_eq!(actor.actor_type, "user");
    assert_eq!(actor.name.as_deref(), Some("Alice Example"));
    assert_eq!(actor.email.as_deref(), Some("alice@example.com"));
    let entity = ev.slack.entity.as_ref().unwrap();
    assert_eq!(entity.entity_type, "user");
    assert_eq!(entity.name.as_deref(), Some("Alice Example"));
    let context = ev.slack.context.as_ref().unwrap();
    assert_eq!(context.ua.as_deref(), Some("Mozilla/5.0"));
    let place = context.location.as_ref().unwrap();
    assert!(place.equals(&parse(r#"{"id":"T123","type":"workspace"}"#).unwrap()));
    assert_eq!(ev.severity, Severity::Info);
    assert!(ev.raw.equals(&raw));
}

#[test]
fn an_audit_entry_without_an_id_has_no_event() {
    for text in [r#"{"action":"user_login"}"#, r#"{"id":7}"#, "[]", "null"] {
        let error = normalize_audit_payload(fixture(text)).unwrap_err();
        assert_eq!(error, NormalizeError::MissingId);
        assert_eq!(error.message(), "audit payload missing id");
    }
}

#[test]
fn a_bare_audit_entry_is_filled_with_defaults() {
    let ev = normalize_audit_payload(fixture(r#"{"id":"x"}"#)).unwrap();
    assert_eq!(ev.timestamp.secs(), 0);
    assert_eq!(ev.slack.action, "unknown");
    assert!(ev.slack.actor.is_none());
    assert!(ev.slack.entity.is_none());
    assert!(ev.slack.context.is_none());
}

#[test]
fn an_entity_is_read_under_its_own_type() {
    let text = r#"{"id":"x","actor":{},"entity":{"unknown":{"id":"E1","name":"n"},"file":{"id":"F"}},"context":{}}"#;
    let ev = normalize_audit_payload(fixture(text)).unwrap();
    let entity = ev.slack.entity.unwrap();
    assert_eq!(entity.entity_type, "unknown");
    assert_eq!(entity.id.as_deref(), Some("E1"));
    assert_eq!(entity.name.as_deref(), Some("n"));
    let actor = ev.slack.actor.unwrap();
    assert_eq!(actor.actor_type, "unknown");
    assert!(actor.id.is_none());
    let context = ev.slack.context.unwrap();
    assert!(context.ip.is_none() && context.ua.is_none() && context.location.is_none());
}

#[test]
fn a_time_that_the_clock_cannot_name_becomes_the_nearest() {
    let text = r#"{"id":"x","date_create":9000000000000000000}"#;
    let ev = normalize_audit_payload(fixture(text)).unwrap();
    assert_eq!(ev.timestamp.secs(), 8_210_266_876_799);
    assert_eq!(ev.timestamp.to_rfc3339(), "+262142-12-31T23:59:59Z");
    assert_eq!(ev.raw.get_i64("date_create"), Some(9_000_000_000_000_000_000));
    let late = normalize_audit_payload(fixture(r#"{"id":"x","date_create":8210266876800}"#));
    assert_eq!(late.unwrap().timestamp.secs(), 8_210_266_876_799);
    let last = normalize_audit_payload(fixture(r#"{"id":"x","date_create":8210266876799}"#));
    assert_eq!(last.unwrap().timestamp.secs(), 8_210_266_876_799);
    let ev =
        normalize_events_payload(fixture(r#"{"event_time":-9000000000000000000}"#)).unwrap();
    assert_eq!(ev.timestamp.secs(), -8_334_601_228_800);
    assert_eq!(ev.raw.get_i64("event_time"), Some(-9_000_000_000_000_000_000));
    let early = normalize_events_payload(fixture(r#"{"event_time":-8334601228801}"#));
    assert_eq!(early.unwrap().timestamp.secs(), -8_334_601_228_800);
}

#[test]
fn an_event_without_fields_is_unknown() {
    let ev = normalize_events_payload(fixture("{}")).unwrap();
    assert_eq!(ev.slack.source, SourceTag::Events);
    assert_eq!(ev.slack.action, "unknown");
    assert_eq!(ev.slack.event_id, "unknown");
    assert_eq!(ev.timestamp.secs(), 0);
    assert!(ev.slack.actor.is_none());
    assert!(ev.slack.entity.is_none());
    assert!(ev.slack.context.is_none());
    assert_eq!(ev.severity, Severity::Info);
}

#[test]
fn an_event_falls_back_from_channel_to_file() {
    let raw = fixture(r#"{"event":{"type":"file_public","user":null,"user_id":"U2","file_id":"F9"}}"#);
    let ev = normalize_events_payload(raw.clone()).unwrap();
    let actor = ev.slack.actor.unwrap();
    assert_eq!(actor.actor_type, "user");
    assert_eq!(actor.id.as_deref(), Some("U2"));
    let entity = ev.slack.entity.unwrap();
    assert_eq!(entity.entity_type, "file");
    assert_eq!(entity.id.as_deref(), Some("F9"));
    assert!(ev.raw.equals(&raw));
    let both = fixture(r#"{"event":{"channel_id":"C2","file_id":"F9"}}"#);
    let entity = normalize_events_payload(both).unwrap().slack.entity.unwrap();
    assert_eq!(entity.entity_type, "channel");
    assert_eq!(entity.id.as_deref(), Some("C2"));
}
