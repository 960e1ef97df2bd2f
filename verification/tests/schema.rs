use wazuh_slack::clock::{StampForm, Timestamp};
use wazuh_slack::event::{
    NormalizedEvent, Severity, SlackActor, SlackContext, SlackEntity, SlackPayload, SourceTag,
};
use wazuh_slack::json::{lookup_dotted, parse, render, InvalidJson, Json};
use wazuh_slack::json_file::{ndjson_line, JsonFileSink};

fn small_event() -> NormalizedEvent {
    NormalizedEvent {
        timestamp: Timestamp::from_epoch(1_780_000_000).unwrap(),
        slack: SlackPayload {
            source: SourceTag::Events,
            action: "member_joined_channel".to_string(),
            event_id: "Ev1".to_string(),
            actor: None,
            entity: None,
            context: None,
        },
        severity: Severity::Low,
        raw: parse(r#"{"hello": "world"}"#).unwrap(),
    }
}

fn full_event() -> NormalizedEvent {
    let mut ev = small_event();
    ev.slack.source = SourceTag::AccessLogs;
    ev.slack.actor = Some(SlackActor {
        actor_type: "user".to_string(),
        id: Some("U1".to_string()),
        name: Some("Eve \"E\"".to_string()),
        email: None,
    });
    ev.slack.entity = Some(SlackEntity {
        entity_type: "file".to_string(),
        id: None,
        name: Some("a\nb".to_string()),
    });
    ev.slack.context = Some(SlackContext {
        ip: Some("203.0.113.10".to_string()),
        ua: None,
        location: Some(parse(r#"{"b":1,"a":[null,2.5]}"#).unwrap()),
    });
    ev.severity = Severity::Critical;
    ev
}

#[test]
fn writes_ndjson_line() {
    let line = ndjson_line(&small_event());
    assert!(line.contains("member_joined_channel"));
    assert!(line.ends_with('\n'));
    assert_eq!(
        line,
        "{\"@timestamp\":\"2026-05-28T20:26:40Z\",\"slack\":{\"source\":\"events\",\"action\":\"member_joined_channel\",\"event_id\":\"Ev1\"},\"severity\":\"low\",\"raw\":{\"hello\":\"world\"}}\n"
    );
}

#[test]
fn an_event_is_written_field_by_field() {
    assert_eq!(
        full_event().to_text(),
        "{\"@timestamp\":\"2026-05-28T20:26:40Z\",\"slack\":{\"source\":\"accesslogs\",\"action\":\"member_joined_channel\",\"event_id\":\"Ev1\",\"actor\":{\"type\":\"user\",\"id\":\"U1\",\"name\":\"Eve \\\"E\\\"\"},\"entity\":{\"type\":\"file\",\"name\":\"a\\nb\"},\"context\":{\"ip\":\"203.0.113.10\",\"location\":{\"a\":[null,2.5],\"b\":1}}},\"severity\":\"critical\",\"raw\":{\"hello\":\"world\"}}"
    );
    assert!(parse(&full_event().to_text()).unwrap().equals(&full_event().to_json()));
}

#[test]
fn fields_are_looked_up_by_their_paths() {
    let ev = full_event();
    let found = |path: &str| ev.lookup(path).map(|j| render(&j));
    assert_eq!(found("slack.action").as_deref(), Some("\"member_joined_channel\""));
    assert_eq!(found("slack.source").as_deref(), Some("\"accesslogs\""));
    assert_eq!(found("slack.actor.id").as_deref(), Some("\"U1\""));
    assert_eq!(found("slack.actor.email"), None);
    assert_eq!(found("slack.context.location.b").as_deref(), Some("1"));
    assert_eq!(found("severity").as_deref(), Some("\"critical\""));
    assert_eq!(found("raw.hello").as_deref(), Some("\"world\""));
    assert_eq!(found("raw.hello.deeper"), None);
    assert_eq!(found("@timestamp").as_deref(), Some("\"2026-05-28T20:26:40Z\""));
    assert_eq!(found(""), None);
    assert_eq!(found("raw."), None);
}

#[test]
fn an_address_is_found_only_where_the_actor_has_one() {
    let path = "slack.actor.email";
    assert!(small_event().lookup(path).is_none());
    let mut ev = full_event();
    assert!(ev.lookup(path).is_none());
    ev.slack.actor.as_mut().unwrap().email = Some("eve@example.com".to_string());
    assert_eq!(render(&ev.lookup(path).unwrap()), "\"eve@example.com\"");
}

#[test]
fn a_dotted_path_goes_key_by_key() {
    let tree = parse(r#"{"a":{"":{"b":5}},"c":[{"d":1}]}"#).unwrap();
    assert_eq!(render(lookup_dotted(&tree, "a..b").unwrap()), "5");
    assert!(lookup_dotted(&tree, "a.b").is_none());
    assert!(lookup_dotted(&tree, "c.0.d").is_none());
}

#[test]
fn every_source_has_its_location() {
    assert_eq!(SourceTag::Audit.location_tag(), "slack-audit");
    assert_eq!(SourceTag::Events.location_tag(), "slack-events");
    assert_eq!(SourceTag::AccessLogs.location_tag(), "slack-access");
    assert_eq!(SourceTag::WebInventory.location_tag(), "slack-inventory");
    assert_eq!(SourceTag::WebInventory.label(), "webinventory");
    assert_eq!(Severity::default(), Severity::Info);
    assert_eq!(Severity::Medium.label(), "medium");
}

#[test]
fn json_text_is_read_and_written() {
    let text = r#"{"a":[1,-2,3.25,1e3,18446744073709551615,-9223372036854775808],"b":null,"c":true,"d":"\u0001\té"}"#;
    let tree = parse(text).unwrap();
    assert_eq!(
        render(&tree),
        "{\"a\":[1,-2,3.25,1000.0,18446744073709551615,-9223372036854775808],\"b\":null,\"c\":true,\"d\":\"\\u0001\\té\"}"
    );
    assert_eq!(render(&parse("-0.0").unwrap()), "-0.0");
    assert_eq!(render(&parse("[]").unwrap()), "[]");
    for text in ["", "{", "{\"a\":}", "nul", "1 2", "'x'"] {
        assert_eq!(parse(text).unwrap_err(), InvalidJson);
    }
}

#[test]
fn the_last_of_two_members_counts_in_a_text() {
    let tree = parse(r#"{"k":1,"k":2}"#).unwrap();
    assert_eq!(render(&tree), "{\"k\":2}");
    assert_eq!(tree.get_u64("k"), Some(2));
}

#[test]
fn numbers_are_read_in_their_range() {
    let tree = parse(r#"{"big":9223372036854775808,"neg":-1,"f":1.0,"s":"1"}"#).unwrap();
    assert_eq!(tree.get_i64("big"), None);
    assert_eq!(tree.get_u64("big"), Some(9_223_372_036_854_775_808));
    assert_eq!(tree.get_i64("neg"), Some(-1));
    assert_eq!(tree.get_u64("neg"), None);
    assert_eq!(tree.get_i64("f"), None);
    assert_eq!(tree.get_i64("s"), None);
    assert_eq!(tree.get_bool("s"), None);
    assert!(tree.get_items("s").is_empty());
}

#[test]
fn values_are_equal_by_what_they_hold() {
    let same = |a: &str, b: &str| parse(a).unwrap().equals(&parse(b).unwrap());
    assert!(same(r#"{"a":1,"b":[true]}"#, r#"{"b":[true],"a":1}"#));
    assert!(!same(r#"{"a":1}"#, r#"{"a":1,"b":2}"#));
    assert!(!same(r#"{"a":1,"b":2}"#, r#"{"a":1}"#));
    assert!(!same("1", "1.0"));
    assert!(same("1.0", "1.00"));
    assert!(same("0.0", "-0.0"));
    assert!(!same("null", "false"));
    assert!(Json::NegInt(5).equals(&Json::PosInt(5)));
}

#[test]
fn instants_are_named_between_two_bounds() {
    assert!(Timestamp::from_epoch(-8_334_601_228_800).is_some());
    assert!(Timestamp::from_epoch(-8_334_601_228_801).is_none());
    assert!(Timestamp::from_epoch(8_210_266_876_799).is_some());
    assert!(Timestamp::from_epoch(8_210_266_876_800).is_none());
    assert_eq!(Timestamp::from_epoch(-8_334_601_228_800).unwrap().to_rfc3339(), "-262143-01-01T00:00:00Z");
    assert_eq!(Timestamp::from_epoch(8_210_266_876_799).unwrap().to_rfc3339(), "+262142-12-31T23:59:59Z");
    assert_eq!(Timestamp::from_epoch(0).unwrap().to_rfc3339(), "1970-01-01T00:00:00Z");
}

#[test]
fn stamps_follow_the_clock() {
    let at = Timestamp::from_epoch(1_780_000_000).unwrap();
    assert_eq!(at.stamp(StampForm::Hour), "20260528T20");
    assert_eq!(at.stamp(StampForm::Second), "20260528T202640");
    let year_one = Timestamp::from_epoch(-62_135_596_800).unwrap();
    assert_eq!(year_one.stamp(StampForm::Hour), "00010101T00");
    assert!(year_one.stamp(StampForm::Hour) < at.stamp(StampForm::Hour));
    assert_eq!(Timestamp::from_epoch(-62_167_219_200).unwrap().stamp(StampForm::Hour), "00000101T00");
    assert_eq!(Timestamp::from_epoch(253_402_300_799).unwrap().stamp(StampForm::Hour), "99991231T23");
}

#[test]
fn nanoseconds_are_counted_as_far_as_they_go() {
    assert_eq!(Timestamp::from_epoch(3).unwrap().nanos_since_epoch(), 3_000_000_000);
    assert_eq!(Timestamp::from_epoch(8_210_266_876_799).unwrap().nanos_since_epoch(), 0);
    let now = Timestamp::now();
    assert_eq!(now.nanos_since_epoch() / 1_000_000_000, now.secs());
    assert_eq!(now.day_before(), now.secs() - 86_400);
}

#[test]
fn the_file_is_put_aside_at_its_limit() {
    let at = Timestamp::from_epoch(1_780_000_000).unwrap();
    let mut sink = JsonFileSink::new(1_048_575, 1);
    assert_eq!(sink.rotate_bytes, 1_048_576);
    assert_eq!(sink.maybe_rotate(at), None);
    sink.wrote(&"ü".to_string());
    assert_eq!(sink.written, 1_048_577);
    assert_eq!(sink.maybe_rotate(at).as_deref(), Some("ndjson.20260528T202640"));
    sink.rotated();
    assert_eq!(sink.written, 0);
    assert_eq!(sink.maybe_rotate(at), None);
}

#[test]
fn without_a_limit_the_file_stays() {
    let at = Timestamp::from_epoch(0).unwrap();
    assert_eq!(JsonFileSink::new(u64::MAX, 0).maybe_rotate(at), None);
    assert_eq!(JsonFileSink::new(0, u64::MAX).rotate_bytes, u64::MAX);
    let mut full = JsonFileSink::new(u64::MAX, 1);
    full.wrote(&"x".to_string());
    assert_eq!(full.written, u64::MAX);
}
