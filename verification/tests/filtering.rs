use wazuh_slack::clock::Timestamp;
use wazuh_slack::event::{
    NormalizedEvent, Severity, SlackActor, SlackPayload, SourceTag,
};
use wazuh_slack::filter::{matches_any, FilterEngine, FilterRule, MatchOp};
use wazuh_slack::json::{parse, Json};
use wazuh_slack::string_map::StringMap;

fn event(source: SourceTag, action: &str) -> NormalizedEvent {
    NormalizedEvent {
        timestamp: Timestamp::from_epoch(1_700_000_000).unwrap(),
        slack: SlackPayload {
            source,
            action: action.to_string(),
            event_id: "Ev1".to_string(),
            actor: Some(SlackActor {
                actor_type: "user".to_string(),
                id: Some("U1".to_string()),
                name: None,
                email: Some("eve@example.com".to_string()),
            }),
            entity: None,
            context: None,
        },
        severity: Severity::Low,
        raw: parse(r#"{"n":7,"f":1.50,"neg":-0.0,"list":[1,2],"sub":{"flag":true},"s":"a b"}"#).unwrap(),
    }
}

fn rule(field: &str, op: MatchOp) -> FilterRule {
    FilterRule { field: field.to_string(), op }
}

fn text(s: &str) -> Json {
    Json::Str(s.to_string())
}

fn json(s: &str) -> Json {
    parse(s).unwrap()
}

#[test]
fn eq_compares_the_field() {
    let ev = event(SourceTag::Events, "file_shared");
    assert!(rule("slack.action", MatchOp::Eq(text("file_shared"))).matches(&ev));
    assert!(!rule("slack.action", MatchOp::Eq(text("file_public"))).matches(&ev));
    assert!(rule("slack.actor.email", MatchOp::Eq(text("eve@example.com"))).matches(&ev));
    assert!(rule("severity", MatchOp::Eq(text("low"))).matches(&ev));
    assert!(rule("raw.n", MatchOp::Eq(json("7"))).matches(&ev));
    assert!(!rule("raw.n", MatchOp::Eq(json("7.0"))).matches(&ev));
    assert!(rule("raw.f", MatchOp::Eq(json("1.5"))).matches(&ev));
    assert!(rule("raw.neg", MatchOp::Eq(json("0.0"))).matches(&ev));
    assert!(rule("raw.list", MatchOp::Eq(json("[1,2]"))).matches(&ev));
    assert!(!rule("raw.list", MatchOp::Eq(json("[2,1]"))).matches(&ev));
    assert!(rule("raw.sub", MatchOp::Eq(json(r#"{"flag":true}"#))).matches(&ev));
    assert!(!rule("raw.nowhere", MatchOp::Eq(Json::Null)).matches(&ev));
}

#[test]
fn in_compares_with_each_value() {
    let ev = event(SourceTag::Events, "file_shared");
    let set = vec![text("file_public"), text("file_shared")];
    assert!(rule("slack.action", MatchOp::In(set)).matches(&ev));
    assert!(!rule("slack.action", MatchOp::In(vec![])).matches(&ev));
    assert!(!rule("slack.missing", MatchOp::In(vec![Json::Null])).matches(&ev));
}

#[test]
fn exists_asks_whether_the_field_is_there() {
    let ev = event(SourceTag::Events, "file_shared");
    assert!(rule("slack.actor", MatchOp::Exists(true)).matches(&ev));
    assert!(!rule("slack.actor", MatchOp::Exists(false)).matches(&ev));
    assert!(!rule("slack.entity", MatchOp::Exists(true)).matches(&ev));
    assert!(rule("slack.entity", MatchOp::Exists(false)).matches(&ev));
    assert!(rule("raw.sub.flag", MatchOp::Exists(true)).matches(&ev));
}

#[test]
fn a_pattern_is_searched_for_in_the_text_of_the_field() {
    let ev = event(SourceTag::Events, "file_shared");
    assert!(rule("slack.action", MatchOp::RegexMatch("^file_".to_string())).matches(&ev));
    assert!(!rule("slack.action", MatchOp::RegexMatch("^shared".to_string())).matches(&ev));
    assert!(rule("raw.list", MatchOp::RegexMatch(r"^\[1,2\]$".to_string())).matches(&ev));
    assert!(rule("raw.f", MatchOp::RegexMatch(r"^1\.5$".to_string())).matches(&ev));
    assert!(rule("raw.sub", MatchOp::RegexMatch("\"flag\":true".to_string())).matches(&ev));
    assert!(!rule("slack.action", MatchOp::RegexMatch("(".to_string())).matches(&ev));
    assert!(!rule("raw.nowhere", MatchOp::RegexMatch(".*".to_string())).matches(&ev));
}

#[test]
fn an_operator_decides_by_what_was_found() {
    let pattern = MatchOp::RegexMatch("x".to_string());
    let found = Some(text("a"));
    assert!(pattern.holds(&found, Some(true)));
    assert!(!pattern.holds(&found, Some(false)));
    assert!(!pattern.holds(&found, None));
    assert!(!pattern.holds(&None, Some(true)));
}

#[test]
fn one_matching_rule_is_enough() {
    let ev = event(SourceTag::Events, "file_shared");
    assert!(!matches_any(&vec![], &ev));
    let rules = vec![
        rule("slack.action", MatchOp::Eq(text("other"))),
        rule("slack.action", MatchOp::Eq(text("file_shared"))),
    ];
    assert!(matches_any(&rules, &ev));
}

fn engine(drop: Vec<FilterRule>, allow: Vec<FilterRule>) -> FilterEngine {
    FilterEngine {
        global_drop: drop,
        per_source_allow: StringMap::new().with("events".to_string(), allow),
        severity_map: StringMap::new().with("file_shared".to_string(), Severity::High),
    }
}

#[test]
fn without_rules_everything_passes_unchanged() {
    let out = FilterEngine::default().evaluate(event(SourceTag::Audit, "user_login")).unwrap();
    assert_eq!(out.severity, Severity::Low);
    assert_eq!(out.slack.action, "user_login");
}

#[test]
fn the_severity_map_comes_first() {
    let out = engine(vec![], vec![]).evaluate(event(SourceTag::Events, "file_shared")).unwrap();
    assert_eq!(out.severity, Severity::High);
    let on_high = vec![rule("severity", MatchOp::Eq(text("high")))];
    assert!(engine(on_high, vec![]).evaluate(event(SourceTag::Events, "file_shared")).is_none());
    let on_low = vec![rule("severity", MatchOp::Eq(text("low")))];
    assert!(engine(on_low, vec![]).evaluate(event(SourceTag::Events, "file_shared")).is_some());
}

#[test]
fn a_rule_that_drops_outweighs_one_that_allows() {
    let both = rule("slack.action", MatchOp::Eq(text("file_shared")));
    let e = engine(vec![both.clone()], vec![both]);
    assert!(e.evaluate(event(SourceTag::Events, "file_shared")).is_none());
}

#[test]
fn an_allow_list_holds_back_the_rest_of_its_source() {
    let allow = vec![rule("slack.action", MatchOp::Eq(text("file_shared")))];
    let e = engine(vec![], allow);
    assert!(e.evaluate(event(SourceTag::Events, "file_shared")).is_some());
    assert!(e.evaluate(event(SourceTag::Events, "message")).is_none());
    assert!(e.evaluate(event(SourceTag::Audit, "message")).is_some());
    let empty = engine(vec![], vec![]);
    assert!(empty.evaluate(event(SourceTag::Events, "message")).is_some());
}

#[test]
fn a_later_entry_replaces_an_earlier_one() {
    let map = StringMap::new().with("a".to_string(), 1u64).with("b".to_string(), 2).with("a".to_string(), 3);
    assert_eq!(map.get("a"), Some(&3));
    assert_eq!(map.get("b"), Some(&2));
    assert_eq!(map.get("c"), None);
    assert_eq!(map.copied().get("a"), Some(&3));
}
