use wazuh_slack::access_logs::{
    build_event, AccessAction, AccessError, AccessInput, AccessLogsPoller, AccessPoll,
};
use wazuh_slack::clock::Timestamp;
use wazuh_slack::event::{Severity, SourceTag};
use wazuh_slack::json::parse;

const NOW: i64 = 1_700_000_000;

fn now() -> Timestamp {
    Timestamp::from_epoch(NOW).unwrap()
}

fn begin(stored: Option<&str>) -> AccessPoll {
    let p = AccessLogsPoller::new("xoxp-1".to_string(), 60);
    assert_eq!(p.backfill_days, 90);
    let (poll, action) = p.begin(stored.map(String::from), now());
    match action {
        AccessAction::Fetch { page } => assert_eq!(page, "1"),
        other => panic!("{other:?}"),
    }
    poll
}

fn reply(body: &str) -> AccessInput {
    AccessInput::Reply { body: body.to_string() }
}

fn emitted(action: AccessAction) -> String {
    match action {
        AccessAction::Emit(event) => event.slack.event_id,
        other => panic!("{other:?}"),
    }
}

#[test]
fn a_login_is_normalized() {
    let entry = parse(
        r#"{"user_id":"U1","username":"eve","date_first":1422922864,"ip":"127.0.0.1","user_agent":"SlackWeb","country":"US","count":1}"#,
    )
    .unwrap();
    let ev = build_event(&entry);
    assert_eq!(ev.timestamp.secs(), 1_422_922_864);
    assert_eq!(ev.slack.source, SourceTag::AccessLogs);
    assert_eq!(ev.slack.action, "user_login");
    assert_eq!(ev.slack.event_id, "access-U1-1422922864");
    let actor = ev.slack.actor.unwrap();
    assert_eq!(actor.actor_type, "user");
    assert_eq!(actor.id.as_deref(), Some("U1"));
    assert_eq!(actor.name.as_deref(), Some("eve"));
    assert!(ev.slack.entity.is_none());
    let context = ev.slack.context.unwrap();
    assert_eq!(context.ip.as_deref(), Some("127.0.0.1"));
    assert_eq!(context.ua.as_deref(), Some("SlackWeb"));
    assert!(context.location.unwrap().equals(&parse("\"US\"").unwrap()));
    assert_eq!(ev.severity, Severity::Low);
    assert!(ev.raw.equals(&entry));
    assert_eq!(build_event(&parse("{}").unwrap()).slack.event_id, "access-?-0");
}

#[test]
fn only_new_logins_are_delivered() {
    let mut poll = begin(Some("1699999000"));
    let page = r#"{"ok":true,"logins":[
      {"user_id":"U1","date_first":1699999000},
      {"user_id":"U2","date_first":1699999500},
      {"user_id":"U3","date_first":1699999001}
    ],"paging":{"page":1,"pages":1}}"#;
    assert_eq!(emitted(poll.step(reply(page))), "access-U2-1699999500");
    assert_eq!(emitted(poll.step(AccessInput::Accepted)), "access-U3-1699999001");
    match poll.step(AccessInput::Accepted) {
        AccessAction::Save(text) => assert_eq!(text, "1699999500"),
        other => panic!("{other:?}"),
    }
    assert!(matches!(poll.step(AccessInput::Saved), AccessAction::Finish));
}

#[test]
fn the_reach_of_the_poll_is_bounded() {
    // Ninety days before now lies at 1692224000.
    let page = r#"{"ok":true,"logins":[{"user_id":"U1","date_first":1692224000},{"user_id":"U2","date_first":1692224001}]}"#;
    for stored in [None, Some("5"), Some("x")] {
        let mut poll = begin(stored);
        assert_eq!(emitted(poll.step(reply(page))), "access-U2-1692224001");
    }
    let short = AccessLogsPoller::with_backfill("t".to_string(), 60, 0);
    let (mut poll, _) = short.begin(None, now());
    assert!(matches!(poll.step(reply(page)), AccessAction::Finish));
}

#[test]
fn pages_are_fetched_until_one_is_old() {
    let mut poll = begin(Some("1699999000"));
    let first = r#"{"ok":true,"logins":[{"user_id":"U1","date_first":1699999900}],"paging":{"page":1,"pages":3}}"#;
    poll.step(reply(first));
    match poll.step(AccessInput::Accepted) {
        AccessAction::Fetch { page } => assert_eq!(page, "2"),
        other => panic!("{other:?}"),
    }
    let old = r#"{"ok":true,"logins":[{"user_id":"U1","date_first":1699999000}],"paging":{"page":2,"pages":3}}"#;
    match poll.step(reply(old)) {
        AccessAction::Save(text) => assert_eq!(text, "1699999900"),
        other => panic!("{other:?}"),
    }
}

/// The ids that a poll delivers of the pages that it asks for, and what it stores.
fn polled(stored: Option<&str>, pages: &[&str]) -> (Vec<String>, Option<String>) {
    let mut poll = begin(stored);
    let mut pages = pages.iter();
    let mut ids = Vec::new();
    let mut saved = None;
    let mut action = poll.step(reply(pages.next().unwrap()));
    loop {
        let input = match action {
            AccessAction::Emit(event) => {
                ids.push(event.slack.event_id);
                AccessInput::Accepted
            }
            AccessAction::Fetch { .. } => reply(pages.next().unwrap()),
            AccessAction::Save(text) => {
                saved = Some(text);
                AccessInput::Saved
            }
            AccessAction::Finish => return (ids, saved),
            other => panic!("{other:?}"),
        };
        action = poll.step(input);
    }
}

#[test]
fn a_poll_delivers_every_new_login_of_its_pages() {
    let one = r#"{"ok":true,"logins":[{"user_id":"U1","date_first":1699999900},{"user_id":"U2","date_first":1699998000}],"paging":{"page":1,"pages":3}}"#;
    let two = r#"{"ok":true,"logins":[{"user_id":"U3","date_first":1699999950},{"user_id":"U4","date_first":1699999001}],"paging":{"page":2,"pages":3}}"#;
    let three = r#"{"ok":true,"logins":[{"user_id":"U5","date_first":1699999002}],"paging":{"page":3,"pages":3}}"#;
    let (ids, saved) = polled(Some("1699999000"), &[one, two, three]);
    assert_eq!(
        ids,
        [
            "access-U1-1699999900",
            "access-U3-1699999950",
            "access-U4-1699999001",
            "access-U5-1699999002"
        ]
    );
    assert_eq!(saved.as_deref(), Some("1699999950"));
    assert_eq!(polled(saved.as_deref(), &[one, two, three]), (Vec::new(), None));
}

#[test]
fn an_empty_page_ends_the_poll() {
    let mut poll = begin(None);
    let empty = r#"{"ok":true,"logins":[],"paging":{"page":1,"pages":9}}"#;
    assert!(matches!(poll.step(reply(empty)), AccessAction::Finish));
}

#[test]
fn an_undelivered_login_stores_nothing() {
    let mut poll = begin(Some("1699999000"));
    let page = r#"{"ok":true,"logins":[{"user_id":"U1","date_first":1699999900}]}"#;
    poll.step(reply(page));
    assert!(matches!(poll.step(AccessInput::Rejected), AccessAction::Stop));
    assert!(matches!(poll.step(AccessInput::Saved), AccessAction::Stop));
}

#[test]
fn every_access_failure_has_its_error() {
    let fail = |input: AccessInput| match begin(None).step(input) {
        AccessAction::Fail(error) => error,
        other => panic!("{other:?}"),
    };
    match fail(reply(r#"{"ok":false,"error":"paid_only"}"#)) {
        AccessError::Api(error) => assert_eq!(error, "paid_only"),
        other => panic!("{other:?}"),
    }
    match fail(reply("{}")) {
        AccessError::Api(error) => assert_eq!(error, "?"),
        other => panic!("{other:?}"),
    }
    assert!(matches!(fail(reply("x")), AccessError::InvalidBody));
    assert!(matches!(fail(AccessInput::Unreachable), AccessError::Unreachable));
    let mut poll = begin(None);
    poll.step(reply(r#"{"ok":true,"logins":[{"date_first":1699999900}]}"#));
    poll.step(AccessInput::Accepted);
    assert!(matches!(
        poll.step(AccessInput::SaveFailed),
        AccessAction::Fail(AccessError::State)
    ));
}
