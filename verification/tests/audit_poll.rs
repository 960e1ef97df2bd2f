use wazuh_slack::audit::{
    AuditAction, AuditCounts, AuditError, AuditInput, AuditPoll, AuditPoller,
};
use wazuh_slack::clock::Timestamp;
use wazuh_slack::json::parse;

const NOW: i64 = 1_700_000_000;

fn now() -> Timestamp {
    Timestamp::from_epoch(NOW).unwrap()
}

fn poller() -> AuditPoller {
    AuditPoller::new("xoxp-1".to_string(), 60)
}

fn ok(body: &str) -> AuditInput {
    AuditInput::Reply { status: 200, retry_after: None, body: body.to_string() }
}

fn reply(status: u16, retry_after: Option<&str>, body: &str) -> AuditInput {
    AuditInput::Reply {
        status,
        retry_after: retry_after.map(String::from),
        body: body.to_string(),
    }
}

fn begin(p: &AuditPoller, oldest: Option<&str>, cursor: Option<&str>) -> (AuditPoll, AuditAction) {
    p.begin(oldest.map(String::from), cursor.map(String::from), now())
}

fn fetched(action: AuditAction) -> (String, Option<String>) {
    match action {
        AuditAction::Fetch { oldest, cursor } => (oldest, cursor),
        other => panic!("{other:?}"),
    }
}

fn emitted(action: AuditAction) -> String {
    match action {
        AuditAction::Emit(event) => event.slack.event_id,
        other => panic!("{other:?}"),
    }
}

const PAGE: &str = r#"{"entries":[
  {"id":"a","date_create":1699999990,"action":"user_login"},
  {"date_create":1699999999},
  {"id":"b","date_create":1699999995}
]}"#;

#[test]
fn a_poll_begins_where_the_last_came_to() {
    let p = poller();
    let (_, action) = begin(&p, Some("1699990000"), Some("c1"));
    assert_eq!(fetched(action), ("1699990000".to_string(), Some("c1".to_string())));
    let (_, action) = begin(&p, Some("1699990000"), Some(""));
    assert_eq!(fetched(action), ("1699990000".to_string(), None));
    let (_, action) = begin(&p, Some("-5"), None);
    assert_eq!(fetched(action), ("-5".to_string(), None));
}

#[test]
fn a_fresh_poll_reaches_back_a_day() {
    let (_, action) = begin(&poller(), None, None);
    assert_eq!(fetched(action).0, "1699913600");
    let (_, action) = begin(&poller(), Some("not a number"), None);
    assert_eq!(fetched(action).0, "1699913600");
    let short = AuditPoller::with_backfill("t".to_string(), 60, 0);
    let (_, action) = begin(&short, None, None);
    assert_eq!(fetched(action).0, "1700000000");
}

#[test]
fn a_poll_delivers_what_is_new_and_stores_the_newest_time() {
    let mut p = poller();
    let (mut poll, _) = begin(&p, Some("1699990000"), None);
    assert_eq!(emitted(p.step(&mut poll, ok(PAGE))), "a");
    assert_eq!(emitted(p.step(&mut poll, AuditInput::Accepted)), "b");
    match p.step(&mut poll, AuditInput::Accepted) {
        AuditAction::SaveOldest(text) => assert_eq!(text, "1699999999"),
        other => panic!("{other:?}"),
    }
    assert!(matches!(p.step(&mut poll, AuditInput::Saved), AuditAction::ClearCursor));
    match p.step(&mut poll, AuditInput::SaveFailed) {
        AuditAction::Finish(counts) => assert_eq!(
            counts,
            AuditCounts { fetched: 3, forwarded: 2, deduped: 0, invalid: 1 }
        ),
        other => panic!("{other:?}"),
    }
    assert!(matches!(p.step(&mut poll, AuditInput::Saved), AuditAction::Stop));
}

#[test]
fn entries_on_the_boundary_are_delivered_once() {
    let mut p = poller();
    let (mut poll, _) = begin(&p, Some("1"), None);
    p.step(&mut poll, ok(PAGE));
    p.step(&mut poll, AuditInput::Accepted);
    p.step(&mut poll, AuditInput::Accepted);
    let (mut again, _) = begin(&p, Some("1699999999"), None);
    match p.step(&mut again, ok(PAGE)) {
        AuditAction::SaveOldest(text) => assert_eq!(text, "1699999999"),
        other => panic!("{other:?}"),
    }
    p.step(&mut again, AuditInput::Saved);
    match p.step(&mut again, AuditInput::Saved) {
        AuditAction::Finish(counts) => assert_eq!(
            counts,
            AuditCounts { fetched: 3, forwarded: 0, deduped: 2, invalid: 1 }
        ),
        other => panic!("{other:?}"),
    }
}

/// The ids that a poll delivers of the pages, every value being stored.
fn delivered(p: &mut AuditPoller, cursor: Option<&str>, pages: &[&str]) -> Vec<String> {
    let (mut poll, _) = begin(p, Some("1"), cursor);
    let mut pages = pages.iter();
    let mut ids = Vec::new();
    let mut action = p.step(&mut poll, ok(pages.next().unwrap()));
    loop {
        let input = match action {
            AuditAction::Emit(event) => {
                ids.push(event.slack.event_id);
                AuditInput::Accepted
            }
            AuditAction::Fetch { .. } => match pages.next() {
                Some(page) => ok(page),
                None => return ids,
            },
            AuditAction::Finish(_) => return ids,
            _ => AuditInput::Saved,
        };
        action = p.step(&mut poll, input);
    }
}

#[test]
fn every_id_is_delivered_once_over_pages_and_polls() {
    let mut p = poller();
    let one = r#"{"entries":[{"id":"a"},{"id":"b"},{"id":"a"},{"id":7}],"response_metadata":{"next_cursor":"c2"}}"#;
    let two = r#"{"entries":[{"id":"b"},{},{"id":"c"}]}"#;
    assert_eq!(delivered(&mut p, None, &[one, two]), ["a", "b", "c"]);
    let three = r#"{"entries":[{"id":"c"},{"id":"d"},{"id":"a"},{"id":"d"}]}"#;
    assert_eq!(delivered(&mut p, None, &[three]), ["d"]);
    assert!(delivered(&mut p, None, &[one, two]).is_empty());
}

#[test]
fn an_undelivered_event_of_a_later_page_is_taken_up_at_that_page() {
    let mut p = poller();
    let (mut poll, _) = begin(&p, Some("1"), None);
    let one = r#"{"entries":[{"id":"a"}],"response_metadata":{"next_cursor":"c2"}}"#;
    assert_eq!(emitted(p.step(&mut poll, ok(one))), "a");
    let stored = match p.step(&mut poll, AuditInput::Accepted) {
        AuditAction::SaveCursor(cursor) => cursor,
        other => panic!("{other:?}"),
    };
    p.step(&mut poll, AuditInput::Saved);
    let two = r#"{"entries":[{"id":"b"}]}"#;
    assert_eq!(emitted(p.step(&mut poll, ok(two))), "b");
    assert!(matches!(p.step(&mut poll, AuditInput::Rejected), AuditAction::Stop));
    let (mut again, action) = begin(&p, Some("1"), Some(&stored));
    assert_eq!(fetched(action), ("1".to_string(), Some("c2".to_string())));
    assert_eq!(emitted(p.step(&mut again, ok(two))), "b");
}

#[test]
fn an_undelivered_event_ends_the_poll_and_comes_again() {
    let mut p = poller();
    let (mut poll, _) = begin(&p, Some("1"), None);
    assert_eq!(emitted(p.step(&mut poll, ok(PAGE))), "a");
    assert!(matches!(p.step(&mut poll, AuditInput::Rejected), AuditAction::Stop));
    assert!(matches!(p.step(&mut poll, AuditInput::Accepted), AuditAction::Stop));
    let (mut again, _) = begin(&p, Some("1"), None);
    assert_eq!(emitted(p.step(&mut again, ok(PAGE))), "a");
}

#[test]
fn pages_follow_each_other_by_cursor() {
    let mut p = poller();
    let (mut poll, _) = begin(&p, Some("5"), None);
    let page = r#"{"entries":[],"response_metadata":{"next_cursor":"c2"}}"#;
    match p.step(&mut poll, ok(page)) {
        AuditAction::SaveCursor(c) => assert_eq!(c, "c2"),
        other => panic!("{other:?}"),
    }
    let action = p.step(&mut poll, AuditInput::Saved);
    assert_eq!(fetched(action), ("5".to_string(), Some("c2".to_string())));
    let last = r#"{"response_metadata":{"next_cursor":""}}"#;
    match p.step(&mut poll, ok(last)) {
        AuditAction::SaveOldest(text) => assert_eq!(text, "5"),
        other => panic!("{other:?}"),
    }
}

#[test]
fn a_refusal_is_waited_out() {
    let mut p = poller();
    let (mut poll, _) = begin(&p, Some("5"), None);
    assert!(matches!(p.step(&mut poll, reply(429, Some("7"), "")), AuditAction::Wait(7)));
    assert_eq!(fetched(p.step(&mut poll, AuditInput::Waited)).0, "5");
    assert!(matches!(p.step(&mut poll, reply(429, None, "")), AuditAction::Wait(30)));
    p.step(&mut poll, AuditInput::Waited);
    assert!(matches!(p.step(&mut poll, reply(429, Some("soon"), "")), AuditAction::Wait(30)));
    p.step(&mut poll, AuditInput::Waited);
    assert!(matches!(p.step(&mut poll, reply(429, Some("-1"), "")), AuditAction::Wait(30)));
}

#[test]
fn every_failure_has_its_error() {
    let fail = |input: AuditInput| {
        let mut p = poller();
        let (mut poll, _) = begin(&p, Some("5"), None);
        match p.step(&mut poll, input) {
            AuditAction::Fail(error) => error,
            other => panic!("{other:?}"),
        }
    };
    assert!(matches!(fail(reply(401, None, "x")), AuditError::Rejected { status: 401 }));
    assert!(matches!(fail(reply(403, None, "x")), AuditError::Rejected { status: 403 }));
    match fail(reply(500, None, "oops")) {
        AuditError::Http { status, body } => assert_eq!((status, body.as_str()), (500, "oops")),
        other => panic!("{other:?}"),
    }
    assert!(matches!(fail(ok("<html>")), AuditError::InvalidBody));
    assert!(matches!(fail(AuditInput::Unreachable), AuditError::Unreachable));
}

#[test]
fn a_store_that_fails_ends_the_poll() {
    let mut p = poller();
    let (mut poll, _) = begin(&p, Some("5"), None);
    p.step(&mut poll, ok("{}"));
    assert!(matches!(
        p.step(&mut poll, AuditInput::SaveFailed),
        AuditAction::Fail(AuditError::State)
    ));
    let (mut poll, _) = begin(&p, Some("5"), None);
    p.step(&mut poll, ok(r#"{"response_metadata":{"next_cursor":"c"}}"#));
    assert!(matches!(
        p.step(&mut poll, AuditInput::SaveFailed),
        AuditAction::Fail(AuditError::State)
    ));
}

#[test]
fn a_parsed_page_is_walked_without_its_text() {
    let p = poller();
    let (mut poll, _) = begin(&p, Some("5"), None);
    let page = parse(r#"{"entries":[{"id":"z"}]}"#).unwrap();
    let action = poll.on_reply(&p.dedup, 200, None, String::new(), Some(page));
    assert_eq!(emitted(action), "z");
}
