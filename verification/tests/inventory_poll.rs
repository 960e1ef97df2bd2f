use wazuh_slack::clock::Timestamp;
use wazuh_slack::event::{Severity, SourceTag};
use wazuh_slack::json::{parse, render};
use wazuh_slack::web_inventory::{
    list_paged, InventoryAction, InventoryInput, InventoryPoll, ListError, ListStep,
    WebInventoryPoller,
};

fn now() -> Timestamp {
    Timestamp::from_epoch(1_700_000_000).unwrap()
}

fn reply(body: &str) -> InventoryInput {
    InventoryInput::Reply { body: body.to_string() }
}

fn fetched(action: InventoryAction) -> (String, Option<String>) {
    match action {
        InventoryAction::Fetch { method, cursor } => (method, cursor),
        other => panic!("{other:?}"),
    }
}

fn begin() -> InventoryPoll {
    let p = WebInventoryPoller::new("xoxb-1".to_string(), 300);
    let (poll, action) = p.begin();
    assert_eq!(fetched(action), ("users.list".to_string(), None));
    poll
}

#[test]
fn a_snapshot_lists_every_page() {
    let mut poll = begin();
    let first = r#"{"ok":true,"members":[{"id":"U1"},{"id":"U2"}],"response_metadata":{"next_cursor":"c2"}}"#;
    assert_eq!(
        fetched(poll.step(reply(first), now())),
        ("users.list".to_string(), Some("c2".to_string()))
    );
    let second = r#"{"ok":true,"members":[{"id":"U3"}],"response_metadata":{"next_cursor":""}}"#;
    assert_eq!(
        fetched(poll.step(reply(second), now())),
        ("conversations.list".to_string(), None)
    );
    match poll.step(reply(r#"{"ok":true,"channels":[{"id":"C1"}]}"#), now()) {
        InventoryAction::Emit(event) => {
            assert_eq!(event.timestamp.secs(), 1_700_000_000);
            assert_eq!(event.slack.source, SourceTag::WebInventory);
            assert_eq!(event.slack.action, "workspace_inventory_snapshot");
            assert_eq!(event.slack.event_id, "inv-1700000000");
            assert_eq!(event.slack.entity.unwrap().entity_type, "workspace");
            assert!(event.slack.actor.is_none());
            assert_eq!(event.severity, Severity::Info);
            assert_eq!(
                render(&event.raw),
                "{\"channels\":[{\"id\":\"C1\"}],\"channels_count\":1,\"users\":[{\"id\":\"U1\"},{\"id\":\"U2\"},{\"id\":\"U3\"}],\"users_count\":3}"
            );
        }
        other => panic!("{other:?}"),
    }
    match poll.step(InventoryInput::Accepted, now()) {
        InventoryAction::Save(text) => assert_eq!(text, "1700000000"),
        other => panic!("{other:?}"),
    }
    assert!(matches!(poll.step(InventoryInput::Saved, now()), InventoryAction::Finish));
}

#[test]
fn a_snapshot_lists_every_page_of_channels() {
    let mut poll = begin();
    poll.step(reply(r#"{"ok":true,"members":[{"id":"U1"}]}"#), now());
    let first = r#"{"ok":true,"channels":[{"id":"C2"}],"response_metadata":{"next_cursor":"n2"}}"#;
    assert_eq!(
        fetched(poll.step(reply(first), now())),
        ("conversations.list".to_string(), Some("n2".to_string()))
    );
    let second = r#"{"ok":true,"channels":[{"id":"C1"},{"id":"C3"}],"response_metadata":{"next_cursor":"n3"}}"#;
    assert_eq!(
        fetched(poll.step(reply(second), now())),
        ("conversations.list".to_string(), Some("n3".to_string()))
    );
    match poll.step(reply(r#"{"ok":true,"channels":[]}"#), now()) {
        InventoryAction::Emit(event) => assert_eq!(
            render(&event.raw),
            "{\"channels\":[{\"id\":\"C2\"},{\"id\":\"C1\"},{\"id\":\"C3\"}],\"channels_count\":3,\"users\":[{\"id\":\"U1\"}],\"users_count\":1}"
        ),
        other => panic!("{other:?}"),
    }
}

#[test]
fn a_list_that_fails_counts_as_empty() {
    let mut poll = begin();
    let first = r#"{"ok":true,"members":[{"id":"U1"}],"response_metadata":{"next_cursor":"c2"}}"#;
    poll.step(reply(first), now());
    let refused = r#"{"ok":false,"error":"ratelimited"}"#;
    assert_eq!(fetched(poll.step(reply(refused), now())).0, "conversations.list");
    match poll.step(InventoryInput::Unreachable, now()) {
        InventoryAction::Emit(event) => assert_eq!(
            render(&event.raw),
            "{\"channels\":[],\"channels_count\":0,\"users\":[],\"users_count\":0}"
        ),
        other => panic!("{other:?}"),
    }
}

#[test]
fn an_undelivered_snapshot_is_not_recorded() {
    let mut poll = begin();
    poll.step(InventoryInput::Unreachable, now());
    assert!(matches!(poll.step(reply("nonsense"), now()), InventoryAction::Emit(_)));
    assert!(matches!(poll.step(InventoryInput::Rejected, now()), InventoryAction::Stop));
}

#[test]
fn a_page_is_added_to_the_list() {
    let mut items = vec![parse("1").unwrap()];
    let page = parse(r#"{"ok":true,"k":[2,3],"response_metadata":{"next_cursor":"n"}}"#).unwrap();
    match list_paged(&mut items, "k", Some(page)) {
        ListStep::More(cursor) => assert_eq!(cursor, "n"),
        other => panic!("{other:?}"),
    }
    let last = parse(r#"{"ok":true,"other":[9]}"#).unwrap();
    assert!(matches!(list_paged(&mut items, "k", Some(last)), ListStep::Done));
    let all: Vec<String> = items.iter().map(render).collect();
    assert_eq!(all, ["1", "2", "3"]);
    match list_paged(&mut items, "k", Some(parse("{}").unwrap())) {
        ListStep::Failed(ListError::Api(error)) => assert_eq!(error, "?"),
        other => panic!("{other:?}"),
    }
    assert!(matches!(
        list_paged(&mut items, "k", None),
        ListStep::Failed(ListError::InvalidBody)
    ));
}
