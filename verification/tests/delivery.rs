use std::collections::BTreeMap;
use wazuh_slack::clock::Timestamp;
use wazuh_slack::event::{NormalizedEvent, Severity, SlackPayload, SourceTag};
use wazuh_slack::json::parse;
use wazuh_slack::spool::{
    has_segment_name, over_cap, segment_name, segments_in_order, spool_line, Replay, ReplayAction,
    ReplayError, ReplayInput,
};
use wazuh_slack::unix_socket::{
    is_queue_full, is_queue_full_code, wire_format, Delivery, DeliveryAction, DeliveryError,
    DeliveryInput,
};

fn event(id: &str) -> NormalizedEvent {
    NormalizedEvent {
        timestamp: Timestamp::from_epoch(0).unwrap(),
        slack: SlackPayload {
            source: SourceTag::Audit,
            action: "a\r\nb".to_string(),
            event_id: id.to_string(),
            actor: None,
            entity: None,
            context: None,
        },
        severity: Severity::Info,
        raw: parse("null").unwrap(),
    }
}

const FULL: DeliveryInput = DeliveryInput::Failed { full: true };
const BROKEN: DeliveryInput = DeliveryInput::Failed { full: false };

#[test]
fn the_wire_format_names_queue_and_location() {
    assert_eq!(
        wire_format(&event("Ev1")),
        "1:slack-audit:{\"@timestamp\":\"1970-01-01T00:00:00Z\",\"slack\":{\"source\":\"audit\",\"action\":\"a\\r\\nb\",\"event_id\":\"Ev1\"},\"severity\":\"info\",\"raw\":null}"
    );
}

#[test]
fn a_full_queue_is_told_by_kind_or_code() {
    assert!(is_queue_full_code(true, None, 11));
    assert!(is_queue_full_code(false, Some(11), 11));
    assert!(!is_queue_full_code(false, Some(12), 11));
    assert!(!is_queue_full_code(false, None, 11));
    assert!(is_queue_full(true, None));
    assert!(is_queue_full(false, Some(libc::EAGAIN)));
    assert!(!is_queue_full(false, Some(libc::ECONNREFUSED)));
    assert!(!is_queue_full(false, None));
}

#[test]
fn a_delivery_that_works_is_done_at_once() {
    let (mut d, action) = Delivery::new(true);
    assert_eq!(action, DeliveryAction::Send);
    assert_eq!(d.step(DeliveryInput::Success), DeliveryAction::Done);
}

#[test]
fn a_full_queue_is_tried_five_times_and_then_spooled() {
    let (mut d, _) = Delivery::new(true);
    for (i, ms) in [25, 50, 100, 200, 400].into_iter().enumerate() {
        assert_eq!(d.step(FULL), DeliveryAction::Sleep(ms));
        let next = d.step(DeliveryInput::Waited);
        if i < 4 {
            assert_eq!(next, DeliveryAction::Send);
        } else {
            assert_eq!(next, DeliveryAction::Spool);
        }
    }
    assert_eq!(d.step(DeliveryInput::Success), DeliveryAction::Done);
}

#[test]
fn a_broken_connection_is_replaced_once() {
    let (mut d, _) = Delivery::new(true);
    assert_eq!(d.step(BROKEN), DeliveryAction::Reconnect);
    assert_eq!(d.step(DeliveryInput::Success), DeliveryAction::Send);
    assert_eq!(d.step(BROKEN), DeliveryAction::Spool);
    let (mut d, _) = Delivery::new(true);
    d.step(BROKEN);
    assert_eq!(d.step(BROKEN), DeliveryAction::Spool);
    let (mut d, _) = Delivery::new(true);
    d.step(BROKEN);
    d.step(DeliveryInput::Success);
    assert_eq!(d.step(FULL), DeliveryAction::Sleep(25));
    assert_eq!(d.step(DeliveryInput::Waited), DeliveryAction::Send);
    assert_eq!(d.step(BROKEN), DeliveryAction::Reconnect);
}

#[test]
fn without_a_spool_the_failure_is_reported() {
    let (mut d, _) = Delivery::new(false);
    d.step(BROKEN);
    let failed = DeliveryAction::Fail(DeliveryError::NoSpool);
    assert_eq!(d.step(BROKEN), failed);
    assert_eq!(DeliveryError::NoSpool.message(), "sink unavailable and no spool configured");
    let (mut d, _) = Delivery::new(true);
    d.step(BROKEN);
    d.step(BROKEN);
    assert_eq!(d.step(BROKEN), DeliveryAction::Fail(DeliveryError::SpoolFailed));
}

#[test]
fn a_segment_spans_an_hour() {
    let at = |secs| segment_name(Timestamp::from_epoch(secs).unwrap());
    assert_eq!(at(1_780_000_000), "20260528T20.ndjson");
    assert_eq!(at(1_780_001_999), "20260528T20.ndjson");
    assert_eq!(at(1_780_002_000), "20260528T21.ndjson");
    assert!(at(1_780_000_000) < at(1_780_002_000));
    assert_eq!(spool_line("x"), "x\n");
    assert!(!over_cap(1_048_576, 1));
    assert!(over_cap(1_048_577, 1));
    assert!(over_cap(1, 0));
}

#[test]
fn segments_are_told_by_their_extension() {
    for name in ["a.ndjson", "20260528T20.ndjson", ".x.ndjson", "..ndjson"] {
        assert!(has_segment_name(name), "{name}");
    }
    for name in ["", ".ndjson", "ndjson", "a.ndjson.bak", "a.NDJSON", "andjson", "a.json"] {
        assert!(!has_segment_name(name), "{name}");
    }
    for name in [".ndjson", "..ndjson", "a.ndjson", "a.b.ndjson", "ndjson", "é.ndjson"] {
        let by_path = std::path::Path::new(name).extension().is_some_and(|e| e == "ndjson");
        assert_eq!(has_segment_name(name), by_path, "{name}");
    }
    let names = ["b.ndjson", "x.tmp", "a.ndjson", "a.ndjson2", "10.ndjson", "9.ndjson"];
    let order = segments_in_order(names.iter().map(|n| n.to_string()).collect());
    assert_eq!(order, ["10.ndjson", "9.ndjson", "a.ndjson", "b.ndjson"]);
}

fn names(list: &[&str]) -> Vec<String> {
    list.iter().map(|n| n.to_string()).collect()
}

fn sent(action: ReplayAction) -> String {
    match action {
        ReplayAction::Send(line) => line,
        other => panic!("{other:?}"),
    }
}

#[test]
fn what_is_spooled_is_replayed_in_order() {
    let lines: Vec<String> = ["Ev1", "Ev2", "Ev3"].iter().map(|id| wire_format(&event(id))).collect();
    let content: String = lines.iter().map(|l| spool_line(l)).collect();
    let (mut r, action) = Replay::begin(names(&["b.ndjson", "a.ndjson"]));
    assert!(matches!(action, ReplayAction::Read(name) if name == "a.ndjson"));
    let mut action = r.step(ReplayInput::Content(content));
    for line in &lines {
        assert_eq!(&sent(action), line);
        action = r.step(ReplayInput::Success);
    }
    assert!(matches!(action, ReplayAction::Remove(name) if name == "a.ndjson"));
    let action = r.step(ReplayInput::Success);
    assert!(matches!(action, ReplayAction::Read(name) if name == "b.ndjson"));
    let action = r.step(ReplayInput::Content("\n  \n\r\n".to_string()));
    assert!(matches!(action, ReplayAction::Remove(name) if name == "b.ndjson"));
    assert!(matches!(r.step(ReplayInput::Success), ReplayAction::Finish));
}

/// A replay of the files to its end, where analysisd takes `room` lines and no
/// more: the lines that were sent, and whether the replay was complete.
fn replay_all(files: &mut BTreeMap<String, String>, mut room: usize) -> (Vec<String>, bool) {
    let mut taken = Vec::new();
    let (mut r, mut action) = Replay::begin(files.keys().cloned().collect());
    loop {
        let input = match action {
            ReplayAction::Read(name) => ReplayInput::Content(files[&name].clone()),
            ReplayAction::Send(line) => {
                if room > 0 {
                    room -= 1;
                    taken.push(line);
                    ReplayInput::Success
                } else {
                    ReplayInput::Failed { full: false }
                }
            }
            ReplayAction::Reconnect => ReplayInput::Success,
            ReplayAction::WriteBack { name, text } => {
                files.insert(name, text);
                ReplayInput::Success
            }
            ReplayAction::Remove(name) => {
                files.remove(&name);
                ReplayInput::Success
            }
            ReplayAction::Finish => return (taken, true),
            ReplayAction::Fail(_) => return (taken, false),
        };
        action = r.step(input);
    }
}

#[test]
fn a_replay_of_several_segments_sends_the_first_and_keeps_the_rest() {
    let mut files = BTreeMap::new();
    files.insert("1.ndjson".to_string(), "a\nb\n".to_string());
    files.insert("2.ndjson".to_string(), "c\nd\ne\n".to_string());
    files.insert("3.ndjson".to_string(), "f\n".to_string());
    files.insert("notes.txt".to_string(), "n\n".to_string());
    let (taken, complete) = replay_all(&mut files, 3);
    assert_eq!(taken, ["a", "b", "c"]);
    assert!(!complete);
    assert!(!files.contains_key("1.ndjson"));
    assert_eq!(files["2.ndjson"], "d\ne\n");
    assert_eq!(files["3.ndjson"], "f\n");
    let (taken, complete) = replay_all(&mut files, 9);
    assert_eq!(taken, ["d", "e", "f"]);
    assert!(complete);
    assert_eq!(files.len(), 1);
    assert_eq!(files["notes.txt"], "n\n");
}

#[test]
fn an_interrupted_replay_keeps_the_rest() {
    let (mut r, _) = Replay::begin(names(&["a.ndjson"]));
    assert_eq!(sent(r.step(ReplayInput::Content("1\n2\r\n\n3".to_string()))), "1");
    assert_eq!(sent(r.step(ReplayInput::Success)), "2");
    assert!(matches!(r.step(ReplayInput::Failed { full: false }), ReplayAction::Reconnect));
    assert_eq!(sent(r.step(ReplayInput::Success)), "2");
    match r.step(ReplayInput::Failed { full: false }) {
        ReplayAction::WriteBack { name, text } => {
            assert_eq!(name, "a.ndjson");
            assert_eq!(text, "2\n3\n");
        }
        other => panic!("{other:?}"),
    }
    assert!(matches!(
        r.step(ReplayInput::Success),
        ReplayAction::Fail(ReplayError::Interrupted)
    ));
}

#[test]
fn a_full_queue_or_a_lost_socket_interrupts_at_once() {
    let (mut r, _) = Replay::begin(names(&["a.ndjson"]));
    r.step(ReplayInput::Content("1\n".to_string()));
    match r.step(ReplayInput::Failed { full: true }) {
        ReplayAction::WriteBack { text, .. } => assert_eq!(text, "1\n"),
        other => panic!("{other:?}"),
    }
    let (mut r, _) = Replay::begin(names(&["a.ndjson"]));
    r.step(ReplayInput::Content("1\n".to_string()));
    r.step(ReplayInput::Failed { full: false });
    assert!(matches!(
        r.step(ReplayInput::Failed { full: false }),
        ReplayAction::WriteBack { .. }
    ));
}

#[test]
fn files_that_fail_end_the_replay() {
    let (mut r, _) = Replay::begin(names(&["a.ndjson"]));
    assert!(matches!(
        r.step(ReplayInput::Failed { full: false }),
        ReplayAction::Fail(ReplayError::File)
    ));
    let (mut r, _) = Replay::begin(names(&["a.ndjson"]));
    r.step(ReplayInput::Content(String::new()));
    assert!(matches!(
        r.step(ReplayInput::Failed { full: false }),
        ReplayAction::Fail(ReplayError::File)
    ));
    assert!(matches!(Replay::begin(names(&["x"])).1, ReplayAction::Finish));
}
