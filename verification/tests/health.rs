use wazuh_slack::health::{now_epoch, HealthState};

#[test]
fn a_connector_starts_then_runs() {
    let mut h = HealthState::new_at(300, 1000);
    let (healthy, body) = h.snapshot_at(1042);
    assert!(!healthy);
    assert_eq!(
        body,
        r#"{"status":"starting","uptime_s":42,"active_sources":0,"events_emitted":0,"last_emit_age_s":42}"#
    );
    h.mark_started(2);
    h.record_emit_at(1039);
    let (healthy, body) = h.snapshot_at(1042);
    assert!(healthy);
    assert_eq!(
        body,
        r#"{"status":"ok","uptime_s":42,"active_sources":2,"events_emitted":1,"last_emit_age_s":3}"#
    );
}

#[test]
fn silence_beyond_the_window_is_stale() {
    let mut h = HealthState::new_at(300, 1000);
    h.mark_started(1);
    assert!(h.snapshot_at(1300).0);
    let (healthy, body) = h.snapshot_at(1301);
    assert!(!healthy);
    assert!(body.starts_with(r#"{"status":"stale","#));
    h.record_emit_at(1301);
    assert!(h.snapshot_at(1601).0);
    assert!(!h.snapshot_at(1602).0);
}

#[test]
fn push_only_and_idle_connectors_never_go_stale() {
    let mut push = HealthState::new_at(0, 0);
    push.mark_started(1);
    assert!(push.snapshot_at(u64::MAX).0);
    let mut idle = HealthState::new_at(300, 0);
    idle.mark_started(0);
    assert!(idle.snapshot_at(u64::MAX).0);
}

#[test]
fn a_clock_that_goes_back_counts_as_no_time() {
    let mut h = HealthState::new_at(300, 1000);
    h.mark_started(1);
    let (healthy, body) = h.snapshot_at(900);
    assert!(healthy);
    assert!(body.contains("\"uptime_s\":0"));
    assert!(body.contains("\"last_emit_age_s\":0"));
}

#[test]
fn the_counter_goes_round_at_its_end() {
    let mut h = HealthState::new_at(0, 0);
    h.events_emitted = u64::MAX;
    h.record_emit_at(1);
    assert_eq!(h.events_emitted, 0);
}

#[test]
fn requests_are_answered_by_path() {
    let mut h = HealthState::new_at(0, 1000);
    let starting = r#"{"status":"starting","uptime_s":0,"active_sources":0,"events_emitted":0,"last_emit_age_s":0}"#;
    assert_eq!(
        h.serve(b"GET /healthz HTTP/1.1\r\nHost: x\r\n\r\n", 1000),
        format!("HTTP/1.1 503 Service Unavailable\r\nContent-Type: application/json\r\nContent-Length: {}\r\nConnection: close\r\n\r\n{}", starting.len(), starting)
    );
    h.mark_started(1);
    assert!(h.serve(b"GET /healthz?x=1 HTTP/1.1", 1000).starts_with("HTTP/1.1 200 OK\r\n"));
    assert!(h.serve(b"\n GET\t/healthzzz", 1000).starts_with("HTTP/1.1 200 OK\r\n"));
    let missing = "HTTP/1.1 404 Not Found\r\nContent-Type: application/json\r\nContent-Length: 22\r\nConnection: close\r\n\r\n{\"status\":\"not_found\"}";
    for request in [&b"GET / HTTP/1.1"[..], b"", b"/healthz", b"GET /health", b"GET \xff/healthz"] {
        assert_eq!(h.serve(request, 1000), missing);
    }
    assert!(h.serve(b"\xff\xfe /healthz", 1000).starts_with("HTTP/1.1 200 OK\r\n"));
    assert_eq!(h.reply("GET /metrics", 1000), missing);
}

#[test]
fn the_present_second_is_taken_from_the_clock() {
    let now = chrono::Utc::now().timestamp() as u64;
    assert!(now_epoch() - now < 5);
    let mut h = HealthState::new(300);
    assert!(h.start_epoch - now < 5);
    assert_eq!(h.last_emit_epoch, h.start_epoch);
    h.mark_started(1);
    h.last_emit_epoch = 0;
    assert!(!h.snapshot().0);
    h.record_emit();
    assert_eq!(h.events_emitted, 1);
    assert!(h.snapshot().0);
}
