use wazuh_slack::probe::{
    ProbeAction, ProbeCall, ProbeError, ProbeInput, ProbeRun, Tier, TierProbe,
};

fn begin(user: Option<&str>) -> ProbeRun {
    let (run, action) = TierProbe::run("xoxb-1".to_string(), user.map(String::from));
    assert_eq!(called(action), (ProbeCall::AuthTest, "xoxb-1".to_string()));
    run
}

fn called(action: ProbeAction) -> (ProbeCall, String) {
    match action {
        ProbeAction::Call { call, token } => (call, token),
        other => panic!("{other:?}"),
    }
}

fn reply(success: bool, body: &str) -> ProbeInput {
    ProbeInput::Reply { success, body: body.to_string() }
}

fn done(action: ProbeAction) -> TierProbe {
    match action {
        ProbeAction::Done(probe) => probe,
        other => panic!("{other:?}"),
    }
}

fn tier(auth: &str, access: &str) -> Tier {
    let mut run = begin(None);
    assert_eq!(called(run.step(reply(true, auth))), (ProbeCall::AccessLogs, "xoxb-1".to_string()));
    done(run.step(reply(true, access))).tier
}

#[test]
fn the_tier_follows_from_the_answers() {
    let auth = r#"{"ok":true,"team_id":"T1"}"#;
    let grid = r#"{"ok":true,"enterprise_id":"E1"}"#;
    let paid_only = r#"{"ok":false,"error":"paid_only"}"#;
    let other = r#"{"ok":false,"error":"not_allowed_token_type"}"#;
    let works = r#"{"ok":true,"logins":[]}"#;
    assert_eq!(tier(auth, works), Tier::Paid);
    assert_eq!(tier(auth, paid_only), Tier::Free);
    assert_eq!(tier(auth, other), Tier::Unknown);
    assert_eq!(tier(grid, works), Tier::Enterprise);
    assert_eq!(tier(grid, paid_only), Tier::Enterprise);
}

#[test]
fn the_user_token_opens_the_logs() {
    let mut run = begin(Some("xoxp-1"));
    let auth = r#"{"ok":true,"team_id":"T1","user_id":"U1","enterprise_id":"E1"}"#;
    assert_eq!(called(run.step(reply(true, auth))), (ProbeCall::AccessLogs, "xoxp-1".to_string()));
    assert_eq!(
        called(run.step(reply(true, r#"{"ok":true}"#))),
        (ProbeCall::AuditSchemas, "xoxp-1".to_string())
    );
    let probe = done(run.step(reply(true, "whatever")));
    assert_eq!(probe.tier, Tier::Enterprise);
    assert_eq!(probe.user_id.as_deref(), Some("U1"));
    assert!(probe.access_logs_available);
    assert!(probe.audit_logs_available);
    let summary = probe.log_summary();
    assert_eq!(summary.tier, "Enterprise");
    assert_eq!(summary.team_id, "T1");
    assert_eq!(summary.enterprise_id, "E1");
    assert!(summary.access_logs && summary.audit_logs);
}

#[test]
fn audit_logs_are_unavailable_unless_they_answer() {
    for input in [reply(false, "{}"), ProbeInput::Unreachable] {
        let mut run = begin(Some("xoxp-1"));
        run.step(reply(true, r#"{"ok":true}"#));
        run.step(reply(true, r#"{"ok":false}"#));
        let probe = done(run.step(input));
        assert!(!probe.audit_logs_available);
        assert!(!probe.access_logs_available);
        let summary = probe.log_summary();
        assert_eq!(summary.tier, "Unknown");
        assert_eq!(summary.team_id, "?");
        assert_eq!(summary.enterprise_id, "-");
    }
}

#[test]
fn every_probe_failure_has_its_error() {
    let failed = |action: ProbeAction| match action {
        ProbeAction::Fail(error) => error,
        other => panic!("{other:?}"),
    };
    match failed(begin(None).step(reply(true, r#"{ "ok": false, "error": "invalid_auth" }"#))) {
        ProbeError::AuthFailed(text) => {
            assert_eq!(text, "{\"error\":\"invalid_auth\",\"ok\":false}")
        }
        other => panic!("{other:?}"),
    }
    assert!(matches!(failed(begin(None).step(reply(true, "x"))), ProbeError::InvalidBody));
    assert!(matches!(failed(begin(None).step(ProbeInput::Unreachable)), ProbeError::Unreachable));
    let mut run = begin(None);
    run.step(reply(true, r#"{"ok":true}"#));
    assert!(matches!(failed(run.step(reply(true, "x"))), ProbeError::InvalidBody));
    let mut run = begin(None);
    run.step(reply(true, r#"{"ok":true}"#));
    assert!(matches!(failed(run.step(ProbeInput::Unreachable)), ProbeError::Unreachable));
}
