use wazuh_slack::backoff::Backoff;
use wazuh_slack::cli::{Cli, CliStep};
use wazuh_slack::clock::Timestamp;
use wazuh_slack::config::{
    default_socket_path, Config, EventsMode, FiltersConfig, JsonFileSinkConfig,
    ObservabilityConfig, SinkConfig, SlackConfig, SourcesConfig, SpoolConfig, StateConfig,
    TokenRotationConfig, UnixSocketSinkConfig, DEFAULT_BACKFILL_DAYS, DEFAULT_POLL_SECONDS, DEFAULT_REFRESH_SECONDS,
    DEFAULT_ROTATE_MB, DEFAULT_SPOOL_MB,
};
use wazuh_slack::event::{NormalizedEvent, Severity, SlackPayload, SourceTag};
use wazuh_slack::filter::{FilterRule, MatchOp};
use wazuh_slack::json::Json;
use wazuh_slack::probe::{Tier, TierProbe};
use wazuh_slack::source::SourceKind;
use wazuh_slack::string_map::StringMap;
use wazuh_slack::supervisor::{
    build_filter, build_sink, build_sources, dispatch, health_stale_window, longest_poll_seconds,
    on_source_exit, plan_start, Counter, Outcome, PlannedSource, Restart, SinkPlan, SkipReason, SourceExit,
};

fn config() -> Config {
    Config {
        slack: SlackConfig {
            token_bot: Some("xoxb-1".to_string()),
            token_user: Some("xoxp-1".to_string()),
            token_app: Some("xapp-1".to_string()),
            org_id: None,
            backfill_days: 90,
            rotation: None,
            sources: SourcesConfig::default(),
        },
        filters: FiltersConfig::default(),
        severity_map: StringMap::new(),
        sink: SinkConfig::Stdout,
        state: StateConfig::default(),
        observability: ObservabilityConfig::default(),
    }
}

fn all_on() -> Config {
    let mut cfg = config();
    cfg.slack.sources.events.enabled = true;
    cfg.slack.sources.audit.enabled = true;
    cfg.slack.sources.access_logs.enabled = true;
    cfg.slack.sources.web_inventory.enabled = true;
    cfg
}

fn probe(tier: Tier, access: bool, audit: bool) -> TierProbe {
    TierProbe {
        tier,
        team_id: None,
        enterprise_id: None,
        user_id: None,
        access_logs_available: access,
        audit_logs_available: audit,
    }
}

#[test]
fn what_is_not_set_has_a_default() {
    let sources = SourcesConfig::default();
    assert!(!sources.audit.enabled && !sources.events.enabled);
    assert_eq!(sources.access_logs.poll_seconds, 60);
    assert_eq!(sources.events.mode, EventsMode::Socket);
    assert_eq!(StateConfig::default().sqlite_path, "./state.db");
    let observability = ObservabilityConfig::default();
    assert_eq!(observability.log_level, "info");
    assert!(observability.prometheus_bind.is_none() && observability.health_bind.is_none());
    assert_eq!(default_socket_path(), "/var/ossec/queue/sockets/queue");
    assert_eq!(
        (DEFAULT_BACKFILL_DAYS, DEFAULT_POLL_SECONDS, DEFAULT_REFRESH_SECONDS),
        (90, 60, 39_600)
    );
    assert_eq!((DEFAULT_ROTATE_MB, DEFAULT_SPOOL_MB), (100, 500));
    let cli = Cli::default();
    assert_eq!(cli.config, "config/wazuh-slack.yaml");
    assert_eq!(cli.after_load(), CliStep::Run);
    assert_eq!(Cli { check: true, ..cli }.after_load(), CliStep::ReportOk);
}

#[test]
fn the_start_follows_the_configuration() {
    let mut cfg = all_on();
    cfg.observability.health_bind = Some("0.0.0.0:8080".to_string());
    let plan = plan_start(&cfg);
    assert!(plan.metrics_bind.is_none());
    assert_eq!(plan.health_bind.as_deref(), Some("0.0.0.0:8080"));
    assert!(!plan.rotation_ignored);
    assert!(matches!(plan.sink, SinkPlan::Stdout));
    assert_eq!(plan.state_path, "./state.db");
    assert_eq!(plan.stale_after_s, 300);
    let tokens = plan.probe.unwrap();
    assert_eq!((tokens.bot.as_str(), tokens.user.as_deref()), ("xoxb-1", Some("xoxp-1")));
    cfg.slack.token_bot = None;
    cfg.slack.rotation = Some(TokenRotationConfig {
        client_id: "c".to_string(),
        client_secret: "s".to_string(),
        refresh_token: "r".to_string(),
        refresh_seconds: DEFAULT_REFRESH_SECONDS,
    });
    let plan = plan_start(&cfg);
    assert!(plan.probe.is_none());
    assert!(plan.rotation_ignored);
}

#[test]
fn a_poll_without_an_interval_has_the_shortest_stale_window() {
    let mut cfg = config();
    cfg.slack.sources.audit.enabled = true;
    cfg.slack.sources.audit.poll_seconds = 0;
    assert_eq!(longest_poll_seconds(&cfg), 0);
    assert_eq!(health_stale_window(&cfg), 300);
    assert_eq!(plan_start(&cfg).stale_after_s, 300);
    cfg.slack.sources.audit.enabled = false;
    cfg.slack.sources.access_logs.poll_seconds = 0;
    cfg.slack.sources.access_logs.enabled = true;
    assert_eq!(health_stale_window(&cfg), 300);
    cfg.slack.sources.access_logs.enabled = false;
    cfg.slack.sources.web_inventory.poll_seconds = 0;
    cfg.slack.sources.web_inventory.enabled = true;
    assert_eq!(health_stale_window(&cfg), 300);
    cfg.slack.sources.web_inventory.enabled = false;
    assert_eq!(health_stale_window(&cfg), 0);
}

#[test]
fn the_stale_window_is_three_polls() {
    let mut cfg = config();
    assert_eq!(health_stale_window(&cfg), 0);
    cfg.slack.sources.events.enabled = true;
    assert_eq!(health_stale_window(&cfg), 0);
    cfg.slack.sources.audit.enabled = true;
    assert_eq!(health_stale_window(&cfg), 300);
    cfg.slack.sources.access_logs.enabled = true;
    cfg.slack.sources.access_logs.poll_seconds = 101;
    assert_eq!(longest_poll_seconds(&cfg), 101);
    assert_eq!(health_stale_window(&cfg), 303);
    cfg.slack.sources.web_inventory.poll_seconds = 9000;
    assert_eq!(health_stale_window(&cfg), 303);
    cfg.slack.sources.web_inventory.enabled = true;
    assert_eq!(health_stale_window(&cfg), 27_000);
}

#[test]
fn every_source_runs_where_it_can() {
    let plan = build_sources(&all_on(), &None);
    assert!(plan.skipped.is_empty());
    let kinds: Vec<SourceKind> = plan.sources.iter().map(|s| s.kind()).collect();
    assert_eq!(
        kinds,
        [SourceKind::Events, SourceKind::Audit, SourceKind::AccessLogs, SourceKind::WebInventory]
    );
    match &plan.sources[0] {
        PlannedSource::Events(s) => assert_eq!(s.app_token, "xapp-1"),
        _ => unreachable!(),
    }
    match &plan.sources[1] {
        PlannedSource::Audit(s) => {
            assert_eq!((s.user_token.as_str(), s.poll_seconds, s.backfill_days), ("xoxp-1", 60, 90))
        }
        _ => unreachable!(),
    }
    match &plan.sources[2] {
        PlannedSource::AccessLogs(s) => {
            assert_eq!((s.user_token.as_str(), s.poll_seconds, s.backfill_days), ("xoxp-1", 60, 90))
        }
        _ => unreachable!(),
    }
    match &plan.sources[3] {
        PlannedSource::WebInventory(s) => {
            assert_eq!((s.bot_token.as_str(), s.poll_seconds), ("xoxb-1", 300))
        }
        _ => unreachable!(),
    }
    assert!(build_sources(&config(), &None).sources.is_empty());
}

#[test]
fn sources_poll_no_faster_than_they_may() {
    let mut cfg = all_on();
    cfg.slack.sources.audit.poll_seconds = 1;
    cfg.slack.sources.access_logs.poll_seconds = 1;
    cfg.slack.sources.web_inventory.poll_seconds = 301;
    let plan = build_sources(&cfg, &Some(probe(Tier::Enterprise, true, true)));
    let mut intervals = Vec::new();
    for source in &plan.sources {
        match source {
            PlannedSource::Audit(s) => intervals.push(s.poll_seconds),
            PlannedSource::AccessLogs(s) => intervals.push(s.poll_seconds),
            PlannedSource::WebInventory(s) => intervals.push(s.poll_seconds),
            PlannedSource::Events(_) => {}
        }
    }
    assert_eq!(intervals, [15, 60, 301]);
}

#[test]
fn a_source_without_its_token_is_skipped() {
    let mut cfg = all_on();
    cfg.slack.token_bot = None;
    cfg.slack.token_user = None;
    let plan = build_sources(&cfg, &Some(probe(Tier::Free, false, false)));
    assert!(plan.sources.is_empty());
    assert_eq!(
        plan.skipped,
        [
            SkipReason::EventsTokens,
            SkipReason::AuditToken,
            SkipReason::AccessLogsToken,
            SkipReason::InventoryToken
        ]
    );
    assert_eq!(plan.skipped[1].message(), "audit enabled but token_user (xoxp-) missing");
}

#[test]
fn a_source_that_the_probe_misses_is_skipped() {
    let reasons = |p: TierProbe| build_sources(&all_on(), &Some(p)).skipped;
    assert_eq!(
        reasons(probe(Tier::Free, false, false)),
        [SkipReason::AuditUnavailable, SkipReason::AccessLogsFreeTier]
    );
    assert_eq!(reasons(probe(Tier::Enterprise, false, true)), [SkipReason::AccessLogsUnavailable]);
    assert!(reasons(probe(Tier::Paid, true, true)).is_empty());
}

#[test]
fn the_sink_follows_the_configuration() {
    assert!(matches!(build_sink(&SinkConfig::Stdout), SinkPlan::Stdout));
    let file = JsonFileSinkConfig { path: "e.ndjson".to_string(), rotate_mb: 7 };
    match build_sink(&SinkConfig::JsonFile(file)) {
        SinkPlan::JsonFile { path, rotate_mb } => {
            assert_eq!((path.as_str(), rotate_mb), ("e.ndjson", 7))
        }
        other => panic!("{other:?}"),
    }
    let spool = SpoolConfig { dir: "/spool".to_string(), max_mb: 5 };
    let socket = UnixSocketSinkConfig { path: "/q".to_string(), spool: Some(spool) };
    match build_sink(&SinkConfig::UnixSocket(socket)) {
        SinkPlan::UnixSocket { path, spool_dir, spool_max_mb } => {
            assert_eq!((path.as_str(), spool_dir.as_deref(), spool_max_mb), ("/q", Some("/spool"), 5))
        }
        other => panic!("{other:?}"),
    }
    let bare = UnixSocketSinkConfig { path: "/q".to_string(), spool: None };
    match build_sink(&SinkConfig::UnixSocket(bare)) {
        SinkPlan::UnixSocket { spool_dir, spool_max_mb, .. } => {
            assert!(spool_dir.is_none());
            assert_eq!(spool_max_mb, 0);
        }
        other => panic!("{other:?}"),
    }
}

fn event(source: SourceTag, action: &str) -> NormalizedEvent {
    NormalizedEvent {
        timestamp: Timestamp::from_epoch(0).unwrap(),
        slack: SlackPayload {
            source,
            action: action.to_string(),
            event_id: "Ev1".to_string(),
            actor: None,
            entity: None,
            context: None,
        },
        severity: Severity::Info,
        raw: Json::Null,
    }
}

fn on_action(action: &str) -> FilterRule {
    FilterRule {
        field: "slack.action".to_string(),
        op: MatchOp::Eq(Json::Str(action.to_string())),
    }
}

#[test]
fn the_filter_follows_the_configuration() {
    let mut cfg = config();
    cfg.filters.drop = vec![on_action("noise")];
    cfg.filters.audit.allow = vec![on_action("user_login")];
    cfg.filters.web_inventory.allow = vec![on_action("snap")];
    cfg.severity_map = StringMap::new().with("user_login".to_string(), Severity::High);
    let engine = build_filter(&cfg);
    let passes = |source, action: &str| engine.evaluate(event(source, action)).is_some();
    assert!(!passes(SourceTag::Events, "noise"));
    assert!(passes(SourceTag::Events, "anything"));
    assert!(passes(SourceTag::AccessLogs, "anything"));
    assert!(!passes(SourceTag::Audit, "anything"));
    assert!(!passes(SourceTag::WebInventory, "anything"));
    let out = engine.evaluate(event(SourceTag::Audit, "user_login")).unwrap();
    assert_eq!(out.severity, Severity::High);
    let taken = dispatch(&engine, event(SourceTag::AccessLogs, "noise"));
    assert_eq!(taken.label, "accesslogs");
    assert!(taken.passed.is_none());
    assert!(dispatch(&engine, event(SourceTag::AccessLogs, "x")).passed.is_some());
}

#[test]
fn an_event_is_counted_by_how_it_ended() {
    let emitted = Outcome::Emitted.settle();
    assert_eq!(emitted.counter.name(), "wsc_events_emitted_total");
    assert!(emitted.accepted && emitted.delivered && emitted.labelled);
    let filtered = Outcome::Filtered.settle();
    assert_eq!(filtered.counter.name(), "wsc_events_filtered_total");
    assert!(filtered.accepted && !filtered.delivered);
    let failed = Outcome::SinkFailed.settle();
    assert_eq!(failed.counter.name(), "wsc_sink_errors_total");
    assert!(!failed.accepted && !failed.delivered && !failed.labelled);
    assert_eq!(Counter::Received.name(), "wsc_events_received_total");
}

#[test]
fn a_source_that_dies_is_started_again() {
    let mut backoff = Backoff::new();
    assert_eq!(on_source_exit(&mut backoff, SourceExit::Died), Restart::After(1));
    assert_eq!(on_source_exit(&mut backoff, SourceExit::Died), Restart::After(2));
    assert_eq!(on_source_exit(&mut backoff, SourceExit::Clean), Restart::Leave);
    assert_eq!(on_source_exit(&mut backoff, SourceExit::Died), Restart::After(4));
}
