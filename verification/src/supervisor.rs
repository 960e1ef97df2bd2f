//! The supervisor: what a configuration amounts to, what becomes of an event,
//! and when a source is started again.

use crate::access_logs::AccessLogsPoller;
use crate::audit::{AuditPoller, DEDUP_CAPACITY};
use crate::backoff::{doubled, Backoff};
use crate::config::{Config, SinkConfig, SourcesConfig};
use crate::dedup::{empty_cache, DedupView};
use crate::event::{
    law_sources_are_told_apart, source_label, EventView, NormalizedEvent, SourceTag,
};
use crate::events_socket::EventsSocketSource;
use crate::filter::{
    any_matches, copy_rules, rules_view, verdict, with_severity, EngineView, FilterEngine,
    FilterRule, RuleView,
};
use crate::json::{copy_text, opt_text};
use crate::probe::{Tier, TierProbe};
use crate::source::SourceKind;
use crate::string_map::StringMap;
use crate::web_inventory::WebInventoryPoller;
use vstd::prelude::*;

verus! {

/// Events that the channel between the sources and the dispatcher holds.
pub const CHANNEL_CAPACITY: usize = 10_000;

/// The seconds of the shortest stale window.
pub const SHORTEST_STALE_WINDOW: u64 = 300;

// ---------------------------------------------------------------------------
// The stale window
// ---------------------------------------------------------------------------

pub open spec fn larger(a: int, b: int) -> int {
    if a >= b {
        a
    } else {
        b
    }
}

/// The seconds between two polls of a source, or 0 where it is off.
pub open spec fn cadence(enabled: bool, poll_seconds: u64) -> int {
    if enabled {
        poll_seconds as int
    } else {
        0
    }
}

/// The longest interval of the sources that poll and are on; 0 where none is.
pub open spec fn longest_poll(cfg: Config) -> int {
    let s = cfg.slack.sources;
    larger(
        cadence(s.audit.enabled, s.audit.poll_seconds),
        larger(
            cadence(s.access_logs.enabled, s.access_logs.poll_seconds),
            cadence(s.web_inventory.enabled, s.web_inventory.poll_seconds),
        ),
    )
}

/// A source that polls is on.
pub open spec fn has_poll_source(cfg: Config) -> bool {
    let s = cfg.slack.sources;
    s.audit.enabled || s.access_logs.enabled || s.web_inventory.enabled
}

/// Three times the longest interval, and no less than the shortest window; 0
/// where no source polls.
pub open spec fn stale_window(cfg: Config) -> int {
    if has_poll_source(cfg) {
        larger(3 * longest_poll(cfg), SHORTEST_STALE_WINDOW as int)
    } else {
        0
    }
}

fn larger_of(a: u64, b: u64) -> (n: u64)
    ensures
        n == larger(a as int, b as int),
{
    if a >= b {
        a
    } else {
        b
    }
}

/// The longest interval of the sources that poll and are on; 0 where none is.
pub fn longest_poll_seconds(cfg: &Config) -> (longest: u64)
    ensures
        longest == longest_poll(*cfg),
{
    let mut longest: u64 = 0;
    if cfg.slack.sources.audit.enabled {
        longest = larger_of(longest, cfg.slack.sources.audit.poll_seconds);
    }
    if cfg.slack.sources.access_logs.enabled {
        longest = larger_of(longest, cfg.slack.sources.access_logs.poll_seconds);
    }
    if cfg.slack.sources.web_inventory.enabled {
        longest = larger_of(longest, cfg.slack.sources.web_inventory.poll_seconds);
    }
    longest
}

/// The seconds without an event after which the connector is stale; 0 for never.
pub fn health_stale_window(cfg: &Config) -> (window: u64)
    requires
        3 * longest_poll(*cfg) <= u64::MAX,
    ensures
        window == stale_window(*cfg),
{
    let sources: &SourcesConfig = &cfg.slack.sources;
    if sources.audit.enabled || sources.access_logs.enabled || sources.web_inventory.enabled {
        larger_of(longest_poll_seconds(cfg) * 3, SHORTEST_STALE_WINDOW)
    } else {
        0
    }
}

// ---------------------------------------------------------------------------
// The filter
// ---------------------------------------------------------------------------

/// An allow-list with rules is entered; one without is not.
pub open spec fn with_allow(
    allow: Map<Seq<char>, Seq<RuleView>>,
    key: Seq<char>,
    rules: Seq<RuleView>,
) -> Map<Seq<char>, Seq<RuleView>> {
    if rules.len() > 0 {
        allow.insert(key, rules)
    } else {
        allow
    }
}

/// The filter of a configuration.
pub open spec fn engine_of(cfg: Config) -> EngineView {
    EngineView {
        drop: rules_view(cfg.filters.drop@),
        allow: with_allow(
            with_allow(
                with_allow(
                    with_allow(Map::empty(), "audit"@, rules_view(cfg.filters.audit.allow@)),
                    "events"@,
                    rules_view(cfg.filters.events.allow@),
                ),
                "accesslogs"@,
                rules_view(cfg.filters.access_logs.allow@),
            ),
            "webinventory"@,
            rules_view(cfg.filters.web_inventory.allow@),
        ),
        severity: cfg.severity_map@,
    }
}

/// The rules of every list.
pub open spec fn allow_view(allow: Map<Seq<char>, Vec<FilterRule>>) -> Map<
    Seq<char>,
    Seq<RuleView>,
> {
    allow.map_values(|rules: Vec<FilterRule>| rules_view(rules@))
}

fn insert_allow(allow: StringMap<Vec<FilterRule>>, key: &str, rules: &Vec<FilterRule>) -> (with:
    StringMap<Vec<FilterRule>>)
    ensures
        allow_view(with@) == with_allow(allow_view(allow@), key@, rules_view(rules@)),
{
    if rules.len() > 0 {
        let ghost held = allow@;
        let with: StringMap<Vec<FilterRule>> = allow.with(key.to_owned(), copy_rules(rules));
        assert(allow_view(with@) =~= allow_view(held).insert(key@, rules_view(rules@)));
        with
    } else {
        allow
    }
}

/// The filter of a configuration.
pub fn build_filter(cfg: &Config) -> (engine: FilterEngine)
    ensures
        engine@ == engine_of(*cfg),
{
    let allow: StringMap<Vec<FilterRule>> = StringMap::new();
    assert(allow_view(allow@) =~= Map::<Seq<char>, Seq<RuleView>>::empty());
    let allow: StringMap<Vec<FilterRule>> = insert_allow(allow, "audit", &cfg.filters.audit.allow);
    let allow: StringMap<Vec<FilterRule>> = insert_allow(
        allow,
        "events",
        &cfg.filters.events.allow,
    );
    let allow: StringMap<Vec<FilterRule>> = insert_allow(
        allow,
        "accesslogs",
        &cfg.filters.access_logs.allow,
    );
    let allow: StringMap<Vec<FilterRule>> = insert_allow(
        allow,
        "webinventory",
        &cfg.filters.web_inventory.allow,
    );
    FilterEngine {
        global_drop: copy_rules(&cfg.filters.drop),
        per_source_allow: allow,
        severity_map: cfg.severity_map.copied(),
    }
}

// ---------------------------------------------------------------------------
// The sources
// ---------------------------------------------------------------------------

/// A source that is to run.
pub enum PlannedSource {
    Events(EventsSocketSource),
    Audit(AuditPoller),
    AccessLogs(AccessLogsPoller),
    WebInventory(WebInventoryPoller),
}

pub enum PlannedView {
    Events { app_token: Seq<char>, dedup_capacity: int },
    Audit { user_token: Seq<char>, poll_seconds: int, backfill_days: int, dedup: DedupView },
    AccessLogs { user_token: Seq<char>, poll_seconds: int, backfill_days: int },
    WebInventory { bot_token: Seq<char>, poll_seconds: int },
}

impl View for PlannedSource {
    type V = PlannedView;

    open spec fn view(&self) -> PlannedView {
        match self {
            PlannedSource::Events(s) => PlannedView::Events {
                app_token: s.app_token@,
                dedup_capacity: s.dedup_capacity as int,
            },
            PlannedSource::Audit(s) => PlannedView::Audit {
                user_token: s.user_token@,
                poll_seconds: s.poll_seconds as int,
                backfill_days: s.backfill_days as int,
                dedup: s.dedup@,
            },
            PlannedSource::AccessLogs(s) => PlannedView::AccessLogs {
                user_token: s.user_token@,
                poll_seconds: s.poll_seconds as int,
                backfill_days: s.backfill_days as int,
            },
            PlannedSource::WebInventory(s) => PlannedView::WebInventory {
                bot_token: s.bot_token@,
                poll_seconds: s.poll_seconds as int,
            },
        }
    }
}

impl PlannedSource {
    /// The kind of the source.
    pub fn kind(&self) -> (kind: SourceKind)
        ensures
            kind == (match self {
                PlannedSource::Events(_) => SourceKind::Events,
                PlannedSource::Audit(_) => SourceKind::Audit,
                PlannedSource::AccessLogs(_) => SourceKind::AccessLogs,
                PlannedSource::WebInventory(_) => SourceKind::WebInventory,
            }),
    {
        match self {
            PlannedSource::Events(_) => SourceKind::Events,
            PlannedSource::Audit(_) => SourceKind::Audit,
            PlannedSource::AccessLogs(_) => SourceKind::AccessLogs,
            PlannedSource::WebInventory(_) => SourceKind::WebInventory,
        }
    }
}

/// Why a source that is on does not run.
#[derive(Debug, Clone, Copy, PartialEq, Eq, Structural)]
pub enum SkipReason {
    /// The events source lacks the app token or the bot token.
    EventsTokens,
    /// The audit source lacks the user token.
    AuditToken,
    /// The probe found no Audit Logs API.
    AuditUnavailable,
    /// The access-log source lacks the user token.
    AccessLogsToken,
    /// The workspace is free, and `team.accessLogs` is not.
    AccessLogsFreeTier,
    /// The probe found no access to `team.accessLogs`.
    AccessLogsUnavailable,
    /// The inventory source lacks the bot token.
    InventoryToken,
}

pub open spec fn skip_text(reason: SkipReason) -> Seq<char> {
    match reason {
        SkipReason::EventsTokens => "events enabled but token_app or token_bot missing"@,
        SkipReason::AuditToken => "audit enabled but token_user (xoxp-) missing"@,
        SkipReason::AuditUnavailable =>
            "audit enabled but probe reports it unavailable on this tier"@,
        SkipReason::AccessLogsToken => "access_logs enabled but token_user (xoxp-) missing"@,
        SkipReason::AccessLogsFreeTier => "access_logs unavailable on Free tier"@,
        SkipReason::AccessLogsUnavailable => "access_logs unavailable on this workspace"@,
        SkipReason::InventoryToken => "web_inventory enabled but token_bot missing"@,
    }
}

impl SkipReason {
    /// The message for the operator.
    pub fn message(&self) -> (text: &'static str)
        ensures
            text@ == skip_text(*self),
    {
        match self {
            SkipReason::EventsTokens => "events enabled but token_app or token_bot missing",
            SkipReason::AuditToken => "audit enabled but token_user (xoxp-) missing",
            SkipReason::AuditUnavailable =>
                "audit enabled but probe reports it unavailable on this tier",
            SkipReason::AccessLogsToken => "access_logs enabled but token_user (xoxp-) missing",
            SkipReason::AccessLogsFreeTier => "access_logs unavailable on Free tier",
            SkipReason::AccessLogsUnavailable => "access_logs unavailable on this workspace",
            SkipReason::InventoryToken => "web_inventory enabled but token_bot missing",
        }
    }
}

/// The sources that run, and why others do not.
pub struct SourcePlan {
    pub sources: Vec<PlannedSource>,
    pub skipped: Vec<SkipReason>,
}

/// What becomes of one source: it runs, it is skipped, or it is off.
pub enum Decision {
    Run(PlannedView),
    Skip(SkipReason),
    Off,
}

pub open spec fn events_decision(cfg: Config) -> Decision {
    if !cfg.slack.sources.events.enabled {
        Decision::Off
    } else {
        match (cfg.slack.token_app, cfg.slack.token_bot) {
            (Some(app), Some(_)) => Decision::Run(
                PlannedView::Events { app_token: app@, dedup_capacity: 10_000 },
            ),
            _ => Decision::Skip(SkipReason::EventsTokens),
        }
    }
}

/// A source is taken to be available where there was no probe.
pub open spec fn audit_decision(cfg: Config, probe: Option<TierProbe>) -> Decision {
    if !cfg.slack.sources.audit.enabled {
        Decision::Off
    } else {
        match cfg.slack.token_user {
            None => Decision::Skip(SkipReason::AuditToken),
            Some(token) => if probe is Some && !(probe->0).audit_logs_available {
                Decision::Skip(SkipReason::AuditUnavailable)
            } else {
                Decision::Run(
                    PlannedView::Audit {
                        user_token: token@,
                        poll_seconds: larger(
                            cfg.slack.sources.audit.poll_seconds as int,
                            AUDIT_SHORTEST_POLL as int,
                        ),
                        backfill_days: cfg.slack.backfill_days as int,
                        dedup: empty_cache(DEDUP_CAPACITY as nat),
                    },
                )
            },
        }
    }
}

pub open spec fn access_decision(cfg: Config, probe: Option<TierProbe>) -> Decision {
    if !cfg.slack.sources.access_logs.enabled {
        Decision::Off
    } else {
        match cfg.slack.token_user {
            None => Decision::Skip(SkipReason::AccessLogsToken),
            Some(token) => if probe is Some && !(probe->0).access_logs_available {
                if (probe->0).tier == Tier::Free {
                    Decision::Skip(SkipReason::AccessLogsFreeTier)
                } else {
                    Decision::Skip(SkipReason::AccessLogsUnavailable)
                }
            } else {
                Decision::Run(
                    PlannedView::AccessLogs {
                        user_token: token@,
                        poll_seconds: larger(
                            cfg.slack.sources.access_logs.poll_seconds as int,
                            ACCESS_SHORTEST_POLL as int,
                        ),
                        backfill_days: cfg.slack.backfill_days as int,
                    },
                )
            },
        }
    }
}

pub open spec fn inventory_decision(cfg: Config) -> Decision {
    if !cfg.slack.sources.web_inventory.enabled {
        Decision::Off
    } else {
        match cfg.slack.token_bot {
            Some(token) => Decision::Run(
                PlannedView::WebInventory {
                    bot_token: token@,
                    poll_seconds: larger(
                        cfg.slack.sources.web_inventory.poll_seconds as int,
                        INVENTORY_SHORTEST_POLL as int,
                    ),
                },
            ),
            None => Decision::Skip(SkipReason::InventoryToken),
        }
    }
}

/// Seconds between two audit polls, at least.
pub const AUDIT_SHORTEST_POLL: u64 = 15;

/// Seconds between two access-log polls, at least.
pub const ACCESS_SHORTEST_POLL: u64 = 60;

/// Seconds between two snapshots, at least.
pub const INVENTORY_SHORTEST_POLL: u64 = 300;

/// The decisions in the order of the sources.
pub open spec fn decisions(cfg: Config, probe: Option<TierProbe>) -> Seq<Decision> {
    seq![
        events_decision(cfg),
        audit_decision(cfg, probe),
        access_decision(cfg, probe),
        inventory_decision(cfg),
    ]
}

/// The sources that run by these decisions.
pub open spec fn running(list: Seq<Decision>) -> Seq<PlannedView>
    decreases list.len(),
{
    if list.len() == 0 {
        seq![]
    } else {
        match list.last() {
            Decision::Run(source) => running(list.drop_last()).push(source),
            _ => running(list.drop_last()),
        }
    }
}

/// The reasons for the sources that are skipped by these decisions.
pub open spec fn skips(list: Seq<Decision>) -> Seq<SkipReason>
    decreases list.len(),
{
    if list.len() == 0 {
        seq![]
    } else {
        match list.last() {
            Decision::Skip(reason) => skips(list.drop_last()).push(reason),
            _ => skips(list.drop_last()),
        }
    }
}

pub open spec fn planned(list: Seq<PlannedSource>) -> Seq<PlannedView> {
    list.map_values(|s: PlannedSource| s@)
}

/// The plan carries out these decisions.
pub open spec fn carries_out(plan: SourcePlan, list: Seq<Decision>) -> bool {
    &&& planned(plan.sources@) == running(list)
    &&& plan.skipped@ == skips(list)
}

proof fn lemma_one_more_decision(list: Seq<Decision>, d: Decision)
    ensures
        running(list.push(d)) == (match d {
            Decision::Run(source) => running(list).push(source),
            _ => running(list),
        }),
        skips(list.push(d)) == (match d {
            Decision::Skip(reason) => skips(list).push(reason),
            _ => skips(list),
        }),
{
    assert(list.push(d).drop_last() =~= list);
}

impl SourcePlan {
    fn run(&mut self, source: PlannedSource, Ghost(list): Ghost<Seq<Decision>>)
        requires
            carries_out(*old(self), list),
        ensures
            carries_out(*final(self), list.push(Decision::Run(source@))),
    {
        let ghost held = self.sources@;
        self.sources.push(source);
        proof {
            lemma_one_more_decision(list, Decision::Run(source@));
            assert(planned(self.sources@) =~= planned(held).push(source@));
        }
    }

    fn skip(&mut self, reason: SkipReason, Ghost(list): Ghost<Seq<Decision>>)
        requires
            carries_out(*old(self), list),
        ensures
            carries_out(*final(self), list.push(Decision::Skip(reason))),
    {
        self.skipped.push(reason);
        proof {
            lemma_one_more_decision(list, Decision::Skip(reason));
        }
    }

    fn plan_events(&mut self, cfg: &Config, Ghost(list): Ghost<Seq<Decision>>)
        requires
            carries_out(*old(self), list),
        ensures
            carries_out(*final(self), list.push(events_decision(*cfg))),
    {
        proof {
            lemma_one_more_decision(list, Decision::Off);
        }
        if cfg.slack.sources.events.enabled {
            match (&cfg.slack.token_app, &cfg.slack.token_bot) {
                (Some(app), Some(bot)) => {
                    let source: EventsSocketSource = EventsSocketSource::new(
                        app.clone(),
                        bot.clone(),
                    );
                    self.run(PlannedSource::Events(source), Ghost(list));
                },
                _ => {
                    self.skip(SkipReason::EventsTokens, Ghost(list));
                },
            }
        }
    }

    fn plan_audit(
        &mut self,
        cfg: &Config,
        probe: &Option<TierProbe>,
        Ghost(list): Ghost<Seq<Decision>>,
    )
        requires
            carries_out(*old(self), list),
        ensures
            carries_out(*final(self), list.push(audit_decision(*cfg, *probe))),
    {
        proof {
            lemma_one_more_decision(list, Decision::Off);
        }
        if cfg.slack.sources.audit.enabled {
            let available: bool = match probe {
                Some(p) => p.audit_logs_available,
                None => true,
            };
            match &cfg.slack.token_user {
                None => {
                    self.skip(SkipReason::AuditToken, Ghost(list));
                },
                Some(token) => {
                    if available {
                        let source: AuditPoller = AuditPoller::with_backfill(
                            token.clone(),
                            larger_of(cfg.slack.sources.audit.poll_seconds, AUDIT_SHORTEST_POLL),
                            cfg.slack.backfill_days,
                        );
                        self.run(PlannedSource::Audit(source), Ghost(list));
                    } else {
                        self.skip(SkipReason::AuditUnavailable, Ghost(list));
                    }
                },
            }
        }
    }

    fn plan_access_logs(
        &mut self,
        cfg: &Config,
        probe: &Option<TierProbe>,
        Ghost(list): Ghost<Seq<Decision>>,
    )
        requires
            carries_out(*old(self), list),
        ensures
            carries_out(*final(self), list.push(access_decision(*cfg, *probe))),
    {
        proof {
            lemma_one_more_decision(list, Decision::Off);
        }
        if cfg.slack.sources.access_logs.enabled {
            let (available, free): (bool, bool) = match probe {
                Some(p) => (p.access_logs_available, p.tier == Tier::Free),
                None => (true, false),
            };
            match &cfg.slack.token_user {
                None => {
                    self.skip(SkipReason::AccessLogsToken, Ghost(list));
                },
                Some(token) => {
                    if available {
                        let source: AccessLogsPoller = AccessLogsPoller::with_backfill(
                            token.clone(),
                            larger_of(
                                cfg.slack.sources.access_logs.poll_seconds,
                                ACCESS_SHORTEST_POLL,
                            ),
                            cfg.slack.backfill_days,
                        );
                        self.run(PlannedSource::AccessLogs(source), Ghost(list));
                    } else if free {
                        self.skip(SkipReason::AccessLogsFreeTier, Ghost(list));
                    } else {
                        self.skip(SkipReason::AccessLogsUnavailable, Ghost(list));
                    }
                },
            }
        }
    }

    fn plan_inventory(&mut self, cfg: &Config, Ghost(list): Ghost<Seq<Decision>>)
        requires
            carries_out(*old(self), list),
        ensures
            carries_out(*final(self), list.push(inventory_decision(*cfg))),
    {
        proof {
            lemma_one_more_decision(list, Decision::Off);
        }
        if cfg.slack.sources.web_inventory.enabled {
            match &cfg.slack.token_bot {
                Some(token) => {
                    let source: WebInventoryPoller = WebInventoryPoller::new(
                        token.clone(),
                        larger_of(
                            cfg.slack.sources.web_inventory.poll_seconds,
                            INVENTORY_SHORTEST_POLL,
                        ),
                    );
                    self.run(PlannedSource::WebInventory(source), Ghost(list));
                },
                None => {
                    self.skip(SkipReason::InventoryToken, Ghost(list));
                },
            }
        }
    }
}

/// The sources of a configuration, given what the probe found where there was
/// one.
pub fn build_sources(cfg: &Config, probe: &Option<TierProbe>) -> (plan: SourcePlan)
    ensures
        carries_out(plan, decisions(*cfg, *probe)),
{
    let mut plan: SourcePlan = SourcePlan { sources: Vec::new(), skipped: Vec::new() };
    let ghost none = Seq::<Decision>::empty();
    assert(planned(plan.sources@) =~= running(none));
    assert(plan.skipped@ =~= skips(none));
    plan.plan_events(cfg, Ghost(none));
    let ghost one = none.push(events_decision(*cfg));
    plan.plan_audit(cfg, probe, Ghost(one));
    let ghost two = one.push(audit_decision(*cfg, *probe));
    plan.plan_access_logs(cfg, probe, Ghost(two));
    let ghost three = two.push(access_decision(*cfg, *probe));
    plan.plan_inventory(cfg, Ghost(three));
    assert(three.push(inventory_decision(*cfg)) =~= decisions(*cfg, *probe));
    plan
}

// ---------------------------------------------------------------------------
// The sink
// ---------------------------------------------------------------------------

/// The sink of a configuration.
#[derive(Debug)]
pub enum SinkPlan {
    Stdout,
    JsonFile { path: String, rotate_mb: u64 },
    UnixSocket { path: String, spool_dir: Option<String>, spool_max_mb: u64 },
}

pub enum SinkView {
    Stdout,
    JsonFile { path: Seq<char>, rotate_mb: int },
    UnixSocket { path: Seq<char>, spool_dir: Option<Seq<char>>, spool_max_mb: int },
}

impl View for SinkPlan {
    type V = SinkView;

    open spec fn view(&self) -> SinkView {
        match self {
            SinkPlan::Stdout => SinkView::Stdout,
            SinkPlan::JsonFile { path, rotate_mb } => SinkView::JsonFile {
                path: path@,
                rotate_mb: *rotate_mb as int,
            },
            SinkPlan::UnixSocket { path, spool_dir, spool_max_mb } => SinkView::UnixSocket {
                path: path@,
                spool_dir: opt_text(*spool_dir),
                spool_max_mb: *spool_max_mb as int,
            },
        }
    }
}

/// What a sink configuration amounts to. Without a spool its size is 0.
pub open spec fn sink_of(cfg: SinkConfig) -> SinkView {
    match cfg {
        SinkConfig::Stdout => SinkView::Stdout,
        SinkConfig::JsonFile(c) => SinkView::JsonFile {
            path: c.path@,
            rotate_mb: c.rotate_mb as int,
        },
        SinkConfig::UnixSocket(c) => match c.spool {
            Some(s) => SinkView::UnixSocket {
                path: c.path@,
                spool_dir: Some(s.dir@),
                spool_max_mb: s.max_mb as int,
            },
            None => SinkView::UnixSocket { path: c.path@, spool_dir: None, spool_max_mb: 0 },
        },
    }
}

/// The sink of a configuration.
pub fn build_sink(cfg: &SinkConfig) -> (plan: SinkPlan)
    ensures
        plan@ == sink_of(*cfg),
{
    match cfg {
        SinkConfig::Stdout => SinkPlan::Stdout,
        SinkConfig::JsonFile(c) => SinkPlan::JsonFile {
            path: c.path.clone(),
            rotate_mb: c.rotate_mb,
        },
        SinkConfig::UnixSocket(c) => match &c.spool {
            Some(s) => SinkPlan::UnixSocket {
                path: c.path.clone(),
                spool_dir: Some(s.dir.clone()),
                spool_max_mb: s.max_mb,
            },
            None => SinkPlan::UnixSocket {
                path: c.path.clone(),
                spool_dir: None,
                spool_max_mb: 0,
            },
        },
    }
}

// ---------------------------------------------------------------------------
// The start
// ---------------------------------------------------------------------------

/// The tokens that the tier probe is run with.
#[derive(Debug)]
pub struct ProbeTokens {
    pub bot: String,
    pub user: Option<String>,
}

/// What is done before the sources are built.
#[derive(Debug)]
pub struct StartPlan {
    /// Where the metrics are served, where they are.
    pub metrics_bind: Option<String>,
    /// Token rotation is configured, which is not acted upon: warn.
    pub rotation_ignored: bool,
    pub sink: SinkPlan,
    /// Where cursors are kept.
    pub state_path: String,
    /// The tokens of the tier probe; without a bot token there is none.
    pub probe: Option<ProbeTokens>,
    /// The stale window of the health endpoint.
    pub stale_after_s: u64,
    /// Where the health endpoint is served, where it is.
    pub health_bind: Option<String>,
}

/// What a configuration has done before the sources are built.
pub fn plan_start(cfg: &Config) -> (plan: StartPlan)
    requires
        3 * longest_poll(*cfg) <= u64::MAX,
    ensures
        opt_text(plan.metrics_bind) == opt_text(cfg.observability.prometheus_bind),
        plan.rotation_ignored == (cfg.slack.rotation is Some),
        plan.sink@ == sink_of(cfg.sink),
        plan.state_path@ == cfg.state.sqlite_path@,
        (match plan.probe {
            Some(tokens) => {
                &&& opt_text(cfg.slack.token_bot) == Some(tokens.bot@)
                &&& opt_text(tokens.user) == opt_text(cfg.slack.token_user)
            },
            None => cfg.slack.token_bot is None,
        }),
        plan.stale_after_s == stale_window(*cfg),
        opt_text(plan.health_bind) == opt_text(cfg.observability.health_bind),
{
    StartPlan {
        metrics_bind: copy_text(&cfg.observability.prometheus_bind),
        rotation_ignored: cfg.slack.rotation.is_some(),
        sink: build_sink(&cfg.sink),
        state_path: cfg.state.sqlite_path.clone(),
        probe: match &cfg.slack.token_bot {
            Some(bot) => Some(
                ProbeTokens { bot: bot.clone(), user: copy_text(&cfg.slack.token_user) },
            ),
            None => None,
        },
        stale_after_s: health_stale_window(cfg),
        health_bind: copy_text(&cfg.observability.health_bind),
    }
}

// ---------------------------------------------------------------------------
// The dispatcher
// ---------------------------------------------------------------------------

/// A counter of the metrics endpoint.
#[derive(Debug, Clone, Copy, PartialEq, Eq, Structural)]
pub enum Counter {
    Received,
    Filtered,
    Emitted,
    SinkErrors,
}

pub open spec fn counter_text(counter: Counter) -> Seq<char> {
    match counter {
        Counter::Received => "wsc_events_received_total"@,
        Counter::Filtered => "wsc_events_filtered_total"@,
        Counter::Emitted => "wsc_events_emitted_total"@,
        Counter::SinkErrors => "wsc_sink_errors_total"@,
    }
}

impl Counter {
    /// The name of the counter.
    pub fn name(&self) -> (name: &'static str)
        ensures
            name@ == counter_text(*self),
    {
        match self {
            Counter::Received => "wsc_events_received_total",
            Counter::Filtered => "wsc_events_filtered_total",
            Counter::Emitted => "wsc_events_emitted_total",
            Counter::SinkErrors => "wsc_sink_errors_total",
        }
    }
}

/// An event that came from a source, with the label of that source.
#[derive(Debug)]
pub struct Dispatch {
    pub label: &'static str,
    /// The event that goes to the sink; nothing where the filter dropped it.
    pub passed: Option<NormalizedEvent>,
}

/// Take an event from a source.
pub fn dispatch(engine: &FilterEngine, event: NormalizedEvent) -> (taken: Dispatch)
    ensures
        taken.label@ == source_label(event.slack.source),
        (match taken.passed {
            Some(e) => verdict(engine@, event@) == Some(e@),
            None => verdict(engine@, event@) is None,
        }),
{
    let label: &'static str = event.slack.source.label();
    Dispatch { label, passed: engine.evaluate(event) }
}

/// How an event ended.
#[derive(Debug, Clone, Copy, PartialEq, Eq, Structural)]
pub enum Outcome {
    /// The filter dropped it.
    Filtered,
    /// The sink took it.
    Emitted,
    /// The sink did not take it.
    SinkFailed,
}

/// What follows from how an event ended.
#[derive(Debug, Clone, Copy, PartialEq, Eq, Structural)]
pub struct Settled {
    /// The counter that goes up.
    pub counter: Counter,
    /// Whether the counter carries the label of the source.
    pub labelled: bool,
    /// Whether the source may go on past the event.
    pub accepted: bool,
    /// Whether the health endpoint is told of a delivery.
    pub delivered: bool,
}

pub open spec fn settled(outcome: Outcome) -> Settled {
    match outcome {
        Outcome::Filtered => Settled {
            counter: Counter::Filtered,
            labelled: true,
            accepted: true,
            delivered: false,
        },
        Outcome::Emitted => Settled {
            counter: Counter::Emitted,
            labelled: true,
            accepted: true,
            delivered: true,
        },
        Outcome::SinkFailed => Settled {
            counter: Counter::SinkErrors,
            labelled: false,
            accepted: false,
            delivered: false,
        },
    }
}

impl Outcome {
    /// What follows from how the event ended.
    pub fn settle(self) -> (after: Settled)
        ensures
            after == settled(self),
    {
        match self {
            Outcome::Filtered => Settled {
                counter: Counter::Filtered,
                labelled: true,
                accepted: true,
                delivered: false,
            },
            Outcome::Emitted => Settled {
                counter: Counter::Emitted,
                labelled: true,
                accepted: true,
                delivered: true,
            },
            Outcome::SinkFailed => Settled {
                counter: Counter::SinkErrors,
                labelled: false,
                accepted: false,
                delivered: false,
            },
        }
    }
}

// ---------------------------------------------------------------------------
// Restarts
// ---------------------------------------------------------------------------

/// How a source ended.
#[derive(Debug, Clone, Copy, PartialEq, Eq, Structural)]
pub enum SourceExit {
    /// It was asked to.
    Clean,
    /// It died.
    Died,
}

/// What to do about it.
#[derive(Debug, Clone, Copy, PartialEq, Eq, Structural)]
pub enum Restart {
    /// Leave it.
    Leave,
    /// Start it again after so many seconds.
    After(u64),
}

/// A source that died is started again, later each time; one that ended cleanly
/// is left.
pub fn on_source_exit(backoff: &mut Backoff, exit: SourceExit) -> (restart: Restart)
    ensures
        exit == SourceExit::Clean ==> restart == Restart::Leave && *final(backoff) == *old(
            backoff,
        ),
        exit == SourceExit::Died ==> {
            &&& restart == Restart::After(old(backoff).secs)
            &&& final(backoff).secs == doubled(old(backoff).secs as int)
        },
{
    match exit {
        SourceExit::Clean => Restart::Leave,
        SourceExit::Died => Restart::After(backoff.take()),
    }
}

// ---------------------------------------------------------------------------
// Laws
// ---------------------------------------------------------------------------

/// With a source that polls, the window spans at least three of its intervals
/// and the shortest window; with none there is no window.
pub proof fn law_window_spans_three_polls(cfg: Config)
    ensures
        ({
            let s = cfg.slack.sources;
            let window = stale_window(cfg);
            &&& s.audit.enabled ==> window >= 3 * s.audit.poll_seconds && window
                >= SHORTEST_STALE_WINDOW
            &&& s.access_logs.enabled ==> window >= 3 * s.access_logs.poll_seconds && window
                >= SHORTEST_STALE_WINDOW
            &&& s.web_inventory.enabled ==> window >= 3 * s.web_inventory.poll_seconds && window
                >= SHORTEST_STALE_WINDOW
            &&& window == 0 <==> !s.audit.enabled && !s.access_logs.enabled
                && !s.web_inventory.enabled
        }),
{
}

/// The rules that the configuration allows a source by.
pub open spec fn allow_of(cfg: Config, source: SourceTag) -> Seq<RuleView> {
    match source {
        SourceTag::Audit => rules_view(cfg.filters.audit.allow@),
        SourceTag::Events => rules_view(cfg.filters.events.allow@),
        SourceTag::AccessLogs => rules_view(cfg.filters.access_logs.allow@),
        SourceTag::WebInventory => rules_view(cfg.filters.web_inventory.allow@),
    }
}

/// An event goes by the rules of its own source: with none configured it passes
/// unless it is dropped, and else it passes where one of them matches.
pub proof fn law_filter_goes_by_the_source(cfg: Config, e: EventView)
    ensures
        ({
            let rated = with_severity(e, cfg.severity_map@);
            let rules = allow_of(cfg, e.slack.source);
            verdict(engine_of(cfg), e) == (if any_matches(rules_view(cfg.filters.drop@), rated)
                || (rules.len() > 0 && !any_matches(rules, rated)) {
                None
            } else {
                Some(rated)
            })
        }),
{
    law_sources_are_told_apart(e.slack.source, SourceTag::Audit);
    law_sources_are_told_apart(e.slack.source, SourceTag::Events);
    law_sources_are_told_apart(e.slack.source, SourceTag::AccessLogs);
    law_sources_are_told_apart(e.slack.source, SourceTag::WebInventory);
}

/// Every source that is on either runs or is skipped for a reason, and one that
/// is off does neither.
pub proof fn law_every_source_is_accounted_for(cfg: Config, probe: Option<TierProbe>)
    ensures
        ({
            let s = cfg.slack.sources;
            &&& events_decision(cfg) is Off <==> !s.events.enabled
            &&& audit_decision(cfg, probe) is Off <==> !s.audit.enabled
            &&& access_decision(cfg, probe) is Off <==> !s.access_logs.enabled
            &&& inventory_decision(cfg) is Off <==> !s.web_inventory.enabled
        }),
{
}

/// What the probe found unavailable does not run, and the audit and the
/// access-log source send the user token alone.
pub proof fn law_unavailable_sources_do_not_run(cfg: Config, probe: TierProbe)
    ensures
        !probe.audit_logs_available ==> !(audit_decision(cfg, Some(probe)) is Run),
        !probe.access_logs_available ==> !(access_decision(cfg, Some(probe)) is Run),
        audit_decision(cfg, Some(probe)) matches Decision::Run(
            PlannedView::Audit { user_token, .. },
        ) ==> opt_text(cfg.slack.token_user) == Some(user_token),
        access_decision(cfg, Some(probe)) matches Decision::Run(
            PlannedView::AccessLogs { user_token, .. },
        ) ==> opt_text(cfg.slack.token_user) == Some(user_token),
{
}

/// An event counts as accepted unless the sink failed to take it, and only what
/// the sink took counts as delivered.
pub proof fn law_accepted_unless_the_sink_failed(outcome: Outcome)
    ensures
        settled(outcome).accepted <==> outcome != Outcome::SinkFailed,
        settled(outcome).delivered <==> outcome == Outcome::Emitted,
{
}

/// The longest interval is that of a source that polls and is on, and no such source
/// has a longer one; without one it is none.
pub proof fn law_longest_interval(cfg: Config)
    ensures
        ({
            let s = cfg.slack.sources;
            let longest = longest_poll(cfg);
            &&& s.audit.enabled ==> longest >= s.audit.poll_seconds
            &&& s.access_logs.enabled ==> longest >= s.access_logs.poll_seconds
            &&& s.web_inventory.enabled ==> longest >= s.web_inventory.poll_seconds
            &&& {
                ||| longest == 0
                ||| s.audit.enabled && longest == s.audit.poll_seconds
                ||| s.access_logs.enabled && longest == s.access_logs.poll_seconds
                ||| s.web_inventory.enabled && longest == s.web_inventory.poll_seconds
            }
        }),
{
}

/// The window is no longer than it has to be: five minutes, or three intervals of a
/// source that polls and is on.
pub proof fn law_window_is_no_longer_than_needed(cfg: Config)
    ensures
        ({
            let s = cfg.slack.sources;
            let window = stale_window(cfg);
            ||| window == 0
            ||| window == 300
            ||| s.audit.enabled && window == 3 * s.audit.poll_seconds
            ||| s.access_logs.enabled && window == 3 * s.access_logs.poll_seconds
            ||| s.web_inventory.enabled && window == 3 * s.web_inventory.poll_seconds
        }),
        stale_window(cfg) == 0 || stale_window(cfg) >= 300,
{
}

/// The filter of a configuration drops by its rules, all of them and in their order,
/// and rates by its map. A source has an allow-list exactly where rules are
/// configured for it, and those are the rules.
pub proof fn law_filter_holds_the_rules(cfg: Config, source: SourceTag, i: int)
    ensures
        ({
            let engine = engine_of(cfg);
            let rules = match source {
                SourceTag::Audit => cfg.filters.audit.allow@,
                SourceTag::Events => cfg.filters.events.allow@,
                SourceTag::AccessLogs => cfg.filters.access_logs.allow@,
                SourceTag::WebInventory => cfg.filters.web_inventory.allow@,
            };
            let key = source_label(source);
            &&& engine.severity == cfg.severity_map@
            &&& engine.drop.len() == cfg.filters.drop@.len()
            &&& 0 <= i < cfg.filters.drop@.len() ==> engine.drop[i] == cfg.filters.drop@[i]@
            &&& engine.allow.contains_key(key) <==> rules.len() > 0
            &&& rules.len() > 0 ==> engine.allow[key].len() == rules.len()
            &&& 0 <= i < rules.len() ==> engine.allow[key][i] == rules[i]@
        }),
{
    law_sources_are_told_apart(source, SourceTag::Audit);
    law_sources_are_told_apart(source, SourceTag::Events);
    law_sources_are_told_apart(source, SourceTag::AccessLogs);
    law_sources_are_told_apart(source, SourceTag::WebInventory);
}

/// The events source runs exactly where it is on and has both its tokens; it opens
/// connections with the app token.
pub proof fn law_events_source(cfg: Config)
    ensures
        ({
            let on = cfg.slack.sources.events.enabled;
            let app = cfg.slack.token_app;
            let bot = cfg.slack.token_bot;
            &&& on && app is Some && bot is Some ==> events_decision(cfg) == Decision::Run(
                PlannedView::Events { app_token: (app->0)@, dedup_capacity: 10_000 },
            )
            &&& on && (app is None || bot is None) ==> events_decision(cfg) == Decision::Skip(
                SkipReason::EventsTokens,
            )
            &&& !on ==> events_decision(cfg) == Decision::Off
        }),
{
}

/// The audit source runs exactly where it is on, has the user token and no probe
/// found it unavailable: with that token, at its interval or four times a minute at
/// most, with the configured reach and no id known.
pub proof fn law_audit_source(cfg: Config, probe: Option<TierProbe>, interval: int)
    requires
        interval >= cfg.slack.sources.audit.poll_seconds,
        interval >= 15,
        interval == cfg.slack.sources.audit.poll_seconds || interval == 15,
    ensures
        ({
            let on = cfg.slack.sources.audit.enabled;
            let user = cfg.slack.token_user;
            let shut = probe matches Some(p) && !p.audit_logs_available;
            let decision = audit_decision(cfg, probe);
            &&& !on ==> decision == Decision::Off
            &&& on && user is None ==> decision == Decision::Skip(SkipReason::AuditToken)
            &&& on && user is Some && shut ==> decision == Decision::Skip(
                SkipReason::AuditUnavailable,
            )
            &&& on && user is Some && !shut ==> (decision matches Decision::Run(
                PlannedView::Audit { user_token, poll_seconds, backfill_days, dedup },
            ) && {
                &&& user_token == (user->0)@
                &&& poll_seconds == interval
                &&& backfill_days == cfg.slack.backfill_days
                &&& dedup.ids.len() == 0
                &&& dedup.capacity == 10_000
            })
        }),
{
}

/// The access-log source runs exactly where it is on, has the user token and no probe
/// found it unavailable: with that token, at its interval or once a minute at most,
/// with the configured reach. On a free workspace the reason says so.
pub proof fn law_access_source(cfg: Config, probe: Option<TierProbe>, interval: int)
    requires
        interval >= cfg.slack.sources.access_logs.poll_seconds,
        interval >= 60,
        interval == cfg.slack.sources.access_logs.poll_seconds || interval == 60,
    ensures
        ({
            let on = cfg.slack.sources.access_logs.enabled;
            let user = cfg.slack.token_user;
            let shut = probe matches Some(p) && !p.access_logs_available;
            let free = probe matches Some(p) && p.tier == Tier::Free;
            let decision = access_decision(cfg, probe);
            &&& !on ==> decision == Decision::Off
            &&& on && user is None ==> decision == Decision::Skip(SkipReason::AccessLogsToken)
            &&& on && user is Some && shut && free ==> decision == Decision::Skip(
                SkipReason::AccessLogsFreeTier,
            )
            &&& on && user is Some && shut && !free ==> decision == Decision::Skip(
                SkipReason::AccessLogsUnavailable,
            )
            &&& on && user is Some && !shut ==> decision == Decision::Run(
                PlannedView::AccessLogs {
                    user_token: (user->0)@,
                    poll_seconds: interval,
                    backfill_days: cfg.slack.backfill_days as int,
                },
            )
        }),
{
}

/// The inventory source runs exactly where it is on and has the bot token: with that
/// token, at its interval or every five minutes at most.
pub proof fn law_inventory_source(cfg: Config, interval: int)
    requires
        interval >= cfg.slack.sources.web_inventory.poll_seconds,
        interval >= 300,
        interval == cfg.slack.sources.web_inventory.poll_seconds || interval == 300,
    ensures
        ({
            let on = cfg.slack.sources.web_inventory.enabled;
            let bot = cfg.slack.token_bot;
            let decision = inventory_decision(cfg);
            &&& !on ==> decision == Decision::Off
            &&& on && bot is None ==> decision == Decision::Skip(SkipReason::InventoryToken)
            &&& on && bot is Some ==> decision == Decision::Run(
                PlannedView::WebInventory { bot_token: (bot->0)@, poll_seconds: interval },
            )
        }),
{
}

/// A plan goes through the four sources in their order, and has every source that
/// runs and every reason for one that does not, in that order.
pub proof fn law_plan_has_every_source(
    cfg: Config,
    probe: Option<TierProbe>,
    list: Seq<Decision>,
    d: Decision,
)
    ensures
        decisions(cfg, probe).len() == 4,
        decisions(cfg, probe)[0] == events_decision(cfg),
        decisions(cfg, probe)[1] == audit_decision(cfg, probe),
        decisions(cfg, probe)[2] == access_decision(cfg, probe),
        decisions(cfg, probe)[3] == inventory_decision(cfg),
        running(Seq::<Decision>::empty()).len() == 0,
        skips(Seq::<Decision>::empty()).len() == 0,
        d matches Decision::Run(source) ==> running(list.push(d)) == running(list).push(source)
            && skips(list.push(d)) == skips(list),
        d matches Decision::Skip(reason) ==> skips(list.push(d)) == skips(list).push(reason)
            && running(list.push(d)) == running(list),
        d is Off ==> running(list.push(d)) == running(list) && skips(list.push(d)) == skips(list),
{
    lemma_one_more_decision(list, d);
}

/// A plan that carries out decisions has as many sources and reasons as they ask for,
/// each in its place.
pub proof fn law_plan_is_seen_whole(plan: SourcePlan, list: Seq<Decision>, i: int)
    requires
        carries_out(plan, list),
    ensures
        plan.sources@.len() == running(list).len(),
        plan.skipped@ == skips(list),
        0 <= i < plan.sources@.len() ==> plan.sources@[i]@ == running(list)[i],
{
    assert(planned(plan.sources@).len() == plan.sources@.len());
    if 0 <= i < plan.sources@.len() {
        assert(planned(plan.sources@)[i] == plan.sources@[i]@);
    }
}

/// A source is seen with everything that it runs with.
pub proof fn law_source_is_seen_whole(source: PlannedSource)
    ensures
        source matches PlannedSource::Events(s) ==> source@ == (PlannedView::Events {
            app_token: s.app_token@,
            dedup_capacity: s.dedup_capacity as int,
        }),
        source matches PlannedSource::Audit(s) ==> source@ == (PlannedView::Audit {
            user_token: s.user_token@,
            poll_seconds: s.poll_seconds as int,
            backfill_days: s.backfill_days as int,
            dedup: s.dedup@,
        }),
        source matches PlannedSource::AccessLogs(s) ==> source@ == (PlannedView::AccessLogs {
            user_token: s.user_token@,
            poll_seconds: s.poll_seconds as int,
            backfill_days: s.backfill_days as int,
        }),
        source matches PlannedSource::WebInventory(s) ==> source@ == (PlannedView::WebInventory {
            bot_token: s.bot_token@,
            poll_seconds: s.poll_seconds as int,
        }),
{
}

/// The sink is the one that is configured, with its path and its sizes; a socket has
/// a spool exactly where one is configured.
pub proof fn law_sink_is_the_configured_one(cfg: SinkConfig)
    ensures
        cfg is Stdout ==> sink_of(cfg) == SinkView::Stdout,
        cfg matches SinkConfig::JsonFile(c) ==> sink_of(cfg) == (SinkView::JsonFile {
            path: c.path@,
            rotate_mb: c.rotate_mb as int,
        }),
        cfg matches SinkConfig::UnixSocket(c) ==> (sink_of(cfg) matches SinkView::UnixSocket {
            path,
            spool_dir,
            spool_max_mb,
        } && {
            &&& path == c.path@
            &&& c.spool matches Some(s) ==> spool_dir == Some(s.dir@) && spool_max_mb == s.max_mb
            &&& c.spool is None ==> spool_dir is None
        }),
{
}

/// A sink is seen with everything that it is opened with.
pub proof fn law_sink_is_seen_whole(plan: SinkPlan)
    ensures
        plan is Stdout <==> plan@ is Stdout,
        plan matches SinkPlan::JsonFile { path, rotate_mb } ==> plan@ == (SinkView::JsonFile {
            path: path@,
            rotate_mb: rotate_mb as int,
        }),
        plan matches SinkPlan::UnixSocket { path, spool_dir, spool_max_mb } ==> (
        plan@ matches SinkView::UnixSocket { path: p, spool_dir: d, spool_max_mb: m } && {
            &&& p == path@
            &&& m == spool_max_mb
            &&& d is Some <==> spool_dir is Some
            &&& spool_dir matches Some(dir) ==> d == Some(dir@)
        }),
{
}

/// How an event ended is counted under one counter: what the filter dropped and what
/// the sink took with the name of the source, what the sink did not take without.
pub proof fn law_outcomes_are_counted(outcome: Outcome)
    ensures
        outcome == Outcome::Filtered ==> settled(outcome).counter == Counter::Filtered && settled(
            outcome,
        ).labelled,
        outcome == Outcome::Emitted ==> settled(outcome).counter == Counter::Emitted && settled(
            outcome,
        ).labelled,
        outcome == Outcome::SinkFailed ==> settled(outcome).counter == Counter::SinkErrors
            && !settled(outcome).labelled,
{
}

/// The names of the counters.
pub proof fn law_names_of_counters(counter: Counter)
    ensures
        counter == Counter::Received ==> counter_text(counter) == "wsc_events_received_total"@,
        counter == Counter::Filtered ==> counter_text(counter) == "wsc_events_filtered_total"@,
        counter == Counter::Emitted ==> counter_text(counter) == "wsc_events_emitted_total"@,
        counter == Counter::SinkErrors ==> counter_text(counter) == "wsc_sink_errors_total"@,
{
}

/// The reasons for which a source does not run, as the operator reads them.
pub proof fn law_reasons_are_given(reason: SkipReason)
    ensures
        reason == SkipReason::EventsTokens ==> skip_text(reason)
            == "events enabled but token_app or token_bot missing"@,
        reason == SkipReason::AuditToken ==> skip_text(reason)
            == "audit enabled but token_user (xoxp-) missing"@,
        reason == SkipReason::AuditUnavailable ==> skip_text(reason)
            == "audit enabled but probe reports it unavailable on this tier"@,
        reason == SkipReason::AccessLogsToken ==> skip_text(reason)
            == "access_logs enabled but token_user (xoxp-) missing"@,
        reason == SkipReason::AccessLogsFreeTier ==> skip_text(reason)
            == "access_logs unavailable on Free tier"@,
        reason == SkipReason::AccessLogsUnavailable ==> skip_text(reason)
            == "access_logs unavailable on this workspace"@,
        reason == SkipReason::InventoryToken ==> skip_text(reason)
            == "web_inventory enabled but token_bot missing"@,
{
}

}
