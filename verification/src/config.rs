//! The configuration: what the operator sets, and what holds where nothing is
//! set.

use crate::event::Severity;
use crate::filter::FilterRule;
use crate::string_map::StringMap;
use vstd::prelude::*;

verus! {

/// Days of history that a poller reaches back on a fresh cursor.
pub const DEFAULT_BACKFILL_DAYS: u64 = 90;

/// Seconds between two refreshes of rotating tokens: eleven hours.
pub const DEFAULT_REFRESH_SECONDS: u64 = 39_600;

/// Seconds between two polls.
pub const DEFAULT_POLL_SECONDS: u64 = 60;

/// Megabytes after which the event file is rotated.
pub const DEFAULT_ROTATE_MB: u64 = 100;

/// Megabytes that a spool segment may grow to before a warning.
pub const DEFAULT_SPOOL_MB: u64 = 500;

/// The whole configuration.
#[derive(Debug)]
pub struct Config {
    pub slack: SlackConfig,
    pub filters: FiltersConfig,
    /// The severity of an action, in place of the one that the source gave.
    pub severity_map: StringMap<Severity>,
    pub sink: SinkConfig,
    pub state: StateConfig,
    pub observability: ObservabilityConfig,
}

/// Tokens, and which sources to run.
#[derive(Debug, Clone)]
pub struct SlackConfig {
    pub token_bot: Option<String>,
    pub token_user: Option<String>,
    pub token_app: Option<String>,
    pub org_id: Option<String>,
    /// Days of history that a poller reaches back on a fresh cursor.
    pub backfill_days: u64,
    /// Accepted and not acted upon: the static tokens stay in use.
    pub rotation: Option<TokenRotationConfig>,
    pub sources: SourcesConfig,
}

/// Settings for apps whose tokens expire.
#[derive(Debug, Clone)]
pub struct TokenRotationConfig {
    pub client_id: String,
    pub client_secret: String,
    pub refresh_token: String,
    pub refresh_seconds: u64,
}

/// The four sources.
#[derive(Debug, Clone)]
pub struct SourcesConfig {
    pub audit: SourceToggle,
    pub events: EventsSourceConfig,
    pub access_logs: SourceToggle,
    pub web_inventory: SourceToggle,
}

/// A source that polls.
#[derive(Debug, Clone, Copy, PartialEq, Eq, Structural)]
pub struct SourceToggle {
    pub enabled: bool,
    pub poll_seconds: u64,
}

/// The source that is pushed to.
#[derive(Debug, Clone, Copy, PartialEq, Eq, Structural)]
pub struct EventsSourceConfig {
    pub enabled: bool,
    pub mode: EventsMode,
}

/// How events are pushed.
#[derive(Debug, Clone, Copy, PartialEq, Eq, Structural)]
pub enum EventsMode {
    Socket,
    Http,
}

/// The rules that drop, and for each source the rules that allow.
#[derive(Debug, Clone)]
pub struct FiltersConfig {
    pub drop: Vec<FilterRule>,
    pub audit: PerSourceFilter,
    pub events: PerSourceFilter,
    pub access_logs: PerSourceFilter,
    pub web_inventory: PerSourceFilter,
}

/// The rules of one source.
#[derive(Debug, Clone)]
pub struct PerSourceFilter {
    pub allow: Vec<FilterRule>,
}

/// Where events are delivered.
#[derive(Debug, Clone)]
pub enum SinkConfig {
    Stdout,
    JsonFile(JsonFileSinkConfig),
    UnixSocket(UnixSocketSinkConfig),
}

/// A file with one event on each line.
#[derive(Debug, Clone)]
pub struct JsonFileSinkConfig {
    pub path: String,
    pub rotate_mb: u64,
}

/// The queue socket of analysisd.
#[derive(Debug, Clone)]
pub struct UnixSocketSinkConfig {
    pub path: String,
    pub spool: Option<SpoolConfig>,
}

/// Where events wait that the socket does not take.
#[derive(Debug, Clone)]
pub struct SpoolConfig {
    pub dir: String,
    pub max_mb: u64,
}

/// Where cursors are kept.
#[derive(Debug, Clone)]
pub struct StateConfig {
    pub sqlite_path: String,
}

/// Endpoints and logging.
#[derive(Debug, Clone)]
pub struct ObservabilityConfig {
    pub prometheus_bind: Option<String>,
    pub health_bind: Option<String>,
    pub log_level: String,
}

/// The path of the analysisd queue socket.
pub fn default_socket_path() -> (path: String)
    ensures
        path@ == "/var/ossec/queue/sockets/queue"@,
{
    "/var/ossec/queue/sockets/queue".to_owned()
}

impl Default for SourceToggle {
    fn default() -> (toggle: Self)
        ensures
            toggle == (SourceToggle { enabled: false, poll_seconds: DEFAULT_POLL_SECONDS }),
    {
        SourceToggle { enabled: false, poll_seconds: DEFAULT_POLL_SECONDS }
    }
}

impl Default for EventsSourceConfig {
    fn default() -> (config: Self)
        ensures
            config == (EventsSourceConfig { enabled: false, mode: EventsMode::Socket }),
    {
        EventsSourceConfig { enabled: false, mode: EventsMode::Socket }
    }
}

impl Default for SourcesConfig {
    fn default() -> (config: Self)
        ensures
            config.audit == (SourceToggle { enabled: false, poll_seconds: DEFAULT_POLL_SECONDS }),
            config.events == (EventsSourceConfig { enabled: false, mode: EventsMode::Socket }),
            config.access_logs == config.audit,
            config.web_inventory == config.audit,
    {
        SourcesConfig {
            audit: SourceToggle::default(),
            events: EventsSourceConfig::default(),
            access_logs: SourceToggle::default(),
            web_inventory: SourceToggle::default(),
        }
    }
}

impl Default for PerSourceFilter {
    fn default() -> (filter: Self)
        ensures
            filter.allow@.len() == 0,
    {
        PerSourceFilter { allow: Vec::new() }
    }
}

impl Default for FiltersConfig {
    fn default() -> (filters: Self)
        ensures
            filters.drop@.len() == 0,
            filters.audit.allow@.len() == 0,
            filters.events.allow@.len() == 0,
            filters.access_logs.allow@.len() == 0,
            filters.web_inventory.allow@.len() == 0,
    {
        FiltersConfig {
            drop: Vec::new(),
            audit: PerSourceFilter::default(),
            events: PerSourceFilter::default(),
            access_logs: PerSourceFilter::default(),
            web_inventory: PerSourceFilter::default(),
        }
    }
}

impl Default for StateConfig {
    fn default() -> (config: Self)
        ensures
            config.sqlite_path@ == "./state.db"@,
    {
        StateConfig { sqlite_path: "./state.db".to_owned() }
    }
}

impl Default for ObservabilityConfig {
    fn default() -> (config: Self)
        ensures
            config.prometheus_bind is None,
            config.health_bind is None,
            config.log_level@ == "info"@,
    {
        ObservabilityConfig {
            prometheus_bind: None,
            health_bind: None,
            log_level: "info".to_owned(),
        }
    }
}

/// What holds where the operator sets nothing: ninety days of history, a poll a
/// minute, files of a hundred megabytes, segments of five hundred, and tokens that
/// are refreshed every eleven hours.
pub proof fn law_defaults()
    ensures
        DEFAULT_BACKFILL_DAYS == 90,
        DEFAULT_POLL_SECONDS == 60,
        DEFAULT_ROTATE_MB == 100,
        DEFAULT_SPOOL_MB == 500,
        DEFAULT_REFRESH_SECONDS == 11 * 3600,
{
}

}
