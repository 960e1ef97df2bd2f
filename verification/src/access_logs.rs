//! The access-log poller: the logins that `team.accessLogs` lists, one poll as a
//! machine.

use crate::backfill::{backfill_floor_at, floor_second};
use crate::clock::{nearest_second, Timestamp};
use crate::config::DEFAULT_BACKFILL_DAYS;
use crate::decimal::{decimal, i64_text, i64_value, law_decimal_reads_back, parse_i64, u64_text};
use crate::event::{
    ActorView, ContextView, EventView, NormalizedEvent, PayloadView, Severity, SlackActor,
    SlackContext, SlackPayload, SourceTag,
};
use crate::json::{
    field, field_i64, field_items, field_str, field_u64, has_member, has_text, items_view,
    json_parse, lacks_member, lacks_text, law_numbers_are_read, opt_json, opt_text,
    parse_document, rest_from, Json, JsonView,
};
use crate::normalize::{number_or_zero, or_default, or_zero, text_or};
use crate::slack_api::{error_of, is_ok, reply_error, reply_ok};
use vstd::prelude::*;

verus! {

pub const ACCESS_LOGS_URL: &'static str = "https://slack.com/api/team.accessLogs";

/// Logins on a page.
pub const PAGE_COUNT: u64 = 100;

/// The key under which the time of the newest login is kept.
pub const KEY_DATE_FIRST: &'static str = "access_logs.date_first";

// ---------------------------------------------------------------------------
// Logins
// ---------------------------------------------------------------------------

/// When a login was first seen; 0 where the entry does not say.
pub open spec fn date_first(entry: JsonView) -> i64 {
    number_or_zero(field_i64(entry, "date_first"@))
}

/// The event of a login. Only logins that succeeded are listed.
pub open spec fn login_event(entry: JsonView) -> EventView {
    EventView {
        timestamp: nearest_second(date_first(entry)),
        slack: PayloadView {
            source: SourceTag::AccessLogs,
            action: "user_login"@,
            event_id: "access-"@ + text_or(field_str(entry, "user_id"@), "?"@) + "-"@ + decimal(
                date_first(entry) as int,
            ),
            actor: Some(
                ActorView {
                    actor_type: "user"@,
                    id: field_str(entry, "user_id"@),
                    name: field_str(entry, "username"@),
                    email: None,
                },
            ),
            entity: None,
            context: Some(
                ContextView {
                    ip: field_str(entry, "ip"@),
                    ua: field_str(entry, "user_agent"@),
                    location: field(entry, "country"@),
                },
            ),
        },
        severity: Severity::Low,
        raw: entry,
    }
}

/// The event of a login.
pub fn build_event(entry: &Json) -> (event: NormalizedEvent)
    ensures
        event@ == login_event(entry@),
{
    let date: i64 = or_zero(entry.get_i64("date_first"));
    let mut event_id: String = "access-".to_owned();
    event_id.append(or_default(entry.get_str("user_id"), "?").as_str());
    event_id.append("-");
    event_id.append(i64_text(date).as_str());
    NormalizedEvent {
        timestamp: Timestamp::nearest(date),
        slack: SlackPayload {
            source: SourceTag::AccessLogs,
            action: "user_login".to_owned(),
            event_id,
            actor: Some(
                SlackActor {
                    actor_type: "user".to_owned(),
                    id: entry.get_str("user_id"),
                    name: entry.get_str("username"),
                    email: None,
                },
            ),
            entity: None,
            context: Some(
                SlackContext {
                    ip: entry.get_str("ip"),
                    ua: entry.get_str("user_agent"),
                    location: entry.get_copy("country"),
                },
            ),
        },
        severity: Severity::Low,
        raw: entry.clone(),
    }
}

// ---------------------------------------------------------------------------
// The machine
// ---------------------------------------------------------------------------

/// Where a poll stands.
#[derive(Debug, Clone, Copy, PartialEq, Eq, Structural)]
pub enum AccessPhase {
    /// A page is being fetched.
    Fetching,
    /// The first login of the page is being delivered.
    Emitting,
    /// The time of the newest login is being stored.
    Saving,
    /// The poll is over.
    Over,
}

pub struct AccessView {
    pub phase: AccessPhase,
    /// Logins up to this second are old.
    pub last_seen: int,
    /// The time of the newest login so far.
    pub max_seen: int,
    /// The number of the page.
    pub page: int,
    /// The logins of the page that are not done with.
    pub logins: Seq<JsonView>,
    /// No login of the page so far is new.
    pub all_old: bool,
    /// There are pages behind this one.
    pub more: bool,
}

/// What happened.
#[derive(Debug)]
pub enum AccessInput {
    /// The API answered.
    Reply { body: String },
    /// The API could not be reached.
    Unreachable,
    /// The event was delivered, or dropped by the filter.
    Accepted,
    /// The event could not be delivered.
    Rejected,
    /// The store took the value.
    Saved,
    /// The store did not take the value.
    SaveFailed,
}

pub enum AccessInputView {
    Reply { body: Seq<char> },
    Unreachable,
    Accepted,
    Rejected,
    Saved,
    SaveFailed,
}

/// Why a poll failed.
#[derive(Debug)]
pub enum AccessError {
    /// The API refused, with the error that it names.
    Api(String),
    /// The body is no JSON document.
    InvalidBody,
    Unreachable,
    /// The store did not take a value.
    State,
}

pub enum AccessErrorView {
    Api(Seq<char>),
    InvalidBody,
    Unreachable,
    State,
}

/// What to do next.
#[derive(Debug)]
pub enum AccessAction {
    /// Fetch the page with this number, of at most `PAGE_COUNT` logins.
    Fetch { page: String },
    /// Deliver the event.
    Emit(NormalizedEvent),
    /// Store the time of the newest login.
    Save(String),
    /// The poll is complete.
    Finish,
    /// The poll ends with nothing stored.
    Stop,
    Fail(AccessError),
}

pub enum AccessActionView {
    Fetch { page: Seq<char> },
    Emit(EventView),
    Save(Seq<char>),
    Finish,
    Stop,
    Fail(AccessErrorView),
}

impl View for AccessInput {
    type V = AccessInputView;

    open spec fn view(&self) -> AccessInputView {
        match self {
            AccessInput::Reply { body } => AccessInputView::Reply { body: body@ },
            AccessInput::Unreachable => AccessInputView::Unreachable,
            AccessInput::Accepted => AccessInputView::Accepted,
            AccessInput::Rejected => AccessInputView::Rejected,
            AccessInput::Saved => AccessInputView::Saved,
            AccessInput::SaveFailed => AccessInputView::SaveFailed,
        }
    }
}

impl View for AccessError {
    type V = AccessErrorView;

    open spec fn view(&self) -> AccessErrorView {
        match self {
            AccessError::Api(error) => AccessErrorView::Api(error@),
            AccessError::InvalidBody => AccessErrorView::InvalidBody,
            AccessError::Unreachable => AccessErrorView::Unreachable,
            AccessError::State => AccessErrorView::State,
        }
    }
}

impl View for AccessAction {
    type V = AccessActionView;

    open spec fn view(&self) -> AccessActionView {
        match self {
            AccessAction::Fetch { page } => AccessActionView::Fetch { page: page@ },
            AccessAction::Emit(event) => AccessActionView::Emit(event@),
            AccessAction::Save(text) => AccessActionView::Save(text@),
            AccessAction::Finish => AccessActionView::Finish,
            AccessAction::Stop => AccessActionView::Stop,
            AccessAction::Fail(error) => AccessActionView::Fail(error@),
        }
    }
}

/// The second behind which logins are new: the stored one, though not before
/// the reach of `days` days.
pub open spec fn first_seen(stored: Option<Seq<char>>, now: int, days: int) -> int {
    let kept = match stored {
        Some(text) => number_or_zero(i64_value(text)) as int,
        None => 0,
    };
    if kept > floor_second(now, days) {
        kept
    } else {
        floor_second(now, days)
    }
}

/// A poll that has done nothing yet.
pub open spec fn first_access_poll(last_seen: int) -> AccessView {
    AccessView {
        phase: AccessPhase::Fetching,
        last_seen,
        max_seen: last_seen,
        page: 1,
        logins: seq![],
        all_old: true,
        more: false,
    }
}

pub open spec fn fetch_page(poll: AccessView) -> (AccessView, AccessActionView) {
    (
        AccessView { phase: AccessPhase::Fetching, ..poll },
        AccessActionView::Fetch { page: decimal(poll.page) },
    )
}

/// The number of the next page, as far as a counter reaches.
pub open spec fn page_after(page: int) -> int {
    if page < u64::MAX {
        page + 1
    } else {
        page
    }
}

/// The end of the poll: a newer time than at the start is stored.
pub open spec fn conclude(poll: AccessView) -> (AccessView, AccessActionView) {
    if poll.max_seen > poll.last_seen {
        (
            AccessView { phase: AccessPhase::Saving, ..poll },
            AccessActionView::Save(decimal(poll.max_seen)),
        )
    } else {
        (AccessView { phase: AccessPhase::Over, ..poll }, AccessActionView::Finish)
    }
}

/// Go through the page up to the next login that is new. Behind the last login
/// the next page is fetched, unless there is none or this one held nothing new.
pub open spec fn walk_logins(poll: AccessView) -> (AccessView, AccessActionView)
    decreases poll.logins.len(),
{
    if poll.logins.len() == 0 {
        if poll.all_old || !poll.more {
            conclude(poll)
        } else {
            fetch_page(AccessView { page: page_after(poll.page), ..poll })
        }
    } else {
        let date = date_first(poll.logins[0]) as int;
        if date <= poll.last_seen {
            walk_logins(AccessView { logins: poll.logins.skip(1), ..poll })
        } else {
            (
                AccessView {
                    phase: AccessPhase::Emitting,
                    all_old: false,
                    max_seen: if date > poll.max_seen {
                        date
                    } else {
                        poll.max_seen
                    },
                    ..poll
                },
                AccessActionView::Emit(login_event(poll.logins[0])),
            )
        }
    }
}

/// A number of the reply's `paging`, or 1.
pub open spec fn paging_number(reply: JsonView, key: Seq<char>) -> u64 {
    match field(reply, "paging"@) {
        Some(p) => match field_u64(p, key) {
            Some(n) => n,
            None => 1,
        },
        None => 1,
    }
}

/// The poll with a fetched page.
pub open spec fn with_logins(poll: AccessView, reply: JsonView) -> AccessView {
    AccessView {
        logins: field_items(reply, "logins"@),
        all_old: true,
        more: paging_number(reply, "page"@) < paging_number(reply, "pages"@),
        ..poll
    }
}

pub open spec fn fail_access(poll: AccessView, error: AccessErrorView) -> (
    AccessView,
    AccessActionView,
) {
    (AccessView { phase: AccessPhase::Over, ..poll }, AccessActionView::Fail(error))
}

pub open spec fn stop_access(poll: AccessView) -> (AccessView, AccessActionView) {
    (AccessView { phase: AccessPhase::Over, ..poll }, AccessActionView::Stop)
}

/// What follows an answer of the API, where `parsed` is what its body says.
pub open spec fn on_logins(poll: AccessView, parsed: Option<JsonView>) -> (
    AccessView,
    AccessActionView,
) {
    match parsed {
        Some(reply) => if is_ok(reply) {
            walk_logins(with_logins(poll, reply))
        } else {
            fail_access(poll, AccessErrorView::Api(error_of(reply)))
        },
        None => fail_access(poll, AccessErrorView::InvalidBody),
    }
}

/// The poll and what it does after an input. An input that the poll does not
/// wait for ends it with nothing stored.
pub open spec fn next_access_step(poll: AccessView, input: AccessInputView) -> (
    AccessView,
    AccessActionView,
) {
    match (poll.phase, input) {
        (AccessPhase::Fetching, AccessInputView::Reply { body }) => on_logins(
            poll,
            json_parse(body),
        ),
        (AccessPhase::Fetching, AccessInputView::Unreachable) => fail_access(
            poll,
            AccessErrorView::Unreachable,
        ),
        (AccessPhase::Emitting, AccessInputView::Accepted) => if poll.logins.len() > 0 {
            walk_logins(AccessView { logins: poll.logins.skip(1), ..poll })
        } else {
            stop_access(poll)
        },
        (AccessPhase::Saving, AccessInputView::Saved) => (
            AccessView { phase: AccessPhase::Over, ..poll },
            AccessActionView::Finish,
        ),
        (AccessPhase::Saving, AccessInputView::SaveFailed) => fail_access(
            poll,
            AccessErrorView::State,
        ),
        _ => stop_access(poll),
    }
}

// ---------------------------------------------------------------------------
// The code
// ---------------------------------------------------------------------------

/// One poll of `team.accessLogs`.
#[derive(Debug)]
pub struct AccessPoll {
    phase: AccessPhase,
    last_seen: i64,
    max_seen: i64,
    page: u64,
    entries: Vec<Json>,
    at: usize,
    all_old: bool,
    more: bool,
}

impl View for AccessPoll {
    type V = AccessView;

    closed spec fn view(&self) -> AccessView {
        AccessView {
            phase: self.phase,
            last_seen: self.last_seen as int,
            max_seen: self.max_seen as int,
            page: self.page as int,
            logins: rest_from(items_view(self.entries@), self.at as int),
            all_old: self.all_old,
            more: self.more,
        }
    }
}

fn read_paging_number(reply: &Json, key: &str) -> (n: u64)
    ensures
        n == paging_number(reply@, key@),
{
    match reply.get("paging") {
        Some(p) => match p.get_u64(key) {
            Some(n) => n,
            None => 1,
        },
        None => 1,
    }
}

impl AccessPoll {
    fn fetch(&mut self) -> (action: AccessAction)
        ensures
            (final(self)@, action@) == fetch_page(old(self)@),
    {
        self.phase = AccessPhase::Fetching;
        AccessAction::Fetch { page: u64_text(self.page) }
    }

    fn fail(&mut self, error: AccessError) -> (action: AccessAction)
        ensures
            (final(self)@, action@) == fail_access(old(self)@, error@),
    {
        self.phase = AccessPhase::Over;
        AccessAction::Fail(error)
    }

    fn stop(&mut self) -> (action: AccessAction)
        ensures
            (final(self)@, action@) == stop_access(old(self)@),
    {
        self.phase = AccessPhase::Over;
        AccessAction::Stop
    }

    fn conclude(&mut self) -> (action: AccessAction)
        ensures
            (final(self)@, action@) == conclude(old(self)@),
    {
        if self.max_seen > self.last_seen {
            self.phase = AccessPhase::Saving;
            AccessAction::Save(i64_text(self.max_seen))
        } else {
            self.phase = AccessPhase::Over;
            AccessAction::Finish
        }
    }

    /// Go through the page up to the next login that is new.
    fn walk(&mut self) -> (action: AccessAction)
        ensures
            (final(self)@, action@) == walk_logins(old(self)@),
    {
        while self.at < self.entries.len()
            invariant
                walk_logins(self@) == walk_logins(old(self)@),
            decreases self.entries@.len() - self.at,
        {
            let entry: &Json = &self.entries[self.at];
            assert(self@.logins[0] == entry@);
            assert(self@.logins.skip(1) == rest_from(items_view(self.entries@), self.at + 1));
            let date: i64 = or_zero(entry.get_i64("date_first"));
            if date > self.last_seen {
                let event: NormalizedEvent = build_event(entry);
                self.all_old = false;
                if date > self.max_seen {
                    self.max_seen = date;
                }
                self.phase = AccessPhase::Emitting;
                return AccessAction::Emit(event);
            }
            self.at = self.at + 1;
        }
        assert(self@.logins.len() == 0);
        if self.all_old || !self.more {
            self.conclude()
        } else {
            if self.page < 0xffff_ffff_ffff_ffff {
                self.page = self.page + 1;
            }
            self.fetch()
        }
    }

    /// What follows an answer of the API, where `parsed` is what its body says.
    pub fn on_reply(&mut self, parsed: Option<Json>) -> (action: AccessAction)
        ensures
            (final(self)@, action@) == on_logins(old(self)@, opt_json(parsed)),
    {
        match parsed {
            Some(reply) => {
                if !reply_ok(&reply) {
                    return self.fail(AccessError::Api(reply_error(&reply)));
                }
                self.entries = reply.get_items("logins");
                self.at = 0;
                self.all_old = true;
                self.more = read_paging_number(&reply, "page") < read_paging_number(
                    &reply,
                    "pages",
                );
                assert(self@.logins =~= field_items(reply@, "logins"@));
                self.walk()
            },
            None => self.fail(AccessError::InvalidBody),
        }
    }

    /// Go on with the poll after `input`.
    pub fn step(&mut self, input: AccessInput) -> (action: AccessAction)
        ensures
            (final(self)@, action@) == next_access_step(old(self)@, input@),
    {
        match (self.phase, input) {
            (AccessPhase::Fetching, AccessInput::Reply { body }) => {
                let parsed: Option<Json> = parse_document(body.as_str());
                self.on_reply(parsed)
            },
            (AccessPhase::Fetching, AccessInput::Unreachable) => self.fail(
                AccessError::Unreachable,
            ),
            (AccessPhase::Emitting, AccessInput::Accepted) => {
                if self.at >= self.entries.len() {
                    return self.stop();
                }
                assert(self@.logins.skip(1) == rest_from(
                    items_view(self.entries@),
                    self.at + 1,
                ));
                self.at = self.at + 1;
                self.walk()
            },
            (AccessPhase::Saving, AccessInput::Saved) => {
                self.phase = AccessPhase::Over;
                AccessAction::Finish
            },
            (AccessPhase::Saving, AccessInput::SaveFailed) => self.fail(AccessError::State),
            _ => self.stop(),
        }
    }
}

/// Polls `team.accessLogs`, which takes a user token with the scope `admin`.
#[derive(Debug)]
pub struct AccessLogsPoller {
    pub user_token: String,
    pub poll_seconds: u64,
    pub backfill_days: u64,
}

impl AccessLogsPoller {
    /// A poller with the usual reach.
    pub fn new(user_token: String, poll_seconds: u64) -> (poller: Self)
        ensures
            poller.user_token == user_token,
            poller.poll_seconds == poll_seconds,
            poller.backfill_days == DEFAULT_BACKFILL_DAYS,
    {
        AccessLogsPoller::with_backfill(user_token, poll_seconds, DEFAULT_BACKFILL_DAYS)
    }

    /// A poller that reaches back no more than `backfill_days`.
    pub fn with_backfill(user_token: String, poll_seconds: u64, backfill_days: u64) -> (poller:
        Self)
        ensures
            poller.user_token == user_token,
            poller.poll_seconds == poll_seconds,
            poller.backfill_days == backfill_days,
    {
        AccessLogsPoller { user_token, poll_seconds, backfill_days }
    }

    /// Begin a poll from what is stored.
    pub fn begin(&self, stored: Option<String>, now: Timestamp) -> (begun: (
        AccessPoll,
        AccessAction,
    ))
        ensures
            (begun.0@, begun.1@) == fetch_page(
                first_access_poll(
                    first_seen(opt_text(stored), now@.secs, self.backfill_days as int),
                ),
            ),
    {
        let kept: i64 = match &stored {
            Some(text) => or_zero(parse_i64(text.as_str())),
            None => 0,
        };
        let floor: i64 = backfill_floor_at(now.secs(), self.backfill_days);
        let last_seen: i64 = if kept > floor {
            kept
        } else {
            floor
        };
        let mut poll: AccessPoll = AccessPoll {
            phase: AccessPhase::Fetching,
            last_seen,
            max_seen: last_seen,
            page: 1,
            entries: Vec::new(),
            at: 0,
            all_old: true,
            more: false,
        };
        assert(poll@.logins =~= Seq::<JsonView>::empty());
        let action: AccessAction = poll.fetch();
        (poll, action)
    }
}

// ---------------------------------------------------------------------------
// Laws
// ---------------------------------------------------------------------------

/// Going through a page passes over old logins only, and what is to be delivered
/// is newer than where the poll began.
pub proof fn law_walk_passes_over_old_logins(poll: AccessView)
    ensures
        ({
            let (after, action) = walk_logins(poll);
            let k = poll.logins.len() - after.logins.len();
            &&& 0 <= k <= poll.logins.len()
            &&& after.logins == poll.logins.skip(k)
            &&& forall|i: int| 0 <= i < k ==> date_first(#[trigger] poll.logins[i]) <= poll.last_seen
            &&& after.last_seen == poll.last_seen
            &&& after.max_seen >= poll.max_seen
            &&& match action {
                AccessActionView::Emit(e) => {
                    &&& k < poll.logins.len()
                    &&& e == login_event(poll.logins[k])
                    &&& poll.last_seen < date_first(poll.logins[k]) <= after.max_seen
                },
                AccessActionView::Save(text) => {
                    &&& k == poll.logins.len()
                    &&& text == decimal(after.max_seen)
                    &&& after.max_seen > after.last_seen
                    &&& poll.all_old || !poll.more
                },
                AccessActionView::Finish => k == poll.logins.len() && after.max_seen
                    <= after.last_seen,
                AccessActionView::Fetch { .. } => {
                    &&& k == poll.logins.len()
                    &&& !poll.all_old
                    &&& poll.more
                },
                _ => false,
            }
        }),
    decreases poll.logins.len(),
{
    if poll.logins.len() > 0 && date_first(poll.logins[0]) <= poll.last_seen {
        let later = AccessView { logins: poll.logins.skip(1), ..poll };
        law_walk_passes_over_old_logins(later);
        let (after, action) = walk_logins(poll);
        let k = poll.logins.len() - after.logins.len();
        assert(after.logins =~= poll.logins.skip(k));
        assert forall|i: int| 0 <= i < k implies date_first(#[trigger] poll.logins[i])
            <= poll.last_seen by {
            if i > 0 {
                assert(later.logins[i - 1] == poll.logins[i]);
            }
        }
        assert(k < poll.logins.len() ==> later.logins[k - 1] == poll.logins[k]);
    } else {
        assert(poll.logins.skip(0) =~= poll.logins);
    }
}

/// The events of the logins after `last_seen`, in their order.
pub open spec fn page_events(logins: Seq<JsonView>, last_seen: int) -> Seq<EventView>
    decreases logins.len(),
{
    if logins.len() == 0 {
        seq![]
    } else if date_first(logins[0]) > last_seen {
        seq![login_event(logins[0])] + page_events(logins.skip(1), last_seen)
    } else {
        page_events(logins.skip(1), last_seen)
    }
}

/// The latest of `newest` and the times of the logins after `last_seen`.
pub open spec fn newest_of(newest: int, logins: Seq<JsonView>, last_seen: int) -> int
    decreases logins.len(),
{
    if logins.len() == 0 {
        newest
    } else {
        let date = date_first(logins[0]) as int;
        newest_of(
            if date > last_seen && date > newest {
                date
            } else {
                newest
            },
            logins.skip(1),
            last_seen,
        )
    }
}

/// What a stretch of polling came to: the events that were delivered, and the
/// poll and what it does at the end.
pub struct AccessRun {
    pub events: Seq<EventView>,
    pub poll: AccessView,
    pub action: AccessActionView,
}

/// The poll goes on from `action` while every event is accepted.
pub open spec fn accept_all(poll: AccessView, action: AccessActionView) -> AccessRun
    decreases poll.logins.len(),
{
    match action {
        AccessActionView::Emit(e) if poll.phase == AccessPhase::Emitting && poll.logins.len()
            > 0 => {
            let (at, next) = next_access_step(poll, AccessInputView::Accepted);
            proof {
                law_walk_passes_over_old_logins(
                    AccessView { logins: poll.logins.skip(1), ..poll },
                );
            }
            let rest = accept_all(at, next);
            AccessRun { events: seq![e] + rest.events, ..rest }
        },
        _ => AccessRun { events: seq![], poll, action },
    }
}

/// The poll is handed a page and every event is accepted.
pub open spec fn run_page(poll: AccessView, body: Seq<char>) -> AccessRun {
    let (at, action) = next_access_step(poll, AccessInputView::Reply { body });
    accept_all(at, action)
}

/// A reply that succeeded.
pub open spec fn is_page(body: Seq<char>) -> bool {
    json_parse(body) matches Some(reply) && is_ok(reply)
}

/// The logins of a page.
pub open spec fn logins_in(body: Seq<char>) -> Seq<JsonView> {
    field_items(json_parse(body)->0, "logins"@)
}

/// The page holds something new, and there is another behind it.
pub open spec fn leads_on(body: Seq<char>, last_seen: int) -> bool {
    let reply = json_parse(body)->0;
    &&& paging_number(reply, "page"@) < paging_number(reply, "pages"@)
    &&& page_events(logins_in(body), last_seen).len() > 0
}

/// What a poll does behind its last page: the latest time is stored where it is
/// later than at the start.
pub open spec fn last_action(newest: int, last_seen: int) -> AccessActionView {
    if newest > last_seen {
        AccessActionView::Save(decimal(newest))
    } else {
        AccessActionView::Finish
    }
}

/// A page delivers its new logins in their order. Behind it the next page is
/// fetched where there is one and this one held something new; else the latest
/// time is stored where it is later than at the start.
pub proof fn law_page_delivers_its_new_logins(poll: AccessView, body: Seq<char>)
    requires
        poll.phase == AccessPhase::Fetching,
        is_page(body),
    ensures
        ({
            let logins = logins_in(body);
            let run = run_page(poll, body);
            &&& run.events == page_events(logins, poll.last_seen)
            &&& run.poll.max_seen == newest_of(poll.max_seen, logins, poll.last_seen)
            &&& run.poll.last_seen == poll.last_seen
            &&& leads_on(body, poll.last_seen) ==> {
                &&& run.poll.phase == AccessPhase::Fetching
                &&& run.poll.page == page_after(poll.page)
                &&& run.action == (AccessActionView::Fetch { page: decimal(run.poll.page) })
            }
            &&& !leads_on(body, poll.last_seen) ==> run.action == last_action(
                run.poll.max_seen,
                poll.last_seen,
            )
        }),
{
    lemma_page_runs(with_logins(poll, json_parse(body)->0));
}

proof fn lemma_page_runs(poll: AccessView)
    ensures
        ({
            let (at, action) = walk_logins(poll);
            let run = accept_all(at, action);
            let any = !poll.all_old || page_events(poll.logins, poll.last_seen).len() > 0;
            &&& run.events == page_events(poll.logins, poll.last_seen)
            &&& run.poll.max_seen == newest_of(poll.max_seen, poll.logins, poll.last_seen)
            &&& run.poll.last_seen == poll.last_seen
            &&& any && poll.more ==> {
                &&& run.poll.phase == AccessPhase::Fetching
                &&& run.poll.page == page_after(poll.page)
                &&& run.action == (AccessActionView::Fetch { page: decimal(run.poll.page) })
            }
            &&& !(any && poll.more) ==> run.action == last_action(
                run.poll.max_seen,
                poll.last_seen,
            )
        }),
    decreases poll.logins.len(),
{
    if poll.logins.len() > 0 {
        let date = date_first(poll.logins[0]) as int;
        if date <= poll.last_seen {
            lemma_page_runs(AccessView { logins: poll.logins.skip(1), ..poll });
        } else {
            let at = walk_logins(poll).0;
            lemma_page_runs(AccessView { logins: at.logins.skip(1), ..at });
        }
    }
}

/// The poll is handed one page after another as it asks for them, and every event
/// is accepted.
pub open spec fn run_poll(poll: AccessView, bodies: Seq<Seq<char>>) -> AccessRun
    decreases bodies.len(),
{
    if bodies.len() == 0 {
        AccessRun { events: seq![], poll, action: fetch_page(poll).1 }
    } else {
        let page = run_page(poll, bodies[0]);
        if page.action is Fetch {
            let rest = run_poll(page.poll, bodies.skip(1));
            AccessRun { events: page.events + rest.events, ..rest }
        } else {
            page
        }
    }
}

/// The pages of one poll: each succeeded, each but the last leads on to the next,
/// and the last leads nowhere.
pub open spec fn whole_poll(bodies: Seq<Seq<char>>, last_seen: int) -> bool {
    &&& bodies.len() > 0
    &&& forall|i: int|
        0 <= i < bodies.len() ==> {
            &&& is_page(#[trigger] bodies[i])
            &&& leads_on(bodies[i], last_seen) <==> i < bodies.len() - 1
        }
}

/// The logins of the pages, one page after the other.
pub open spec fn logins_of(bodies: Seq<Seq<char>>) -> Seq<JsonView>
    decreases bodies.len(),
{
    if bodies.len() == 0 {
        seq![]
    } else {
        logins_in(bodies[0]) + logins_of(bodies.skip(1))
    }
}

proof fn lemma_events_add(a: Seq<JsonView>, b: Seq<JsonView>, newest: int, last_seen: int)
    ensures
        page_events(a + b, last_seen) == page_events(a, last_seen) + page_events(b, last_seen),
        newest_of(newest, a + b, last_seen) == newest_of(
            newest_of(newest, a, last_seen),
            b,
            last_seen,
        ),
    decreases a.len(),
{
    if a.len() == 0 {
        assert(a + b =~= b);
        assert(page_events(a, last_seen) + page_events(b, last_seen) =~= page_events(b, last_seen));
    } else {
        let date = date_first(a[0]) as int;
        let later = if date > last_seen && date > newest {
            date
        } else {
            newest
        };
        assert((a + b)[0] == a[0]);
        assert((a + b).skip(1) =~= a.skip(1) + b);
        lemma_events_add(a.skip(1), b, later, last_seen);
        assert(page_events(a + b, last_seen) =~= page_events(a, last_seen) + page_events(
            b,
            last_seen,
        ));
    }
}

/// A whole poll delivers the logins of all its pages that are newer than where it
/// began, in the order served, and no others. At its end it stores the latest of
/// their times where there is one.
pub proof fn law_poll_delivers_every_new_login(poll: AccessView, bodies: Seq<Seq<char>>)
    requires
        poll.phase == AccessPhase::Fetching,
        whole_poll(bodies, poll.last_seen),
    ensures
        ({
            let run = run_poll(poll, bodies);
            let newest = newest_of(poll.max_seen, logins_of(bodies), poll.last_seen);
            &&& run.events == page_events(logins_of(bodies), poll.last_seen)
            &&& run.action == last_action(newest, poll.last_seen)
        }),
    decreases bodies.len(),
{
    let rest = bodies.skip(1);
    let page = run_page(poll, bodies[0]);
    assert(leads_on(bodies[0], poll.last_seen) <==> 0 < bodies.len() - 1);
    assert(is_page(bodies[0]));
    law_page_delivers_its_new_logins(poll, bodies[0]);
    lemma_events_add(logins_in(bodies[0]), logins_of(rest), poll.max_seen, poll.last_seen);
    if bodies.len() > 1 {
        assert forall|i: int| 0 <= i < rest.len() implies {
            &&& is_page(#[trigger] rest[i])
            &&& leads_on(rest[i], poll.last_seen) <==> i < rest.len() - 1
        } by {
            assert(rest[i] == bodies[i + 1]);
        }
        law_poll_delivers_every_new_login(page.poll, rest);
    } else {
        assert(logins_in(bodies[0]) + logins_of(rest) =~= logins_in(bodies[0]));
    }
}

/// The latest time is the one that the poll began with or that of a new login,
/// and no new login is later.
pub proof fn law_newest_is_the_latest(newest: int, logins: Seq<JsonView>, last_seen: int)
    ensures
        ({
            let latest = newest_of(newest, logins, last_seen);
            &&& latest >= newest
            &&& forall|i: int|
                0 <= i < logins.len() && date_first(#[trigger] logins[i]) > last_seen ==> latest
                    >= date_first(logins[i])
            &&& latest > newest ==> exists|i: int|
                0 <= i < logins.len() && date_first(#[trigger] logins[i]) == latest && latest
                    > last_seen
        }),
    decreases logins.len(),
{
    if logins.len() > 0 {
        let date = date_first(logins[0]) as int;
        let later = if date > last_seen && date > newest {
            date
        } else {
            newest
        };
        let rest = logins.skip(1);
        let latest = newest_of(newest, logins, last_seen);
        law_newest_is_the_latest(later, rest, last_seen);
        assert forall|i: int|
            0 <= i < logins.len() && date_first(#[trigger] logins[i]) > last_seen implies latest
            >= date_first(logins[i]) by {
            if i > 0 {
                assert(rest[i - 1] == logins[i]);
            }
        }
        if latest > later {
            let i = choose|i: int|
                0 <= i < rest.len() && date_first(#[trigger] rest[i]) == latest && latest
                    > last_seen;
            assert(logins[i + 1] == rest[i]);
        } else if latest > newest {
            assert(date_first(logins[0]) == latest);
        }
    }
}

/// The stored time never decreases: what a whole poll stores reads back as a later
/// time than the one that was stored before, and a poll that resumes from it
/// delivers none of the same logins again.
pub proof fn law_stored_time_never_decreases(
    stored: Option<Seq<char>>,
    now: int,
    days: int,
    bodies: Seq<Seq<char>>,
    later: int,
)
    requires
        whole_poll(bodies, first_seen(stored, now, days)),
    ensures
        ({
            let poll = first_access_poll(first_seen(stored, now, days));
            run_poll(poll, bodies).action matches AccessActionView::Save(text) ==> {
                &&& i64_value(text) is Some
                &&& stored matches Some(before) ==> i64_value(text)->0 > number_or_zero(
                    i64_value(before),
                )
                &&& first_seen(Some(text), later, days) >= i64_value(text)->0
                &&& page_events(logins_of(bodies), first_seen(Some(text), later, days)).len() == 0
            }
        }),
{
    let last_seen = first_seen(stored, now, days);
    let poll = first_access_poll(last_seen);
    let logins = logins_of(bodies);
    let latest = newest_of(last_seen, logins, last_seen);
    law_poll_delivers_every_new_login(poll, bodies);
    law_newest_is_the_latest(last_seen, logins, last_seen);
    if latest > last_seen {
        let i = choose|i: int|
            0 <= i < logins.len() && date_first(#[trigger] logins[i]) == latest && latest
                > last_seen;
        let date: i64 = date_first(logins[i]);
        law_decimal_reads_back(date);
        assert forall|j: int| 0 <= j < logins.len() implies date_first(#[trigger] logins[j])
            <= latest by {}
        lemma_nothing_is_new(logins, first_seen(Some(decimal(latest)), later, days));
    }
}

proof fn lemma_nothing_is_new(logins: Seq<JsonView>, last_seen: int)
    requires
        forall|i: int| 0 <= i < logins.len() ==> date_first(#[trigger] logins[i]) <= last_seen,
    ensures
        page_events(logins, last_seen).len() == 0,
    decreases logins.len(),
{
    if logins.len() > 0 {
        let rest = logins.skip(1);
        assert(date_first(logins[0]) <= last_seen);
        assert forall|i: int| 0 <= i < rest.len() implies date_first(#[trigger] rest[i])
            <= last_seen by {
            assert(rest[i] == logins[i + 1]);
        }
        lemma_nothing_is_new(rest, last_seen);
    }
}

/// Every event is newer than the reach of the poll and than what was stored, and
/// a time is stored only once every new login of the page is delivered.
pub proof fn law_only_new_logins(poll: AccessView, input: AccessInputView)
    ensures
        ({
            let (after, action) = next_access_step(poll, input);
            &&& after.last_seen == poll.last_seen
            &&& after.max_seen >= poll.max_seen
            &&& action matches AccessActionView::Emit(e) ==> date_first(e.raw) > poll.last_seen
            &&& action matches AccessActionView::Save(text) ==> {
                &&& after.logins.len() == 0
                &&& text == decimal(after.max_seen)
                &&& after.max_seen > after.last_seen
            }
        }),
{
    if let (AccessPhase::Fetching, AccessInputView::Reply { body }) = (poll.phase, input) {
        if let Some(reply) = json_parse(body) {
            law_walk_passes_over_old_logins(with_logins(poll, reply));
        }
    }
    if poll.phase == AccessPhase::Emitting && input == AccessInputView::Accepted
        && poll.logins.len() > 0 {
        law_walk_passes_over_old_logins(AccessView { logins: poll.logins.skip(1), ..poll });
    }
}

/// A login that could not be delivered ends the poll with nothing stored, so
/// that the next poll begins where this one did.
pub proof fn law_undelivered_login_is_not_lost(poll: AccessView, later: AccessInputView)
    requires
        poll.phase == AccessPhase::Emitting,
    ensures
        next_access_step(poll, AccessInputView::Rejected).1 == AccessActionView::Stop,
        next_access_step(next_access_step(poll, AccessInputView::Rejected).0, later).1
            == AccessActionView::Stop,
{
}

/// A poll never reaches back beyond its days, and it takes up a later time that
/// was stored.
pub proof fn law_access_poll_resumes(stored: i64, now: int, days: int)
    ensures
        first_seen(Some(decimal(stored as int)), now, days) >= floor_second(now, days),
        first_seen(None, now, days) >= floor_second(now, days),
        stored > floor_second(now, days) ==> first_seen(Some(decimal(stored as int)), now, days)
            == stored,
{
    law_decimal_reads_back(stored);
}

/// When a login was first seen is what the entry says, where that is an integer that
/// an `i64` holds, and else the epoch.
pub proof fn law_time_of_a_login(entry: JsonView, n: i64)
    ensures
        has_member(entry, "date_first"@, JsonView::Int(n as int)) ==> date_first(entry) == n,
        (forall|k: i64| !#[trigger] has_member(entry, "date_first"@, JsonView::Int(k as int)))
            ==> date_first(entry) == 0,
{
    law_numbers_are_read(entry, "date_first"@, n, 0);
}

/// What an entry says of a login is what its event says: the user by id and name,
/// the address, the agent and the country, each exactly where the entry has it, and
/// the entry itself.
pub proof fn law_login_is_read(entry: JsonView, text: Seq<char>, place: JsonView)
    ensures
        ({
            let e = login_event(entry);
            &&& e.slack.source == SourceTag::AccessLogs
            &&& e.slack.action == "user_login"@
            &&& e.severity == Severity::Low
            &&& e.raw == entry
            &&& e.timestamp == nearest_second(date_first(entry))
            &&& e.slack.entity is None
            &&& e.slack.actor matches Some(a) && {
                &&& a.actor_type == "user"@
                &&& a.email is None
                &&& a.id == Some(text) <==> has_text(entry, "user_id"@, text)
                &&& a.name == Some(text) <==> has_text(entry, "username"@, text)
            }
            &&& e.slack.context matches Some(c) && {
                &&& c.ip == Some(text) <==> has_text(entry, "ip"@, text)
                &&& c.ua == Some(text) <==> has_text(entry, "user_agent"@, text)
                &&& c.location == Some(place) <==> has_member(entry, "country"@, place)
            }
        }),
{
}

/// A login is known by its user, or a question mark, and its time.
pub proof fn law_id_of_a_login(entry: JsonView, user: Seq<char>)
    requires
        has_text(entry, "user_id"@, user) || (lacks_text(entry, "user_id"@) && user == "?"@),
    ensures
        login_event(entry).slack.event_id == "access-"@ + user + "-"@ + decimal(
            date_first(entry) as int,
        ),
{
}

/// A number of the paging is the one that the reply has there, and 1 where it has
/// none.
pub proof fn law_paging_is_read(reply: JsonView, key: Seq<char>, paging: JsonView, n: u64)
    ensures
        has_member(reply, "paging"@, paging) && has_member(paging, key, JsonView::Int(n as int))
            ==> paging_number(reply, key) == n,
        has_member(reply, "paging"@, paging) && (forall|k: u64|
            !#[trigger] has_member(paging, key, JsonView::Int(k as int))) ==> paging_number(
            reply,
            key,
        ) == 1,
        lacks_member(reply, "paging"@) ==> paging_number(reply, key) == 1,
{
    law_numbers_are_read(paging, key, 0, n);
}

/// The logins of a page are delivered exactly where they are newer: their events
/// are those of the logins that are left where the others are taken out.
pub proof fn law_new_logins_are_picked(logins: Seq<JsonView>, last_seen: int)
    ensures
        page_events(logins, last_seen) == logins.filter(
            |l: JsonView| date_first(l) > last_seen,
        ).map_values(|l: JsonView| login_event(l)),
    decreases logins.len(),
{
    let new = |l: JsonView| date_first(l) > last_seen;
    let event = |l: JsonView| login_event(l);
    if logins.len() > 0 {
        let head = seq![logins[0]];
        let rest = logins.skip(1);
        law_new_logins_are_picked(rest, last_seen);
        assert(logins =~= head + rest);
        Seq::filter_distributes_over_add(head, rest, new);
        reveal_with_fuel(Seq::filter, 2);
        assert(head.drop_last() =~= Seq::<JsonView>::empty());
        assert(head.filter(new) =~= (if new(logins[0]) {
            head
        } else {
            Seq::<JsonView>::empty()
        }));
    } else {
        reveal_with_fuel(Seq::filter, 1);
    }
    assert(page_events(logins, last_seen) =~= logins.filter(new).map_values(event));
}

proof fn lemma_any_new(logins: Seq<JsonView>, last_seen: int)
    ensures
        page_events(logins, last_seen).len() > 0 <==> exists|i: int|
            0 <= i < logins.len() && date_first(#[trigger] logins[i]) > last_seen,
    decreases logins.len(),
{
    if logins.len() > 0 {
        let rest = logins.skip(1);
        lemma_any_new(rest, last_seen);
        if exists|i: int| 0 <= i < rest.len() && date_first(#[trigger] rest[i]) > last_seen {
            let i = choose|i: int| 0 <= i < rest.len() && date_first(#[trigger] rest[i]) > last_seen;
            assert(logins[i + 1] == rest[i]);
        }
        if exists|i: int| 0 <= i < logins.len() && date_first(#[trigger] logins[i]) > last_seen {
            let i = choose|i: int|
                0 <= i < logins.len() && date_first(#[trigger] logins[i]) > last_seen;
            if i > 0 {
                assert(rest[i - 1] == logins[i]);
            }
        }
    }
}

/// A page with a new login that is not the last of its pages leads to the next one:
/// once its logins are delivered, the page with the next number is asked for. Where
/// it is the last, or nothing on it is new, no further page is.
pub proof fn law_every_page_is_asked_for(
    poll: AccessView,
    body: Seq<char>,
    reply: JsonView,
    logins: Seq<JsonView>,
    paging: JsonView,
    page: u64,
    pages: u64,
)
    requires
        poll.phase == AccessPhase::Fetching,
        poll.page < u64::MAX,
        json_parse(body) == Some(reply),
        has_member(reply, "ok"@, JsonView::Bool(true)),
        has_member(reply, "logins"@, JsonView::Arr(logins)),
        has_member(reply, "paging"@, paging),
        has_member(paging, "page"@, JsonView::Int(page as int)),
        has_member(paging, "pages"@, JsonView::Int(pages as int)),
    ensures
        ({
            let any = exists|i: int|
                0 <= i < logins.len() && date_first(#[trigger] logins[i]) > poll.last_seen;
            let run = run_page(poll, body);
            &&& any && page < pages ==> run.action == (AccessActionView::Fetch {
                page: decimal(poll.page + 1),
            }) && run.poll.page == poll.page + 1
            &&& !(any && page < pages) ==> !(run.action is Fetch)
            &&& run.events == page_events(logins, poll.last_seen)
        }),
{
    law_page_delivers_its_new_logins(poll, body);
    lemma_any_new(logins, poll.last_seen);
}

/// A poll begins with the first page and with nothing newer than where it begins.
pub proof fn law_poll_begins_with_the_first_page(last_seen: int)
    ensures
        fetch_page(first_access_poll(last_seen)).1 == (AccessActionView::Fetch { page: "1"@ }),
        fetch_page(first_access_poll(last_seen)).0 == first_access_poll(last_seen),
        first_access_poll(last_seen).last_seen == last_seen,
        first_access_poll(last_seen).max_seen == last_seen,
        first_access_poll(last_seen).phase == AccessPhase::Fetching,
{
    reveal_strlit("1");
    assert(decimal(1) =~= "1"@);
}

/// A poll begins behind the later of what is stored and its reach; where nothing
/// that is a number is stored, the epoch stands for it.
pub proof fn law_where_a_poll_begins(stored: Seq<char>, n: i64, now: int, days: int)
    ensures
        ({
            let reach = floor_second(now, days);
            let at = first_seen(Some(stored), now, days);
            let kept = if i64_value(stored) == Some(n) {
                n as int
            } else {
                0
            };
            &&& i64_value(stored) == Some(n) || i64_value(stored) is None ==> {
                &&& at >= kept && at >= reach
                &&& at == kept || at == reach
            }
            &&& first_seen(None, now, days) >= 0 && first_seen(None, now, days) >= reach
            &&& first_seen(None, now, days) == 0 || first_seen(None, now, days) == reach
        }),
{
}

/// Why a poll fails: what the API names, a body that is no document, no answer, or
/// a store that does not take the time. A time that is stored ends the poll.
pub proof fn law_how_a_poll_fails(
    poll: AccessView,
    body: Seq<char>,
    reply: JsonView,
    error: Seq<char>,
)
    ensures
        poll.phase == AccessPhase::Fetching ==> {
            let answered = next_access_step(poll, AccessInputView::Reply { body });
            let refused = AccessActionView::Fail(AccessErrorView::Api(error));
            let ok = has_member(reply, "ok"@, JsonView::Bool(true));
            &&& json_parse(body) is None ==> answered.1 == AccessActionView::Fail(
                AccessErrorView::InvalidBody,
            )
            &&& json_parse(body) == Some(reply) && !ok && has_text(reply, "error"@, error)
                ==> answered.1 == refused
            &&& json_parse(body) == Some(reply) && !ok && lacks_text(reply, "error"@) && error
                == "?"@ ==> answered.1 == refused
            &&& next_access_step(poll, AccessInputView::Unreachable).1 == AccessActionView::Fail(
                AccessErrorView::Unreachable,
            )
        },
        poll.phase == AccessPhase::Saving ==> {
            &&& next_access_step(poll, AccessInputView::Saved).1 == AccessActionView::Finish
            &&& next_access_step(poll, AccessInputView::SaveFailed).1 == AccessActionView::Fail(
                AccessErrorView::State,
            )
        },
{
}

/// Where the logins are, how many come on a page, and under which key the poller
/// keeps the time that it came to.
pub proof fn law_terms_of_the_access_poller()
    ensures
        ACCESS_LOGS_URL@ == "https://slack.com/api/team.accessLogs"@,
        PAGE_COUNT == 100,
        KEY_DATE_FIRST@ == "access_logs.date_first"@,
{
}

/// What happened is seen as it is.
pub proof fn law_access_inputs_are_seen_whole(input: AccessInput)
    ensures
        input matches AccessInput::Reply { body } ==> input@ == (AccessInputView::Reply {
            body: body@,
        }),
        input is Unreachable <==> input@ is Unreachable,
        input is Accepted <==> input@ is Accepted,
        input is Rejected <==> input@ is Rejected,
        input is Saved <==> input@ is Saved,
        input is SaveFailed <==> input@ is SaveFailed,
{
}

/// What to do is seen as it is.
pub proof fn law_access_actions_are_seen_whole(action: AccessAction)
    ensures
        action matches AccessAction::Fetch { page } ==> action@ == (AccessActionView::Fetch {
            page: page@,
        }),
        action matches AccessAction::Emit(e) ==> action@ == AccessActionView::Emit(e@),
        action matches AccessAction::Save(text) ==> action@ == AccessActionView::Save(text@),
        action is Finish <==> action@ is Finish,
        action is Stop <==> action@ is Stop,
        action is Fail <==> action@ is Fail,
        action matches AccessAction::Fail(AccessError::Api(error)) ==> action@
            == AccessActionView::Fail(AccessErrorView::Api(error@)),
        action matches AccessAction::Fail(AccessError::InvalidBody) ==> action@
            == AccessActionView::Fail(AccessErrorView::InvalidBody),
        action matches AccessAction::Fail(AccessError::Unreachable) ==> action@
            == AccessActionView::Fail(AccessErrorView::Unreachable),
        action matches AccessAction::Fail(AccessError::State) ==> action@ == AccessActionView::Fail(
            AccessErrorView::State,
        ),
{
}

/// Pages are numbered one after the other, as far as a counter reaches.
pub proof fn law_pages_are_numbered(page: u64)
    ensures
        page < u64::MAX ==> page_after(page as int) == page + 1,
        page == u64::MAX ==> page_after(page as int) == page,
{
}

}
