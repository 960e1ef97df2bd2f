//! The Audit Logs poller: one poll as a machine that is told what happened and
//! says what to do next.

use crate::backfill::{backfill_floor_at, floor_second, law_floor_is_in_the_past, SECONDS_PER_DAY};
use crate::clock::{nameable, Timestamp};
use crate::config::DEFAULT_BACKFILL_DAYS;
use crate::decimal::{
    decimal, i64_text, i64_value, law_decimal_reads_back, parse_i64, parse_u64, u64_value,
};
use crate::dedup::{empty_cache, lemma_remember, remember, well_formed, DedupCache, DedupView};
use crate::event::{EventView, NormalizedEvent};
use crate::json::{
    copy_text, field_i64, field_items, field_str, has_member, has_text, items_view, json_parse,
    lacks_member, lacks_text, law_numbers_are_read, opt_json, opt_text, parse_document, rest_from,
    Json, JsonView,
};
use crate::normalize::{audit_event, normalize_audit_payload};
use crate::slack_api::{keep_if_not_empty, next_cursor, not_empty, reply_next_cursor};
use vstd::prelude::*;

verus! {

pub const AUDIT_URL: &'static str = "https://api.slack.com/audit/v1/logs";

/// Entries on a page.
pub const PAGE_LIMIT: u64 = 200;

/// The key under which the time of the newest entry is kept.
pub const KEY_OLDEST: &'static str = "audit.oldest";

/// The key under which the cursor of a page run is kept.
pub const KEY_CURSOR: &'static str = "audit.cursor";

/// Ids that the poller remembers.
pub const DEDUP_CAPACITY: usize = 10_000;

/// Seconds to wait where a refusal does not say how long.
pub const DEFAULT_WAIT: u64 = 30;

/// Where a poll stands.
#[derive(Debug, Clone, Copy, PartialEq, Eq, Structural)]
pub enum AuditPhase {
    /// A page is being fetched.
    Fetching,
    /// The API asked for a pause.
    Waiting,
    /// The first entry of the page is being delivered.
    Emitting,
    /// The cursor of the next page is being stored.
    SavingCursor,
    /// The time of the newest entry is being stored.
    SavingOldest,
    /// The stored cursor is being cleared.
    ClearingCursor,
    /// The poll is over.
    Over,
}

/// What a poll did with the entries that it fetched.
#[derive(Debug, Clone, Copy, PartialEq, Eq, Structural)]
pub struct AuditCounts {
    pub fetched: u64,
    pub forwarded: u64,
    pub deduped: u64,
    /// Entries without an id.
    pub invalid: u64,
}

pub struct PollView {
    pub phase: AuditPhase,
    /// Entries before this second are not asked for.
    pub oldest: int,
    pub cursor: Option<Seq<char>>,
    /// The time of the newest entry so far.
    pub newest: int,
    pub counts: AuditCounts,
    /// The entries of the page that are not done with.
    pub page: Seq<JsonView>,
    /// The cursor of the page behind this one.
    pub next: Option<Seq<char>>,
}

/// What happened.
#[derive(Debug)]
pub enum AuditInput {
    /// The API answered, with its `Retry-After` header where that is text.
    Reply { status: u16, retry_after: Option<String>, body: String },
    /// The API could not be reached.
    Unreachable,
    /// The pause is over.
    Waited,
    /// The event was delivered, or dropped by the filter.
    Accepted,
    /// The event could not be delivered.
    Rejected,
    /// The store took the value.
    Saved,
    /// The store did not take the value.
    SaveFailed,
}

pub enum InputView {
    Reply { status: u16, retry_after: Option<Seq<char>>, body: Seq<char> },
    Unreachable,
    Waited,
    Accepted,
    Rejected,
    Saved,
    SaveFailed,
}

/// Why a poll failed.
#[derive(Debug)]
pub enum AuditError {
    /// The token does not open the Audit Logs API: Enterprise Grid and the scope
    /// `auditlogs:read` are needed.
    Rejected { status: u16 },
    /// Another status than success.
    Http { status: u16, body: String },
    /// The body is no JSON document.
    InvalidBody,
    Unreachable,
    /// The store did not take a value.
    State,
}

pub enum ErrorView {
    Rejected { status: u16 },
    Http { status: u16, body: Seq<char> },
    InvalidBody,
    Unreachable,
    State,
}

/// What to do next.
#[derive(Debug)]
pub enum AuditAction {
    /// Fetch a page of at most `PAGE_LIMIT` entries.
    Fetch { oldest: String, cursor: Option<String> },
    /// Pause for so many seconds.
    Wait(u64),
    /// Deliver the event.
    Emit(NormalizedEvent),
    /// Store the cursor.
    SaveCursor(String),
    /// Store the time of the newest entry.
    SaveOldest(String),
    /// Store an empty cursor.
    ClearCursor,
    /// The poll is complete.
    Finish(AuditCounts),
    /// The poll ends here and stores nothing more.
    Stop,
    Fail(AuditError),
}

pub enum ActionView {
    Fetch { oldest: Seq<char>, cursor: Option<Seq<char>> },
    Wait(u64),
    Emit(EventView),
    SaveCursor(Seq<char>),
    SaveOldest(Seq<char>),
    ClearCursor,
    Finish(AuditCounts),
    Stop,
    Fail(ErrorView),
}

impl View for AuditInput {
    type V = InputView;

    open spec fn view(&self) -> InputView {
        match self {
            AuditInput::Reply { status, retry_after, body } => InputView::Reply {
                status: *status,
                retry_after: opt_text(*retry_after),
                body: body@,
            },
            AuditInput::Unreachable => InputView::Unreachable,
            AuditInput::Waited => InputView::Waited,
            AuditInput::Accepted => InputView::Accepted,
            AuditInput::Rejected => InputView::Rejected,
            AuditInput::Saved => InputView::Saved,
            AuditInput::SaveFailed => InputView::SaveFailed,
        }
    }
}

impl View for AuditError {
    type V = ErrorView;

    open spec fn view(&self) -> ErrorView {
        match self {
            AuditError::Rejected { status } => ErrorView::Rejected { status: *status },
            AuditError::Http { status, body } => ErrorView::Http { status: *status, body: body@ },
            AuditError::InvalidBody => ErrorView::InvalidBody,
            AuditError::Unreachable => ErrorView::Unreachable,
            AuditError::State => ErrorView::State,
        }
    }
}

impl View for AuditAction {
    type V = ActionView;

    open spec fn view(&self) -> ActionView {
        match self {
            AuditAction::Fetch { oldest, cursor } => ActionView::Fetch {
                oldest: oldest@,
                cursor: opt_text(*cursor),
            },
            AuditAction::Wait(secs) => ActionView::Wait(*secs),
            AuditAction::Emit(event) => ActionView::Emit(event@),
            AuditAction::SaveCursor(cursor) => ActionView::SaveCursor(cursor@),
            AuditAction::SaveOldest(oldest) => ActionView::SaveOldest(oldest@),
            AuditAction::ClearCursor => ActionView::ClearCursor,
            AuditAction::Finish(counts) => ActionView::Finish(*counts),
            AuditAction::Stop => ActionView::Stop,
            AuditAction::Fail(error) => ActionView::Fail(error@),
        }
    }
}

// ---------------------------------------------------------------------------
// The machine
// ---------------------------------------------------------------------------

/// One more, as far as a counter reaches.
pub open spec fn one_more(n: u64) -> u64 {
    if n < u64::MAX {
        (n + 1) as u64
    } else {
        n
    }
}

/// The second from which a poll asks for entries: the stored one, or without
/// one a day ago, though not before the reach of `days` days.
pub open spec fn first_oldest(stored: Option<Seq<char>>, now: int, days: int) -> int {
    match stored {
        Some(text) => match i64_value(text) {
            Some(n) => n as int,
            None => fresh_oldest(now, days),
        },
        None => fresh_oldest(now, days),
    }
}

pub open spec fn fresh_oldest(now: int, days: int) -> int {
    if floor_second(now, days) > now - SECONDS_PER_DAY {
        floor_second(now, days)
    } else {
        now - SECONDS_PER_DAY
    }
}

/// A poll that has done nothing yet.
pub open spec fn first_poll(oldest: int, cursor: Option<Seq<char>>) -> PollView {
    PollView {
        phase: AuditPhase::Fetching,
        oldest,
        cursor,
        newest: oldest,
        counts: AuditCounts { fetched: 0, forwarded: 0, deduped: 0, invalid: 0 },
        page: seq![],
        next: None,
    }
}

/// Fetch the page that the poll stands before.
pub open spec fn fetch(poll: PollView) -> (PollView, ActionView) {
    (
        PollView { phase: AuditPhase::Fetching, ..poll },
        ActionView::Fetch { oldest: decimal(poll.oldest), cursor: poll.cursor },
    )
}

/// The later of the newest time so far and the time of an entry.
pub open spec fn newest_with(newest: int, entry: JsonView) -> int {
    match field_i64(entry, "date_create"@) {
        Some(ts) => if ts > newest {
            ts as int
        } else {
            newest
        },
        None => newest,
    }
}

/// The poll having looked at the first entry of the page.
pub open spec fn looked_at(poll: PollView) -> PollView {
    PollView {
        newest: newest_with(poll.newest, poll.page[0]),
        counts: AuditCounts { fetched: one_more(poll.counts.fetched), ..poll.counts },
        ..poll
    }
}

/// The poll without the first entry of the page.
pub open spec fn past_entry(poll: PollView) -> PollView {
    PollView { page: poll.page.skip(1), ..poll }
}

/// Go through the page up to the next entry that is to be delivered: entries
/// without an id and entries that were seen before are passed over. Behind the
/// last entry the cursor of the next page is stored, or where there is none the
/// time of the newest entry.
pub open spec fn walk(poll: PollView, seen: DedupView) -> (PollView, ActionView)
    decreases poll.page.len(),
{
    if poll.page.len() == 0 {
        match poll.next {
            Some(c) => (
                PollView { phase: AuditPhase::SavingCursor, cursor: Some(c), ..poll },
                ActionView::SaveCursor(c),
            ),
            None => (
                PollView { phase: AuditPhase::SavingOldest, ..poll },
                ActionView::SaveOldest(decimal(poll.newest)),
            ),
        }
    } else {
        let at = looked_at(poll);
        match field_str(poll.page[0], "id"@) {
            None => walk(
                PollView {
                    counts: AuditCounts { invalid: one_more(at.counts.invalid), ..at.counts },
                    ..past_entry(at)
                },
                seen,
            ),
            Some(id) => if seen.ids.contains(id) {
                walk(
                    PollView {
                        counts: AuditCounts { deduped: one_more(at.counts.deduped), ..at.counts },
                        ..past_entry(at)
                    },
                    seen,
                )
            } else {
                (
                    PollView { phase: AuditPhase::Emitting, ..at },
                    ActionView::Emit(audit_event(poll.page[0], id)),
                )
            },
        }
    }
}

/// The poll with a fetched page.
pub open spec fn with_page(poll: PollView, body: JsonView) -> PollView {
    PollView { page: field_items(body, "entries"@), next: next_cursor(body), ..poll }
}

/// The poll with its first entry delivered.
pub open spec fn delivered(poll: PollView) -> PollView {
    PollView {
        counts: AuditCounts { forwarded: one_more(poll.counts.forwarded), ..poll.counts },
        ..past_entry(poll)
    }
}

/// The ids that are known once the first entry is delivered.
pub open spec fn known_after(poll: PollView, seen: DedupView) -> DedupView {
    match field_str(poll.page[0], "id"@) {
        Some(id) => remember(seen, id),
        None => seen,
    }
}

pub open spec fn fail(poll: PollView, error: ErrorView) -> (PollView, ActionView) {
    (PollView { phase: AuditPhase::Over, ..poll }, ActionView::Fail(error))
}

pub open spec fn stop(poll: PollView) -> (PollView, ActionView) {
    (PollView { phase: AuditPhase::Over, ..poll }, ActionView::Stop)
}

/// How long to pause: what `Retry-After` says in seconds, or `DEFAULT_WAIT`.
pub open spec fn pause(retry_after: Option<Seq<char>>) -> u64 {
    match retry_after {
        Some(text) => match u64_value(text) {
            Some(secs) => secs,
            None => DEFAULT_WAIT,
        },
        None => DEFAULT_WAIT,
    }
}

/// What follows an answer of the API. `parsed` is what its body says.
pub open spec fn on_reply(
    poll: PollView,
    seen: DedupView,
    status: u16,
    retry_after: Option<Seq<char>>,
    body: Seq<char>,
    parsed: Option<JsonView>,
) -> (PollView, ActionView) {
    if status == 200 {
        match parsed {
            Some(json) => walk(with_page(poll, json), seen),
            None => fail(poll, ErrorView::InvalidBody),
        }
    } else if status == 429 {
        (PollView { phase: AuditPhase::Waiting, ..poll }, ActionView::Wait(pause(retry_after)))
    } else if status == 401 || status == 403 {
        fail(poll, ErrorView::Rejected { status })
    } else {
        fail(poll, ErrorView::Http { status, body })
    }
}

/// What is seen after an input.
pub open spec fn seen_after(poll: PollView, seen: DedupView, input: InputView) -> DedupView {
    if poll.phase == AuditPhase::Emitting && input == InputView::Accepted && poll.page.len() > 0 {
        known_after(poll, seen)
    } else {
        seen
    }
}

/// The poll and what it does after an input. An input that the poll does not
/// wait for ends it, and nothing more is stored.
pub open spec fn next_step(
    poll: PollView,
    seen: DedupView,
    input: InputView,
) -> (PollView, ActionView) {
    match (poll.phase, input) {
        (AuditPhase::Fetching, InputView::Reply { status, retry_after, body }) => on_reply(
            poll,
            seen,
            status,
            retry_after,
            body,
            json_parse(body),
        ),
        (AuditPhase::Fetching, InputView::Unreachable) => fail(poll, ErrorView::Unreachable),
        (AuditPhase::Waiting, InputView::Waited) => fetch(poll),
        (AuditPhase::Emitting, InputView::Accepted) => if poll.page.len() > 0 {
            walk(delivered(poll), known_after(poll, seen))
        } else {
            stop(poll)
        },
        (AuditPhase::SavingCursor, InputView::Saved) => fetch(poll),
        (AuditPhase::SavingCursor, InputView::SaveFailed) => fail(poll, ErrorView::State),
        (AuditPhase::SavingOldest, InputView::Saved) => (
            PollView { phase: AuditPhase::ClearingCursor, ..poll },
            ActionView::ClearCursor,
        ),
        (AuditPhase::SavingOldest, InputView::SaveFailed) => fail(poll, ErrorView::State),
        (AuditPhase::ClearingCursor, InputView::Saved) => finish(poll),
        (AuditPhase::ClearingCursor, InputView::SaveFailed) => finish(poll),
        _ => stop(poll),
    }
}

pub open spec fn finish(poll: PollView) -> (PollView, ActionView) {
    (PollView { phase: AuditPhase::Over, ..poll }, ActionView::Finish(poll.counts))
}

// ---------------------------------------------------------------------------
// The code
// ---------------------------------------------------------------------------

/// One poll of the Audit Logs API.
#[derive(Debug)]
pub struct AuditPoll {
    phase: AuditPhase,
    oldest: i64,
    cursor: Option<String>,
    newest: i64,
    counts: AuditCounts,
    entries: Vec<Json>,
    at: usize,
    next: Option<String>,
}

impl View for AuditPoll {
    type V = PollView;

    closed spec fn view(&self) -> PollView {
        PollView {
            phase: self.phase,
            oldest: self.oldest as int,
            cursor: opt_text(self.cursor),
            newest: self.newest as int,
            counts: self.counts,
            page: rest_from(items_view(self.entries@), self.at as int),
            next: opt_text(self.next),
        }
    }
}

fn count_one(n: u64) -> (more: u64)
    ensures
        more == one_more(n),
{
    if n < 0xffff_ffff_ffff_ffff {
        n + 1
    } else {
        n
    }
}

impl AuditPoll {
    fn fetch(&mut self) -> (action: AuditAction)
        ensures
            (final(self)@, action@) == fetch(old(self)@),
    {
        self.phase = AuditPhase::Fetching;
        AuditAction::Fetch { oldest: i64_text(self.oldest), cursor: copy_text(&self.cursor) }
    }

    fn fail(&mut self, error: AuditError) -> (action: AuditAction)
        ensures
            (final(self)@, action@) == fail(old(self)@, error@),
    {
        self.phase = AuditPhase::Over;
        AuditAction::Fail(error)
    }

    fn stop(&mut self) -> (action: AuditAction)
        ensures
            (final(self)@, action@) == stop(old(self)@),
    {
        self.phase = AuditPhase::Over;
        AuditAction::Stop
    }

    /// Go through the page up to the next entry that is to be delivered.
    fn walk(&mut self, seen: &DedupCache) -> (action: AuditAction)
        ensures
            (final(self)@, action@) == walk(old(self)@, seen@),
    {
        while self.at < self.entries.len()
            invariant
                walk(self@, seen@) == walk(old(self)@, seen@),
            decreases self.entries@.len() - self.at,
        {
            let ghost here = self@;
            let entry: &Json = &self.entries[self.at];
            assert(here.page[0] == entry@);
            assert(here.page.skip(1) == rest_from(items_view(self.entries@), self.at + 1));
            let found: Option<String> = entry.get_str("id");
            let known: bool = match &found {
                Some(id) => seen.knows(id.as_str()),
                None => true,
            };
            let made: Option<NormalizedEvent> = if known {
                None
            } else {
                match normalize_audit_payload(entry.clone()) {
                    Ok(event) => Some(event),
                    Err(_) => None,
                }
            };
            if let Some(ts) = entry.get_i64("date_create") {
                if ts > self.newest {
                    self.newest = ts;
                }
            }
            self.counts.fetched = count_one(self.counts.fetched);
            match made {
                Some(event) => {
                    self.phase = AuditPhase::Emitting;
                    return AuditAction::Emit(event);
                },
                None => {
                    if found.is_some() {
                        self.counts.deduped = count_one(self.counts.deduped);
                    } else {
                        self.counts.invalid = count_one(self.counts.invalid);
                    }
                    self.at = self.at + 1;
                },
            }
        }
        assert(self@.page.len() == 0);
        match &self.next {
            Some(c) => {
                let cursor: String = c.clone();
                self.cursor = Some(cursor.clone());
                self.phase = AuditPhase::SavingCursor;
                AuditAction::SaveCursor(cursor)
            },
            None => {
                self.phase = AuditPhase::SavingOldest;
                AuditAction::SaveOldest(i64_text(self.newest))
            },
        }
    }
}

impl AuditPoll {
    /// What follows an answer of the API, where `parsed` is what its body says.
    pub fn on_reply(
        &mut self,
        seen: &DedupCache,
        status: u16,
        retry_after: Option<String>,
        body: String,
        parsed: Option<Json>,
    ) -> (action: AuditAction)
        ensures
            (final(self)@, action@) == on_reply(
                old(self)@,
                seen@,
                status,
                opt_text(retry_after),
                body@,
                opt_json(parsed),
            ),
    {
        if status == 200 {
            match parsed {
                Some(json) => {
                    self.entries = json.get_items("entries");
                    self.at = 0;
                    self.next = reply_next_cursor(&json);
                    assert(self@.page =~= field_items(json@, "entries"@));
                    self.walk(seen)
                },
                None => self.fail(AuditError::InvalidBody),
            }
        } else if status == 429 {
            let told: Option<u64> = match &retry_after {
                Some(text) => parse_u64(text.as_str()),
                None => None,
            };
            self.phase = AuditPhase::Waiting;
            match told {
                Some(secs) => AuditAction::Wait(secs),
                None => AuditAction::Wait(DEFAULT_WAIT),
            }
        } else if status == 401 || status == 403 {
            self.fail(AuditError::Rejected { status })
        } else {
            self.fail(AuditError::Http { status, body })
        }
    }

    /// The first entry of the page is delivered.
    fn on_accepted(&mut self, seen: &mut DedupCache) -> (action: AuditAction)
        ensures
            old(self)@.page.len() > 0 ==> {
                &&& (final(self)@, action@) == walk(
                    delivered(old(self)@),
                    known_after(old(self)@, old(seen)@),
                )
                &&& final(seen)@ == known_after(old(self)@, old(seen)@)
            },
            old(self)@.page.len() == 0 ==> {
                &&& (final(self)@, action@) == stop(old(self)@)
                &&& final(seen)@ == old(seen)@
            },
    {
        if self.at >= self.entries.len() {
            return self.stop();
        }
        assert(self@.page[0] == self.entries@[self.at as int]@);
        assert(self@.page.skip(1) == rest_from(items_view(self.entries@), self.at + 1));
        if let Some(id) = self.entries[self.at].get_str("id") {
            seen.record(id.as_str());
        }
        self.counts.forwarded = count_one(self.counts.forwarded);
        self.at = self.at + 1;
        assert(self@ == delivered(old(self)@));
        self.walk(seen)
    }
}

/// Polls the Audit Logs API. The API sends entries from `oldest` on, that second
/// included, so the newest entries come back with every poll: ids that were
/// delivered are remembered and dropped.
pub struct AuditPoller {
    pub user_token: String,
    pub poll_seconds: u64,
    pub backfill_days: u64,
    /// The ids that were delivered of late.
    pub dedup: DedupCache,
}

impl AuditPoller {
    /// A poller with the usual reach.
    pub fn new(user_token: String, poll_seconds: u64) -> (poller: Self)
        ensures
            poller.user_token == user_token,
            poller.poll_seconds == poll_seconds,
            poller.backfill_days == DEFAULT_BACKFILL_DAYS,
            poller.dedup@ == empty_cache(DEDUP_CAPACITY as nat),
    {
        AuditPoller::with_backfill(user_token, poll_seconds, DEFAULT_BACKFILL_DAYS)
    }

    /// A poller that on a fresh cursor reaches back no more than
    /// `backfill_days`.
    pub fn with_backfill(user_token: String, poll_seconds: u64, backfill_days: u64) -> (poller:
        Self)
        ensures
            poller.user_token == user_token,
            poller.poll_seconds == poll_seconds,
            poller.backfill_days == backfill_days,
            poller.dedup@ == empty_cache(DEDUP_CAPACITY as nat),
    {
        AuditPoller { user_token, poll_seconds, backfill_days, dedup: DedupCache::new(DEDUP_CAPACITY) }
    }

    /// Begin a poll from what is stored.
    pub fn begin(
        &self,
        stored_oldest: Option<String>,
        stored_cursor: Option<String>,
        now: Timestamp,
    ) -> (begun: (AuditPoll, AuditAction))
        ensures
            (begun.0@, begun.1@) == fetch(
                first_poll(
                    first_oldest(
                        opt_text(stored_oldest),
                        now@.secs,
                        self.backfill_days as int,
                    ),
                    not_empty(opt_text(stored_cursor)),
                ),
            ),
    {
        let stored: Option<i64> = match &stored_oldest {
            Some(text) => parse_i64(text.as_str()),
            None => None,
        };
        let oldest: i64 = match stored {
            Some(n) => n,
            None => {
                let floor: i64 = backfill_floor_at(now.secs(), self.backfill_days);
                let day_ago: i64 = now.day_before();
                if floor > day_ago {
                    floor
                } else {
                    day_ago
                }
            },
        };
        let mut poll: AuditPoll = AuditPoll {
            phase: AuditPhase::Fetching,
            oldest,
            cursor: keep_if_not_empty(stored_cursor),
            newest: oldest,
            counts: AuditCounts { fetched: 0, forwarded: 0, deduped: 0, invalid: 0 },
            entries: Vec::new(),
            at: 0,
            next: None,
        };
        assert(poll@.page =~= Seq::<JsonView>::empty());
        let action: AuditAction = poll.fetch();
        (poll, action)
    }

    /// Go on with a poll after `input`.
    pub fn step(&mut self, poll: &mut AuditPoll, input: AuditInput) -> (action: AuditAction)
        ensures
            (final(poll)@, action@) == next_step(old(poll)@, old(self).dedup@, input@),
            final(self).dedup@ == seen_after(old(poll)@, old(self).dedup@, input@),
            final(self).user_token == old(self).user_token,
            final(self).poll_seconds == old(self).poll_seconds,
            final(self).backfill_days == old(self).backfill_days,
    {
        match (poll.phase, input) {
            (AuditPhase::Fetching, AuditInput::Reply { status, retry_after, body }) => {
                let parsed: Option<Json> = parse_document(body.as_str());
                poll.on_reply(&self.dedup, status, retry_after, body, parsed)
            },
            (AuditPhase::Fetching, AuditInput::Unreachable) => poll.fail(AuditError::Unreachable),
            (AuditPhase::Waiting, AuditInput::Waited) => poll.fetch(),
            (AuditPhase::Emitting, AuditInput::Accepted) => poll.on_accepted(&mut self.dedup),
            (AuditPhase::SavingCursor, AuditInput::Saved) => poll.fetch(),
            (AuditPhase::SavingCursor, AuditInput::SaveFailed) => poll.fail(AuditError::State),
            (AuditPhase::SavingOldest, AuditInput::Saved) => {
                poll.phase = AuditPhase::ClearingCursor;
                AuditAction::ClearCursor
            },
            (AuditPhase::SavingOldest, AuditInput::SaveFailed) => poll.fail(AuditError::State),
            (AuditPhase::ClearingCursor, AuditInput::Saved) => poll.finish(),
            (AuditPhase::ClearingCursor, AuditInput::SaveFailed) => poll.finish(),
            _ => poll.stop(),
        }
    }
}

impl AuditPoll {
    fn finish(&mut self) -> (action: AuditAction)
        ensures
            (final(self)@, action@) == finish(old(self)@),
    {
        self.phase = AuditPhase::Over;
        AuditAction::Finish(self.counts)
    }
}

// ---------------------------------------------------------------------------
// Laws
// ---------------------------------------------------------------------------

/// An entry that is not delivered: it has no id, or its id is known.
pub open spec fn passed_over(entry: JsonView, seen: DedupView) -> bool {
    match field_str(entry, "id"@) {
        Some(id) => seen.ids.contains(id),
        None => true,
    }
}

/// Every entry that was fetched was delivered, known or without an id, or is
/// being delivered.
pub open spec fn tallied(poll: PollView) -> bool {
    poll.counts.fetched == poll.counts.forwarded + poll.counts.deduped + poll.counts.invalid + (
    if poll.phase == AuditPhase::Emitting {
        1int
    } else {
        0int
    })
}

/// Going through a page passes over no entry that is new: what lies between the
/// first entry and the one to be delivered, or the end, is known or has no id.
/// The newest time is at least that of every entry on the way.
pub proof fn law_walk_passes_over_nothing_new(poll: PollView, seen: DedupView)
    ensures
        ({
            let (after, action) = walk(poll, seen);
            let k = poll.page.len() - after.page.len();
            &&& 0 <= k <= poll.page.len()
            &&& after.page == poll.page.skip(k)
            &&& forall|i: int| 0 <= i < k ==> passed_over(#[trigger] poll.page[i], seen)
            &&& match action {
                ActionView::Emit(e) => {
                    &&& after.phase == AuditPhase::Emitting
                    &&& k < poll.page.len()
                    &&& field_str(poll.page[k], "id"@) == Some(e.slack.event_id)
                    &&& !seen.ids.contains(e.slack.event_id)
                    &&& e.raw == poll.page[k]
                },
                ActionView::SaveCursor(c) => k == poll.page.len() && poll.next == Some(c),
                ActionView::SaveOldest(text) => {
                    &&& k == poll.page.len()
                    &&& poll.next is None
                    &&& text == decimal(after.newest)
                },
                _ => false,
            }
            &&& after.oldest == poll.oldest
            &&& after.cursor == (match action {
                ActionView::SaveCursor(c) => Some(c),
                _ => poll.cursor,
            })
            &&& after.newest >= poll.newest
            &&& forall|i: int|
                0 <= i < k ==> newest_with(after.newest, #[trigger] poll.page[i]) == after.newest
        }),
    decreases poll.page.len(),
{
    if poll.page.len() > 0 {
        let at = looked_at(poll);
        let later = match field_str(poll.page[0], "id"@) {
            None => PollView {
                counts: AuditCounts { invalid: one_more(at.counts.invalid), ..at.counts },
                ..past_entry(at)
            },
            Some(id) => PollView {
                counts: AuditCounts { deduped: one_more(at.counts.deduped), ..at.counts },
                ..past_entry(at)
            },
        };
        if passed_over(poll.page[0], seen) {
            law_walk_passes_over_nothing_new(later, seen);
            let (after, action) = walk(poll, seen);
            let k = poll.page.len() - after.page.len();
            assert(after.page =~= poll.page.skip(k));
            assert forall|i: int| 0 <= i < k implies passed_over(#[trigger] poll.page[i], seen)
                && newest_with(after.newest, poll.page[i]) == after.newest by {
                if i > 0 {
                    assert(later.page[i - 1] == poll.page[i]);
                }
            }
            assert(k < poll.page.len() ==> later.page[k - 1] == poll.page[k]);
        } else {
            assert(poll.page.skip(0) =~= poll.page);
        }
    } else {
        assert(poll.page.skip(0) =~= poll.page);
    }
}

/// The events of the entries that are new, in their order: an entry without an id
/// has none, and of two with one id the first.
pub open spec fn page_events(page: Seq<JsonView>, seen: DedupView) -> Seq<EventView>
    decreases page.len(),
{
    if page.len() == 0 {
        seq![]
    } else {
        match field_str(page[0], "id"@) {
            Some(id) => if seen.ids.contains(id) {
                page_events(page.skip(1), seen)
            } else {
                seq![audit_event(page[0], id)] + page_events(page.skip(1), remember(seen, id))
            },
            None => page_events(page.skip(1), seen),
        }
    }
}

/// The latest of `newest` and the times of the entries.
pub open spec fn newest_of(newest: int, page: Seq<JsonView>) -> int
    decreases page.len(),
{
    if page.len() == 0 {
        newest
    } else {
        newest_of(newest_with(newest, page[0]), page.skip(1))
    }
}

/// What a stretch of polling came to: the events that were delivered, the ids
/// that are known, and the poll and what it does at the end.
pub struct RunView {
    pub events: Seq<EventView>,
    pub seen: DedupView,
    pub poll: PollView,
    pub action: ActionView,
}

/// The poll goes on from `action` while every event is accepted.
pub open spec fn accept_all(poll: PollView, seen: DedupView, action: ActionView) -> RunView
    decreases poll.page.len(),
{
    match action {
        ActionView::Emit(e) if poll.phase == AuditPhase::Emitting && poll.page.len() > 0 => {
            let known = seen_after(poll, seen, InputView::Accepted);
            let (at, next) = next_step(poll, seen, InputView::Accepted);
            proof {
                law_walk_passes_over_nothing_new(delivered(poll), known_after(poll, seen));
            }
            let rest = accept_all(at, known, next);
            RunView { events: seq![e] + rest.events, ..rest }
        },
        _ => RunView { events: seq![], seen, poll, action },
    }
}

/// The ids that are known once the entries of a page are done with.
pub open spec fn seen_through(page: Seq<JsonView>, seen: DedupView) -> DedupView
    decreases page.len(),
{
    if page.len() == 0 {
        seen
    } else {
        match field_str(page[0], "id"@) {
            Some(id) => seen_through(page.skip(1), remember(seen, id)),
            None => seen_through(page.skip(1), seen),
        }
    }
}

/// The poll is handed a page and every event is accepted.
pub open spec fn run_page(poll: PollView, seen: DedupView, body: Seq<char>) -> RunView {
    let (at, action) = next_step(
        poll,
        seen,
        InputView::Reply { status: 200, retry_after: None, body },
    );
    accept_all(at, seen, action)
}

/// A page delivers its new entries, each once and in their order, and at its end
/// the cursor of the next page is stored, or the latest time of all entries.
pub proof fn law_page_delivers_its_new_entries(poll: PollView, seen: DedupView, body: Seq<char>)
    requires
        poll.phase == AuditPhase::Fetching,
        json_parse(body) is Some,
    ensures
        ({
            let page = field_items(json_parse(body)->0, "entries"@);
            let run = run_page(poll, seen, body);
            &&& run.events == page_events(page, seen)
            &&& run.seen == seen_through(page, seen)
            &&& run.poll.page.len() == 0
            &&& run.poll.newest == newest_of(poll.newest, page)
            &&& match next_cursor(json_parse(body)->0) {
                Some(c) => {
                    &&& run.action == ActionView::SaveCursor(c)
                    &&& run.poll.phase == AuditPhase::SavingCursor
                },
                None => {
                    &&& run.action == ActionView::SaveOldest(decimal(run.poll.newest))
                    &&& run.poll.phase == AuditPhase::SavingOldest
                },
            }
        }),
{
    lemma_page_runs(with_page(poll, json_parse(body)->0), seen);
}

proof fn lemma_page_runs(poll: PollView, seen: DedupView)
    ensures
        ({
            let (at, action) = walk(poll, seen);
            let run = accept_all(at, seen, action);
            &&& run.events == page_events(poll.page, seen)
            &&& run.seen == seen_through(poll.page, seen)
            &&& run.poll.page.len() == 0
            &&& run.poll.newest == newest_of(poll.newest, poll.page)
            &&& match poll.next {
                Some(c) => {
                    &&& run.action == ActionView::SaveCursor(c)
                    &&& run.poll.phase == AuditPhase::SavingCursor
                },
                None => {
                    &&& run.action == ActionView::SaveOldest(decimal(run.poll.newest))
                    &&& run.poll.phase == AuditPhase::SavingOldest
                },
            }
        }),
    decreases poll.page.len(),
{
    if poll.page.len() > 0 {
        let at = looked_at(poll);
        match field_str(poll.page[0], "id"@) {
            Some(id) => if seen.ids.contains(id) {
                lemma_page_runs(
                    PollView {
                        counts: AuditCounts { deduped: one_more(at.counts.deduped), ..at.counts },
                        ..past_entry(at)
                    },
                    seen,
                );
            } else {
                let emitting = PollView { phase: AuditPhase::Emitting, ..at };
                lemma_page_runs(delivered(emitting), remember(seen, id));
            },
            None => {
                lemma_page_runs(
                    PollView {
                        counts: AuditCounts { invalid: one_more(at.counts.invalid), ..at.counts },
                        ..past_entry(at)
                    },
                    seen,
                );
            },
        }
    }
}

/// The bodies of the pages of one poll: each is a document, and behind each but
/// the last there is another page.
pub open spec fn page_run(bodies: Seq<Seq<char>>) -> bool {
    forall|i: int|
        0 <= i < bodies.len() ==> {
            &&& json_parse(#[trigger] bodies[i]) is Some
            &&& i < bodies.len() - 1 ==> next_cursor(json_parse(bodies[i])->0) is Some
        }
}

/// The entries of the pages, in the order served.
pub open spec fn entries_of(bodies: Seq<Seq<char>>) -> Seq<JsonView>
    decreases bodies.len(),
{
    if bodies.len() == 0 {
        seq![]
    } else {
        field_items(json_parse(bodies[0])->0, "entries"@) + entries_of(bodies.skip(1))
    }
}

/// The poll is handed one page after another, every event is accepted and every
/// value stored.
pub open spec fn run_poll(poll: PollView, seen: DedupView, bodies: Seq<Seq<char>>) -> RunView
    decreases bodies.len(),
{
    if bodies.len() == 0 {
        RunView { events: seq![], seen, poll, action: fetch(poll).1 }
    } else {
        let page = run_page(poll, seen, bodies[0]);
        let (after, action) = next_step(page.poll, page.seen, InputView::Saved);
        if action is Fetch {
            let rest = run_poll(after, page.seen, bodies.skip(1));
            RunView { events: page.events + rest.events, ..rest }
        } else {
            let (end, last) = next_step(after, page.seen, InputView::Saved);
            RunView { poll: end, action: last, ..page }
        }
    }
}

/// A poll as it begins, and the bodies of the pages that it is handed.
pub struct ServedPoll {
    pub start: PollView,
    pub bodies: Seq<Seq<char>>,
}

/// The poll begins by fetching, and its pages follow on each other.
pub open spec fn is_served(poll: ServedPoll) -> bool {
    poll.start.phase == AuditPhase::Fetching && page_run(poll.bodies)
}

/// The entries of all polls, in the order served.
pub open spec fn served_entries(polls: Seq<ServedPoll>) -> Seq<JsonView>
    decreases polls.len(),
{
    if polls.len() == 0 {
        seq![]
    } else {
        entries_of(polls[0].bodies) + served_entries(polls.skip(1))
    }
}

/// The events of one poll after another by one poller, which knows `seen` at
/// first.
pub open spec fn run_polls(seen: DedupView, polls: Seq<ServedPoll>) -> Seq<EventView>
    decreases polls.len(),
{
    if polls.len() == 0 {
        seq![]
    } else {
        let run = run_poll(polls[0].start, seen, polls[0].bodies);
        run.events + run_polls(run.seen, polls.skip(1))
    }
}

/// Entry `i` has an id that no entry before it has.
pub open spec fn is_first(entries: Seq<JsonView>, i: int) -> bool {
    &&& field_str(entries[i], "id"@) is Some
    &&& forall|j: int|
        0 <= j < i ==> field_str(#[trigger] entries[j], "id"@) != field_str(entries[i], "id"@)
}

/// The ids of the entries, each once and in the order in which they first come.
pub open spec fn first_ids(entries: Seq<JsonView>) -> Seq<Seq<char>>
    decreases entries.len(),
{
    if entries.len() == 0 {
        seq![]
    } else if is_first(entries, entries.len() - 1) {
        first_ids(entries.drop_last()).push(field_str(entries.last(), "id"@)->0)
    } else {
        first_ids(entries.drop_last())
    }
}

/// The events of the entries that are the first with their id, in their order.
pub open spec fn first_events(entries: Seq<JsonView>) -> Seq<EventView>
    decreases entries.len(),
{
    if entries.len() == 0 {
        seq![]
    } else if is_first(entries, entries.len() - 1) {
        first_events(entries.drop_last()).push(
            audit_event(entries.last(), field_str(entries.last(), "id"@)->0),
        )
    } else {
        first_events(entries.drop_last())
    }
}

/// Of the first events every id has exactly one: no two share an id, and the ids
/// are those that an entry has.
pub proof fn law_first_events_are_one_for_each_id(entries: Seq<JsonView>)
    ensures
        first_events(entries).len() == first_ids(entries).len(),
        forall|k: int|
            0 <= k < first_ids(entries).len() ==> (#[trigger] first_events(
                entries,
            )[k]).slack.event_id == first_ids(entries)[k],
        first_ids(entries).no_duplicates(),
        forall|id: Seq<char>| #[trigger]
            first_ids(entries).contains(id) <==> exists|i: int|
                0 <= i < entries.len() && field_str(#[trigger] entries[i], "id"@) == Some(id),
    decreases entries.len(),
{
    if entries.len() > 0 {
        let before = entries.drop_last();
        let n = entries.len() - 1;
        law_first_events_are_one_for_each_id(before);
        let ids = first_ids(entries);
        let was = first_ids(before);
        if is_first(entries, n) {
            let new = field_str(entries[n], "id"@)->0;
            assert(!was.contains(new)) by {
                if was.contains(new) {
                    let i = choose|i: int|
                        0 <= i < before.len() && field_str(#[trigger] before[i], "id"@) == Some(new);
                    assert(entries[i] == before[i]);
                }
            }
            assert forall|i: int, j: int|
                0 <= i < ids.len() && 0 <= j < ids.len() && i != j implies ids[i] != ids[j] by {
                assert(i < was.len() ==> was.contains(ids[i]));
                assert(j < was.len() ==> was.contains(ids[j]));
            }
        }
        assert forall|id: Seq<char>| #[trigger] ids.contains(id) implies exists|i: int|
            0 <= i < entries.len() && field_str(#[trigger] entries[i], "id"@) == Some(id) by {
            let k = ids.index_of(id);
            if k < was.len() {
                assert(was[k] == id);
                assert(was.contains(id));
                let i = choose|i: int|
                    0 <= i < before.len() && field_str(#[trigger] before[i], "id"@) == Some(id);
                assert(entries[i] == before[i]);
            } else {
                assert(field_str(entries[n], "id"@) == Some(id));
            }
        }
        assert forall|id: Seq<char>|
            (exists|i: int|
                0 <= i < entries.len() && field_str(#[trigger] entries[i], "id"@) == Some(
                    id,
                )) implies #[trigger] ids.contains(id) by {
            let i = choose|i: int|
                0 <= i < entries.len() && field_str(#[trigger] entries[i], "id"@) == Some(id);
            if i < n {
                assert(before[i] == entries[i]);
                assert(was.contains(id));
                assert(ids[was.index_of(id)] == id);
            } else if is_first(entries, n) {
                assert(ids.last() == id);
            } else {
                let j = choose|j: int|
                    0 <= j < n && field_str(#[trigger] entries[j], "id"@) == Some(id);
                assert(before[j] == entries[j]);
                assert(was.contains(id));
                assert(ids[was.index_of(id)] == id);
            }
        }
    }
}

proof fn lemma_first_ids_grow(done: Seq<JsonView>, rest: Seq<JsonView>)
    ensures
        first_ids(done).len() <= first_ids(done + rest).len(),
    decreases rest.len(),
{
    if rest.len() > 0 {
        lemma_first_ids_grow(done, rest.drop_last());
        assert((done + rest).drop_last() =~= done + rest.drop_last());
    } else {
        assert(done + rest =~= done);
    }
}

/// While nothing has to leave the memory, what is known is what was served, and
/// what a page delivers are its entries that are the first with their id.
proof fn lemma_page_delivers_the_first(
    done: Seq<JsonView>,
    rest: Seq<JsonView>,
    seen: DedupView,
)
    requires
        seen.ids == first_ids(done),
        first_ids(done + rest).len() <= seen.capacity,
    ensures
        first_events(done) + page_events(rest, seen) == first_events(done + rest),
        seen_through(rest, seen).ids == first_ids(done + rest),
        seen_through(rest, seen).capacity == seen.capacity,
    decreases rest.len(),
{
    if rest.len() == 0 {
        assert(done + rest =~= done);
        assert(first_events(done) + page_events(rest, seen) =~= first_events(done));
    } else {
        let on = done.push(rest[0]);
        assert(on + rest.skip(1) =~= done + rest);
        assert(on.drop_last() =~= done);
        lemma_first_ids_grow(on, rest.skip(1));
        law_first_events_are_one_for_each_id(done);
        match field_str(rest[0], "id"@) {
            Some(id) => {
                if seen.ids.contains(id) {
                    let i = choose|i: int|
                        0 <= i < done.len() && field_str(#[trigger] done[i], "id"@) == Some(id);
                    assert(on[i] == done[i]);
                    assert(!is_first(on, done.len() as int));
                    lemma_page_delivers_the_first(on, rest.skip(1), seen);
                } else {
                    assert(is_first(on, done.len() as int)) by {
                        assert forall|j: int| 0 <= j < done.len() implies field_str(
                            #[trigger] on[j],
                            "id"@,
                        ) != field_str(on[done.len() as int], "id"@) by {
                            assert(on[j] == done[j]);
                        }
                    }
                    lemma_page_delivers_the_first(on, rest.skip(1), remember(seen, id));
                    assert(first_events(done) + page_events(rest, seen) =~= first_events(on)
                        + page_events(rest.skip(1), remember(seen, id)));
                }
            },
            None => {
                assert(!is_first(on, done.len() as int));
                lemma_page_delivers_the_first(on, rest.skip(1), seen);
            },
        }
    }
}

proof fn lemma_poll_delivers_the_first(
    poll: PollView,
    done: Seq<JsonView>,
    seen: DedupView,
    bodies: Seq<Seq<char>>,
)
    requires
        poll.phase == AuditPhase::Fetching,
        page_run(bodies),
        seen.ids == first_ids(done),
        first_ids(done + entries_of(bodies)).len() <= seen.capacity,
    ensures
        ({
            let run = run_poll(poll, seen, bodies);
            &&& first_events(done) + run.events == first_events(done + entries_of(bodies))
            &&& run.seen.ids == first_ids(done + entries_of(bodies))
            &&& run.seen.capacity == seen.capacity
        }),
    decreases bodies.len(),
{
    if bodies.len() == 0 {
        assert(done + entries_of(bodies) =~= done);
        assert(first_events(done) + Seq::<EventView>::empty() =~= first_events(done));
    } else {
        let page = field_items(json_parse(bodies[0])->0, "entries"@);
        let run = run_page(poll, seen, bodies[0]);
        let later = bodies.skip(1);
        assert(page_run(later)) by {
            assert forall|i: int| 0 <= i < later.len() implies {
                &&& json_parse(#[trigger] later[i]) is Some
                &&& i < later.len() - 1 ==> next_cursor(json_parse(later[i])->0) is Some
            } by {
                assert(later[i] == bodies[i + 1]);
            }
        }
        law_page_delivers_its_new_entries(poll, seen, bodies[0]);
        assert((done + page) + entries_of(later) =~= done + entries_of(bodies));
        lemma_first_ids_grow(done + page, entries_of(later));
        lemma_page_delivers_the_first(done, page, seen);
        let (after, action) = next_step(run.poll, run.seen, InputView::Saved);
        if action is Fetch {
            lemma_poll_delivers_the_first(after, done + page, run.seen, later);
            assert(first_events(done) + run_poll(poll, seen, bodies).events =~= first_events(
                done + page,
            ) + run_poll(after, run.seen, later).events);
        } else {
            assert(later.len() == 0);
            assert(done + page =~= done + entries_of(bodies));
        }
    }
}

proof fn lemma_polls_deliver_the_first(
    done: Seq<JsonView>,
    seen: DedupView,
    polls: Seq<ServedPoll>,
)
    requires
        forall|i: int| 0 <= i < polls.len() ==> is_served(#[trigger] polls[i]),
        seen.ids == first_ids(done),
        first_ids(done + served_entries(polls)).len() <= seen.capacity,
    ensures
        first_events(done) + run_polls(seen, polls) == first_events(done + served_entries(polls)),
    decreases polls.len(),
{
    if polls.len() == 0 {
        assert(done + served_entries(polls) =~= done);
        assert(first_events(done) + run_polls(seen, polls) =~= first_events(done));
    } else {
        let entries = entries_of(polls[0].bodies);
        let later = polls.skip(1);
        let run = run_poll(polls[0].start, seen, polls[0].bodies);
        assert((done + entries) + served_entries(later) =~= done + served_entries(polls));
        lemma_first_ids_grow(done + entries, served_entries(later));
        lemma_poll_delivers_the_first(polls[0].start, done, seen, polls[0].bodies);
        lemma_polls_deliver_the_first(done + entries, run.seen, later);
        assert(first_events(done) + run_polls(seen, polls) =~= first_events(done + entries)
            + run_polls(run.seen, later));
    }
}

/// Over any number of polls of a new poller, each of any number of pages, every
/// id that is served is delivered exactly once: as the event of the first entry
/// that has it, in the order served, as long as no more ids are served than the
/// poller remembers. An entry without an id is never delivered.
pub proof fn law_every_id_is_delivered_once(capacity: nat, polls: Seq<ServedPoll>)
    requires
        forall|i: int| 0 <= i < polls.len() ==> is_served(#[trigger] polls[i]),
        first_ids(served_entries(polls)).len() <= capacity,
    ensures
        run_polls(empty_cache(capacity), polls) == first_events(served_entries(polls)),
{
    let none = Seq::<JsonView>::empty();
    assert(none + served_entries(polls) =~= served_entries(polls));
    lemma_polls_deliver_the_first(none, empty_cache(capacity), polls);
    assert(first_events(none) + run_polls(empty_cache(capacity), polls) =~= run_polls(
        empty_cache(capacity),
        polls,
    ));
}

/// A cursor or a time is stored only when every entry of the page was delivered,
/// was known before, or has no id; and the time that is stored is never before
/// the one that the poll began with.
pub proof fn law_stored_only_after_delivery(poll: PollView, seen: DedupView, input: InputView)
    requires
        poll.oldest <= poll.newest,
    ensures
        ({
            let (after, action) = next_step(poll, seen, input);
            &&& after.oldest == poll.oldest
            &&& poll.newest <= after.newest
            &&& action matches ActionView::SaveOldest(text) ==> {
                &&& after.page.len() == 0
                &&& text == decimal(after.newest)
                &&& after.oldest <= after.newest
            }
            &&& action is SaveCursor ==> after.page.len() == 0
            &&& (action is SaveOldest || action is SaveCursor) && input == InputView::Accepted ==> {
                &&& poll.page.len() > 0
                &&& forall|i: int|
                    1 <= i < poll.page.len() ==> passed_over(
                        #[trigger] poll.page[i],
                        seen_after(poll, seen, input),
                    )
            }
        }),
{
    if let (AuditPhase::Fetching, InputView::Reply { status, retry_after, body }) = (
        poll.phase,
        input,
    ) {
        if let Some(json) = json_parse(body) {
            law_walk_passes_over_nothing_new(with_page(poll, json), seen);
        }
    }
    if poll.phase == AuditPhase::Emitting && input == InputView::Accepted && poll.page.len() > 0 {
        let on = delivered(poll);
        law_walk_passes_over_nothing_new(on, known_after(poll, seen));
        assert forall|i: int| 1 <= i < poll.page.len() && (next_step(poll, seen, input).1
            is SaveOldest || next_step(poll, seen, input).1 is SaveCursor) implies passed_over(
            #[trigger] poll.page[i],
            seen_after(poll, seen, input),
        ) by {
            assert(on.page[i - 1] == poll.page[i]);
        }
    }
}

/// The cursor of a poll is the last that it stored, or the one that it began
/// with: it changes only as a cursor is stored.
pub proof fn law_cursor_is_the_stored_one(poll: PollView, seen: DedupView, input: InputView)
    ensures
        ({
            let (after, action) = next_step(poll, seen, input);
            after.cursor == (match action {
                ActionView::SaveCursor(c) => Some(c),
                _ => poll.cursor,
            })
        }),
{
    if let (AuditPhase::Fetching, InputView::Reply { status, retry_after, body }) = (
        poll.phase,
        input,
    ) {
        if let Some(json) = json_parse(body) {
            law_walk_passes_over_nothing_new(with_page(poll, json), seen);
        }
    }
    if poll.phase == AuditPhase::Emitting && input == InputView::Accepted && poll.page.len() > 0 {
        law_walk_passes_over_nothing_new(delivered(poll), known_after(poll, seen));
    }
}

/// An event that could not be delivered ends the poll: its id stays unknown, and
/// nothing more is stored, whatever comes later. No time is stored then, and of
/// the cursors of the poll at most that of this page is, so that a poll from the
/// same time and the stored cursor asks for the page of the event again.
pub proof fn law_undelivered_is_not_lost(poll: PollView, seen: DedupView, later: InputView)
    requires
        poll.phase == AuditPhase::Emitting,
    ensures
        ({
            let (after, action) = next_step(poll, seen, InputView::Rejected);
            &&& action == ActionView::Stop
            &&& seen_after(poll, seen, InputView::Rejected) == seen
            &&& next_step(after, seen, later).1 == ActionView::Stop
            &&& after.cursor == poll.cursor
            &&& fetch(first_poll(after.oldest, after.cursor)).1 == fetch(poll).1
        }),
{
}

/// An id is delivered once: what is to be delivered is not known, and once it is
/// delivered it is.
pub proof fn law_delivered_once(poll: PollView, seen: DedupView, input: InputView)
    requires
        well_formed(seen),
    ensures
        ({
            let (after, action) = next_step(poll, seen, input);
            let known = seen_after(poll, seen, input);
            action matches ActionView::Emit(e) ==> {
                &&& !known.ids.contains(e.slack.event_id)
                &&& seen_after(after, known, InputView::Accepted).ids.contains(e.slack.event_id)
            }
        }),
{
    let (after, action) = next_step(poll, seen, input);
    let known = seen_after(poll, seen, input);
    if let (AuditPhase::Fetching, InputView::Reply { status, retry_after, body }) = (
        poll.phase,
        input,
    ) {
        if let Some(json) = json_parse(body) {
            law_walk_passes_over_nothing_new(with_page(poll, json), seen);
        }
    }
    if poll.phase == AuditPhase::Emitting && input == InputView::Accepted && poll.page.len() > 0 {
        law_walk_passes_over_nothing_new(delivered(poll), known);
        if let Some(id) = field_str(poll.page[0], "id"@) {
            lemma_remember(seen, id);
        }
    }
    if let ActionView::Emit(e) = action {
        lemma_remember(known, e.slack.event_id);
    }
}

/// A refusal for going too fast is waited out as long as the API says, and then
/// the same page is asked for, the poll being what it was before.
pub proof fn law_rate_limit_is_waited_out(
    poll: PollView,
    seen: DedupView,
    retry_after: Option<Seq<char>>,
    body: Seq<char>,
)
    requires
        poll.phase == AuditPhase::Fetching,
    ensures
        ({
            let (after, action) = next_step(
                poll,
                seen,
                InputView::Reply { status: 429, retry_after, body },
            );
            &&& action == ActionView::Wait(pause(retry_after))
            &&& next_step(after, seen, InputView::Waited) == fetch(poll)
            &&& fetch(poll).0 == poll
        }),
{
}

/// The counters account for every entry.
pub proof fn law_counts_add_up(poll: PollView, seen: DedupView, input: InputView)
    requires
        tallied(poll),
        poll.counts.fetched + poll.page.len() <= u64::MAX,
        input matches InputView::Reply { status, retry_after, body } ==> (json_parse(
            body,
        ) matches Some(json) ==> poll.counts.fetched + field_items(json, "entries"@).len()
            <= u64::MAX),
    ensures
        ({
            let (after, action) = next_step(poll, seen, input);
            after.phase != AuditPhase::Over ==> tallied(after)
        }),
{
    if let (AuditPhase::Fetching, InputView::Reply { status, retry_after, body }) = (
        poll.phase,
        input,
    ) {
        if let Some(json) = json_parse(body) {
            lemma_walk_tallies(with_page(poll, json), seen);
        }
    }
    if poll.phase == AuditPhase::Emitting && input == InputView::Accepted && poll.page.len() > 0 {
        lemma_walk_tallies(
            PollView { phase: AuditPhase::Fetching, ..delivered(poll) },
            known_after(poll, seen),
        );
        lemma_walk_ignores_phase(delivered(poll), known_after(poll, seen));
    }
}

proof fn lemma_walk_tallies(poll: PollView, seen: DedupView)
    requires
        tallied(poll),
        poll.phase != AuditPhase::Emitting,
        poll.counts.fetched + poll.page.len() <= u64::MAX,
    ensures
        tallied(walk(poll, seen).0),
    decreases poll.page.len(),
{
    if poll.page.len() > 0 && passed_over(poll.page[0], seen) {
        let at = looked_at(poll);
        let later = match field_str(poll.page[0], "id"@) {
            None => PollView {
                counts: AuditCounts { invalid: one_more(at.counts.invalid), ..at.counts },
                ..past_entry(at)
            },
            Some(id) => PollView {
                counts: AuditCounts { deduped: one_more(at.counts.deduped), ..at.counts },
                ..past_entry(at)
            },
        };
        lemma_walk_tallies(later, seen);
    }
}

proof fn lemma_walk_ignores_phase(poll: PollView, seen: DedupView)
    ensures
        walk(poll, seen) == walk(PollView { phase: AuditPhase::Fetching, ..poll }, seen),
    decreases poll.page.len(),
{
    if poll.page.len() > 0 && passed_over(poll.page[0], seen) {
        let at = looked_at(poll);
        let later = match field_str(poll.page[0], "id"@) {
            None => PollView {
                counts: AuditCounts { invalid: one_more(at.counts.invalid), ..at.counts },
                ..past_entry(at)
            },
            Some(id) => PollView {
                counts: AuditCounts { deduped: one_more(at.counts.deduped), ..at.counts },
                ..past_entry(at)
            },
        };
        lemma_walk_ignores_phase(later, seen);
    }
}

/// A restart resumes where the last poll came to: the time that a complete poll
/// stores is the one that the next begins with, and a stored cursor is taken up
/// again, while a cleared one is not.
pub proof fn law_restart_resumes(newest: i64, cursor: Seq<char>, now: int, days: int)
    ensures
        first_oldest(Some(decimal(newest as int)), now, days) == newest,
        cursor.len() > 0 ==> not_empty(Some(cursor)) == Some(cursor),
        not_empty(Some(""@)) is None,
{
    law_decimal_reads_back(newest);
    reveal_strlit("");
}

/// Without a stored time a poll reaches back a day at most, and no further than
/// it may.
pub proof fn law_fresh_poll_reaches_back_a_day(now: int, days: int)
    requires
        nameable(now),
        days >= 0,
    ensures
        now - SECONDS_PER_DAY <= first_oldest(None, now, days) <= now,
        floor_second(now, days) <= first_oldest(None, now, days),
{
    law_floor_is_in_the_past(now, 0, days);
}

/// The latest time is the one that a poll had or that of an entry, and no entry is
/// later. The time of an entry is its `date_create`.
pub proof fn law_newest_is_the_latest(newest: int, page: Seq<JsonView>)
    ensures
        ({
            let latest = newest_of(newest, page);
            &&& latest >= newest
            &&& forall|i: int, n: i64|
                0 <= i < page.len() && #[trigger] has_member(
                    page[i],
                    "date_create"@,
                    JsonView::Int(n as int),
                ) ==> latest >= n
            &&& latest == newest || exists|i: int|
                0 <= i < page.len() && has_member(
                    #[trigger] page[i],
                    "date_create"@,
                    JsonView::Int(latest),
                )
        }),
    decreases page.len(),
{
    if page.len() > 0 {
        let rest = page.skip(1);
        let later = newest_with(newest, page[0]);
        let latest = newest_of(newest, page);
        law_newest_is_the_latest(later, rest);
        law_numbers_are_read(page[0], "date_create"@, 0, 0);
        assert forall|i: int, n: i64|
            0 <= i < page.len() && #[trigger] has_member(
                page[i],
                "date_create"@,
                JsonView::Int(n as int),
            ) implies latest >= n by {
            if i > 0 {
                assert(rest[i - 1] == page[i]);
                assert(has_member(rest[i - 1], "date_create"@, JsonView::Int(n as int)));
            }
        }
        if latest != later {
            let i = choose|i: int|
                0 <= i < rest.len() && has_member(
                    #[trigger] rest[i],
                    "date_create"@,
                    JsonView::Int(latest),
                );
            assert(page[i + 1] == rest[i]);
        } else if latest != newest {
            assert(has_member(page[0], "date_create"@, JsonView::Int(latest)));
        }
    }
}

/// A page is asked for from the time that the poll began with and at the cursor that
/// it came to.
pub proof fn law_what_is_asked_for(poll: PollView, oldest: int, cursor: Option<Seq<char>>)
    ensures
        fetch(poll).1 == (ActionView::Fetch { oldest: decimal(poll.oldest), cursor: poll.cursor }),
        fetch(first_poll(oldest, cursor)).1 == (ActionView::Fetch {
            oldest: decimal(oldest),
            cursor,
        }),
        fetch(first_poll(oldest, cursor)).0.phase == AuditPhase::Fetching,
        first_poll(oldest, cursor).newest == oldest,
{
}

/// A poll asks from the stored time on where that is a number; else from a day ago,
/// or from its reach where that is later.
pub proof fn law_where_a_poll_begins(stored: Seq<char>, n: i64, now: int, days: int)
    ensures
        i64_value(stored) == Some(n) ==> first_oldest(Some(stored), now, days) == n,
        i64_value(stored) is None ==> first_oldest(Some(stored), now, days) == first_oldest(
            None,
            now,
            days,
        ),
        ({
            let at = first_oldest(None, now, days);
            &&& at >= now - 86_400 && at >= floor_second(now, days)
            &&& at == now - 86_400 || at == floor_second(now, days)
        }),
{
}

/// What follows an answer, by its status. With success the entries and the cursor of
/// the body are gone through; a refusal for going too fast is waited out as long as
/// it says, and else half a minute; a token that is refused, any other status and a
/// body that is no document end the poll with their error.
pub proof fn law_answers_by_status(
    poll: PollView,
    seen: DedupView,
    status: u16,
    retry_after: Option<Seq<char>>,
    body: Seq<char>,
    secs: u64,
)
    requires
        poll.phase == AuditPhase::Fetching,
    ensures
        ({
            let (after, action) = next_step(
                poll,
                seen,
                InputView::Reply { status, retry_after, body },
            );
            let told = retry_after matches Some(text) && u64_value(text) == Some(secs);
            let untold = retry_after is None || u64_value(retry_after->0) is None;
            &&& status == 200 && json_parse(body) is None ==> action == ActionView::Fail(
                ErrorView::InvalidBody,
            )
            &&& status == 200 && json_parse(body) is Some ==> action is Emit || action is SaveCursor
                || action is SaveOldest
            &&& status == 429 && told ==> action == ActionView::Wait(secs)
            &&& status == 429 && untold ==> action == ActionView::Wait(30)
            &&& status == 401 || status == 403 ==> action == ActionView::Fail(
                ErrorView::Rejected { status },
            )
            &&& status != 200 && status != 429 && status != 401 && status != 403 ==> action
                == ActionView::Fail(ErrorView::Http { status, body })
            &&& status != 200 && status != 429 ==> after.phase == AuditPhase::Over
            &&& status == 429 ==> after == (PollView { phase: AuditPhase::Waiting, ..poll })
        }),
{
    if status == 200 {
        if let Some(json) = json_parse(body) {
            law_walk_passes_over_nothing_new(with_page(poll, json), seen);
        }
    }
}

/// The entries that a page is gone through for are those that its body has, all of
/// them and in their order, and the cursor behind it is the one that the body names.
pub proof fn law_entries_of_a_page(
    poll: PollView,
    seen: DedupView,
    body: Seq<char>,
    reply: JsonView,
    entries: Seq<JsonView>,
    about: JsonView,
    cursor: Seq<char>,
)
    requires
        poll.phase == AuditPhase::Fetching,
        json_parse(body) == Some(reply),
        has_member(reply, "entries"@, JsonView::Arr(entries)),
    ensures
        run_page(poll, seen, body).events == page_events(entries, seen),
        has_member(reply, "response_metadata"@, about) && has_text(about, "next_cursor"@, cursor)
            && cursor.len() > 0 ==> run_page(poll, seen, body).action == ActionView::SaveCursor(
            cursor,
        ),
        has_member(reply, "response_metadata"@, about) && (lacks_text(about, "next_cursor"@)
            || has_text(about, "next_cursor"@, Seq::empty())) ==> run_page(
            poll,
            seen,
            body,
        ).action == ActionView::SaveOldest(decimal(newest_of(poll.newest, entries))),
        lacks_member(reply, "response_metadata"@) ==> run_page(poll, seen, body).action
            == ActionView::SaveOldest(decimal(newest_of(poll.newest, entries))),
{
    law_page_delivers_its_new_entries(poll, seen, body);
}

/// An entry without an id.
pub open spec fn is_invalid(entry: JsonView) -> bool {
    lacks_text(entry, "id"@)
}

/// The entries of a page that have no id.
pub open spec fn invalid_entries(page: Seq<JsonView>) -> int
    decreases page.len(),
{
    if page.len() == 0 {
        0
    } else {
        invalid_entries(page.skip(1)) + (if is_invalid(page[0]) {
            1int
        } else {
            0int
        })
    }
}

proof fn lemma_page_is_counted(poll: PollView, seen: DedupView)
    requires
        poll.counts.fetched + poll.page.len() <= u64::MAX,
        poll.counts.forwarded + poll.page.len() <= u64::MAX,
        poll.counts.deduped + poll.page.len() <= u64::MAX,
        poll.counts.invalid + poll.page.len() <= u64::MAX,
    ensures
        ({
            let (at, action) = walk(poll, seen);
            let end = accept_all(at, seen, action).poll.counts;
            let new = page_events(poll.page, seen).len();
            &&& end.fetched == poll.counts.fetched + poll.page.len()
            &&& end.forwarded == poll.counts.forwarded + new
            &&& end.invalid == poll.counts.invalid + invalid_entries(poll.page)
            &&& end.deduped == poll.counts.deduped + poll.page.len() - new - invalid_entries(
                poll.page,
            )
        }),
    decreases poll.page.len(),
{
    if poll.page.len() > 0 {
        let at = looked_at(poll);
        match field_str(poll.page[0], "id"@) {
            Some(id) => if seen.ids.contains(id) {
                lemma_page_is_counted(
                    PollView {
                        counts: AuditCounts { deduped: one_more(at.counts.deduped), ..at.counts },
                        ..past_entry(at)
                    },
                    seen,
                );
            } else {
                let emitting = PollView { phase: AuditPhase::Emitting, ..at };
                lemma_page_is_counted(delivered(emitting), remember(seen, id));
            },
            None => {
                lemma_page_is_counted(
                    PollView {
                        counts: AuditCounts { invalid: one_more(at.counts.invalid), ..at.counts },
                        ..past_entry(at)
                    },
                    seen,
                );
            },
        }
    }
}

/// A page is counted entry by entry: all of them as fetched, those that were
/// delivered as forwarded, those without an id as invalid, and the others as known.
pub proof fn law_counts_of_a_page(poll: PollView, seen: DedupView, body: Seq<char>)
    requires
        poll.phase == AuditPhase::Fetching,
        json_parse(body) is Some,
        ({
            let n = field_items(json_parse(body)->0, "entries"@).len();
            &&& poll.counts.fetched + n <= u64::MAX
            &&& poll.counts.forwarded + n <= u64::MAX
            &&& poll.counts.deduped + n <= u64::MAX
            &&& poll.counts.invalid + n <= u64::MAX
        }),
    ensures
        ({
            let page = field_items(json_parse(body)->0, "entries"@);
            let run = run_page(poll, seen, body);
            let end = run.poll.counts;
            &&& end.fetched == poll.counts.fetched + page.len()
            &&& end.forwarded == poll.counts.forwarded + run.events.len()
            &&& end.invalid == poll.counts.invalid + invalid_entries(page)
            &&& end.fetched - poll.counts.fetched == (end.forwarded - poll.counts.forwarded) + (
            end.invalid - poll.counts.invalid) + (end.deduped - poll.counts.deduped)
        }),
{
    law_page_delivers_its_new_entries(poll, seen, body);
    lemma_page_is_counted(with_page(poll, json_parse(body)->0), seen);
}

/// What follows the storing: behind a cursor the next page is asked for, behind the
/// time the cursor is cleared, and then the poll is complete with its counts, even
/// where the cursor could not be cleared. A value that is not taken ends the poll.
pub proof fn law_what_follows_the_storing(poll: PollView, seen: DedupView)
    ensures
        ({
            let saved = next_step(poll, seen, InputView::Saved);
            let failed = next_step(poll, seen, InputView::SaveFailed);
            let ended = ActionView::Fail(ErrorView::State);
            &&& poll.phase == AuditPhase::SavingCursor ==> {
                &&& saved.1 == (ActionView::Fetch {
                    oldest: decimal(poll.oldest),
                    cursor: poll.cursor,
                })
                &&& saved.0 == (PollView { phase: AuditPhase::Fetching, ..poll })
                &&& failed.1 == ended
            }
            &&& poll.phase == AuditPhase::SavingOldest ==> {
                &&& saved.1 == ActionView::ClearCursor
                &&& saved.0 == (PollView { phase: AuditPhase::ClearingCursor, ..poll })
                &&& failed.1 == ended
            }
            &&& poll.phase == AuditPhase::ClearingCursor ==> saved.1 == ActionView::Finish(
                poll.counts,
            ) && failed.1 == ActionView::Finish(poll.counts)
            &&& poll.phase == AuditPhase::Fetching ==> next_step(
                poll,
                seen,
                InputView::Unreachable,
            ).1 == ActionView::Fail(ErrorView::Unreachable)
        }),
{
}

/// A poll begins with nothing counted.
pub proof fn law_poll_begins_with_no_counts(oldest: int, cursor: Option<Seq<char>>)
    ensures
        first_poll(oldest, cursor).counts == (AuditCounts {
            fetched: 0,
            forwarded: 0,
            deduped: 0,
            invalid: 0,
        }),
        first_poll(oldest, cursor).oldest == oldest,
        first_poll(oldest, cursor).cursor == cursor,
{
}

/// Where the entries are, how many come on a page, and under which keys the poller
/// keeps what it came to.
pub proof fn law_terms_of_the_audit_poller()
    ensures
        AUDIT_URL@ == "https://api.slack.com/audit/v1/logs"@,
        PAGE_LIMIT == 200,
        KEY_OLDEST@ == "audit.oldest"@,
        KEY_CURSOR@ == "audit.cursor"@,
        DEDUP_CAPACITY == 10_000,
{
}

/// What happened is seen as it is.
pub proof fn law_audit_inputs_are_seen_whole(input: AuditInput)
    ensures
        input matches AuditInput::Reply { status, retry_after, body } ==> (
        input@ matches InputView::Reply { status: s, retry_after: r, body: b } && {
            &&& s == status
            &&& b == body@
            &&& r is Some <==> retry_after is Some
            &&& retry_after matches Some(text) ==> r == Some(text@)
        }),
        input is Unreachable <==> input@ is Unreachable,
        input is Waited <==> input@ is Waited,
        input is Accepted <==> input@ is Accepted,
        input is Rejected <==> input@ is Rejected,
        input is Saved <==> input@ is Saved,
        input is SaveFailed <==> input@ is SaveFailed,
{
}

/// What to do is seen as it is.
pub proof fn law_audit_actions_are_seen_whole(action: AuditAction)
    ensures
        action matches AuditAction::Fetch { oldest, cursor } ==> (
        action@ matches ActionView::Fetch { oldest: o, cursor: c } && {
            &&& o == oldest@
            &&& c is Some <==> cursor is Some
            &&& cursor matches Some(text) ==> c == Some(text@)
        }),
        action matches AuditAction::Wait(secs) ==> action@ == ActionView::Wait(secs),
        action matches AuditAction::Emit(e) ==> action@ == ActionView::Emit(e@),
        action matches AuditAction::SaveCursor(c) ==> action@ == ActionView::SaveCursor(c@),
        action matches AuditAction::SaveOldest(t) ==> action@ == ActionView::SaveOldest(t@),
        action is ClearCursor <==> action@ is ClearCursor,
        action matches AuditAction::Finish(counts) ==> action@ == ActionView::Finish(counts),
        action is Stop <==> action@ is Stop,
        action matches AuditAction::Fail(error) ==> action@ == ActionView::Fail(error@),
        action matches AuditAction::Fail(AuditError::Rejected { status }) ==> action@
            == ActionView::Fail(ErrorView::Rejected { status }),
        action matches AuditAction::Fail(AuditError::Http { status, body }) ==> action@
            == ActionView::Fail(ErrorView::Http { status, body: body@ }),
        action matches AuditAction::Fail(AuditError::InvalidBody) ==> action@ == ActionView::Fail(
            ErrorView::InvalidBody,
        ),
        action matches AuditAction::Fail(AuditError::Unreachable) ==> action@ == ActionView::Fail(
            ErrorView::Unreachable,
        ),
        action matches AuditAction::Fail(AuditError::State) ==> action@ == ActionView::Fail(
            ErrorView::State,
        ),
{
}

/// Entries are counted one by one, and a counter that is full stays full.
pub proof fn law_counters_go_up_by_one(n: u64)
    ensures
        n < u64::MAX ==> one_more(n) == n + 1,
        n == u64::MAX ==> one_more(n) == n,
{
}

}
