//! The inventory poller: a snapshot of the users and the channels of the
//! workspace, one poll as a machine.

use crate::clock::{InstantView, Timestamp};
use crate::decimal::{decimal, i64_text};
use crate::event::{
    EntityView, EventView, NormalizedEvent, PayloadView, Severity, SlackEntity, SlackPayload,
    SourceTag,
};
use crate::json::{
    field_items, has_member, has_text, items_view, json_parse, lacks_member, lacks_text,
    lemma_one_member, members_view, opt_json, opt_text, parse_document, Json, JsonView, Member,
};
use crate::slack_api::{error_of, is_ok, next_cursor, reply_error, reply_next_cursor, reply_ok};
use vstd::prelude::*;

verus! {

/// What the addresses of the Web API begin with; the method follows.
pub const WEB_API_URL: &'static str = "https://slack.com/api/";

/// Items on a page.
pub const LIST_LIMIT: u64 = 200;

/// The key under which the time of the last snapshot is kept.
pub const KEY_LAST_RUN: &'static str = "web_inventory.last_run";

// ---------------------------------------------------------------------------
// Lists over several pages
// ---------------------------------------------------------------------------

/// Why a list could not be had.
#[derive(Debug)]
pub enum ListError {
    /// The API refused, with the error that it names.
    Api(String),
    /// The body is no JSON document.
    InvalidBody,
}

pub enum ListErrorView {
    Api(Seq<char>),
    InvalidBody,
}

/// What follows a page of a list.
#[derive(Debug)]
pub enum ListStep {
    /// There is a page behind it, under this cursor.
    More(String),
    /// The list is complete.
    Done,
    Failed(ListError),
}

pub enum ListStepView {
    More(Seq<char>),
    Done,
    Failed(ListErrorView),
}

impl View for ListError {
    type V = ListErrorView;

    open spec fn view(&self) -> ListErrorView {
        match self {
            ListError::Api(error) => ListErrorView::Api(error@),
            ListError::InvalidBody => ListErrorView::InvalidBody,
        }
    }
}

impl View for ListStep {
    type V = ListStepView;

    open spec fn view(&self) -> ListStepView {
        match self {
            ListStep::More(cursor) => ListStepView::More(cursor@),
            ListStep::Done => ListStepView::Done,
            ListStep::Failed(error) => ListStepView::Failed(error@),
        }
    }
}

/// The items with those of a page under `key`, and what follows.
pub open spec fn list_page_step(
    items: Seq<JsonView>,
    key: Seq<char>,
    parsed: Option<JsonView>,
) -> (Seq<JsonView>, ListStepView) {
    match parsed {
        Some(reply) => if !is_ok(reply) {
            (items, ListStepView::Failed(ListErrorView::Api(error_of(reply))))
        } else {
            (
                items + field_items(reply, key),
                match next_cursor(reply) {
                    Some(cursor) => ListStepView::More(cursor),
                    None => ListStepView::Done,
                },
            )
        },
        None => (items, ListStepView::Failed(ListErrorView::InvalidBody)),
    }
}

/// Add the items of a page under `key`; `parsed` is what the body of the reply
/// says.
pub fn list_paged(items: &mut Vec<Json>, key: &str, parsed: Option<Json>) -> (step: ListStep)
    ensures
        (items_view(final(items)@), step@) == list_page_step(
            items_view(old(items)@),
            key@,
            opt_json(parsed),
        ),
{
    match parsed {
        Some(reply) => {
            if !reply_ok(&reply) {
                return ListStep::Failed(ListError::Api(reply_error(&reply)));
            }
            let mut page: Vec<Json> = reply.get_items(key);
            let ghost more = page@;
            items.append(&mut page);
            assert(items_view(items@) =~= items_view(old(items)@) + items_view(more));
            match reply_next_cursor(&reply) {
                Some(cursor) => ListStep::More(cursor),
                None => ListStep::Done,
            }
        },
        None => ListStep::Failed(ListError::InvalidBody),
    }
}

// ---------------------------------------------------------------------------
// The snapshot
// ---------------------------------------------------------------------------

/// The users and the channels, and how many there are.
pub open spec fn snapshot_json(users: Seq<JsonView>, channels: Seq<JsonView>) -> JsonView {
    JsonView::Obj(
        Map::empty().insert("channels"@, JsonView::Arr(channels)).insert(
            "users"@,
            JsonView::Arr(users),
        ).insert("channels_count"@, JsonView::Int(channels.len() as int)).insert(
            "users_count"@,
            JsonView::Int(users.len() as int),
        ),
    )
}

/// The event of a snapshot.
pub open spec fn snapshot_event(
    users: Seq<JsonView>,
    channels: Seq<JsonView>,
    now: InstantView,
) -> EventView {
    EventView {
        timestamp: now,
        slack: PayloadView {
            source: SourceTag::WebInventory,
            action: "workspace_inventory_snapshot"@,
            event_id: "inv-"@ + decimal(now.secs),
            actor: None,
            entity: Some(EntityView { entity_type: "workspace"@, id: None, name: None }),
            context: None,
        },
        severity: Severity::Info,
        raw: snapshot_json(users, channels),
    }
}

/// The event of a snapshot that is taken at `now`.
pub fn build_snapshot(users: Vec<Json>, channels: Vec<Json>, now: Timestamp) -> (event:
    NormalizedEvent)
    ensures
        event@ == snapshot_event(items_view(users@), items_view(channels@), now@),
{
    let mut event_id: String = "inv-".to_owned();
    event_id.append(i64_text(now.secs()).as_str());
    let members: Vec<Member> = vec![
        Member { key: "users_count".to_owned(), value: Json::PosInt(users.len() as u64) },
        Member { key: "channels_count".to_owned(), value: Json::PosInt(channels.len() as u64) },
        Member { key: "users".to_owned(), value: Json::Arr(users) },
        Member { key: "channels".to_owned(), value: Json::Arr(channels) },
    ];
    proof {
        let m1 = members@.drop_first();
        let m2 = m1.drop_first();
        let m3 = m2.drop_first();
        assert(m1[0] == members@[1] && m2[0] == members@[2] && m3[0] == members@[3]);
        lemma_one_member(m3);
        assert(members_view(members@) == members_view(m3).insert("users"@, m2[0].value@).insert(
            "channels_count"@,
            m1[0].value@,
        ).insert("users_count"@, members@[0].value@)) by {
            reveal_with_fuel(members_view, 4);
        }
    }
    NormalizedEvent {
        timestamp: now,
        slack: SlackPayload {
            source: SourceTag::WebInventory,
            action: "workspace_inventory_snapshot".to_owned(),
            event_id,
            actor: None,
            entity: Some(
                SlackEntity { entity_type: "workspace".to_owned(), id: None, name: None },
            ),
            context: None,
        },
        severity: Severity::Info,
        raw: Json::Obj(members),
    }
}

// ---------------------------------------------------------------------------
// The machine
// ---------------------------------------------------------------------------

/// Where a poll stands.
#[derive(Debug, Clone, Copy, PartialEq, Eq, Structural)]
pub enum InventoryPhase {
    /// The users are being listed.
    Users,
    /// The channels are being listed.
    Channels,
    /// The snapshot is being delivered.
    Emitting,
    /// The time of the snapshot is being stored.
    Saving,
    /// The poll is over.
    Over,
}

pub struct InventoryView {
    pub phase: InventoryPhase,
    pub users: Seq<JsonView>,
    pub channels: Seq<JsonView>,
    /// The second of the snapshot.
    pub taken: int,
}

/// What happened.
#[derive(Debug)]
pub enum InventoryInput {
    /// The API answered.
    Reply { body: String },
    /// The API could not be reached.
    Unreachable,
    /// The event was delivered, or dropped by the filter.
    Accepted,
    /// The event could not be delivered.
    Rejected,
    /// The store was asked, whether it took the value or not.
    Saved,
}

pub enum InventoryInputView {
    Reply { body: Seq<char> },
    Unreachable,
    Accepted,
    Rejected,
    Saved,
}

/// What to do next.
#[derive(Debug)]
pub enum InventoryAction {
    /// Fetch a page of at most `LIST_LIMIT` items.
    Fetch { method: String, cursor: Option<String> },
    /// Deliver the event.
    Emit(NormalizedEvent),
    /// Store the second of the snapshot.
    Save(String),
    /// The poll is complete.
    Finish,
    /// The poll ends with nothing stored.
    Stop,
}

pub enum InventoryActionView {
    Fetch { method: Seq<char>, cursor: Option<Seq<char>> },
    Emit(EventView),
    Save(Seq<char>),
    Finish,
    Stop,
}

impl View for InventoryInput {
    type V = InventoryInputView;

    open spec fn view(&self) -> InventoryInputView {
        match self {
            InventoryInput::Reply { body } => InventoryInputView::Reply { body: body@ },
            InventoryInput::Unreachable => InventoryInputView::Unreachable,
            InventoryInput::Accepted => InventoryInputView::Accepted,
            InventoryInput::Rejected => InventoryInputView::Rejected,
            InventoryInput::Saved => InventoryInputView::Saved,
        }
    }
}

impl View for InventoryAction {
    type V = InventoryActionView;

    open spec fn view(&self) -> InventoryActionView {
        match self {
            InventoryAction::Fetch { method, cursor } => InventoryActionView::Fetch {
                method: method@,
                cursor: opt_text(*cursor),
            },
            InventoryAction::Emit(event) => InventoryActionView::Emit(event@),
            InventoryAction::Save(text) => InventoryActionView::Save(text@),
            InventoryAction::Finish => InventoryActionView::Finish,
            InventoryAction::Stop => InventoryActionView::Stop,
        }
    }
}

/// List the users from the start.
pub open spec fn list_users() -> (InventoryView, InventoryActionView) {
    (
        InventoryView {
            phase: InventoryPhase::Users,
            users: seq![],
            channels: seq![],
            taken: 0,
        },
        InventoryActionView::Fetch { method: "users.list"@, cursor: None },
    )
}

/// The users are had, or cannot be: list the channels.
pub open spec fn list_channels(users: Seq<JsonView>) -> (InventoryView, InventoryActionView) {
    (
        InventoryView { phase: InventoryPhase::Channels, users, channels: seq![], taken: 0 },
        InventoryActionView::Fetch { method: "conversations.list"@, cursor: None },
    )
}

/// The channels are had, or cannot be: deliver the snapshot.
pub open spec fn deliver(
    users: Seq<JsonView>,
    channels: Seq<JsonView>,
    now: InstantView,
) -> (InventoryView, InventoryActionView) {
    (
        InventoryView {
            phase: InventoryPhase::Emitting,
            users: seq![],
            channels: seq![],
            taken: now.secs,
        },
        InventoryActionView::Emit(snapshot_event(users, channels, now)),
    )
}

/// What follows a page of users. A list that fails counts as empty, whatever was
/// listed before.
pub open spec fn on_users(s: InventoryView, parsed: Option<JsonView>) -> (
    InventoryView,
    InventoryActionView,
) {
    let (items, step) = list_page_step(s.users, "members"@, parsed);
    match step {
        ListStepView::More(cursor) => (
            InventoryView { users: items, ..s },
            InventoryActionView::Fetch { method: "users.list"@, cursor: Some(cursor) },
        ),
        ListStepView::Done => list_channels(items),
        ListStepView::Failed(_) => list_channels(seq![]),
    }
}

/// What follows a page of channels. A list that fails counts as empty, whatever
/// was listed before.
pub open spec fn on_channels(s: InventoryView, parsed: Option<JsonView>, now: InstantView) -> (
    InventoryView,
    InventoryActionView,
) {
    let (items, step) = list_page_step(s.channels, "channels"@, parsed);
    match step {
        ListStepView::More(cursor) => (
            InventoryView { channels: items, ..s },
            InventoryActionView::Fetch { method: "conversations.list"@, cursor: Some(cursor) },
        ),
        ListStepView::Done => deliver(s.users, items, now),
        ListStepView::Failed(_) => deliver(s.users, seq![], now),
    }
}

pub open spec fn over(s: InventoryView, action: InventoryActionView) -> (
    InventoryView,
    InventoryActionView,
) {
    (InventoryView { phase: InventoryPhase::Over, ..s }, action)
}

/// The poll and what it does after an input. An input that the poll does not
/// wait for ends it with nothing stored.
pub open spec fn next_inventory_step(
    s: InventoryView,
    input: InventoryInputView,
    now: InstantView,
) -> (InventoryView, InventoryActionView) {
    match (s.phase, input) {
        (InventoryPhase::Users, InventoryInputView::Reply { body }) => on_users(
            s,
            json_parse(body),
        ),
        (InventoryPhase::Users, InventoryInputView::Unreachable) => list_channels(seq![]),
        (InventoryPhase::Channels, InventoryInputView::Reply { body }) => on_channels(
            s,
            json_parse(body),
            now,
        ),
        (InventoryPhase::Channels, InventoryInputView::Unreachable) => deliver(
            s.users,
            seq![],
            now,
        ),
        (InventoryPhase::Emitting, InventoryInputView::Accepted) => (
            InventoryView { phase: InventoryPhase::Saving, ..s },
            InventoryActionView::Save(decimal(s.taken)),
        ),
        (InventoryPhase::Saving, InventoryInputView::Saved) => over(
            s,
            InventoryActionView::Finish,
        ),
        _ => over(s, InventoryActionView::Stop),
    }
}

// ---------------------------------------------------------------------------
// The code
// ---------------------------------------------------------------------------

/// One inventory poll.
#[derive(Debug)]
pub struct InventoryPoll {
    phase: InventoryPhase,
    users: Vec<Json>,
    channels: Vec<Json>,
    taken: i64,
}

impl View for InventoryPoll {
    type V = InventoryView;

    closed spec fn view(&self) -> InventoryView {
        InventoryView {
            phase: self.phase,
            users: items_view(self.users@),
            channels: items_view(self.channels@),
            taken: self.taken as int,
        }
    }
}

impl InventoryPoll {
    fn list_channels(&mut self, users: Vec<Json>) -> (action: InventoryAction)
        ensures
            (final(self)@, action@) == list_channels(items_view(users@)),
    {
        self.phase = InventoryPhase::Channels;
        self.users = users;
        self.channels = Vec::new();
        self.taken = 0;
        assert(self@.channels =~= Seq::<JsonView>::empty());
        InventoryAction::Fetch { method: "conversations.list".to_owned(), cursor: None }
    }

    fn deliver(&mut self, channels: Vec<Json>, now: Timestamp) -> (action: InventoryAction)
        ensures
            (final(self)@, action@) == deliver(old(self)@.users, items_view(channels@), now@),
    {
        let mut users: Vec<Json> = Vec::new();
        std::mem::swap(&mut users, &mut self.users);
        self.phase = InventoryPhase::Emitting;
        self.channels = Vec::new();
        self.taken = now.secs();
        assert(self@.users =~= Seq::<JsonView>::empty());
        assert(self@.channels =~= Seq::<JsonView>::empty());
        InventoryAction::Emit(build_snapshot(users, channels, now))
    }

    /// What follows a page of users, where `parsed` is what the reply says.
    pub fn on_users(&mut self, parsed: Option<Json>) -> (action: InventoryAction)
        ensures
            (final(self)@, action@) == on_users(old(self)@, opt_json(parsed)),
    {
        let mut users: Vec<Json> = Vec::new();
        std::mem::swap(&mut users, &mut self.users);
        let step: ListStep = list_paged(&mut users, "members", parsed);
        match step {
            ListStep::More(cursor) => {
                self.users = users;
                InventoryAction::Fetch { method: "users.list".to_owned(), cursor: Some(cursor) }
            },
            ListStep::Done => self.list_channels(users),
            ListStep::Failed(_) => {
                let none: Vec<Json> = Vec::new();
                assert(items_view(none@) =~= Seq::<JsonView>::empty());
                self.list_channels(none)
            },
        }
    }

    /// What follows a page of channels, where `parsed` is what the reply says.
    pub fn on_channels(&mut self, parsed: Option<Json>, now: Timestamp) -> (action: InventoryAction)
        ensures
            (final(self)@, action@) == on_channels(old(self)@, opt_json(parsed), now@),
    {
        let mut channels: Vec<Json> = Vec::new();
        std::mem::swap(&mut channels, &mut self.channels);
        let step: ListStep = list_paged(&mut channels, "channels", parsed);
        match step {
            ListStep::More(cursor) => {
                self.channels = channels;
                InventoryAction::Fetch {
                    method: "conversations.list".to_owned(),
                    cursor: Some(cursor),
                }
            },
            ListStep::Done => self.deliver(channels, now),
            ListStep::Failed(_) => {
                let none: Vec<Json> = Vec::new();
                assert(items_view(none@) =~= Seq::<JsonView>::empty());
                self.deliver(none, now)
            },
        }
    }

    /// Go on with the poll after `input`.
    pub fn step(&mut self, input: InventoryInput, now: Timestamp) -> (action: InventoryAction)
        ensures
            (final(self)@, action@) == next_inventory_step(old(self)@, input@, now@),
    {
        match (self.phase, input) {
            (InventoryPhase::Users, InventoryInput::Reply { body }) => self.on_users(
                parse_document(body.as_str()),
            ),
            (InventoryPhase::Users, InventoryInput::Unreachable) => {
                let none: Vec<Json> = Vec::new();
                assert(items_view(none@) =~= Seq::<JsonView>::empty());
                self.list_channels(none)
            },
            (InventoryPhase::Channels, InventoryInput::Reply { body }) => self.on_channels(
                parse_document(body.as_str()),
                now,
            ),
            (InventoryPhase::Channels, InventoryInput::Unreachable) => {
                let none: Vec<Json> = Vec::new();
                assert(items_view(none@) =~= Seq::<JsonView>::empty());
                self.deliver(none, now)
            },
            (InventoryPhase::Emitting, InventoryInput::Accepted) => {
                self.phase = InventoryPhase::Saving;
                InventoryAction::Save(i64_text(self.taken))
            },
            (InventoryPhase::Saving, InventoryInput::Saved) => {
                self.phase = InventoryPhase::Over;
                InventoryAction::Finish
            },
            _ => {
                self.phase = InventoryPhase::Over;
                InventoryAction::Stop
            },
        }
    }
}

/// Takes snapshots of the workspace.
#[derive(Debug)]
pub struct WebInventoryPoller {
    pub bot_token: String,
    pub poll_seconds: u64,
}

impl WebInventoryPoller {
    /// A poller that lists with `bot_token`.
    pub fn new(bot_token: String, poll_seconds: u64) -> (poller: Self)
        ensures
            poller.bot_token == bot_token,
            poller.poll_seconds == poll_seconds,
    {
        WebInventoryPoller { bot_token, poll_seconds }
    }

    /// Begin a poll.
    pub fn begin(&self) -> (begun: (InventoryPoll, InventoryAction))
        ensures
            (begun.0@, begun.1@) == list_users(),
    {
        let poll: InventoryPoll = InventoryPoll {
            phase: InventoryPhase::Users,
            users: Vec::new(),
            channels: Vec::new(),
            taken: 0,
        };
        assert(poll@.users =~= Seq::<JsonView>::empty());
        assert(poll@.channels =~= Seq::<JsonView>::empty());
        (poll, InventoryAction::Fetch { method: "users.list".to_owned(), cursor: None })
    }
}

// ---------------------------------------------------------------------------
// Laws
// ---------------------------------------------------------------------------

/// What the pages of a list hold under `key`, one page after the other.
pub open spec fn items_of_pages(pages: Seq<JsonView>, key: Seq<char>) -> Seq<JsonView>
    decreases pages.len(),
{
    if pages.len() == 0 {
        seq![]
    } else {
        field_items(pages[0], key) + items_of_pages(pages.skip(1), key)
    }
}

/// Replies that make up a whole list: each succeeded, and each but the last
/// names a next page.
pub open spec fn whole_list(pages: Seq<JsonView>) -> bool {
    &&& pages.len() > 0
    &&& forall|i: int| 0 <= i < pages.len() ==> is_ok(#[trigger] pages[i])
    &&& forall|i: int|
        0 <= i < pages.len() ==> (next_cursor(#[trigger] pages[i]) is None <==> i == pages.len() - 1)
}

/// The poll after page upon page of users.
pub open spec fn after_users(s: InventoryView, pages: Seq<JsonView>) -> (
    InventoryView,
    InventoryActionView,
)
    decreases pages.len(),
{
    if pages.len() <= 1 {
        on_users(s, Some(pages[0]))
    } else {
        after_users(on_users(s, Some(pages[0])).0, pages.skip(1))
    }
}

/// The users of a snapshot are those of every page, in the order of the pages,
/// and the channels are listed after the last page.
pub proof fn law_every_page_is_listed(s: InventoryView, pages: Seq<JsonView>)
    requires
        s.phase == InventoryPhase::Users,
        whole_list(pages),
    ensures
        after_users(s, pages) == list_channels(s.users + items_of_pages(pages, "members"@)),
    decreases pages.len(),
{
    let rest = pages.skip(1);
    assert(is_ok(pages[0]));
    assert(next_cursor(pages[0]) is None <==> 0 == pages.len() - 1);
    if pages.len() == 1 {
        assert(items_of_pages(rest, "members"@) == Seq::<JsonView>::empty());
        assert(s.users + items_of_pages(pages, "members"@) =~= s.users + field_items(
            pages[0],
            "members"@,
        ));
    } else {
        assert forall|i: int| 0 <= i < rest.len() implies is_ok(#[trigger] rest[i]) && (next_cursor(
            rest[i],
        ) is None <==> i == rest.len() - 1) by {
            assert(rest[i] == pages[i + 1]);
        }
        let next = on_users(s, Some(pages[0])).0;
        law_every_page_is_listed(next, rest);
        assert(s.users + items_of_pages(pages, "members"@) =~= next.users + items_of_pages(
            rest,
            "members"@,
        ));
    }
}

/// The poll after page upon page of channels, the last of them at `now`.
pub open spec fn after_channels(s: InventoryView, pages: Seq<JsonView>, now: InstantView) -> (
    InventoryView,
    InventoryActionView,
)
    decreases pages.len(),
{
    if pages.len() <= 1 {
        on_channels(s, Some(pages[0]), now)
    } else {
        after_channels(on_channels(s, Some(pages[0]), now).0, pages.skip(1), now)
    }
}

/// The channels of a snapshot are those of every page, in the order of the
/// pages, and the snapshot is delivered after the last page.
pub proof fn law_every_page_of_channels_is_listed(
    s: InventoryView,
    pages: Seq<JsonView>,
    now: InstantView,
)
    requires
        s.phase == InventoryPhase::Channels,
        whole_list(pages),
    ensures
        after_channels(s, pages, now) == deliver(
            s.users,
            s.channels + items_of_pages(pages, "channels"@),
            now,
        ),
    decreases pages.len(),
{
    let rest = pages.skip(1);
    assert(is_ok(pages[0]));
    assert(next_cursor(pages[0]) is None <==> 0 == pages.len() - 1);
    if pages.len() == 1 {
        assert(items_of_pages(rest, "channels"@) == Seq::<JsonView>::empty());
        assert(s.channels + items_of_pages(pages, "channels"@) =~= s.channels + field_items(
            pages[0],
            "channels"@,
        ));
    } else {
        assert forall|i: int| 0 <= i < rest.len() implies is_ok(#[trigger] rest[i]) && (next_cursor(
            rest[i],
        ) is None <==> i == rest.len() - 1) by {
            assert(rest[i] == pages[i + 1]);
        }
        let next = on_channels(s, Some(pages[0]), now).0;
        law_every_page_of_channels_is_listed(next, rest, now);
        assert(s.channels + items_of_pages(pages, "channels"@) =~= next.channels + items_of_pages(
            rest,
            "channels"@,
        ));
    }
}

/// A poll whose lists succeed delivers one snapshot of them: the users of every
/// page of users and the channels of every page of channels, none left out, none
/// added, in the order served.
pub proof fn law_snapshot_holds_every_page(
    users: Seq<JsonView>,
    channels: Seq<JsonView>,
    now: InstantView,
)
    requires
        whole_list(users),
        whole_list(channels),
    ensures
        after_channels(after_users(list_users().0, users).0, channels, now).1
            == InventoryActionView::Emit(
            snapshot_event(
                items_of_pages(users, "members"@),
                items_of_pages(channels, "channels"@),
                now,
            ),
        ),
{
    let none = Seq::<JsonView>::empty();
    let members = items_of_pages(users, "members"@);
    law_every_page_is_listed(list_users().0, users);
    assert(none + members =~= members);
    law_every_page_of_channels_is_listed(list_channels(members).0, channels, now);
    assert(none + items_of_pages(channels, "channels"@) =~= items_of_pages(
        channels,
        "channels"@,
    ));
}

/// Every poll ends in a snapshot, even where a list fails: a reply or a failure
/// leads to another page, to the other list or to the event.
pub proof fn law_listing_leads_to_a_snapshot(
    s: InventoryView,
    input: InventoryInputView,
    now: InstantView,
)
    requires
        s.phase == InventoryPhase::Users || s.phase == InventoryPhase::Channels,
        input is Reply || input is Unreachable,
    ensures
        ({
            let (after, action) = next_inventory_step(s, input, now);
            &&& s.phase == InventoryPhase::Users ==> action is Fetch
            &&& s.phase == InventoryPhase::Channels ==> action is Fetch || action is Emit
            &&& action matches InventoryActionView::Emit(e) ==> {
                &&& after.taken == now.secs
                &&& exists|channels: Seq<JsonView>|
                    e == #[trigger] snapshot_event(s.users, channels, now)
            }
        }),
{
    let (after, action) = next_inventory_step(s, input, now);
    if s.phase == InventoryPhase::Channels {
        match input {
            InventoryInputView::Reply { body } => {
                let (items, step) = list_page_step(s.channels, "channels"@, json_parse(body));
                let a = snapshot_event(s.users, items, now);
                let b = snapshot_event(s.users, seq![], now);
            },
            _ => {
                let b = snapshot_event(s.users, seq![], now);
            },
        }
    }
}

/// A page that succeeded adds its items behind those that are there, all of them and
/// in their order, and leads on where it names a cursor; a page that did not adds
/// nothing and ends the list with its error.
pub proof fn law_page_of_a_list(
    items: Seq<JsonView>,
    key: Seq<char>,
    reply: JsonView,
    more: Seq<JsonView>,
    text: Seq<char>,
)
    ensures
        ({
            let (after, step) = list_page_step(items, key, Some(reply));
            let ok = has_member(reply, "ok"@, JsonView::Bool(true));
            &&& ok && has_member(reply, key, JsonView::Arr(more)) ==> after == items + more
            &&& ok && lacks_member(reply, key) ==> after == items
            &&& !ok ==> after == items
            &&& ok ==> (step == ListStepView::More(text) <==> next_cursor(reply) == Some(text))
            &&& ok ==> (step == ListStepView::Done <==> next_cursor(reply) is None)
            &&& !ok && has_text(reply, "error"@, text) ==> step == ListStepView::Failed(
                ListErrorView::Api(text),
            )
            &&& !ok && lacks_text(reply, "error"@) ==> step == ListStepView::Failed(
                ListErrorView::Api("?"@),
            )
        }),
        list_page_step(items, key, None) == (
            items,
            ListStepView::Failed(ListErrorView::InvalidBody),
        ),
{
    let (after, step) = list_page_step(items, key, Some(reply));
    assert(items + Seq::<JsonView>::empty() =~= items);
}

/// A snapshot holds the users and the channels as they were listed, and how many
/// there are of each, and nothing else.
pub proof fn law_what_a_snapshot_holds(
    users: Seq<JsonView>,
    channels: Seq<JsonView>,
    now: InstantView,
    key: Seq<char>,
)
    ensures
        ({
            let e = snapshot_event(users, channels, now);
            &&& has_member(e.raw, "users"@, JsonView::Arr(users))
            &&& has_member(e.raw, "channels"@, JsonView::Arr(channels))
            &&& has_member(e.raw, "users_count"@, JsonView::Int(users.len() as int))
            &&& has_member(e.raw, "channels_count"@, JsonView::Int(channels.len() as int))
            &&& key != "users"@ && key != "channels"@ && key != "users_count"@ && key
                != "channels_count"@ ==> lacks_member(e.raw, key)
            &&& e.timestamp == now
            &&& e.severity == Severity::Info
            &&& e.slack.source == SourceTag::WebInventory
            &&& e.slack.action == "workspace_inventory_snapshot"@
            &&& e.slack.event_id == "inv-"@ + decimal(now.secs)
            &&& e.slack.actor is None
            &&& e.slack.context is None
            &&& e.slack.entity matches Some(x) && x.entity_type == "workspace"@ && x.id is None
                && x.name is None
        }),
{
    reveal_strlit("users");
    reveal_strlit("channels");
    reveal_strlit("users_count");
    reveal_strlit("channels_count");
    assert("users"@.len() == 5 && "channels"@.len() == 8 && "users_count"@.len() == 11
        && "channels_count"@.len() == 14);
}

/// The users are asked for first and the channels then, each from its first page; a
/// further page is asked for at the cursor that the last one named. What a page
/// lists goes behind what was listed, and the last page of channels leads to the
/// snapshot of all of it.
pub proof fn law_lists_are_asked_for(
    s: InventoryView,
    body: Seq<char>,
    reply: JsonView,
    listed: Seq<JsonView>,
    now: InstantView,
)
    requires
        json_parse(body) == Some(reply),
        has_member(reply, "ok"@, JsonView::Bool(true)),
    ensures
        ({
            let (after, action) = next_inventory_step(s, InventoryInputView::Reply { body }, now);
            let next = next_cursor(reply);
            let users = has_member(reply, "members"@, JsonView::Arr(listed));
            let channels = has_member(reply, "channels"@, JsonView::Arr(listed));
            &&& list_users().1 == (InventoryActionView::Fetch {
                method: "users.list"@,
                cursor: None,
            })
            &&& list_users().0.users.len() == 0 && list_users().0.channels.len() == 0
            &&& s.phase == InventoryPhase::Users && next is Some ==> {
                &&& action == (InventoryActionView::Fetch {
                    method: "users.list"@,
                    cursor: next,
                })
                &&& after.phase == InventoryPhase::Users
                &&& users ==> after.users == s.users + listed
            }
            &&& s.phase == InventoryPhase::Users && next is None ==> {
                &&& action == (InventoryActionView::Fetch {
                    method: "conversations.list"@,
                    cursor: None,
                })
                &&& after.phase == InventoryPhase::Channels
                &&& users ==> after.users == s.users + listed
                &&& after.channels.len() == 0
            }
            &&& s.phase == InventoryPhase::Channels && next is Some ==> {
                &&& action == (InventoryActionView::Fetch {
                    method: "conversations.list"@,
                    cursor: next,
                })
                &&& after.phase == InventoryPhase::Channels
                &&& after.users == s.users
                &&& channels ==> after.channels == s.channels + listed
            }
            &&& s.phase == InventoryPhase::Channels && next is None && channels ==> action
                == InventoryActionView::Emit(snapshot_event(s.users, s.channels + listed, now))
        }),
{
}

/// A list that fails counts as empty, and the poll goes on: without users to the
/// channels, and without channels to the snapshot.
pub proof fn law_failed_list_counts_as_empty(
    s: InventoryView,
    body: Seq<char>,
    reply: JsonView,
    now: InstantView,
)
    ensures
        ({
            let answered = next_inventory_step(s, InventoryInputView::Reply { body }, now);
            let unheard = next_inventory_step(s, InventoryInputView::Unreachable, now);
            let failed = json_parse(body) is None || (json_parse(body) == Some(reply)
                && !has_member(reply, "ok"@, JsonView::Bool(true)));
            let none = Seq::<JsonView>::empty();
            &&& s.phase == InventoryPhase::Users ==> {
                &&& failed ==> answered.0.users == none && answered.0.phase
                    == InventoryPhase::Channels && answered.1 is Fetch
                &&& unheard.0.users == none && unheard.0.phase == InventoryPhase::Channels
                    && unheard.1 is Fetch
            }
            &&& s.phase == InventoryPhase::Channels ==> {
                let snapshot = InventoryActionView::Emit(snapshot_event(s.users, none, now));
                &&& failed ==> answered.1 == snapshot
                &&& unheard.1 == snapshot
            }
        }),
{
}

/// The time of a snapshot is stored only once the snapshot is accepted, and it is
/// the second in which it was taken; the poll is then complete.
pub proof fn law_time_of_a_snapshot_is_stored(s: InventoryView, later: InstantView)
    ensures
        ({
            let accepted = next_inventory_step(s, InventoryInputView::Accepted, later);
            let rejected = next_inventory_step(s, InventoryInputView::Rejected, later);
            &&& s.phase == InventoryPhase::Emitting ==> {
                &&& accepted.1 == InventoryActionView::Save(decimal(s.taken))
                &&& next_inventory_step(accepted.0, InventoryInputView::Saved, later).1
                    == InventoryActionView::Finish
                &&& rejected.1 == InventoryActionView::Stop
            }
            &&& deliver(s.users, s.channels, later).0.taken == later.secs
            &&& deliver(s.users, s.channels, later).0.phase == InventoryPhase::Emitting
        }),
{
}

/// Where the lists are, how many items come on a page, and under which key the poller
/// keeps the time of its last snapshot.
pub proof fn law_terms_of_the_inventory_poller()
    ensures
        WEB_API_URL@ == "https://slack.com/api/"@,
        LIST_LIMIT == 200,
        KEY_LAST_RUN@ == "web_inventory.last_run"@,
{
}

/// A page that succeeded adds what it lists and nothing else, also where it lists
/// nothing.
pub proof fn law_page_adds_what_it_lists(
    s: InventoryView,
    key: Seq<char>,
    body: Seq<char>,
    reply: JsonView,
    now: InstantView,
)
    requires
        json_parse(body) == Some(reply),
        has_member(reply, "ok"@, JsonView::Bool(true)),
    ensures
        ({
            let (after, action) = next_inventory_step(s, InventoryInputView::Reply { body }, now);
            let users = s.users + field_items(reply, "members"@);
            let channels = s.channels + field_items(reply, "channels"@);
            &&& list_page_step(s.users, key, Some(reply)).0 == s.users + field_items(reply, key)
            &&& s.phase == InventoryPhase::Users ==> after.users == users
            &&& s.phase == InventoryPhase::Channels && next_cursor(reply) is Some
                ==> after.channels == channels
            &&& s.phase == InventoryPhase::Channels && next_cursor(reply) is None ==> action
                == InventoryActionView::Emit(snapshot_event(s.users, channels, now))
        }),
{
}

/// What happened and what to do are seen as they are.
pub proof fn law_inventory_steps_are_seen_whole(input: InventoryInput, action: InventoryAction)
    ensures
        input matches InventoryInput::Reply { body } ==> input@ == (InventoryInputView::Reply {
            body: body@,
        }),
        input is Unreachable <==> input@ is Unreachable,
        input is Accepted <==> input@ is Accepted,
        input is Rejected <==> input@ is Rejected,
        input is Saved <==> input@ is Saved,
        action matches InventoryAction::Fetch { method, cursor } ==> (
        action@ matches InventoryActionView::Fetch { method: m, cursor: c } && {
            &&& m == method@
            &&& c is Some <==> cursor is Some
            &&& cursor matches Some(text) ==> c == Some(text@)
        }),
        action matches InventoryAction::Emit(e) ==> action@ == InventoryActionView::Emit(e@),
        action matches InventoryAction::Save(text) ==> action@ == InventoryActionView::Save(text@),
        action is Finish <==> action@ is Finish,
        action is Stop <==> action@ is Stop,
{
}

/// What follows a page is seen as it is.
pub proof fn law_list_steps_are_seen_whole(step: ListStep)
    ensures
        step matches ListStep::More(cursor) ==> step@ == ListStepView::More(cursor@),
        step is Done <==> step@ is Done,
        step matches ListStep::Failed(ListError::Api(error)) ==> step@ == ListStepView::Failed(
            ListErrorView::Api(error@),
        ),
        step matches ListStep::Failed(ListError::InvalidBody) ==> step@ == ListStepView::Failed(
            ListErrorView::InvalidBody,
        ),
{
}

}
