//! The Socket Mode source: one listener as a machine that is told what happened
//! on the connection and says what to do next.
//!
//! Frames are read as JSON trees and only the fields that are needed are looked
//! at, so that a `null` where a text is usual does no harm.

use crate::backoff::{doubled, is_pause, Backoff, FIRST_PAUSE};
use crate::clock::{nanos_or_zero, InstantView, Timestamp};
use crate::decimal::{decimal, i64_text};
use crate::dedup::{
    empty_cache, lemma_remember, remember, well_formed, DedupCache, DedupView, LARGEST_CAPACITY,
};
use crate::event::{EventView, NormalizedEvent};
use crate::json::{
    field, field_str, has_member, has_text, json_parse, json_text, lacks_member, lacks_text,
    lemma_one_member, opt_json, parse_document, render, Json, JsonView, Member,
};
use crate::normalize::{normalize_events_payload, push_event, text_or};
use crate::slack_api::{error_of, is_ok, reply_error, reply_ok};
use crate::text::same_text;
use vstd::prelude::*;

verus! {

pub const CONNECTIONS_OPEN_URL: &'static str = "https://slack.com/api/apps.connections.open";

/// Event ids that a listener remembers.
pub const SOCKET_DEDUP_CAPACITY: usize = 10_000;

/// Listens to the Events API over Socket Mode.
#[derive(Debug)]
pub struct EventsSocketSource {
    pub app_token: String,
    pub dedup_capacity: usize,
}

impl EventsSocketSource {
    /// A source that opens connections with `app_token`. The pushed payloads
    /// carry everything, so the bot token is not used.
    pub fn new(app_token: String, _bot_token: String) -> (source: Self)
        ensures
            source.app_token == app_token,
            source.dedup_capacity == SOCKET_DEDUP_CAPACITY,
    {
        EventsSocketSource { app_token, dedup_capacity: SOCKET_DEDUP_CAPACITY }
    }
}

// ---------------------------------------------------------------------------
// Opening
// ---------------------------------------------------------------------------

/// Why no connection was opened.
#[derive(Debug)]
pub enum OpenError {
    /// The API refused, with the error that it names.
    Api(String),
    /// The API named no address.
    MissingUrl,
}

pub enum OpenErrorView {
    Api(Seq<char>),
    MissingUrl,
}

impl View for OpenError {
    type V = OpenErrorView;

    open spec fn view(&self) -> OpenErrorView {
        match self {
            OpenError::Api(error) => OpenErrorView::Api(error@),
            OpenError::MissingUrl => OpenErrorView::MissingUrl,
        }
    }
}

/// The address in a reply of `apps.connections.open`.
pub open spec fn url_of(reply: JsonView) -> Result<Seq<char>, OpenErrorView> {
    if !is_ok(reply) {
        Err(OpenErrorView::Api(error_of(reply)))
    } else {
        match field_str(reply, "url"@) {
            Some(url) => Ok(url),
            None => Err(OpenErrorView::MissingUrl),
        }
    }
}

/// The address to connect to.
pub fn socket_url(reply: &Json) -> (url: Result<String, OpenError>)
    ensures
        (match url {
            Ok(u) => url_of(reply@) == Ok::<Seq<char>, OpenErrorView>(u@),
            Err(e) => url_of(reply@) == Err::<Seq<char>, OpenErrorView>(e@),
        }),
{
    if !reply_ok(reply) {
        return Err(OpenError::Api(reply_error(reply)));
    }
    match reply.get_str("url") {
        Some(url) => Ok(url),
        None => Err(OpenError::MissingUrl),
    }
}

// ---------------------------------------------------------------------------
// The machine
// ---------------------------------------------------------------------------

/// Where a listener stands.
pub enum PhaseView {
    /// An address is being asked for.
    Opening,
    /// The connection is being made.
    Connecting,
    /// A frame is being waited for.
    Reading,
    /// The frame is being acknowledged.
    Acking(JsonView),
    /// A ping is being answered.
    Ponging,
    /// An event is being handed on.
    Emitting,
    /// The connection is being closed.
    Closing,
    /// A pause before the next attempt.
    Pausing,
    /// The listener has ended.
    Over,
}

pub struct SocketView {
    pub phase: PhaseView,
    /// The seconds of the next pause.
    pub backoff: int,
    /// The event ids that were seen.
    pub seen: DedupView,
}

/// What happened.
#[derive(Debug)]
pub enum SocketInput {
    /// `apps.connections.open` answered.
    Opened { body: String },
    /// `apps.connections.open` could not be reached.
    OpenFailed,
    Connected,
    ConnectFailed,
    /// A text frame.
    Text(String),
    Ping(Vec<u8>),
    /// A frame of another kind.
    Other,
    /// A close frame, a failed read or the end of the stream.
    Dropped,
    /// What was to be sent was sent.
    Sent,
    SendFailed,
    /// The event was handed on, or could not be.
    Emitted,
    /// The pause is over.
    Waited,
    Shutdown,
}

pub enum SocketInputView {
    Opened { body: Seq<char> },
    OpenFailed,
    Connected,
    ConnectFailed,
    Text(Seq<char>),
    Ping(Seq<u8>),
    Other,
    Dropped,
    Sent,
    SendFailed,
    Emitted,
    Waited,
    Shutdown,
}

/// What to do next.
#[derive(Debug)]
pub enum SocketAction {
    /// Ask for an address.
    Open,
    /// Connect to the address.
    Connect(String),
    /// Wait for the next frame.
    Read,
    /// Send a text frame.
    Ack(String),
    /// Send a pong with these bytes.
    Pong(Vec<u8>),
    /// Hand the event on.
    Emit(NormalizedEvent),
    /// Pause for so many seconds.
    Pause(u64),
    /// Send a close frame.
    Close,
    /// The listener has ended.
    Return,
}

pub enum SocketActionView {
    Open,
    Connect(Seq<char>),
    Read,
    Ack(Seq<char>),
    Pong(Seq<u8>),
    Emit(EventView),
    Pause(int),
    Close,
    Return,
}

impl View for SocketInput {
    type V = SocketInputView;

    open spec fn view(&self) -> SocketInputView {
        match self {
            SocketInput::Opened { body } => SocketInputView::Opened { body: body@ },
            SocketInput::OpenFailed => SocketInputView::OpenFailed,
            SocketInput::Connected => SocketInputView::Connected,
            SocketInput::ConnectFailed => SocketInputView::ConnectFailed,
            SocketInput::Text(t) => SocketInputView::Text(t@),
            SocketInput::Ping(data) => SocketInputView::Ping(data@),
            SocketInput::Other => SocketInputView::Other,
            SocketInput::Dropped => SocketInputView::Dropped,
            SocketInput::Sent => SocketInputView::Sent,
            SocketInput::SendFailed => SocketInputView::SendFailed,
            SocketInput::Emitted => SocketInputView::Emitted,
            SocketInput::Waited => SocketInputView::Waited,
            SocketInput::Shutdown => SocketInputView::Shutdown,
        }
    }
}

impl View for SocketAction {
    type V = SocketActionView;

    open spec fn view(&self) -> SocketActionView {
        match self {
            SocketAction::Open => SocketActionView::Open,
            SocketAction::Connect(url) => SocketActionView::Connect(url@),
            SocketAction::Read => SocketActionView::Read,
            SocketAction::Ack(text) => SocketActionView::Ack(text@),
            SocketAction::Pong(data) => SocketActionView::Pong(data@),
            SocketAction::Emit(event) => SocketActionView::Emit(event@),
            SocketAction::Pause(secs) => SocketActionView::Pause(*secs as int),
            SocketAction::Close => SocketActionView::Close,
            SocketAction::Return => SocketActionView::Return,
        }
    }
}

pub open spec fn open_again(s: SocketView) -> (SocketView, SocketActionView) {
    (SocketView { phase: PhaseView::Opening, ..s }, SocketActionView::Open)
}

pub open spec fn read_on(s: SocketView) -> (SocketView, SocketActionView) {
    (SocketView { phase: PhaseView::Reading, ..s }, SocketActionView::Read)
}

pub open spec fn end(s: SocketView) -> (SocketView, SocketActionView) {
    (SocketView { phase: PhaseView::Over, ..s }, SocketActionView::Return)
}

/// An attempt failed: pause, and longer the next time.
pub open spec fn retry(s: SocketView) -> (SocketView, SocketActionView) {
    (
        SocketView { phase: PhaseView::Pausing, backoff: doubled(s.backoff), ..s },
        SocketActionView::Pause(s.backoff),
    )
}

/// The connection is lost: pause before the next.
pub open spec fn reconnect(s: SocketView) -> (SocketView, SocketActionView) {
    (SocketView { phase: PhaseView::Pausing, ..s }, SocketActionView::Pause(s.backoff))
}

/// What follows the answer of `apps.connections.open`.
pub open spec fn on_opened(s: SocketView, parsed: Option<JsonView>) -> (
    SocketView,
    SocketActionView,
) {
    match parsed {
        Some(reply) => match url_of(reply) {
            Ok(url) => (
                SocketView { phase: PhaseView::Connecting, ..s },
                SocketActionView::Connect(url),
            ),
            Err(_) => retry(s),
        },
        None => retry(s),
    }
}

/// The acknowledgement of an envelope.
pub open spec fn ack_json(envelope_id: Seq<char>) -> JsonView {
    JsonView::Obj(Map::empty().insert("envelope_id"@, JsonView::Str(envelope_id)))
}

/// A frame in an envelope is acknowledged before anything else is done with it.
pub open spec fn on_frame(s: SocketView, frame: JsonView, now: InstantView) -> (
    SocketView,
    SocketActionView,
) {
    match field_str(frame, "envelope_id"@) {
        Some(id) => (
            SocketView { phase: PhaseView::Acking(frame), ..s },
            SocketActionView::Ack(json_text(ack_json(id))),
        ),
        None => handle(s, frame, now),
    }
}

/// What a frame asks for, by its type.
pub open spec fn handle(s: SocketView, frame: JsonView, now: InstantView) -> (
    SocketView,
    SocketActionView,
) {
    match field_str(frame, "type"@) {
        Some(t) => if t == "disconnect"@ {
            reconnect(s)
        } else if t == "events_api"@ {
            match field(frame, "payload"@) {
                Some(payload) => forward(s, payload, now),
                None => read_on(s),
            }
        } else {
            read_on(s)
        },
        None => read_on(s),
    }
}

/// The id by which a redelivery is known. A payload without one gets an id of
/// the present time.
pub open spec fn delivery_id(payload: JsonView, now: InstantView) -> Seq<char> {
    text_or(field_str(payload, "event_id"@), "auto-"@ + decimal(nanos_or_zero(now)))
}

/// A payload that is new is handed on; a redelivery is not.
pub open spec fn forward(s: SocketView, payload: JsonView, now: InstantView) -> (
    SocketView,
    SocketActionView,
) {
    let id = delivery_id(payload, now);
    if s.seen.ids.contains(id) {
        read_on(s)
    } else {
        (
            SocketView { phase: PhaseView::Emitting, seen: remember(s.seen, id), ..s },
            SocketActionView::Emit(push_event(payload)),
        )
    }
}

/// What follows a text frame, where `parsed` is what it says: a frame that is no
/// JSON document is passed over.
pub open spec fn on_text(s: SocketView, parsed: Option<JsonView>, now: InstantView) -> (
    SocketView,
    SocketActionView,
) {
    match parsed {
        Some(frame) => on_frame(s, frame, now),
        None => read_on(s),
    }
}

/// The listener and what it does after an input. An input that it does not wait
/// for ends it.
pub open spec fn next_socket_step(
    s: SocketView,
    input: SocketInputView,
    now: InstantView,
) -> (SocketView, SocketActionView) {
    match (s.phase, input) {
        (PhaseView::Reading, SocketInputView::Shutdown) => (
            SocketView { phase: PhaseView::Closing, ..s },
            SocketActionView::Close,
        ),
        (PhaseView::Opening, SocketInputView::Opened { body }) => on_opened(s, json_parse(body)),
        (PhaseView::Opening, SocketInputView::OpenFailed) => retry(s),
        (PhaseView::Connecting, SocketInputView::Connected) => read_on(
            SocketView { backoff: FIRST_PAUSE as int, ..s },
        ),
        (PhaseView::Connecting, SocketInputView::ConnectFailed) => retry(s),
        (PhaseView::Reading, SocketInputView::Text(text)) => on_text(s, json_parse(text), now),
        (PhaseView::Reading, SocketInputView::Ping(data)) => (
            SocketView { phase: PhaseView::Ponging, ..s },
            SocketActionView::Pong(data),
        ),
        (PhaseView::Reading, SocketInputView::Other) => read_on(s),
        (PhaseView::Reading, SocketInputView::Dropped) => reconnect(s),
        (PhaseView::Acking(frame), SocketInputView::Sent) => handle(s, frame, now),
        (PhaseView::Acking(_), SocketInputView::SendFailed) => reconnect(s),
        (PhaseView::Ponging, SocketInputView::Sent) => read_on(s),
        (PhaseView::Ponging, SocketInputView::SendFailed) => reconnect(s),
        (PhaseView::Emitting, SocketInputView::Emitted) => read_on(s),
        (PhaseView::Pausing, SocketInputView::Waited) => open_again(s),
        _ => end(s),
    }
}

// ---------------------------------------------------------------------------
// The code
// ---------------------------------------------------------------------------

#[derive(Debug)]
enum SocketPhase {
    Opening,
    Connecting,
    Reading,
    Acking(Json),
    Ponging,
    Emitting,
    Closing,
    Pausing,
    Over,
}

/// One Socket Mode listener.
pub struct SocketSession {
    phase: SocketPhase,
    backoff: Backoff,
    dedup: DedupCache,
}

impl SocketSession {
    spec fn phase_view(&self) -> PhaseView {
        match self.phase {
            SocketPhase::Opening => PhaseView::Opening,
            SocketPhase::Connecting => PhaseView::Connecting,
            SocketPhase::Reading => PhaseView::Reading,
            SocketPhase::Acking(frame) => PhaseView::Acking(frame@),
            SocketPhase::Ponging => PhaseView::Ponging,
            SocketPhase::Emitting => PhaseView::Emitting,
            SocketPhase::Closing => PhaseView::Closing,
            SocketPhase::Pausing => PhaseView::Pausing,
            SocketPhase::Over => PhaseView::Over,
        }
    }
}

impl View for SocketSession {
    type V = SocketView;

    closed spec fn view(&self) -> SocketView {
        SocketView {
            phase: self.phase_view(),
            backoff: self.backoff.secs as int,
            seen: self.dedup@,
        }
    }
}

impl EventsSocketSource {
    /// Begin to listen.
    pub fn begin(&self) -> (begun: (SocketSession, SocketAction))
        requires
            self.dedup_capacity <= LARGEST_CAPACITY,
        ensures
            begun.1@ == SocketActionView::Open,
            begun.0@.phase == PhaseView::Opening,
            begun.0@.backoff == FIRST_PAUSE,
            begun.0@.seen == empty_cache(
                if self.dedup_capacity == 0 {
                    1
                } else {
                    self.dedup_capacity as nat
                },
            ),
    {
        let session: SocketSession = SocketSession {
            phase: SocketPhase::Opening,
            backoff: Backoff::new(),
            dedup: DedupCache::new(self.dedup_capacity),
        };
        (session, SocketAction::Open)
    }
}

impl SocketSession {
    fn open_again(&mut self) -> (action: SocketAction)
        ensures
            (final(self)@, action@) == open_again(old(self)@),
    {
        self.phase = SocketPhase::Opening;
        SocketAction::Open
    }

    fn read_on(&mut self) -> (action: SocketAction)
        ensures
            (final(self)@, action@) == read_on(old(self)@),
    {
        self.phase = SocketPhase::Reading;
        SocketAction::Read
    }

    fn end(&mut self) -> (action: SocketAction)
        ensures
            (final(self)@, action@) == end(old(self)@),
    {
        self.phase = SocketPhase::Over;
        SocketAction::Return
    }

    fn retry(&mut self) -> (action: SocketAction)
        ensures
            (final(self)@, action@) == retry(old(self)@),
    {
        self.phase = SocketPhase::Pausing;
        SocketAction::Pause(self.backoff.take())
    }

    fn reconnect(&mut self) -> (action: SocketAction)
        ensures
            (final(self)@, action@) == reconnect(old(self)@),
    {
        self.phase = SocketPhase::Pausing;
        SocketAction::Pause(self.backoff.secs)
    }

    /// What follows the answer of `apps.connections.open`, where `parsed` is
    /// what its body says.
    pub fn on_opened(&mut self, parsed: Option<Json>) -> (action: SocketAction)
        ensures
            (final(self)@, action@) == on_opened(old(self)@, opt_json(parsed)),
    {
        match parsed {
            Some(reply) => match socket_url(&reply) {
                Ok(url) => {
                    self.phase = SocketPhase::Connecting;
                    SocketAction::Connect(url)
                },
                Err(_) => self.retry(),
            },
            None => self.retry(),
        }
    }

    /// What follows a text frame, where `parsed` is what it says.
    pub fn on_text(&mut self, parsed: Option<Json>, now: Timestamp) -> (action: SocketAction)
        ensures
            (final(self)@, action@) == on_text(old(self)@, opt_json(parsed), now@),
    {
        match parsed {
            Some(frame) => match frame.get_str("envelope_id") {
                Some(id) => {
                    let members: Vec<Member> = vec![
                        Member { key: "envelope_id".to_owned(), value: Json::Str(id) },
                    ];
                    proof {
                        lemma_one_member(members@);
                    }
                    let ack: String = render(&Json::Obj(members));
                    self.phase = SocketPhase::Acking(frame);
                    SocketAction::Ack(ack)
                },
                None => self.handle(&frame, now),
            },
            None => self.read_on(),
        }
    }

    /// What a frame asks for, by its type.
    fn handle(&mut self, frame: &Json, now: Timestamp) -> (action: SocketAction)
        ensures
            (final(self)@, action@) == handle(old(self)@, frame@, now@),
    {
        match frame.get_str("type") {
            Some(t) => if same_text(t.as_str(), "disconnect") {
                self.reconnect()
            } else if same_text(t.as_str(), "events_api") {
                match frame.get("payload") {
                    Some(payload) => self.forward(payload, now),
                    None => self.read_on(),
                }
            } else {
                self.read_on()
            },
            None => self.read_on(),
        }
    }

    /// A payload that is new is handed on; a redelivery is not.
    fn forward(&mut self, payload: &Json, now: Timestamp) -> (action: SocketAction)
        ensures
            (final(self)@, action@) == forward(old(self)@, payload@, now@),
    {
        let id: String = match payload.get_str("event_id") {
            Some(id) => id,
            None => {
                let mut id: String = "auto-".to_owned();
                id.append(i64_text(now.nanos_since_epoch()).as_str());
                id
            },
        };
        if !self.dedup.record(id.as_str()) {
            return self.read_on();
        }
        match normalize_events_payload(payload.clone()) {
            Ok(event) => {
                self.phase = SocketPhase::Emitting;
                SocketAction::Emit(event)
            },
            Err(_) => self.read_on(),
        }
    }

    /// Go on after `input`.
    pub fn step(&mut self, input: SocketInput, now: Timestamp) -> (action: SocketAction)
        ensures
            (final(self)@, action@) == next_socket_step(old(self)@, input@, now@),
    {
        let mut phase: SocketPhase = SocketPhase::Over;
        std::mem::swap(&mut phase, &mut self.phase);
        match (phase, input) {
            (SocketPhase::Reading, SocketInput::Shutdown) => {
                self.phase = SocketPhase::Closing;
                SocketAction::Close
            },
            (SocketPhase::Opening, SocketInput::Opened { body }) => {
                let parsed: Option<Json> = parse_document(body.as_str());
                self.on_opened(parsed)
            },
            (SocketPhase::Opening, SocketInput::OpenFailed) => self.retry(),
            (SocketPhase::Connecting, SocketInput::Connected) => {
                self.backoff = Backoff::new();
                self.read_on()
            },
            (SocketPhase::Connecting, SocketInput::ConnectFailed) => self.retry(),
            (SocketPhase::Reading, SocketInput::Text(text)) => {
                let parsed: Option<Json> = parse_document(text.as_str());
                self.on_text(parsed, now)
            },
            (SocketPhase::Reading, SocketInput::Ping(data)) => {
                self.phase = SocketPhase::Ponging;
                SocketAction::Pong(data)
            },
            (SocketPhase::Reading, SocketInput::Other) => self.read_on(),
            (SocketPhase::Reading, SocketInput::Dropped) => self.reconnect(),
            (SocketPhase::Acking(frame), SocketInput::Sent) => self.handle(&frame, now),
            (SocketPhase::Acking(_), SocketInput::SendFailed) => self.reconnect(),
            (SocketPhase::Ponging, SocketInput::Sent) => self.read_on(),
            (SocketPhase::Ponging, SocketInput::SendFailed) => self.reconnect(),
            (SocketPhase::Emitting, SocketInput::Emitted) => self.read_on(),
            (SocketPhase::Pausing, SocketInput::Waited) => self.open_again(),
            _ => self.end(),
        }
    }
}

// ---------------------------------------------------------------------------
// Laws
// ---------------------------------------------------------------------------

/// A frame in an envelope is acknowledged by its id, whatever it asks for, and
/// until the acknowledgement is sent nothing else is done with it.
pub proof fn law_acknowledged_before_work(
    s: SocketView,
    text: Seq<char>,
    frame: JsonView,
    id: Seq<char>,
    now: InstantView,
)
    requires
        s.phase == PhaseView::Reading,
        json_parse(text) == Some(frame),
        field_str(frame, "envelope_id"@) == Some(id),
    ensures
        ({
            let (after, action) = next_socket_step(s, SocketInputView::Text(text), now);
            &&& action == SocketActionView::Ack(json_text(ack_json(id)))
            &&& after.seen == s.seen
            &&& next_socket_step(after, SocketInputView::Sent, now) == handle(after, frame, now)
            &&& next_socket_step(after, SocketInputView::SendFailed, now) == reconnect(after)
        }),
{
}

/// An event is handed on once: its id was not known, and is known from then on.
pub proof fn law_redelivery_is_suppressed(s: SocketView, input: SocketInputView, now: InstantView)
    requires
        well_formed(s.seen),
    ensures
        ({
            let (after, action) = next_socket_step(s, input, now);
            &&& well_formed(after.seen)
            &&& action matches SocketActionView::Emit(e) ==> {
                let id = delivery_id(e.raw, now);
                &&& !s.seen.ids.contains(id)
                &&& after.seen.ids.contains(id)
                &&& after.seen == remember(s.seen, id)
            }
            &&& !(action is Emit) ==> after.seen == s.seen
        }),
{
    let (after, action) = next_socket_step(s, input, now);
    if let SocketActionView::Emit(e) = action {
        lemma_remember(s.seen, delivery_id(e.raw, now));
    }
}

/// A pause lasts from one second to half a minute; a failed attempt doubles the
/// next, and a connection starts afresh.
pub proof fn law_pauses_are_bounded(s: SocketView, input: SocketInputView, now: InstantView)
    requires
        is_pause(s.backoff),
    ensures
        ({
            let (after, action) = next_socket_step(s, input, now);
            &&& is_pause(after.backoff)
            &&& action matches SocketActionView::Pause(secs) ==> secs == s.backoff
            &&& s.phase == PhaseView::Connecting && input == SocketInputView::Connected
                ==> after.backoff == FIRST_PAUSE
            &&& s.phase == PhaseView::Connecting && input == SocketInputView::ConnectFailed
                ==> after.backoff == doubled(s.backoff)
        }),
{
}

/// A shutdown ends the listener: an open connection is closed first, and after
/// that nothing more is done.
pub proof fn law_shutdown_ends(s: SocketView, later: SocketInputView, now: InstantView)
    ensures
        ({
            let (after, action) = next_socket_step(s, SocketInputView::Shutdown, now);
            &&& s.phase == PhaseView::Reading ==> action == SocketActionView::Close
            &&& s.phase != PhaseView::Reading ==> action == SocketActionView::Return
            &&& next_socket_step(after, later, now).1 == SocketActionView::Return
        }),
{
}

/// A frame that carries an event: its type says so, and it has a payload.
pub open spec fn carries_event(frame: JsonView, payload: JsonView) -> bool {
    &&& has_text(frame, "type"@, "events_api"@)
    &&& has_member(frame, "payload"@, payload)
}

/// `id` is what a redelivery of the payload is known by: its own id, or one made of
/// the present time where it has none.
pub open spec fn is_known_by(payload: JsonView, id: Seq<char>, now: InstantView) -> bool {
    ||| has_text(payload, "event_id"@, id)
    ||| lacks_text(payload, "event_id"@) && id == "auto-"@ + decimal(nanos_or_zero(now))
}

/// The listener with its place changed and nothing else.
pub open spec fn moved(s: SocketView, phase: PhaseView) -> SocketView {
    SocketView { phase, backoff: s.backoff, seen: s.seen }
}

/// Every new event is handed on, whatever its payload holds: at once where the
/// frame is in no envelope, and else as soon as the acknowledgement is sent. From
/// then on its id is known.
pub proof fn law_new_event_is_handed_on(
    s: SocketView,
    text: Seq<char>,
    frame: JsonView,
    payload: JsonView,
    envelope: Seq<char>,
    id: Seq<char>,
    now: InstantView,
    later: InstantView,
)
    requires
        s.phase == PhaseView::Reading,
        json_parse(text) == Some(frame),
        carries_event(frame, payload),
        !s.seen.ids.contains(id),
    ensures
        ({
            let (after, action) = next_socket_step(s, SocketInputView::Text(text), now);
            let (then, next) = next_socket_step(after, SocketInputView::Sent, later);
            &&& lacks_text(frame, "envelope_id"@) && is_known_by(payload, id, now) ==> {
                &&& action == SocketActionView::Emit(push_event(payload))
                &&& after.phase == PhaseView::Emitting
                &&& after.backoff == s.backoff
                &&& after.seen == remember(s.seen, id)
            }
            &&& has_text(frame, "envelope_id"@, envelope) && is_known_by(payload, id, later) ==> {
                &&& action is Ack
                &&& next == SocketActionView::Emit(push_event(payload))
                &&& then.phase == PhaseView::Emitting
                &&& then.backoff == s.backoff
                &&& then.seen == remember(s.seen, id)
            }
        }),
{
    reveal_strlit("events_api");
    reveal_strlit("disconnect");
    assert("events_api"@[0] == 'e' && "disconnect"@[0] == 'd');
}

/// An event whose id is known is dropped: the listener reads on and is what it was.
pub proof fn law_redelivery_is_dropped(
    s: SocketView,
    text: Seq<char>,
    frame: JsonView,
    payload: JsonView,
    envelope: Seq<char>,
    id: Seq<char>,
    now: InstantView,
    later: InstantView,
)
    requires
        s.phase == PhaseView::Reading,
        json_parse(text) == Some(frame),
        carries_event(frame, payload),
        s.seen.ids.contains(id),
    ensures
        ({
            let (after, action) = next_socket_step(s, SocketInputView::Text(text), now);
            let (then, next) = next_socket_step(after, SocketInputView::Sent, later);
            &&& lacks_text(frame, "envelope_id"@) && is_known_by(payload, id, now) ==> action
                == SocketActionView::Read && after == moved(s, PhaseView::Reading)
            &&& has_text(frame, "envelope_id"@, envelope) && is_known_by(payload, id, later) ==> {
                &&& action is Ack
                &&& next == SocketActionView::Read
                &&& then == moved(s, PhaseView::Reading)
            }
        }),
{
    reveal_strlit("events_api");
    reveal_strlit("disconnect");
    assert("events_api"@[0] == 'e' && "disconnect"@[0] == 'd');
}

/// A frame in an envelope is answered with the id of the envelope and with nothing
/// else, whatever the frame is for.
pub proof fn law_envelope_is_answered(
    s: SocketView,
    text: Seq<char>,
    frame: JsonView,
    envelope: Seq<char>,
    now: InstantView,
)
    requires
        s.phase == PhaseView::Reading,
        json_parse(text) == Some(frame),
        has_text(frame, "envelope_id"@, envelope),
    ensures
        ({
            let (after, action) = next_socket_step(s, SocketInputView::Text(text), now);
            &&& after == moved(s, PhaseView::Acking(frame))
            &&& action matches SocketActionView::Ack(reply) && reply == json_text(
                JsonView::Obj(map!["envelope_id"@ => JsonView::Str(envelope)]),
            )
        }),
{
    assert(Map::<Seq<char>, JsonView>::empty().insert("envelope_id"@, JsonView::Str(envelope))
        =~= map!["envelope_id"@ => JsonView::Str(envelope)]);
}

/// Slack asks for a new connection: the listener pauses as long as is due and then
/// asks for an address.
pub proof fn law_disconnect_reconnects(
    s: SocketView,
    text: Seq<char>,
    frame: JsonView,
    envelope: Seq<char>,
    now: InstantView,
)
    requires
        s.phase == PhaseView::Reading,
        json_parse(text) == Some(frame),
        has_text(frame, "type"@, "disconnect"@),
    ensures
        ({
            let (after, action) = next_socket_step(s, SocketInputView::Text(text), now);
            let (then, next) = next_socket_step(after, SocketInputView::Sent, now);
            &&& lacks_text(frame, "envelope_id"@) ==> action == SocketActionView::Pause(s.backoff)
                && after == moved(s, PhaseView::Pausing)
            &&& has_text(frame, "envelope_id"@, envelope) ==> next == SocketActionView::Pause(
                s.backoff,
            ) && then == moved(s, PhaseView::Pausing)
        }),
{
}

/// Any other frame, an event without a payload, and a text that is no document are
/// passed over: the listener reads on and is what it was.
pub proof fn law_other_frames_are_passed_over(
    s: SocketView,
    text: Seq<char>,
    frame: JsonView,
    now: InstantView,
)
    requires
        s.phase == PhaseView::Reading,
    ensures
        ({
            let (after, action) = next_socket_step(s, SocketInputView::Text(text), now);
            let (then, next) = next_socket_step(after, SocketInputView::Sent, now);
            let idle = {
                &&& !has_text(frame, "type"@, "disconnect"@)
                &&& has_text(frame, "type"@, "events_api"@) ==> lacks_member(frame, "payload"@)
            };
            &&& json_parse(text) is None ==> action == SocketActionView::Read && after == moved(
                s,
                PhaseView::Reading,
            )
            &&& json_parse(text) == Some(frame) && idle ==> {
                &&& lacks_text(frame, "envelope_id"@) ==> action == SocketActionView::Read && after
                    == moved(s, PhaseView::Reading)
                &&& !lacks_text(frame, "envelope_id"@) ==> next == SocketActionView::Read && then
                    == moved(s, PhaseView::Reading)
            }
        }),
{
}

/// A connection is made to the address that Slack names where the call succeeded;
/// else the listener pauses, and twice as long the next time, half a minute at
/// most.
pub proof fn law_opening(
    s: SocketView,
    body: Seq<char>,
    reply: JsonView,
    url: Seq<char>,
    now: InstantView,
)
    requires
        s.phase == PhaseView::Opening,
        is_pause(s.backoff),
    ensures
        ({
            let (after, action) = next_socket_step(s, SocketInputView::Opened { body }, now);
            let failed = {
                &&& action == SocketActionView::Pause(s.backoff)
                &&& after.phase == PhaseView::Pausing
                &&& after.seen == s.seen
                &&& after.backoff == (if s.backoff <= 15 {
                    2 * s.backoff
                } else {
                    30
                })
            };
            let ok = has_member(reply, "ok"@, JsonView::Bool(true));
            &&& json_parse(body) is None ==> failed
            &&& json_parse(body) == Some(reply) ==> {
                &&& ok && has_text(reply, "url"@, url) ==> action == SocketActionView::Connect(url)
                    && after == moved(s, PhaseView::Connecting)
                &&& !ok || lacks_text(reply, "url"@) ==> failed
            }
            &&& !ok ==> url_of(reply) is Err
            &&& ok && has_text(reply, "url"@, url) ==> url_of(reply) == Ok::<
                Seq<char>,
                OpenErrorView,
            >(url)
        }),
{
}

/// Why no connection was opened: what Slack names, or that it names no address.
pub proof fn law_open_errors(reply: JsonView, error: Seq<char>)
    ensures
        ({
            let ok = has_member(reply, "ok"@, JsonView::Bool(true));
            let refused = Err::<Seq<char>, OpenErrorView>(OpenErrorView::Api(error));
            &&& !ok && has_text(reply, "error"@, error) ==> url_of(reply) == refused
            &&& !ok && lacks_text(reply, "error"@) && error == "?"@ ==> url_of(reply) == refused
            &&& ok && lacks_text(reply, "url"@) ==> url_of(reply) == Err::<
                Seq<char>,
                OpenErrorView,
            >(OpenErrorView::MissingUrl)
        }),
{
}

/// What follows every other input that the listener waits for. The ids that it
/// knows stay what they were.
pub proof fn law_other_inputs(s: SocketView, data: Seq<u8>, frame: JsonView, now: InstantView)
    requires
        is_pause(s.backoff),
    ensures
        ({
            let longer = SocketView {
                phase: PhaseView::Pausing,
                backoff: if s.backoff <= 15 {
                    2 * s.backoff
                } else {
                    30
                },
                seen: s.seen,
            };
            let pause = SocketActionView::Pause(s.backoff);
            let to = |input: SocketInputView| next_socket_step(s, input, now);
            let read = (moved(s, PhaseView::Reading), SocketActionView::Read);
            let lost = (moved(s, PhaseView::Pausing), pause);
            &&& s.phase == PhaseView::Opening ==> to(SocketInputView::OpenFailed) == (longer, pause)
            &&& s.phase == PhaseView::Connecting ==> {
                &&& to(SocketInputView::ConnectFailed) == (longer, pause)
                &&& to(SocketInputView::Connected) == (
                    SocketView { phase: PhaseView::Reading, backoff: 1, seen: s.seen },
                    SocketActionView::Read,
                )
            }
            &&& s.phase == PhaseView::Reading ==> {
                &&& to(SocketInputView::Ping(data)) == (
                    moved(s, PhaseView::Ponging),
                    SocketActionView::Pong(data),
                )
                &&& to(SocketInputView::Other) == read
                &&& to(SocketInputView::Dropped) == lost
            }
            &&& s.phase == PhaseView::Acking(frame) ==> to(SocketInputView::SendFailed) == lost
            &&& s.phase == PhaseView::Ponging ==> {
                &&& to(SocketInputView::Sent) == read
                &&& to(SocketInputView::SendFailed) == lost
            }
            &&& s.phase == PhaseView::Emitting ==> to(SocketInputView::Emitted) == read
            &&& s.phase == PhaseView::Pausing ==> to(SocketInputView::Waited) == (
                moved(s, PhaseView::Opening),
                SocketActionView::Open,
            )
        }),
{
}

/// Where an address is asked for, and how many ids a listener remembers.
pub proof fn law_terms_of_the_listener()
    ensures
        CONNECTIONS_OPEN_URL@ == "https://slack.com/api/apps.connections.open"@,
        SOCKET_DEDUP_CAPACITY == 10_000,
{
}

/// What happened is seen as it is.
pub proof fn law_socket_inputs_are_seen_whole(input: SocketInput)
    ensures
        input matches SocketInput::Opened { body } ==> input@ == (SocketInputView::Opened {
            body: body@,
        }),
        input matches SocketInput::Text(text) ==> input@ == SocketInputView::Text(text@),
        input matches SocketInput::Ping(data) ==> input@ == SocketInputView::Ping(data@),
        input is OpenFailed <==> input@ is OpenFailed,
        input is Connected <==> input@ is Connected,
        input is ConnectFailed <==> input@ is ConnectFailed,
        input is Other <==> input@ is Other,
        input is Dropped <==> input@ is Dropped,
        input is Sent <==> input@ is Sent,
        input is SendFailed <==> input@ is SendFailed,
        input is Emitted <==> input@ is Emitted,
        input is Waited <==> input@ is Waited,
        input is Shutdown <==> input@ is Shutdown,
{
}

/// What to do, and why no connection was opened, is seen as it is.
pub proof fn law_socket_actions_are_seen_whole(action: SocketAction, error: OpenError)
    ensures
        action matches SocketAction::Connect(url) ==> action@ == SocketActionView::Connect(url@),
        action matches SocketAction::Ack(text) ==> action@ == SocketActionView::Ack(text@),
        action matches SocketAction::Pong(data) ==> action@ == SocketActionView::Pong(data@),
        action matches SocketAction::Emit(e) ==> action@ == SocketActionView::Emit(e@),
        action matches SocketAction::Pause(secs) ==> action@ == SocketActionView::Pause(
            secs as int,
        ),
        action is Open <==> action@ is Open,
        action is Read <==> action@ is Read,
        action is Close <==> action@ is Close,
        action is Return <==> action@ is Return,
        error matches OpenError::Api(text) ==> error@ == OpenErrorView::Api(text@),
        error is MissingUrl <==> error@ is MissingUrl,
{
}

}
